use depot::config::Options;
use depot::transform::{
    get_transformer, transform_or_pass, ModuleTransformer, TransformDemoModule, TransformDemoModuleSecond,
    TransformRegexModule, Transformer,
};

const SYSLOG: &str = r"(?m)^(?P<timestamp>\w{3}\s+\d{1,2}\s+\d{2}:\d{2}:\d{2})\s+(?P<host>[\w-]+(?:\s+[\w-]+)*)\s+(?P<process>[\w-]+\[\d+\])?:\s+(?P<message>.+)$";

fn syslog_options() -> Options {
    let mut o = Options::new();
    o.insert("exp".to_string(), SYSLOG.to_string());
    o.insert("timestamp".to_string(), "timestamp".to_string());
    o.insert("host".to_string(), "host".to_string());
    o.insert("process".to_string(), "process".to_string());
    o.insert("message".to_string(), "message".to_string());
    o
}

#[test]
fn regex_module_builds_json_of_groups() {
    let line = "Nov  3 16:36:42 depot-MacBook-Air login[2735]: DEAD_PROCESS: 2735 ttys003\n        \n        ";
    let out = TransformRegexModule.transform(line, &Some(syslog_options())).unwrap();
    assert_eq!(
        out,
        r#"{"exp":"","host":"depot-MacBook-Air","message":"DEAD_PROCESS: 2735 ttys003","process":"login[2735]","timestamp":"Nov  3 16:36:42"}"#
    );
}

#[test]
fn regex_module_without_options_upper_cases() {
    assert_eq!(TransformRegexModule.transform("abc", &None), Err("ABC".to_string()));
}

#[test]
fn regex_module_without_exp() {
    let mut o = Options::new();
    o.insert("k".to_string(), "v".to_string());
    assert_eq!(TransformRegexModule.transform("abc", &Some(o)), Err("Error: 'exp' key not found!".to_string()));
}

#[test]
fn regex_module_without_match_upper_cases() {
    let mut o = Options::new();
    o.insert("exp".to_string(), "^z+$".to_string());
    assert_eq!(TransformRegexModule.transform("abc", &Some(o)), Err("ABC".to_string()));
}

#[test]
fn regex_module_group_missing_gives_empty() {
    let mut o = Options::new();
    o.insert("exp".to_string(), "(?P<a>x)|(?P<b>y)".to_string());
    o.insert("first".to_string(), "a".to_string());
    o.insert("second".to_string(), "b".to_string());
    assert_eq!(
        TransformRegexModule.transform("y", &Some(o)),
        Ok(r#"{"exp":"","first":"","second":"y"}"#.to_string())
    );
}

#[test]
fn regex_module_invalid_pattern_is_refused() {
    let mut o = Options::new();
    o.insert("exp".to_string(), "(".to_string());
    let o = Some(o);
    assert!(!TransformRegexModule.can_run(&o));
    assert_eq!(TransformRegexModule.try_transform("abc", &o), None);
    assert!(TransformRegexModule.can_run(&None));
}

#[test]
fn demo_modules_lower_case() {
    assert_eq!(TransformDemoModule.transform("HeLLo ÄÖ", &None), Ok("hello äö".to_string()));
    assert_eq!(TransformDemoModuleSecond.transform("ABC", &None), Ok("abc".to_string()));
}

#[test]
fn get_transformer_by_name() {
    assert!(matches!(get_transformer("transform-regex"), Some(ModuleTransformer::Regex(_))));
    assert!(matches!(get_transformer("transform-demo"), Some(ModuleTransformer::Demo(_))));
    assert!(get_transformer("transform-demo-second").is_none());
    assert!(get_transformer("").is_none());
}

#[test]
fn transform_or_pass_without_module_passes() {
    assert_eq!(transform_or_pass(&None, "As Is", &None), Some(Ok("As Is".to_string())));
    assert_eq!(
        transform_or_pass(&get_transformer("transform-demo"), "As Is", &None),
        Some(Ok("as is".to_string()))
    );
    let mut o = Options::new();
    o.insert("exp".to_string(), "[".to_string());
    assert_eq!(transform_or_pass(&get_transformer("transform-regex"), "x", &Some(o)), None);
}
