use depot::config::{InputConfig, Options};
use depot::message::MessageFormat;
use depot::server::{find_input, plan_delivery, prepare_delivery, Delivery, Prepared};

fn input(tag: &str, module: &str, option: Option<Options>) -> InputConfig {
    let mut produce = Options::new();
    produce.insert("type".to_string(), "file".to_string());
    InputConfig { tag: tag.to_string(), module: module.to_string(), option, parse: None, filter: None, produce }
}

fn message(tag: &str, text: &str) -> MessageFormat {
    MessageFormat { timestamp: "10".to_string(), tag: tag.to_string(), message: text.to_string() }
}

#[test]
fn find_input_takes_the_first_with_the_tag() {
    let inputs = vec![input("a", "", None), input("b", "", None), input("b", "", None)];
    assert_eq!(find_input(&inputs, "b"), Some(1));
    assert_eq!(find_input(&inputs, "a"), Some(0));
    assert_eq!(find_input(&inputs, "c"), None);
}

#[test]
fn prepare_without_input() {
    let inputs = vec![input("a", "transform-demo", None)];
    assert!(matches!(prepare_delivery(&inputs, &message("z", "x")), Prepared::NoInput));
}

#[test]
fn prepare_with_demo_module() {
    let inputs = vec![input("x", "", None), input("syslog", "transform-demo", None)];
    match prepare_delivery(&inputs, &message("syslog", "Hello World")) {
        Prepared::Deliver { input, message } => {
            assert_eq!(input, 1);
            assert_eq!(message, r#"{"timestamp":"10","tag":"syslog","message":"hello world"}"#);
        },
        _ => panic!("expected a delivery"),
    }
}

#[test]
fn prepare_without_module_passes_json() {
    let inputs = vec![input("syslog", "none", None)];
    match prepare_delivery(&inputs, &message("syslog", "Hi")) {
        Prepared::Deliver { input, message } => {
            assert_eq!(input, 0);
            assert_eq!(message, r#"{"timestamp":"10","tag":"syslog","message":"Hi"}"#);
        },
        _ => panic!("expected a delivery"),
    }
}

#[test]
fn prepare_with_failing_regex_module() {
    let inputs = vec![input("syslog", "transform-regex", None)];
    match prepare_delivery(&inputs, &message("syslog", "Hi")) {
        Prepared::TransformFailed(e) => assert_eq!(e, r#"{"TIMESTAMP":"10","TAG":"SYSLOG","MESSAGE":"HI"}"#),
        _ => panic!("expected a failure"),
    }
}

#[test]
fn prepare_with_invalid_pattern() {
    let mut o = Options::new();
    o.insert("exp".to_string(), "(".to_string());
    let inputs = vec![input("syslog", "transform-regex", Some(o))];
    assert!(matches!(prepare_delivery(&inputs, &message("syslog", "Hi")), Prepared::InvalidPattern));
}

#[test]
fn prepare_with_regex_module() {
    let mut o = Options::new();
    o.insert("exp".to_string(), r#""message":"(?P<word>\w+)"#.to_string());
    o.insert("word".to_string(), "word".to_string());
    let inputs = vec![input("syslog", "transform-regex", Some(o))];
    match prepare_delivery(&inputs, &message("syslog", "Hello there")) {
        Prepared::Deliver { input, message } => {
            assert_eq!(input, 0);
            assert_eq!(message, r#"{"exp":"","word":"Hello"}"#);
        },
        _ => panic!("expected a delivery"),
    }
}

fn produce(pairs: &[(&str, &str)]) -> Options {
    let mut o = Options::new();
    for (k, v) in pairs {
        o.insert(k.to_string(), v.to_string());
    }
    o
}

#[test]
fn plan_kafka_delivery() {
    let o = produce(&[("type", "kafka"), ("bootstrap_server", "localhost:9092"), ("topic", "logs")]);
    match plan_delivery("{\"a\":\"b\"}", &o) {
        Ok(Delivery::Kafka { bootstrap_servers, topic, key, header_key, header_value, payload }) => {
            assert_eq!(bootstrap_servers, "localhost:9092");
            assert_eq!(topic, Some("logs".to_string()));
            assert_eq!(key, "test-key");
            assert_eq!(header_key, "header_key");
            assert_eq!(header_value, "header_value");
            assert_eq!(payload, "\"{\\\"a\\\":\\\"b\\\"}\"");
            assert_eq!(payload, serde_json::to_string("{\"a\":\"b\"}").unwrap());
        },
        _ => panic!("expected a Kafka delivery"),
    }
}

#[test]
fn plan_kafka_delivery_without_topic() {
    let o = produce(&[("type", "kafka"), ("bootstrap_server", "b:9092")]);
    match plan_delivery("m\n\"x\"", &o) {
        Ok(Delivery::Kafka { topic, payload, .. }) => {
            assert_eq!(topic, None);
            let back: String = serde_json::from_str(&payload).unwrap();
            assert_eq!(back, "m\n\"x\"");
        },
        _ => panic!("expected a Kafka delivery"),
    }
}

#[test]
fn plan_file_delivery() {
    let o = produce(&[("type", "file")]);
    match plan_delivery("line one", &o) {
        Ok(Delivery::File { path, line }) => {
            assert_eq!(path, "output.txt");
            assert_eq!(line, "line one\n");
        },
        _ => panic!("expected a file delivery"),
    }
}

#[test]
fn plan_unknown_target() {
    let o = produce(&[("type", "csv")]);
    assert!(matches!(plan_delivery("m", &o), Err(e) if e == "Unknown target: csv"));
}
