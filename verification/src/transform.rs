//! Transformation modules: what a server does to a message of an input before
//! it delivers it.

use vstd::prelude::*;
use crate::config::{entry_views, lookup, Options};
use crate::text::{str_eq, to_lowercase, to_uppercase, unicode_lowercase, unicode_uppercase};

verus! {

/// The view of an input's optional module options.
pub open spec fn options_view(o: Option<Options>) -> Option<Seq<(Seq<char>, Seq<char>)>> {
    match o {
        Some(opts) => Some(opts@),
        None => None,
    }
}

/// The view of a transformation's result.
pub open spec fn result_view(r: Result<String, String>) -> Result<Seq<char>, Seq<char>> {
    match r {
        Ok(s) => Ok(s@),
        Err(e) => Err(e@),
    }
}

/// A transformation module. Each module says on which messages and options it
/// can run (`accepts`) and what it then returns (`outcome`).
pub trait Transformer {
    /// Whether the module can run on `message` with `option`.
    spec fn accepts(&self, message: Seq<char>, option: Option<Seq<(Seq<char>, Seq<char>)>>) -> bool;

    /// What the module returns for `message` with `option`.
    spec fn outcome(&self, message: Seq<char>, option: Option<Seq<(Seq<char>, Seq<char>)>>) -> Result<Seq<char>, Seq<char>>;

    /// Transforms `message` under the module's options.
    fn transform(&self, message: &str, option: &Option<Options>) -> (r: Result<String, String>)
        requires
            self.accepts(message@, options_view(*option)),
        ensures
            result_view(r) == self.outcome(message@, options_view(*option)),
    ;
}

/// Whether `exp` is a pattern that `regex::Regex::new` accepts.
pub uninterp spec fn regex_compiles(exp: Seq<char>) -> bool;

/// Whether the pattern `exp` matches somewhere in `haystack` (`Regex::captures` gives `Some`).
pub uninterp spec fn regex_finds(exp: Seq<char>, haystack: Seq<char>) -> bool;

/// The text that the named group `group` captured in the first match of `exp`
/// in `haystack`, as `Captures::name` gives it; `None` when the group did not
/// take part in the match or does not exist.
pub uninterp spec fn regex_group(exp: Seq<char>, haystack: Seq<char>, group: Seq<char>) -> Option<Seq<char>>;

/// `regex::Regex::new(exp).is_ok()`: the result is named `regex_compiles(exp@)`.
#[verifier::external_body]
fn regex_is_valid(exp: &str) -> (b: bool)
    ensures
        b == regex_compiles(exp@),
{
    regex::Regex::new(exp).is_ok()
}

/// Compiles `exp` with `regex::Regex::new`, runs `Regex::captures` on
/// `message`, and for each of `groups` reads `Captures::name`. Its contract
/// claims that the match is found exactly when `regex_finds` says so, and that
/// each group's text is `regex_group` of it.
#[verifier::external_body]
fn regex_capture_groups(exp: &str, message: &str, groups: &Vec<String>) -> (r: Option<Vec<Option<String>>>)
    requires
        regex_compiles(exp@),
    ensures
        r is Some == regex_finds(exp@, message@),
        r matches Some(v) ==> v@.len() == groups@.len() && forall|i: int|
            0 <= i < v@.len() ==> match #[trigger] v@[i] {
                Some(t) => regex_group(exp@, message@, groups@[i]@) == Some(t@),
                None => regex_group(exp@, message@, groups@[i]@) is None,
            },
{
    let re = regex::Regex::new(exp).unwrap();
    re.captures(message).map(
        |caps| groups.iter().map(|g| caps.name(g.as_str()).map(|m| m.as_str().to_string())).collect(),
    )
}

/// The text of the JSON object that serde_json writes for the string members
/// `entries` (`serde_json::Value::to_string` on an object).
pub uninterp spec fn json_object_text(entries: Seq<(Seq<char>, Seq<char>)>) -> Seq<char>;

/// Builds a `serde_json::Value` object whose members are `entries`, with string
/// values, and writes it with `to_string`: the result is named
/// `json_object_text` of the entries.
#[verifier::external_body]
fn json_object(entries: &Vec<(String, String)>) -> (out: String)
    ensures
        out@ == json_object_text(entry_views(entries@)),
{
    let map: serde_json::Map<String, serde_json::Value> = entries.iter().map(
        |e| (e.0.clone(), serde_json::Value::String(e.1.clone())),
    ).collect();
    serde_json::Value::Object(map).to_string()
}

/// The member for the option `e` (a key and a group name): the key, and the
/// group's text in the match of `exp` in `message`, or the empty text.
pub open spec fn captured_member(exp: Seq<char>, message: Seq<char>, e: (Seq<char>, Seq<char>)) -> (Seq<char>, Seq<char>) {
    (e.0, match regex_group(exp, message, e.1) {
        Some(t) => t,
        None => Seq::empty(),
    })
}

/// The regular-expression module: with the pattern under the option `exp`, it
/// turns a message into a JSON object that maps each option's key to the text
/// that the group named by the option's value captured.
pub struct TransformRegexModule;

/// What the regular-expression module returns.
pub open spec fn regex_transform_spec(message: Seq<char>, option: Option<Seq<(Seq<char>, Seq<char>)>>) -> Result<Seq<char>, Seq<char>> {
    match option {
        None => Err(unicode_uppercase(message)),
        Some(opts) => match lookup(opts, "exp"@) {
            None => Err("Error: 'exp' key not found!"@),
            Some(exp) => if regex_finds(exp, message) {
                Ok(json_object_text(opts.map_values(|e: (Seq<char>, Seq<char>)| captured_member(exp, message, e))))
            } else {
                Err(unicode_uppercase(message))
            },
        },
    }
}

/// Whether the regular-expression module can run with `option`: its pattern,
/// when there is one, must compile.
pub open spec fn regex_transform_accepts(option: Option<Seq<(Seq<char>, Seq<char>)>>) -> bool {
    match option {
        Some(opts) => match lookup(opts, "exp"@) {
            Some(exp) => regex_compiles(exp),
            None => true,
        },
        None => true,
    }
}

impl TransformRegexModule {
    /// Whether this module can run with `option`.
    pub fn can_run(&self, option: &Option<Options>) -> (b: bool)
        ensures
            b == regex_transform_accepts(options_view(*option)),
    {
        match option {
            Some(opts) => match opts.get("exp") {
                Some(exp) => regex_is_valid(exp.as_str()),
                None => true,
            },
            None => true,
        }
    }

    /// Transforms `message` when the pattern compiles, and gives `None` when it does not.
    pub fn try_transform(&self, message: &str, option: &Option<Options>) -> (r: Option<Result<String, String>>)
        ensures
            r is None == !regex_transform_accepts(options_view(*option)),
            r matches Some(t) ==> result_view(t) == regex_transform_spec(message@, options_view(*option)),
    {
        if self.can_run(option) {
            Some(self.transform(message, option))
        } else {
            None
        }
    }
}

/// The regular-expression module works with the pattern exactly as the option
/// `exp` gives it: it can run when that pattern compiles, it succeeds when that
/// pattern matches the message, each key then holds the text that the group
/// named by its value captured in that match (or nothing), and otherwise it
/// fails with the message in upper case.
pub proof fn lemma_regex_module_uses_configured_pattern(
    m: TransformRegexModule,
    message: Seq<char>,
    opts: Seq<(Seq<char>, Seq<char>)>,
    exp: Seq<char>,
)
    requires
        lookup(opts, "exp"@) == Some(exp),
    ensures
        m.accepts(message, Some(opts)) == regex_compiles(exp),
        m.outcome(message, Some(opts)) is Ok == regex_finds(exp, message),
        !regex_finds(exp, message) ==> m.outcome(message, Some(opts)) == Err::<Seq<char>, Seq<char>>(
            unicode_uppercase(message),
        ),
        regex_finds(exp, message) ==> m.outcome(message, Some(opts)) == Ok::<Seq<char>, Seq<char>>(
            json_object_text(
                Seq::new(
                    opts.len(),
                    |i: int|
                        (opts[i].0, match regex_group(exp, message, opts[i].1) {
                            Some(t) => t,
                            None => Seq::<char>::empty(),
                        }),
                ),
            ),
        ),
{
    assert(opts.map_values(|e: (Seq<char>, Seq<char>)| captured_member(exp, message, e)) =~= Seq::new(
        opts.len(),
        |i: int|
            (opts[i].0, match regex_group(exp, message, opts[i].1) {
                Some(t) => t,
                None => Seq::<char>::empty(),
            }),
    ));
}

impl Transformer for TransformRegexModule {
    open spec fn accepts(&self, message: Seq<char>, option: Option<Seq<(Seq<char>, Seq<char>)>>) -> bool {
        regex_transform_accepts(option)
    }

    open spec fn outcome(&self, message: Seq<char>, option: Option<Seq<(Seq<char>, Seq<char>)>>) -> Result<Seq<char>, Seq<char>> {
        regex_transform_spec(message, option)
    }

    fn transform(&self, message: &str, option: &Option<Options>) -> (r: Result<String, String>) {
        match option {
            None => Err(to_uppercase(message)),
            Some(opts) => match opts.get("exp") {
                None => Err("Error: 'exp' key not found!".to_owned()),
                Some(exp) => {
                    let n = opts.len();
                    let mut groups: Vec<String> = Vec::new();
                    for i in 0..n
                        invariant
                            n == opts@.len(),
                            groups@.len() == i,
                            forall|j: int| 0 <= j < i ==> (#[trigger] groups@[j])@ == opts@[j].1,
                    {
                        let (_k, g) = opts.entry(i);
                        groups.push(g.clone());
                    }
                    match regex_capture_groups(exp.as_str(), message, &groups) {
                        None => Err(to_uppercase(message)),
                        Some(captured) => {
                            let ghost expected = opts@.map_values(
                                |e: (Seq<char>, Seq<char>)| captured_member(exp@, message@, e),
                            );
                            let mut members: Vec<(String, String)> = Vec::new();
                            for i in 0..n
                                invariant
                                    n == opts@.len(),
                                    captured@.len() == n,
                                    groups@.len() == n,
                                    forall|j: int| 0 <= j < n ==> (#[trigger] groups@[j])@ == opts@[j].1,
                                    forall|j: int| 0 <= j < n ==> match #[trigger] captured@[j] {
                                        Some(t) => regex_group(exp@, message@, groups@[j]@) == Some(t@),
                                        None => regex_group(exp@, message@, groups@[j]@) is None,
                                    },
                                    expected == opts@.map_values(
                                        |e: (Seq<char>, Seq<char>)| captured_member(exp@, message@, e),
                                    ),
                                    entry_views(members@) == expected.take(i as int),
                            {
                                let (k, _g) = opts.entry(i);
                                let value = match &captured[i] {
                                    Some(t) => t.clone(),
                                    None => String::new(),
                                };
                                let ghost before = members@;
                                proof {
                                    let c = captured@[i as int];
                                    assert(groups@[i as int]@ == opts@[i as int].1);
                                    assert(expected[i as int] == captured_member(exp@, message@, opts@[i as int]));
                                    assert((k@, value@) == expected[i as int]);
                                }
                                let kc = k.clone();
                                let ghost kv = (kc@, value@);
                                members.push((kc, value));
                                assert(entry_views(members@) =~= entry_views(before).push(kv));
                                assert(entry_views(members@) =~= expected.take(i + 1));
                            }
                            assert(expected.take(n as int) =~= expected);
                            Ok(json_object(&members))
                        },
                    }
                },
            },
        }
    }
}

/// The demonstration module: it writes the message in lower case.
pub struct TransformDemoModule;

impl Transformer for TransformDemoModule {
    open spec fn accepts(&self, message: Seq<char>, option: Option<Seq<(Seq<char>, Seq<char>)>>) -> bool {
        true
    }

    open spec fn outcome(&self, message: Seq<char>, option: Option<Seq<(Seq<char>, Seq<char>)>>) -> Result<Seq<char>, Seq<char>> {
        Ok(unicode_lowercase(message))
    }

    fn transform(&self, message: &str, option: &Option<Options>) -> (r: Result<String, String>) {
        Ok(to_lowercase(message))
    }
}

/// The second demonstration module: it too writes the message in lower case.
pub struct TransformDemoModuleSecond;

impl Transformer for TransformDemoModuleSecond {
    open spec fn accepts(&self, message: Seq<char>, option: Option<Seq<(Seq<char>, Seq<char>)>>) -> bool {
        true
    }

    open spec fn outcome(&self, message: Seq<char>, option: Option<Seq<(Seq<char>, Seq<char>)>>) -> Result<Seq<char>, Seq<char>> {
        Ok(unicode_lowercase(message))
    }

    fn transform(&self, message: &str, option: &Option<Options>) -> (r: Result<String, String>) {
        Ok(to_lowercase(message))
    }
}

/// The transformation module that an input names.
pub enum ModuleTransformer {
    Regex(TransformRegexModule),
    Demo(TransformDemoModule),
}

impl Transformer for ModuleTransformer {
    open spec fn accepts(&self, message: Seq<char>, option: Option<Seq<(Seq<char>, Seq<char>)>>) -> bool {
        match self {
            ModuleTransformer::Regex(m) => m.accepts(message, option),
            ModuleTransformer::Demo(m) => m.accepts(message, option),
        }
    }

    open spec fn outcome(&self, message: Seq<char>, option: Option<Seq<(Seq<char>, Seq<char>)>>) -> Result<Seq<char>, Seq<char>> {
        match self {
            ModuleTransformer::Regex(m) => m.outcome(message, option),
            ModuleTransformer::Demo(m) => m.outcome(message, option),
        }
    }

    fn transform(&self, message: &str, option: &Option<Options>) -> (r: Result<String, String>) {
        match self {
            ModuleTransformer::Regex(m) => m.transform(message, option),
            ModuleTransformer::Demo(m) => m.transform(message, option),
        }
    }
}

/// The module that the name `module_type` selects, if any.
pub open spec fn transformer_for(module_type: Seq<char>) -> Option<ModuleTransformer> {
    if module_type == "transform-regex"@ {
        Some(ModuleTransformer::Regex(TransformRegexModule))
    } else if module_type == "transform-demo"@ {
        Some(ModuleTransformer::Demo(TransformDemoModule))
    } else {
        None
    }
}

/// The module that the name `module_type` selects: `transform-regex` or
/// `transform-demo`; any other name selects none.
pub fn get_transformer(module_type: &str) -> (r: Option<ModuleTransformer>)
    ensures
        r == transformer_for(module_type@),
{
    if str_eq(module_type, "transform-regex") {
        Some(ModuleTransformer::Regex(TransformRegexModule))
    } else if str_eq(module_type, "transform-demo") {
        Some(ModuleTransformer::Demo(TransformDemoModule))
    } else {
        None
    }
}

/// What passing `message` through the optional module `t` gives: the message
/// itself when there is no module, and otherwise the module's outcome.
pub open spec fn pass_outcome(t: Option<ModuleTransformer>, message: Seq<char>, option: Option<Seq<(Seq<char>, Seq<char>)>>) -> Result<Seq<char>, Seq<char>> {
    match t {
        None => Ok(message),
        Some(m) => m.outcome(message, option),
    }
}

/// Whether the optional module `t` can run on `message` with `option`.
pub open spec fn pass_accepts(t: Option<ModuleTransformer>, message: Seq<char>, option: Option<Seq<(Seq<char>, Seq<char>)>>) -> bool {
    match t {
        None => true,
        Some(m) => m.accepts(message, option),
    }
}

/// Passes `message` through the optional module `t`; `None` when the module
/// cannot run with these options (its pattern does not compile).
pub fn transform_or_pass(t: &Option<ModuleTransformer>, message: &str, option: &Option<Options>) -> (r: Option<Result<String, String>>)
    ensures
        r is None == !pass_accepts(*t, message@, options_view(*option)),
        r matches Some(x) ==> result_view(x) == pass_outcome(*t, message@, options_view(*option)),
{
    match t {
        None => Some(Ok(message.to_owned())),
        Some(ModuleTransformer::Regex(m)) => m.try_transform(message, option),
        Some(ModuleTransformer::Demo(m)) => Some(m.transform(message, option)),
    }
}

} // verus!
