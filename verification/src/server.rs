//! What a server does with a received message: which input it belongs to, how
//! that input's module transforms it, and where it is delivered.

use vstd::prelude::*;
use crate::config::{lookup, InputConfig, Options};
use crate::json::{json_quote, json_string_literal, json_string_value, lemma_json_string_round_trip};
use crate::message::MessageFormat;
use crate::text::str_eq;
use crate::transform::{
    get_transformer, options_view, pass_accepts, pass_outcome, transform_or_pass, transformer_for,
};

verus! {

/// The position of the first input whose tag is `tag`, if any.
pub open spec fn first_tagged(inputs: Seq<InputConfig>, tag: Seq<char>) -> Option<int> {
    if exists|i: int| 0 <= i < inputs.len() && inputs[i].tag@ == tag {
        Some(choose|i: int|
            0 <= i < inputs.len() && inputs[i].tag@ == tag && forall|j: int|
                0 <= j < i ==> inputs[j].tag@ != tag)
    } else {
        None
    }
}

proof fn lemma_first_tagged(inputs: Seq<InputConfig>, tag: Seq<char>, i: int)
    requires
        0 <= i < inputs.len(),
        inputs[i].tag@ == tag,
        forall|j: int| 0 <= j < i ==> inputs[j].tag@ != tag,
    ensures
        first_tagged(inputs, tag) == Some(i),
{
    let k = choose|k: int|
        0 <= k < inputs.len() && inputs[k].tag@ == tag && forall|j: int|
            0 <= j < k ==> inputs[j].tag@ != tag;
    assert(0 <= k < inputs.len() && inputs[k].tag@ == tag);
    if k < i {
        assert(inputs[k].tag@ != tag);
    }
    if i < k {
        assert(inputs[i].tag@ != tag);
    }
}

/// The position of the first input whose tag is `tag`, if any.
pub fn find_input(inputs: &Vec<InputConfig>, tag: &str) -> (r: Option<usize>)
    ensures
        match r {
            Some(i) => i < inputs@.len() && first_tagged(inputs@, tag@) == Some(i as int),
            None => first_tagged(inputs@, tag@) is None,
        },
{
    let n = inputs.len();
    for i in 0..n
        invariant
            n == inputs@.len(),
            forall|j: int| 0 <= j < i ==> inputs@[j].tag@ != tag@,
    {
        if str_eq(inputs[i].tag.as_str(), tag) {
            proof {
                lemma_first_tagged(inputs@, tag@, i as int);
            }
            return Some(i);
        }
    }
    None
}

/// What a server makes of a received message before delivering it.
pub enum Prepared {
    /// No input has the message's tag.
    NoInput,
    /// The input's module cannot run: its pattern does not compile.
    InvalidPattern,
    /// The input's module refused the message, with this text.
    TransformFailed(String),
    /// The message, transformed, goes to the delivery of the input at this position.
    Deliver { input: usize, message: String },
}

/// What a server makes of `message`, given its inputs: the first input with
/// the message's tag is chosen, its module (if it names one) transforms the
/// JSON text of the message under the input's options, and the result is
/// delivered as that input's delivery options say.
pub open spec fn prepared_spec(inputs: Seq<InputConfig>, message: MessageFormat, r: Prepared) -> bool {
    match first_tagged(inputs, message.tag@) {
        None => r is NoInput,
        Some(i) => {
            let t = transformer_for(inputs[i].module@);
            let json = message.json_spec();
            let opt = options_view(inputs[i].option);
            if !pass_accepts(t, json, opt) {
                r is InvalidPattern
            } else {
                match pass_outcome(t, json, opt) {
                    Err(e) => r matches Prepared::TransformFailed(x) && x@ == e,
                    Ok(out) => r matches Prepared::Deliver { input, message: x } && input == i
                        && x@ == out,
                }
            }
        },
    }
}

/// A message goes to the first input that carries its tag, and that input's
/// module runs on the message's JSON text with that input's own options: the
/// result is refused exactly when that module cannot run with those options,
/// a failure carries that module's error, and a delivery names that input and
/// carries that module's output.
pub proof fn lemma_prepared_uses_chosen_input(inputs: Seq<InputConfig>, message: MessageFormat, r: Prepared, i: int)
    requires
        prepared_spec(inputs, message, r),
        0 <= i < inputs.len(),
        inputs[i].tag@ == message.tag@,
        forall|j: int| 0 <= j < i ==> inputs[j].tag@ != message.tag@,
    ensures
        !(r is NoInput),
        r is InvalidPattern == !pass_accepts(
            transformer_for(inputs[i].module@),
            message.json_spec(),
            options_view(inputs[i].option),
        ),
        r matches Prepared::TransformFailed(e) ==> pass_outcome(
            transformer_for(inputs[i].module@),
            message.json_spec(),
            options_view(inputs[i].option),
        ) == Err::<Seq<char>, Seq<char>>(e@),
        r matches Prepared::Deliver { input, message: x } ==> input == i && pass_outcome(
            transformer_for(inputs[i].module@),
            message.json_spec(),
            options_view(inputs[i].option),
        ) == Ok::<Seq<char>, Seq<char>>(x@),
{
    lemma_first_tagged(inputs, message.tag@, i);
}

/// A message whose tag no input carries is refused as such.
pub proof fn lemma_prepared_without_input(inputs: Seq<InputConfig>, message: MessageFormat, r: Prepared)
    requires
        prepared_spec(inputs, message, r),
        forall|j: int| 0 <= j < inputs.len() ==> inputs[j].tag@ != message.tag@,
    ensures
        r is NoInput,
{
}

/// Chooses the input of `message`, and transforms the message with that
/// input's module.
pub fn prepare_delivery(inputs: &Vec<InputConfig>, message: &MessageFormat) -> (r: Prepared)
    ensures
        prepared_spec(inputs@, *message, r),
{
    match find_input(inputs, message.tag.as_str()) {
        None => Prepared::NoInput,
        Some(i) => {
            let input = &inputs[i];
            let t = get_transformer(input.module.as_str());
            let json = message.to_json();
            match transform_or_pass(&t, json.as_str(), &input.option) {
                None => Prepared::InvalidPattern,
                Some(Err(e)) => Prepared::TransformFailed(e),
                Some(Ok(out)) => Prepared::Deliver { input: i, message: out },
            }
        },
    }
}

/// Where a message goes.
pub enum Delivery {
    /// To a Kafka topic, through these brokers, as a record with this key,
    /// header and payload. The topic is `None` when the delivery options name
    /// none; the record cannot then be sent.
    Kafka {
        bootstrap_servers: String,
        topic: Option<String>,
        key: String,
        header_key: String,
        header_value: String,
        payload: String,
    },
    /// Appended, as this line, to the file at this path.
    File { path: String, line: String },
}

/// The delivery options that `plan_delivery` reads are present: `type`, and for
/// Kafka also `bootstrap_server`.
pub open spec fn delivery_options_present(produce: Seq<(Seq<char>, Seq<char>)>) -> bool {
    &&& lookup(produce, "type"@) is Some
    &&& lookup(produce, "type"@) == Some("kafka"@) ==> {
        &&& lookup(produce, "bootstrap_server"@) is Some
    }
}

/// How `message` is delivered under the delivery options `produce`: to Kafka
/// when `type` is `kafka` (the payload is the message as a JSON string, with
/// the key `test-key` and the header `header_key: header_value`), appended as a
/// line to `output.txt` when `type` is `file`, and an error naming the target
/// otherwise.
pub fn plan_delivery(message: &str, produce: &Options) -> (r: Result<Delivery, String>)
    requires
        delivery_options_present(produce@),
    ensures
        lookup(produce@, "type"@) == Some("kafka"@) ==> (r matches Ok(Delivery::Kafka {
            bootstrap_servers,
            topic,
            key,
            header_key,
            header_value,
            payload,
        }) && Some(bootstrap_servers@) == lookup(produce@, "bootstrap_server"@) && (match topic {
            Some(t) => lookup(produce@, "topic"@) == Some(t@),
            None => lookup(produce@, "topic"@) is None,
        }) && key@ == "test-key"@ && header_key@ == "header_key"@
            && header_value@ == "header_value"@ && payload@ == json_string_literal(message@) && json_string_value(payload@)
            == Some(message@)),
        lookup(produce@, "type"@) == Some("file"@) ==> (r matches Ok(Delivery::File { path, line })
            && path@ == "output.txt"@ && line@ == message@ + "\n"@),
        lookup(produce@, "type"@) != Some("kafka"@) && lookup(produce@, "type"@) != Some(
            "file"@,
        ) ==> (r matches Err(e) && e@ == "Unknown target: "@ + lookup(produce@, "type"@).unwrap()),
{
    proof {
        reveal_strlit("kafka");
        reveal_strlit("file");
        assert("kafka"@.len() != "file"@.len());
    }
    let target = produce.get("type").unwrap();
    if str_eq(target.as_str(), "kafka") {
        let bootstrap_servers = produce.get("bootstrap_server").unwrap().clone();
        let topic = match produce.get("topic") {
            Some(t) => Some(t.clone()),
            None => None,
        };
        proof {
            lemma_json_string_round_trip(message@);
        }
        Ok(
            Delivery::Kafka {
                bootstrap_servers,
                topic,
                key: "test-key".to_owned(),
                header_key: "header_key".to_owned(),
                header_value: "header_value".to_owned(),
                payload: json_quote(message),
            },
        )
    } else if str_eq(target.as_str(), "file") {
        let mut line = message.to_owned();
        line.append("\n");
        Ok(Delivery::File { path: "output.txt".to_owned(), line })
    } else {
        let mut e = "Unknown target: ".to_owned();
        e.append(target.as_str());
        Err(e)
    }
}

} // verus!
