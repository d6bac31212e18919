use depot::json::frame_json_objects;
use depot::message::{build_message, frame_received, split_chunks, wire_chunks, MessageFormat, SEND_CHUNK_SIZE};

fn msg(timestamp: &str, tag: &str, message: &str) -> MessageFormat {
    MessageFormat { timestamp: timestamp.to_string(), tag: tag.to_string(), message: message.to_string() }
}

#[test]
fn to_json_writes_fields_in_order() {
    let m = msg("1700000000000", "syslog", "hello");
    assert_eq!(m.to_json(), r#"{"timestamp":"1700000000000","tag":"syslog","message":"hello"}"#);
}

#[test]
fn to_json_escapes_strings() {
    let m = msg("1", "t", "say \"hi\"\\ \t\u{1}\u{7f}é/");
    assert_eq!(m.to_json(), "{\"timestamp\":\"1\",\"tag\":\"t\",\"message\":\"say \\\"hi\\\"\\\\ \\t\\u0001\u{7f}é/\"}");
    let back: serde_json::Value = serde_json::from_str(&m.to_json()).unwrap();
    assert_eq!(back["message"], "say \"hi\"\\ \t\u{1}\u{7f}é/");
}

#[test]
fn frame_json_objects_takes_first_close_brace() {
    assert_eq!(frame_json_objects("xx{a}yy{b}{c"), vec!["{a}".to_string(), "{b}".to_string()]);
    assert_eq!(frame_json_objects("{ {x} }"), vec!["{ {x}".to_string()]);
    assert_eq!(frame_json_objects("no braces"), Vec::<String>::new());
    assert_eq!(frame_json_objects("}{\n}"), vec!["{\n}".to_string()]);
    assert_eq!(frame_json_objects(""), Vec::<String>::new());
}

#[test]
fn framing_matches_the_server_pattern() {
    let pattern = regex::Regex::new(r"(?s)\{.*?\}").unwrap();
    for text in ["a{b}c{d\ne}}{", "{{}}", "}}{", "{é}{ü", "x{\"k\":\"v\"}{\"k\":1}"] {
        let expected: Vec<String> = pattern.find_iter(text).map(|m| m.as_str().to_string()).collect();
        assert_eq!(frame_json_objects(text), expected);
    }
}

#[test]
fn server_frames_what_client_sends() {
    let a = msg("1", "syslog", "first line");
    let b = msg("2", "syslog", "second \"quoted\" line");
    let mut wire: Vec<u8> = Vec::new();
    for m in [&a, &b] {
        for chunk in wire_chunks(m) {
            wire.extend_from_slice(&chunk);
        }
    }
    assert_eq!(frame_received(&wire), vec![a.to_json(), b.to_json()]);
}

#[test]
fn frame_received_replaces_invalid_utf8() {
    let data = b"\xff{ok}";
    assert_eq!(frame_received(data), vec!["{ok}".to_string()]);
}

#[test]
fn build_message_trims_and_escapes() {
    let m = build_message("  Nov  3 login: ok \n", "syslog", 1700000000123);
    assert_eq!(m.timestamp, "1700000000123");
    assert_eq!(m.tag, "syslog");
    assert_eq!(m.message, "Nov  3 login: ok");
    let m2 = build_message("a\nb", "t", 0);
    assert_eq!(m2.message, "a\\nb");
    assert_eq!(m2.timestamp, "0");
}

#[test]
fn split_chunks_cuts_at_size() {
    let data: Vec<u8> = (0..10u8).collect();
    let chunks = split_chunks(&data, 4);
    assert_eq!(chunks, vec![vec![0, 1, 2, 3], vec![4, 5, 6, 7], vec![8, 9]]);
    assert_eq!(split_chunks(&[], 4), Vec::<Vec<u8>>::new());
    assert_eq!(split_chunks(&[1, 2, 3, 4], 4), vec![vec![1, 2, 3, 4]]);
}

#[test]
fn wire_chunks_of_a_long_message() {
    let long = "x".repeat(2000);
    let m = msg("5", "t", &long);
    let chunks = wire_chunks(&m);
    assert_eq!(SEND_CHUNK_SIZE, 1024);
    assert_eq!(chunks.len(), 2);
    assert_eq!(chunks[0].len(), 1024);
    assert_eq!(chunks.concat(), m.to_json().into_bytes());
}

#[test]
fn json_literal_reads_back() {
    for text in ["plain", "q\"b\\s\u{0}\u{1f}\u{7f}\u{1F600}\n\t/"] {
        let m = msg("1", "t", text);
        let v: serde_json::Value = serde_json::from_str(&m.to_json()).unwrap();
        assert_eq!(v["message"], text);
    }
}
