use depot::config::{ClientSink, Options, Settings};

#[test]
fn options_insert_and_get() {
    let mut o = Options::new();
    assert_eq!(o.len(), 0);
    assert_eq!(o.get("type"), None);
    assert_eq!(o.insert("type".to_string(), "kafka".to_string()), None);
    assert_eq!(o.insert("topic".to_string(), "logs".to_string()), None);
    assert_eq!(o.get("type"), Some(&"kafka".to_string()));
    assert!(o.contains_key("topic"));
    assert!(!o.contains_key("host"));
    assert_eq!(o.insert("type".to_string(), "file".to_string()), Some("kafka".to_string()));
    assert_eq!(o.get("type"), Some(&"file".to_string()));
    assert_eq!(o.get("topic"), Some(&"logs".to_string()));
    assert_eq!(o.len(), 2);
    let (k, v) = o.entry(0);
    assert_eq!((k.as_str(), v.as_str()), ("type", "file"));
}

#[test]
fn settings_address() {
    let s = Settings {
        host: "127.0.0.1".to_string(),
        port: "4433".to_string(),
        tls_cert_file: "cert.pem".to_string(),
        tls_key_file: "key.pem".to_string(),
    };
    assert_eq!(s.address(), "127.0.0.1:4433");
}

#[test]
fn client_sink_address() {
    let s = ClientSink { host: "localhost".to_string(), port: 4433, tls_cert_file: "cert.pem".to_string() };
    assert_eq!(s.address(), "localhost:4433");
    let z = ClientSink { host: "h".to_string(), port: 0, tls_cert_file: String::new() };
    assert_eq!(z.address(), "h:0");
}
