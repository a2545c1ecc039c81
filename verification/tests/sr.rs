use kaforge::sr::{urlencoding, HttpMethod, SrClient, SrReply, SrRequest, SrVersion};

fn client(user: &str) -> SrClient {
    SrClient::new(" http://sr:8081// ".into(), user.into(), "pw".into(), true).unwrap()
}

#[test]
fn new_normalizes_url() {
    assert!(SrClient::new("   ".into(), String::new(), String::new(), false).is_none());
    assert!(SrClient::new(" /// ".into(), String::new(), String::new(), false).is_none());
    let c = client("");
    assert_eq!(c.url(), "http://sr:8081");
    assert!(c.skip_tls());
}

#[test]
fn basic_authorization_header() {
    assert_eq!(client("").authorization(), None);
    assert_eq!(client("alice").authorization(), Some("Basic YWxpY2U6cHc=".to_string()));
}

#[test]
fn subject_requests() {
    let c = client("alice");
    let q = c.subjects_request();
    assert_eq!(q.method, HttpMethod::Get);
    assert_eq!(q.url, "http://sr:8081/subjects");
    assert_eq!(q.authorization.as_deref(), Some("Basic YWxpY2U6cHc="));
    let q = c.versions_request("a/b");
    assert_eq!(q.url, "http://sr:8081/subjects/a%2Fb/versions");
    let q = c.schema_request("s", -3);
    assert_eq!(q.url, "http://sr:8081/subjects/s/versions/-3");
    let q = c.delete_subject_request("x");
    assert_eq!(q.method, HttpMethod::Delete);
    assert_eq!(q.url, "http://sr:8081/subjects/x");
    let q = c.set_compatibility_request("x/y", "FULL \"q\"");
    assert_eq!(q.method, HttpMethod::Put);
    assert_eq!(q.url, "http://sr:8081/config/x%2Fy");
    assert_eq!(q.authorization, None);
    assert_eq!(q.content_type.as_deref(), Some("application/vnd.schemaregistry.v1+json"));
    assert_eq!(q.body.as_deref(), Some("{\"compatibility\":\"FULL \\\"q\\\"\"}"));
    assert_eq!(urlencoding("a/b/c"), "a%2Fb%2Fc");
}

#[test]
fn replies_are_read_or_reported() {
    let c = client("");
    let got = c.subjects(|q: SrRequest| {
        assert_eq!(q.url, "http://sr:8081/subjects");
        SrReply::Body(vec!["a".to_string(), "b".to_string()])
    });
    assert_eq!(got.unwrap(), vec!["a".to_string(), "b".to_string()]);
    let got = c.subjects(|_q: SrRequest| SrReply::Failed("timeout".to_string()));
    assert_eq!(got.unwrap_err().message(), "SR subjects: timeout");
    let got = c.versions("s", |_q: SrRequest| SrReply::Malformed("eof".to_string()));
    assert_eq!(got.unwrap_err().message(), "SR versions json: eof");
    let got = c.schema("s", 2, |_q: SrRequest| {
        SrReply::Body(SrVersion { id: 9, version: 2, schema: "{}".into(), schema_type: String::new() })
    });
    assert_eq!(got.unwrap().id, 9);
    let got = c.delete_subject("s", |_q: SrRequest| SrReply::<()>::Failed("403".into()));
    assert_eq!(got.unwrap_err().message(), "SR delete: 403");
    assert!(c.delete_subject("s", |_q: SrRequest| SrReply::Body(())).is_ok());
    let got = c.set_compatibility("s", "FULL", |_q: SrRequest| SrReply::<()>::Failed("500".into()));
    assert_eq!(got.unwrap_err().message(), "SR compatibility: 500");
}

#[test]
fn decode_plain_and_framed_payloads() {
    let c = client("");
    let got = c.decode(b"hello", |_q: SrRequest| -> SrReply<String> { panic!("no lookup") }).unwrap();
    assert_eq!(got, "hello");
    let got = c.decode(&[0xff, b'a'], |_q: SrRequest| -> SrReply<String> { panic!("no lookup") }).unwrap();
    assert_eq!(got, "\u{fffd}a");
    let framed = [0u8, 0, 0, 1, 2, b'h', b'i'];
    let got = c
        .decode(&framed, |q: SrRequest| {
            assert_eq!(q.url, "http://sr:8081/schemas/ids/258");
            SrReply::Body(String::new())
        })
        .unwrap();
    assert_eq!(got, "hi");
    let neg = [0u8, 0xff, 0xff, 0xff, 0xff, 1];
    let got = c.decode(&neg, |q: SrRequest| {
        assert_eq!(q.url, "http://sr:8081/schemas/ids/-1");
        SrReply::Failed("gone".into())
    });
    assert_eq!(got.unwrap_err().message(), "SR id -1: gone");
    let got = c.decode(&framed, |_q: SrRequest| SrReply::Malformed("bad".into()));
    assert_eq!(got.unwrap_err().message(), "SR id json: bad");
}

#[test]
fn decode_avro_payloads() {
    let c = client("");
    // a long 21 is zig-zag encoded as 42
    let framed = [0u8, 0, 0, 0, 7, 42];
    let got = c.decode(&framed, |_q: SrRequest| SrReply::Body("\"long\"".into())).unwrap();
    assert_eq!(got, "Long(21)");
    let got = c.decode(&framed, |_q: SrRequest| SrReply::Body("not a schema".into()));
    assert!(got.unwrap_err().message().starts_with("Avro schema: "));
    let short = [0u8, 0, 0, 0, 7, 0x80];
    let got = c.decode(&short, |_q: SrRequest| SrReply::Body("\"long\"".into()));
    assert!(got.unwrap_err().message().starts_with("Avro decode: "));
}

#[test]
fn compatibility_body_escapes_json() {
    let c = SrClient::new("http://sr".into(), String::new(), String::new(), false).unwrap();
    let q = c.set_compatibility_request("s", "a\\b\n\t\u{1}é");
    assert_eq!(q.body.as_deref(), Some("{\"compatibility\":\"a\\\\b\\n\\t\\u0001é\"}"));
}

#[test]
fn basic_authorization_padding() {
    let one = SrClient::new("http://sr".into(), "ab".into(), "c".into(), false).unwrap();
    assert_eq!(one.authorization(), Some("Basic YWI6Yw==".to_string()));
    let none = SrClient::new("http://sr".into(), "ab".into(), "cd".into(), false).unwrap();
    assert_eq!(none.authorization(), Some("Basic YWI6Y2Q=".to_string()));
    let full = SrClient::new("http://sr".into(), "é".into(), "".into(), false).unwrap();
    assert_eq!(full.authorization(), Some("Basic w6k6".to_string()));
}
