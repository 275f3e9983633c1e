use kosh_bridge::json::JsonValue;
use kosh_bridge::transform::is_consensus_failure;
use kosh_bridge::transform::normalized_headers;
use kosh_bridge::transform::strip_volatile_fields;

fn obj(fields: Vec<(&str, JsonValue)>) -> JsonValue {
    JsonValue::Obj(fields.into_iter().map(|(k, v)| (String::from(k), v)).collect())
}

fn fields_of(v: &JsonValue) -> &Vec<(String, JsonValue)> {
    match v {
        JsonValue::Obj(fields) => fields,
        _ => panic!("expected an object"),
    }
}

#[test]
fn strips_request_id_and_volatile_result_fields() {
    let response = obj(vec![
        ("jsonrpc", JsonValue::Str(String::from("2.0"))),
        ("id", JsonValue::UInt(8675309)),
        (
            "result",
            obj(vec![
                ("events", JsonValue::Arr(vec![])),
                ("latestLedger", JsonValue::UInt(123456)),
                ("cursor", JsonValue::Str(String::from("c-77"))),
                ("_links", JsonValue::Null),
                ("_meta", JsonValue::Null),
            ]),
        ),
    ]);
    let stripped = strip_volatile_fields(response);
    let top = fields_of(&stripped);
    assert_eq!(top.len(), 2);
    assert_eq!(top[0].0, "jsonrpc");
    assert_eq!(top[1].0, "result");
    let inner = fields_of(&top[1].1);
    assert_eq!(inner.len(), 1);
    assert_eq!(inner[0].0, "events");
}

#[test]
fn keeps_everything_else() {
    let response = obj(vec![
        ("jsonrpc", JsonValue::Str(String::from("2.0"))),
        ("result", obj(vec![("events", JsonValue::Arr(vec![JsonValue::UInt(1)]))])),
        ("extra", JsonValue::Bool(true)),
    ]);
    let stripped = strip_volatile_fields(response);
    let top = fields_of(&stripped);
    assert_eq!(top.len(), 3);
    assert_eq!(top[0].0, "jsonrpc");
    assert_eq!(top[1].0, "result");
    assert_eq!(top[2].0, "extra");
    assert!(matches!(top[2].1, JsonValue::Bool(true)));
}

#[test]
fn non_object_documents_pass_through() {
    let v = JsonValue::Str(String::from("plain"));
    assert!(matches!(strip_volatile_fields(v), JsonValue::Str(s) if s == "plain"));
    assert!(matches!(strip_volatile_fields(JsonValue::Null), JsonValue::Null));
}

#[test]
fn non_object_result_passes_through() {
    let response = obj(vec![("result", JsonValue::Str(String::from("ok")))]);
    let stripped = strip_volatile_fields(response);
    let top = fields_of(&stripped);
    assert_eq!(top.len(), 1);
    assert!(matches!(&top[0].1, JsonValue::Str(s) if s == "ok"));
}

#[test]
fn normalized_headers_are_fixed() {
    let headers = normalized_headers();
    assert_eq!(headers.len(), 1);
    assert_eq!(headers[0].0, "Content-Type");
    assert_eq!(headers[0].1, "application/json");
}

#[test]
fn consensus_failures_are_recognized() {
    assert!(is_consensus_failure(
        "HTTP request failed: No consensus could be reached. Replicas had different responses."
    ));
    assert!(!is_consensus_failure("HTTP request failed: connection refused"));
    assert!(!is_consensus_failure(""));
}
