use kosh_bridge::ingest::extract_intents;
use kosh_bridge::ingest::parse_u64_decimal;
use kosh_bridge::ingest::parse_u64_hex;
use kosh_bridge::json::JsonValue;

fn obj(fields: Vec<(&str, JsonValue)>) -> JsonValue {
    JsonValue::Obj(fields.into_iter().map(|(k, v)| (String::from(k), v)).collect())
}

fn s(v: &str) -> JsonValue {
    JsonValue::Str(String::from(v))
}

fn item(symbol: &str, val: JsonValue) -> JsonValue {
    obj(vec![("key", obj(vec![("symbol", s(symbol))])), ("val", val)])
}

fn event(items: Vec<JsonValue>) -> JsonValue {
    obj(vec![("valueJson", obj(vec![("map", JsonValue::Arr(items))]))])
}

const RECIPIENT: &str = "0x99a79158A40E4BEF8Beb3AcFAE893e62C45034E8";

fn well_formed_event(amount_val: JsonValue) -> JsonValue {
    event(vec![
        item("dest_chain", obj(vec![("bytes", s("2105"))])),
        item("in_amount", obj(vec![("i128", amount_val)])),
        item("recipient_address", obj(vec![("string", s(RECIPIENT))])),
    ])
}

#[test]
fn amount_as_decimal_string() {
    let events = vec![well_formed_event(s("110000000"))];
    let intents = extract_intents(&events, "8453");
    assert_eq!(intents.len(), 1);
    assert_eq!(intents[0].amount, 110000000);
    assert_eq!(intents[0].recipient, RECIPIENT);
    assert_eq!(intents[0].dest_chain, "8453");
}

#[test]
fn amount_as_bare_number() {
    let events = vec![well_formed_event(JsonValue::UInt(110000000))];
    let intents = extract_intents(&events, "8453");
    assert_eq!(intents.len(), 1);
    assert_eq!(intents[0].amount, 110000000);
}

#[test]
fn amount_as_low_word_object() {
    let events = vec![well_formed_event(obj(vec![("lo", JsonValue::UInt(110000000))]))];
    let intents = extract_intents(&events, "8453");
    assert_eq!(intents.len(), 1);
    assert_eq!(intents[0].amount, 110000000);
}

#[test]
fn missing_recipient_yields_no_intent() {
    let events = vec![event(vec![
        item("dest_chain", obj(vec![("bytes", s("2105"))])),
        item("in_amount", obj(vec![("i128", s("110000000"))])),
    ])];
    let intents = extract_intents(&events, "8453");
    assert_eq!(intents.len(), 0);
}

#[test]
fn one_well_formed_event_of_three_yields_one_intent() {
    let events = vec![
        // No recipient.
        event(vec![item("in_amount", obj(vec![("i128", s("42"))]))]),
        // The one well-formed event.
        well_formed_event(s("110000000")),
        // Unparseable amount.
        event(vec![
            item("in_amount", obj(vec![("i128", s("not-a-number"))])),
            item("recipient_address", obj(vec![("string", s(RECIPIENT))])),
        ]),
    ];
    let intents = extract_intents(&events, "17000");
    assert_eq!(intents.len(), 1);
    assert_eq!(intents[0].amount, 110000000);
    assert_eq!(intents[0].dest_chain, "17000");
}

#[test]
fn zero_amount_yields_no_intent() {
    let events = vec![well_formed_event(s("0"))];
    let intents = extract_intents(&events, "8453");
    assert_eq!(intents.len(), 0);
}

#[test]
fn malformed_event_shapes_are_dropped() {
    let events = vec![
        JsonValue::Null,
        JsonValue::UInt(7),
        s("not an event"),
        obj(vec![("valueJson", JsonValue::Null)]),
        event(vec![JsonValue::Null]),
    ];
    let intents = extract_intents(&events, "8453");
    assert_eq!(intents.len(), 0);
}

#[test]
fn decimal_parse_accepts_digits() {
    assert_eq!(parse_u64_decimal("0"), Some(0));
    assert_eq!(parse_u64_decimal("110000000"), Some(110000000));
    assert_eq!(parse_u64_decimal("18446744073709551615"), Some(u64::MAX));
}

#[test]
fn decimal_parse_rejects_bad_input() {
    assert_eq!(parse_u64_decimal(""), None);
    assert_eq!(parse_u64_decimal("12a"), None);
    assert_eq!(parse_u64_decimal("-5"), None);
    assert_eq!(parse_u64_decimal("18446744073709551616"), None);
}

#[test]
fn hex_parse_accepts_digits() {
    assert_eq!(parse_u64_hex("2105"), Some(0x2105));
    assert_eq!(parse_u64_hex("ff"), Some(255));
    assert_eq!(parse_u64_hex("FF"), Some(255));
    assert_eq!(parse_u64_hex("ffffffffffffffff"), Some(u64::MAX));
}

#[test]
fn hex_parse_rejects_bad_input() {
    assert_eq!(parse_u64_hex(""), None);
    assert_eq!(parse_u64_hex("xyz"), None);
    assert_eq!(parse_u64_hex("10000000000000000"), None);
}

#[test]
fn empty_batch_yields_no_intents() {
    let intents = extract_intents(&vec![], "8453");
    assert_eq!(intents.len(), 0);
}
