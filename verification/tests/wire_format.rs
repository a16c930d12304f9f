use brp_inspector::codec::Codec;
use brp_inspector::value::Value;
use brp_inspector::wire::{envelope_wire_bytes, value_json};

fn member(key: &str, v: Value) -> (String, Value) {
    (key.to_string(), v)
}

#[test]
fn scalars_serialize_exactly() {
    assert_eq!(value_json(&Value::Null), "null");
    assert_eq!(value_json(&Value::Bool(true)), "true");
    assert_eq!(value_json(&Value::Bool(false)), "false");
    assert_eq!(value_json(&Value::UInt(0)), "0");
    assert_eq!(value_json(&Value::UInt(18446744073709551615)), "18446744073709551615");
    assert_eq!(value_json(&Value::Int(-7)), "-7");
    assert_eq!(value_json(&Value::Decimal("1.5e3".to_string())), "1.5e3");
    assert_eq!(value_json(&Value::Str("plain".to_string())), "\"plain\"");
}

#[test]
fn strings_are_escaped() {
    let tricky = "say \"hi\"\\\n\t\u{1}end".to_string();
    assert_eq!(
        value_json(&Value::Str(tricky)),
        "\"say \\\"hi\\\"\\\\\\n\\t\\u0001end\""
    );
}

#[test]
fn composites_serialize_exactly() {
    let v = Value::Obj(vec![
        member("a", Value::Arr(vec![Value::UInt(1), Value::Null, Value::Str("x".to_string())])),
        member("b", Value::Obj(vec![])),
    ]);
    assert_eq!(value_json(&v), "{\"a\":[1,null,\"x\"],\"b\":{}}");
}

#[test]
fn envelope_bytes_spell_the_envelope() {
    let mut codec = Codec::new();
    let e = codec.create_request(
        "bevy/query".to_string(),
        Some(Value::Obj(vec![member("data", Value::Arr(vec![]))])),
    );
    let bytes = envelope_wire_bytes(&e);
    assert_eq!(
        String::from_utf8(bytes).unwrap(),
        "{\"jsonrpc\":\"2.0\",\"method\":\"bevy/query\",\"id\":1,\"params\":{\"data\":[]}}"
    );
    let bare = codec.create_request("bevy/list".to_string(), None);
    assert_eq!(
        String::from_utf8(envelope_wire_bytes(&bare)).unwrap(),
        "{\"jsonrpc\":\"2.0\",\"method\":\"bevy/list\",\"id\":2}"
    );
}

#[test]
fn serialized_values_parse_back() {
    let v = Value::Arr(vec![
        Value::Obj(vec![
            member("k\"ey", Value::Str("line\nbreak".to_string())),
            member("n", Value::Int(-12)),
        ]),
        Value::Bool(false),
    ]);
    let text = value_json(&v);
    let reparsed: serde_json::Value = serde_json::from_str(&text).unwrap();
    let expected: serde_json::Value =
        serde_json::from_str("[{\"k\\\"ey\":\"line\\nbreak\",\"n\":-12},false]").unwrap();
    assert_eq!(reparsed, expected);
}
