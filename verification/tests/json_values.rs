//! The JSON model: building, reading and moving fields.

use playwright_core::json::{str_eq, JsonValue};

#[test]
fn object_fields_read_back() {
    let o = JsonValue::obj_new()
        .with_str_field("name", "driver")
        .with_int_field("count", 3)
        .with_bool_field("ready", true)
        .with_field("inner", JsonValue::obj_new().with_str_field("guid", "g-1"));
    assert_eq!(o.get("name").and_then(|v| v.as_str()).map(|s| s.as_str()), Some("driver"));
    assert_eq!(o.get("count").and_then(|v| v.as_i64()), Some(3));
    assert_eq!(o.get("ready").and_then(|v| v.as_bool()), Some(true));
    assert_eq!(
        o.get("inner").and_then(|v| v.get("guid")).and_then(|v| v.as_str()).map(|s| s.as_str()),
        Some("g-1")
    );
    assert!(o.get("absent").is_none());
}

#[test]
fn earlier_binding_wins() {
    let o = JsonValue::obj_new().with_str_field("k", "first").with_str_field("k", "second");
    assert_eq!(o.get("k").and_then(|v| v.as_str()).map(|s| s.as_str()), Some("first"));
}

#[test]
fn into_field_moves_the_value_out() {
    let o = JsonValue::obj_new().with_field(
        "initializer",
        JsonValue::obj_new().with_str_field("version", "1.2.3"),
    );
    let init = o.into_field("initializer").expect("field is bound");
    assert_eq!(
        init.get("version").and_then(|v| v.as_str()).map(|s| s.as_str()),
        Some("1.2.3")
    );
}

#[test]
fn arrays_and_scalars() {
    let a = JsonValue::arr_new().with_item(JsonValue::Int(1)).with_item(JsonValue::Null);
    let items = a.as_array().expect("is an array");
    assert_eq!(items.len(), 2);
    assert_eq!(items[0].as_i64(), Some(1));
    assert!(items[1].is_null());
    assert!(JsonValue::Bool(false).as_bool() == Some(false));
    assert!(JsonValue::Int(5).as_str().is_none());
    assert!(JsonValue::Float(1.5f64.to_bits()).as_float_bits() == Some(1.5f64.to_bits()));
}

#[test]
fn first_field_only_for_single_field_objects() {
    let one = JsonValue::obj_new().with_field(
        "page",
        JsonValue::obj_new().with_str_field("guid", "p-1"),
    );
    assert!(one.first_field().is_some());
    let two = one.with_str_field("extra", "x");
    assert!(two.first_field().is_none());
}

#[test]
fn str_eq_compares_characters() {
    assert!(str_eq("same", "same"));
    assert!(!str_eq("same", "Same"));
    assert!(str_eq("", ""));
}
