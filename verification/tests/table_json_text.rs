use open_forge::json::{JsonNumber, JsonValue};
use open_forge::table::Table;
use open_forge::text::{i64_to_decimal, str_eq, u64_to_decimal};

fn obj(fields: Vec<(&str, JsonValue)>) -> JsonValue {
    JsonValue::Object(fields.into_iter().map(|(k, v)| (k.to_string(), v)).collect())
}

#[test]
fn table_insert_get_remove() {
    let mut t: Table<u32> = Table::new();
    assert_eq!(t.len(), 0);
    assert_eq!(t.insert("a".to_string(), 1), None);
    assert_eq!(t.insert("b".to_string(), 2), None);
    assert_eq!(t.get("a"), Some(&1));
    assert_eq!(t.get("c"), None);
    assert_eq!(t.insert("a".to_string(), 10), Some(1));
    assert_eq!(t.len(), 2);
    assert_eq!(t.key_at(0), "a");
    assert_eq!(*t.value_at(0), 10);
    assert_eq!(t.key_at(1), "b");
    assert!(t.contains_key("b"));
    assert_eq!(t.remove("a"), Some(10));
    assert_eq!(t.remove("a"), None);
    assert!(!t.contains_key("a"));
    assert_eq!(t.position("b"), Some(0));
    t.clear();
    assert_eq!(t.len(), 0);
}

#[test]
fn table_remove_at_insert_at_keeps_order() {
    let mut t: Table<u32> = Table::new();
    t.insert("x".to_string(), 1);
    t.insert("y".to_string(), 2);
    t.insert("z".to_string(), 3);
    let (k, v) = t.remove_at(1);
    assert_eq!(k, "y");
    assert_eq!(v, 2);
    t.insert_at(1, k, 20);
    assert_eq!(t.key_at(1), "y");
    assert_eq!(t.get("y"), Some(&20));
    assert_eq!(t.key_at(2), "z");
}

#[test]
fn json_accessors() {
    let v = obj(vec![
        ("name", JsonValue::String("box".to_string())),
        ("width", JsonValue::Number(JsonNumber::PosInt(32))),
        ("neg", JsonValue::Number(JsonNumber::NegInt(-3))),
        ("ratio", JsonValue::Number(JsonNumber::Float(1.5f64.to_bits()))),
        ("keys", JsonValue::Array(vec![JsonValue::String("a".to_string()), JsonValue::Null])),
    ]);
    assert_eq!(v.get("name").and_then(|x| x.as_str()), Some("box"));
    assert_eq!(v.get("width").and_then(|x| x.as_u64()), Some(32));
    assert_eq!(v.get("neg").and_then(|x| x.as_u64()), None);
    assert_eq!(v.get("ratio").and_then(|x| x.as_u64()), None);
    assert_eq!(v.get("keys").and_then(|x| x.as_array()).map(|a| a.len()), Some(2));
    assert!(v.get("missing").is_none());
    assert!(JsonValue::Bool(true).get("name").is_none());
    assert_eq!(JsonValue::Null.as_str(), None);
}

#[test]
fn json_first_field_wins() {
    let v = obj(vec![("k", JsonValue::Bool(true)), ("k", JsonValue::Bool(false))]);
    assert!(matches!(v.get("k"), Some(JsonValue::Bool(true))));
}

#[test]
fn decimal_text() {
    assert_eq!(u64_to_decimal(0), "0");
    assert_eq!(u64_to_decimal(7), "7");
    assert_eq!(u64_to_decimal(1280), "1280");
    assert_eq!(u64_to_decimal(u64::MAX), "18446744073709551615");
    assert_eq!(i64_to_decimal(-42), "-42");
    assert_eq!(i64_to_decimal(i64::MIN), "-9223372036854775808");
    assert_eq!(i64_to_decimal(i64::MAX), "9223372036854775807");
}

#[test]
fn string_equality() {
    assert!(str_eq("héllo", "héllo"));
    assert!(!str_eq("hello", "hellO"));
    assert!(!str_eq("a", "ab"));
    assert!(str_eq("", ""));
}
