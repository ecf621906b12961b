use minecraft_world::key_value::KeyValue;

#[test]
fn test_key_value() {
    let mut kv = KeyValue::new();
    kv.insert("key1".to_string(), "value1".to_string());
    kv.insert("key2".to_string(), "value2".to_string());
    kv.insert("key3".to_string(), "value3".to_string());
    kv.insert("key4".to_string(), "value4".to_string());
    kv.insert("key5".to_string(), "value5".to_string());

    assert_eq!(kv.get("key1"), Some("value1".to_string()));
    assert_eq!(kv.get("key2"), Some("value2".to_string()));
    assert_eq!(kv.get("key3"), Some("value3".to_string()));
    assert_eq!(kv.get("key4"), Some("value4".to_string()));
    assert_eq!(kv.get("key5"), Some("value5".to_string()));

    kv.remove("key1");
    kv.remove("key2");
    kv.remove("key3");
    kv.remove("key4");
    kv.remove("key5");

    assert_eq!(kv.get("key1"), None);
    assert_eq!(kv.get("key2"), None);
    assert_eq!(kv.get("key3"), None);
    assert_eq!(kv.get("key4"), None);
    assert_eq!(kv.get("key5"), None);
}

#[test]
fn test_key_value_from() {
    let bytes = r#"key1=value1
key2= value2
key3 =value3
key4 = value4
key5 = value5 - Comment
"#;

    let kv = KeyValue::from(bytes);
    assert_eq!(kv.get("key1"), Some("value1".to_string()));
    assert_eq!(kv.get("key2"), Some("value2".to_string()));
    assert_eq!(kv.get("key3"), Some("value3".to_string()));
    assert_eq!(kv.get("key4"), Some("value4".to_string()));
    assert_eq!(kv.get("key5"), Some("value5".to_string()));
}

#[test]
fn test_key_value_as_str() {
    let mut kv = KeyValue::new();

    let reference_bytes = "";

    assert_eq!(kv.as_str(), reference_bytes);

    kv.insert("key1".to_string(), "value1".to_string());

    let reference_bytes = r#"key1=value1
"#;

    assert_eq!(kv.as_str(), reference_bytes);
}

#[test]
fn parse_three_lines_with_comment() {
    let kv = KeyValue::from("key1=value1\nkey2= value2\nkey5 = value5 - Comment\n");
    assert_eq!(kv.get("key1"), Some("value1".to_string()));
    assert_eq!(kv.get("key2"), Some("value2".to_string()));
    assert_eq!(kv.get("key5"), Some("value5".to_string()));
    assert_eq!(kv.get("key3"), None);
}

#[test]
fn blank_lines_are_skipped_and_crlf_is_trimmed() {
    let kv = KeyValue::from("\n  \r\n a = 1 \r\n\n\tb=2\n");
    assert_eq!(kv.as_str(), "a=1\nb=2\n");
}

#[test]
fn duplicate_keys_keep_order_and_get_takes_first() {
    let kv = KeyValue::from("k = first\nk = second\n");
    assert_eq!(kv.get("k"), Some("first".to_string()));
    assert_eq!(kv.as_str(), "k=first\nk=second\n");
}

#[test]
fn line_without_equals_has_empty_value() {
    let kv = KeyValue::from("lonely");
    assert_eq!(kv.get("lonely"), Some(String::new()));
}

#[test]
fn value_cut_at_first_dash() {
    let kv = KeyValue::from("a = x-y-z\nb = - all comment\n");
    assert_eq!(kv.get("a"), Some("x".to_string()));
    assert_eq!(kv.get("b"), Some(String::new()));
}

#[test]
fn value_keeps_further_equals() {
    let kv = KeyValue::from("a = b = c\n");
    assert_eq!(kv.get("a"), Some("b = c".to_string()));
}

#[test]
fn remove_keeps_other_entries_in_order() {
    let mut kv = KeyValue::from("a=1\nb=2\na=3\nc=4\n");
    kv.remove("a");
    assert_eq!(kv.as_str(), "b=2\nc=4\n");
}

#[test]
fn next_takes_entries_from_the_front() {
    let mut kv = KeyValue::from("a=1\nb=2\n");
    assert_eq!(kv.next(), Some(("a".to_string(), "1".to_string())));
    assert_eq!(kv.next(), Some(("b".to_string(), "2".to_string())));
    assert_eq!(kv.next(), None);
}

#[test]
fn values_with_prefix_in_order() {
    let kv = KeyValue::from("load_mod_a = true\nother = x\nload_mod_b = false\n");
    assert_eq!(kv.values_with_prefix("load_mod_"), vec!["true".to_string(), "false".to_string()]);
}

#[test]
fn empty_text_has_no_entries() {
    let kv = KeyValue::from("");
    assert_eq!(kv.as_str(), "");
}
