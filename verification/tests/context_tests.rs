use miniflow::{Context, Error, Value};

fn text(s: &str) -> Value {
    Value::Text(s.to_string())
}

#[test]
fn set_then_get_returns_the_value() {
    let mut context = Context::new();
    assert_eq!(context.get("k"), None);
    context.set("k", text("v"));
    assert_eq!(context.get("k"), Some(&text("v")));
}

#[test]
fn later_binding_wins() {
    let mut context = Context::new();
    context.set("k", text("first"));
    context.set("k", text("second"));
    assert_eq!(context.get("k"), Some(&text("second")));
    assert_eq!(context.get_all_data().len(), 1);
}

#[test]
fn data_and_metadata_are_independent() {
    // A value set while one unit runs is seen by later reads of its own
    // namespace and leaves the other namespace untouched.
    let mut context = Context::new();
    context.set("k", text("data value"));
    context.set_metadata("k", text("metadata value"));
    assert_eq!(context.get("k"), Some(&text("data value")));
    assert_eq!(context.get_metadata("k"), Some(&text("metadata value")));

    context.remove("k");
    assert_eq!(context.get("k"), None);
    assert_eq!(context.get_metadata("k"), Some(&text("metadata value")));

    context.remove_metadata("k");
    assert_eq!(context.get_metadata("k"), None);
}

#[test]
fn writes_are_visible_to_later_reads_only() {
    // Sequential visibility: a read made before a write cannot see it, a
    // read made after does, and other keys read as before.
    let mut context = Context::new();
    context.set("early", text("a"));
    assert_eq!(context.get("late"), None);
    context.set("late", text("b"));
    assert_eq!(context.get("late"), Some(&text("b")));
    assert_eq!(context.get("early"), Some(&text("a")));
}

#[test]
fn remove_returns_the_value() {
    let mut context = Context::new();
    context.set("k", Value::Int(7));
    assert_eq!(context.remove("k"), Some(Value::Int(7)));
    assert_eq!(context.remove("k"), None);
    assert!(!context.contains_key("k"));
}

#[test]
fn contains_keys_per_namespace() {
    let mut context = Context::new();
    context.set("d", Value::Bool(true));
    context.set_metadata("m", Value::Bool(false));
    assert!(context.contains_key("d"));
    assert!(!context.contains_key("m"));
    assert!(context.contains_metadata_key("m"));
    assert!(!context.contains_metadata_key("d"));
}

#[test]
fn merge_overlays_both_namespaces() {
    let mut left = Context::new();
    left.set("shared", text("left"));
    left.set("only left", text("l"));
    left.set_metadata("meta", text("left meta"));

    let mut right = Context::new();
    right.set("shared", text("right"));
    right.set("only right", text("r"));
    right.set_metadata("meta", text("right meta"));

    left.merge(&right);
    assert_eq!(left.get("shared"), Some(&text("right")));
    assert_eq!(left.get("only left"), Some(&text("l")));
    assert_eq!(left.get("only right"), Some(&text("r")));
    assert_eq!(left.get_metadata("meta"), Some(&text("right meta")));
}

#[test]
fn clear_empties_both_namespaces() {
    let mut context = Context::new();
    context.set("d", text("x"));
    context.set_metadata("m", text("y"));
    context.clear();
    assert_eq!(context.get("d"), None);
    assert_eq!(context.get_metadata("m"), None);
    assert_eq!(context.get_all_data().len(), 0);
    assert_eq!(context.get_all_metadata().len(), 0);
}

#[test]
fn from_data_reads_entries_in_order() {
    // A later entry for a key overrides an earlier one, as repeated
    // insertion would.
    let context = Context::from_data(vec![
        (String::from("a"), text("one")),
        (String::from("b"), text("two")),
        (String::from("a"), text("three")),
    ]);
    assert_eq!(context.get("a"), Some(&text("three")));
    assert_eq!(context.get("b"), Some(&text("two")));
    assert_eq!(context.get_all_data().len(), 2);
    assert_eq!(context.get_metadata("a"), None);
}

#[test]
fn from_params_builds_like_from_data() {
    let context = Context::from(vec![(String::from("k"), text("v"))]);
    assert_eq!(context.get("k"), Some(&text("v")));
    assert_eq!(context.get_metadata("k"), None);
}

#[test]
fn default_context_is_empty() {
    let context = Context::default();
    assert_eq!(context.get_all_data().len(), 0);
    assert_eq!(context.get_all_metadata().len(), 0);
}

#[test]
fn duplicate_copies_values_deeply() {
    let value = Value::Object(vec![
        (String::from("list"), Value::List(vec![Value::Int(1), Value::Null])),
        (String::from("text"), text("t")),
        (String::from("flag"), Value::Bool(true)),
    ]);
    let copy = value.duplicate();
    assert_eq!(copy, value);
}

#[test]
fn error_messages_carry_their_description() {
    assert_eq!(Error::NodeExecution("a".to_string()).message(), "a");
    assert_eq!(Error::InvalidTransition("b".to_string()).message(), "b");
    assert_eq!(Error::Context("c".to_string()).message(), "c");
    assert_eq!(Error::Serialization("d".to_string()).message(), "d");
    assert_eq!(Error::Io("e".to_string()).message(), "e");
    assert_eq!(Error::Other("f".to_string()).message(), "f");
}
