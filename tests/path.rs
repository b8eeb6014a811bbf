use rewr::path::{get, Component, PathError, Value};

#[test]
fn test_path() {
    let path: &[Component] = &[
        Component::from("hello"),
        Component::from("hello"),
        Component::from([1usize]),
        Component::from("bob"),
    ];
    let mut value = Value::object();
    assert!(value.insert("hello".to_owned(), Value::Integer(1)).is_ok());

    let res = get(path, &value);
    assert!(matches!(res, Err(PathError::Type)));
}

#[test]
fn path_reaches_nested_value() {
    let inner = Value::Object(vec![
        ("bob".to_owned(), Value::Str("builder".to_owned())),
        ("n".to_owned(), Value::Integer(7)),
    ]);
    let value = Value::Object(vec![("hello".to_owned(), inner)]);
    let path: &[Component] = &[Component::from("hello"), Component::from("n")];
    assert!(matches!(get(path, &value), Ok(Value::Integer(7))));
    let path: &[Component] = &[Component::from("hello"), Component::from("bob")];
    assert!(matches!(get(path, &value), Ok(Value::Str(s)) if s == "builder"));
}

#[test]
fn path_errors() {
    let value = Value::Object(vec![("a".to_owned(), Value::Integer(1))]);
    let empty: &[Component] = &[];
    assert!(matches!(get(empty, &value), Err(PathError::Missing)));
    let path: &[Component] = &[Component::from("b")];
    assert!(matches!(get(path, &value), Err(PathError::Missing)));
    let path: &[Component] = &[Component::from(3u32)];
    assert!(matches!(get(path, &value), Err(PathError::Type)));
}

#[test]
fn components_from_values() {
    assert!(matches!(Component::from(-3i8), Component::KeyInt(-3)));
    assert!(matches!(Component::from(-70000i32), Component::KeyInt(-70000)));
    assert!(matches!(Component::from(9u16), Component::KeyUInt(9)));
    assert!(matches!(Component::from([4usize]), Component::Index(4)));
    let b: &[u8] = b"k";
    assert!(matches!(Component::from(b), Component::KeyBytes(x) if x == b"k"));
}

#[test]
fn insert_replaces_or_appends() {
    let mut value = Value::object();
    assert!(value.insert("a".to_owned(), Value::Integer(1)).is_ok());
    assert!(value.insert("b".to_owned(), Value::Integer(2)).is_ok());
    assert!(value.insert("a".to_owned(), Value::Integer(3)).is_ok());
    match &value {
        Value::Object(entries) => {
            assert_eq!(entries.len(), 2);
            assert_eq!(entries[0].0, "a");
            assert!(matches!(entries[0].1, Value::Integer(3)));
            assert_eq!(entries[1].0, "b");
        }
        _ => panic!("not an object"),
    }
    let path: &[Component] = &[Component::from("a")];
    assert!(matches!(get(path, &value), Ok(Value::Integer(3))));

    let mut leaf = Value::Integer(5);
    assert!(matches!(leaf.insert("x".to_owned(), Value::Integer(1)), Err(PathError::Type)));
    assert!(matches!(leaf, Value::Integer(5)));
}
