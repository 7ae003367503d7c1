use ferro::ferro::{find, Error};
use ferro::value::{Number, Value};

fn text(s: &str) -> Value {
    Value::String(s.to_owned())
}

fn whole(n: u64) -> Value {
    Value::Number(Number::PosInt(n))
}

fn object(entries: Vec<(&str, Value)>) -> Value {
    Value::Object(entries.into_iter().map(|(k, v)| (k.to_owned(), v)).collect())
}

fn sample() -> Value {
    object(vec![
        (
            "k1",
            object(vec![
                ("k1", Value::Array(vec![text("1"), text("2"), text("3")])),
                ("k2", Value::Array(vec![whole(1), whole(2), whole(3)])),
            ]),
        ),
        (
            "k2",
            object(vec![(
                "k1",
                Value::Array(vec![object(vec![("k1", text("v1")), ("k2", text("v2"))])]),
            )]),
        ),
    ])
}

fn failure(r: Result<Value, Error>) -> Error {
    match r {
        Ok(v) => panic!("found {:?}", v),
        Err(e) => e,
    }
}

#[test]
fn test_find() {
    let value = sample();

    let found_1 = find("k1.k1.1", &value).unwrap();
    assert_eq!(found_1, text("2"));

    let found_2 = find("k1.k2.1", &value).unwrap();
    assert_eq!(found_2, whole(2));

    let found_3 = find("k2.k1.0.k1", &value).unwrap();
    assert_eq!(found_3, text("v1"));

    let found_obj_1 = find("k1.k1", &value).unwrap();
    assert_eq!(found_obj_1, Value::Array(vec![text("1"), text("2"), text("3")]));

    let found_obj_2 = find("k1", &value).unwrap();
    assert_eq!(
        found_obj_2,
        object(vec![
            ("k1", Value::Array(vec![text("1"), text("2"), text("3")])),
            ("k2", Value::Array(vec![whole(1), whole(2), whole(3)])),
        ])
    );

    let found_obj_3 = find("k1.k2", &value).unwrap();
    assert_eq!(found_obj_3, Value::Array(vec![whole(1), whole(2), whole(3)]));

    let found_obj_4 = find("k2.k1.0", &value).unwrap();
    assert_eq!(found_obj_4, object(vec![("k1", text("v1")), ("k2", text("v2"))]));
}

#[test]
fn scalar_is_found_whatever_the_path() {
    assert_eq!(find("a.b.c", &Value::Null).unwrap(), Value::Null);
    assert_eq!(find("0", &Value::Bool(true)).unwrap(), Value::Bool(true));
    assert_eq!(find("", &whole(7)).unwrap(), whole(7));
    assert_eq!(find("x.1.y", &text("t")).unwrap(), text("t"));
    assert_eq!(
        find("1", &Value::Number(Number::NegInt(-3))).unwrap(),
        Value::Number(Number::NegInt(-3))
    );
}

#[test]
fn scalar_on_the_way_ends_the_lookup() {
    let value = sample();
    assert_eq!(find("k1.k1.1.more.and.more", &value).unwrap(), text("2"));
    assert_eq!(find("k2.k1.0.k2.9", &value).unwrap(), text("v2"));
}

#[test]
fn non_numeric_index_is_its_own_failure() {
    let value = sample();
    let e = failure(find("k1.k1.one", &value));
    assert!(!e.changed);
    assert_eq!(e.description, "array index must be numeric at path k1.k1.one");
    assert_eq!(e.message(), "array index must be numeric at path k1.k1.one");

    let e = failure(find("k1.k1.-1", &value));
    assert_eq!(e.description, "array index must be numeric at path k1.k1.-1");

    let e = failure(find("k1.k1.", &value));
    assert_eq!(e.description, "array index must be numeric at path k1.k1.");

    let e = failure(find("k1.k1.1x", &value));
    assert_eq!(e.description, "array index must be numeric at path k1.k1.1x");
}

#[test]
fn index_past_the_end_is_not_found() {
    let value = sample();
    let e = failure(find("k1.k1.3", &value));
    assert!(!e.changed);
    assert_eq!(e.description, "value not found at path k1.k1.3");

    let e = failure(find("k1.k1.99999999999999999999999999999999", &value));
    assert_eq!(
        e.description,
        "value not found at path k1.k1.99999999999999999999999999999999"
    );

    let e = failure(find("0", &Value::Array(vec![])));
    assert_eq!(e.description, "value not found at path 0");
}

#[test]
fn leading_zeros_still_name_an_index() {
    let value = sample();
    assert_eq!(find("k1.k1.002", &value).unwrap(), text("3"));
    assert_eq!(find("k1.k1.0", &value).unwrap(), text("1"));
}

#[test]
fn missing_key_is_not_found() {
    let value = sample();
    let e = failure(find("k3", &value));
    assert!(!e.changed);
    assert_eq!(e.description, "value not found at path k3");

    let e = failure(find("k1.k9.0", &value));
    assert_eq!(e.description, "value not found at path k1.k9.0");

    let e = failure(find("", &value));
    assert_eq!(e.description, "value not found at path ");
}

#[test]
fn first_entry_of_a_key_is_the_one_seen() {
    let value = object(vec![("k", text("first")), ("k", text("second"))]);
    assert_eq!(find("k", &value).unwrap(), text("first"));
}

#[test]
fn clone_is_deep() {
    let value = sample();
    assert_eq!(value.clone(), value);
}

#[test]
fn number_from_signed_integer() {
    assert_eq!(Number::from_i64(0), Number::PosInt(0));
    assert_eq!(Number::from_i64(42), Number::PosInt(42));
    assert_eq!(Number::from_i64(-1), Number::NegInt(-1));
    assert_eq!(Number::from_i64(i64::MIN), Number::NegInt(i64::MIN));
}
