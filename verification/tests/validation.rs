//! The constrained value types: construction, boundaries, and decoding them
//! out of JSON text.

use space_traders::conditional_types::{
    BoundedInt, LowerBoundInt, NonEmptyString, NonEmptyStringError, OutOfRangeError, UpperBoundInt,
};
use space_traders::json::{parse_json, Json};

fn field<'a>(j: &'a Json, key: &str) -> &'a Json {
    match j {
        Json::Obj(entries) => {
            for (k, v) in entries {
                if k == key {
                    return v;
                }
            }
            panic!("missing field {key}");
        }
        _ => panic!("not an object"),
    }
}

fn int_field(j: &Json, key: &str) -> i64 {
    match field(j, key) {
        Json::Int(n) => *n,
        _ => panic!("field {key} is not an integer"),
    }
}

fn str_field<'a>(j: &'a Json, key: &str) -> &'a str {
    match field(j, key) {
        Json::Str(s) => s.as_str(),
        _ => panic!("field {key} is not a string"),
    }
}

#[test]
fn common_can_deserialize_bounded_integers() {
    let data = r#"{"v1": 10, "v2": 100, "v3": 3}"#;
    let j = parse_json(data).unwrap();
    LowerBoundInt::<10>::new(int_field(&j, "v1")).unwrap();
    UpperBoundInt::<100>::new(int_field(&j, "v2")).unwrap();
    BoundedInt::<3, 5>::new(int_field(&j, "v3")).unwrap();
}

#[test]
fn can_deserialize_non_negative_strings() {
    let data = r#"{"v": "1"}"#;
    let j = parse_json(data).unwrap();
    NonEmptyString::new(str_field(&j, "v")).unwrap();
}

#[test]
fn conditional_types_can_deserialize_bounded_integers() {
    let data = r#"{"_v1": 10, "_v2": 100, "_v3": 3}"#;
    let j = parse_json(data).unwrap();
    LowerBoundInt::<10>::new(int_field(&j, "_v1")).unwrap();
    UpperBoundInt::<100>::new(int_field(&j, "_v2")).unwrap();
    BoundedInt::<3, 5>::new(int_field(&j, "_v3")).unwrap();
}

#[test]
fn can_deserialize_non_empty_strings() {
    let data = r#"{"_v": "1"}"#;
    let j = parse_json(data).unwrap();
    NonEmptyString::new(str_field(&j, "_v")).unwrap();
}

#[test]
fn empty_string_is_rejected() {
    assert!(matches!(
        NonEmptyString::new(""),
        Err(NonEmptyStringError::EmptyString)
    ));
}

#[test]
fn non_empty_string_round_trips_unchanged() {
    let s = NonEmptyString::new("X1-ZA40-15970B").unwrap();
    assert_eq!(s.as_str(), "X1-ZA40-15970B");
    // through serialization: a JSON string node renders and parses back
    let rendered = space_traders::json::render_json(&Json::Str(String::from("X1-ZA40-15970B")));
    assert_eq!(rendered, "\"X1-ZA40-15970B\"");
    match parse_json(&rendered).unwrap() {
        Json::Str(back) => assert_eq!(back, "X1-ZA40-15970B"),
        _ => panic!("expected a string"),
    }
}

#[test]
fn bounded_integer_boundaries() {
    // both boundaries succeed
    assert_eq!(BoundedInt::<3, 5>::new(3).unwrap().get(), 3);
    assert_eq!(BoundedInt::<3, 5>::new(5).unwrap().get(), 5);
    // one beyond each boundary fails, naming the violated bound
    assert!(matches!(
        BoundedInt::<3, 5>::new(2),
        Err(OutOfRangeError::BelowMin { min: 3 })
    ));
    assert!(matches!(
        BoundedInt::<3, 5>::new(6),
        Err(OutOfRangeError::AboveMax { max: 5 })
    ));
}

#[test]
fn single_bound_boundaries() {
    assert_eq!(LowerBoundInt::<10>::new(10).unwrap().get(), 10);
    assert!(matches!(
        LowerBoundInt::<10>::new(9),
        Err(OutOfRangeError::BelowMin { min: 10 })
    ));
    assert_eq!(UpperBoundInt::<100>::new(100).unwrap().get(), 100);
    assert_eq!(UpperBoundInt::<100>::new(-7).unwrap().get(), -7);
    assert!(matches!(
        UpperBoundInt::<100>::new(101),
        Err(OutOfRangeError::AboveMax { max: 100 })
    ));
}
