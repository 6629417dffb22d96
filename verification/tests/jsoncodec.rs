//! The JSON layer: parsing, rendering, envelope-relevant shapes, and a
//! cross-check of the renderer against an independent JSON implementation.

use space_traders::json::{parse_json, render_json, Json};

#[test]
fn parse_handles_whitespace_literals_and_nesting() {
    let j = parse_json(" { \"a\" : [ 1 , -2 , true , false , null , \"x\" ] } ").unwrap();
    let rendered = render_json(&j);
    assert_eq!(rendered, r#"{"a":[1,-2,true,false,null,"x"]}"#);
}

#[test]
fn parse_rejects_malformed_text() {
    assert!(parse_json("").is_none());
    assert!(parse_json("{").is_none());
    assert!(parse_json("[1,]").is_none());
    assert!(parse_json("\"unterminated").is_none());
    assert!(parse_json("{\"a\":1} trailing").is_none());
    assert!(parse_json("12x").is_none());
    // an integer beyond the 64-bit range is rejected rather than rounded
    assert!(parse_json("9223372036854775808").is_none());
    assert!(parse_json("-9223372036854775809").is_none());
}

#[test]
fn parse_accepts_integer_bounds() {
    match parse_json("9223372036854775807").unwrap() {
        Json::Int(n) => assert_eq!(n, i64::MAX),
        _ => panic!("expected an integer"),
    }
    match parse_json("-9223372036854775808").unwrap() {
        Json::Int(n) => assert_eq!(n, i64::MIN),
        _ => panic!("expected an integer"),
    }
}

#[test]
fn string_escapes_round_trip() {
    let original = "line one\nline two\ttabbed \"quoted\" back\\slash\r";
    let rendered = render_json(&Json::Str(original.to_string()));
    match parse_json(&rendered).unwrap() {
        Json::Str(s) => assert_eq!(s, original),
        _ => panic!("expected a string"),
    }
}

#[test]
fn renderer_agrees_with_independent_parser() {
    // what this library renders, an independent JSON implementation reads
    // back as the same value
    let text = r#"{"code":4009,"message":"Agent symbol already exists","data":null,"list":[1,2,3],"nested":{"k":"v \"q\" \\ end"}}"#;
    let ours = parse_json(text).unwrap();
    let rendered = render_json(&ours);
    let theirs: serde_json::Value = serde_json::from_str(&rendered).unwrap();
    let original: serde_json::Value = serde_json::from_str(text).unwrap();
    assert_eq!(theirs, original);
}
