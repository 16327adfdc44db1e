use api_test_runner::json::{find_member, Json, Number};
use api_test_runner::parse::parse;

fn whole(i: i128) -> Json {
    Json::Number(Number::Int(i))
}

fn double(x: f64) -> Json {
    Json::Number(Number::Float(x.to_bits()))
}

fn text(s: &str) -> Json {
    Json::String(s.to_string())
}

fn member(key: &str, value: Json) -> (String, Json) {
    (key.to_string(), value)
}

#[test]
fn objects_compare_without_regard_to_member_order() {
    let a = Json::Object(vec![member("a", whole(1)), member("b", whole(2))]);
    let b = Json::Object(vec![member("b", whole(2)), member("a", whole(1))]);
    assert!(a.equals(&b));
    assert!(b.equals(&a));
    assert!(a == b);
}

#[test]
fn objects_read_from_text_compare_without_regard_to_member_order() {
    let a = parse("{\"a\":1,\"b\":2}").unwrap();
    let b = parse("{\"b\":2,\"a\":1}").unwrap();
    assert!(a.equals(&b));
    assert!(b.equals(&a));
}

#[test]
fn arrays_compare_with_regard_to_item_order() {
    let a = Json::Array(vec![whole(1), whole(2)]);
    let b = Json::Array(vec![whole(2), whole(1)]);
    assert!(!a.equals(&b));
    assert!(!b.equals(&a));
    assert!(a.equals(&Json::Array(vec![whole(1), whole(2)])));
    assert!(a != b);
}

#[test]
fn arrays_of_different_length_are_not_equal() {
    let a = Json::Array(vec![whole(1)]);
    let b = Json::Array(vec![whole(1), whole(1)]);
    assert!(!a.equals(&b));
    assert!(!b.equals(&a));
    assert!(Json::Array(vec![]).equals(&Json::Array(vec![])));
}

#[test]
fn values_of_different_kinds_are_not_equal() {
    let values = vec![
        Json::Null,
        Json::Bool(false),
        whole(0),
        double(0.0),
        text(""),
        text("0"),
        Json::Array(vec![]),
        Json::Object(vec![]),
    ];
    for (i, a) in values.iter().enumerate() {
        for (j, b) in values.iter().enumerate() {
            assert_eq!(a.equals(b), i == j, "{:?} against {:?}", a, b);
        }
    }
}

#[test]
fn an_integer_is_not_equal_to_a_double_of_the_same_size() {
    assert!(!whole(1).equals(&double(1.0)));
    assert!(!double(1.0).equals(&whole(1)));
    assert!(whole(-7).equals(&whole(-7)));
    assert!(!whole(-7).equals(&whole(7)));
    assert!(double(1.5).equals(&double(1.5)));
    assert!(!double(1.5).equals(&double(2.5)));
}

#[test]
fn the_two_zeros_are_equal_doubles() {
    assert!(double(0.0).equals(&double(-0.0)));
    assert!(double(-0.0).equals(&double(0.0)));
    assert!(!double(0.0).equals(&double(f64::MIN_POSITIVE)));
    assert!(parse("-0").unwrap().equals(&parse("0.0").unwrap()));
    assert!(!parse("0").unwrap().equals(&parse("0.0").unwrap()));
}

#[test]
fn objects_with_other_keys_or_values_are_not_equal() {
    let a = Json::Object(vec![member("a", whole(1)), member("b", whole(2))]);
    let fewer = Json::Object(vec![member("a", whole(1))]);
    let more = Json::Object(vec![member("a", whole(1)), member("b", whole(2)), member("c", whole(3))]);
    let other = Json::Object(vec![member("a", whole(1)), member("b", whole(3))]);
    let renamed = Json::Object(vec![member("a", whole(1)), member("B", whole(2))]);
    for b in [&fewer, &more, &other, &renamed] {
        assert!(!a.equals(b));
        assert!(!b.equals(&a));
    }
}

#[test]
fn nested_values_are_compared_in_depth() {
    let a = parse("{\"list\":[{\"x\":1,\"y\":[true,null]},\"s\"],\"n\":{\"k\":2.5}}").unwrap();
    let b = parse("{\"n\":{\"k\":2.5},\"list\":[{\"y\":[true,null],\"x\":1},\"s\"]}").unwrap();
    let c = parse("{\"n\":{\"k\":2.5},\"list\":[{\"y\":[null,true],\"x\":1},\"s\"]}").unwrap();
    assert!(a.equals(&b));
    assert!(!a.equals(&c));
}

#[test]
fn parse_reads_each_kind_of_value() {
    assert!(matches!(parse("null").unwrap(), Json::Null));
    assert!(matches!(parse("true").unwrap(), Json::Bool(true)));
    assert!(matches!(parse(" false ").unwrap(), Json::Bool(false)));
    assert!(matches!(parse("12").unwrap(), Json::Number(Number::Int(12))));
    assert!(matches!(parse("-12").unwrap(), Json::Number(Number::Int(-12))));
    assert!(matches!(
        parse("18446744073709551615").unwrap(),
        Json::Number(Number::Int(18446744073709551615))
    ));
    assert!(matches!(
        parse("-9223372036854775808").unwrap(),
        Json::Number(Number::Int(-9223372036854775808))
    ));
    match parse("1.5").unwrap() {
        Json::Number(Number::Float(bits)) => assert_eq!(bits, 1.5f64.to_bits()),
        other => panic!("not a double: {:?}", other),
    }
    match parse("\"a\\nb\"").unwrap() {
        Json::String(s) => assert_eq!(s, "a\nb"),
        other => panic!("not a string: {:?}", other),
    }
}

#[test]
fn parse_reads_an_object() {
    let parsed = parse("{\"b\": [1, -2, 1.5], \"a\": null}").unwrap();
    let expected = Json::Object(vec![
        member("a", Json::Null),
        member("b", Json::Array(vec![whole(1), whole(-2), double(1.5)])),
    ]);
    assert!(parsed.equals(&expected));
    match parsed {
        Json::Object(members) => {
            let keys: Vec<&str> = members.iter().map(|m| m.0.as_str()).collect();
            assert_eq!(keys, vec!["a", "b"]);
        }
        other => panic!("not an object: {:?}", other),
    }
}

#[test]
fn parse_keeps_the_last_of_two_members_with_one_key() {
    let parsed = parse("{\"a\":1,\"a\":2}").unwrap();
    assert!(parsed.is_well_formed());
    assert!(parsed.equals(&Json::Object(vec![member("a", whole(2))])));
}

#[test]
fn parse_reports_what_is_not_json() {
    let error = parse("not json").unwrap_err();
    assert_eq!(error.message, "expected ident at line 1 column 2");
    assert_eq!(parse("").unwrap_err().message, "EOF while parsing a value at line 1 column 0");
    assert_eq!(parse("{\"a\":1} x").unwrap_err().message, "trailing characters at line 1 column 9");
    assert_eq!(parse("[1,").unwrap_err().message, "EOF while parsing a value at line 1 column 3");
    assert_eq!(parse("1e999").unwrap_err().message, "number out of range at line 1 column 5");
}

#[test]
fn what_parse_reads_is_well_formed() {
    for source in ["null", "[1, 2.5, -3]", "{\"a\":{\"b\":[{}]},\"c\":\"d\"}", "-0", "1e308"] {
        assert!(parse(source).unwrap().is_well_formed(), "{}", source);
    }
}

#[test]
fn well_formedness_asks_for_distinct_keys_and_numbers_in_range() {
    assert!(Json::Object(vec![member("a", whole(1)), member("b", whole(1))]).is_well_formed());
    assert!(!Json::Object(vec![member("a", whole(1)), member("a", whole(2))]).is_well_formed());
    assert!(!Json::Array(vec![Json::Object(vec![member("a", whole(1)), member("a", whole(1))])])
        .is_well_formed());
    assert!(whole(u64::MAX as i128).is_well_formed());
    assert!(!whole(u64::MAX as i128 + 1).is_well_formed());
    assert!(whole(i64::MIN as i128).is_well_formed());
    assert!(!whole(i64::MIN as i128 - 1).is_well_formed());
    assert!(double(f64::MAX).is_well_formed());
    assert!(double(f64::MIN).is_well_formed());
    assert!(double(-0.0).is_well_formed());
    assert!(!double(f64::INFINITY).is_well_formed());
    assert!(!double(f64::NEG_INFINITY).is_well_formed());
    assert!(!double(f64::NAN).is_well_formed());
    assert!(!Json::Object(vec![member("x", double(f64::NAN))]).is_well_formed());
}

#[test]
fn find_member_gives_the_first_place_of_a_key() {
    let members = vec![member("a", whole(1)), member("b", whole(2)), member("a", whole(3))];
    assert_eq!(find_member(&members, &"a".to_string()), Some(0));
    assert_eq!(find_member(&members, &"b".to_string()), Some(1));
    assert_eq!(find_member(&members, &"c".to_string()), None);
    assert_eq!(find_member(&vec![], &"a".to_string()), None);
}

#[test]
fn a_clone_equals_its_original() {
    let original = parse("{\"a\":[1,{\"b\":\"c\"},null,2.5],\"d\":false}").unwrap();
    let copy = original.clone();
    assert!(copy.equals(&original));
    assert_eq!(format!("{:?}", copy), format!("{:?}", original));
}
