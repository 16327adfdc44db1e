use api_test_runner::case::Expected;
use api_test_runner::json::{Json, Number};
use api_test_runner::parse::{parse, ParseError};
use api_test_runner::verdict::{
    check_status, compare, judge_body, judge_response, judge_text, normalize_expected,
    prefer_reread, Outcome, StatusCheck, Verdict,
};

fn number(i: i128) -> Json {
    Json::Number(Number::Int(i))
}

fn object(members: Vec<(&str, Json)>) -> Json {
    Json::Object(members.into_iter().map(|(k, v)| (k.to_string(), v)).collect())
}

fn expecting(declared: Json) -> Expected {
    Expected { status: 200, response: Some(declared) }
}

#[test]
fn a_wrong_status_fails_without_a_look_at_the_body() {
    let expected = Expected { status: 200, response: Some(object(vec![("ok", Json::Bool(true))])) };
    match check_status(&expected, 404) {
        StatusCheck::Settled(outcome) => {
            assert_eq!(outcome.verdict(), Verdict::Fail);
            assert!(matches!(
                outcome,
                Outcome::StatusMismatch { expected_status: 200, actual_status: 404 }
            ));
        }
        StatusCheck::BodyNeeded => panic!("the body was asked for"),
    }
    let bare = Expected { status: 201, response: None };
    assert!(matches!(
        check_status(&bare, 200),
        StatusCheck::Settled(Outcome::StatusMismatch { expected_status: 201, actual_status: 200 })
    ));
}

#[test]
fn a_matching_status_passes_where_no_body_is_expected() {
    let expected = Expected { status: 200, response: None };
    match check_status(&expected, 200) {
        StatusCheck::Settled(outcome) => {
            assert_eq!(outcome.verdict(), Verdict::Pass);
            assert!(matches!(outcome, Outcome::Pass));
        }
        StatusCheck::BodyNeeded => panic!("the body was asked for"),
    }
    let no_content = Expected { status: 204, response: None };
    assert!(matches!(check_status(&no_content, 204), StatusCheck::Settled(Outcome::Pass)));
}

#[test]
fn a_matching_status_asks_for_the_body_where_one_is_expected() {
    let expected = Expected { status: 200, response: Some(Json::Null) };
    assert!(matches!(check_status(&expected, 200), StatusCheck::BodyNeeded));
}

#[test]
fn a_declared_string_that_holds_json_stands_for_that_json() {
    let declared = Json::String("{\"a\":1}".to_string());
    let target = normalize_expected(&declared);
    assert!(matches!(target, Json::Object(_)));
    assert!(target.equals(&object(vec![("a", number(1))])));
}

#[test]
fn a_declared_string_that_holds_no_json_stands_for_itself() {
    let declared = Json::String("hello".to_string());
    let target = normalize_expected(&declared);
    match target {
        Json::String(s) => assert_eq!(s, "hello"),
        other => panic!("not a string: {:?}", other),
    }
}

#[test]
fn a_declared_string_is_read_once_only() {
    let declared = Json::String("\"{\\\"a\\\":1}\"".to_string());
    match normalize_expected(&declared) {
        Json::String(s) => assert_eq!(s, "{\"a\":1}"),
        other => panic!("not a string: {:?}", other),
    }
    assert!(normalize_expected(&Json::String("12".to_string())).equals(&number(12)));
    assert!(normalize_expected(&Json::String("null".to_string())).equals(&Json::Null));
}

#[test]
fn a_declared_value_of_another_kind_stands_for_itself() {
    let values = vec![
        Json::Null,
        Json::Bool(true),
        number(3),
        Json::Array(vec![Json::String("[1]".to_string())]),
        object(vec![("a", Json::String("{\"b\":1}".to_string()))]),
    ];
    for declared in values {
        let target = normalize_expected(&declared);
        assert_eq!(format!("{:?}", target), format!("{:?}", declared));
    }
}

#[test]
fn prefer_reread_takes_what_was_read_or_else_the_declaration() {
    let declared = Json::String("x".to_string());
    assert!(prefer_reread(&declared, Ok(number(5))).equals(&number(5)));
    let kept = prefer_reread(&declared, Err(ParseError { message: "no".to_string() }));
    assert!(kept.equals(&declared));
    assert!(prefer_reread(&declared, parse("x")).equals(&declared));
}

#[test]
fn compare_passes_equal_values_and_keeps_both_sides_of_a_mismatch() {
    assert!(matches!(compare(number(1), number(1)), Outcome::Pass));
    match compare(number(1), number(2)) {
        Outcome::BodyMismatch { expected, actual } => {
            assert!(expected.equals(&number(1)));
            assert!(actual.equals(&number(2)));
        }
        other => panic!("no mismatch: {:?}", other),
    }
    let a = object(vec![("a", number(1)), ("b", number(2))]);
    let b = object(vec![("b", number(2)), ("a", number(1))]);
    assert!(matches!(compare(a, b), Outcome::Pass));
}

#[test]
fn a_body_equal_to_the_declared_one_passes() {
    let declared = expecting(object(vec![("ok", Json::Bool(true)), ("n", number(1))]));
    let outcome = judge_body(&declared, Ok("{ \"n\": 1, \"ok\": true }".to_string()));
    assert!(matches!(outcome, Outcome::Pass));
    assert_eq!(outcome.verdict(), Verdict::Pass);
}

#[test]
fn a_body_is_compared_with_the_json_inside_a_declared_string() {
    let declared = expecting(Json::String("{\"a\":1}".to_string()));
    assert!(matches!(judge_body(&declared, Ok("{\"a\":1}".to_string())), Outcome::Pass));
    assert!(matches!(
        judge_body(&declared, Ok("\"{\\\"a\\\":1}\"".to_string())),
        Outcome::BodyMismatch { .. }
    ));
    let plain = expecting(Json::String("hello".to_string()));
    assert!(matches!(judge_body(&plain, Ok("\"hello\"".to_string())), Outcome::Pass));
}

#[test]
fn a_body_that_differs_fails_with_both_values() {
    let declared = expecting(object(vec![("ok", Json::Bool(true))]));
    let outcome = judge_body(&declared, Ok("{\"ok\": false}".to_string()));
    assert_eq!(outcome.verdict(), Verdict::Fail);
    match outcome {
        Outcome::BodyMismatch { expected, actual } => {
            assert!(expected.equals(&object(vec![("ok", Json::Bool(true))])));
            assert!(actual.equals(&object(vec![("ok", Json::Bool(false))])));
        }
        other => panic!("no mismatch: {:?}", other),
    }
}

#[test]
fn a_body_that_is_not_json_fails_with_the_reason_and_the_raw_text() {
    let declared = expecting(object(vec![("ok", Json::Bool(true))]));
    let outcome = judge_body(&declared, Ok("not json".to_string()));
    assert_eq!(outcome.verdict(), Verdict::Fail);
    match outcome {
        Outcome::BodyNotJson { message, body } => {
            assert_eq!(message, "expected ident at line 1 column 2");
            assert_eq!(body, "not json");
        }
        other => panic!("read as json: {:?}", other),
    }
    assert!(matches!(judge_text(&Json::Null, String::new()), Outcome::BodyNotJson { .. }));
}

#[test]
fn a_body_that_cannot_be_read_fails_with_the_message() {
    let declared = expecting(Json::Null);
    let outcome = judge_body(&declared, Err("connection reset".to_string()));
    assert_eq!(outcome.verdict(), Verdict::Fail);
    match outcome {
        Outcome::BodyUnreadable { message } => assert_eq!(message, "connection reset"),
        other => panic!("the body was read: {:?}", other),
    }
}

#[test]
fn a_body_is_not_judged_where_none_is_declared() {
    let bare = Expected { status: 200, response: None };
    assert!(matches!(judge_body(&bare, Ok("not json".to_string())), Outcome::Pass));
    assert!(matches!(judge_body(&bare, Err("connection reset".to_string())), Outcome::Pass));
}

#[test]
fn a_response_is_judged_by_its_status_first() {
    let expected = expecting(object(vec![("ok", Json::Bool(true))]));
    for body in [Ok("{\"ok\":true}".to_string()), Ok("not json".to_string()), Err("lost".to_string())] {
        assert!(matches!(
            judge_response(&expected, 500, body),
            Outcome::StatusMismatch { expected_status: 200, actual_status: 500 }
        ));
    }
    assert!(matches!(judge_response(&expected, 200, Ok("{\"ok\":true}".to_string())), Outcome::Pass));
    assert!(matches!(
        judge_response(&expected, 200, Ok("{\"ok\":1}".to_string())),
        Outcome::BodyMismatch { .. }
    ));
    assert!(matches!(
        judge_response(&expected, 200, Ok("not json".to_string())),
        Outcome::BodyNotJson { .. }
    ));
    assert!(matches!(
        judge_response(&expected, 200, Err("lost".to_string())),
        Outcome::BodyUnreadable { .. }
    ));
    let bare = Expected { status: 204, response: None };
    assert!(matches!(judge_response(&bare, 204, Err("lost".to_string())), Outcome::Pass));
    assert!(matches!(judge_response(&bare, 204, Ok("anything".to_string())), Outcome::Pass));
}
