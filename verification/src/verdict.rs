//! Judging a response against what a test case expects.
//!
//! A response is judged in two steps, so that the body is asked for only when
//! it is needed: [`check_status`] looks at the status code alone and says
//! whether the case is settled; [`judge_body`] settles the rest.

use crate::case::Expected;
use crate::json::{json_equal, Json, JsonValue};
use crate::parse::{parse, parse_model, parsed, ParseError};
use vstd::prelude::*;

verus! {

/// Whether a test case passed.
#[derive(Clone, Copy, Debug, PartialEq, Eq, Structural)]
pub enum Verdict {
    Pass,
    Fail,
}

/// How a test case ended: it passed, or it failed for one of four reasons.
#[derive(Debug)]
pub enum Outcome {
    /// The response is what was expected.
    Pass,
    /// The response carries another status code than the expected one.
    StatusMismatch { expected_status: u16, actual_status: u16 },
    /// The body could not be read from the connection.
    BodyUnreadable { message: String },
    /// The body is not JSON.
    BodyNotJson { message: String, body: String },
    /// The body is JSON but not equal to the expected value.
    BodyMismatch { expected: Json, actual: Json },
}

/// The model of an [`Outcome`].
pub enum OutcomeValue {
    Pass,
    StatusMismatch { expected_status: u16, actual_status: u16 },
    BodyUnreadable { message: Seq<char> },
    BodyNotJson { message: Seq<char>, body: Seq<char> },
    BodyMismatch { expected: JsonValue, actual: JsonValue },
}

impl View for Outcome {
    type V = OutcomeValue;

    open spec fn view(&self) -> OutcomeValue {
        match self {
            Outcome::Pass => OutcomeValue::Pass,
            Outcome::StatusMismatch { expected_status, actual_status } => {
                OutcomeValue::StatusMismatch {
                    expected_status: *expected_status,
                    actual_status: *actual_status,
                }
            },
            Outcome::BodyUnreadable { message } => OutcomeValue::BodyUnreadable {
                message: message@,
            },
            Outcome::BodyNotJson { message, body } => OutcomeValue::BodyNotJson {
                message: message@,
                body: body@,
            },
            Outcome::BodyMismatch { expected, actual } => OutcomeValue::BodyMismatch {
                expected: expected@,
                actual: actual@,
            },
        }
    }
}

/// The verdict that an outcome amounts to: only `Pass` passes.
pub open spec fn verdict_of(outcome: OutcomeValue) -> Verdict {
    if outcome is Pass {
        Verdict::Pass
    } else {
        Verdict::Fail
    }
}

impl Outcome {
    /// The verdict that the outcome amounts to.
    pub fn verdict(&self) -> (verdict: Verdict)
        ensures
            verdict == verdict_of(self@),
    {
        match self {
            Outcome::Pass => Verdict::Pass,
            _ => Verdict::Fail,
        }
    }
}

/// What the status code alone decides.
#[derive(Debug)]
pub enum StatusCheck {
    /// The case is settled; the body is not to be read.
    Settled(Outcome),
    /// The status code is the expected one and a body is expected: the body
    /// has to be read and judged.
    BodyNeeded,
}

impl View for StatusCheck {
    type V = Option<OutcomeValue>;

    open spec fn view(&self) -> Option<OutcomeValue> {
        match self {
            StatusCheck::Settled(outcome) => Some(outcome@),
            StatusCheck::BodyNeeded => None,
        }
    }
}

/// What the status code decides: a mismatch fails the case at once; a match
/// passes it where no body is expected, and leaves it open (`None`) where one
/// is.
pub open spec fn status_checked(expected: u16, body_expected: bool, actual: u16) -> Option<
    OutcomeValue,
> {
    if actual != expected {
        Some(OutcomeValue::StatusMismatch { expected_status: expected, actual_status: actual })
    } else if !body_expected {
        Some(OutcomeValue::Pass)
    } else {
        None
    }
}

/// Judges the status code of a response.
pub fn check_status(expected: &Expected, status: u16) -> (check: StatusCheck)
    ensures
        check@ == status_checked(expected.status, expected.response is Some, status),
        status != expected.status ==> (check matches StatusCheck::Settled(outcome) && verdict_of(
            outcome@,
        ) == Verdict::Fail),
        status == expected.status && expected.response is None ==> (check matches StatusCheck::Settled(
            outcome,
        ) && verdict_of(outcome@) == Verdict::Pass),
        status == expected.status && expected.response is Some ==> check is BodyNeeded,
{
    if status != expected.status {
        StatusCheck::Settled(
            Outcome::StatusMismatch { expected_status: expected.status, actual_status: status },
        )
    } else if expected.response.is_none() {
        StatusCheck::Settled(Outcome::Pass)
    } else {
        StatusCheck::BodyNeeded
    }
}

/// The value that a declared body is compared as. A declared string that
/// reads as JSON stands for the value read from it; a string that does not,
/// and a value of any other kind, stand for themselves.
pub open spec fn normalized(declared: JsonValue) -> JsonValue {
    match declared {
        JsonValue::String(text) => match parsed(text) {
            Ok(value) => value,
            Err(_) => declared,
        },
        _ => declared,
    }
}

/// Picks the comparison target for a declared string, given what reading the
/// string as JSON gave: the value read, or else the declared string itself.
pub fn prefer_reread(declared: &Json, reread: Result<Json, ParseError>) -> (target: Json)
    ensures
        target@ == match reread {
            Ok(value) => value@,
            Err(_) => declared@,
        },
{
    match reread {
        Ok(value) => value,
        Err(_) => declared.clone(),
    }
}

/// Normalizes a declared body: see [`normalized`].
pub fn normalize_expected(declared: &Json) -> (target: Json)
    ensures
        target@ == normalized(declared@),
        declared.wf() ==> target.wf(),
{
    match declared {
        Json::String(text) => {
            let reread = parse(text.as_str());
            assert(parse_model(reread) == parsed(text@));
            prefer_reread(declared, reread)
        },
        _ => declared.clone(),
    }
}

/// How an actual value compares with the expected one.
pub open spec fn compared(expected: JsonValue, actual: JsonValue) -> OutcomeValue {
    if json_equal(actual, expected) {
        OutcomeValue::Pass
    } else {
        OutcomeValue::BodyMismatch { expected, actual }
    }
}

/// Compares an actual value with the expected one.
pub fn compare(expected: Json, actual: Json) -> (outcome: Outcome)
    ensures
        outcome@ == compared(expected@, actual@),
        expected.wf() && actual.wf() ==> outcome.wf(),
{
    if actual.equals(&expected) {
        Outcome::Pass
    } else {
        Outcome::BodyMismatch { expected, actual }
    }
}

/// How a body text is judged against a declared body: a text that is not JSON
/// fails with the reader's message; one that is JSON is compared with the
/// normalized declaration.
pub open spec fn judged_text(declared: JsonValue, body: Seq<char>) -> OutcomeValue {
    match parsed(body) {
        Err(message) => OutcomeValue::BodyNotJson { message, body },
        Ok(actual) => compared(normalized(declared), actual),
    }
}

/// How the attempt to read a body is judged: a failure to read fails the case
/// with the transport's message; a text is judged by [`judged_text`].
pub open spec fn judged_body(
    declared: JsonValue,
    body: Result<Seq<char>, Seq<char>>,
) -> OutcomeValue {
    match body {
        Err(message) => OutcomeValue::BodyUnreadable { message },
        Ok(text) => judged_text(declared, text),
    }
}

/// How a whole response is judged: the status code first, and the body only
/// where the status code leaves the case open.
pub open spec fn judged_response(
    expected_status: u16,
    declared: Option<JsonValue>,
    status: u16,
    body: Result<Seq<char>, Seq<char>>,
) -> OutcomeValue {
    match status_checked(expected_status, declared is Some, status) {
        Some(outcome) => outcome,
        None => judged_body(declared->0, body),
    }
}

/// The model of what reading a body gave.
pub open spec fn body_view(body: Result<String, String>) -> Result<Seq<char>, Seq<char>> {
    match body {
        Ok(text) => Ok(text@),
        Err(message) => Err(message@),
    }
}

/// The model of a declared body that may be absent.
pub open spec fn declared_view(declared: Option<Json>) -> Option<JsonValue> {
    match declared {
        Some(json) => Some(json@),
        None => None,
    }
}

impl Outcome {
    /// The values that a body mismatch holds are well formed.
    pub open spec fn wf(&self) -> bool {
        match self {
            Outcome::BodyMismatch { expected, actual } => expected.wf() && actual.wf(),
            _ => true,
        }
    }
}

/// Judges a body text against a declared body.
pub fn judge_text(declared: &Json, body: String) -> (outcome: Outcome)
    ensures
        outcome@ == judged_text(declared@, body@),
        declared.wf() ==> outcome.wf(),
{
    let read = parse(body.as_str());
    assert(parse_model(read) == parsed(body@));
    match read {
        Err(error) => Outcome::BodyNotJson { message: error.message, body },
        Ok(actual) => compare(normalize_expected(declared), actual),
    }
}

/// Judges what reading the body gave, for a response whose status code has
/// been found to match. Where the test case declares no body there is nothing
/// to compare, and the case passes.
pub fn judge_body(expected: &Expected, body: Result<String, String>) -> (outcome: Outcome)
    ensures
        outcome@ == match expected.response {
            Some(declared) => judged_body(declared@, body_view(body)),
            None => OutcomeValue::Pass,
        },
        expected.response matches Some(declared) && declared.wf() ==> outcome.wf(),
{
    match &expected.response {
        None => Outcome::Pass,
        Some(declared) => match body {
            Err(message) => Outcome::BodyUnreadable { message },
            Ok(text) => judge_text(declared, text),
        },
    }
}

/// Judges a response whose body has been read already, or could not be read.
/// The body plays no part where the status code settles the case.
pub fn judge_response(expected: &Expected, status: u16, body: Result<String, String>) -> (outcome:
    Outcome)
    ensures
        outcome@ == judged_response(
            expected.status,
            declared_view(expected.response),
            status,
            body_view(body),
        ),
        status != expected.status ==> outcome@ == (OutcomeValue::StatusMismatch {
            expected_status: expected.status,
            actual_status: status,
        }),
        status == expected.status && expected.response is None ==> outcome@ == OutcomeValue::Pass,
        expected.response matches Some(declared) && declared.wf() ==> outcome.wf(),
{
    match check_status(expected, status) {
        StatusCheck::Settled(outcome) => outcome,
        StatusCheck::BodyNeeded => judge_body(expected, body),
    }
}

} // verus!
