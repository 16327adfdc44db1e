//! The lines that report how a test case ended.
//!
//! Nothing here prints. Each function returns the text of one or more lines,
//! for the caller to print in order. The texts of JSON values are handed in:
//! putting a value into text is not done here.

use crate::text::{decimal, decimal_text, join};
use crate::verdict::{Outcome, OutcomeValue};
use vstd::prelude::*;
use vstd::string::StringExecFns;

verus! {

/// The tag that opens the line of a passed case, in green.
pub const PASS_TAG: &'static str = "\x1b[32m PASS \x1b[0m";

/// The tag that opens the line of a failed case, in red.
pub const FAIL_TAG: &'static str = "\x1b[31m FAIL \x1b[0m";

/// The line above the differences, in yellow.
pub const DIFFERENCES_HEADER: &'static str = "\x1b[33m>> DIFFERENCES:\x1b[0m";

/// The line above the complete values, in yellow, with an empty line before it.
pub const COMPLETE_HEADER: &'static str = "\n\x1b[33m>> COMPLETE VALUES:\x1b[0m";

/// The first line of a case's report: `PASS` and the case's name, or `FAIL`,
/// the name and the reason.
pub open spec fn headline_text(case: Seq<char>, outcome: OutcomeValue) -> Seq<char> {
    match outcome {
        OutcomeValue::Pass => PASS_TAG@ + case,
        OutcomeValue::StatusMismatch { expected_status, actual_status } => FAIL_TAG@ + case
            + " - Status code mismatch: expected="@ + decimal(expected_status as nat)
            + ", actual="@ + decimal(actual_status as nat),
        OutcomeValue::BodyUnreadable { message } => FAIL_TAG@ + case
            + " - Failed to get response: "@ + message,
        OutcomeValue::BodyNotJson { message, .. } => FAIL_TAG@ + case + " - JSON parse error: "@
            + message,
        OutcomeValue::BodyMismatch { .. } => FAIL_TAG@ + case
            + " - Response body mismatch"@,
    }
}

/// Writes the first line of a case's report.
pub fn headline(case: &str, outcome: &Outcome) -> (line: String)
    ensures
        line@ == headline_text(case@, outcome@),
{
    match outcome {
        Outcome::Pass => join(PASS_TAG, case),
        Outcome::StatusMismatch { expected_status, actual_status } => {
            let mut line = join(FAIL_TAG, case);
            line.append(" - Status code mismatch: expected=");
            line.append(decimal_text(*expected_status).as_str());
            line.append(", actual=");
            line.append(decimal_text(*actual_status).as_str());
            line
        },
        Outcome::BodyUnreadable { message } => {
            let mut line = join(FAIL_TAG, case);
            line.append(" - Failed to get response: ");
            line.append(message.as_str());
            line
        },
        Outcome::BodyNotJson { message, .. } => {
            let mut line = join(FAIL_TAG, case);
            line.append(" - JSON parse error: ");
            line.append(message.as_str());
            line
        },
        Outcome::BodyMismatch { .. } => {
            let mut line = join(FAIL_TAG, case);
            line.append(" - Response body mismatch");
            line
        },
    }
}

/// The line that shows a body that was not JSON, as it was received.
pub open spec fn raw_response_text(body: Seq<char>) -> Seq<char> {
    "Raw response: "@ + body
}

/// Writes the line that shows a body that was not JSON.
pub fn raw_response_line(body: &str) -> (line: String)
    ensures
        line@ == raw_response_text(body@),
{
    join("Raw response: ", body)
}

/// A difference whose values have been put into text.
#[derive(Debug)]
pub struct RenderedDifference {
    pub key: String,
    /// The text of the expected value; `None` where the key was not expected.
    pub expected: Option<String>,
    /// The text of the actual value; `None` where the key is missing.
    pub actual: Option<String>,
}

/// The model of a [`RenderedDifference`].
pub struct RenderedDifferenceValue {
    pub key: Seq<char>,
    pub expected: Option<Seq<char>>,
    pub actual: Option<Seq<char>>,
}

/// The model of a text that may be absent.
pub open spec fn optional_text(text: Option<String>) -> Option<Seq<char>> {
    match text {
        Some(text) => Some(text@),
        None => None,
    }
}

impl View for RenderedDifference {
    type V = RenderedDifferenceValue;

    open spec fn view(&self) -> RenderedDifferenceValue {
        RenderedDifferenceValue {
            key: self.key@,
            expected: optional_text(self.expected),
            actual: optional_text(self.actual),
        }
    }
}

/// The models of a list of rendered differences, in order.
pub open spec fn rendered_view(list: Seq<RenderedDifference>) -> Seq<RenderedDifferenceValue> {
    Seq::new(list.len(), |i: int| list[i]@)
}

/// The texts of a list of lines, in order.
pub open spec fn lines_view(lines: Seq<String>) -> Seq<Seq<char>> {
    Seq::new(lines.len(), |i: int| lines[i]@)
}

/// The line that names a key, in cyan.
pub open spec fn key_text(key: Seq<char>) -> Seq<char> {
    "  Key: \x1b[36m"@ + key + "\x1b[0m"@
}

/// The line that shows the expected side of a difference, in green. A key
/// that was not expected shows as `<not expected>`.
pub open spec fn expected_text(expected: Option<Seq<char>>) -> Seq<char> {
    "    Expected: \x1b[32m"@ + (match expected {
        Some(text) => text,
        None => "<not expected>"@,
    }) + "\x1b[0m"@
}

/// The line that shows the actual side of a difference, in red. A missing key
/// shows as `<missing>`.
pub open spec fn actual_text(actual: Option<Seq<char>>) -> Seq<char> {
    "    Actual:   \x1b[31m"@ + (match actual {
        Some(text) => text,
        None => "<missing>"@,
    }) + "\x1b[0m"@
}

/// The three lines of one difference: the key, what was expected, what was
/// found.
pub open spec fn difference_texts(difference: RenderedDifferenceValue) -> Seq<Seq<char>> {
    seq![
        key_text(difference.key),
        expected_text(difference.expected),
        actual_text(difference.actual),
    ]
}

/// The lines of a list of differences, in order.
pub open spec fn all_difference_texts(list: Seq<RenderedDifferenceValue>) -> Seq<Seq<char>>
    decreases list.len(),
{
    if list.len() == 0 {
        Seq::empty()
    } else {
        all_difference_texts(list.drop_last()) + difference_texts(list.last())
    }
}

/// The line that shows the complete expected value, in green, under its label.
pub open spec fn complete_expected_text(pretty: Seq<char>) -> Seq<char> {
    "  Expected: \n\x1b[32m"@ + pretty + "\x1b[0m"@
}

/// The line that shows the complete actual value, in red, under its label.
pub open spec fn complete_actual_text(pretty: Seq<char>) -> Seq<char> {
    "  Actual: \n\x1b[31m"@ + pretty + "\x1b[0m"@
}

/// The lines below the first line of a body mismatch: the header of the
/// differences; three lines for each difference, where the two values were
/// compared key by key; the header of the complete values; and both values in
/// full.
pub open spec fn mismatch_texts(
    differences: Option<Seq<RenderedDifferenceValue>>,
    expected_pretty: Seq<char>,
    actual_pretty: Seq<char>,
) -> Seq<Seq<char>> {
    seq![DIFFERENCES_HEADER@] + (match differences {
        Some(list) => all_difference_texts(list),
        None => Seq::empty(),
    }) + seq![
        COMPLETE_HEADER@,
        complete_expected_text(expected_pretty),
        complete_actual_text(actual_pretty),
    ]
}

/// The model of a list of rendered differences that may be absent.
pub open spec fn optional_rendered(differences: Option<&Vec<RenderedDifference>>) -> Option<
    Seq<RenderedDifferenceValue>,
> {
    match differences {
        Some(list) => Some(rendered_view(list@)),
        None => None,
    }
}

/// Puts a text between two others.
pub fn enclose(before: &str, text: &str, after: &str) -> (line: String)
    ensures
        line@ == before@ + text@ + after@,
{
    let mut line = join(before, text);
    line.append(after);
    line
}

/// Writes the three lines of one difference.
pub fn difference_lines(difference: &RenderedDifference) -> (lines: Vec<String>)
    ensures
        lines_view(lines@) == difference_texts(difference@),
{
    let mut lines: Vec<String> = Vec::new();
    lines.push(enclose("  Key: \x1b[36m", difference.key.as_str(), "\x1b[0m"));
    let expected = match &difference.expected {
        Some(text) => enclose("    Expected: \x1b[32m", text.as_str(), "\x1b[0m"),
        None => enclose("    Expected: \x1b[32m", "<not expected>", "\x1b[0m"),
    };
    lines.push(expected);
    let actual = match &difference.actual {
        Some(text) => enclose("    Actual:   \x1b[31m", text.as_str(), "\x1b[0m"),
        None => enclose("    Actual:   \x1b[31m", "<missing>", "\x1b[0m"),
    };
    lines.push(actual);
    assert(lines_view(lines@) =~= difference_texts(difference@));
    lines
}

/// Writes the lines below the first line of a body mismatch.
///
/// `differences` holds the differences that were found key by key, with their
/// values in compact text, or `None` where the two values were not both
/// objects. `expected_pretty` and `actual_pretty` are the two values in
/// pretty-printed text.
pub fn mismatch_lines(
    differences: Option<&Vec<RenderedDifference>>,
    expected_pretty: &str,
    actual_pretty: &str,
) -> (lines: Vec<String>)
    ensures
        lines_view(lines@) == mismatch_texts(
            optional_rendered(differences),
            expected_pretty@,
            actual_pretty@,
        ),
{
    let mut lines: Vec<String> = Vec::new();
    lines.push(DIFFERENCES_HEADER.to_owned());
    let ghost head = lines_view(lines@);
    assert(head =~= seq![DIFFERENCES_HEADER@]);
    match differences {
        Some(list) => {
            let ghost model = rendered_view(list@);
            let mut i: usize = 0;
            assert(model.take(0) =~= Seq::empty());
            assert(head + all_difference_texts(model.take(0)) =~= head);
            while i < list.len()
                invariant
                    i <= list.len(),
                    model == rendered_view(list@),
                    lines_view(lines@) == head + all_difference_texts(model.take(i as int)),
                decreases list.len() - i,
            {
                let ghost before = lines_view(lines@);
                let ghost so_far = all_difference_texts(model.take(i as int));
                let mut three = difference_lines(&list[i]);
                let ghost added = lines_view(three@);
                lines.append(&mut three);
                proof {
                    assert(model.take(i + 1).drop_last() =~= model.take(i as int));
                    assert(model.take(i + 1).last() == model[i as int]);
                    assert(lines_view(lines@) =~= before + added);
                    assert(before + added =~= head + (so_far + added));
                }
                i += 1;
            }
            assert(model.take(list.len() as int) =~= model);
        },
        None => {
            assert(head + Seq::<Seq<char>>::empty() =~= head);
        },
    }
    let ghost body = lines_view(lines@);
    lines.push(COMPLETE_HEADER.to_owned());
    lines.push(enclose("  Expected: \n\x1b[32m", expected_pretty, "\x1b[0m"));
    lines.push(enclose("  Actual: \n\x1b[31m", actual_pretty, "\x1b[0m"));
    assert(lines_view(lines@) =~= body + seq![
        COMPLETE_HEADER@,
        complete_expected_text(expected_pretty@),
        complete_actual_text(actual_pretty@),
    ]);
    lines
}

} // verus!
