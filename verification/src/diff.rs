//! The key-by-key difference of two JSON objects.

use crate::equality::lemma_equal_symmetric;
use crate::json::{
    find_member,
    first_index,
    has_key,
    json_equal,
    lemma_first_index,
    lemma_object_view,
    lookup,
    members_view,
    same_keys,
    Json,
    JsonValue,
    Members,
};
use vstd::prelude::*;

verus! {

/// One key under which an actual object differs from the expected one.
#[derive(Debug)]
pub struct Difference {
    pub key: String,
    /// What was expected under the key; `None` where the key was not expected.
    pub expected: Option<Json>,
    /// What was found under the key; `None` where the key is missing.
    pub actual: Option<Json>,
}

/// The model of a [`Difference`].
pub struct DifferenceValue {
    pub key: Seq<char>,
    pub expected: Option<JsonValue>,
    pub actual: Option<JsonValue>,
}

/// The model of a value that may be absent.
pub open spec fn optional_view(value: Option<Json>) -> Option<JsonValue> {
    match value {
        Some(json) => Some(json@),
        None => None,
    }
}

impl View for Difference {
    type V = DifferenceValue;

    open spec fn view(&self) -> DifferenceValue {
        DifferenceValue {
            key: self.key@,
            expected: optional_view(self.expected),
            actual: optional_view(self.actual),
        }
    }
}

impl DifferenceValue {
    /// The values that the difference holds are well formed.
    pub open spec fn wf(self) -> bool {
        &&& self.expected matches Some(value) ==> value.wf()
        &&& self.actual matches Some(value) ==> value.wf()
    }
}

/// The models of a list of differences, in order.
pub open spec fn differences_view(list: Seq<Difference>) -> Seq<DifferenceValue> {
    Seq::new(list.len(), |i: int| list[i]@)
}

/// An expected key that the actual object lacks.
pub open spec fn missing(member: (Seq<char>, JsonValue)) -> DifferenceValue {
    DifferenceValue { key: member.0, expected: Some(member.1), actual: None }
}

/// An expected key under which the actual object holds another value.
pub open spec fn changed(member: (Seq<char>, JsonValue), found: JsonValue) -> DifferenceValue {
    DifferenceValue { key: member.0, expected: Some(member.1), actual: Some(found) }
}

/// A key of the actual object that was not expected.
pub open spec fn unexpected(member: (Seq<char>, JsonValue)) -> DifferenceValue {
    DifferenceValue { key: member.0, expected: None, actual: Some(member.1) }
}

/// What one expected member contributes: nothing where the actual object holds
/// an equal value under its key, else one difference.
pub open spec fn expected_member_difference(
    member: (Seq<char>, JsonValue),
    actual: Members,
) -> Seq<DifferenceValue> {
    match lookup(actual, member.0) {
        None => seq![missing(member)],
        Some(found) => if json_equal(member.1, found) {
            Seq::empty()
        } else {
            seq![changed(member, found)]
        },
    }
}

/// What one actual member contributes: one difference where its key was not
/// expected, else nothing.
pub open spec fn actual_member_difference(
    member: (Seq<char>, JsonValue),
    expected: Members,
) -> Seq<DifferenceValue> {
    if has_key(expected, member.0) {
        Seq::empty()
    } else {
        seq![unexpected(member)]
    }
}

/// The differences found by going through the expected members in order.
pub open spec fn expected_side(expected: Members, actual: Members) -> Seq<DifferenceValue>
    decreases expected.len(),
{
    if expected.len() == 0 {
        Seq::empty()
    } else {
        expected_side(expected.drop_last(), actual) + expected_member_difference(
            expected.last(),
            actual,
        )
    }
}

/// The differences found by going through the actual members in order.
pub open spec fn actual_side(expected: Members, actual: Members) -> Seq<DifferenceValue>
    decreases actual.len(),
{
    if actual.len() == 0 {
        Seq::empty()
    } else {
        actual_side(expected, actual.drop_last()) + actual_member_difference(
            actual.last(),
            expected,
        )
    }
}

/// All differences of two member lists: first those found along the expected
/// members, then the keys that were not expected.
pub open spec fn differences(expected: Members, actual: Members) -> Seq<DifferenceValue> {
    expected_side(expected, actual) + actual_side(expected, actual)
}

/// The differences of two values: those of their members where both are
/// objects, and none to speak of where either is not.
pub open spec fn object_differences(expected: JsonValue, actual: JsonValue) -> Option<
    Seq<DifferenceValue>,
> {
    match (expected, actual) {
        (JsonValue::Object(x), JsonValue::Object(y)) => Some(differences(x, y)),
        _ => None,
    }
}

/// The model of what [`diff`] returns.
pub open spec fn diff_view(result: Option<Vec<Difference>>) -> Option<Seq<DifferenceValue>> {
    match result {
        Some(list) => Some(differences_view(list@)),
        None => None,
    }
}

/// Compares two objects key by key.
///
/// Each expected key is reported where the actual object lacks it or holds
/// another value under it; then each actual key that was not expected is
/// reported. Where either value is not an object the result is `None`.
pub fn diff(expected: &Json, actual: &Json) -> (result: Option<Vec<Difference>>)
    ensures
        diff_view(result) == object_differences(expected@, actual@),
        expected.wf() && actual.wf() ==> (result matches Some(list) ==> forall|i: int|
            0 <= i < list.len() ==> (#[trigger] list[i])@.wf()),
{
    match (expected, actual) {
        (Json::Object(x), Json::Object(y)) => {
            let ghost xs = members_view(x@);
            let ghost ys = members_view(y@);
            proof {
                lemma_object_view(*x);
                lemma_object_view(*y);
            }
            let mut found: Vec<Difference> = Vec::new();
            let mut i: usize = 0;
            assert(xs.take(0) =~= Seq::empty());
            assert(differences_view(found@) =~= expected_side(xs.take(0), ys));
            while i < x.len()
                invariant
                    i <= x.len(),
                    xs == members_view(x@),
                    ys == members_view(y@),
                    differences_view(found@) == expected_side(xs.take(i as int), ys),
                decreases x.len() - i,
            {
                let ghost before = differences_view(found@);
                proof {
                    assert(xs.take(i + 1).drop_last() =~= xs.take(i as int));
                    assert(xs.take(i + 1).last() == xs[i as int]);
                }
                match find_member(y, &x[i].0) {
                    None => {
                        found.push(
                            Difference {
                                key: x[i].0.clone(),
                                expected: Some(x[i].1.clone()),
                                actual: None,
                            },
                        );
                        assert(differences_view(found@) =~= before + seq![missing(xs[i as int])]);
                    },
                    Some(j) => {
                        proof {
                            lemma_first_index(ys, xs[i as int].0);
                        }
                        if !x[i].1.equals(&y[j].1) {
                            found.push(
                                Difference {
                                    key: x[i].0.clone(),
                                    expected: Some(x[i].1.clone()),
                                    actual: Some(y[j].1.clone()),
                                },
                            );
                            assert(differences_view(found@) =~= before + seq![
                                changed(xs[i as int], ys[j as int].1),
                            ]);
                        } else {
                            assert(before + Seq::<DifferenceValue>::empty() =~= before);
                        }
                    },
                }
                i += 1;
            }
            assert(xs.take(x.len() as int) =~= xs);
            let ghost first = differences_view(found@);
            let mut j: usize = 0;
            assert(ys.take(0) =~= Seq::empty());
            assert(first + actual_side(xs, ys.take(0)) =~= first);
            while j < y.len()
                invariant
                    j <= y.len(),
                    xs == members_view(x@),
                    ys == members_view(y@),
                    first == expected_side(xs, ys),
                    differences_view(found@) == first + actual_side(xs, ys.take(j as int)),
                decreases y.len() - j,
            {
                let ghost before = differences_view(found@);
                proof {
                    assert(ys.take(j + 1).drop_last() =~= ys.take(j as int));
                    assert(ys.take(j + 1).last() == ys[j as int]);
                }
                if find_member(x, &y[j].0).is_none() {
                    found.push(
                        Difference {
                            key: y[j].0.clone(),
                            expected: None,
                            actual: Some(y[j].1.clone()),
                        },
                    );
                    assert(differences_view(found@) =~= before + seq![unexpected(ys[j as int])]);
                    assert(before + seq![unexpected(ys[j as int])] =~= first + (actual_side(
                        xs,
                        ys.take(j as int),
                    ) + seq![unexpected(ys[j as int])]));
                } else {
                    assert(actual_side(xs, ys.take(j as int)) + Seq::<DifferenceValue>::empty()
                        =~= actual_side(xs, ys.take(j as int)));
                }
                j += 1;
            }
            assert(ys.take(y.len() as int) =~= ys);
            proof {
                if expected.wf() && actual.wf() {
                    lemma_differences_well_formed(xs, ys);
                    assert forall|i: int| 0 <= i < found.len() implies (#[trigger] found[i])@.wf() by {
                        assert(differences_view(found@)[i] == found[i]@);
                        assert(differences(xs, ys).contains(found[i]@));
                    }
                }
            }
            Some(found)
        },
        _ => None,
    }
}

/// What an expected member contributes stands among the differences found
/// along the expected members.
proof fn lemma_expected_side_holds(expected: Members, actual: Members, i: int, d: DifferenceValue)
    requires
        0 <= i < expected.len(),
        expected_member_difference(expected[i], actual).contains(d),
    ensures
        expected_side(expected, actual).contains(d),
    decreases expected.len(),
{
    let rest = expected_side(expected.drop_last(), actual);
    let tail = expected_member_difference(expected.last(), actual);
    if i == expected.len() - 1 {
        let k = choose|k: int| 0 <= k < tail.len() && tail[k] == d;
        assert((rest + tail)[rest.len() + k] == d);
    } else {
        assert(expected.drop_last()[i] == expected[i]);
        lemma_expected_side_holds(expected.drop_last(), actual, i, d);
        let k = choose|k: int| 0 <= k < rest.len() && rest[k] == d;
        assert((rest + tail)[k] == d);
    }
}

/// Each difference found along the expected members is what one of them
/// contributes.
proof fn lemma_expected_side_origin(expected: Members, actual: Members, d: DifferenceValue)
    requires
        expected_side(expected, actual).contains(d),
    ensures
        exists|i: int|
            0 <= i < expected.len() && expected_member_difference(
                #[trigger] expected[i],
                actual,
            ).contains(d),
    decreases expected.len(),
{
    if expected.len() > 0 {
        let rest = expected_side(expected.drop_last(), actual);
        let tail = expected_member_difference(expected.last(), actual);
        let k = choose|k: int| 0 <= k < (rest + tail).len() && (rest + tail)[k] == d;
        if k < rest.len() {
            assert(rest[k] == d);
            lemma_expected_side_origin(expected.drop_last(), actual, d);
            let i = choose|i: int|
                0 <= i < expected.drop_last().len() && expected_member_difference(
                    #[trigger] expected.drop_last()[i],
                    actual,
                ).contains(d);
            assert(expected.drop_last()[i] == expected[i]);
        } else {
            assert(tail[k - rest.len()] == d);
            assert(expected[expected.len() - 1] == expected.last());
        }
    }
}

/// What an actual member contributes stands among the differences found along
/// the actual members.
proof fn lemma_actual_side_holds(expected: Members, actual: Members, j: int, d: DifferenceValue)
    requires
        0 <= j < actual.len(),
        actual_member_difference(actual[j], expected).contains(d),
    ensures
        actual_side(expected, actual).contains(d),
    decreases actual.len(),
{
    let rest = actual_side(expected, actual.drop_last());
    let tail = actual_member_difference(actual.last(), expected);
    if j == actual.len() - 1 {
        let k = choose|k: int| 0 <= k < tail.len() && tail[k] == d;
        assert((rest + tail)[rest.len() + k] == d);
    } else {
        assert(actual.drop_last()[j] == actual[j]);
        lemma_actual_side_holds(expected, actual.drop_last(), j, d);
        let k = choose|k: int| 0 <= k < rest.len() && rest[k] == d;
        assert((rest + tail)[k] == d);
    }
}

/// Each difference found along the actual members is what one of them
/// contributes.
proof fn lemma_actual_side_origin(expected: Members, actual: Members, d: DifferenceValue)
    requires
        actual_side(expected, actual).contains(d),
    ensures
        exists|j: int|
            0 <= j < actual.len() && actual_member_difference(
                #[trigger] actual[j],
                expected,
            ).contains(d),
    decreases actual.len(),
{
    if actual.len() > 0 {
        let rest = actual_side(expected, actual.drop_last());
        let tail = actual_member_difference(actual.last(), expected);
        let k = choose|k: int| 0 <= k < (rest + tail).len() && (rest + tail)[k] == d;
        if k < rest.len() {
            assert(rest[k] == d);
            lemma_actual_side_origin(expected, actual.drop_last(), d);
            let j = choose|j: int|
                0 <= j < actual.drop_last().len() && actual_member_difference(
                    #[trigger] actual.drop_last()[j],
                    expected,
                ).contains(d);
            assert(actual.drop_last()[j] == actual[j]);
        } else {
            assert(tail[k - rest.len()] == d);
            assert(actual[actual.len() - 1] == actual.last());
        }
    }
}

/// A difference of either side is a difference of the whole.
proof fn lemma_sides_in_differences(expected: Members, actual: Members, d: DifferenceValue)
    ensures
        differences(expected, actual).contains(d) <==> expected_side(expected, actual).contains(d)
            || actual_side(expected, actual).contains(d),
{
    let a = expected_side(expected, actual);
    let b = actual_side(expected, actual);
    if a.contains(d) {
        let k = choose|k: int| 0 <= k < a.len() && a[k] == d;
        assert((a + b)[k] == d);
    }
    if b.contains(d) {
        let k = choose|k: int| 0 <= k < b.len() && b[k] == d;
        assert((a + b)[a.len() + k] == d);
    }
    if (a + b).contains(d) {
        let k = choose|k: int| 0 <= k < (a + b).len() && (a + b)[k] == d;
        if k < a.len() {
            assert(a[k] == d);
        } else {
            assert(b[k - a.len()] == d);
        }
    }
}

/// An expected key that the actual object lacks is reported as missing, with
/// the value that was expected under it.
pub proof fn lemma_missing_key_reported(expected: Members, actual: Members, i: int)
    requires
        0 <= i < expected.len(),
        !has_key(actual, expected[i].0),
    ensures
        differences(expected, actual).contains(missing(expected[i])),
{
    let d = missing(expected[i]);
    assert(expected_member_difference(expected[i], actual)[0] == d);
    lemma_expected_side_holds(expected, actual, i, d);
    lemma_sides_in_differences(expected, actual, d);
}

/// An expected key under which the actual object holds a value that is not
/// equal to the expected one is reported with both values.
pub proof fn lemma_changed_value_reported(expected: Members, actual: Members, i: int)
    requires
        0 <= i < expected.len(),
        lookup(actual, expected[i].0) matches Some(found) && !json_equal(expected[i].1, found),
    ensures
        differences(expected, actual).contains(
            changed(expected[i], lookup(actual, expected[i].0)->0),
        ),
{
    let d = changed(expected[i], lookup(actual, expected[i].0)->0);
    assert(expected_member_difference(expected[i], actual)[0] == d);
    lemma_expected_side_holds(expected, actual, i, d);
    lemma_sides_in_differences(expected, actual, d);
}

/// A key of the actual object that the expected object lacks is reported as
/// not expected, with the value found under it.
pub proof fn lemma_unexpected_key_reported(expected: Members, actual: Members, j: int)
    requires
        0 <= j < actual.len(),
        !has_key(expected, actual[j].0),
    ensures
        differences(expected, actual).contains(unexpected(actual[j])),
{
    let d = unexpected(actual[j]);
    assert(actual_member_difference(actual[j], expected)[0] == d);
    lemma_actual_side_holds(expected, actual, j, d);
    lemma_sides_in_differences(expected, actual, d);
}

/// Nothing else is reported: each difference is a missing key, a changed
/// value or a key that was not expected.
pub proof fn lemma_every_difference_has_a_cause(
    expected: Members,
    actual: Members,
    d: DifferenceValue,
)
    requires
        differences(expected, actual).contains(d),
    ensures
        ({
            ||| exists|i: int|
                0 <= i < expected.len() && !has_key(actual, (#[trigger] expected[i]).0) && d
                    == missing(expected[i])
            ||| exists|i: int|
                0 <= i < expected.len() && has_key(actual, (#[trigger] expected[i]).0)
                    && !json_equal(expected[i].1, lookup(actual, expected[i].0)->0) && d
                    == changed(expected[i], lookup(actual, expected[i].0)->0)
            ||| exists|j: int|
                0 <= j < actual.len() && !has_key(expected, (#[trigger] actual[j]).0) && d
                    == unexpected(actual[j])
        }),
{
    lemma_sides_in_differences(expected, actual, d);
    if expected_side(expected, actual).contains(d) {
        lemma_expected_side_origin(expected, actual, d);
        let i = choose|i: int|
            0 <= i < expected.len() && expected_member_difference(
                #[trigger] expected[i],
                actual,
            ).contains(d);
        let part = expected_member_difference(expected[i], actual);
        let k = choose|k: int| 0 <= k < part.len() && part[k] == d;
        assert(part[k] == d);
        if has_key(actual, expected[i].0) {
            assert(d == changed(expected[i], lookup(actual, expected[i].0)->0));
        } else {
            assert(d == missing(expected[i]));
        }
    } else {
        lemma_actual_side_origin(expected, actual, d);
        let j = choose|j: int|
            0 <= j < actual.len() && actual_member_difference(
                #[trigger] actual[j],
                expected,
            ).contains(d);
        let part = actual_member_difference(actual[j], expected);
        let k = choose|k: int| 0 <= k < part.len() && part[k] == d;
        assert(part[k] == d);
        assert(d == unexpected(actual[j]));
    }
}

/// Two objects are equal exactly when comparing them key by key finds no
/// difference.
pub proof fn lemma_no_difference_iff_equal(expected: Members, actual: Members)
    ensures
        differences(expected, actual).len() == 0 <==> json_equal(
            JsonValue::Object(expected),
            JsonValue::Object(actual),
        ),
{
    let all = differences(expected, actual);
    if json_equal(JsonValue::Object(expected), JsonValue::Object(actual)) {
        if all.len() > 0 {
            let d = all[0];
            assert(all.contains(d));
            lemma_every_difference_has_a_cause(expected, actual, d);
            assert(same_keys(expected, actual));
            assert(false);
        }
    }
    if all.len() == 0 {
        assert forall|i: int| 0 <= i < expected.len() implies has_key(
            actual,
            (#[trigger] expected[i]).0,
        ) && json_equal(expected[i].1, actual[first_index(actual, expected[i].0)].1) by {
            if !has_key(actual, expected[i].0) {
                lemma_missing_key_reported(expected, actual, i);
                assert(all.contains(missing(expected[i])));
            } else if !json_equal(expected[i].1, lookup(actual, expected[i].0)->0) {
                lemma_changed_value_reported(expected, actual, i);
                assert(all.contains(changed(expected[i], lookup(actual, expected[i].0)->0)));
            }
        }
        assert forall|j: int| 0 <= j < actual.len() implies has_key(
            expected,
            (#[trigger] actual[j]).0,
        ) by {
            if !has_key(expected, actual[j].0) {
                lemma_unexpected_key_reported(expected, actual, j);
                assert(all.contains(unexpected(actual[j])));
            }
        }
        assert(same_keys(expected, actual));
    }
}

/// The differences of well-formed objects hold well-formed values.
pub proof fn lemma_differences_well_formed(expected: Members, actual: Members)
    requires
        JsonValue::Object(expected).wf(),
        JsonValue::Object(actual).wf(),
    ensures
        forall|d: DifferenceValue| #[trigger]
            differences(expected, actual).contains(d) ==> d.wf(),
{
    assert forall|d: DifferenceValue| #[trigger]
        differences(expected, actual).contains(d) implies d.wf() by {
        lemma_every_difference_has_a_cause(expected, actual, d);
        if exists|i: int|
            0 <= i < expected.len() && has_key(actual, (#[trigger] expected[i]).0) && !json_equal(
                expected[i].1,
                lookup(actual, expected[i].0)->0,
            ) && d == changed(expected[i], lookup(actual, expected[i].0)->0) {
            let i = choose|i: int|
                0 <= i < expected.len() && has_key(actual, (#[trigger] expected[i]).0)
                    && !json_equal(expected[i].1, lookup(actual, expected[i].0)->0) && d
                    == changed(expected[i], lookup(actual, expected[i].0)->0);
            lemma_first_index(actual, expected[i].0);
        }
    }
}

/// Two well-formed objects that are not equal differ under at least one key:
/// the report of a body mismatch between objects is never empty.
pub proof fn lemma_unequal_objects_differ(expected: Members, actual: Members)
    requires
        JsonValue::Object(expected).wf(),
        JsonValue::Object(actual).wf(),
        !json_equal(JsonValue::Object(actual), JsonValue::Object(expected)),
    ensures
        differences(expected, actual).len() > 0,
{
    lemma_no_difference_iff_equal(expected, actual);
    if differences(expected, actual).len() == 0 {
        lemma_equal_symmetric(JsonValue::Object(expected), JsonValue::Object(actual));
    }
}

} // verus!
