//! What holds of structural equality: it is an equivalence on well-formed
//! values, it does not see the order of an object's members, and it does see
//! the order of an array's items.

use crate::json::{
    distinct_keys,
    first_index,
    has_key,
    json_equal,
    lemma_array_wf,
    lemma_distinct_first_index,
    lemma_first_index,
    lookup,
    same_keys,
    JsonValue,
    Members,
};
use vstd::prelude::*;

verus! {

/// Every well-formed value equals itself.
pub proof fn lemma_equal_reflexive(a: JsonValue)
    requires
        a.wf(),
    ensures
        json_equal(a, a),
    decreases a,
{
    match a {
        JsonValue::Array(x) => {
            lemma_array_wf(x);
            assert forall|i: int| 0 <= i < x.len() implies json_equal(#[trigger] x[i], x[i]) by {
                lemma_equal_reflexive(x[i]);
            }
        },
        JsonValue::Object(x) => {
            assert forall|i: int| 0 <= i < x.len() implies has_key(x, (#[trigger] x[i]).0)
                && json_equal(x[i].1, x[first_index(x, x[i].0)].1) by {
                lemma_distinct_first_index(x, i);
                lemma_equal_reflexive(x[i].1);
            }
        },
        _ => {},
    }
}

/// Equality of well-formed values does not depend on the side a value stands on.
pub proof fn lemma_equal_symmetric(a: JsonValue, b: JsonValue)
    requires
        a.wf(),
        b.wf(),
        json_equal(a, b),
    ensures
        json_equal(b, a),
    decreases a,
{
    match (a, b) {
        (JsonValue::Array(x), JsonValue::Array(y)) => {
            lemma_array_wf(x);
            lemma_array_wf(y);
            assert forall|i: int| 0 <= i < y.len() implies json_equal(#[trigger] y[i], x[i]) by {
                lemma_equal_symmetric(x[i], y[i]);
            }
        },
        (JsonValue::Object(x), JsonValue::Object(y)) => {
            assert forall|j: int| 0 <= j < y.len() implies json_equal(
                (#[trigger] y[j]).1,
                x[first_index(x, y[j].0)].1,
            ) by {
                let key = y[j].0;
                lemma_first_index(x, key);
                let i = first_index(x, key);
                lemma_distinct_first_index(y, j);
                assert(json_equal(x[i].1, y[first_index(y, x[i].0)].1));
                lemma_equal_symmetric(x[i].1, y[j].1);
            }
        },
        _ => {},
    }
}

/// Well-formed values that equal a common value equal each other.
pub proof fn lemma_equal_transitive(a: JsonValue, b: JsonValue, c: JsonValue)
    requires
        a.wf(),
        b.wf(),
        c.wf(),
        json_equal(a, b),
        json_equal(b, c),
    ensures
        json_equal(a, c),
    decreases a,
{
    match (a, b, c) {
        (JsonValue::Array(x), JsonValue::Array(y), JsonValue::Array(z)) => {
            lemma_array_wf(x);
            lemma_array_wf(y);
            lemma_array_wf(z);
            assert forall|i: int| 0 <= i < x.len() implies json_equal(#[trigger] x[i], z[i]) by {
                lemma_equal_transitive(x[i], y[i], z[i]);
            }
        },
        (JsonValue::Object(x), JsonValue::Object(y), JsonValue::Object(z)) => {
            assert forall|i: int| 0 <= i < x.len() implies has_key(z, (#[trigger] x[i]).0)
                && json_equal(x[i].1, z[first_index(z, x[i].0)].1) by {
                let key = x[i].0;
                lemma_first_index(y, key);
                let j = first_index(y, key);
                assert(has_key(z, y[j].0));
                lemma_first_index(z, key);
                let k = first_index(z, key);
                assert(json_equal(y[j].1, z[first_index(z, y[j].0)].1));
                lemma_equal_transitive(x[i].1, y[j].1, z[k].1);
            }
            assert forall|k: int| 0 <= k < z.len() implies has_key(x, (#[trigger] z[k]).0) by {
                let key = z[k].0;
                lemma_first_index(y, key);
                let j = first_index(y, key);
                assert(has_key(x, y[j].0));
            }
        },
        _ => {},
    }
}

/// Two objects are equal exactly when they have the same keys and hold equal
/// values under each key. Where the members stand plays no part.
pub proof fn lemma_objects_equal_by_key(x: Members, y: Members)
    requires
        distinct_keys(x),
    ensures
        json_equal(JsonValue::Object(x), JsonValue::Object(y)) <==> {
            &&& forall|key: Seq<char>| has_key(x, key) <==> has_key(y, key)
            &&& forall|key: Seq<char>| #[trigger]
                has_key(x, key) ==> json_equal(lookup(x, key)->0, lookup(y, key)->0)
        },
{
    let by_key = {
        &&& forall|key: Seq<char>| has_key(x, key) <==> has_key(y, key)
        &&& forall|key: Seq<char>| #[trigger]
            has_key(x, key) ==> json_equal(lookup(x, key)->0, lookup(y, key)->0)
    };
    if json_equal(JsonValue::Object(x), JsonValue::Object(y)) {
        assert forall|key: Seq<char>| #[trigger] has_key(x, key) implies has_key(y, key)
            && json_equal(lookup(x, key)->0, lookup(y, key)->0) by {
            lemma_first_index(x, key);
            let i = first_index(x, key);
            assert(has_key(y, x[i].0));
            assert(json_equal(x[i].1, y[first_index(y, x[i].0)].1));
        }
        assert forall|key: Seq<char>| #[trigger] has_key(y, key) implies has_key(x, key) by {
            lemma_first_index(y, key);
            let j = first_index(y, key);
            assert(has_key(x, y[j].0));
        }
        assert(by_key);
    }
    if by_key {
        assert forall|i: int| 0 <= i < x.len() implies has_key(y, (#[trigger] x[i]).0)
            && json_equal(x[i].1, y[first_index(y, x[i].0)].1) by {
            lemma_distinct_first_index(x, i);
            assert(has_key(x, x[i].0));
        }
        assert forall|j: int| 0 <= j < y.len() implies has_key(x, (#[trigger] y[j]).0) by {
            assert(has_key(y, y[j].0));
        }
        assert(same_keys(x, y));
    }
}

/// Two well-formed objects that hold the same members are equal, in whatever
/// order each of them holds the members.
pub proof fn lemma_member_order_irrelevant(x: Members, y: Members)
    requires
        JsonValue::Object(x).wf(),
        forall|i: int| 0 <= i < x.len() ==> y.contains(#[trigger] x[i]),
        forall|j: int| 0 <= j < y.len() ==> x.contains(#[trigger] y[j]),
    ensures
        json_equal(JsonValue::Object(x), JsonValue::Object(y)),
{
    assert forall|i: int| 0 <= i < x.len() implies has_key(y, (#[trigger] x[i]).0) && json_equal(
        x[i].1,
        y[first_index(y, x[i].0)].1,
    ) by {
        let key = x[i].0;
        let j = choose|j: int| 0 <= j < y.len() && y[j] == x[i];
        assert(y[j].0 == key);
        lemma_first_index(y, key);
        let f = first_index(y, key);
        let back = choose|k: int| 0 <= k < x.len() && x[k] == y[f];
        lemma_distinct_first_index(x, i);
        lemma_distinct_first_index(x, back);
        assert(back == i);
        lemma_equal_reflexive(x[i].1);
    }
    assert forall|j: int| 0 <= j < y.len() implies has_key(x, (#[trigger] y[j]).0) by {
        let i = choose|i: int| 0 <= i < x.len() && x[i] == y[j];
        assert(x[i].0 == y[j].0);
    }
}

/// Exchanging two items of an array that are not equal gives an array that is
/// not equal to the first: the order of items is part of an array's value.
pub proof fn lemma_item_order_matters(x: Seq<JsonValue>, i: int, j: int)
    requires
        0 <= i < x.len(),
        0 <= j < x.len(),
        !json_equal(x[i], x[j]),
    ensures
        !json_equal(JsonValue::Array(x), JsonValue::Array(x.update(i, x[j]).update(j, x[i]))),
{
    let y = x.update(i, x[j]).update(j, x[i]);
    assert(y[i] == x[j]);
}

} // verus!
