//! JSON values, their mathematical model, and structural equality.

use vstd::prelude::*;

verus! {

/// A JSON number: an integer, or a double given by its IEEE 754 bit pattern.
///
/// Holding the bits rather than the double keeps every number a plain integer,
/// so that equality of numbers is a statement about integers.
#[derive(Clone, Copy, Debug)]
pub enum Number {
    /// An integer without fraction or exponent.
    Int(i128),
    /// The 64 bits of a double, sign bit first.
    Float(u64),
}

/// A JSON value as it is held at run time.
///
/// The members of an object are kept in a vector, in the order in which they
/// were given.
#[derive(Debug)]
pub enum Json {
    Null,
    Bool(bool),
    Number(Number),
    String(String),
    Array(Vec<Json>),
    Object(Vec<(String, Json)>),
}

/// The mathematical value that a [`Json`] stands for: strings are sequences of
/// characters, arrays and member lists are sequences.
pub enum JsonValue {
    Null,
    Bool(bool),
    Number(Number),
    String(Seq<char>),
    Array(Seq<JsonValue>),
    Object(Seq<(Seq<char>, JsonValue)>),
}

/// The members of an object in the model: pairs of a key and a value.
pub type Members = Seq<(Seq<char>, JsonValue)>;

/// The largest bit pattern of a double whose exponent is still finite, once the
/// sign bit has been cleared.
pub const LARGEST_FINITE: u64 = 0x7fef_ffff_ffff_ffff;

/// The sign bit of a double.
pub const SIGN_BIT: u64 = 0x8000_0000_0000_0000;

/// Whether the bits are those of a finite double (neither infinite nor NaN).
pub open spec fn is_finite_bits(bits: u64) -> bool {
    if bits >= SIGN_BIT {
        bits - SIGN_BIT <= LARGEST_FINITE
    } else {
        bits <= LARGEST_FINITE
    }
}

/// Whether the bits are those of positive or negative zero.
pub open spec fn is_zero_bits(bits: u64) -> bool {
    bits == 0 || bits == SIGN_BIT
}

/// Equality of numbers: integers by value, doubles by value (the two zeros are
/// equal), and an integer never equals a double.
pub open spec fn number_equal(a: Number, b: Number) -> bool {
    match (a, b) {
        (Number::Int(x), Number::Int(y)) => x == y,
        (Number::Float(x), Number::Float(y)) => x == y || (is_zero_bits(x) && is_zero_bits(y)),
        _ => false,
    }
}

impl Number {
    /// An integer lies between `i64::MIN` and `u64::MAX`; a double is finite.
    pub open spec fn wf(self) -> bool {
        match self {
            Number::Int(i) => i64::MIN <= i <= u64::MAX,
            Number::Float(bits) => is_finite_bits(bits),
        }
    }

    /// Decides [`number_equal`].
    pub fn equals(&self, other: &Number) -> (r: bool)
        ensures
            r == number_equal(*self, *other),
    {
        match (self, other) {
            (Number::Int(x), Number::Int(y)) => *x == *y,
            (Number::Float(x), Number::Float(y)) => {
                *x == *y || ((*x == 0 || *x == SIGN_BIT) && (*y == 0 || *y == SIGN_BIT))
            },
            _ => false,
        }
    }

    /// Decides [`Number::wf`].
    pub fn is_well_formed(&self) -> (r: bool)
        ensures
            r == self.wf(),
    {
        match self {
            Number::Int(i) => i64::MIN as i128 <= *i && *i <= u64::MAX as i128,
            Number::Float(bits) => {
                if *bits >= SIGN_BIT {
                    *bits - SIGN_BIT <= LARGEST_FINITE
                } else {
                    *bits <= LARGEST_FINITE
                }
            },
        }
    }
}

/// The mathematical value that a run-time value stands for.
pub open spec fn value_of(json: Json) -> JsonValue
    decreases json,
{
    match json {
        Json::Null => JsonValue::Null,
        Json::Bool(b) => JsonValue::Bool(b),
        Json::Number(n) => JsonValue::Number(n),
        Json::String(s) => JsonValue::String(s@),
        Json::Array(items) => JsonValue::Array(
            Seq::new(
                items@.len(),
                |i: int|
                    if 0 <= i < items@.len() {
                        value_of(items@[i])
                    } else {
                        JsonValue::Null
                    },
            ),
        ),
        Json::Object(members) => JsonValue::Object(
            Seq::new(
                members@.len(),
                |i: int|
                    if 0 <= i < members@.len() {
                        (members@[i].0@, value_of(members@[i].1))
                    } else {
                        (Seq::empty(), JsonValue::Null)
                    },
            ),
        ),
    }
}

impl View for Json {
    type V = JsonValue;

    open spec fn view(&self) -> JsonValue {
        value_of(*self)
    }
}

/// The model of a list of values.
pub open spec fn items_view(items: Seq<Json>) -> Seq<JsonValue> {
    Seq::new(items.len(), |i: int| items[i]@)
}

/// The model of a list of members.
pub open spec fn members_view(members: Seq<(String, Json)>) -> Members {
    Seq::new(members.len(), |i: int| (members[i].0@, members[i].1@))
}

/// The model of an array is the list of the models of its items.
pub proof fn lemma_array_view(items: Vec<Json>)
    ensures
        Json::Array(items)@ == JsonValue::Array(items_view(items@)),
{
    assert(Json::Array(items)@->Array_0 =~= items_view(items@));
}

/// The model of an object is the list of the models of its members.
pub proof fn lemma_object_view(members: Vec<(String, Json)>)
    ensures
        Json::Object(members)@ == JsonValue::Object(members_view(members@)),
{
    assert(Json::Object(members)@->Object_0 =~= members_view(members@));
}

/// Whether some member has the key.
pub open spec fn has_key(members: Members, key: Seq<char>) -> bool {
    exists|i: int| 0 <= i < members.len() && (#[trigger] members[i]).0 == key
}

/// Whether `i` is the place of the first member with the key.
pub open spec fn is_first_index(members: Members, key: Seq<char>, i: int) -> bool {
    &&& 0 <= i < members.len()
    &&& members[i].0 == key
    &&& forall|j: int| 0 <= j < i ==> (#[trigger] members[j]).0 != key
}

/// The place of the first member with the key, where there is one.
pub open spec fn first_index(members: Members, key: Seq<char>) -> int {
    choose|i: int| is_first_index(members, key, i)
}

/// The value under the key: that of the first member with the key.
pub open spec fn lookup(members: Members, key: Seq<char>) -> Option<JsonValue> {
    if has_key(members, key) {
        Some(members[first_index(members, key)].1)
    } else {
        None
    }
}

/// No two members have the same key.
pub open spec fn distinct_keys(members: Members) -> bool {
    forall|i: int, j: int|
        0 <= i < j < members.len() ==> (#[trigger] members[i]).0 != (#[trigger] members[j]).0
}

/// Each key of the one list is a key of the other.
pub open spec fn same_keys(x: Members, y: Members) -> bool {
    &&& forall|i: int| 0 <= i < x.len() ==> has_key(y, (#[trigger] x[i]).0)
    &&& forall|j: int| 0 <= j < y.len() ==> has_key(x, (#[trigger] y[j]).0)
}

/// Deep structural equality of JSON values.
///
/// Values of different kinds are never equal. Arrays are equal when they have
/// the same length and equal items at each place. Objects are equal when each
/// key of the one is a key of the other and the values under it are equal; the
/// order of members plays no part.
pub open spec fn json_equal(a: JsonValue, b: JsonValue) -> bool
    decreases a,
{
    match (a, b) {
        (JsonValue::Null, JsonValue::Null) => true,
        (JsonValue::Bool(x), JsonValue::Bool(y)) => x == y,
        (JsonValue::Number(x), JsonValue::Number(y)) => number_equal(x, y),
        (JsonValue::String(x), JsonValue::String(y)) => x == y,
        (JsonValue::Array(x), JsonValue::Array(y)) => {
            &&& x.len() == y.len()
            &&& forall|i: int| 0 <= i < x.len() ==> json_equal(#[trigger] x[i], y[i])
        },
        (JsonValue::Object(x), JsonValue::Object(y)) => {
            &&& same_keys(x, y)
            &&& forall|i: int|
                0 <= i < x.len() ==> json_equal(
                    (#[trigger] x[i]).1,
                    y[first_index(y, x[i].0)].1,
                )
        },
        _ => false,
    }
}

impl JsonValue {
    /// A value is well formed when every number in it is, and no object in it
    /// has two members with the same key.
    pub open spec fn wf(self) -> bool
        decreases self,
    {
        match self {
            JsonValue::Number(n) => n.wf(),
            JsonValue::Array(items) => forall|i: int|
                0 <= i < items.len() ==> (#[trigger] items[i]).wf(),
            JsonValue::Object(members) => {
                &&& distinct_keys(members)
                &&& forall|i: int| 0 <= i < members.len() ==> (#[trigger] members[i]).1.wf()
            },
            _ => true,
        }
    }
}

/// An array is well formed exactly when each of its items is.
pub proof fn lemma_array_wf(items: Seq<JsonValue>)
    ensures
        JsonValue::Array(items).wf() <==> forall|i: int|
            0 <= i < items.len() ==> (#[trigger] items[i]).wf(),
{
    assert(JsonValue::Array(items)->Array_0 == items);
}

/// Finds the first member with the key.
pub fn find_member(members: &Vec<(String, Json)>, key: &String) -> (r: Option<usize>)
    ensures
        r is Some <==> has_key(members_view(members@), key@),
        r matches Some(i) ==> is_first_index(members_view(members@), key@, i as int),
{
    let ghost model = members_view(members@);
    let mut i: usize = 0;
    while i < members.len()
        invariant
            i <= members.len(),
            model == members_view(members@),
            forall|j: int| 0 <= j < i ==> (#[trigger] model[j]).0 != key@,
        decreases members.len() - i,
    {
        if members[i].0 == *key {
            assert(model[i as int].0 == key@);
            return Some(i);
        }
        i += 1;
    }
    None
}

impl Json {
    /// The model is well formed: see [`JsonValue::wf`].
    pub open spec fn wf(&self) -> bool {
        self@.wf()
    }

    /// Decides [`json_equal`] on the models of two values.
    #[verifier::loop_isolation(false)]
    pub fn equals(&self, other: &Json) -> (r: bool)
        ensures
            r == json_equal(self@, other@),
        decreases self,
    {
        match (self, other) {
            (Json::Null, Json::Null) => true,
            (Json::Bool(x), Json::Bool(y)) => *x == *y,
            (Json::Number(x), Json::Number(y)) => x.equals(y),
            (Json::String(x), Json::String(y)) => *x == *y,
            (Json::Array(x), Json::Array(y)) => {
                let ghost xs = items_view(x@);
                let ghost ys = items_view(y@);
                proof {
                    lemma_array_view(*x);
                    lemma_array_view(*y);
                }
                if x.len() != y.len() {
                    return false;
                }
                let mut i: usize = 0;
                while i < x.len()
                    invariant
                        i <= x.len(),
                        forall|k: int| 0 <= k < i ==> json_equal(#[trigger] xs[k], ys[k]),
                    decreases x.len() - i,
                {
                    if !x[i].equals(&y[i]) {
                        assert(!json_equal(xs[i as int], ys[i as int]));
                        return false;
                    }
                    i += 1;
                }
                true
            },
            (Json::Object(x), Json::Object(y)) => {
                let ghost xs = members_view(x@);
                let ghost ys = members_view(y@);
                proof {
                    lemma_object_view(*x);
                    lemma_object_view(*y);
                }
                let mut i: usize = 0;
                while i < x.len()
                    invariant
                        i <= x.len(),
                        forall|k: int|
                            0 <= k < i ==> has_key(ys, (#[trigger] xs[k]).0) && json_equal(
                                xs[k].1,
                                ys[first_index(ys, xs[k].0)].1,
                            ),
                    decreases x.len() - i,
                {
                    match find_member(y, &x[i].0) {
                        None => {
                            assert(!has_key(ys, xs[i as int].0));
                            return false;
                        },
                        Some(j) => {
                            proof {
                                lemma_first_index(ys, xs[i as int].0);
                            }
                            if !x[i].1.equals(&y[j].1) {
                                assert(!json_equal(
                                    xs[i as int].1,
                                    ys[first_index(ys, xs[i as int].0)].1,
                                ));
                                return false;
                            }
                        },
                    }
                    i += 1;
                }
                let mut j: usize = 0;
                while j < y.len()
                    invariant
                        j <= y.len(),
                        forall|k: int| 0 <= k < j ==> has_key(xs, (#[trigger] ys[k]).0),
                    decreases y.len() - j,
                {
                    if find_member(x, &y[j].0).is_none() {
                        assert(!has_key(xs, ys[j as int].0));
                        return false;
                    }
                    j += 1;
                }
                true
            },
            _ => false,
        }
    }

    /// Decides whether the value is well formed.
    #[verifier::loop_isolation(false)]
    pub fn is_well_formed(&self) -> (r: bool)
        ensures
            r == self.wf(),
        decreases self,
    {
        match self {
            Json::Number(n) => n.is_well_formed(),
            Json::Array(items) => {
                let ghost model = items_view(items@);
                proof {
                    lemma_array_view(*items);
                    lemma_array_wf(model);
                }
                let mut i: usize = 0;
                while i < items.len()
                    invariant
                        i <= items.len(),
                        forall|k: int| 0 <= k < i ==> (#[trigger] model[k]).wf(),
                    decreases items.len() - i,
                {
                    if !items[i].is_well_formed() {
                        assert(!model[i as int].wf());
                        return false;
                    }
                    i += 1;
                }
                true
            },
            Json::Object(members) => {
                let ghost model = members_view(members@);
                proof {
                    lemma_object_view(*members);
                }
                let mut i: usize = 0;
                while i < members.len()
                    invariant
                        i <= members.len(),
                        forall|k: int| 0 <= k < i ==> (#[trigger] model[k]).1.wf(),
                        forall|k: int| 0 <= k < i ==> is_first_index(model, (#[trigger] model[k]).0, k),
                    decreases members.len() - i,
                {
                    if !members[i].1.is_well_formed() {
                        assert(!model[i as int].1.wf());
                        return false;
                    }
                    match find_member(members, &members[i].0) {
                        Some(first) => {
                            if first != i {
                                assert(model[first as int].0 == model[i as int].0);
                                return false;
                            }
                        },
                        None => {
                            assert(model[i as int].0 == members[i as int].0@);
                            return false;
                        },
                    }
                    i += 1;
                }
                assert forall|a: int, b: int| 0 <= a < b < model.len() implies (#[trigger] model[a]).0
                    != (#[trigger] model[b]).0 by {
                    assert(is_first_index(model, model[b].0, b));
                }
                true
            },
            _ => true,
        }
    }
}

impl Clone for Json {
    /// A copy that stands for the same value.
    #[verifier::loop_isolation(false)]
    fn clone(&self) -> (r: Json)
        ensures
            r@ == self@,
        decreases self,
    {
        match self {
            Json::Null => Json::Null,
            Json::Bool(b) => Json::Bool(*b),
            Json::Number(n) => Json::Number(*n),
            Json::String(s) => Json::String(s.clone()),
            Json::Array(items) => {
                let mut copy: Vec<Json> = Vec::new();
                let mut i: usize = 0;
                while i < items.len()
                    invariant
                        i <= items.len(),
                        copy.len() == i,
                        forall|k: int| 0 <= k < i ==> (#[trigger] copy[k])@ == items[k]@,
                    decreases items.len() - i,
                {
                    copy.push(items[i].clone());
                    i += 1;
                }
                proof {
                    lemma_array_view(*items);
                    lemma_array_view(copy);
                    assert(items_view(copy@) =~= items_view(items@));
                }
                Json::Array(copy)
            },
            Json::Object(members) => {
                let mut copy: Vec<(String, Json)> = Vec::new();
                let mut i: usize = 0;
                while i < members.len()
                    invariant
                        i <= members.len(),
                        copy.len() == i,
                        forall|k: int|
                            0 <= k < i ==> (#[trigger] copy[k]).0@ == members[k].0@ && copy[k].1@
                                == members[k].1@,
                    decreases members.len() - i,
                {
                    copy.push((members[i].0.clone(), members[i].1.clone()));
                    i += 1;
                }
                proof {
                    lemma_object_view(*members);
                    lemma_object_view(copy);
                    assert(members_view(copy@) =~= members_view(members@));
                }
                Json::Object(copy)
            },
        }
    }
}

impl PartialEq for Json {
    /// `==` on values is structural equality of what they stand for.
    fn eq(&self, other: &Json) -> (r: bool) {
        self.equals(other)
    }
}

impl vstd::std_specs::cmp::PartialEqSpecImpl for Json {
    open spec fn obeys_eq_spec() -> bool {
        true
    }

    open spec fn eq_spec(&self, other: &Json) -> bool {
        json_equal(self@, other@)
    }
}

/// The first member with the key has a place, and only one.
pub proof fn lemma_first_index(members: Members, key: Seq<char>)
    requires
        has_key(members, key),
    ensures
        is_first_index(members, key, first_index(members, key)),
        forall|i: int| is_first_index(members, key, i) ==> i == first_index(members, key),
{
    let k = choose|i: int| 0 <= i < members.len() && (#[trigger] members[i]).0 == key;
    lemma_first_index_below(members, key, k);
    let f = first_index(members, key);
    assert forall|i: int| is_first_index(members, key, i) implies i == f by {
        if i < f {
            assert(members[i].0 == key);
        } else if f < i {
            assert(members[f].0 == key);
        }
    }
}

/// Where no two members share a key, a member's place is the first place of its key.
pub proof fn lemma_distinct_first_index(members: Members, i: int)
    requires
        distinct_keys(members),
        0 <= i < members.len(),
    ensures
        has_key(members, members[i].0),
        first_index(members, members[i].0) == i,
{
    lemma_first_index(members, members[i].0);
    let f = first_index(members, members[i].0);
    if f < i {
        assert(members[f].0 != members[i].0);
    }
}

/// Below or at a place that holds the key there is a first such place.
proof fn lemma_first_index_below(members: Members, key: Seq<char>, k: int)
    requires
        0 <= k < members.len(),
        members[k].0 == key,
    ensures
        exists|i: int| is_first_index(members, key, i),
    decreases k,
{
    if exists|j: int| 0 <= j < k && (#[trigger] members[j]).0 == key {
        let j = choose|j: int| 0 <= j < k && (#[trigger] members[j]).0 == key;
        lemma_first_index_below(members, key, j);
    } else {
        assert(is_first_index(members, key, k));
    }
}

} // verus!
