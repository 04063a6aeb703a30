//! A JSON value as the library sees it: what a child CLI printed, and the
//! values that Matter rules compare against.

use vstd::prelude::*;

use crate::lookup::{find_key, has_key, key_index, lemma_key_index};

verus! {

/// A JSON number as serde_json holds it: a non-negative integer, a negative
/// integer, or a float given by its IEEE-754 bit pattern.
#[derive(Debug, Clone, Copy, PartialEq, Eq, Structural)]
pub enum JsonNumber {
    PosInt(u64),
    NegInt(i64),
    Float(u64),
}

/// The bit patterns of +0.0 and -0.0, which compare equal as floats.
pub open spec fn is_zero_bits(b: u64) -> bool {
    b == 0 || b == 0x8000_0000_0000_0000
}

/// Equality of two JSON numbers: same kind and value; floats compare as floats
/// do (JSON has no NaN, so equal bit patterns, or both zero).
pub open spec fn spec_number_eq(a: JsonNumber, b: JsonNumber) -> bool {
    match (a, b) {
        (JsonNumber::PosInt(x), JsonNumber::PosInt(y)) => x == y,
        (JsonNumber::NegInt(x), JsonNumber::NegInt(y)) => x == y,
        (JsonNumber::Float(x), JsonNumber::Float(y)) => x == y || (is_zero_bits(x) && is_zero_bits(y)),
        _ => false,
    }
}

impl JsonNumber {
    /// The number as a `u64`, if it is a non-negative integer.
    pub fn as_u64(&self) -> (r: Option<u64>)
        ensures
            r == (match *self {
                JsonNumber::PosInt(n) => Some(n),
                _ => None,
            }),
    {
        match self {
            JsonNumber::PosInt(n) => Some(*n),
            _ => None,
        }
    }

    /// Whether two numbers are equal.
    pub fn equals(&self, other: &JsonNumber) -> (r: bool)
        ensures
            r == spec_number_eq(*self, *other),
    {
        match (self, other) {
            (JsonNumber::PosInt(x), JsonNumber::PosInt(y)) => *x == *y,
            (JsonNumber::NegInt(x), JsonNumber::NegInt(y)) => *x == *y,
            (JsonNumber::Float(x), JsonNumber::Float(y)) => {
                *x == *y || ((*x == 0 || *x == 0x8000_0000_0000_0000) && (*y == 0 || *y
                    == 0x8000_0000_0000_0000))
            },
            _ => false,
        }
    }
}

/// A JSON value. An object is a list of members; it stands for the map from
/// each key to the value of the first member with that key, which is what
/// serde_json's map holds (objects come from such maps with each key once, and
/// go back into them).
#[derive(Debug)]
pub enum JsonValue {
    Null,
    Bool(bool),
    Number(JsonNumber),
    String(String),
    Array(Vec<JsonValue>),
    Object(Vec<(String, JsonValue)>),
}

/// Every key of `ys` is a key of `xs`.
pub open spec fn keys_within(ys: Seq<(String, JsonValue)>, xs: Seq<(String, JsonValue)>) -> bool {
    forall|j: int| 0 <= j < ys.len() ==> #[trigger] has_key(xs, ys[j].0@)
}

/// Equality of JSON values, as serde_json's `==` decides: numbers compared with
/// `spec_number_eq`, arrays element by element, and objects as maps: the same
/// keys, and under each key equal values, whatever order the members come in.
pub open spec fn spec_json_eq(a: JsonValue, b: JsonValue) -> bool
    decreases a,
{
    match (a, b) {
        (JsonValue::Null, JsonValue::Null) => true,
        (JsonValue::Bool(x), JsonValue::Bool(y)) => x == y,
        (JsonValue::Number(x), JsonValue::Number(y)) => spec_number_eq(x, y),
        (JsonValue::String(x), JsonValue::String(y)) => x@ == y@,
        (JsonValue::Array(xs), JsonValue::Array(ys)) => {
            &&& xs@.len() == ys@.len()
            &&& forall|i: int| 0 <= i < xs@.len() ==> spec_json_eq(#[trigger] xs@[i], ys@[i])
        },
        (JsonValue::Object(xs), JsonValue::Object(ys)) => {
            &&& keys_within(ys@, xs@)
            &&& forall|i: int|
                #![trigger xs@[i]]
                0 <= i < xs@.len() && key_index(xs@, xs@[i].0@) == i ==> has_key(ys@, xs@[i].0@) && spec_json_eq(
                    xs@[i].1,
                    ys@[key_index(ys@, xs@[i].0@)].1,
                )
        },
        _ => false,
    }
}


/// Whether two JSON values are equal, as serde_json's `==` decides.
pub fn json_eq(a: &JsonValue, b: &JsonValue) -> (r: bool)
    ensures
        r == spec_json_eq(*a, *b),
    decreases a,
{
    match (a, b) {
        (JsonValue::Null, JsonValue::Null) => true,
        (JsonValue::Bool(x), JsonValue::Bool(y)) => *x == *y,
        (JsonValue::Number(x), JsonValue::Number(y)) => x.equals(y),
        (JsonValue::String(x), JsonValue::String(y)) => *x == *y,
        (JsonValue::Array(xs), JsonValue::Array(ys)) => {
            if xs.len() != ys.len() {
                return false;
            }
            let mut i: usize = 0;
            while i < xs.len()
                invariant
                    *a == JsonValue::Array(*xs),
                    *b == JsonValue::Array(*ys),
                    xs.len() == ys.len(),
                    i <= xs.len(),
                    forall|j: int| 0 <= j < i ==> spec_json_eq(#[trigger] xs@[j], ys@[j]),
                decreases xs.len() - i,
            {
                proof {
                    assert(decreases_to!(*a => (*a)->Array_0));
                    assert(decreases_to!(*xs => xs@));
                    assert(decreases_to!(xs@ => xs@[i as int]));
                }
                if !json_eq(&xs[i], &ys[i]) {
                    return false;
                }
                i = i + 1;
            }
            true
        },
        (JsonValue::Object(xs), JsonValue::Object(ys)) => {
            let mut j: usize = 0;
            while j < ys.len()
                invariant
                    *a == JsonValue::Object(*xs),
                    *b == JsonValue::Object(*ys),
                    j <= ys.len(),
                    forall|k: int| 0 <= k < j ==> #[trigger] has_key(xs@, ys@[k].0@),
                decreases ys.len() - j,
            {
                if find_key(xs, ys[j].0.as_str()).is_none() {
                    assert(!has_key(xs@, ys@[j as int].0@));
                    return false;
                }
                j = j + 1;
            }
            let mut i: usize = 0;
            while i < xs.len()
                invariant
                    *a == JsonValue::Object(*xs),
                    *b == JsonValue::Object(*ys),
                    i <= xs.len(),
                    keys_within(ys@, xs@),
                    forall|k: int|
                        #![trigger xs@[k]]
                        0 <= k < i && key_index(xs@, xs@[k].0@) == k ==> has_key(ys@, xs@[k].0@) && spec_json_eq(
                            xs@[k].1,
                            ys@[key_index(ys@, xs@[k].0@)].1,
                        ),
                decreases xs.len() - i,
            {
                let first = match find_key(xs, xs[i].0.as_str()) {
                    Some(f) => f == i,
                    None => false,
                };
                if first {
                    match find_key(ys, xs[i].0.as_str()) {
                        None => {
                            assert(key_index(xs@, xs@[i as int].0@) == i);
                            assert(!has_key(ys@, xs@[i as int].0@));
                            return false;
                        },
                        Some(m) => {
                            proof {
                                assert(decreases_to!(*a => (*a)->Object_0));
                                assert(decreases_to!(*xs => xs@));
                                assert(decreases_to!(xs@ => xs@[i as int]));
                                assert(decreases_to!(xs@[i as int] => xs@[i as int].1));
                            }
                            if !json_eq(&xs[i].1, &ys[m].1) {
                                return false;
                            }
                        },
                    }
                }
                i = i + 1;
            }
            true
        },
        _ => false,
    }
}


/// Law: every JSON value equals itself, so a Matter rule's `equals` matches a
/// reported value that is the same JSON.
pub proof fn law_json_eq_reflexive(a: JsonValue)
    ensures
        spec_json_eq(a, a),
    decreases a,
{
    match a {
        JsonValue::Array(xs) => {
            assert forall|i: int| 0 <= i < xs@.len() implies spec_json_eq(#[trigger] xs@[i], xs@[i]) by {
                assert(decreases_to!(a => xs));
                assert(decreases_to!(xs => xs@));
                assert(decreases_to!(xs@ => xs@[i]));
                law_json_eq_reflexive(xs@[i]);
            }
        },
        JsonValue::Object(xs) => {
            assert forall|i: int| #![trigger xs@[i]] 0 <= i < xs@.len() && key_index(xs@, xs@[i].0@) == i implies has_key(
                xs@,
                xs@[i].0@,
            ) && spec_json_eq(xs@[i].1, xs@[key_index(xs@, xs@[i].0@)].1) by {
                assert(decreases_to!(a => xs));
                assert(decreases_to!(xs => xs@));
                assert(decreases_to!(xs@ => xs@[i]));
                assert(decreases_to!(xs@[i] => xs@[i].1));
                law_json_eq_reflexive(xs@[i].1);
            }
            assert forall|j: int| 0 <= j < xs@.len() implies #[trigger] has_key(xs@, xs@[j].0@) by {
                lemma_key_index(xs@, xs@[j].0@);
            }
        },
        _ => {},
    }
}

} // verus!
