//! Keyed lists: the first entry with a given name, and the first element that
//! satisfies a predicate.

use vstd::prelude::*;

use crate::text::{lemma_lex_irreflexive, lemma_lex_trans, lex_lt, str_eq, str_lt};

verus! {

/// The index of the first entry whose name is `key`, or -1.
pub open spec fn key_index<V>(e: Seq<(String, V)>, key: Seq<char>) -> int
    decreases e.len(),
{
    if e.len() == 0 {
        -1
    } else if e[0].0@ == key {
        0
    } else {
        let k = key_index(e.drop_first(), key);
        if k < 0 { -1 } else { k + 1 }
    }
}

/// The value of the first entry named `key`.
pub open spec fn lookup<V>(e: Seq<(String, V)>, key: Seq<char>) -> Option<V> {
    let k = key_index(e, key);
    if k < 0 { None } else { Some(e[k].1) }
}

/// Whether some entry is named `key`.
pub open spec fn has_key<V>(e: Seq<(String, V)>, key: Seq<char>) -> bool {
    key_index(e, key) >= 0
}

/// `key_index` is -1 exactly when no entry has the name, and otherwise points
/// at the first entry that has it.
pub proof fn lemma_key_index<V>(e: Seq<(String, V)>, key: Seq<char>)
    ensures
        -1 <= key_index(e, key) < e.len(),
        key_index(e, key) == -1 <==> forall|i: int| 0 <= i < e.len() ==> e[i].0@ != key,
        key_index(e, key) >= 0 ==> e[key_index(e, key)].0@ == key,
        forall|i: int| 0 <= i < key_index(e, key) ==> e[i].0@ != key,
    decreases e.len(),
{
    if e.len() > 0 && e[0].0@ != key {
        lemma_key_index(e.drop_first(), key);
        assert forall|i: int| 0 <= i < e.len() && key_index(e, key) == -1 implies e[i].0@ != key by {
            if i > 0 {
                assert(e[i] == e.drop_first()[i - 1]);
            }
        }
        assert forall|i: int| 0 <= i < key_index(e, key) implies e[i].0@ != key by {
            if i > 0 {
                assert(e[i] == e.drop_first()[i - 1]);
            }
        }
        if key_index(e, key) >= 0 {
            assert(e[key_index(e, key)] == e.drop_first()[key_index(e, key) - 1]);
        } else {
            assert(forall|i: int| 0 <= i < e.drop_first().len() ==> e.drop_first()[i].0@ != key);
            assert forall|i: int| 0 <= i < e.len() implies e[i].0@ != key by {
                if i > 0 {
                    assert(e[i] == e.drop_first()[i - 1]);
                }
            }
        }
    }
}

/// An entry named `key` with no earlier one is the first.
pub proof fn lemma_key_index_at<V>(e: Seq<(String, V)>, key: Seq<char>, k: int)
    requires
        0 <= k < e.len(),
        e[k].0@ == key,
        forall|i: int| 0 <= i < k ==> e[i].0@ != key,
    ensures
        key_index(e, key) == k,
    decreases e.len(),
{
    if k > 0 {
        assert forall|i: int| 0 <= i < k - 1 implies e.drop_first()[i].0@ != key by {
            assert(e.drop_first()[i] == e[i + 1]);
        }
        lemma_key_index_at(e.drop_first(), key, k - 1);
    }
}

/// Finds the first entry named `key`.
pub fn find_key<V>(e: &Vec<(String, V)>, key: &str) -> (r: Option<usize>)
    ensures
        match r {
            Some(i) => {
                &&& i as int == key_index(e@, key@)
                &&& i < e.len()
                &&& e@[i as int].0@ == key@
            },
            None => key_index(e@, key@) == -1,
        },
{
    let mut i: usize = 0;
    while i < e.len()
        invariant
            i <= e.len(),
            forall|j: int| 0 <= j < i ==> e@[j].0@ != key@,
        decreases e.len() - i,
    {
        if str_eq(e[i].0.as_str(), key) {
            proof {
                lemma_key_index_at(e@, key@, i as int);
            }
            return Some(i);
        }
        i = i + 1;
    }
    proof {
        lemma_key_index(e@, key@);
    }
    None
}

/// Entries in strictly ascending name order, as a map hands its entries out:
/// each name comes after the one before it, so no name occurs twice.
pub open spec fn names_ascending<V>(e: Seq<(String, V)>) -> bool {
    forall|i: int, j: int| #![trigger e[i], e[j]] 0 <= i < j < e.len() ==> lex_lt(e[i].0@, e[j].0@)
}

/// Whether the entries' names ascend strictly.
pub fn names_in_order<V>(e: &Vec<(String, V)>) -> (r: bool)
    ensures
        r == names_ascending(e@),
{
    if e.len() == 0 {
        return true;
    }
    let mut i: usize = 1;
    while i < e.len()
        invariant
            1 <= i <= e.len(),
            forall|a: int, b: int| #![trigger e@[a], e@[b]] 0 <= a < b < i ==> lex_lt(e@[a].0@, e@[b].0@),
        decreases e.len() - i,
    {
        if !str_lt(e[i - 1].0.as_str(), e[i].0.as_str()) {
            assert(!lex_lt(e@[i - 1].0@, e@[i as int].0@));
            return false;
        }
        proof {
            assert forall|a: int, b: int| #![trigger e@[a], e@[b]] 0 <= a < b < i + 1 implies lex_lt(e@[a].0@, e@[b].0@) by {
                if b == i && a < i - 1 {
                    lemma_lex_trans(e@[a].0@, e@[i - 1].0@, e@[b].0@);
                }
            }
        }
        i = i + 1;
    }
    true
}

/// Law: in entries whose names ascend, every name occurs once: the entry at
/// `i` is the first (and only) one with its name, so looking the name up finds
/// it.
pub proof fn law_ascending_names_occur_once<V>(e: Seq<(String, V)>, i: int)
    requires
        names_ascending(e),
        0 <= i < e.len(),
    ensures
        key_index(e, e[i].0@) == i,
        forall|j: int| 0 <= j < e.len() && j != i ==> e[j].0@ != e[i].0@,
{
    assert forall|j: int| 0 <= j < e.len() && j != i implies e[j].0@ != e[i].0@ by {
        lemma_lex_irreflexive(e[i].0@);
        if j < i {
            assert(lex_lt(e[j].0@, e[i].0@));
        } else {
            assert(lex_lt(e[i].0@, e[j].0@));
        }
    }
    lemma_key_index_at(e, e[i].0@, i);
}

/// The index of the first element of `s` that satisfies `p`, or -1.
pub open spec fn first_where<T>(s: Seq<T>, p: spec_fn(T) -> bool) -> int
    decreases s.len(),
{
    if s.len() == 0 {
        -1
    } else if p(s[0]) {
        0
    } else {
        let k = first_where(s.drop_first(), p);
        if k < 0 { -1 } else { k + 1 }
    }
}

/// `first_where` is -1 exactly when no element satisfies `p`, and otherwise
/// points at the first one that does.
pub proof fn lemma_first_where<T>(s: Seq<T>, p: spec_fn(T) -> bool)
    ensures
        -1 <= first_where(s, p) < s.len(),
        first_where(s, p) == -1 <==> forall|i: int| 0 <= i < s.len() ==> !p(s[i]),
        first_where(s, p) >= 0 ==> p(s[first_where(s, p)]),
        forall|i: int| 0 <= i < first_where(s, p) ==> !p(s[i]),
    decreases s.len(),
{
    if s.len() > 0 && !p(s[0]) {
        lemma_first_where(s.drop_first(), p);
        assert forall|i: int| 0 <= i < first_where(s, p) implies !p(s[i]) by {
            if i > 0 {
                assert(s[i] == s.drop_first()[i - 1]);
            }
        }
        if first_where(s, p) >= 0 {
            assert(s[first_where(s, p)] == s.drop_first()[first_where(s, p) - 1]);
        } else {
            assert forall|i: int| 0 <= i < s.len() implies !p(s[i]) by {
                if i > 0 {
                    assert(s[i] == s.drop_first()[i - 1]);
                }
            }
        }
    }
}

/// An element satisfying `p` with no earlier one is the first.
pub proof fn lemma_first_where_at<T>(s: Seq<T>, p: spec_fn(T) -> bool, k: int)
    requires
        0 <= k < s.len(),
        p(s[k]),
        forall|i: int| 0 <= i < k ==> !p(s[i]),
    ensures
        first_where(s, p) == k,
    decreases s.len(),
{
    if k > 0 {
        assert forall|i: int| 0 <= i < k - 1 implies !p(s.drop_first()[i]) by {
            assert(s.drop_first()[i] == s[i + 1]);
        }
        lemma_first_where_at(s.drop_first(), p, k - 1);
    }
}

} // verus!
