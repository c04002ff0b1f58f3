//! Lists of names kept in ascending order, each name once.

use vstd::prelude::*;
use crate::text::{
    comes_before, lemma_precedes_irreflexive, lemma_precedes_total, lemma_precedes_transitive,
    precedes,
};

verus! {

/// The characters of each name.
pub open spec fn texts(names: Seq<String>) -> Seq<Seq<char>> {
    names.map_values(|name: String| name@)
}

/// Each name comes before the next, so no name stands twice.
pub open spec fn strictly_ascending(names: Seq<Seq<char>>) -> bool {
    forall|i: int, j: int| 0 <= i < j < names.len() ==> precedes(#[trigger] names[i], #[trigger] names[j])
}

/// In an ascending list no name stands twice.
pub proof fn lemma_ascending_distinct(names: Seq<Seq<char>>)
    requires
        strictly_ascending(names),
    ensures
        forall|i: int, j: int| 0 <= i < j < names.len() ==> #[trigger] names[i] != #[trigger] names[j],
{
    assert forall|i: int, j: int| 0 <= i < j < names.len() implies #[trigger] names[i]
        != #[trigger] names[j] by {
        lemma_precedes_irreflexive(names[i]);
    }
}

/// Puts `name` at its place in an ascending list, unless it stands there
/// already.
pub(crate) fn insert_sorted(names: &mut Vec<String>, name: &str)
    requires
        strictly_ascending(texts(old(names)@)),
    ensures
        strictly_ascending(texts(final(names)@)),
        forall|t: Seq<char>|
            texts(final(names)@).contains(t) <==> texts(old(names)@).contains(t) || t == name@,
{
    let ghost before = texts(names@);
    let mut at: usize = 0;
    while at < names.len() && comes_before(names[at].as_str(), name)
        invariant
            at <= names.len(),
            texts(names@) == before,
            forall|k: int| 0 <= k < at ==> precedes(#[trigger] before[k], name@),
        decreases names.len() - at,
    {
        at += 1;
    }
    if at < names.len() && names[at].as_str().eq(name) {
        assert(before[at as int] == name@);
        return ;
    }
    names.insert(at, name.to_owned());
    proof {
        let after = texts(names@);
        assert(after =~= before.insert(at as int, name@));
        if at < before.len() {
            lemma_precedes_total(before[at as int], name@);
        }
        assert forall|i: int, j: int| 0 <= i < j < after.len() implies precedes(
            #[trigger] after[i],
            #[trigger] after[j],
        ) by {
            if j == at {
                assert(after[i] == before[i]);
            } else if i == at {
                assert(after[j] == before[j - 1]);
                if j - 1 > at {
                    lemma_precedes_transitive(name@, before[at as int], before[j - 1]);
                }
            } else {
                let bi = if i < at { i } else { i - 1 };
                let bj = if j < at { j } else { j - 1 };
                assert(after[i] == before[bi] && after[j] == before[bj]);
            }
        }
        assert forall|t: Seq<char>| after.contains(t) <==> before.contains(t) || t == name@ by {
            if after.contains(t) {
                let i = choose|i: int| 0 <= i < after.len() && after[i] == t;
                if i < at {
                    assert(before[i] == t);
                } else if i > at {
                    assert(before[i - 1] == t);
                }
            }
            if before.contains(t) {
                let i = choose|i: int| 0 <= i < before.len() && before[i] == t;
                if i < at {
                    assert(after[i] == t);
                } else {
                    assert(after[i + 1] == t);
                }
            }
            if t == name@ {
                assert(after[at as int] == t);
            }
        }
    }
}

} // verus!
