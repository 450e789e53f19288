//! An insertion-ordered association list keyed by step id.
//!
//! Handlers correlate events by id and also care about the order in which
//! work was announced, so the map keeps entries in insertion order: an
//! update keeps an entry's position, a removal shifts the rest up.

use vstd::prelude::*;

use crate::action::BuildStepId;

verus! {

/// The first position holding `id`, if any.
pub open spec fn spec_find<V>(s: Seq<(BuildStepId, V)>, id: BuildStepId) -> Option<int>
    decreases s.len(),
{
    if s.len() == 0 {
        None
    } else if s[0].0 == id {
        Some(0)
    } else {
        match spec_find(s.skip(1), id) {
            Some(i) => Some(i + 1),
            None => None,
        }
    }
}

/// What inserting gives: an existing entry keeps its position and takes the
/// new value, a new entry goes to the end.
pub open spec fn spec_upsert<V>(s: Seq<(BuildStepId, V)>, id: BuildStepId, value: V) -> Seq<
    (BuildStepId, V),
> {
    match spec_find(s, id) {
        Some(i) => s.update(i, (id, value)),
        None => s.push((id, value)),
    }
}

/// What removing gives: the entry leaves, the rest keep their order.
pub open spec fn spec_shift_remove<V>(s: Seq<(BuildStepId, V)>, id: BuildStepId) -> Seq<
    (BuildStepId, V),
> {
    match spec_find(s, id) {
        Some(i) => s.remove(i),
        None => s,
    }
}

/// A found position is in range, holds the key, and nothing before it does.
pub proof fn lemma_find_properties<V>(s: Seq<(BuildStepId, V)>, id: BuildStepId)
    ensures
        match spec_find(s, id) {
            Some(i) => 0 <= i < s.len() && s[i].0 == id && forall|j: int|
                0 <= j < i ==> s[j].0 != id,
            None => forall|j: int| 0 <= j < s.len() ==> s[j].0 != id,
        },
    decreases s.len(),
{
    if s.len() > 0 && s[0].0 != id {
        lemma_find_properties(s.skip(1), id);
        assert forall|j: int| 1 <= j < s.len() implies s[j] == s.skip(1)[j - 1] by {}
    }
}

/// Finds the first position holding `id`.
pub fn find_index<V>(entries: &Vec<(BuildStepId, V)>, id: BuildStepId) -> (r: Option<usize>)
    ensures
        r == match spec_find(entries@, id) {
            Some(i) => Some(i as usize),
            None => None::<usize>,
        },
{
    let n = entries.len();
    proof {
        assert(entries@.skip(0) =~= entries@);
    }
    for i in 0..n
        invariant
            n == entries@.len(),
            forall|j: int| 0 <= j < i ==> entries@[j].0 != id,
            spec_find(entries@.skip(i as int), id) matches Some(k) ==> spec_find(entries@, id)
                == Some(k + i),
            spec_find(entries@.skip(i as int), id) is None ==> spec_find(entries@, id) is None,
    {
        proof {
            assert(entries@.skip(i as int)[0] == entries@[i as int]);
            assert(entries@.skip(i as int).skip(1) =~= entries@.skip(i as int + 1));
        }
        if entries[i].0 == id {
            return Some(i);
        }
    }
    proof {
        assert(entries@.skip(n as int) =~= Seq::<(BuildStepId, V)>::empty());
    }
    None
}

/// Inserts or updates: an existing entry keeps its position and takes the
/// new value, a new entry goes to the end. Tells whether the key was new.
pub fn upsert<V>(entries: &mut Vec<(BuildStepId, V)>, id: BuildStepId, value: V) -> (fresh: bool)
    ensures
        final(entries)@ == spec_upsert(old(entries)@, id, value),
        fresh == (spec_find(old(entries)@, id) is None),
{
    match find_index(entries, id) {
        Some(i) => {
            proof {
                lemma_find_properties(entries@, id);
            }
            entries.set(i, (id, value));
            false
        },
        None => {
            entries.push((id, value));
            true
        },
    }
}

/// Removes the entry holding `id`, keeping the others in order. Tells
/// whether an entry was there.
pub fn shift_remove<V>(entries: &mut Vec<(BuildStepId, V)>, id: BuildStepId) -> (removed: bool)
    ensures
        final(entries)@ == spec_shift_remove(old(entries)@, id),
        removed == (spec_find(old(entries)@, id) is Some),
{
    match find_index(entries, id) {
        Some(i) => {
            proof {
                lemma_find_properties(entries@, id);
            }
            entries.remove(i);
            true
        },
        None => false,
    }
}

/// Updates the entry holding `id` when there is one, leaving the order as
/// it is; a missing key changes nothing. Tells whether the key was there.
pub fn upsert_if_present<V>(
    entries: &mut Vec<(BuildStepId, V)>,
    id: BuildStepId,
    value: V,
) -> (present: bool)
    ensures
        present == (spec_find(old(entries)@, id) is Some),
        present ==> final(entries)@ == spec_upsert(old(entries)@, id, value),
        !present ==> final(entries)@ == old(entries)@,
{
    match find_index(entries, id) {
        Some(i) => {
            proof {
                lemma_find_properties(entries@, id);
            }
            entries.set(i, (id, value));
            true
        },
        None => false,
    }
}

} // verus!
