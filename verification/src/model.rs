//! The mathematical model of the store: a sequence of task views, with the
//! meaning of each operation defined over it. Lookups, updates and removals
//! all act on the *first* task whose id matches, in insertion order.

use vstd::prelude::*;
use crate::task::TaskView;

verus! {

/// Some task in `s` carries the id `id`.
pub open spec fn has_id(s: Seq<TaskView>, id: u32) -> bool {
    exists|i: int| 0 <= i < s.len() && s[i].id == id
}

/// `i` is the index of the first task in `s` whose id is `id`.
pub open spec fn is_first_match(s: Seq<TaskView>, id: u32, i: int) -> bool {
    &&& 0 <= i < s.len()
    &&& s[i].id == id
    &&& forall|j: int| 0 <= j < i ==> s[j].id != id
}

/// The index of the first task in `s` whose id is `id`; meaningful only when
/// `has_id(s, id)` holds (see `lemma_first_match_exists`).
pub open spec fn first_match_of(s: Seq<TaskView>, id: u32) -> int {
    choose|i: int| is_first_match(s, id, i)
}

/// What a lookup returns: the first task with the given id, if any.
pub open spec fn spec_get(s: Seq<TaskView>, id: u32) -> Option<TaskView> {
    if has_id(s, id) {
        Some(s[first_match_of(s, id)])
    } else {
        None
    }
}

/// What an insertion produces: the new task, carrying the id
/// `current length + 1`, appended at the end. The id is recomputed from the
/// current length on every insertion; it is not a monotonic counter.
pub open spec fn spec_insert(s: Seq<TaskView>, title: Seq<char>, completed: bool) -> Seq<
    TaskView,
> {
    s.push(TaskView { id: (s.len() + 1) as u32, title, completed })
}

/// What a replacement produces: the first task with the given id has its
/// title and flag overwritten in place (id untouched); absent that id, the
/// store is unchanged.
pub open spec fn spec_replace(
    s: Seq<TaskView>,
    id: u32,
    title: Seq<char>,
    completed: bool,
) -> Seq<TaskView> {
    if has_id(s, id) {
        s.update(first_match_of(s, id), TaskView { id, title, completed })
    } else {
        s
    }
}

/// What a removal produces: the first task with the given id leaves the
/// sequence and the gap closes; absent that id, the store is unchanged.
pub open spec fn spec_remove(s: Seq<TaskView>, id: u32) -> Seq<TaskView> {
    if has_id(s, id) {
        s.remove(first_match_of(s, id))
    } else {
        s
    }
}

/// Every id in `s` is at most the current length. The seeded store starts
/// this way, and pure runs of insertions keep it so; it is what makes the
/// `length + 1` id assignment fresh (a removal can break it).
pub open spec fn ids_bounded(s: Seq<TaskView>) -> bool {
    forall|i: int| 0 <= i < s.len() ==> s[i].id <= s.len()
}

/// At most one task in `s` carries the id `id`.
pub open spec fn at_most_one(s: Seq<TaskView>, id: u32) -> bool {
    forall|i: int, j: int|
        0 <= i < s.len() && 0 <= j < s.len() && s[i].id == id && s[j].id == id ==> i == j
}

/// When some task carries `id`, a first match exists.
pub proof fn lemma_first_match_exists(s: Seq<TaskView>, id: u32)
    requires
        has_id(s, id),
    ensures
        is_first_match(s, id, first_match_of(s, id)),
    decreases s.len(),
{
    if s[0].id == id {
        assert(is_first_match(s, id, 0));
    } else {
        let t = s.subrange(1, s.len() as int);
        let k = choose|i: int| 0 <= i < s.len() && s[i].id == id;
        assert(t[k - 1] == s[k]);
        assert(has_id(t, id));
        lemma_first_match_exists(t, id);
        let i = first_match_of(t, id);
        assert(forall|j: int| 0 <= j < i + 1 ==> s[j].id != id) by {
            assert(forall|j: int| 1 <= j < i + 1 ==> s[j] == t[j - 1]);
        }
        assert(is_first_match(s, id, i + 1));
    }
}

/// At most one index is the first match.
pub proof fn lemma_first_match_unique(s: Seq<TaskView>, id: u32, i: int, j: int)
    requires
        is_first_match(s, id, i),
        is_first_match(s, id, j),
    ensures
        i == j,
{
}

/// A witness for the first match pins `first_match_of` down.
pub proof fn lemma_first_match_is(s: Seq<TaskView>, id: u32, i: int)
    requires
        is_first_match(s, id, i),
    ensures
        has_id(s, id),
        first_match_of(s, id) == i,
{
    assert(has_id(s, id));
    lemma_first_match_exists(s, id);
    lemma_first_match_unique(s, id, i, first_match_of(s, id));
}

} // verus!
