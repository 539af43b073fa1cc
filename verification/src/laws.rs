//! The laws of the store, proved over its mathematical model. Each public
//! proof function here states a behaviour that relates several operations;
//! the operations' own contracts in `store` tie the executable code to the
//! model these laws speak of.

use vstd::prelude::*;
use crate::model::{
    at_most_one, first_match_of, has_id, ids_bounded, lemma_first_match_exists,
    lemma_first_match_is, spec_get, spec_insert, spec_remove, spec_replace,
};
use crate::task::TaskView;

verus! {

/// While every id lies within the current length, the id an insertion
/// assigns — `length + 1` — is fresh relative to the then-current
/// collection, and the bound is preserved, so every insertion in a pure run
/// of insertions gets a fresh id. A removal can break the bound: after it,
/// `length + 1` may collide with a surviving id.
pub proof fn lemma_insert_id_fresh(s: Seq<TaskView>, title: Seq<char>, completed: bool)
    requires
        ids_bounded(s),
        s.len() < u32::MAX,
    ensures
        !has_id(s, (s.len() + 1) as u32),
        ids_bounded(spec_insert(s, title, completed)),
{
    let nid = (s.len() + 1) as u32;
    let r = spec_insert(s, title, completed);
    assert(!has_id(s, nid)) by {
        if has_id(s, nid) {
            let i = choose|i: int| 0 <= i < s.len() && s[i].id == nid;
            assert(s[i].id <= s.len());
        }
    }
    assert forall|i: int| 0 <= i < r.len() implies r[i].id <= r.len() by {
        if i < s.len() {
            assert(s[i].id <= s.len());
        }
    }
}

/// The list after an insertion holds one more record; the new record, with
/// its assigned id and the given payload, stands in the last position, and
/// every earlier record is untouched.
pub proof fn lemma_list_after_insert(s: Seq<TaskView>, title: Seq<char>, completed: bool)
    ensures
        spec_insert(s, title, completed).len() == s.len() + 1,
        spec_insert(s, title, completed).last() == (TaskView {
            id: (s.len() + 1) as u32,
            title,
            completed,
        }),
        spec_insert(s, title, completed).contains(
            TaskView { id: (s.len() + 1) as u32, title, completed },
        ),
        forall|j: int| 0 <= j < s.len() ==> spec_insert(s, title, completed)[j] == s[j],
{
    let t = TaskView { id: (s.len() + 1) as u32, title, completed };
    let r = spec_insert(s, title, completed);
    assert(r[s.len() as int] == t);
}

/// A lookup for the id an insertion assigned returns the inserted record,
/// provided that id was fresh (which `lemma_insert_id_fresh` guarantees
/// whenever every id lies within the current length).
pub proof fn lemma_get_after_insert(s: Seq<TaskView>, title: Seq<char>, completed: bool)
    requires
        !has_id(s, (s.len() + 1) as u32),
    ensures
        spec_get(spec_insert(s, title, completed), (s.len() + 1) as u32) == Some(
            TaskView { id: (s.len() + 1) as u32, title, completed },
        ),
{
    let nid = (s.len() + 1) as u32;
    let t = TaskView { id: nid, title, completed };
    let r = spec_insert(s, title, completed);
    assert(r[s.len() as int] == t);
    assert forall|j: int| 0 <= j < s.len() implies r[j].id != nid by {
        assert(r[j] == s[j]);
    }
    lemma_first_match_is(r, nid, s.len() as int);
}

/// A lookup right after a successful replacement returns exactly the
/// rewritten record: the given id with the new title and flag.
pub proof fn lemma_get_after_replace(s: Seq<TaskView>, id: u32, title: Seq<char>, completed: bool)
    requires
        has_id(s, id),
    ensures
        spec_get(spec_replace(s, id, title, completed), id) == Some(
            TaskView { id, title, completed },
        ),
{
    lemma_first_match_exists(s, id);
    let k = first_match_of(s, id);
    let t = TaskView { id, title, completed };
    let r = s.update(k, t);
    assert(r[k] == t);
    lemma_first_match_is(r, id, k);
}

/// After a removal of an id that at most one task carried, a lookup for
/// that id reports nothing, and a second removal finds nothing to remove:
/// it reports `NotFound` and leaves the store as the first removal left it.
pub proof fn lemma_remove_twice_not_found(s: Seq<TaskView>, id: u32)
    requires
        at_most_one(s, id),
    ensures
        !has_id(spec_remove(s, id), id),
        spec_get(spec_remove(s, id), id) is None,
        spec_remove(spec_remove(s, id), id) == spec_remove(s, id),
{
    if has_id(s, id) {
        lemma_first_match_exists(s, id);
        let k = first_match_of(s, id);
        let r = s.remove(k);
        assert(!has_id(r, id)) by {
            if has_id(r, id) {
                let j = choose|j: int| 0 <= j < r.len() && r[j].id == id;
                if j < k {
                    assert(r[j] == s[j]);
                } else {
                    assert(r[j] == s[j + 1]);
                }
            }
        }
    }
}

/// Replacement is idempotent: repeating it with the same id and payload
/// yields the same collection as performing it once.
pub proof fn lemma_replace_idempotent(s: Seq<TaskView>, id: u32, title: Seq<char>, completed: bool)
    ensures
        spec_replace(spec_replace(s, id, title, completed), id, title, completed) == spec_replace(
            s,
            id,
            title,
            completed,
        ),
{
    if has_id(s, id) {
        lemma_first_match_exists(s, id);
        let k = first_match_of(s, id);
        let t = TaskView { id, title, completed };
        let r = s.update(k, t);
        assert(r[k] == t);
        lemma_first_match_is(r, id, k);
        assert(r.update(k, t) =~= r);
    }
}

/// A lookup for an id already present is unaffected by an insertion: the
/// new record stands behind every existing one, so the first match stays.
pub proof fn lemma_get_frame_insert(s: Seq<TaskView>, title: Seq<char>, completed: bool, id: u32)
    requires
        has_id(s, id),
    ensures
        spec_get(spec_insert(s, title, completed), id) == spec_get(s, id),
{
    lemma_first_match_exists(s, id);
    let k = first_match_of(s, id);
    let r = spec_insert(s, title, completed);
    assert(r[k] == s[k]);
    assert forall|j: int| 0 <= j < k implies r[j].id != id by {
        assert(r[j] == s[j]);
    }
    lemma_first_match_is(r, id, k);
}

/// A lookup is unaffected by a replacement aimed at a different id.
pub proof fn lemma_get_frame_replace(
    s: Seq<TaskView>,
    other: u32,
    title: Seq<char>,
    completed: bool,
    id: u32,
)
    requires
        other != id,
    ensures
        spec_get(spec_replace(s, other, title, completed), id) == spec_get(s, id),
{
    if has_id(s, other) {
        lemma_first_match_exists(s, other);
        let k = first_match_of(s, other);
        let t = TaskView { id: other, title, completed };
        let r = s.update(k, t);
        if has_id(s, id) {
            lemma_first_match_exists(s, id);
            let i = first_match_of(s, id);
            assert(r[i] == s[i]);
            assert forall|j: int| 0 <= j < i implies r[j].id != id by {
                if j != k {
                    assert(r[j] == s[j]);
                }
            }
            lemma_first_match_is(r, id, i);
        } else {
            assert(!has_id(r, id)) by {
                if has_id(r, id) {
                    let j = choose|j: int| 0 <= j < r.len() && r[j].id == id;
                    if j != k {
                        assert(r[j] == s[j]);
                    }
                }
            }
        }
    }
}

/// A lookup is unaffected by a removal aimed at a different id.
pub proof fn lemma_get_frame_remove(s: Seq<TaskView>, other: u32, id: u32)
    requires
        other != id,
    ensures
        spec_get(spec_remove(s, other), id) == spec_get(s, id),
{
    if has_id(s, other) {
        lemma_first_match_exists(s, other);
        let k = first_match_of(s, other);
        let r = s.remove(k);
        if has_id(s, id) {
            lemma_first_match_exists(s, id);
            let i = first_match_of(s, id);
            if i < k {
                assert(r[i] == s[i]);
                assert forall|j: int| 0 <= j < i implies r[j].id != id by {
                    assert(r[j] == s[j]);
                }
                lemma_first_match_is(r, id, i);
            } else {
                assert(r[i - 1] == s[i]);
                assert forall|j: int| 0 <= j < i - 1 implies r[j].id != id by {
                    if j < k {
                        assert(r[j] == s[j]);
                    } else {
                        assert(r[j] == s[j + 1]);
                    }
                }
                lemma_first_match_is(r, id, i - 1);
            }
        } else {
            assert(!has_id(r, id)) by {
                if has_id(r, id) {
                    let j = choose|j: int| 0 <= j < r.len() && r[j].id == id;
                    if j < k {
                        assert(r[j] == s[j]);
                    } else {
                        assert(r[j] == s[j + 1]);
                    }
                }
            }
        }
    }
}

} // verus!
