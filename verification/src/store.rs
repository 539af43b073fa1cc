//! The in-memory task store: the authoritative ordered collection of tasks.
//! Every operation is a linear scan; mutual exclusion against concurrent
//! callers is the owner's concern (the store is handed out behind a lock).

use vstd::prelude::*;
use vstd::string::StringExecFns;
use crate::model::{
    has_id, ids_bounded, is_first_match, lemma_first_match_exists, lemma_first_match_unique,
    spec_get, spec_insert, spec_remove, spec_replace,
};
use crate::task::{Task, TaskView};

verus! {

/// The outcome of a removal: the task either left the store or was never
/// there.
#[derive(Clone, Copy, PartialEq, Eq, Debug)]
pub enum RemoveResult {
    Removed,
    NotFound,
}

/// The ordered collection of tasks. Its mathematical value is the sequence
/// of task views in insertion order.
pub struct TaskStore {
    tasks: Vec<Task>,
}

impl View for TaskStore {
    type V = Seq<TaskView>;

    closed spec fn view(&self) -> Seq<TaskView> {
        self.tasks@.map_values(|t: Task| t@)
    }
}

impl TaskStore {
    /// An empty store.
    pub fn new() -> (s: Self)
        ensures
            s@ == Seq::<TaskView>::empty(),
    {
        let s = TaskStore { tasks: Vec::new() };
        proof {
            assert(s@ =~= Seq::<TaskView>::empty());
        }
        s
    }

    /// The store as it stands at startup: two fixture tasks. Every seed id
    /// lies within the length, so insertions from here on assign fresh ids
    /// for as long as nothing is removed (see `laws::lemma_insert_id_fresh`).
    pub fn seeded() -> (s: Self)
        ensures
            s@.len() == 2,
            s@[0] == (TaskView { id: 1, title: "Learn X"@, completed: false }),
            s@[1] == (TaskView { id: 2, title: "Build API"@, completed: true }),
            ids_bounded(s@),
    {
        let mut tasks: Vec<Task> = Vec::new();
        tasks.push(Task { id: 1, title: String::from_str("Learn X"), completed: false });
        tasks.push(Task { id: 2, title: String::from_str("Build API"), completed: true });
        let s = TaskStore { tasks };
        proof {
            assert forall|i: int| 0 <= i < s@.len() implies s@[i].id <= s@.len() by {
                assert(s@[0].id == 1 && s@[1].id == 2);
            }
        }
        s
    }

    /// How many tasks the store holds.
    pub fn len(&self) -> (n: usize)
        ensures
            n == self@.len(),
    {
        self.tasks.len()
    }

    /// A snapshot of all tasks, in insertion order.
    pub fn list(&self) -> (r: Vec<Task>)
        ensures
            r@.len() == self@.len(),
            r@.map_values(|t: Task| t@) == self@,
    {
        let mut out: Vec<Task> = Vec::new();
        let mut i: usize = 0;
        while i < self.tasks.len()
            invariant
                i <= self.tasks.len(),
                out@.len() == i as int,
                forall|j: int| 0 <= j < i ==> out@[j]@ == self@[j],
            decreases self.tasks.len() - i,
        {
            out.push(self.tasks[i].clone());
            i += 1;
        }
        proof {
            assert(out@.map_values(|t: Task| t@) =~= self@);
        }
        out
    }

    /// The first task with the given id, if any.
    pub fn get(&self, id: u32) -> (r: Option<Task>)
        ensures
            match r {
                Some(t) => spec_get(self@, id) == Some(t@),
                None => spec_get(self@, id) is None,
            },
    {
        let ghost s = self@;
        let mut i: usize = 0;
        while i < self.tasks.len()
            invariant
                i <= s.len(),
                s == self@,
                forall|j: int| 0 <= j < i ==> s[j].id != id,
            decreases self.tasks.len() - i,
        {
            if self.tasks[i].id == id {
                proof {
                    assert(is_first_match(s, id, i as int));
                    lemma_first_match_exists(s, id);
                    lemma_first_match_unique(
                        s,
                        id,
                        i as int,
                        crate::model::first_match_of(s, id),
                    );
                }
                return Some(self.tasks[i].clone());
            }
            i += 1;
        }
        proof {
            assert(!has_id(s, id));
        }
        None
    }

    /// Appends a new task built from the payload's title and flag. The
    /// payload's id is ignored: the store assigns `current length + 1`.
    pub fn insert(&mut self, payload: Task) -> (t: Task)
        requires
            old(self)@.len() < u32::MAX,
        ensures
            final(self)@ == spec_insert(old(self)@, payload@.title, payload@.completed),
            t@ == (TaskView {
                id: (old(self)@.len() + 1) as u32,
                title: payload@.title,
                completed: payload@.completed,
            }),
    {
        let ghost s = self@;
        let id = self.tasks.len() as u32 + 1;
        let t = Task { id, title: payload.title, completed: payload.completed };
        let stored = t.clone();
        self.tasks.push(stored);
        proof {
            assert(self@ =~= spec_insert(s, t@.title, t@.completed));
        }
        t
    }

    /// Overwrites the title and flag of the first task with the given id,
    /// leaving its id untouched, and returns the updated record; reports
    /// `None` when no task carries that id, leaving the store unchanged.
    pub fn replace(&mut self, id: u32, title: String, completed: bool) -> (r: Option<Task>)
        ensures
            final(self)@ == spec_replace(old(self)@, id, title@, completed),
            match r {
                Some(t) => has_id(old(self)@, id) && t@ == (TaskView {
                    id,
                    title: title@,
                    completed,
                }),
                None => !has_id(old(self)@, id),
            },
    {
        let ghost s = self@;
        let mut i: usize = 0;
        while i < self.tasks.len()
            invariant
                i <= s.len(),
                s == self@,
                s == old(self)@,
                forall|j: int| 0 <= j < i ==> s[j].id != id,
            decreases self.tasks.len() - i,
        {
            if self.tasks[i].id == id {
                proof {
                    assert(is_first_match(s, id, i as int));
                    lemma_first_match_exists(s, id);
                    lemma_first_match_unique(
                        s,
                        id,
                        i as int,
                        crate::model::first_match_of(s, id),
                    );
                }
                let _old_task = self.tasks.remove(i);
                let updated = Task { id, title, completed };
                let ret = updated.clone();
                self.tasks.insert(i, updated);
                proof {
                    assert(self@ =~= s.update(
                        i as int,
                        TaskView { id, title: ret@.title, completed },
                    ));
                }
                return Some(ret);
            }
            i += 1;
        }
        proof {
            assert(!has_id(s, id));
        }
        None
    }

    /// Removes the first task with the given id, closing the gap; reports
    /// `NotFound` when no task carries that id, leaving the store unchanged.
    pub fn remove(&mut self, id: u32) -> (r: RemoveResult)
        ensures
            final(self)@ == spec_remove(old(self)@, id),
            r == RemoveResult::Removed <==> has_id(old(self)@, id),
    {
        let ghost s = self@;
        let mut i: usize = 0;
        while i < self.tasks.len()
            invariant
                i <= s.len(),
                s == self@,
                s == old(self)@,
                forall|j: int| 0 <= j < i ==> s[j].id != id,
            decreases self.tasks.len() - i,
        {
            if self.tasks[i].id == id {
                proof {
                    assert(is_first_match(s, id, i as int));
                    lemma_first_match_exists(s, id);
                    lemma_first_match_unique(
                        s,
                        id,
                        i as int,
                        crate::model::first_match_of(s, id),
                    );
                }
                let _removed = self.tasks.remove(i);
                proof {
                    assert(self@ =~= s.remove(i as int));
                }
                return RemoveResult::Removed;
            }
            i += 1;
        }
        proof {
            assert(!has_id(s, id));
        }
        RemoveResult::NotFound
    }
}

} // verus!
