//! The task record: an id, a title, and a completion flag.

use vstd::prelude::*;

verus! {

/// The sole entity of the store: a record with a store-assigned integer id,
/// an arbitrary text title, and a completion flag.
#[derive(Debug, PartialEq, Eq)]
pub struct Task {
    pub id: u32,
    pub title: String,
    pub completed: bool,
}

/// The mathematical value of a `Task`: the same three fields, with the title
/// as a sequence of characters.
pub ghost struct TaskView {
    pub id: u32,
    pub title: Seq<char>,
    pub completed: bool,
}

impl View for Task {
    type V = TaskView;

    open spec fn view(&self) -> TaskView {
        TaskView { id: self.id, title: self.title@, completed: self.completed }
    }
}

impl Clone for Task {
    fn clone(&self) -> (r: Self)
        ensures
            r@ == self@,
    {
        Task { id: self.id, title: self.title.clone(), completed: self.completed }
    }
}

} // verus!
