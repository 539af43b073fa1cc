//! The per-route logic: each handler invokes exactly one store operation and
//! renders its outcome as a response value. Mapping a response value to an
//! HTTP status code and to the fixed response bodies also lives here; the
//! transport and the JSON wire format are the caller's concern.

use vstd::prelude::*;
use vstd::string::StringExecFns;
use crate::model::{has_id, spec_get, spec_insert, spec_remove, spec_replace};
use crate::store::{RemoveResult, TaskStore};
use crate::task::{Task, TaskView};

verus! {

/// The outcome of one routed request, ready to be rendered on the wire.
#[derive(Debug)]
pub enum RouteResult {
    /// The full task list, in insertion order.
    Tasks(Vec<Task>),
    /// The task a lookup found.
    Found(Task),
    /// The task a creation stored.
    Created(Task),
    /// The task an update rewrote.
    Updated(Task),
    /// A deletion succeeded.
    Deleted,
    /// The requested id is not in the store.
    NotFound,
    /// The static service banner.
    Banner,
}

/// The HTTP status code owed to each outcome: 201 for a creation, 404 when
/// the id was not found, 200 otherwise.
pub open spec fn spec_status(r: RouteResult) -> u16 {
    match r {
        RouteResult::Created(_) => 201,
        RouteResult::NotFound => 404,
        _ => 200,
    }
}

/// The status code of a response value.
pub fn status_of(r: &RouteResult) -> (s: u16)
    ensures
        s == spec_status(*r),
{
    match r {
        RouteResult::Created(_) => 201,
        RouteResult::NotFound => 404,
        _ => 200,
    }
}

/// The fixed plain-text body of a 404 response.
pub fn not_found_body() -> (r: String)
    ensures
        r@ == "Task not found"@,
{
    String::from_str("Task not found")
}

/// The fixed plain-text body of a successful deletion.
pub fn deleted_body() -> (r: String)
    ensures
        r@ == "Task deleted"@,
{
    String::from_str("Task deleted")
}

/// The banner's message field.
pub fn banner_message() -> (r: String)
    ensures
        r@ == "Rust API with Actix Web"@,
{
    String::from_str("Rust API with Actix Web")
}

/// The banner's version field.
pub fn banner_version() -> (r: String)
    ensures
        r@ == "0.1.0"@,
{
    String::from_str("0.1.0")
}

/// GET `/`: the static service banner.
pub fn handle_index() -> (r: RouteResult)
    ensures
        r == RouteResult::Banner,
{
    RouteResult::Banner
}

/// GET `/api/tasks`: every task, in insertion order.
pub fn handle_get_tasks(store: &TaskStore) -> (r: RouteResult)
    ensures
        r matches RouteResult::Tasks(ts) && ts@.map_values(|t: Task| t@) == store@,
{
    RouteResult::Tasks(store.list())
}

/// GET `/api/tasks/{id}`: the first task with that id, or 404.
pub fn handle_get_task(store: &TaskStore, id: u32) -> (r: RouteResult)
    ensures
        match spec_get(store@, id) {
            Some(tv) => r matches RouteResult::Found(t) && t@ == tv,
            None => r == RouteResult::NotFound,
        },
{
    match store.get(id) {
        Some(t) => RouteResult::Found(t),
        None => RouteResult::NotFound,
    }
}

/// POST `/api/tasks`: store a new task built from the payload's title and
/// flag. The payload's id is ignored; the store assigns its own.
pub fn handle_create_task(store: &mut TaskStore, payload: Task) -> (r: RouteResult)
    requires
        old(store)@.len() < u32::MAX,
    ensures
        final(store)@ == spec_insert(old(store)@, payload@.title, payload@.completed),
        r matches RouteResult::Created(t) && t@ == (TaskView {
            id: (old(store)@.len() + 1) as u32,
            title: payload@.title,
            completed: payload@.completed,
        }),
{
    RouteResult::Created(store.insert(payload))
}

/// PUT `/api/tasks/{id}`: overwrite the title and flag of the task with that
/// id from the payload (payload id ignored), or 404.
pub fn handle_update_task(store: &mut TaskStore, id: u32, payload: Task) -> (r: RouteResult)
    ensures
        final(store)@ == spec_replace(old(store)@, id, payload@.title, payload@.completed),
        has_id(old(store)@, id) ==> (r matches RouteResult::Updated(t) && t@ == (TaskView {
            id,
            title: payload@.title,
            completed: payload@.completed,
        })),
        !has_id(old(store)@, id) ==> r == RouteResult::NotFound,
{
    match store.replace(id, payload.title, payload.completed) {
        Some(t) => RouteResult::Updated(t),
        None => RouteResult::NotFound,
    }
}

/// DELETE `/api/tasks/{id}`: remove the task with that id, or 404.
pub fn handle_delete_task(store: &mut TaskStore, id: u32) -> (r: RouteResult)
    ensures
        final(store)@ == spec_remove(old(store)@, id),
        has_id(old(store)@, id) ==> r == RouteResult::Deleted,
        !has_id(old(store)@, id) ==> r == RouteResult::NotFound,
{
    match store.remove(id) {
        RemoveResult::Removed => RouteResult::Deleted,
        RemoveResult::NotFound => RouteResult::NotFound,
    }
}

} // verus!
