//! An in-memory task store with list/get/insert/replace/remove operations,
//! together with the request-routing logic that maps each operation's outcome
//! to an HTTP status code and response body. The store keeps tasks in
//! insertion order and assigns each new task the id `current length + 1`.

pub mod laws;
pub mod model;
pub mod router;
pub mod store;
pub mod task;
