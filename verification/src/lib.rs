//! A small todo-task library: a task store that assigns unique ids and an
//! application state that keeps draft input fields in sync with the store.

pub mod state;
pub mod store;
pub mod task;
