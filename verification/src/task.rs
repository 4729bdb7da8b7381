use vstd::prelude::*;

verus! {

/// One todo item: a unique positive id assigned by the store, a free-form
/// description, and a free-form status label.
pub struct Task {
    pub id: u64,
    pub description: String,
    pub status: String,
}

/// The mathematical value of a task: its id together with the two texts as
/// character sequences.
#[verifier::ext_equal]
pub struct TaskView {
    pub id: u64,
    pub description: Seq<char>,
    pub status: Seq<char>,
}

impl View for Task {
    type V = TaskView;

    open spec fn view(&self) -> TaskView {
        TaskView { id: self.id, description: self.description@, status: self.status@ }
    }
}

/// Builds the view of a task from its three components.
pub open spec fn task_view(id: u64, description: Seq<char>, status: Seq<char>) -> TaskView {
    TaskView { id, description, status }
}

/// A task is valid when its id is positive and both texts are non-empty.
pub open spec fn task_valid(t: TaskView) -> bool {
    1 <= t.id && t.description.len() > 0 && t.status.len() > 0
}

impl Clone for Task {
    fn clone(&self) -> (r: Task)
        ensures
            r@ == self@,
    {
        Task {
            id: self.id,
            description: self.description.clone(),
            status: self.status.clone(),
        }
    }
}

} // verus!
