use vstd::prelude::*;

use crate::store::{TaskStore, has_id, remove_id, views_of};
use crate::task::{Task, TaskView, task_view};

verus! {

/// The application state behind the window: the task collection, and the two
/// draft input fields for a task not yet created.
pub struct AppState {
    store: TaskStore,
    draft_description: String,
    draft_status: String,
}

impl AppState {
    /// The views of the live tasks, in storage order.
    pub closed spec fn tasks_seq(self) -> Seq<TaskView> {
        self.store.tasks_seq()
    }

    /// The largest id handed out so far.
    pub closed spec fn high_water(self) -> u64 {
        self.store.high_water()
    }

    /// The draft description text.
    pub closed spec fn draft_description_view(self) -> Seq<char> {
        self.draft_description@
    }

    /// The draft status text.
    pub closed spec fn draft_status_view(self) -> Seq<char> {
        self.draft_status@
    }

    /// Well-formed: the underlying store is.
    pub closed spec fn wf(self) -> bool {
        self.store.wf()
    }

    /// A fresh state: no tasks, empty drafts.
    pub fn new() -> (r: AppState)
        ensures
            r.wf(),
            r.tasks_seq() == Seq::<TaskView>::empty(),
            r.high_water() == 0,
            r.draft_description_view() == Seq::<char>::empty(),
            r.draft_status_view() == Seq::<char>::empty(),
    {
        AppState { store: TaskStore::new(), draft_description: String::new(), draft_status: String::new() }
    }

    /// Wraps an already loaded store, with empty drafts.
    pub fn with_store(store: TaskStore) -> (r: AppState)
        requires
            store.wf(),
        ensures
            r.wf(),
            r.tasks_seq() == store.tasks_seq(),
            r.high_water() == store.high_water(),
            r.draft_description_view() == Seq::<char>::empty(),
            r.draft_status_view() == Seq::<char>::empty(),
    {
        AppState { store, draft_description: String::new(), draft_status: String::new() }
    }

    /// A text-input event on the description field.
    pub fn set_draft_description(&mut self, text: String)
        ensures
            final(self).draft_description_view() == text@,
            final(self).draft_status_view() == old(self).draft_status_view(),
            final(self).tasks_seq() == old(self).tasks_seq(),
            final(self).high_water() == old(self).high_water(),
            final(self).wf() == old(self).wf(),
    {
        self.draft_description = text;
    }

    /// A text-input event on the status field.
    pub fn set_draft_status(&mut self, text: String)
        ensures
            final(self).draft_status_view() == text@,
            final(self).draft_description_view() == old(self).draft_description_view(),
            final(self).tasks_seq() == old(self).tasks_seq(),
            final(self).high_water() == old(self).high_water(),
            final(self).wf() == old(self).wf(),
    {
        self.draft_status = text;
    }

    /// The add button: when both drafts are non-empty, a task made of them is
    /// appended under a fresh id, the drafts are cleared, and the new task is
    /// returned so that the caller can persist it; when either draft is
    /// empty, nothing at all changes.
    pub fn add_task(&mut self) -> (r: Option<Task>)
        requires
            old(self).wf(),
            old(self).high_water() < u64::MAX,
        ensures
            final(self).wf(),
            old(self).draft_description_view().len() == 0 || old(self).draft_status_view().len()
                == 0 ==> r is None && *final(self) == *old(self),
            old(self).draft_description_view().len() > 0 && old(self).draft_status_view().len()
                > 0 ==> {
                &&& r is Some
                &&& r.unwrap()@ == task_view(
                    (old(self).high_water() + 1) as u64,
                    old(self).draft_description_view(),
                    old(self).draft_status_view(),
                )
                &&& final(self).tasks_seq() == old(self).tasks_seq().push(r.unwrap()@)
                &&& final(self).tasks_seq().len() == old(self).tasks_seq().len() + 1
                &&& final(self).high_water() == old(self).high_water() + 1
                &&& !has_id(old(self).tasks_seq(), r.unwrap()@.id)
                &&& final(self).draft_description_view() == Seq::<char>::empty()
                &&& final(self).draft_status_view() == Seq::<char>::empty()
            },
    {
        if self.draft_description.as_str().is_empty() || self.draft_status.as_str().is_empty() {
            return None;
        }
        let description = self.draft_description.clone();
        let status = self.draft_status.clone();
        let added = self.store.add(description, status);
        if let Some(id) = added {
            let task = Task {
                id,
                description: self.draft_description.clone(),
                status: self.draft_status.clone(),
            };
            self.draft_description = String::new();
            self.draft_status = String::new();
            Some(task)
        } else {
            proof {
                assert(false);
            }
            None
        }
    }

    /// A delete command for the given id: the matching task, if any, is
    /// removed; the drafts are untouched.
    pub fn delete_task(&mut self, id: u64)
        requires
            old(self).wf(),
        ensures
            final(self).wf(),
            final(self).tasks_seq() == remove_id(old(self).tasks_seq(), id),
            !has_id(final(self).tasks_seq(), id),
            final(self).high_water() == old(self).high_water(),
            final(self).draft_description_view() == old(self).draft_description_view(),
            final(self).draft_status_view() == old(self).draft_status_view(),
    {
        self.store.delete(id);
    }

    /// Whether the state is in its editing phase: some draft text has been
    /// entered and not yet turned into a task.
    pub fn is_editing(&self) -> (r: bool)
        ensures
            r == (self.draft_description_view().len() > 0 || self.draft_status_view().len() > 0),
    {
        !self.draft_description.as_str().is_empty() || !self.draft_status.as_str().is_empty()
    }

    /// Whether some live task carries the given id.
    pub fn contains_id(&self, id: u64) -> (r: bool)
        ensures
            r == has_id(self.tasks_seq(), id),
    {
        self.store.contains_id(id)
    }

    /// The largest id handed out so far, as the callers can read it.
    pub fn high_water_mark(&self) -> (r: u64)
        ensures
            r == self.high_water(),
    {
        self.store.high_water_mark()
    }

    /// How many tasks are live.
    pub fn count(&self) -> (n: usize)
        ensures
            n == self.tasks_seq().len(),
    {
        self.store.count()
    }

    /// All live tasks, in storage order.
    pub fn list(&self) -> (r: &Vec<Task>)
        ensures
            views_of(r@) == self.tasks_seq(),
    {
        self.store.list()
    }

    /// The draft description text, as the input field shows it.
    pub fn draft_description(&self) -> (r: &String)
        ensures
            r@ == self.draft_description_view(),
    {
        &self.draft_description
    }

    /// The draft status text, as the input field shows it.
    pub fn draft_status(&self) -> (r: &String)
        ensures
            r@ == self.draft_status_view(),
    {
        &self.draft_status
    }
}

} // verus!
