use vstd::prelude::*;

use crate::task::{Task, TaskView, task_valid, task_view};

verus! {

/// The views of a sequence of tasks.
pub open spec fn views_of(tasks: Seq<Task>) -> Seq<TaskView> {
    tasks.map_values(|t: Task| t@)
}

/// No two tasks of the sequence share an id.
pub open spec fn unique_ids(s: Seq<TaskView>) -> bool {
    forall|i: int, j: int|
        0 <= i < s.len() && 0 <= j < s.len() && i != j ==> (#[trigger] s[i]).id != (
        #[trigger] s[j]).id
}

/// Some task of the sequence carries the given id.
pub open spec fn has_id(s: Seq<TaskView>, id: u64) -> bool {
    exists|i: int| 0 <= i < s.len() && (#[trigger] s[i]).id == id
}

/// Every task of the sequence is valid.
pub open spec fn all_valid(s: Seq<TaskView>) -> bool {
    forall|i: int| 0 <= i < s.len() ==> task_valid(#[trigger] s[i])
}

/// Every id of the sequence is at most the given bound.
pub open spec fn ids_bounded(s: Seq<TaskView>, bound: u64) -> bool {
    forall|i: int| 0 <= i < s.len() ==> (#[trigger] s[i]).id <= bound
}

/// Keeps the tasks whose id differs from the given one.
pub open spec fn keeps(id: u64) -> spec_fn(TaskView) -> bool {
    |t: TaskView| t.id != id
}

/// The sequence with every task of the given id removed, order kept.
pub open spec fn remove_id(s: Seq<TaskView>, id: u64) -> Seq<TaskView> {
    s.filter(keeps(id))
}

/// The largest id of the sequence, or zero when it is empty.
pub open spec fn seq_max_id(s: Seq<TaskView>) -> u64
    decreases s.len(),
{
    if s.len() == 0 {
        0u64
    } else {
        let rest = seq_max_id(s.drop_last());
        if s.last().id > rest {
            s.last().id
        } else {
            rest
        }
    }
}

/// The tasks that a row sequence yields when loaded in order: a row is kept
/// when it is valid and its id is not already taken by an earlier kept row.
pub open spec fn ingest(rows: Seq<TaskView>) -> Seq<TaskView>
    decreases rows.len(),
{
    if rows.len() == 0 {
        Seq::<TaskView>::empty()
    } else {
        let prefix = ingest(rows.drop_last());
        let t = rows.last();
        if task_valid(t) && !has_id(prefix, t.id) {
            prefix.push(t)
        } else {
            prefix
        }
    }
}

/// Every task that a removal keeps is one of the original tasks, and none of
/// the kept tasks carries the removed id.
pub proof fn lemma_remove_id_membership(s: Seq<TaskView>, id: u64)
    ensures
        forall|j: int|
            0 <= j < remove_id(s, id).len() ==> s.contains(#[trigger] remove_id(s, id)[j]),
        forall|j: int|
            0 <= j < remove_id(s, id).len() ==> (#[trigger] remove_id(s, id)[j]).id != id,
    decreases s.len(),
{
    reveal(Seq::filter);
    if s.len() == 0 {
    } else {
        lemma_remove_id_membership(s.drop_last(), id);
        let out = remove_id(s, id);
        let sub = remove_id(s.drop_last(), id);
        assert forall|j: int| 0 <= j < out.len() implies s.contains(#[trigger] out[j])
            && out[j].id != id by {
            if j < sub.len() {
                assert(out[j] == sub[j]);
                assert(s.drop_last().contains(sub[j]));
                let w = choose|k: int|
                    0 <= k < s.drop_last().len() && s.drop_last()[k] == sub[j];
                assert(s[w] == sub[j]);
            } else {
                assert(out[j] == s.last());
                assert(s[s.len() - 1] == s.last());
            }
        }
    }
}

/// Removing an id from tasks with pairwise distinct ids keeps the ids
/// pairwise distinct.
pub proof fn lemma_remove_id_unique(s: Seq<TaskView>, id: u64)
    requires
        unique_ids(s),
    ensures
        unique_ids(remove_id(s, id)),
    decreases s.len(),
{
    reveal(Seq::filter);
    if s.len() == 0 {
    } else {
        assert(unique_ids(s.drop_last()));
        lemma_remove_id_unique(s.drop_last(), id);
        lemma_remove_id_membership(s.drop_last(), id);
        let out = remove_id(s, id);
        let sub = remove_id(s.drop_last(), id);
        if keeps(id)(s.last()) {
            assert(out == sub.push(s.last()));
            assert forall|i: int, j: int|
                0 <= i < out.len() && 0 <= j < out.len() && i != j implies (#[trigger] out[i]).id
                != (#[trigger] out[j]).id by {
                if i < sub.len() && j < sub.len() {
                    assert(out[i] == sub[i] && out[j] == sub[j]);
                } else if i < sub.len() {
                    assert(out[j] == s.last());
                    assert(s.drop_last().contains(sub[i]));
                    let w = choose|k: int|
                        0 <= k < s.drop_last().len() && s.drop_last()[k] == sub[i];
                    assert(s[w] == sub[i] && s[s.len() - 1] == s.last());
                } else {
                    assert(out[i] == s.last());
                    assert(s.drop_last().contains(sub[j]));
                    let w = choose|k: int|
                        0 <= k < s.drop_last().len() && s.drop_last()[k] == sub[j];
                    assert(s[w] == sub[j] && s[s.len() - 1] == s.last());
                }
            }
        }
    }
}

/// Deleting an id that no task carries leaves the tasks unchanged.
pub proof fn lemma_remove_missing_id_is_noop(s: Seq<TaskView>, id: u64)
    requires
        !has_id(s, id),
    ensures
        remove_id(s, id) == s,
    decreases s.len(),
{
    reveal(Seq::filter);
    if s.len() == 0 {
        assert(remove_id(s, id) =~= s);
    } else {
        assert(!has_id(s.drop_last(), id)) by {
            if has_id(s.drop_last(), id) {
                let w = choose|k: int|
                    0 <= k < s.drop_last().len() && (#[trigger] s.drop_last()[k]).id == id;
                assert(s[w].id == id);
            }
        }
        lemma_remove_missing_id_is_noop(s.drop_last(), id);
        assert(s[s.len() - 1].id != id);
        assert(remove_id(s, id) =~= s);
    }
}

/// Deleting an id that some task carries removes exactly that task and no
/// other: the count drops by one, and every task with a different id stays.
pub proof fn lemma_remove_id_removes_exactly_one(s: Seq<TaskView>, id: u64)
    requires
        unique_ids(s),
        has_id(s, id),
    ensures
        remove_id(s, id).len() == s.len() - 1,
        forall|i: int|
            0 <= i < s.len() && (#[trigger] s[i]).id != id ==> remove_id(s, id).contains(s[i]),
    decreases s.len(),
{
    reveal(Seq::filter);
    lemma_remove_id_membership(s, id);
    assert forall|i: int|
        0 <= i < s.len() && (#[trigger] s[i]).id != id implies remove_id(s, id).contains(
        s[i],
    ) by {
        s.lemma_filter_contains(keeps(id), i);
    }
    let sub = remove_id(s.drop_last(), id);
    if s.last().id == id {
        assert(!has_id(s.drop_last(), id)) by {
            if has_id(s.drop_last(), id) {
                let w = choose|k: int|
                    0 <= k < s.drop_last().len() && (#[trigger] s.drop_last()[k]).id == id;
                assert(s[w].id == id && s[s.len() - 1].id == id);
            }
        }
        lemma_remove_missing_id_is_noop(s.drop_last(), id);
    } else {
        assert(has_id(s.drop_last(), id)) by {
            let w = choose|k: int| 0 <= k < s.len() && (#[trigger] s[k]).id == id;
            assert(s.drop_last()[w] == s[w]);
        }
        assert(unique_ids(s.drop_last()));
        lemma_remove_id_removes_exactly_one(s.drop_last(), id);
    }
}

/// After an add and then a delete of the very id that the add assigned, the
/// remaining tasks no longer contain that id.
pub proof fn lemma_add_then_delete_id_gone(s: Seq<TaskView>, t: TaskView)
    ensures
        !has_id(remove_id(s.push(t), t.id), t.id),
{
    lemma_remove_id_membership(s.push(t), t.id);
}

/// The in-memory model of the task table: the live tasks, and the largest id
/// handed out so far, so that ids are never reused.
pub struct TaskStore {
    tasks: Vec<Task>,
    max_used: u64,
}

impl TaskStore {
    /// The views of the live tasks, in storage order.
    pub closed spec fn tasks_seq(self) -> Seq<TaskView> {
        views_of(self.tasks@)
    }

    /// The largest id handed out so far; the next add returns one more.
    pub closed spec fn high_water(self) -> u64 {
        self.max_used
    }

    /// Well-formed: ids are unique and positive, both texts of every live
    /// task are non-empty, and no id exceeds the high-water mark.
    pub closed spec fn wf(self) -> bool {
        &&& unique_ids(self.tasks_seq())
        &&& all_valid(self.tasks_seq())
        &&& ids_bounded(self.tasks_seq(), self.max_used)
    }

    /// A well-formed store has unique, valid ids, all bounded by the
    /// high-water mark.
    pub proof fn lemma_wf_facts(self)
        requires
            self.wf(),
        ensures
            unique_ids(self.tasks_seq()),
            all_valid(self.tasks_seq()),
            ids_bounded(self.tasks_seq(), self.high_water()),
    {
    }

    /// A fresh, empty store.
    pub fn new() -> (r: TaskStore)
        ensures
            r.wf(),
            r.tasks_seq() == Seq::<TaskView>::empty(),
            r.high_water() == 0,
    {
        let r = TaskStore { tasks: Vec::new(), max_used: 0 };
        proof {
            assert(r.tasks_seq() =~= Seq::<TaskView>::empty());
        }
        r
    }

    /// The largest id handed out so far, as the callers can read it; the
    /// next add, if any, returns one more.
    pub fn high_water_mark(&self) -> (r: u64)
        ensures
            r == self.high_water(),
    {
        self.max_used
    }

    /// How many tasks are live.
    pub fn count(&self) -> (n: usize)
        ensures
            n == self.tasks_seq().len(),
    {
        self.tasks.len()
    }

    /// All live tasks, in storage order.
    pub fn list(&self) -> (r: &Vec<Task>)
        ensures
            views_of(r@) == self.tasks_seq(),
    {
        &self.tasks
    }

    /// Whether some live task carries the given id.
    pub fn contains_id(&self, id: u64) -> (r: bool)
        ensures
            r == has_id(self.tasks_seq(), id),
    {
        let mut i: usize = 0;
        while i < self.tasks.len()
            invariant
                i <= self.tasks@.len(),
                forall|j: int| 0 <= j < i ==> (#[trigger] self.tasks_seq()[j]).id != id,
            decreases self.tasks@.len() - i,
        {
            if self.tasks[i].id == id {
                proof {
                    assert(self.tasks_seq()[i as int].id == id);
                }
                return true;
            }
            i += 1;
        }
        false
    }

    /// Adds a task. Empty inputs are rejected and nothing changes; otherwise
    /// the task is appended under a fresh id, one above the high-water mark,
    /// and that id is returned.
    pub fn add(&mut self, description: String, status: String) -> (r: Option<u64>)
        requires
            old(self).wf(),
            old(self).high_water() < u64::MAX,
        ensures
            final(self).wf(),
            description@.len() == 0 || status@.len() == 0 ==> r is None && *final(self) == *old(
                self,
            ),
            description@.len() > 0 && status@.len() > 0 ==> {
                &&& r == Some((old(self).high_water() + 1) as u64)
                &&& final(self).tasks_seq() == old(self).tasks_seq().push(
                    task_view((old(self).high_water() + 1) as u64, description@, status@),
                )
                &&& final(self).tasks_seq().len() == old(self).tasks_seq().len() + 1
                &&& final(self).high_water() == old(self).high_water() + 1
                &&& !has_id(old(self).tasks_seq(), (old(self).high_water() + 1) as u64)
            },
    {
        if description.as_str().is_empty() || status.as_str().is_empty() {
            return None;
        }
        let id = self.max_used + 1;
        self.max_used = id;
        let task = Task { id, description, status };
        let ghost tv = task@;
        self.tasks.push(task);
        proof {
            assert(self.tasks_seq() =~= old(self).tasks_seq().push(tv));
        }
        Some(id)
    }

    /// Builds a store from rows read back from storage, in order. A row is
    /// kept when it is valid and its id is not already taken; the high-water
    /// mark becomes the largest id kept, so later adds stay fresh.
    pub fn from_rows(rows: &Vec<Task>) -> (r: TaskStore)
        ensures
            r.wf(),
            r.tasks_seq() == ingest(views_of(rows@)),
            r.high_water() == seq_max_id(r.tasks_seq()),
    {
        let mut store = TaskStore { tasks: Vec::new(), max_used: 0 };
        proof {
            assert(store.tasks_seq() =~= Seq::<TaskView>::empty());
            assert(views_of(rows@).take(0) =~= Seq::<TaskView>::empty());
        }
        let mut i: usize = 0;
        while i < rows.len()
            invariant
                i <= rows@.len(),
                store.wf(),
                store.tasks_seq() == ingest(views_of(rows@).take(i as int)),
                store.max_used == seq_max_id(store.tasks_seq()),
            decreases rows@.len() - i,
        {
            let ghost pre = store.tasks_seq();
            let t = &rows[i];
            let valid = t.id >= 1 && !t.description.as_str().is_empty()
                && !t.status.as_str().is_empty();
            if valid && !store.contains_id(t.id) {
                if t.id > store.max_used {
                    store.max_used = t.id;
                }
                store.tasks.push(t.clone());
                proof {
                    assert(store.tasks_seq() =~= pre.push(t@));
                    assert(store.tasks_seq().drop_last() =~= pre);
                }
            }
            proof {
                let rv = views_of(rows@);
                assert(rv.take(i + 1).drop_last() =~= rv.take(i as int));
                assert(rv.take(i + 1).last() == rv[i as int]);
            }
            i += 1;
        }
        proof {
            assert(views_of(rows@).take(rows@.len() as int) =~= views_of(rows@));
        }
        store
    }

    /// Deletes the task with the given id. Absence is not an error: when no
    /// task carries the id, nothing changes.
    pub fn delete(&mut self, id: u64)
        requires
            old(self).wf(),
        ensures
            final(self).wf(),
            final(self).tasks_seq() == remove_id(old(self).tasks_seq(), id),
            !has_id(final(self).tasks_seq(), id),
            final(self).high_water() == old(self).high_water(),
    {
        let ghost s0 = old(self).tasks_seq();
        let mut kept: Vec<Task> = Vec::new();
        let mut i: usize = 0;
        while i < self.tasks.len()
            invariant
                i <= self.tasks@.len(),
                self.tasks@ == old(self).tasks@,
                self.max_used == old(self).max_used,
                s0 == old(self).tasks_seq(),
                views_of(kept@) == remove_id(s0.take(i as int), id),
            decreases self.tasks@.len() - i,
        {
            let ghost pre = views_of(kept@);
            let t = &self.tasks[i];
            if t.id != id {
                kept.push(t.clone());
            }
            proof {
                assert(s0.take(i + 1).drop_last() =~= s0.take(i as int));
                assert(s0.take(i + 1) =~= s0.take(i as int).push(s0[i as int]));
                s0.take(i as int).lemma_filter_push(s0[i as int], keeps(id));
                if t.id != id {
                    assert(views_of(kept@) =~= pre.push(t@));
                } else {
                    assert(views_of(kept@) == pre);
                }
            }
            i += 1;
        }
        proof {
            assert(s0.take(self.tasks@.len() as int) =~= s0);
        }
        self.tasks = kept;
        proof {
            lemma_remove_id_membership(s0, id);
            lemma_remove_id_unique(s0, id);
            let out = self.tasks_seq();
            assert forall|j: int| 0 <= j < out.len() implies task_valid(#[trigger] out[j])
                && out[j].id <= self.max_used by {
                assert(s0.contains(out[j]));
                let w = choose|k: int| 0 <= k < s0.len() && s0[k] == out[j];
                assert(task_valid(s0[w]) && s0[w].id <= old(self).high_water());
            }
        }
    }
}

} // verus!
