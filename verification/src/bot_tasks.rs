//! The assistant's tasks and their store.

use crate::lookup::{
    distinct_keys, first_with_key, has_key, ids_below, is_first_with_key, lemma_absent_key,
    lemma_first_is_unique, lemma_id_above_is_new, lemma_without_key, lemma_without_unique_key,
    without_key, Keyed, NotFound,
};
use vstd::prelude::*;

verus! {

/// Something for the assistant to do.
#[derive(Debug)]
pub struct BotTask {
    pub id: Option<u32>,
    pub title: String,
    pub completed: bool,
    pub is_pomodoro: bool,
}

/// An assistant's task as the mathematics sees it.
pub struct BotTaskView {
    pub id: Option<u32>,
    pub title: Seq<char>,
    pub completed: bool,
    pub is_pomodoro: bool,
}

impl View for BotTask {
    type V = BotTaskView;

    open spec fn view(&self) -> BotTaskView {
        BotTaskView {
            id: self.id,
            title: self.title@,
            completed: self.completed,
            is_pomodoro: self.is_pomodoro,
        }
    }
}

impl DeepView for BotTask {
    type V = BotTaskView;

    open spec fn deep_view(&self) -> BotTaskView {
        self@
    }
}

impl Keyed<Option<u32>> for BotTaskView {
    open spec fn key(&self) -> Option<u32> {
        self.id
    }
}

impl Clone for BotTask {
    fn clone(&self) -> (copy: Self)
        ensures
            copy == *self,
    {
        BotTask {
            id: self.id,
            title: self.title.clone(),
            completed: self.completed,
            is_pomodoro: self.is_pomodoro,
        }
    }
}

impl BotTaskView {
    /// The task under the id `id`, whatever id it carried.
    pub open spec fn with_id(self, id: u32) -> BotTaskView {
        BotTaskView { id: Some(id), ..self }
    }

    /// The task, done.
    pub open spec fn done(self) -> BotTaskView {
        BotTaskView { completed: true, ..self }
    }
}

/// The assistant's tasks, in the order in which they were added. The store
/// counts the ids it has given out: a new task gets the next one, and an id
/// that was given once is never given again, also after its task has been
/// deleted. So no two tasks carry the same id.
pub struct BotTaskStore {
    records: Vec<BotTask>,
    next: u32,
}

impl View for BotTaskStore {
    type V = Seq<BotTaskView>;

    closed spec fn view(&self) -> Seq<BotTaskView> {
        self.records.deep_view()
    }
}

impl BotTaskStore {
    /// The id that the next task added will get.
    pub closed spec fn next_id(&self) -> u32 {
        self.next
    }

    /// What every store keeps to: each task carries an id from 1 up to, not
    /// including, the next id, and no two carry the same.
    pub open spec fn wf(&self) -> bool {
        &&& self.next_id() >= 1
        &&& ids_below(self@, self.next_id() as int)
        &&& distinct_keys(self@)
    }

    /// A store without tasks, whose first id will be 1.
    pub fn new() -> (store: BotTaskStore)
        ensures
            store.wf(),
            store.next_id() == 1,
            store@ == Seq::<BotTaskView>::empty(),
    {
        BotTaskStore { records: Vec::new(), next: 1 }
    }

    /// The number of tasks.
    pub fn len(&self) -> (count: usize)
        ensures
            count == self@.len(),
    {
        self.records.len()
    }

    /// The id that the next task added will get.
    pub fn upcoming_id(&self) -> (id: u32)
        ensures
            id == self.next_id(),
    {
        self.next
    }

    /// A copy of all tasks, in the order in which they were added.
    pub fn list(&self) -> (tasks: Vec<BotTask>)
        ensures
            tasks.deep_view() == self@,
            tasks.len() == self@.len(),
            forall|i: int| 0 <= i < tasks.len() ==> (#[trigger] tasks[i])@ == self@[i],
    {
        let mut tasks: Vec<BotTask> = Vec::new();
        let mut i: usize = 0;
        while i < self.records.len()
            invariant
                i <= self.records.len(),
                tasks.len() == i,
                forall|j: int| 0 <= j < i ==> tasks[j]@ == self.records[j]@,
            decreases self.records.len() - i,
        {
            tasks.push(self.records[i].clone());
            i += 1;
        }
        assert(tasks.deep_view() =~= self.records.deep_view());
        tasks
    }

    /// The place of the first task with `id`.
    fn position(&self, id: u32) -> (at: Option<usize>)
        ensures
            at matches Some(i) ==> is_first_with_key(self@, Some(id), i as int),
            at is None ==> !has_key(self@, Some(id)),
    {
        let mut i: usize = 0;
        while i < self.records.len()
            invariant
                i <= self.records.len(),
                forall|j: int| 0 <= j < i ==> (#[trigger] self@[j]).key() != Some(id),
            decreases self.records.len() - i,
        {
            if self.records[i].id == Some(id) {
                return Some(i);
            }
            i += 1;
        }
        None
    }

    /// Adds `task` under the next id and hands back the stored record. What
    /// the caller wrote as id is ignored; the two flags are kept as given.
    /// No task of the store carries the id handed out.
    pub fn add(&mut self, task: BotTask) -> (added: BotTask)
        requires
            old(self).wf(),
            old(self).next_id() < u32::MAX,
        ensures
            final(self).wf(),
            added@ == task@.with_id(old(self).next_id()),
            final(self).next_id() == old(self).next_id() + 1,
            final(self)@ == old(self)@.push(added@),
            !has_key(old(self)@, added.id),
    {
        let stored = BotTask {
            id: Some(self.next),
            title: task.title,
            completed: task.completed,
            is_pomodoro: task.is_pomodoro,
        };
        let copy = stored.clone();
        self.records.push(stored);
        self.next = self.next + 1;
        assert(self.records.deep_view() =~= old(self).records.deep_view().push(copy@));
        proof {
            lemma_id_above_is_new(old(self)@, copy@);
        }
        copy
    }

    /// Overwrites title and both flags of the task with `id` by those of
    /// `replacement`; the id stays. Where no task carries `id`, nothing
    /// changes.
    pub fn update(&mut self, id: u32, replacement: BotTask) -> (updated: Result<BotTask, NotFound>)
        requires
            old(self).wf(),
        ensures
            final(self).wf(),
            final(self).next_id() == old(self).next_id(),
            updated is Ok <==> has_key(old(self)@, Some(id)),
            updated is Ok ==> is_first_with_key(
                old(self)@,
                Some(id),
                first_with_key(old(self)@, Some(id)),
            ),
            updated matches Ok(stored) ==> stored@ == replacement@.with_id(id) && final(self)@
                == old(self)@.update(first_with_key(old(self)@, Some(id)), stored@),
            updated is Err ==> final(self)@ == old(self)@,
    {
        match self.position(id) {
            Some(i) => {
                proof {
                    lemma_first_is_unique(self@, Some(id), i as int);
                }
                self.records[i].title = replacement.title;
                self.records[i].completed = replacement.completed;
                self.records[i].is_pomodoro = replacement.is_pomodoro;
                let copy = self.records[i].clone();
                assert(self.records.deep_view() =~= old(self).records.deep_view().update(
                    i as int,
                    copy@,
                ));
                proof {
                    lemma_same_keys(old(self)@, self@);
                }
                Ok(copy)
            },
            None => Err(NotFound),
        }
    }

    /// Marks the task with `id` as done and hands it back. Where no task
    /// carries `id`, nothing changes.
    pub fn complete(&mut self, id: u32) -> (completed: Result<BotTask, NotFound>)
        requires
            old(self).wf(),
        ensures
            final(self).wf(),
            final(self).next_id() == old(self).next_id(),
            completed is Ok <==> has_key(old(self)@, Some(id)),
            completed is Ok ==> is_first_with_key(
                old(self)@,
                Some(id),
                first_with_key(old(self)@, Some(id)),
            ),
            completed matches Ok(stored) ==> stored@ == old(self)@[first_with_key(
                old(self)@,
                Some(id),
            )].done() && final(self)@ == old(self)@.update(
                first_with_key(old(self)@, Some(id)),
                stored@,
            ),
            completed is Err ==> final(self)@ == old(self)@,
    {
        match self.position(id) {
            Some(i) => {
                proof {
                    lemma_first_is_unique(self@, Some(id), i as int);
                }
                self.records[i].completed = true;
                let copy = self.records[i].clone();
                assert(self.records.deep_view() =~= old(self).records.deep_view().update(
                    i as int,
                    copy@,
                ));
                proof {
                    lemma_same_keys(old(self)@, self@);
                }
                Ok(copy)
            },
            None => Err(NotFound),
        }
    }

    /// Takes out the task with `id`; the others stay in their order, and the
    /// id is not given out again. Where no task carries `id`, nothing
    /// changes.
    pub fn delete(&mut self, id: u32) -> (deleted: Result<(), NotFound>)
        requires
            old(self).wf(),
        ensures
            final(self).wf(),
            final(self).next_id() == old(self).next_id(),
            deleted is Ok <==> has_key(old(self)@, Some(id)),
            deleted is Ok ==> is_first_with_key(
                old(self)@,
                Some(id),
                first_with_key(old(self)@, Some(id)),
            ),
            deleted is Ok ==> final(self)@ == old(self)@.remove(
                first_with_key(old(self)@, Some(id)),
            ),
            deleted is Err ==> final(self)@ == old(self)@,
            final(self)@ == without_key(old(self)@, Some(id)),
            !has_key(final(self)@, Some(id)),
    {
        proof {
            lemma_without_key(self@, Some(id));
        }
        match self.position(id) {
            Some(i) => {
                proof {
                    lemma_first_is_unique(self@, Some(id), i as int);
                    lemma_without_unique_key(self@, Some(id), i as int);
                }
                self.records.remove(i);
                assert(self.records.deep_view() =~= old(self).records.deep_view().remove(
                    i as int,
                ));
                Ok(())
            },
            None => {
                proof {
                    lemma_absent_key(self@, Some(id));
                }
                Err(NotFound)
            },
        }
    }
}

/// Records that carry the keys of `before`, place by place, keep what holds
/// of those keys.
proof fn lemma_same_keys(before: Seq<BotTaskView>, after: Seq<BotTaskView>)
    requires
        after.len() == before.len(),
        forall|i: int| 0 <= i < before.len() ==> (#[trigger] after[i]).key() == before[i].key(),
    ensures
        distinct_keys(before) ==> distinct_keys(after),
        forall|bound: int| ids_below(before, bound) ==> ids_below(after, bound),
{
    if distinct_keys(before) {
        assert forall|i: int, j: int| 0 <= i < j < after.len() implies #[trigger] after[i].key()
            != #[trigger] after[j].key() by {
            assert(before[i].key() != before[j].key());
        }
    }
    assert forall|bound: int| ids_below(before, bound) implies ids_below(after, bound) by {
        assert forall|i: int| 0 <= i < after.len() implies (#[trigger] after[i].key() matches Some(
            k,
        ) && 1 <= k < bound) by {
            assert(before[i].key() matches Some(k) && 1 <= k < bound);
        }
    }
}

} // verus!
