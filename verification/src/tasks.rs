//! Tasks and the store that numbers them.

use crate::dates::{
    day_after, days_after, is_date_keyword, iso_text, lemma_few_days_after, resolve_date,
    resolved_date, CalendarDate, Ymd, MAX_YEAR,
};
use crate::lookup::{
    first_with_key, has_key, is_first_with_key, lemma_first_is_unique, lemma_next_id_is_new,
    numbered, Keyed,
};
use vstd::prelude::*;

verus! {

/// Something to do, with the day it is due.
#[derive(Debug)]
pub struct Task {
    pub id: Option<u32>,
    pub title: String,
    pub date: String,
    pub completed: bool,
    pub priority: String,
}

/// A task as the mathematics sees it.
pub struct TaskView {
    pub id: Option<u32>,
    pub title: Seq<char>,
    pub date: Seq<char>,
    pub completed: bool,
    pub priority: Seq<char>,
}

impl View for Task {
    type V = TaskView;

    open spec fn view(&self) -> TaskView {
        TaskView {
            id: self.id,
            title: self.title@,
            date: self.date@,
            completed: self.completed,
            priority: self.priority@,
        }
    }
}

impl DeepView for Task {
    type V = TaskView;

    open spec fn deep_view(&self) -> TaskView {
        self@
    }
}

impl Keyed<Option<u32>> for TaskView {
    open spec fn key(&self) -> Option<u32> {
        self.id
    }
}

impl Clone for Task {
    fn clone(&self) -> (copy: Self)
        ensures
            copy == *self,
    {
        Task {
            id: self.id,
            title: self.title.clone(),
            date: self.date.clone(),
            completed: self.completed,
            priority: self.priority.clone(),
        }
    }
}

impl TaskView {
    /// The task with a new id and a new date.
    pub open spec fn stored_as(self, id: u32, date: Seq<char>) -> TaskView {
        TaskView { id: Some(id), date, ..self }
    }

    /// The task, done.
    pub open spec fn done(self) -> TaskView {
        TaskView { completed: true, ..self }
    }
}

/// The record that a store holding `before` keeps of `task` on the day
/// `today`: numbered one past the count, its date resolved. `None` where the
/// date cannot be resolved.
pub open spec fn stored_task(before: Seq<TaskView>, task: TaskView, today: Ymd) -> Option<
    TaskView,
> {
    match resolved_date(task.date, today) {
        Some(date) => Some(task.stored_as((before.len() + 1) as u32, date)),
        None => None,
    }
}

/// The date under which a task is stored, keyword by keyword: `Today` is
/// the day itself, `Tomorrow` the day after it, `This Week` the seventh day
/// after it, each written out, and a text that is no keyword is kept as it
/// is. Before the last year supported every task is stored.
pub proof fn lemma_stored_date(before: Seq<TaskView>, task: TaskView, today: Ymd)
    requires
        today.is_valid(),
    ensures
        task.date == "Today"@ ==> stored_task(before, task, today) is Some && stored_task(
            before,
            task,
            today,
        )->0.date == iso_text(today),
        task.date == "Tomorrow"@ && today.year < MAX_YEAR ==> stored_task(before, task, today)
            is Some && stored_task(before, task, today)->0.date == iso_text(day_after(today)),
        task.date == "This Week"@ && today.year < MAX_YEAR ==> stored_task(before, task, today)
            is Some && stored_task(before, task, today)->0.date == iso_text(
            days_after(today, 7),
        ),
        !is_date_keyword(task.date) ==> stored_task(before, task, today) is Some && stored_task(
            before,
            task,
            today,
        )->0.date == task.date,
        today.year < MAX_YEAR ==> stored_task(before, task, today) is Some,
{
    reveal_strlit("Today");
    reveal_strlit("Tomorrow");
    reveal_strlit("This Week");
    assert("Today"@.len() == 5);
    assert("Tomorrow"@.len() == 8);
    assert("This Week"@.len() == 9);
    lemma_few_days_after(today, 1);
    lemma_few_days_after(today, 7);
    assert(days_after(today, 1) == day_after(today)) by {
        reveal_with_fuel(days_after, 2);
    }
}

/// Whether `after` and `added` are what adding `task` to `before` on the day
/// `today` leaves and returns: the stored record at the end and handed
/// back, or nothing changed and nothing handed back where the date cannot be
/// resolved.
pub open spec fn is_addition(
    before: Seq<TaskView>,
    task: TaskView,
    today: Ymd,
    after: Seq<TaskView>,
    added: Option<Task>,
) -> bool {
    match stored_task(before, task, today) {
        Some(stored) => added matches Some(t) && t@ == stored && after == before.push(stored),
        None => added is None && after == before,
    }
}

/// The records once the first of them with `id`, if there is one, is marked
/// done.
pub open spec fn with_completed(before: Seq<TaskView>, id: u32) -> Seq<TaskView> {
    if has_key(before, Some(id)) {
        let at = first_with_key(before, Some(id));
        before.update(at, before[at].done())
    } else {
        before
    }
}

/// The tasks, in the order in which they were added. The task at place `i`
/// carries the id `i + 1`.
pub struct TaskStore {
    records: Vec<Task>,
}

impl View for TaskStore {
    type V = Seq<TaskView>;

    closed spec fn view(&self) -> Seq<TaskView> {
        self.records.deep_view()
    }
}

impl TaskStore {
    /// What every store keeps to: the task at place `i` carries the id
    /// `i + 1`.
    pub open spec fn wf(&self) -> bool {
        numbered(self@)
    }

    /// A store without tasks.
    pub fn new() -> (store: TaskStore)
        ensures
            store.wf(),
            store@ == Seq::<TaskView>::empty(),
    {
        TaskStore { records: Vec::new() }
    }

    /// The number of tasks.
    pub fn len(&self) -> (count: usize)
        ensures
            count == self@.len(),
    {
        self.records.len()
    }

    /// A copy of all tasks, in the order in which they were added.
    pub fn list(&self) -> (tasks: Vec<Task>)
        ensures
            tasks.deep_view() == self@,
            tasks.len() == self@.len(),
            forall|i: int| 0 <= i < tasks.len() ==> (#[trigger] tasks[i])@ == self@[i],
    {
        let mut tasks: Vec<Task> = Vec::new();
        let mut i: usize = 0;
        while i < self.records.len()
            invariant
                i <= self.records.len(),
                tasks.len() == i,
                forall|j: int| 0 <= j < i ==> tasks[j]@ == self.records[j]@,
            decreases self.records.len() - i,
        {
            tasks.push(self.records[i].clone());
            i += 1;
        }
        assert(tasks.deep_view() =~= self.records.deep_view());
        tasks
    }

    /// The place of the first task with `id`.
    fn position(&self, id: u32) -> (at: Option<usize>)
        ensures
            at matches Some(i) ==> is_first_with_key(self@, Some(id), i as int),
            at is None ==> !has_key(self@, Some(id)),
    {
        let mut i: usize = 0;
        while i < self.records.len()
            invariant
                i <= self.records.len(),
                forall|j: int| 0 <= j < i ==> (#[trigger] self@[j]).key() != Some(id),
            decreases self.records.len() - i,
        {
            if self.records[i].id == Some(id) {
                return Some(i);
            }
            i += 1;
        }
        None
    }

    /// Adds `task` as of the day `today`. The store gives it the next id
    /// and resolves its date; what the caller wrote as id is ignored.
    /// Nothing is added, and `None` returned, where the date is `Tomorrow`
    /// or `This Week` and the day meant lies beyond the years supported,
    /// which can only be in the last of these years.
    pub fn add_on(&mut self, task: Task, today: &CalendarDate) -> (added: Option<Task>)
        requires
            old(self).wf(),
            old(self)@.len() < u32::MAX,
        ensures
            final(self).wf(),
            is_addition(old(self)@, task@, today@, final(self)@, added),
            added matches Some(t) ==> !has_key(old(self)@, t.id),
            today@.year < MAX_YEAR ==> added is Some,
            task@.date != "Tomorrow"@ && task@.date != "This Week"@ ==> added is Some,
    {
        let id: u32 = self.records.len() as u32 + 1;
        let Task { id: _, title, date, completed, priority } = task;
        match resolve_date(date, today) {
            Some(date) => {
                let stored = Task { id: Some(id), title, date, completed, priority };
                let copy = stored.clone();
                self.records.push(stored);
                assert(self.records.deep_view() =~= old(self).records.deep_view().push(copy@));
                proof {
                    lemma_next_id_is_new(old(self)@, copy@);
                }
                Some(copy)
            },
            None => None,
        }
    }

    /// Adds `task` as of today, by the machine's clock: `add_on` with the
    /// date that the clock gives. A date that is no keyword does not depend
    /// on the clock: such a task is always added, its date kept as written.
    /// A task for `Today` or `This Month` is always added too.
    pub fn add(&mut self, task: Task) -> (added: Option<Task>)
        requires
            old(self).wf(),
            old(self)@.len() < u32::MAX,
        ensures
            final(self).wf(),
            exists|today: Ymd|
                today.is_valid() && #[trigger] is_addition(
                    old(self)@,
                    task@,
                    today,
                    final(self)@,
                    added,
                ),
            added matches Some(t) ==> !has_key(old(self)@, t.id),
            task@.date != "Tomorrow"@ && task@.date != "This Week"@ ==> added is Some,
            !is_date_keyword(task@.date) ==> final(self)@ == old(self)@.push(
                task@.stored_as((old(self)@.len() + 1) as u32, task@.date),
            ),
            added matches Some(t) ==> final(self)@ == old(self)@.push(t@),
            added is None ==> final(self)@ == old(self)@,
    {
        let today = CalendarDate::today();
        self.add_on(task, &today)
    }

    /// Marks the task with `id` as done and hands back a copy of all tasks.
    /// Where no task carries `id`, nothing changes.
    pub fn complete(&mut self, id: u32) -> (tasks: Vec<Task>)
        requires
            old(self).wf(),
        ensures
            final(self).wf(),
            final(self)@ == with_completed(old(self)@, id),
            has_key(old(self)@, Some(id)) ==> is_first_with_key(
                old(self)@,
                Some(id),
                first_with_key(old(self)@, Some(id)),
            ),
            tasks.deep_view() == final(self)@,
            tasks.len() == final(self)@.len(),
            forall|i: int| 0 <= i < tasks.len() ==> (#[trigger] tasks[i])@ == final(self)@[i],
    {
        match self.position(id) {
            Some(i) => {
                proof {
                    lemma_first_is_unique(self@, Some(id), i as int);
                }
                self.records[i].completed = true;
                assert(self.records.deep_view() =~= old(self).records.deep_view().update(
                    i as int,
                    old(self).records.deep_view()[i as int].done(),
                ));
            },
            None => {},
        }
        self.list()
    }
}

} // verus!
