//! Goals, their sub-goals, and the store that names them.

use crate::lookup::{
    first_with_key, has_key, is_first_with_key, lemma_first_is_unique, Keyed, NotFound,
};
use crate::uuids::{fresh_uuid, is_random_uuid};
use vstd::prelude::*;

verus! {

/// A step towards a goal. Goals carry their steps along; no operation of
/// the store creates or changes one.
#[derive(Debug)]
pub struct SubGoal {
    pub id: u128,
    pub title: String,
    pub completed: bool,
    pub progress: u8,
}

/// A sub-goal as the mathematics sees it.
pub struct SubGoalView {
    pub id: u128,
    pub title: Seq<char>,
    pub completed: bool,
    pub progress: u8,
}

impl View for SubGoal {
    type V = SubGoalView;

    open spec fn view(&self) -> SubGoalView {
        SubGoalView {
            id: self.id,
            title: self.title@,
            completed: self.completed,
            progress: self.progress,
        }
    }
}

impl DeepView for SubGoal {
    type V = SubGoalView;

    open spec fn deep_view(&self) -> SubGoalView {
        self@
    }
}

impl Clone for SubGoal {
    fn clone(&self) -> (copy: Self)
        ensures
            copy == *self,
    {
        SubGoal {
            id: self.id,
            title: self.title.clone(),
            completed: self.completed,
            progress: self.progress,
        }
    }
}

/// Something to reach by a day, with the progress made so far.
#[derive(Debug)]
pub struct Goal {
    pub id: u128,
    pub title: String,
    pub description: String,
    pub priority: String,
    pub due_date: String,
    pub progress: u8,
    pub sub_goals: Vec<SubGoal>,
}

/// A goal as the mathematics sees it.
pub struct GoalView {
    pub id: u128,
    pub title: Seq<char>,
    pub description: Seq<char>,
    pub priority: Seq<char>,
    pub due_date: Seq<char>,
    pub progress: u8,
    pub sub_goals: Seq<SubGoalView>,
}

impl View for Goal {
    type V = GoalView;

    open spec fn view(&self) -> GoalView {
        GoalView {
            id: self.id,
            title: self.title@,
            description: self.description@,
            priority: self.priority@,
            due_date: self.due_date@,
            progress: self.progress,
            sub_goals: self.sub_goals.deep_view(),
        }
    }
}

impl DeepView for Goal {
    type V = GoalView;

    open spec fn deep_view(&self) -> GoalView {
        self@
    }
}

impl Keyed<u128> for GoalView {
    open spec fn key(&self) -> u128 {
        self.id
    }
}

impl Clone for Goal {
    fn clone(&self) -> (copy: Self)
        ensures
            copy@ == self@,
    {
        let mut sub_goals: Vec<SubGoal> = Vec::new();
        let mut i: usize = 0;
        while i < self.sub_goals.len()
            invariant
                i <= self.sub_goals.len(),
                sub_goals.len() == i,
                forall|j: int| 0 <= j < i ==> sub_goals[j]@ == self.sub_goals[j]@,
            decreases self.sub_goals.len() - i,
        {
            sub_goals.push(self.sub_goals[i].clone());
            i += 1;
        }
        assert(sub_goals.deep_view() =~= self.sub_goals.deep_view());
        Goal {
            id: self.id,
            title: self.title.clone(),
            description: self.description.clone(),
            priority: self.priority.clone(),
            due_date: self.due_date.clone(),
            progress: self.progress,
            sub_goals,
        }
    }
}

/// What a caller says of a goal to create.
#[derive(Debug)]
pub struct CreateGoal {
    pub title: String,
    pub description: String,
    pub priority: String,
    pub due_date: String,
}

/// What is asked of a new goal, as the mathematics sees it.
pub struct CreateGoalView {
    pub title: Seq<char>,
    pub description: Seq<char>,
    pub priority: Seq<char>,
    pub due_date: Seq<char>,
}

impl View for CreateGoal {
    type V = CreateGoalView;

    open spec fn view(&self) -> CreateGoalView {
        CreateGoalView {
            title: self.title@,
            description: self.description@,
            priority: self.priority@,
            due_date: self.due_date@,
        }
    }
}

impl CreateGoalView {
    /// The goal that is created under `id`: no progress yet, no sub-goals.
    pub open spec fn created_as(self, id: u128) -> GoalView {
        GoalView {
            id,
            title: self.title,
            description: self.description,
            priority: self.priority,
            due_date: self.due_date,
            progress: 0,
            sub_goals: Seq::empty(),
        }
    }
}

impl GoalView {
    /// The goal with its progress set to `progress`.
    pub open spec fn progressed_to(self, progress: u8) -> GoalView {
        GoalView { progress, ..self }
    }
}

/// The goals, in the order in which they were created.
pub struct GoalStore {
    records: Vec<Goal>,
}

impl View for GoalStore {
    type V = Seq<GoalView>;

    closed spec fn view(&self) -> Seq<GoalView> {
        self.records.deep_view()
    }
}

impl GoalStore {
    /// A store without goals.
    pub fn new() -> (store: GoalStore)
        ensures
            store@ == Seq::<GoalView>::empty(),
    {
        GoalStore { records: Vec::new() }
    }

    /// The number of goals.
    pub fn len(&self) -> (count: usize)
        ensures
            count == self@.len(),
    {
        self.records.len()
    }

    /// A copy of all goals, in the order in which they were created.
    pub fn list(&self) -> (goals: Vec<Goal>)
        ensures
            goals.deep_view() == self@,
            goals.len() == self@.len(),
            forall|i: int| 0 <= i < goals.len() ==> (#[trigger] goals[i])@ == self@[i],
    {
        let mut goals: Vec<Goal> = Vec::new();
        let mut i: usize = 0;
        while i < self.records.len()
            invariant
                i <= self.records.len(),
                goals.len() == i,
                forall|j: int| 0 <= j < i ==> goals[j]@ == self.records[j]@,
            decreases self.records.len() - i,
        {
            goals.push(self.records[i].clone());
            i += 1;
        }
        assert(goals.deep_view() =~= self.records.deep_view());
        goals
    }

    /// The place of the first goal with `id`.
    fn position(&self, id: u128) -> (at: Option<usize>)
        ensures
            at matches Some(i) ==> is_first_with_key(self@, id, i as int),
            at is None ==> !has_key(self@, id),
    {
        let mut i: usize = 0;
        while i < self.records.len()
            invariant
                i <= self.records.len(),
                forall|j: int| 0 <= j < i ==> (#[trigger] self@[j]).key() != id,
            decreases self.records.len() - i,
        {
            if self.records[i].id == id {
                return Some(i);
            }
            i += 1;
        }
        None
    }

    /// Creates the goal that `wanted` describes under the id `id`, and hands
    /// back the stored record: no progress yet, no sub-goals.
    pub fn create_as(&mut self, id: u128, wanted: CreateGoal) -> (created: Goal)
        ensures
            created@ == wanted@.created_as(id),
            created.progress == 0,
            created.sub_goals@.len() == 0,
            final(self)@ == old(self)@.push(created@),
    {
        let stored = Goal {
            id,
            title: wanted.title,
            description: wanted.description,
            priority: wanted.priority,
            due_date: wanted.due_date,
            progress: 0,
            sub_goals: Vec::new(),
        };
        assert(stored.sub_goals.deep_view() =~= Seq::<SubGoalView>::empty());
        let copy = stored.clone();
        self.records.push(stored);
        assert(self.records.deep_view() =~= old(self).records.deep_view().push(copy@));
        copy
    }

    /// Creates the goal that `wanted` describes under a random id: `create_as`
    /// with an id drawn for it. The id is random and nothing else: no look
    /// is taken whether a goal already carries it.
    pub fn create(&mut self, wanted: CreateGoal) -> (created: Goal)
        ensures
            is_random_uuid(created.id),
            created@ == wanted@.created_as(created.id),
            created.progress == 0,
            created.sub_goals@.len() == 0,
            final(self)@ == old(self)@.push(created@),
    {
        let id = fresh_uuid();
        self.create_as(id, wanted)
    }

    /// Sets the progress of the first goal with `id` and hands the goal
    /// back. Nothing else of it changes. Where no goal carries `id`, nothing
    /// changes at all.
    pub fn update_progress(&mut self, id: u128, progress: u8) -> (updated: Result<Goal, NotFound>)
        ensures
            updated is Ok <==> has_key(old(self)@, id),
            updated is Ok ==> is_first_with_key(old(self)@, id, first_with_key(old(self)@, id)),
            updated matches Ok(stored) ==> stored@ == old(self)@[first_with_key(
                old(self)@,
                id,
            )].progressed_to(progress) && final(self)@ == old(self)@.update(
                first_with_key(old(self)@, id),
                stored@,
            ),
            updated is Err ==> final(self)@ == old(self)@,
    {
        match self.position(id) {
            Some(i) => {
                proof {
                    lemma_first_is_unique(self@, id, i as int);
                }
                self.records[i].progress = progress;
                let copy = self.records[i].clone();
                assert(self.records.deep_view() =~= old(self).records.deep_view().update(
                    i as int,
                    copy@,
                ));
                Ok(copy)
            },
            None => Err(NotFound),
        }
    }
}

} // verus!
