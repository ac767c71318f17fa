//! The assistant's goals and their store.

use crate::uuids::{fresh_uuid, is_random_uuid};
use vstd::prelude::*;

verus! {

/// Something for the assistant to reach.
#[derive(Debug)]
pub struct BotGoal {
    pub id: Option<u128>,
    pub title: String,
    pub progress: u32,
}

/// An assistant's goal as the mathematics sees it.
pub struct BotGoalView {
    pub id: Option<u128>,
    pub title: Seq<char>,
    pub progress: u32,
}

impl View for BotGoal {
    type V = BotGoalView;

    open spec fn view(&self) -> BotGoalView {
        BotGoalView { id: self.id, title: self.title@, progress: self.progress }
    }
}

impl DeepView for BotGoal {
    type V = BotGoalView;

    open spec fn deep_view(&self) -> BotGoalView {
        self@
    }
}

impl Clone for BotGoal {
    fn clone(&self) -> (copy: Self)
        ensures
            copy == *self,
    {
        BotGoal { id: self.id, title: self.title.clone(), progress: self.progress }
    }
}

impl BotGoalView {
    /// The goal under the id `id`, whatever id it carried.
    pub open spec fn with_id(self, id: u128) -> BotGoalView {
        BotGoalView { id: Some(id), ..self }
    }
}

/// The assistant's goals, in the order in which they were added.
pub struct BotGoalStore {
    records: Vec<BotGoal>,
}

impl View for BotGoalStore {
    type V = Seq<BotGoalView>;

    closed spec fn view(&self) -> Seq<BotGoalView> {
        self.records.deep_view()
    }
}

impl BotGoalStore {
    /// A store without goals.
    pub fn new() -> (store: BotGoalStore)
        ensures
            store@ == Seq::<BotGoalView>::empty(),
    {
        BotGoalStore { records: Vec::new() }
    }

    /// The number of goals.
    pub fn len(&self) -> (count: usize)
        ensures
            count == self@.len(),
    {
        self.records.len()
    }

    /// A copy of all goals, in the order in which they were added.
    pub fn list(&self) -> (goals: Vec<BotGoal>)
        ensures
            goals.deep_view() == self@,
            goals.len() == self@.len(),
            forall|i: int| 0 <= i < goals.len() ==> (#[trigger] goals[i])@ == self@[i],
    {
        let mut goals: Vec<BotGoal> = Vec::new();
        let mut i: usize = 0;
        while i < self.records.len()
            invariant
                i <= self.records.len(),
                goals.len() == i,
                forall|j: int| 0 <= j < i ==> goals[j]@ == self.records[j]@,
            decreases self.records.len() - i,
        {
            goals.push(self.records[i].clone());
            i += 1;
        }
        assert(goals.deep_view() =~= self.records.deep_view());
        goals
    }

    /// Adds `goal` under the id `id` and hands back the stored record. What
    /// the caller wrote as id is ignored.
    pub fn add_as(&mut self, id: u128, goal: BotGoal) -> (added: BotGoal)
        ensures
            added@ == goal@.with_id(id),
            final(self)@ == old(self)@.push(added@),
    {
        let stored = BotGoal { id: Some(id), title: goal.title, progress: goal.progress };
        let copy = stored.clone();
        self.records.push(stored);
        assert(self.records.deep_view() =~= old(self).records.deep_view().push(copy@));
        copy
    }

    /// Adds `goal` under a random id: `add_as` with an id drawn for it. The
    /// id is random and nothing else: no look is taken whether a goal
    /// already carries it.
    pub fn add(&mut self, goal: BotGoal) -> (added: BotGoal)
        ensures
            added.id matches Some(id) && is_random_uuid(id) && added@ == goal@.with_id(id),
            final(self)@ == old(self)@.push(added@),
    {
        let id = fresh_uuid();
        self.add_as(id, goal)
    }
}

} // verus!
