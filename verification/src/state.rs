//! The two groups of stores that a server holds.

use crate::bot_goals::BotGoalStore;
use crate::bot_tasks::BotTaskStore;
use crate::comments::CommentStore;
use crate::goals::GoalStore;
use crate::tasks::TaskStore;
use vstd::prelude::*;

verus! {

/// The user's stores. None refers to another, so each can be locked and
/// changed on its own.
pub struct AppState {
    pub tasks: TaskStore,
    pub comments: CommentStore,
    pub goals: GoalStore,
}

impl AppState {
    /// Three empty stores.
    pub fn new() -> (state: AppState)
        ensures
            state.tasks.wf(),
            state.tasks@.len() == 0,
            state.comments.wf(),
            state.comments@.len() == 0,
            state.goals@.len() == 0,
    {
        AppState { tasks: TaskStore::new(), comments: CommentStore::new(), goals: GoalStore::new() }
    }
}

/// The assistant's stores, apart from the user's.
pub struct BotAppState {
    pub tasks: BotTaskStore,
    pub goals: BotGoalStore,
}

impl BotAppState {
    /// Two empty stores.
    pub fn new() -> (state: BotAppState)
        ensures
            state.tasks.wf(),
            state.tasks.next_id() == 1,
            state.tasks@.len() == 0,
            state.goals@.len() == 0,
    {
        BotAppState { tasks: BotTaskStore::new(), goals: BotGoalStore::new() }
    }
}

} // verus!
