//! In-memory stores for a personal planner: tasks, comments, goals, the
//! assistant's own tasks and goals, the calendar date and a music lookup.

pub mod bot_goals;
pub mod bot_tasks;
pub mod comments;
pub mod dates;
pub mod goals;
pub mod lookup;
pub mod music;
pub mod state;
pub mod tasks;
pub mod text;
pub mod uuids;
