//! The commands of the `tpt-focus` tool: what they are asked, what they change
//! and what they say. Files, the database and the terminal are dealt with
//! elsewhere.

pub mod config;
pub mod effect;
pub mod print;
pub mod rules;
pub mod times;
pub mod profiles;
pub mod schedules;
pub mod daemon;
pub mod evaluate;
pub mod history;
