//! Per-guild state, command dispatch and leaderboards for a reaction-counting chat bot.
//!
//! `store` keeps one `GuildState` per guild; `command` decodes a command line, checks
//! who may run it, runs it and says what to reply and what to save; `leaderboard`
//! ranks a count table and cuts it into pages.

pub mod command;
pub mod guild;
pub mod leaderboard;
pub mod reaction;
pub mod store;
pub mod text;
