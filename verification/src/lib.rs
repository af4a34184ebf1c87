//! Core logic of a bot that forwards university notices to a Telegram chat:
//! categories, notices and their identities, HTML extraction of notices,
//! the class-notice whitelist, configuration, and the decisions of the
//! fetch / store / send cycle.
pub mod text;
pub mod dates;
pub mod database;
pub mod entity;
pub mod cli;
pub mod fetch;
pub mod utils;
pub mod controller;
pub mod bot;
pub mod scheduler;
