//! Planning nights out: poll text validation, choice lists, recurring
//! schedules, vote bookkeeping and the rendering of polls.
pub mod text;
pub mod validation;
pub mod choices;
pub mod calendar;
pub mod recurrence;
pub mod models;
pub mod easter_egg;
pub mod components;
pub mod discord;
pub mod commands;
pub mod storage;
pub mod config;
pub mod scheduler;
