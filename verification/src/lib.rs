//! Core of a small task-tracking tool: the reminder evaluation and
//! deduplication engine, together with the configuration model, the
//! reminder-history store it consults, and the message renderer.
//!
//! The engine decides, for a given instant, which reminders are due for a set
//! of open tasks under a list of configured rules, fires each (task, rule
//! identity) pair at most once, and renders the resulting message text.
//! Storage, prompting, and notification delivery live outside this crate and
//! hand plain values in and out.

pub mod config;
pub mod engine;
pub mod laws;
pub mod modes;
pub mod notify;
pub mod priority;
pub mod reminder;
pub mod render;
pub mod task;
pub mod time;
