//! A flashcard review and quiz session engine.
//!
//! The engine keeps a per-user quiz session over a fixed snapshot of cards,
//! scores answers, schedules each reviewed card with a spaced-repetition
//! policy, and hands every durable write back to the caller as a plain value.

pub mod command;
pub mod error;
pub mod llm;
pub mod registry;
pub mod schedule;
pub mod session;
pub mod store;
pub mod text;
