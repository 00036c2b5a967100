//! Tracks named secrets with expiration dates: a record store keyed by name,
//! a calendar-date model with day arithmetic, an expiry evaluator that builds
//! urgency messages, and the decision logic of the notification sweep.

pub mod clock;
pub mod config;
pub mod date;
pub mod notify;
pub mod store;
