//! A verified task tracker: discrete and recurring tasks, date-based
//! recurrence resolution, an atomic bulk-update transaction over an ordered
//! store, and a daily completion-reset engine with a single-flight scheduler.

pub mod date;
pub mod resolver;
pub mod scheduler;
pub mod service;
pub mod store;
pub mod task;
pub mod weekday;
