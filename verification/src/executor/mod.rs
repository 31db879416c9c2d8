//! Job execution: running tasks, post-processing their output, notifications.
pub mod connections;
pub mod dispatch;
pub mod notifications;
pub mod runner;
pub mod scripts;
pub mod utils;
pub mod output_rules;
pub mod substitution;
pub mod tasks;
