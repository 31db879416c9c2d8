//! Scheduling: cron expressions, calendar rules, event triggers and the
//! decisions each tick makes.
pub mod calendar;
pub mod cron_parser;
pub mod events;
pub mod tick;
