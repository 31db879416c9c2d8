//! Kronforce: job scheduling engine core — cron schedules, models, and output rules.
pub mod datetime;
pub mod db;
pub mod error;
pub mod executor;
pub mod json;
pub mod mcp_server;
pub mod scheduler;
pub mod text;
