//! Data model of jobs, executions, agents, events and API keys, and what the
//! dashboard's statistics are computed from.
pub mod models;
pub mod stats;
