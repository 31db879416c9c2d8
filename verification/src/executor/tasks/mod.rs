//! What the task runners decide: their command lines and how outcomes are reported.
pub mod commands;
pub mod http;
pub mod mcp;
pub mod outcomes;
