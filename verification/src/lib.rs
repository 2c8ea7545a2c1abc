//! Core logic of the Hope agent: failover between models and keys, web search, times in the user's
//! zone, the user's profile, and clean shutdown.
//!
//! Clocks, random numbers, files, signals and requests stay outside: what they give comes in as
//! arguments.

pub mod crash_flush;
pub mod failover;
pub mod json;
pub mod local_embedding;
pub mod text;
pub mod time;
pub mod tz_convert;
pub mod user_config;
pub mod web_search;
