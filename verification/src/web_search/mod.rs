//! Web search.

pub mod duckduckgo;
pub mod html;
pub mod instant_answer;
pub mod percent;
pub mod result;
pub mod search;
