//! A verified core for a command bookmarking tool: commands are saved under
//! short tags in an ordered byte-keyed store, recalled by exact tag or by
//! prefix suggestions, and extracted from shell history lines.

pub mod bytes;
pub mod cli;
pub mod history;
pub mod paths;
pub mod shell;
pub mod store;
