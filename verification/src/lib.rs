//! Verified core logic of the HybridTrade agent backend.
use vstd::prelude::*;

pub mod agents;
pub mod api;
pub mod arguments;
pub mod capabilities;
pub mod cli;
pub mod compaction;
pub mod condense;
pub mod config;
pub mod conversation;
pub mod file_tools;
pub mod history;
pub mod json;
pub mod market_tools;
pub mod mcp;
pub mod hub;
pub mod prompt;
pub mod protocol;
pub mod registry;
pub mod research;
pub mod research_tools;
pub mod runtime;
pub mod schema;
pub mod schedule;
pub mod skill_results;
pub mod skills;
pub mod storage;
pub mod team;
pub mod team_run;
pub mod text;
pub mod tool_schemas;
pub mod tools;
pub mod transcript;
pub mod transport;
pub mod workspace;

verus! {

broadcast use vstd::string::group_string_axioms;

} // verus!
