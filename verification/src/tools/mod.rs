//! The tools that ship with the agent: how each reads its input, which
//! command it runs, and what it makes of the result.

pub mod command;
pub mod git;
pub mod quality;
pub mod routing;
pub mod schema;
pub mod shell;
pub mod skill_defaults;
