//! Proposing refinements of the persona from what happened in a turn.

pub mod judge;
pub mod laws;
pub mod reading;
