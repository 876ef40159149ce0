pub mod discord;
pub mod json;
pub mod llm_planner;
pub mod outcome;
pub mod planner;
pub mod skill_proposer;
pub mod text;
pub mod tools;
