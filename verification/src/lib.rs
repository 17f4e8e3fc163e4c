//! Verified core of the Hachimi agent kernel: bounded text, budgets, transcript views and
//! authority decisions.

pub mod text;
pub mod lex;
pub mod transcript;
pub mod json;
pub mod capabilities;
pub mod model;
pub mod model_view;
pub mod compaction;
pub mod compaction_flow;
pub mod digest;
pub mod agents;
pub mod continuity;
pub mod tools;
pub mod budget;
pub mod security;
pub mod clock;
pub mod delegation;
pub mod runs;
pub mod review;
pub mod file_diff;
pub mod mcp;
pub mod step;
pub mod elicitation;
pub mod projection;
pub mod authorization;
pub mod skills;
pub mod reconcile;
pub mod loop_projection;
pub mod patch;
pub mod profiles;
pub mod children;
pub mod mcp_resources;
pub mod run_diff;
pub mod dispatch;
