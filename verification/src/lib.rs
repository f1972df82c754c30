//! Decision logic of a small agent harness.
pub mod agent;
pub mod base64;
pub mod cli;
pub mod commands;
pub mod compaction;
pub mod dispatcher;
pub mod expr;
pub mod hooks;
pub mod image_preproc;
pub mod json;
pub mod llm;
pub mod memory;
pub mod policy;
pub mod prompt;
pub mod read_image;
pub mod router;
pub mod server;
pub mod session;
pub mod session_manager;
pub mod skill;
pub mod skill_creator;
pub mod sorting;
pub mod strategies;
pub mod subagent;
pub mod text;
pub mod textmap;
pub mod tools;
pub mod types;
pub mod views;
pub mod workflow;
pub mod yaml;
