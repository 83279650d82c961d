//! The decision core of an agent harness runtime.
pub mod canonical;
pub mod checkpoint;
pub mod config;
pub mod content;
pub mod digest;
pub mod events;
pub mod ids;
pub mod json;
pub mod mcp;
pub mod mcp_server;
pub mod metrics;
pub mod model;
pub mod plane_host;
pub mod plane_intake;
pub mod prompts;
pub mod registry;
pub mod replay;
pub mod run;
pub mod sandbox;
pub mod serve;
pub mod text;
pub mod tools;
