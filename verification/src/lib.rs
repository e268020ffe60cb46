//! Casper platform core logic: scopes and roles, authentication context,
//! token revocation, secret vault framing, prompt history selection,
//! document chunking, the tools and their dispatcher, the agent loop's
//! decisions, LLM message conversion, the actor and backend registries, the
//! OAuth connection flow and audit batching.

pub mod text;
pub mod scope;
pub mod json;
pub mod codec;
pub mod llm;
pub mod tools;
pub mod react;
pub mod anthropic;
pub mod assembler;
pub mod routing;
pub mod inference;
pub mod registry;
pub mod prompt;
pub mod history;
pub mod knowledge;
pub mod types;
pub mod role;
pub mod error;
pub mod context;
pub mod revocation;
pub mod jwt;
pub mod vault;
pub mod connection;
pub mod wire;
pub mod training;
pub mod requests;
pub mod mcp_connection;
pub mod run;
pub mod audit;
