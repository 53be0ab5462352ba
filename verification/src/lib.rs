//! Backend core of the T-ide agentic IDE: agent sessions and approvals,
//! storage of projects, devices, sessions and transcripts, the client
//! protocol, and the security primitives that bound what the agent may touch.

pub mod agent;
pub mod config;
pub mod error;
pub mod outside;
pub mod text;
pub mod network;
pub mod order;
pub mod paths;
pub mod security;
pub mod storage;

pub use error::{IdeError, Result};
