//! Orbflow's decision logic.

pub mod budget;
pub mod credential_proxy;
pub mod crypto;
pub mod error;
pub mod execution;
pub mod frame;
pub mod http;
pub mod json;
pub mod lists;
pub mod manager;
pub mod mcp_tool;
pub mod middleware;
pub mod named;
pub mod natsbus;
pub mod ratelimit;
pub mod rpc;
pub mod saga;
pub mod ssrf;
pub mod ssrf_resolver;
pub mod subjects;
pub mod text;
pub mod time;
pub mod transport;
pub mod trigger;
pub mod weburl;
pub mod wire;
pub mod wire_json;
pub mod workflow;
