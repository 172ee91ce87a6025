//! Verified core of the ACP/A2A agent bridge: agent, grant and invite books,
//! concurrency gates, the connection router and its reattach update cache,
//! the permission waterfall, the MCP rewrite, the task phase and bridge, the
//! workspace table, configuration and the admin face, each with its model
//! and contract.

mod text;
pub mod tally;
pub mod limits;
pub mod gate;
pub mod reattach;
pub mod agents;
pub mod grants;
pub mod invites;
pub mod workspaces;
pub mod config;
pub mod permission;
pub mod jail;
pub mod audit;
pub mod card;
pub mod task;
pub mod admin;
pub mod json;
pub mod mcp;
pub mod bridge;
pub mod router;
pub mod slots;
pub mod chunk;
pub mod share;
pub mod peers;
pub mod publish;
pub mod stub;
