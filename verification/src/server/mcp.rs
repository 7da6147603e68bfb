//! The MCP server, which hands the calls of its tools to ProSA services.
pub mod laws;
pub mod proc;
