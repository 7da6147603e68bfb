//! The server side: listeners that hand HTTP requests to ProSA services.
pub mod adaptor;
pub mod laws;
pub mod mcp;
pub mod proc;
pub mod service;
