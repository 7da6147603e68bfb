//! HTTP client and server processors for ProSA.
//!
//! The crate holds the decisions the processors take: which sockets a client keeps open, what a
//! socket does with each event that reaches it, how a server routes, answers and drains, and what
//! HTTP response a service outcome becomes. Every one of them is a function of plain values, so the
//! asynchronous program around the crate only performs what it is told.
use vstd::prelude::*;

pub mod backoff;
pub mod client;
pub mod error;
pub mod io;
pub mod message;
pub mod server;
pub mod text;

pub use crate::error::{HttpError, HyperProcError};
pub use crate::server::adaptor::HyperResp;

verus! {

/// What the processors say they are in the `Server` and `User-Agent` headers.
pub const PRODUCT_VERSION_HEADER: &'static str = "prosa-hyper/0.3.0 (Unix)";

} // verus!
