//! The client side: sockets that serve ProSA requests from HTTP backends.
pub mod adaptor;
pub mod laws;
pub mod pool;
pub mod pool_laws;
pub mod proc;
pub mod socket;
pub mod socket_laws;
