//! What turns service requests into HTTP requests.
use crate::error::ServiceError;
use crate::io::Url;
use vstd::prelude::*;

verus! {

/// Adaptor of the client processor, which makes an HTTP request out of a service request.
pub trait HyperClientAdaptor<M> {
    /// The HTTP request a service request becomes.
    type Request;

    /// Make the HTTP request of a service request sent to a backend, or say what the service is
    /// answered instead.
    fn process_srv_request(&self, request: M, socket_url: &Url) -> Result<
        Self::Request,
        ServiceError,
    >;
}

} // verus!
