use vstd::prelude::*;

pub mod aggregate;
pub mod backend;
pub mod message;
pub mod pipeline;
pub mod registry;

pub use crate::aggregate::{DispatchError, ResponseAggregate, ResponseOutcome};
pub use crate::backend::Backend;
pub use crate::message::{Header, Headers, Method, OutboundRequest, RequestCapture, Response};
pub use crate::pipeline::{
    outbound_requests, relay_response, upstream_failure, RequestHandling, Stage, UPSTREAM_FAILURE_STATUS,
};
pub use crate::registry::{ProxyServer, RegistryError};

verus! {

} // verus!
