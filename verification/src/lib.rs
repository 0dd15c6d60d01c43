//! Verified core of a REST to JSON-RPC 2.0 translation layer.
//!
//! An inbound call is read into a transport-agnostic canonical request, passed
//! through a chain of middleware, turned into a JSON-RPC envelope and handed to
//! a forwarding backend. This crate holds the data model, the two mappings
//! between canonical request and envelope, the rules by which a chain and a
//! call proceed, and the lifecycle of the proxy that owns the backend.
//!
//! Reading the transport, applying one middleware and asking the backend are
//! the business of implementations of [`ToJsonRpc`], [`Middleware`] and
//! [`Forwarder`]. Everything between those steps is proved here against the
//! contracts in this crate; what is taken on trust is listed in [`json`] and
//! [`text`].

pub mod call;
pub mod error;
pub mod fields;
pub mod forwarder;
pub mod json;
pub mod middleware;
pub mod proxy;
pub mod request;
pub mod text;
pub mod translator;

pub use crate::forwarder::Forwarder;
pub use crate::middleware::Middleware;
pub use crate::proxy::Proxy;
pub use crate::request::{JsonRpcRequest, JsonRpcRequestStandard};
pub use crate::translator::ToJsonRpc;
