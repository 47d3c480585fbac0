//! Verified session-and-stream transport core for an HTTP binding of
//! a JSON-RPC agent protocol: session store, bounded duplex channels,
//! lifecycle decisions for the bidirectional and the legacy
//! unidirectional variant, and the event-stream encoder. The message
//! payload itself is opaque to this crate; an embedding supplies the
//! HTTP server, the JSON codec and the backend engine around it.

pub mod auth;
pub mod encoder;
pub mod message;
pub mod queue;
pub mod sse;
pub mod store;
pub mod streamable;
pub mod text;

pub use auth::AuthorizationHeader;
