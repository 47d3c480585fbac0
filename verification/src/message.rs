//! The transport's view of a JSON-RPC message: an opaque tagged union
//! of four kinds. The payload type is a parameter — the embedding
//! instantiates it with its own decoded message type — and the only
//! structure the transport reads is the tag and, for a request,
//! whether it is the initialize request.

use vstd::prelude::*;

verus! {

/// One client message, as classified by the embedding's codec.
pub enum Incoming<T> {
    /// A request expecting correlated responses; `initialize` marks
    /// the protocol's session-opening request.
    Request { initialize: bool, payload: T },
    /// A fire-and-forget notification.
    Notification { payload: T },
    /// A response to a server-initiated request.
    Response { payload: T },
    /// An error reply to a server-initiated request.
    ErrorReply { payload: T },
}

impl<T> Incoming<T> {
    pub open spec fn is_request(self) -> bool {
        self is Request
    }

    pub open spec fn is_initialize(self) -> bool {
        match self {
            Incoming::Request { initialize, .. } => initialize,
            _ => false,
        }
    }
}

} // verus!
