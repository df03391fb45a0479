//! The internal events the websocket sink raises; the log and metric
//! emission around them stays outside the library.

use vstd::prelude::*;

verus! {

/// One message went out; `byte_size` feeds the processed-bytes counter.
#[derive(Debug, PartialEq, Eq)]
pub struct WebSocketEventSendSuccess {
    pub byte_size: usize,
}

impl WebSocketEventSendSuccess {
    /// By how much the processed-bytes counter grows for this event.
    pub fn processed_bytes(&self) -> (r: u64)
        ensures
            r == self.byte_size as u64,
    {
        self.byte_size as u64
    }
}

/// Sending one message failed.
#[derive(Debug, PartialEq, Eq)]
pub struct WebSocketEventSendFail<E> {
    pub error: E,
}

impl<E> WebSocketEventSendFail<E> {
    /// By how much the send-errors counter grows for this event.
    pub fn error_count(&self) -> (r: u64)
        ensures
            r == 1,
    {
        1
    }
}

} // verus!
