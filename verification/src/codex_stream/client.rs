//! The opening exchange of a connection.

use crate::codex_stream::proto::{Incoming, IncomingView};
use vstd::prelude::*;

verus! {

/// The number of a connection's opening request; those that follow count on from it.
pub const INITIALIZE_ID: i64 = 1;

/// What a message means to a connection that waits for the reply to its opening request.
#[derive(Debug, Clone, Copy, PartialEq, Eq, Structural)]
pub enum InitStep {
    /// It is not the reply: go on waiting.
    Wait,
    /// The server refused.
    Refused,
    /// The connection is open.
    Ready,
}

/// What a message means to a connection that waits for the reply to request `id`.
/// Whatever is not that reply is dropped.
pub fn initialize_step(id: i64, message: &Incoming) -> (r: InitStep)
    ensures
        r == (match message@ {
            IncomingView::Response { id: reply, result } => if reply != id {
                InitStep::Wait
            } else if result is Some {
                InitStep::Ready
            } else {
                InitStep::Refused
            },
            _ => InitStep::Wait,
        }),
{
    match message {
        Incoming::Response { id: reply, result } => if *reply != id {
            InitStep::Wait
        } else if result.is_some() {
            InitStep::Ready
        } else {
            InitStep::Refused
        },
        _ => InitStep::Wait,
    }
}

} // verus!
