//! The blackhole outbound: refuses every stream it is asked to handle.
use vstd::prelude::*;

use crate::proxy::{HandlerError, OutboundConnect};

verus! {

/// The drop handler. It never dials and never yields an upstream stream.
pub struct Handler;

impl Handler {
    /// The drop handler asks the framework to pre-dial nothing.
    pub fn connect_addr(&self) -> (r: Option<OutboundConnect>)
        ensures
            r is None,
    {
        None
    }

    /// Handling always fails with `Dropped`, whatever the session.
    pub fn handle(&self) -> (r: Result<(), HandlerError>)
        ensures
            r == Result::<(), HandlerError>::Err(HandlerError::Dropped),
    {
        Err(HandlerError::Dropped)
    }
}

} // verus!
