//! The null outbound for datagrams: a configurable refusal. Unlike the
//! blackhole it carries a pre-dial hint and a transport type, so the
//! framework's dialing machinery still runs before the refusal.
use vstd::prelude::*;

use crate::proxy::{DatagramTransportType, HandlerError, OutboundConnect};

verus! {

/// The null handler: refuses every datagram flow after exposing its
/// configured pre-dial hint and transport type.
pub struct Handler {
    pub connect: Option<OutboundConnect>,
    pub transport_type: DatagramTransportType,
}

impl Handler {
    /// The configured pre-dial hint, if any.
    pub fn connect_addr(&self) -> (r: Option<OutboundConnect>)
        ensures
            (r is Some) == (self.connect is Some),
            r matches Some(c) ==> self.connect matches Some(c0) && c.address@ == c0.address@
                && c.port == c0.port,
    {
        match &self.connect {
            None => None,
            Some(c) => Some(OutboundConnect { address: c.address.clone(), port: c.port }),
        }
    }

    /// The configured lower transport type.
    pub fn transport_type(&self) -> (r: DatagramTransportType)
        ensures
            r == self.transport_type,
    {
        self.transport_type
    }

    /// Handling always fails with `NullHandler`, whatever the session.
    pub fn handle(&self) -> (r: Result<(), HandlerError>)
        ensures
            r == Result::<(), HandlerError>::Err(HandlerError::NullHandler),
    {
        Err(HandlerError::NullHandler)
    }
}

} // verus!
