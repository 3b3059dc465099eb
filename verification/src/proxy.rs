//! The outbound handler composition layer: shared handler vocabulary and
//! the composed handlers (drop, null, random, retry, round-robin), each a
//! module of its own.
use vstd::prelude::*;

pub mod drop_tcp;
pub mod null_udp;
pub mod random_udp;
pub mod retry_udp;
pub mod rr_tcp;
pub mod rr_udp;

verus! {

/// The upstream endpoint the framework should pre-dial before handing
/// control to a handler. A handler whose hint is absent dials on its own.
#[derive(Clone, Debug)]
pub struct OutboundConnect {
    pub address: String,
    pub port: u16,
}

/// The lower transport a datagram handler expects.
#[derive(Clone, Copy, PartialEq, Eq, Structural, Debug)]
pub enum DatagramTransportType {
    Stream,
    Packet,
    Undefined,
}

/// Why a composed handler refused or gave up on a flow.
#[derive(Clone, Copy, PartialEq, Eq, Structural, Debug)]
pub enum HandlerError {
    /// The blackhole route: always refused.
    Dropped,
    /// The null handler: configurable refusal.
    NullHandler,
    /// Every pass of a retry traversal failed.
    AllAttemptsFailed,
}

impl HandlerError {
    /// The text of the failure.
    pub open spec fn spec_message(&self) -> Seq<char> {
        match self {
            HandlerError::Dropped => seq!['d', 'r', 'o', 'p', 'p', 'e', 'd'],
            HandlerError::NullHandler => seq![
                'n',
                'u',
                'l',
                'l',
                ' ',
                'h',
                'a',
                'n',
                'd',
                'l',
                'e',
                'r',
            ],
            HandlerError::AllAttemptsFailed => seq![
                'a',
                'l',
                'l',
                ' ',
                'a',
                't',
                't',
                'e',
                'm',
                'p',
                't',
                's',
                ' ',
                'f',
                'a',
                'i',
                'l',
                'e',
                'd',
            ],
        }
    }

    /// The text of the failure.
    pub fn message(&self) -> (r: String)
        ensures
            r@ =~= self.spec_message(),
    {
        proof {
            reveal_strlit("dropped");
            reveal_strlit("null handler");
            reveal_strlit("all attempts failed");
        }
        match self {
            HandlerError::Dropped => "dropped".to_owned(),
            HandlerError::NullHandler => "null handler".to_owned(),
            HandlerError::AllAttemptsFailed => "all attempts failed".to_owned(),
        }
    }
}

} // verus!
