//! The round-robin outbound for datagrams: the same rotating cursor as its
//! stream counterpart, with the datagram handler surface.
use vstd::prelude::*;

use crate::proxy::{DatagramTransportType, OutboundConnect};

verus! {

/// The round-robin handler: the tags of its inner handlers and the cursor
/// of the next one to use.
pub struct Handler {
    pub actors: Vec<String>,
    pub next: usize,
}

impl Handler {
    /// The index the next invocation will use.
    pub open spec fn cursor(&self) -> usize {
        self.next
    }

    /// The cursor stays below the number of inner handlers.
    pub open spec fn wf(&self) -> bool {
        self.cursor() < self.actors@.len()
    }

    /// A fresh handler whose cursor starts at the first inner handler.
    pub fn new(actors: Vec<String>) -> (r: Self)
        requires
            actors@.len() > 0,
        ensures
            r.wf(),
            r.cursor() == 0,
            r.actors@ == actors@,
    {
        Handler { actors, next: 0 }
    }

    /// A composed handler dials through its chosen inner handler, so it
    /// asks the framework to pre-dial nothing.
    pub fn connect_addr(&self) -> (r: Option<OutboundConnect>)
        ensures
            r is None,
    {
        None
    }

    /// A composed handler does not constrain its lower transport.
    pub fn transport_type(&self) -> (r: DatagramTransportType)
        ensures
            r == DatagramTransportType::Undefined,
    {
        DatagramTransportType::Undefined
    }

    /// Picks the inner handler for one invocation — the one under the
    /// cursor — and advances the cursor by one, wrapping after the last.
    pub fn select(&mut self) -> (i: usize)
        requires
            old(self).wf(),
        ensures
            final(self).wf(),
            final(self).actors@ == old(self).actors@,
            i == old(self).cursor(),
            i < old(self).actors@.len(),
            final(self).cursor() == (if i + 1 >= old(self).actors@.len() {
                0int
            } else {
                i + 1
            }),
    {
        let current = self.next;
        let next = if current >= self.actors.len() - 1 {
            0
        } else {
            current + 1
        };
        self.next = next;
        current
    }
}

} // verus!
