//! The random outbound for datagrams: each invocation uniformly samples one
//! of the inner handlers, with a fresh entropy-seeded generator per call and
//! no state across calls, then delegates the flow to it.
use vstd::prelude::*;

use rand::rngs::StdRng;
use rand::{Rng, SeedableRng};

use crate::proxy::{DatagramTransportType, OutboundConnect};

verus! {

/// Relies on `rand`: `StdRng::from_entropy` seeds a fresh generator from the
/// operating system and `Rng::gen_range(0..n)` samples a value below `n`,
/// panicking only on an empty range. The sampled value depends on entropy,
/// so nothing beyond its bound is assumed.
#[verifier::external_body]
fn sample_below(n: usize) -> (r: usize)
    requires
        n > 0,
    ensures
        r < n,
{
    let mut rng = StdRng::from_entropy();
    rng.gen_range(0..n)
}

/// The random handler: the tags of its inner handlers, one of which each
/// invocation picks uniformly.
pub struct Handler {
    pub actors: Vec<String>,
}

impl Handler {
    /// A composed handler dials through its chosen inner handler, so it asks
    /// the framework to pre-dial nothing.
    pub fn connect_addr(&self) -> (r: Option<OutboundConnect>)
        ensures
            r is None,
    {
        None
    }

    /// A composed handler does not constrain its lower transport.
    pub fn transport_type(&self) -> (r: DatagramTransportType)
        ensures
            r == DatagramTransportType::Undefined,
    {
        DatagramTransportType::Undefined
    }

    /// Picks the inner handler for one invocation: a uniformly sampled
    /// index, independent of any earlier pick.
    pub fn pick(&self) -> (i: usize)
        requires
            self.actors@.len() > 0,
        ensures
            i < self.actors@.len(),
    {
        sample_below(self.actors.len())
    }
}

} // verus!
