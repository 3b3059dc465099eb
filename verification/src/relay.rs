//! Two-way relay: two single-direction copies multiplexed over a pair of
//! duplex peers, with independent per-direction half-close timers.
//!
//! Each direction walks `Running -> ShuttingDown -> Done`. When one
//! direction completes its shutdown, the opposite direction's idle timer is
//! armed; a timer firing while its direction still runs promotes that
//! direction straight to shutdown with whatever it transferred so far. The
//! relay is finished when both directions are done.
use vstd::prelude::*;

use crate::copy::CopyBuffer;

verus! {

/// One of the two copy directions. With peers A and B, `AToB` is the uplink
/// and `BToA` the downlink.
#[derive(Clone, Copy, PartialEq, Eq, Structural, Debug)]
pub enum Direction {
    AToB,
    BToA,
}

/// The opposite direction.
pub open spec fn opp(d: Direction) -> Direction {
    match d {
        Direction::AToB => Direction::BToA,
        Direction::BToA => Direction::AToB,
    }
}

impl Direction {
    /// The opposite direction.
    pub fn opposite(self) -> (r: Direction)
        ensures
            r == opp(self),
    {
        match self {
            Direction::AToB => Direction::BToA,
            Direction::BToA => Direction::AToB,
        }
    }
}

/// One direction's lifecycle: copying, waiting for the peer's shutdown with
/// the copied total in hand, or finished.
pub enum TransferState {
    Running(CopyBuffer),
    ShuttingDown(u64),
    Done,
}

/// The lifecycle stage alone, for drivers to branch on.
#[derive(Clone, Copy, PartialEq, Eq, Structural, Debug)]
pub enum TransferPhase {
    Running,
    ShuttingDown,
    Done,
}

/// The two-way relay state: a transfer state, a completed-bytes counter and
/// an idle-timer flag per direction, and the two grace timeouts.
pub struct CopyBidirectional {
    a_to_b: TransferState,
    b_to_a: TransferState,
    a_to_b_count: u64,
    b_to_a_count: u64,
    a_to_b_delay: bool,
    b_to_a_delay: bool,
    uplink_timeout: u64,
    downlink_timeout: u64,
}

impl CopyBidirectional {
    /// The transfer state of a direction.
    pub closed spec fn transfer(&self, d: Direction) -> TransferState {
        match d {
            Direction::AToB => self.a_to_b,
            Direction::BToA => self.b_to_a,
        }
    }

    /// The direction is still copying.
    pub open spec fn running(&self, d: Direction) -> bool {
        self.transfer(d) is Running
    }

    /// The direction finished copying and awaits the peer's shutdown.
    pub open spec fn shutting_down(&self, d: Direction) -> bool {
        self.transfer(d) is ShuttingDown
    }

    /// The direction is finished.
    pub open spec fn done(&self, d: Direction) -> bool {
        self.transfer(d) is Done
    }

    /// The copy buffer of a running direction.
    pub open spec fn buffer(&self, d: Direction) -> CopyBuffer
        recommends
            self.running(d),
    {
        self.transfer(d)->Running_0
    }

    /// The byte total carried by a shutting-down direction.
    pub open spec fn shutdown_amount(&self, d: Direction) -> u64
        recommends
            self.shutting_down(d),
    {
        self.transfer(d)->ShuttingDown_0
    }

    /// The completed-bytes counter of a direction; written once, when the
    /// direction's shutdown resolves.
    pub closed spec fn count(&self, d: Direction) -> u64 {
        match d {
            Direction::AToB => self.a_to_b_count,
            Direction::BToA => self.b_to_a_count,
        }
    }

    /// Whether the direction's idle timer is armed. A direction's timer is
    /// armed by the opposite direction completing its shutdown.
    pub closed spec fn delay_armed(&self, d: Direction) -> bool {
        match d {
            Direction::AToB => self.a_to_b_delay,
            Direction::BToA => self.b_to_a_delay,
        }
    }

    /// The grace timeout of a direction, in seconds: how long the direction
    /// may keep copying after the opposite direction closed.
    pub closed spec fn timeout(&self, d: Direction) -> u64 {
        match d {
            Direction::AToB => self.uplink_timeout,
            Direction::BToA => self.downlink_timeout,
        }
    }

    /// Well-formed relay: running buffers are well-formed and a counter is
    /// written only by its direction's completed shutdown.
    pub closed spec fn wf(&self) -> bool {
        &&& (self.a_to_b matches TransferState::Running(b) ==> b.wf())
        &&& (self.b_to_a matches TransferState::Running(b) ==> b.wf())
        &&& (!self.done(Direction::AToB) ==> self.a_to_b_count == 0)
        &&& (!self.done(Direction::BToA) ==> self.b_to_a_count == 0)
    }

    /// A fresh relay: both directions running on buffers of the given size,
    /// counters zero, no timer armed.
    pub fn new(size: usize, uplink_timeout_secs: u64, downlink_timeout_secs: u64) -> (r: Self)
        ensures
            r.wf(),
            r.running(Direction::AToB),
            r.running(Direction::BToA),
            r.buffer(Direction::AToB).capacity() == size,
            r.buffer(Direction::BToA).capacity() == size,
            r.buffer(Direction::AToB).consumed() =~= Seq::<u8>::empty(),
            r.buffer(Direction::BToA).consumed() =~= Seq::<u8>::empty(),
            r.count(Direction::AToB) == 0,
            r.count(Direction::BToA) == 0,
            !r.delay_armed(Direction::AToB),
            !r.delay_armed(Direction::BToA),
            r.timeout(Direction::AToB) == uplink_timeout_secs,
            r.timeout(Direction::BToA) == downlink_timeout_secs,
    {
        CopyBidirectional {
            a_to_b: TransferState::Running(CopyBuffer::new_with_capacity(size)),
            b_to_a: TransferState::Running(CopyBuffer::new_with_capacity(size)),
            a_to_b_count: 0,
            b_to_a_count: 0,
            a_to_b_delay: false,
            b_to_a_delay: false,
            uplink_timeout: uplink_timeout_secs,
            downlink_timeout: downlink_timeout_secs,
        }
    }

    /// The lifecycle stage of a direction.
    pub fn phase(&self, d: Direction) -> (p: TransferPhase)
        ensures
            p is Running <==> self.running(d),
            p is ShuttingDown <==> self.shutting_down(d),
            p is Done <==> self.done(d),
    {
        let t = match d {
            Direction::AToB => &self.a_to_b,
            Direction::BToA => &self.b_to_a,
        };
        match t {
            TransferState::Running(_) => TransferPhase::Running,
            TransferState::ShuttingDown(_) => TransferPhase::ShuttingDown,
            TransferState::Done => TransferPhase::Done,
        }
    }

    /// Whether the direction's idle timer is armed.
    pub fn delay_is_armed(&self, d: Direction) -> (b: bool)
        ensures
            b == self.delay_armed(d),
    {
        match d {
            Direction::AToB => self.a_to_b_delay,
            Direction::BToA => self.b_to_a_delay,
        }
    }

    /// The direction's grace timeout, in seconds.
    pub fn timeout_secs(&self, d: Direction) -> (r: u64)
        ensures
            r == self.timeout(d),
    {
        match d {
            Direction::AToB => self.uplink_timeout,
            Direction::BToA => self.downlink_timeout,
        }
    }

    /// Mutable access to the copy buffer of a running direction, for the
    /// caller to drive reads and writes through.
    pub fn buffer_mut(&mut self, d: Direction) -> (r: &mut CopyBuffer)
        requires
            old(self).running(d),
        ensures
            *r == old(self).buffer(d),
            final(self).transfer(d) == TransferState::Running(*final(r)),
            final(self).transfer(opp(d)) == old(self).transfer(opp(d)),
            final(self).count(Direction::AToB) == old(self).count(Direction::AToB),
            final(self).count(Direction::BToA) == old(self).count(Direction::BToA),
            final(self).delay_armed(Direction::AToB) == old(self).delay_armed(Direction::AToB),
            final(self).delay_armed(Direction::BToA) == old(self).delay_armed(Direction::BToA),
            final(self).timeout(Direction::AToB) == old(self).timeout(Direction::AToB),
            final(self).timeout(Direction::BToA) == old(self).timeout(Direction::BToA),
            old(self).wf() && final(r).wf() ==> final(self).wf(),
    {
        match d {
            Direction::AToB => match &mut self.a_to_b {
                TransferState::Running(b) => b,
                _ => vstd::pervasive::unreached(),
            },
            Direction::BToA => match &mut self.b_to_a {
                TransferState::Running(b) => b,
                _ => vstd::pervasive::unreached(),
            },
        }
    }

    /// The direction's copy saw end of input and completed (its buffer
    /// drained and the final flush succeeded): move to `ShuttingDown` with
    /// the copied total, which is also returned so the caller can add it to
    /// a shared statistics counter (uplink for `AToB`, downlink for `BToA`).
    pub fn on_copy_eof(&mut self, d: Direction) -> (n: u64)
        requires
            old(self).wf(),
            old(self).running(d),
            old(self).buffer(d).eof_seen(),
            old(self).buffer(d).pending().len() == 0,
        ensures
            final(self).wf(),
            n == old(self).buffer(d).amount(),
            n as nat == old(self).buffer(d).consumed().len(),
            final(self).transfer(d) == TransferState::ShuttingDown(n),
            final(self).transfer(opp(d)) == old(self).transfer(opp(d)),
            final(self).count(Direction::AToB) == old(self).count(Direction::AToB),
            final(self).count(Direction::BToA) == old(self).count(Direction::BToA),
            final(self).delay_armed(Direction::AToB) == old(self).delay_armed(Direction::AToB),
            final(self).delay_armed(Direction::BToA) == old(self).delay_armed(Direction::BToA),
            final(self).timeout(Direction::AToB) == old(self).timeout(Direction::AToB),
            final(self).timeout(Direction::BToA) == old(self).timeout(Direction::BToA),
    {
        let n = match d {
            Direction::AToB => match &self.a_to_b {
                TransferState::Running(b) => b.finish(),
                _ => vstd::pervasive::unreached(),
            },
            Direction::BToA => match &self.b_to_a {
                TransferState::Running(b) => b.finish(),
                _ => vstd::pervasive::unreached(),
            },
        };
        match d {
            Direction::AToB => {
                self.a_to_b = TransferState::ShuttingDown(n);
            },
            Direction::BToA => {
                self.b_to_a = TransferState::ShuttingDown(n);
            },
        }
        n
    }

    /// The direction's armed idle timer fired while it was still copying:
    /// promote it to `ShuttingDown` with whatever it transferred so far.
    pub fn on_timeout(&mut self, d: Direction)
        requires
            old(self).wf(),
            old(self).running(d),
            old(self).delay_armed(d),
        ensures
            final(self).wf(),
            final(self).transfer(d) == TransferState::ShuttingDown(
                old(self).buffer(d).amount(),
            ),
            final(self).transfer(opp(d)) == old(self).transfer(opp(d)),
            final(self).count(Direction::AToB) == old(self).count(Direction::AToB),
            final(self).count(Direction::BToA) == old(self).count(Direction::BToA),
            final(self).delay_armed(Direction::AToB) == old(self).delay_armed(Direction::AToB),
            final(self).delay_armed(Direction::BToA) == old(self).delay_armed(Direction::BToA),
            final(self).timeout(Direction::AToB) == old(self).timeout(Direction::AToB),
            final(self).timeout(Direction::BToA) == old(self).timeout(Direction::BToA),
    {
        let n = match d {
            Direction::AToB => match &self.a_to_b {
                TransferState::Running(b) => b.amount_transfered(),
                _ => vstd::pervasive::unreached(),
            },
            Direction::BToA => match &self.b_to_a {
                TransferState::Running(b) => b.amount_transfered(),
                _ => vstd::pervasive::unreached(),
            },
        };
        match d {
            Direction::AToB => {
                self.a_to_b = TransferState::ShuttingDown(n);
            },
            Direction::BToA => {
                self.b_to_a = TransferState::ShuttingDown(n);
            },
        }
    }

    /// The shutdown issued on the opposite peer's write half resolved: the
    /// direction is done, its total joins its counter, and the opposite
    /// direction's idle timer is armed — closing one direction bounds how
    /// long the other may linger.
    pub fn on_shutdown_ok(&mut self, d: Direction)
        requires
            old(self).wf(),
            old(self).shutting_down(d),
        ensures
            final(self).wf(),
            final(self).transfer(d) == TransferState::Done,
            final(self).count(d) == old(self).shutdown_amount(d),
            final(self).count(opp(d)) == old(self).count(opp(d)),
            final(self).transfer(opp(d)) == old(self).transfer(opp(d)),
            final(self).delay_armed(opp(d)),
            final(self).delay_armed(d) == old(self).delay_armed(d),
            final(self).timeout(Direction::AToB) == old(self).timeout(Direction::AToB),
            final(self).timeout(Direction::BToA) == old(self).timeout(Direction::BToA),
    {
        match d {
            Direction::AToB => {
                let n = match &self.a_to_b {
                    TransferState::ShuttingDown(n) => *n,
                    _ => vstd::pervasive::unreached(),
                };
                self.a_to_b_count = n;
                self.a_to_b = TransferState::Done;
                self.b_to_a_delay = true;
            },
            Direction::BToA => {
                let n = match &self.b_to_a {
                    TransferState::ShuttingDown(n) => *n,
                    _ => vstd::pervasive::unreached(),
                };
                self.b_to_a_count = n;
                self.b_to_a = TransferState::Done;
                self.a_to_b_delay = true;
            },
        }
    }

    /// Whether both directions are done, which ends the relay.
    pub fn both_done(&self) -> (b: bool)
        ensures
            b <==> (self.done(Direction::AToB) && self.done(Direction::BToA)),
    {
        let a = match &self.a_to_b {
            TransferState::Done => true,
            _ => false,
        };
        let b = match &self.b_to_a {
            TransferState::Done => true,
            _ => false,
        };
        a && b
    }

    /// The relay's result: bytes carried A to B, and bytes carried B to A.
    pub fn totals(&self) -> (r: (u64, u64))
        requires
            self.done(Direction::AToB),
            self.done(Direction::BToA),
        ensures
            r.0 == self.count(Direction::AToB),
            r.1 == self.count(Direction::BToA),
    {
        (self.a_to_b_count, self.b_to_a_count)
    }
}

} // verus!
