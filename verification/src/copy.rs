//! Single-direction buffered copy: a state machine that pumps bytes from a
//! reader to a writer through a fixed buffer until the reader ends, then
//! flushes and reports the total.
//!
//! The machine owns the buffer and the bookkeeping; the caller performs the
//! actual reads, writes and flushes and feeds their outcomes back in. Ghost
//! logs of the bytes accepted from the reader and delivered to the writer
//! make the conservation contract exact: when the copy finishes, the two
//! logs are equal.
use vstd::prelude::*;

verus! {

/// What the copy needs next: fill the buffer, drain it, or flush and finish.
#[derive(Clone, Copy, PartialEq, Eq, Structural, Debug)]
pub enum CopyStep {
    /// The buffer is empty and end of input was not seen: read.
    Read,
    /// The buffer holds bytes: write them.
    Write,
    /// End of input was seen and the buffer drained: flush, then finish.
    FlushAndFinish,
}

/// A fatal condition inside the copy itself.
#[derive(Clone, Copy, PartialEq, Eq, Structural, Debug)]
pub enum CopyError {
    /// The writer accepted zero bytes while data was pending.
    WriteZero,
}

/// Per-direction copy state: a fixed-size buffer, the cursor pair delimiting
/// unwritten bytes, the end-of-input and unflushed-data flags, and the
/// running transferred-byte counter.
pub struct CopyBuffer {
    read_done: bool,
    need_flush: bool,
    pos: usize,
    cap: usize,
    amt: u64,
    buf: Vec<u8>,
    taken: Ghost<Seq<u8>>,
    given: Ghost<Seq<u8>>,
}

impl CopyBuffer {
    /// End of input was observed. Once set, never cleared.
    pub closed spec fn eof_seen(&self) -> bool {
        self.read_done
    }

    /// Bytes were written since the last flush.
    pub closed spec fn needs_flush(&self) -> bool {
        self.need_flush
    }

    /// The running transferred-byte counter.
    pub closed spec fn amount(&self) -> u64 {
        self.amt
    }

    /// Size of the byte buffer.
    pub closed spec fn capacity(&self) -> nat {
        self.buf@.len()
    }

    /// Bytes read but not yet written.
    pub closed spec fn pending(&self) -> Seq<u8> {
        self.buf@.subrange(self.pos as int, self.cap as int)
    }

    /// All bytes ever accepted from the reader.
    pub closed spec fn consumed(&self) -> Seq<u8> {
        self.taken@
    }

    /// All bytes ever confirmed written to the writer.
    pub closed spec fn delivered(&self) -> Seq<u8> {
        self.given@
    }

    /// Well-formed state: the cursors delimit a slice of the buffer, the
    /// consumed bytes are the delivered bytes followed by the pending ones,
    /// and the counter counts the delivered bytes.
    pub closed spec fn wf(&self) -> bool {
        &&& self.pos <= self.cap <= self.buf@.len()
        &&& self.taken@ == self.given@ + self.pending()
        &&& self.amt as nat == self.given@.len()
    }

    /// Copy conservation, at every step: what was accepted from the reader
    /// is exactly what was delivered to the writer followed by what is still
    /// pending in the buffer, and the counter counts the delivered bytes.
    pub proof fn lemma_conservation(&self)
        requires
            self.wf(),
        ensures
            self.consumed() =~= self.delivered() + self.pending(),
            self.amount() as nat == self.delivered().len(),
    {
    }

    /// A fresh copy buffer with the default two-kilobyte buffer.
    pub fn new() -> (r: Self)
        ensures
            r.wf(),
            r.capacity() == 2048,
            !r.eof_seen(),
            !r.needs_flush(),
            r.amount() == 0,
            r.pending() =~= Seq::<u8>::empty(),
            r.consumed() =~= Seq::<u8>::empty(),
            r.delivered() =~= Seq::<u8>::empty(),
    {
        Self::new_with_capacity(2 * 1024)
    }

    /// A fresh copy buffer with a buffer of the given size.
    pub fn new_with_capacity(size: usize) -> (r: Self)
        ensures
            r.wf(),
            r.capacity() == size,
            !r.eof_seen(),
            !r.needs_flush(),
            r.amount() == 0,
            r.pending() =~= Seq::<u8>::empty(),
            r.consumed() =~= Seq::<u8>::empty(),
            r.delivered() =~= Seq::<u8>::empty(),
    {
        let r = CopyBuffer {
            read_done: false,
            need_flush: false,
            pos: 0,
            cap: 0,
            amt: 0,
            buf: vec![0u8; size],
            taken: Ghost(Seq::empty()),
            given: Ghost(Seq::empty()),
        };
        proof {
            assert(r.pending() =~= Seq::<u8>::empty());
            assert(r.taken@ =~= r.given@ + r.pending());
        }
        r
    }

    /// The running total of bytes delivered to the writer.
    pub fn amount_transfered(&self) -> (r: u64)
        ensures
            r == self.amount(),
    {
        self.amt
    }

    /// Size of the byte buffer; an upper bound for a read chunk.
    pub fn buffer_capacity(&self) -> (r: usize)
        ensures
            r == self.capacity(),
    {
        self.buf.len()
    }

    /// What the copy needs next. Never asks for a read once end of input was
    /// seen, and never asks for a write with an empty buffer.
    pub fn next_step(&self) -> (s: CopyStep)
        requires
            self.wf(),
        ensures
            s is Read <==> (self.pending().len() == 0 && !self.eof_seen()),
            s is Write <==> self.pending().len() > 0,
            s is FlushAndFinish <==> (self.pending().len() == 0 && self.eof_seen()),
    {
        if self.pos == self.cap {
            if !self.read_done {
                CopyStep::Read
            } else {
                CopyStep::FlushAndFinish
            }
        } else {
            CopyStep::Write
        }
    }

    /// Accepts the outcome of a successful read: the chunk the reader
    /// produced, empty on end of input. The chunk becomes the pending bytes
    /// and joins the consumed log; an empty chunk records end of input.
    pub fn on_read(&mut self, chunk: &[u8])
        requires
            old(self).wf(),
            old(self).pending().len() == 0,
            !old(self).eof_seen(),
            chunk@.len() <= old(self).capacity(),
        ensures
            final(self).wf(),
            final(self).capacity() == old(self).capacity(),
            final(self).amount() == old(self).amount(),
            final(self).needs_flush() == old(self).needs_flush(),
            final(self).delivered() == old(self).delivered(),
            final(self).consumed() =~= old(self).consumed() + chunk@,
            final(self).eof_seen() == (chunk@.len() == 0),
            final(self).pending() =~= chunk@,
    {
        proof {
            assert(old(self).taken@ =~= old(self).given@);
        }
        if chunk.len() == 0 {
            self.read_done = true;
            proof {
                assert(self.pending() =~= Seq::<u8>::empty());
                assert(self.taken@ =~= self.taken@ + chunk@);
            }
        } else {
            let n = chunk.len();
            let mut i: usize = 0;
            while i < n
                invariant
                    n == chunk@.len(),
                    i <= n,
                    n <= self.buf@.len(),
                    self.buf@.len() == old(self).buf@.len(),
                    forall|j: int| 0 <= j < i ==> self.buf@[j] == chunk@[j],
                    self.read_done == old(self).read_done,
                    self.need_flush == old(self).need_flush,
                    self.pos == old(self).pos,
                    self.cap == old(self).cap,
                    self.amt == old(self).amt,
                    self.taken@ == old(self).taken@,
                    self.given@ == old(self).given@,
                decreases n - i,
            {
                let b = *vstd::slice::slice_index_get(chunk, i);
                *vstd::std_specs::vec::vec_index_mut(&mut self.buf, i) = b;
                i += 1;
            }
            self.pos = 0;
            self.cap = n;
            proof {
                self.taken@ = self.taken@ + chunk@;
            }
            proof {
                assert(self.pending() =~= chunk@);
                assert(self.taken@ =~= self.given@ + self.pending());
            }
        }
    }

    /// When a read would block: whether bytes the writer has buffered but
    /// not yet flushed must be flushed before the copy reports itself
    /// blocked. This prevents a stall in which the reader waits on bytes the
    /// writer holds unflushed.
    pub fn flush_before_pending(&self) -> (b: bool)
        ensures
            b == self.needs_flush(),
    {
        self.need_flush
    }

    /// Records that the flush driven on behalf of a blocked reader
    /// completed: no bytes are buffered unflushed any more.
    pub fn on_flush(&mut self)
        requires
            old(self).wf(),
        ensures
            final(self).wf(),
            !final(self).needs_flush(),
            final(self).capacity() == old(self).capacity(),
            final(self).amount() == old(self).amount(),
            final(self).eof_seen() == old(self).eof_seen(),
            final(self).pending() == old(self).pending(),
            final(self).consumed() == old(self).consumed(),
            final(self).delivered() == old(self).delivered(),
    {
        self.need_flush = false;
    }

    /// The bytes to hand to the writer: the pending slice of the buffer.
    pub fn write_chunk(&self) -> (r: Vec<u8>)
        requires
            self.wf(),
        ensures
            r@ =~= self.pending(),
    {
        let mut out: Vec<u8> = Vec::new();
        let mut i: usize = self.pos;
        while i < self.cap
            invariant
                self.wf(),
                self.pos <= i <= self.cap,
                out@ =~= self.buf@.subrange(self.pos as int, i as int),
            decreases self.cap - i,
        {
            let b = self.buf[i];
            out.push(b);
            proof {
                assert(out@ =~= self.buf@.subrange(self.pos as int, i + 1 as int));
            }
            i += 1;
        }
        out
    }

    /// Accepts the outcome of a write: the writer took `n` of the pending
    /// bytes. Zero is fatal (the writer accepts no progress and the copy
    /// must fail with `WriteZero`, leaving the state unchanged); otherwise
    /// the written prefix moves to the delivered log, the counter grows by
    /// `n`, and a flush becomes due.
    pub fn on_write(&mut self, n: usize) -> (r: Result<(), CopyError>)
        requires
            old(self).wf(),
            old(self).pending().len() > 0,
            n <= old(self).pending().len(),
            old(self).amount() + n <= u64::MAX,
        ensures
            final(self).wf(),
            final(self).capacity() == old(self).capacity(),
            final(self).eof_seen() == old(self).eof_seen(),
            final(self).consumed() == old(self).consumed(),
            n == 0 ==> (r matches Err(CopyError::WriteZero)) && *final(self) == *old(self),
            n > 0 ==> r is Ok && final(self).pending() =~= old(self).pending().skip(n as int)
                && final(self).delivered() =~= old(self).delivered() + old(self).pending().take(
                n as int,
            ) && final(self).amount() == old(self).amount() + n && final(self).needs_flush(),
    {
        if n == 0 {
            Err(CopyError::WriteZero)
        } else {
            proof {
                self.given@ = self.given@ + self.buf@.subrange(
                    self.pos as int,
                    self.pos + n as int,
                );
            }
            self.pos = self.pos + n;
            self.amt = self.amt + n as u64;
            self.need_flush = true;
            proof {
                assert(old(self).buf@.subrange(old(self).pos as int, old(self).cap as int) =~= old(
                    self,
                ).buf@.subrange(old(self).pos as int, old(self).pos + n as int) + old(
                    self,
                ).buf@.subrange(old(self).pos + n as int, old(self).cap as int));
                assert(final(self).pending() =~= old(self).pending().skip(n as int));
                assert(old(self).buf@.subrange(old(self).pos as int, old(self).pos + n as int)
                    =~= old(self).pending().take(n as int));
                assert(self.taken@ =~= self.given@ + self.pending());
            }
            Ok(())
        }
    }

    /// Completes the copy: end of input was seen, the buffer has drained,
    /// and the final flush succeeded. Returns the total, which counts
    /// exactly the consumed bytes — every byte accepted from the reader was
    /// delivered to the writer.
    pub fn finish(&self) -> (r: u64)
        requires
            self.wf(),
            self.eof_seen(),
            self.pending().len() == 0,
        ensures
            r == self.amount(),
            self.delivered() =~= self.consumed(),
            r as nat == self.consumed().len(),
    {
        proof {
            assert(self.consumed() =~= self.delivered());
        }
        self.amt
    }
}

} // verus!
