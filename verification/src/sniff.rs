//! TLS server-name sniffing: recognizing a ClientHello in the first bytes
//! of an inbound stream and recovering the SNI hostname, plus the replay
//! buffer that lets the wrapped stream re-deliver the peeked prefix.
//!
//! The recognizer answers one of three ways: the hostname when the record
//! is a ClientHello carrying one, nothing for non-TLS traffic or a hello
//! without a server name, and an error for a malformed record.
use vstd::prelude::*;

use vstd::slice::{slice_index_get, slice_subrange};

use crate::text::ascii_chars;

verus! {

/// The first record was malformed: the flow is aborted without a fallback.
#[derive(Clone, Copy, PartialEq, Eq, Structural, Debug)]
pub struct SniffError;

/// A 16-bit big-endian quantity at offset `i`.
pub open spec fn be16(b: Seq<u8>, i: int) -> int {
    (b[i] as int) * 256 + (b[i + 1] as int)
}

/// What sniffing a byte prefix yields: `Err` for a malformed record,
/// `Ok(None)` for non-TLS or SNI-less traffic, `Ok(Some(name))` for a
/// ClientHello carrying a server name (which must be ASCII).
pub open spec fn spec_sniff(b: Seq<u8>) -> Result<Option<Seq<char>>, ()> {
    if b.len() < 5 {
        Err(())
    } else if b[0] != 22 {
        Ok(None)
    } else {
        let rec_len = be16(b, 3);
        if b.len() < 5 + rec_len {
            Err(())
        } else {
            spec_sniff_handshake(b.subrange(5, 5 + rec_len))
        }
    }
}

/// Reads the handshake message inside the record: anything but a
/// ClientHello carries no server name.
pub open spec fn spec_sniff_handshake(h: Seq<u8>) -> Result<Option<Seq<char>>, ()> {
    if h.len() < 4 {
        Err(())
    } else if h[0] != 1 {
        Ok(None)
    } else {
        let body_len = (h[1] as int) * 65536 + (h[2] as int) * 256 + (h[3] as int);
        if h.len() < 4 + body_len {
            Err(())
        } else {
            spec_sniff_hello_body(h.subrange(4, 4 + body_len))
        }
    }
}

/// Walks the ClientHello body — version, random, session id, cipher
/// suites, compression methods — to its extension block.
pub open spec fn spec_sniff_hello_body(d: Seq<u8>) -> Result<Option<Seq<char>>, ()> {
    if d.len() < 35 {
        Err(())
    } else {
        let p1 = 35 + (d[34] as int);
        if d.len() < p1 + 2 {
            Err(())
        } else {
            let p2 = p1 + 2 + be16(d, p1);
            if d.len() < p2 + 1 {
                Err(())
            } else {
                let p3 = p2 + 1 + (d[p2] as int);
                if d.len() < p3 + 2 {
                    Err(())
                } else {
                    let ext_len = be16(d, p3);
                    if d.len() < p3 + 2 + ext_len {
                        Err(())
                    } else {
                        spec_sniff_extensions(d.subrange(p3 + 2, p3 + 2 + ext_len))
                    }
                }
            }
        }
    }
}

/// Walks the extensions in order; the server-name extension decides, and a
/// hello whose extensions run out carries no server name.
pub open spec fn spec_sniff_extensions(e: Seq<u8>) -> Result<Option<Seq<char>>, ()>
    decreases e.len(),
{
    if e.len() == 0 {
        Ok(None)
    } else if e.len() < 4 {
        Err(())
    } else {
        let ty = be16(e, 0);
        let elen = be16(e, 2);
        if e.len() < 4 + elen {
            Err(())
        } else if ty == 0 {
            spec_sniff_server_name(e.subrange(4, 4 + elen))
        } else {
            spec_sniff_extensions(e.skip(4 + elen))
        }
    }
}

/// Reads the first entry of the server-name list: a hostname entry yields
/// its ASCII name.
pub open spec fn spec_sniff_server_name(s: Seq<u8>) -> Result<Option<Seq<char>>, ()> {
    if s.len() < 5 {
        Err(())
    } else if s[2] != 0 {
        Ok(None)
    } else {
        let nlen = be16(s, 3);
        if s.len() < 5 + nlen {
            Err(())
        } else {
            let name = s.subrange(5, 5 + nlen);
            if forall|i: int| 0 <= i < name.len() ==> name[i] < 0x80 {
                Ok(Some(ascii_chars(name)))
            } else {
                Err(())
            }
        }
    }
}

fn be16_at(b: &[u8], i: usize) -> (r: usize)
    requires
        i + 2 <= b@.len(),
    ensures
        r == be16(b@, i as int),
        r < 65536,
{
    let l = b.len();
    (*slice_index_get(b, i) as usize) * 256 + (*slice_index_get(b, i + 1) as usize)
}

/// Recognizes a TLS ClientHello in a peeked byte prefix and extracts the
/// SNI hostname: the name when one is present, nothing for non-TLS or
/// SNI-less traffic, an error for a malformed record.
pub fn extract_sni(b: &[u8]) -> (r: Result<Option<String>, SniffError>)
    ensures
        (r is Err) <==> (spec_sniff(b@) is Err),
        (r matches Ok(s) && s is Some) <==> (spec_sniff(b@) matches Ok(n) && n is Some),
        r matches Ok(Some(s)) ==> (spec_sniff(b@) matches Ok(Some(n)) && s@ =~= n),
{
    if b.len() < 5 {
        return Err(SniffError);
    }
    if *slice_index_get(b, 0) != 22 {
        return Ok(None);
    }
    let rec_len = be16_at(b, 3);
    if b.len() < 5 + rec_len {
        return Err(SniffError);
    }
    let h = slice_subrange(b, 5, 5 + rec_len);

    if h.len() < 4 {
        return Err(SniffError);
    }
    if *slice_index_get(h, 0) != 1 {
        return Ok(None);
    }
    let body_len = (*slice_index_get(h, 1) as usize) * 65536 + (*slice_index_get(h, 2) as usize)
        * 256 + (*slice_index_get(h, 3) as usize);
    if h.len() < 4 + body_len {
        return Err(SniffError);
    }
    let d = slice_subrange(h, 4, 4 + body_len);

    if d.len() < 35 {
        return Err(SniffError);
    }
    let p1 = 35 + (*slice_index_get(d, 34) as usize);
    if d.len() < p1 + 2 {
        return Err(SniffError);
    }
    let p2 = p1 + 2 + be16_at(d, p1);
    if d.len() < p2 + 1 {
        return Err(SniffError);
    }
    let p3 = p2 + 1 + (*slice_index_get(d, p2) as usize);
    if d.len() < p3 + 2 {
        return Err(SniffError);
    }
    let ext_len = be16_at(d, p3);
    if d.len() < p3 + 2 + ext_len {
        return Err(SniffError);
    }
    let mut e = slice_subrange(d, p3 + 2, p3 + 2 + ext_len);

    while e.len() > 0
        invariant
            spec_sniff(b@) == spec_sniff_extensions(e@),
        decreases e@.len(),
    {
        if e.len() < 4 {
            return Err(SniffError);
        }
        let ty = be16_at(e, 0);
        let elen = be16_at(e, 2);
        if e.len() < 4 + elen {
            return Err(SniffError);
        }
        if ty == 0 {
            let s = slice_subrange(e, 4, 4 + elen);
            if s.len() < 5 {
                return Err(SniffError);
            }
            if *slice_index_get(s, 2) != 0 {
                return Ok(None);
            }
            let nlen = be16_at(s, 3);
            if s.len() < 5 + nlen {
                return Err(SniffError);
            }
            let name = slice_subrange(s, 5, 5 + nlen);
            match crate::text::ascii_to_string(name) {
                Some(host) => {
                    return Ok(Some(host));
                },
                None => {
                    return Err(SniffError);
                },
            }
        } else {
            let rest = slice_subrange(e, 4 + elen, e.len());
            proof {
                assert(rest@ =~= e@.skip(4 + elen as int));
            }
            e = rest;
        }
    }
    Ok(None)
}

/// The peek-and-replay state of a sniffing stream: the peeked prefix must
/// be re-delivered, in order, before the underlying stream is read again.
pub struct ReplayBuffer {
    data: Vec<u8>,
    pos: usize,
}

impl ReplayBuffer {
    /// The peeked bytes not yet re-delivered.
    pub closed spec fn remaining(&self) -> Seq<u8> {
        self.data@.skip(self.pos as int)
    }

    /// The replay position stays inside the peeked bytes.
    pub closed spec fn wf(&self) -> bool {
        self.pos <= self.data@.len()
    }

    /// A replay buffer holding a peeked prefix, none of it delivered yet.
    pub fn new(data: Vec<u8>) -> (r: Self)
        ensures
            r.wf(),
            r.remaining() =~= data@,
    {
        ReplayBuffer { data, pos: 0 }
    }

    /// Whether every peeked byte has been re-delivered.
    pub fn exhausted(&self) -> (b: bool)
        requires
            self.wf(),
        ensures
            b == (self.remaining().len() == 0),
    {
        self.pos == self.data.len()
    }

    /// Re-delivers up to `max` of the remaining peeked bytes, in order.
    pub fn read(&mut self, max: usize) -> (r: Vec<u8>)
        requires
            old(self).wf(),
        ensures
            final(self).wf(),
            r@.len() == (if max <= old(self).remaining().len() {
                max as int
            } else {
                old(self).remaining().len() as int
            }),
            r@ =~= old(self).remaining().take(r@.len() as int),
            final(self).remaining() =~= old(self).remaining().skip(r@.len() as int),
    {
        let avail = self.data.len() - self.pos;
        let n = if max <= avail {
            max
        } else {
            avail
        };
        let mut out: Vec<u8> = Vec::new();
        let mut i: usize = 0;
        while i < n
            invariant
                self.wf(),
                self.data@.len() <= usize::MAX,
                self.pos + n <= self.data@.len(),
                i <= n,
                out@ =~= self.data@.subrange(self.pos as int, self.pos + i as int),
            decreases n - i,
        {
            let b = self.data[self.pos + i];
            out.push(b);
            proof {
                assert(out@ =~= self.data@.subrange(self.pos as int, self.pos + (i + 1) as int));
            }
            i += 1;
        }
        self.pos = self.pos + n;
        proof {
            assert(out@ =~= old(self).remaining().take(n as int));
            assert(self.remaining() =~= old(self).remaining().skip(n as int));
        }
        out
    }
}

} // verus!
