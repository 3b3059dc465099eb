//! Tunable constants and the selection logic of the configuration surface.
//! Reading the process environment is the caller's affair; the parsing of a
//! raw value and the fall-back to the default are verified here.
use vstd::prelude::*;

use vstd::string::StringExecFns;

verus! {

/// Seconds of uplink grace after downlink end of stream.
pub const DEFAULT_TCP_UPLINK_TIMEOUT: u64 = 2;

/// Seconds of downlink grace after uplink end of stream.
pub const DEFAULT_TCP_DOWNLINK_TIMEOUT: u64 = 4;

/// Kilobytes of buffer per relay direction.
pub const DEFAULT_LINK_BUFFER_SIZE: usize = 2;

/// Parallel dial fan-out for outbound connects.
pub const DEFAULT_OUTBOUND_DIAL_CONCURRENCY: usize = 1;

/// Seconds without activity after which a UDP session is swept.
pub const UDP_SESSION_TIMEOUT: u64 = 30;

/// Seconds between sweeps for idle UDP sessions.
pub const UDP_SESSION_TIMEOUT_CHECK_INTERVAL: u64 = 10;

/// Most attempts the built-in DNS client makes for one query.
pub const MAX_DNS_RETRIES: usize = 4;

/// Seconds before one DNS query attempt is abandoned.
pub const DNS_TIMEOUT: u64 = 4;

/// Number of bytes a relay's link buffer occupies for a configured size in
/// kilobytes.
pub fn link_buffer_bytes(kb: usize) -> (r: usize)
    requires
        kb * 1024 <= usize::MAX,
    ensures
        r == kb * 1024,
{
    kb * 1024
}

/// The value a sequence of decimal digits denotes, when it is one and fits
/// in 64 bits.
pub open spec fn spec_parse_u64(s: Seq<char>) -> Option<u64>
    decreases s.len(),
{
    if s.len() == 0 {
        None
    } else if !('0' <= s.last() <= '9') {
        None
    } else if s.len() == 1 {
        Some((s.last() as u64 - '0' as u64) as u64)
    } else {
        match spec_parse_u64(s.drop_last()) {
            None => None,
            Some(high) => {
                let v = high * 10 + (s.last() as int - '0' as int);
                if v <= u64::MAX {
                    Some(v as u64)
                } else {
                    None
                }
            },
        }
    }
}

/// Parses a plain decimal numeral: every character a digit, the value
/// within 64 bits; anything else is rejected.
pub fn parse_u64(s: &str) -> (r: Option<u64>)
    ensures
        r == spec_parse_u64(s@),
{
    let n = s.unicode_len();
    let mut i: usize = 0;
    let mut acc: u64 = 0;
    let mut ok: bool = true;
    while i < n
        invariant
            n == s@.len(),
            i <= n,
            ok ==> Some(acc) == spec_parse_u64(s@.take(i as int)) || (i == 0 && acc == 0),
            ok && i > 0 ==> Some(acc) == spec_parse_u64(s@.take(i as int)),
            !ok ==> spec_parse_u64(s@) is None,
        decreases n - i,
    {
        let c = s.get_char(i);
        proof {
            assert(s@.take(i + 1 as int).drop_last() =~= s@.take(i as int));
            assert(s@.take(i + 1 as int).last() == s@[i as int]);
        }
        if ok {
            if c < '0' || c > '9' {
                proof {
                    lemma_parse_prefix_none(s@, i + 1 as int);
                }
                ok = false;
            } else {
                let d = (c as u32) as u64 - 48;
                if acc > (u64::MAX - d) / 10 {
                    proof {
                        lemma_parse_prefix_none(s@, i + 1 as int);
                    }
                    ok = false;
                } else {
                    acc = acc * 10 + d;
                }
            }
        }
        i += 1;
    }
    if ok && n > 0 {
        proof {
            assert(s@.take(n as int) =~= s@);
        }
        Some(acc)
    } else {
        proof {
            if n == 0 {
                assert(spec_parse_u64(s@) is None);
            }
        }
        None
    }
}

/// Once some prefix of the numeral fails to parse, the whole numeral fails.
proof fn lemma_parse_prefix_none(s: Seq<char>, i: int)
    requires
        0 < i <= s.len(),
        spec_parse_u64(s.take(i)) is None,
    ensures
        spec_parse_u64(s) is None,
    decreases s.len() - i,
{
    if i == s.len() {
        assert(s.take(i) =~= s);
    } else {
        assert(s.take(i + 1).drop_last() =~= s.take(i));
        lemma_parse_prefix_none(s, i + 1);
    }
}

/// A tunable read from a raw environment value: the parsed number when the
/// value is a plain decimal numeral, else the default.
pub fn env_u64(raw: Option<String>, default: u64) -> (r: u64)
    ensures
        match raw {
            Some(s) => r == (match spec_parse_u64(s@) {
                Some(v) => v,
                None => default,
            }),
            None => r == default,
        },
{
    match raw {
        Some(s) => match parse_u64(s.as_str()) {
            Some(v) => v,
            None => default,
        },
        None => default,
    }
}

/// A boolean tunable read from a raw environment value: `true` or `false`
/// spelled exactly; anything else falls back to the default.
pub fn env_bool(raw: Option<String>, default: bool) -> (r: bool)
    ensures
        match raw {
            Some(s) => r == (if s@ =~= seq!['t', 'r', 'u', 'e'] {
                true
            } else if s@ =~= seq!['f', 'a', 'l', 's', 'e'] {
                false
            } else {
                default
            }),
            None => r == default,
        },
{
    proof {
        reveal_strlit("true");
        reveal_strlit("false");
    }
    let t = String::from_str("true");
    let f = String::from_str("false");
    proof {
        assert(t@ =~= seq!['t', 'r', 'u', 'e']);
        assert(f@ =~= seq!['f', 'a', 'l', 's', 'e']);
    }
    match raw {
        Some(s) => {
            if s.eq(&t) {
                true
            } else if s.eq(&f) {
                false
            } else {
                default
            }
        },
        None => default,
    }
}

/// The default bind address: the IPv6 wildcard when IPv6 is enabled, else
/// the IPv4 wildcard, both with an ephemeral port.
pub fn unspecified_bind_addr(enable_ipv6: bool) -> (r: String)
    ensures
        enable_ipv6 ==> r@ =~= seq!['[', ':', ':', ']', ':', '0'],
        !enable_ipv6 ==> r@ =~= seq!['0', '.', '0', '.', '0', '.', '0', ':', '0'],
{
    proof {
        reveal_strlit("[::]:0");
        reveal_strlit("0.0.0.0:0");
    }
    if enable_ipv6 {
        String::from_str("[::]:0")
    } else {
        String::from_str("0.0.0.0:0")
    }
}

} // verus!
