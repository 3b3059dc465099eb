//! Per-flow session data: the transport kind, socket addresses (as plain
//! values) and the tagged destination address, together with verified text
//! rendering for the access log.
use vstd::prelude::*;
use vstd::string::StringExecFns;
use vstd::utf8::encode_utf8;

use crate::text::{spec_dec, spec_hex, u64_to_dec, u64_to_hex};

verus! {

/// Transport of a flow.
#[derive(Clone, Copy, PartialEq, Eq, Structural, Debug)]
pub enum Network {
    Tcp,
    Udp,
}

/// An IP address held as plain values: four octets, or eight 16-bit groups.
#[derive(Clone, Copy, PartialEq, Eq, Structural, Debug)]
pub enum IpAddress {
    V4(u8, u8, u8, u8),
    V6(u16, u16, u16, u16, u16, u16, u16, u16),
}

/// Longest domain name a `SocksAddr` accepts, in bytes.
pub const MAX_DOMAIN_LEN: usize = 255;

/// A tagged destination address: an IP address with a port, or a domain name
/// with a port.
#[derive(Clone, Debug)]
pub enum SocksAddr {
    Ip(IpAddress, u16),
    Domain(String, u16),
}

/// Raised when a domain name is too long to form a `SocksAddr`.
#[derive(Clone, Copy, PartialEq, Eq, Structural, Debug)]
pub struct DomainTooLong;

/// The number of bytes the name occupies in its UTF-8 form.
pub open spec fn domain_byte_len(name: Seq<char>) -> nat {
    encode_utf8(name).len()
}

impl SocksAddr {
    /// A well-formed address: a held domain name fits in the length limit.
    pub open spec fn wf(&self) -> bool {
        match self {
            SocksAddr::Ip(_, _) => true,
            SocksAddr::Domain(name, _) => domain_byte_len(name@) <= MAX_DOMAIN_LEN,
        }
    }

    /// The port of the address.
    pub open spec fn spec_port(&self) -> u16 {
        match self {
            SocksAddr::Ip(_, p) => *p,
            SocksAddr::Domain(_, p) => *p,
        }
    }

    /// The port of the address.
    pub fn port(&self) -> (p: u16)
        ensures
            p == self.spec_port(),
    {
        match self {
            SocksAddr::Ip(_, p) => *p,
            SocksAddr::Domain(_, p) => *p,
        }
    }

    /// Whether the address holds a domain name rather than an IP address.
    /// Holds exactly of the `Domain` variant.
    pub fn is_domain(&self) -> (b: bool)
        ensures
            b == (self is Domain),
    {
        match self {
            SocksAddr::Ip(_, _) => false,
            SocksAddr::Domain(_, _) => true,
        }
    }

    /// Forms a domain address from a name and a port; rejected exactly when
    /// the name exceeds `MAX_DOMAIN_LEN` bytes.
    pub fn try_from_domain(name: String, port: u16) -> (r: Result<SocksAddr, DomainTooLong>)
        ensures
            r matches Ok(a) ==> a == SocksAddr::Domain(name, port) && a.wf(),
            r is Err <==> domain_byte_len(name@) > MAX_DOMAIN_LEN,
    {
        if name.as_str().as_bytes().len() > MAX_DOMAIN_LEN {
            Err(DomainTooLong)
        } else {
            Ok(SocksAddr::Domain(name, port))
        }
    }
}

/// Text of an IPv4 address: the four octets in decimal, joined by dots.
pub open spec fn spec_ipv4_text(a: u8, b: u8, c: u8, d: u8) -> Seq<char> {
    spec_dec(a as int) + seq!['.'] + spec_dec(b as int) + seq!['.'] + spec_dec(c as int)
        + seq!['.'] + spec_dec(d as int)
}

/// Text of an IPv6 address: the eight groups in lower-case hexadecimal
/// without leading zeros, joined by colons, never compressed.
pub open spec fn spec_ipv6_text(
    g0: u16,
    g1: u16,
    g2: u16,
    g3: u16,
    g4: u16,
    g5: u16,
    g6: u16,
    g7: u16,
) -> Seq<char> {
    spec_hex(g0 as int) + seq![':'] + spec_hex(g1 as int) + seq![':'] + spec_hex(g2 as int)
        + seq![':'] + spec_hex(g3 as int) + seq![':'] + spec_hex(g4 as int) + seq![':']
        + spec_hex(g5 as int) + seq![':'] + spec_hex(g6 as int) + seq![':'] + spec_hex(g7 as int)
}

/// Text of an address without its port: dotted decimal for IPv4, bracketed
/// groups for IPv6, the name itself for a domain.
pub open spec fn spec_host_text(addr: SocksAddr) -> Seq<char> {
    match addr {
        SocksAddr::Ip(IpAddress::V4(a, b, c, d), _) => spec_ipv4_text(a, b, c, d),
        SocksAddr::Ip(IpAddress::V6(g0, g1, g2, g3, g4, g5, g6, g7), _) => seq!['[']
            + spec_ipv6_text(g0, g1, g2, g3, g4, g5, g6, g7) + seq![']'],
        SocksAddr::Domain(name, _) => name@,
    }
}

/// Text of an address: its host text, a colon, and the port in decimal.
pub open spec fn spec_addr_text(addr: SocksAddr) -> Seq<char> {
    spec_host_text(addr) + seq![':'] + spec_dec(addr.spec_port() as int)
}

impl SocksAddr {
    /// Renders the address as `host:port` text.
    pub fn to_text(&self) -> (r: String)
        ensures
            r@ =~= spec_addr_text(*self),
    {
        proof {
            reveal_strlit(".");
            reveal_strlit(":");
            reveal_strlit("[");
            reveal_strlit("]");
        }
        let mut s: String = match self {
            SocksAddr::Ip(IpAddress::V4(a, b, c, d), _) => {
                let mut t = u64_to_dec(*a as u64);
                t.append(".");
                let tb = u64_to_dec(*b as u64);
                t.append(tb.as_str());
                t.append(".");
                let tc = u64_to_dec(*c as u64);
                t.append(tc.as_str());
                t.append(".");
                let td = u64_to_dec(*d as u64);
                t.append(td.as_str());
                t
            },
            SocksAddr::Ip(IpAddress::V6(g0, g1, g2, g3, g4, g5, g6, g7), _) => {
                let mut t = String::from_str("[");
                let h0 = u64_to_hex(*g0 as u64);
                t.append(h0.as_str());
                t.append(":");
                let h1 = u64_to_hex(*g1 as u64);
                t.append(h1.as_str());
                t.append(":");
                let h2 = u64_to_hex(*g2 as u64);
                t.append(h2.as_str());
                t.append(":");
                let h3 = u64_to_hex(*g3 as u64);
                t.append(h3.as_str());
                t.append(":");
                let h4 = u64_to_hex(*g4 as u64);
                t.append(h4.as_str());
                t.append(":");
                let h5 = u64_to_hex(*g5 as u64);
                t.append(h5.as_str());
                t.append(":");
                let h6 = u64_to_hex(*g6 as u64);
                t.append(h6.as_str());
                t.append(":");
                let h7 = u64_to_hex(*g7 as u64);
                t.append(h7.as_str());
                t.append("]");
                t
            },
            SocksAddr::Domain(name, _) => name.clone(),
        };
        s.append(":");
        let p = u64_to_dec(self.port() as u64);
        s.append(p.as_str());
        s
    }
}

/// Text of the network kind, lower case.
pub open spec fn spec_network_text(n: Network) -> Seq<char> {
    match n {
        Network::Tcp => seq!['t', 'c', 'p'],
        Network::Udp => seq!['u', 'd', 'p'],
    }
}

impl Network {
    /// Renders the network kind as lower-case text.
    pub fn to_text(&self) -> (r: String)
        ensures
            r@ =~= spec_network_text(*self),
    {
        proof {
            reveal_strlit("tcp");
            reveal_strlit("udp");
        }
        match self {
            Network::Tcp => String::from_str("tcp"),
            Network::Udp => String::from_str("udp"),
        }
    }
}

/// A per-flow descriptor: where the flow entered, its transport, and its two
/// endpoints. The dispatcher may replace the destination after sniffing;
/// nothing else mutates a session over the flow's lifetime.
#[derive(Clone, Debug)]
pub struct Session {
    pub inbound_tag: String,
    pub network: Network,
    pub source: SocksAddr,
    pub destination: SocksAddr,
}

impl Session {
    /// A well-formed session: both addresses are well-formed.
    pub open spec fn wf(&self) -> bool {
        self.source.wf() && self.destination.wf()
    }
}

} // verus!
