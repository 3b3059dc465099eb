//! The dispatch decisions of a flow: the sniff gate, the destination
//! override after sniffing, route resolution with default-handler fallback,
//! the error surface of the UDP path, and the access log line.
//!
//! The collaborators the decisions consult — the router, the outbound
//! manager, the DNS client and the I/O — live outside; the caller asks
//! them and feeds their answers in, and every decision taken on those
//! answers is verified here.
use vstd::prelude::*;

use colored::Color;
use colored::Colorize;

use vstd::string::StringExecFns;

use crate::session::{
    domain_byte_len, spec_addr_text, spec_network_text, Network, Session, SocksAddr,
    MAX_DOMAIN_LEN,
};
use crate::text::spec_dec;

verus! {

/// Why a dispatch could not produce an upstream channel.
#[derive(Clone, Copy, PartialEq, Eq, Structural, Debug)]
pub enum DispatchError {
    /// No route was picked and no default handler exists.
    NoAvailableHandler,
    /// A tag was resolved but no handler is registered under it.
    HandlerNotFound,
}

impl DispatchError {
    /// The text of the failure.
    pub open spec fn spec_message(&self) -> Seq<char> {
        match self {
            DispatchError::NoAvailableHandler => seq![
                'n',
                'o',
                ' ',
                'a',
                'v',
                'a',
                'i',
                'l',
                'a',
                'b',
                'l',
                'e',
                ' ',
                'h',
                'a',
                'n',
                'd',
                'l',
                'e',
                'r',
            ],
            DispatchError::HandlerNotFound => seq![
                'h',
                'a',
                'n',
                'd',
                'l',
                'e',
                'r',
                ' ',
                'n',
                'o',
                't',
                ' ',
                'f',
                'o',
                'u',
                'n',
                'd',
            ],
        }
    }

    /// The text of the failure.
    pub fn message(&self) -> (r: String)
        ensures
            r@ =~= self.spec_message(),
    {
        proof {
            reveal_strlit("no available handler");
            reveal_strlit("handler not found");
        }
        match self {
            DispatchError::NoAvailableHandler => "no available handler".to_owned(),
            DispatchError::HandlerNotFound => "handler not found".to_owned(),
        }
    }
}

/// The sniff gate: a TCP flow is sniffed exactly when its destination is an
/// IP address — a domain destination is already known — on port 443.
pub fn should_sniff(dest: &SocksAddr) -> (b: bool)
    ensures
        b == (!(dest is Domain) && dest.spec_port() == 443),
{
    !dest.is_domain() && dest.port() == 443
}

/// What the sniff produced for a flow.
pub enum SniffOutcome {
    /// A ClientHello carried this server name.
    Sniffed(String),
    /// Readable traffic without a server name: proceed unchanged.
    NoSni,
    /// The sniff failed: the flow is aborted without a fallback.
    Failed,
}

/// Applies a sniff outcome to the session. A sniffed domain replaces the
/// destination, keeping the port, unless the name is too long to form an
/// address — then, as on a sniff failure, the flow aborts and the session
/// is untouched. Returns whether the flow proceeds.
pub fn apply_sniff(sess: &mut Session, outcome: SniffOutcome) -> (proceed: bool)
    ensures
        match outcome {
            SniffOutcome::Sniffed(domain) => {
                if domain_byte_len(domain@) <= MAX_DOMAIN_LEN {
                    proceed && final(sess).destination == SocksAddr::Domain(
                        domain,
                        old(sess).destination.spec_port(),
                    ) && final(sess).inbound_tag == old(sess).inbound_tag && final(sess).network
                        == old(sess).network && final(sess).source == old(sess).source
                } else {
                    !proceed && *final(sess) == *old(sess)
                }
            },
            SniffOutcome::NoSni => proceed && *final(sess) == *old(sess),
            SniffOutcome::Failed => !proceed && *final(sess) == *old(sess),
        },
{
    match outcome {
        SniffOutcome::Sniffed(domain) => {
            let port = sess.destination.port();
            match SocksAddr::try_from_domain(domain, port) {
                Ok(addr) => {
                    sess.destination = addr;
                    true
                },
                Err(_) => false,
            }
        },
        SniffOutcome::NoSni => true,
        SniffOutcome::Failed => false,
    }
}

/// Resolves the outbound tag for a flow: the router's pick when it
/// succeeded, else the manager's default handler; absent both, no outbound
/// serves the flow.
pub fn pick_outbound(route: Option<String>, default_tag: Option<String>) -> (r: Option<String>)
    ensures
        route matches Some(t) ==> r == Some(t),
        route is None ==> r == default_tag,
{
    match route {
        Some(t) => Some(t),
        None => default_tag,
    }
}

/// The routing stage of a UDP dispatch. Where a TCP flow would close its
/// inbound silently, UDP surfaces `NoAvailableHandler` to the caller, which
/// owns the datagram pumping.
pub fn udp_route_verdict(route: Option<String>, default_tag: Option<String>) -> (r: Result<
    String,
    DispatchError,
>)
    ensures
        route matches Some(t) ==> r == Ok::<String, DispatchError>(t),
        route is None ==> r == (match default_tag {
            Some(d) => Ok::<String, DispatchError>(d),
            None => Err::<String, DispatchError>(DispatchError::NoAvailableHandler),
        }),
{
    match pick_outbound(route, default_tag) {
        Some(tag) => Ok(tag),
        None => Err(DispatchError::NoAvailableHandler),
    }
}

/// The handler-lookup stage of a UDP dispatch: a resolved tag nobody is
/// registered under surfaces `HandlerNotFound`.
pub fn udp_lookup_verdict(tag: String, handler_found: bool) -> (r: Result<String, DispatchError>)
    ensures
        handler_found ==> r == Ok::<String, DispatchError>(tag),
        !handler_found ==> r == Err::<String, DispatchError>(DispatchError::HandlerNotFound),
{
    if handler_found {
        Ok(tag)
    } else {
        Err(DispatchError::HandlerNotFound)
    }
}

/// The access log line laid out from already-rendered fields: the first
/// four bracketed, the destination bare.
pub open spec fn spec_log_parts(
    inbound_tag: Seq<char>,
    network: Seq<char>,
    outbound_tag: Seq<char>,
    handshake: Seq<char>,
    dest: Seq<char>,
) -> Seq<char> {
    seq!['['] + inbound_tag + seq![']', ' ', '['] + network + seq![']', ' ', '['] + outbound_tag
        + seq![']', ' ', '['] + handshake + seq![']', ' '] + dest
}

/// The handshake field: the elapsed milliseconds, or `failed`.
pub open spec fn spec_handshake_text(handshake_ms: Option<u64>) -> Seq<char> {
    match handshake_ms {
        Some(n) => spec_dec(n as int) + seq!['m', 's'],
        None => seq!['f', 'a', 'i', 'l', 'e', 'd'],
    }
}

/// The plain access log line of a flow.
pub open spec fn spec_log_line(
    inbound_tag: Seq<char>,
    network: Network,
    outbound_tag: Seq<char>,
    handshake_ms: Option<u64>,
    dest: SocksAddr,
) -> Seq<char> {
    spec_log_parts(
        inbound_tag,
        spec_network_text(network),
        outbound_tag,
        spec_handshake_text(handshake_ms),
        spec_addr_text(dest),
    )
}

fn compose_log_parts(inbound_tag: &str, network: &str, outbound_tag: &str, handshake: &str, dest: &str) -> (r:
    String)
    ensures
        r@ =~= spec_log_parts(inbound_tag@, network@, outbound_tag@, handshake@, dest@),
{
    proof {
        reveal_strlit("[");
        reveal_strlit("] [");
        reveal_strlit("] ");
    }
    let mut s = String::from_str("[");
    s.append(inbound_tag);
    s.append("] [");
    s.append(network);
    s.append("] [");
    s.append(outbound_tag);
    s.append("] [");
    s.append(handshake);
    s.append("] ");
    s.append(dest);
    s
}

fn handshake_text(handshake_ms: Option<u64>) -> (r: String)
    ensures
        r@ =~= spec_handshake_text(handshake_ms),
{
    proof {
        reveal_strlit("ms");
        reveal_strlit("failed");
    }
    match handshake_ms {
        Some(n) => {
            let mut s = crate::text::u64_to_dec(n);
            s.append("ms");
            s
        },
        None => String::from_str("failed"),
    }
}

/// The access log line of a flow, uncolored: the inbound tag, the network,
/// the outbound tag and the handshake time or `failed`, each bracketed,
/// then the destination. Log scrapers consume this layout.
pub fn access_log_line(sess: &Session, outbound_tag: &str, handshake_ms: Option<u64>) -> (r:
    String)
    ensures
        r@ =~= spec_log_line(
            sess.inbound_tag@,
            sess.network,
            outbound_tag@,
            handshake_ms,
            sess.destination,
        ),
{
    let network = sess.network.to_text();
    let handshake = handshake_text(handshake_ms);
    let dest = sess.destination.to_text();
    compose_log_parts(
        sess.inbound_tag.as_str(),
        network.as_str(),
        outbound_tag,
        handshake.as_str(),
        dest.as_str(),
    )
}

/// A color an access log field may carry on a terminal.
#[derive(Clone, Copy, PartialEq, Eq, Structural, Debug)]
pub enum LogColor {
    Black,
    Red,
    Green,
    Yellow,
    Blue,
    Magenta,
    Cyan,
    White,
}

/// The color of the network field: blue for TCP, yellow for UDP.
pub fn network_color(n: Network) -> (c: LogColor)
    ensures
        n is Tcp ==> c is Blue,
        n is Udp ==> c is Yellow,
{
    match n {
        Network::Tcp => LogColor::Blue,
        Network::Udp => LogColor::Yellow,
    }
}

/// Relies on `colored::Colorize::color` and the `Display` rendering of the
/// colored text: what comes back wraps the text in ANSI escapes when the
/// process environment enables coloring, and is the text itself when it
/// does not; which of the two depends on the environment, so nothing is
/// assumed of the result.
#[verifier::external_body]
fn colorize(s: &str, c: &LogColor) -> String {
    let color = match c {
        LogColor::Black => Color::Black,
        LogColor::Red => Color::Red,
        LogColor::Green => Color::Green,
        LogColor::Yellow => Color::Yellow,
        LogColor::Blue => Color::Blue,
        LogColor::Magenta => Color::Magenta,
        LogColor::Cyan => Color::Cyan,
        LogColor::White => Color::White,
    };
    s.color(color).to_string()
}

/// The access log line of a flow with the network and outbound fields
/// colored for a terminal — the network by its transport, the outbound by
/// the handler's own color. The layout around the two colored fields is
/// exactly that of the uncolored line; what the coloring made of their text
/// depends on the terminal environment.
pub fn access_log_line_colored(
    sess: &Session,
    outbound_tag: &str,
    tag_color: &LogColor,
    handshake_ms: Option<u64>,
) -> (r: String)
    ensures
        exists|network_text: Seq<char>, outbound_text: Seq<char>|
            r@ == #[trigger] spec_log_parts(
                sess.inbound_tag@,
                network_text,
                outbound_text,
                spec_handshake_text(handshake_ms),
                spec_addr_text(sess.destination),
            ),
{
    let network_plain = sess.network.to_text();
    let net_color = network_color(sess.network);
    let network = colorize(network_plain.as_str(), &net_color);
    let outbound = colorize(outbound_tag, tag_color);
    let handshake = handshake_text(handshake_ms);
    let dest = sess.destination.to_text();
    let r = compose_log_parts(
        sess.inbound_tag.as_str(),
        network.as_str(),
        outbound.as_str(),
        handshake.as_str(),
        dest.as_str(),
    );
    proof {
        assert(r@ == spec_log_parts(
            sess.inbound_tag@,
            network@,
            outbound@,
            spec_handshake_text(handshake_ms),
            spec_addr_text(sess.destination),
        ));
    }
    r
}

} // verus!
