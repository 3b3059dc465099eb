use leaf::dispatcher::{
    access_log_line, access_log_line_colored, apply_sniff, network_color, pick_outbound,
    should_sniff, udp_lookup_verdict, udp_route_verdict, DispatchError, LogColor, SniffOutcome,
};
use leaf::session::{IpAddress, Network, Session, SocksAddr};

fn session_to(dest: SocksAddr) -> Session {
    Session {
        inbound_tag: "in".to_string(),
        network: Network::Tcp,
        source: SocksAddr::Ip(IpAddress::V4(10, 0, 0, 1), 54321),
        destination: dest,
    }
}

#[test]
fn sniff_gate_only_for_ip_port_443() {
    assert!(should_sniff(&SocksAddr::Ip(IpAddress::V4(1, 2, 3, 4), 443)));
    assert!(!should_sniff(&SocksAddr::Ip(IpAddress::V4(1, 2, 3, 4), 80)));
    assert!(!should_sniff(&SocksAddr::Domain("example.com".to_string(), 443)));
    assert!(!should_sniff(&SocksAddr::Domain("example.com".to_string(), 80)));
}

#[test]
fn sniffed_domain_overrides_destination() {
    let mut sess = session_to(SocksAddr::Ip(IpAddress::V4(1, 2, 3, 4), 443));
    let proceed = apply_sniff(&mut sess, SniffOutcome::Sniffed("example.com".to_string()));
    assert!(proceed);
    match &sess.destination {
        SocksAddr::Domain(name, port) => {
            assert_eq!(name, "example.com");
            assert_eq!(*port, 443);
        }
        _ => panic!("destination not replaced"),
    }
}

#[test]
fn sniff_without_sni_proceeds_unchanged() {
    let mut sess = session_to(SocksAddr::Ip(IpAddress::V4(1, 2, 3, 4), 443));
    assert!(apply_sniff(&mut sess, SniffOutcome::NoSni));
    assert!(matches!(sess.destination, SocksAddr::Ip(IpAddress::V4(1, 2, 3, 4), 443)));
}

#[test]
fn sniff_failure_aborts_flow() {
    let mut sess = session_to(SocksAddr::Ip(IpAddress::V4(1, 2, 3, 4), 443));
    assert!(!apply_sniff(&mut sess, SniffOutcome::Failed));
    assert!(matches!(sess.destination, SocksAddr::Ip(IpAddress::V4(1, 2, 3, 4), 443)));
}

#[test]
fn sniffed_domain_too_long_aborts() {
    let mut sess = session_to(SocksAddr::Ip(IpAddress::V4(1, 2, 3, 4), 443));
    let long = "x".repeat(256);
    assert!(!apply_sniff(&mut sess, SniffOutcome::Sniffed(long)));
    assert!(matches!(sess.destination, SocksAddr::Ip(IpAddress::V4(1, 2, 3, 4), 443)));
}

#[test]
fn default_route_fallback() {
    // The router failed but a default handler exists: the flow proceeds
    // with the default.
    let picked = pick_outbound(None, Some("direct".to_string()));
    assert_eq!(picked, Some("direct".to_string()));
    // A successful pick wins over the default.
    let picked = pick_outbound(Some("proxy".to_string()), Some("direct".to_string()));
    assert_eq!(picked, Some("proxy".to_string()));
}

#[test]
fn udp_no_handler_surfaces_error() {
    // No route and no default: UDP surfaces the error instead of closing
    // silently.
    let r = udp_route_verdict(None, None);
    assert_eq!(r, Err(DispatchError::NoAvailableHandler));
    assert_eq!(DispatchError::NoAvailableHandler.message(), "no available handler");
}

#[test]
fn udp_default_route_fallback() {
    let r = udp_route_verdict(None, Some("direct".to_string()));
    assert_eq!(r, Ok("direct".to_string()));
}

#[test]
fn udp_missing_handler_surfaces_error() {
    let r = udp_lookup_verdict("ghost".to_string(), false);
    assert_eq!(r, Err(DispatchError::HandlerNotFound));
    assert_eq!(DispatchError::HandlerNotFound.message(), "handler not found");
    let r = udp_lookup_verdict("real".to_string(), true);
    assert_eq!(r, Ok("real".to_string()));
}

#[test]
fn access_log_line_layout() {
    let sess = session_to(SocksAddr::Ip(IpAddress::V4(10, 0, 0, 1), 80));
    let line = access_log_line(&sess, "r", Some(5));
    assert_eq!(line, "[in] [tcp] [r] [5ms] 10.0.0.1:80");
}

#[test]
fn access_log_line_failed_handshake() {
    let sess = session_to(SocksAddr::Domain("example.com".to_string(), 443));
    let line = access_log_line(&sess, "direct", None);
    assert_eq!(line, "[in] [tcp] [direct] [failed] example.com:443");
}

#[test]
fn access_log_line_udp_and_ipv6() {
    let sess = Session {
        inbound_tag: "tun".to_string(),
        network: Network::Udp,
        source: SocksAddr::Ip(IpAddress::V4(10, 0, 0, 1), 1000),
        destination: SocksAddr::Ip(IpAddress::V6(0x2001, 0xdb8, 0, 0, 0, 0, 0, 0x11), 53),
    };
    let line = access_log_line(&sess, "dns", Some(12));
    assert_eq!(line, "[tun] [udp] [dns] [12ms] [2001:db8:0:0:0:0:0:11]:53");
}

#[test]
fn colored_log_line_keeps_layout() {
    let sess = session_to(SocksAddr::Ip(IpAddress::V4(10, 0, 0, 1), 80));
    let line = access_log_line_colored(&sess, "r", &LogColor::Green, Some(5));
    // The colored fields vary with the terminal environment; the layout
    // around them does not.
    assert!(line.starts_with("[in] ["));
    assert!(line.ends_with("] [5ms] 10.0.0.1:80"));
}

#[test]
fn network_colors() {
    assert_eq!(network_color(Network::Tcp), LogColor::Blue);
    assert_eq!(network_color(Network::Udp), LogColor::Yellow);
}

#[test]
fn socks_addr_accessors() {
    let ip = SocksAddr::Ip(IpAddress::V4(1, 2, 3, 4), 443);
    assert!(!ip.is_domain());
    assert_eq!(ip.port(), 443);
    let dom = SocksAddr::Domain("a.example".to_string(), 8080);
    assert!(dom.is_domain());
    assert_eq!(dom.port(), 8080);
}

#[test]
fn socks_addr_domain_length_limit() {
    let ok = SocksAddr::try_from_domain("x".repeat(255), 443);
    assert!(ok.is_ok());
    let too_long = SocksAddr::try_from_domain("x".repeat(256), 443);
    assert!(too_long.is_err());
}

#[test]
fn socks_addr_renders_each_variant() {
    let v4 = SocksAddr::Ip(IpAddress::V4(192, 168, 0, 1), 8443);
    assert_eq!(v4.to_text(), "192.168.0.1:8443");
    let v6 = SocksAddr::Ip(IpAddress::V6(0, 0, 0, 0, 0, 0, 0, 1), 53);
    assert_eq!(v6.to_text(), "[0:0:0:0:0:0:0:1]:53");
    let dom = SocksAddr::Domain("example.com".to_string(), 443);
    assert_eq!(dom.to_text(), "example.com:443");
}

#[test]
fn network_text_is_lower_case() {
    assert_eq!(Network::Tcp.to_text(), "tcp");
    assert_eq!(Network::Udp.to_text(), "udp");
}
