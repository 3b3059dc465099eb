//! The dispatch of one TCP flow, end to end over the verified decision
//! machines: a retry outbound whose first inner handler always fails and
//! whose second echoes, a router answering with the retry tag, and a
//! five-byte exchange relayed both ways.
use std::collections::HashMap;

use leaf::copy::CopyStep;
use leaf::dispatcher::{access_log_line, pick_outbound, should_sniff};
use leaf::proxy::retry_udp::{AttemptOutcome, RetryVerdict};
use leaf::proxy::{retry_udp, HandlerError};
use leaf::relay::{CopyBidirectional, Direction};
use leaf::session::{IpAddress, Network, Session, SocksAddr};

#[derive(Clone, Copy, PartialEq, Eq, Debug)]
enum InnerBehavior {
    AlwaysFail,
    Echo,
}

#[test]
fn retry_echo_flow() {
    // Config: inbound tag "in"; outbounds a (always-fail) and b (echo);
    // retry {actors: [a, b], attempts: 1} bound to tag "r"; the router
    // answers "r" for any session.
    let mut registry: HashMap<&str, InnerBehavior> = HashMap::new();
    registry.insert("a", InnerBehavior::AlwaysFail);
    registry.insert("b", InnerBehavior::Echo);
    let retry = retry_udp::Handler {
        actors: vec!["a".to_string(), "b".to_string()],
        attempts: 1,
    };

    let sess = Session {
        inbound_tag: "in".to_string(),
        network: Network::Tcp,
        source: SocksAddr::Ip(IpAddress::V4(192, 168, 0, 9), 50000),
        destination: SocksAddr::Ip(IpAddress::V4(10, 0, 0, 1), 80),
    };

    // Port 80 to an IP is not sniffed.
    assert!(!should_sniff(&sess.destination));

    // Route pick: the router answers "r".
    let tag = pick_outbound(Some("r".to_string()), None).expect("route picked");
    assert_eq!(tag, "r");

    // Handshake through the retry handler: a is invoked once and fails,
    // then b once, which succeeds.
    let mut invocations: Vec<String> = Vec::new();
    let mut step = 0usize;
    let mut verdict = retry.start();
    let mut echo_upstream = false;
    while let RetryVerdict::Invoke(i) = verdict {
        let inner_tag = retry.actors[i].as_str();
        invocations.push(inner_tag.to_string());
        let outcome = match registry[inner_tag] {
            InnerBehavior::AlwaysFail => AttemptOutcome::HandleFailed,
            InnerBehavior::Echo => {
                echo_upstream = true;
                AttemptOutcome::HandleSucceeded
            }
        };
        verdict = retry.next(step, outcome);
        step += 1;
    }
    assert_eq!(verdict, RetryVerdict::Succeed);
    assert!(echo_upstream);
    assert_eq!(invocations, vec!["a".to_string(), "b".to_string()]);

    // The access log line after a successful handshake.
    let line = access_log_line(&sess, &tag, Some(3));
    assert_eq!(line, "[in] [tcp] [r] [3ms] 10.0.0.1:80");

    // Relay: the inbound sends "hello"; the echo upstream answers with the
    // same bytes; both directions drain and close.
    let mut relay = CopyBidirectional::new(2 * 1024, 2, 4);
    let mut echoed: Vec<u8> = Vec::new();

    // Uplink: inbound -> upstream.
    let up = relay.buffer_mut(Direction::AToB);
    up.on_read(b"hello");
    while let CopyStep::Write = up.next_step() {
        let chunk = up.write_chunk();
        echoed.extend_from_slice(&chunk);
        up.on_write(chunk.len()).unwrap();
    }
    up.on_read(&[]);
    relay.on_copy_eof(Direction::AToB);
    relay.on_shutdown_ok(Direction::AToB);

    // Downlink: the upstream echoes what it received.
    let down = relay.buffer_mut(Direction::BToA);
    down.on_read(&echoed);
    while let CopyStep::Write = down.next_step() {
        let chunk = down.write_chunk();
        down.on_write(chunk.len()).unwrap();
    }
    down.on_read(&[]);
    relay.on_copy_eof(Direction::BToA);
    relay.on_shutdown_ok(Direction::BToA);

    assert!(relay.both_done());
    assert_eq!(relay.totals(), (5, 5));

    // The session was never rewritten: no sniff ran.
    assert!(matches!(sess.destination, SocksAddr::Ip(IpAddress::V4(10, 0, 0, 1), 80)));
}

#[test]
fn drop_route_refuses_flow() {
    // A flow routed to the blackhole fails its handshake and the log line
    // records the failure.
    let sess = Session {
        inbound_tag: "in".to_string(),
        network: Network::Tcp,
        source: SocksAddr::Ip(IpAddress::V4(192, 168, 0, 9), 50000),
        destination: SocksAddr::Ip(IpAddress::V4(10, 0, 0, 2), 443),
    };
    let h = leaf::proxy::drop_tcp::Handler;
    let r = h.handle();
    assert_eq!(r, Err(HandlerError::Dropped));
    let line = access_log_line(&sess, "drop", None);
    assert_eq!(line, "[in] [tcp] [drop] [failed] 10.0.0.2:443");
}
