use leaf::proxy::drop_tcp;
use leaf::proxy::null_udp;
use leaf::proxy::random_udp;
use leaf::proxy::retry_udp;
use leaf::proxy::retry_udp::{AttemptOutcome, RetryVerdict};
use leaf::proxy::rr_tcp;
use leaf::proxy::rr_udp;
use leaf::proxy::{DatagramTransportType, HandlerError, OutboundConnect};

#[test]
fn drop_handler_always_fails() {
    let h = drop_tcp::Handler;
    assert!(h.connect_addr().is_none());
    let r = h.handle();
    assert_eq!(r, Err(HandlerError::Dropped));
    assert_eq!(HandlerError::Dropped.message(), "dropped");
}

#[test]
fn null_handler_carries_hint_and_fails() {
    let h = null_udp::Handler {
        connect: Some(OutboundConnect { address: "proxy.example".to_string(), port: 1080 }),
        transport_type: DatagramTransportType::Packet,
    };
    let c = h.connect_addr().unwrap();
    assert_eq!(c.address, "proxy.example");
    assert_eq!(c.port, 1080);
    assert_eq!(h.transport_type(), DatagramTransportType::Packet);
    assert_eq!(h.handle(), Err(HandlerError::NullHandler));
    assert_eq!(HandlerError::NullHandler.message(), "null handler");
}

#[test]
fn null_handler_without_hint() {
    let h = null_udp::Handler { connect: None, transport_type: DatagramTransportType::Stream };
    assert!(h.connect_addr().is_none());
    assert_eq!(h.transport_type(), DatagramTransportType::Stream);
}

#[test]
fn random_pick_stays_in_range() {
    let h = random_udp::Handler {
        actors: vec!["a".to_string(), "b".to_string(), "c".to_string()],
    };
    assert!(h.connect_addr().is_none());
    assert_eq!(h.transport_type(), DatagramTransportType::Undefined);
    for _ in 0..200 {
        assert!(h.pick() < 3);
    }
}

#[test]
fn random_pick_single_actor_is_zero() {
    let h = random_udp::Handler { actors: vec!["only".to_string()] };
    for _ in 0..20 {
        assert_eq!(h.pick(), 0);
    }
}

#[test]
fn round_robin_fairness() {
    // Three handlers, three hundred invocations: each selected a hundred
    // times, in rotation.
    let mut h = rr_tcp::Handler::new(vec!["a".to_string(), "b".to_string(), "c".to_string()]);
    let mut counts = [0usize; 3];
    for k in 0..300 {
        let i = h.select();
        assert_eq!(i, k % 3);
        counts[i] += 1;
    }
    assert_eq!(counts, [100, 100, 100]);
}

#[test]
fn round_robin_udp_matches_tcp_rotation() {
    let mut h = rr_udp::Handler::new(vec!["x".to_string(), "y".to_string()]);
    assert!(h.connect_addr().is_none());
    assert_eq!(h.transport_type(), DatagramTransportType::Undefined);
    assert_eq!(h.select(), 0);
    assert_eq!(h.select(), 1);
    assert_eq!(h.select(), 0);
}

#[test]
fn round_robin_single_actor() {
    let mut h = rr_tcp::Handler::new(vec!["solo".to_string()]);
    assert_eq!(h.select(), 0);
    assert_eq!(h.select(), 0);
}

/// Runs a retry traversal against scripted outcomes, returning the invoked
/// indices and the final verdict.
fn run_retry(h: &retry_udp::Handler, outcomes: &[AttemptOutcome]) -> (Vec<usize>, RetryVerdict) {
    let mut invoked = Vec::new();
    let mut step = 0usize;
    let mut verdict = h.start();
    while let RetryVerdict::Invoke(i) = verdict {
        invoked.push(i);
        let outcome = outcomes[invoked.len() - 1];
        verdict = h.next(step, outcome);
        step += 1;
    }
    (invoked, verdict)
}

#[test]
fn retry_order_first_success_wins() {
    // Inner handlers [fail_a, fail_b, ok_c] with a single pass: a and b are
    // each invoked once, in order, then c succeeds.
    let h = retry_udp::Handler {
        actors: vec!["fail_a".to_string(), "fail_b".to_string(), "ok_c".to_string()],
        attempts: 1,
    };
    let (invoked, verdict) = run_retry(
        &h,
        &[AttemptOutcome::HandleFailed, AttemptOutcome::HandleFailed, AttemptOutcome::HandleSucceeded],
    );
    assert_eq!(invoked, vec![0, 1, 2]);
    assert_eq!(verdict, RetryVerdict::Succeed);
}

#[test]
fn retry_exhaustion_invokes_each_twice() {
    // All inner handlers failing with two passes: each is invoked twice,
    // pass after pass, and the traversal ends exhausted.
    let h = retry_udp::Handler {
        actors: vec!["a".to_string(), "b".to_string(), "c".to_string()],
        attempts: 2,
    };
    let (invoked, verdict) = run_retry(&h, &[AttemptOutcome::HandleFailed; 6]);
    assert_eq!(invoked, vec![0, 1, 2, 0, 1, 2]);
    assert_eq!(verdict, RetryVerdict::FailExhausted);
    assert_eq!(h.exhausted_error(), HandlerError::AllAttemptsFailed);
    assert_eq!(HandlerError::AllAttemptsFailed.message(), "all attempts failed");
}

#[test]
fn retry_connect_failure_propagates_immediately() {
    let h = retry_udp::Handler {
        actors: vec!["a".to_string(), "b".to_string()],
        attempts: 3,
    };
    let (invoked, verdict) = run_retry(&h, &[AttemptOutcome::ConnectFailed]);
    assert_eq!(invoked, vec![0]);
    assert_eq!(verdict, RetryVerdict::FailConnect);
}

#[test]
fn retry_zero_attempts_exhausts_at_once() {
    let h = retry_udp::Handler { actors: vec!["a".to_string()], attempts: 0 };
    assert_eq!(h.start(), RetryVerdict::FailExhausted);
}

#[test]
fn retry_surface() {
    let h = retry_udp::Handler { actors: vec!["a".to_string()], attempts: 1 };
    assert!(h.connect_addr().is_none());
    assert_eq!(h.transport_type(), DatagramTransportType::Undefined);
}
