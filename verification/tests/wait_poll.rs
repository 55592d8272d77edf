//! The long-poll protocol: timeout with the retry count, success after
//! retries, error forwarding, the interval floor, and the environment
//! override parsing.

use db2q::err::ErrorKind;
use db2q::queue::cmd::{
    interval_minimum_from_env, parse_u64, GivenDuration, WaitNextReq, INTERVAL_DEFAULT_NS,
    INTERVAL_MINIMUM_DEFAULT_NS, TIMEOUT_DEFAULT_NS,
};
use db2q::queue::rw::{RwMsg, RwReply, RwSvc};
use db2q::queue::wait::{WaitEvent, WaitNextSession, WaitReply};
use db2q::uuid::Uuid;

const MS: u64 = 1_000_000;

fn rid() -> Option<Uuid> {
    Some(Uuid::new(0xabc, 1))
}

fn wait_req(interval: GivenDuration, timeout: GivenDuration, floor: u64) -> WaitNextReq {
    WaitNextReq::try_from_parts(rid(), Some(Uuid::new(1, 1)), -1, interval, timeout, floor)
        .expect("ids are present")
}

fn empty_poll(elapsed_ns: u64) -> WaitEvent {
    WaitEvent { elapsed_ns, poll: Err(ErrorKind::NotFound) }
}

#[test]
fn wait_next_times_out_with_retry_count() {
    let req = wait_req(
        GivenDuration::Nanos(50 * MS),
        GivenDuration::Nanos(200 * MS),
        INTERVAL_MINIMUM_DEFAULT_NS,
    );
    assert_eq!(req.as_interval(), 50 * MS);
    assert_eq!(req.as_timeout(), 200 * MS);

    let mut session = WaitNextSession::from_req(&req);
    let ticks = vec![
        empty_poll(0),
        empty_poll(50 * MS),
        empty_poll(100 * MS),
        empty_poll(150 * MS),
        empty_poll(200 * MS),
    ];
    let reply = session.run(&ticks).expect("the deadline passes");
    assert_eq!(reply.failure_kind(), Some(ErrorKind::DeadlineExceeded));
    match reply {
        WaitReply::Timeout { retried } => assert_eq!(retried, 4),
        _ => panic!("expected the deadline to pass"),
    }
}

#[test]
fn wait_next_delivers_late_record() {
    let req = wait_req(
        GivenDuration::Nanos(50 * MS),
        GivenDuration::Nanos(200 * MS),
        INTERVAL_MINIMUM_DEFAULT_NS,
    );
    let mut session = WaitNextSession::from_req(&req);
    // A record lands 75 ms after call start; the poll at 100 ms sees it.
    let ticks = vec![
        empty_poll(0),
        empty_poll(50 * MS),
        WaitEvent { elapsed_ns: 100 * MS, poll: Ok((1, b"payload".to_vec())) },
    ];
    let reply = session.run(&ticks).expect("the record is delivered");
    match reply {
        WaitReply::Next { key, value, elapsed_ns, retried } => {
            assert_eq!(key, 1);
            assert_eq!(value, b"payload".to_vec());
            assert!(elapsed_ns >= 75 * MS);
            assert!(retried >= 1);
        },
        _ => panic!("expected a delivered record"),
    }
}

#[test]
fn wait_next_forwards_other_errors() {
    let req = wait_req(
        GivenDuration::Nanos(50 * MS),
        GivenDuration::Nanos(200 * MS),
        INTERVAL_MINIMUM_DEFAULT_NS,
    );
    let mut session = WaitNextSession::from_req(&req);
    let ticks = vec![
        empty_poll(0),
        WaitEvent { elapsed_ns: 50 * MS, poll: Err(ErrorKind::Unavailable) },
    ];
    let reply = session.run(&ticks).expect("the failure is delivered");
    match reply {
        WaitReply::Failed { kind, retried } => {
            assert_eq!(kind, ErrorKind::Unavailable);
            assert_eq!(retried, 1);
        },
        _ => panic!("expected the failure to be forwarded"),
    }
}

#[test]
fn wait_next_yields_nothing_before_any_answer() {
    let req = wait_req(
        GivenDuration::Nanos(50 * MS),
        GivenDuration::Nanos(200 * MS),
        INTERVAL_MINIMUM_DEFAULT_NS,
    );
    let mut session = WaitNextSession::from_req(&req);
    let ticks = vec![empty_poll(0), empty_poll(50 * MS)];
    assert!(session.run(&ticks).is_none());
}

#[test]
fn interval_floor_overrides_caller() {
    let req = wait_req(
        GivenDuration::Nanos(10 * MS),
        GivenDuration::Nanos(200 * MS),
        100 * MS,
    );
    assert_eq!(req.as_interval(), 100 * MS);
}

#[test]
fn interval_defaults_apply() {
    let req = wait_req(GivenDuration::Absent, GivenDuration::Absent, 1);
    assert_eq!(req.as_interval(), INTERVAL_DEFAULT_NS);
    assert_eq!(req.as_timeout(), TIMEOUT_DEFAULT_NS);

    let odd = wait_req(GivenDuration::Unconvertible, GivenDuration::Unconvertible, 1);
    assert_eq!(odd.as_interval(), INTERVAL_DEFAULT_NS);
    assert_eq!(odd.as_timeout(), INTERVAL_DEFAULT_NS);
}

#[test]
fn interval_minimum_parses_environment() {
    assert_eq!(interval_minimum_from_env(Some("100000000")), 100_000_000);
    assert_eq!(interval_minimum_from_env(Some("+42")), 42);
    assert_eq!(interval_minimum_from_env(None), INTERVAL_MINIMUM_DEFAULT_NS);
    assert_eq!(
        interval_minimum_from_env(Some("junk")),
        INTERVAL_MINIMUM_DEFAULT_NS
    );
    assert_eq!(
        interval_minimum_from_env(Some("")),
        INTERVAL_MINIMUM_DEFAULT_NS
    );
    assert_eq!(
        interval_minimum_from_env(Some("18446744073709551616")),
        INTERVAL_MINIMUM_DEFAULT_NS
    );
}

#[test]
fn parse_u64_accepts_digits_only() {
    assert_eq!(parse_u64("0"), Some(0));
    assert_eq!(parse_u64("18446744073709551615"), Some(u64::MAX));
    assert_eq!(parse_u64("18446744073709551616"), None);
    assert_eq!(parse_u64("+"), None);
    assert_eq!(parse_u64("-1"), None);
    assert_eq!(parse_u64("1 2"), None);
    assert_eq!(parse_u64("0x10"), None);
}

#[test]
fn rw_actor_replies_are_never_stale() {
    let mut gate = RwSvc::new();
    let msgs = vec![
        RwMsg::QueryMode,
        RwMsg::SetMode { writable: true },
        RwMsg::QueryMode,
        RwMsg::SetMode { writable: false },
        RwMsg::QueryMode,
        RwMsg::SetMode { writable: true },
    ];
    let replies = gate.run(&msgs);
    assert_eq!(
        replies,
        vec![
            RwReply::State(false),
            RwReply::Ack,
            RwReply::State(true),
            RwReply::Ack,
            RwReply::State(false),
            RwReply::Ack,
        ]
    );
    assert!(gate.is_writable_state());
}
