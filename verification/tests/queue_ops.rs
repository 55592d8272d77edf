//! The queue and topic services behind the lock: monotonic keys, the
//! read/write gate, serialization of push against drop, bounded key
//! enumeration, and counts.

use db2q::count::cmd::ExactReq;
use db2q::count::svc::count_svc_new;
use db2q::err::ErrorKind;
use db2q::queue::cmd::{CountReq, GivenDuration, KeysReq, NextReq, PushBackReq, WaitNextReq};
use db2q::queue::rw::rw_q_svc_new;
use db2q::queue::st::{locked_q_topic_svc_new, Locked};
use db2q::queue::svc::{keys_stream_items, queue_svc_new};
use db2q::queue::wait::WaitReply;
use db2q::store::TableStore;
use db2q::topic::cmd::{CreateReq, DropReq, ListReq};
use db2q::topic::svc::topic_svc_new;
use db2q::topic2table::{topic2table_prefix_default, Prefix, Topic2Table};
use db2q::uuid::Uuid;

fn new_stack() -> Locked<Prefix, Prefix> {
    let q = rw_q_svc_new(queue_svc_new(topic2table_prefix_default()));
    let t = topic_svc_new(topic2table_prefix_default());
    locked_q_topic_svc_new(q, t, TableStore::new())
}

fn rid(n: u64) -> Option<Uuid> {
    Some(Uuid::new(0xfeed, n))
}

fn push_req(topic: Uuid, value: &[u8]) -> PushBackReq {
    PushBackReq::try_from_parts(rid(1), Some(topic), value.to_vec()).expect("ids are present")
}

fn next_req(topic: Uuid, previous: i64) -> NextReq {
    NextReq::try_from_parts(rid(2), Some(topic), previous).expect("ids are present")
}

#[test]
fn monotonic_keys_follow_push_order() {
    let mut svc = new_stack();
    let topic = Uuid::new(7, 7);
    svc.make_writable();
    svc.create(&CreateReq::try_from_parts(rid(3), Some(topic)).unwrap())
        .expect("create a fresh topic");

    let values: [&[u8]; 4] = [b"first", b"second", b"third", b"fourth"];
    for v in values {
        svc.push_back(&push_req(topic, v)).expect("writable queue accepts a push");
    }

    let (mut key, mut val) = svc.next(&next_req(topic, -1)).expect("first record exists");
    assert_eq!(val, b"first".to_vec());
    for expected in &values[1..] {
        let (k2, v2) = svc
            .next(&next_req(topic, key as i64))
            .expect("the successor exists");
        assert!(k2 > key);
        assert_eq!(v2, expected.to_vec());
        key = k2;
        val = v2;
    }
    assert_eq!(val, b"fourth".to_vec());
    let after_last = svc.next(&next_req(topic, key as i64));
    assert_eq!(after_last.unwrap_err(), ErrorKind::NotFound);
}

#[test]
fn next_on_empty_topic_is_not_found() {
    let mut svc = new_stack();
    let topic = Uuid::new(1, 2);
    svc.create(&CreateReq::try_from_parts(rid(4), Some(topic)).unwrap())
        .unwrap();
    let r = svc.next(&next_req(topic, -1));
    assert_eq!(r.unwrap_err(), ErrorKind::NotFound);
}

#[test]
fn rw_gate_rejects_then_accepts_then_rejects() {
    let mut svc = new_stack();
    let topic = Uuid::new(9, 9);
    svc.create(&CreateReq::try_from_parts(rid(5), Some(topic)).unwrap())
        .unwrap();

    let denied = svc.push_back(&push_req(topic, b"early"));
    assert_eq!(denied.unwrap_err(), ErrorKind::FailedPrecondition);

    svc.make_writable();
    svc.push_back(&push_req(topic, b"accepted")).expect("writable queue accepts");

    svc.make_readable();
    let denied_again = svc.push_back(&push_req(topic, b"late"));
    assert_eq!(denied_again.unwrap_err(), ErrorKind::FailedPrecondition);

    let count = svc
        .count(&CountReq::try_from_parts(rid(6), Some(topic)).unwrap())
        .unwrap();
    assert_eq!(count, 1);
}

#[test]
fn pop_front_is_unimplemented_when_writable() {
    let mut svc = new_stack();
    assert_eq!(svc.pop_front().unwrap_err(), ErrorKind::FailedPrecondition);
    svc.make_writable();
    assert_eq!(svc.pop_front().unwrap_err(), ErrorKind::Unimplemented);
}

#[test]
fn push_then_drop_serialization() {
    let mut svc = new_stack();
    let topic = Uuid::new(4, 4);
    svc.make_writable();
    svc.create(&CreateReq::try_from_parts(rid(7), Some(topic)).unwrap())
        .unwrap();

    svc.push_back(&push_req(topic, b"landed")).expect("push before the drop succeeds");
    svc.drop(&DropReq::try_from_parts(rid(8), Some(topic)).unwrap());

    let gone = svc.count(&CountReq::try_from_parts(rid(9), Some(topic)).unwrap());
    assert_eq!(gone.unwrap_err(), ErrorKind::Internal);
}

#[test]
fn drop_then_push_serialization() {
    let mut svc = new_stack();
    let topic = Uuid::new(5, 5);
    svc.make_writable();
    svc.create(&CreateReq::try_from_parts(rid(10), Some(topic)).unwrap())
        .unwrap();

    svc.drop(&DropReq::try_from_parts(rid(11), Some(topic)).unwrap());
    let refused = svc.push_back(&push_req(topic, b"too late"));
    assert_eq!(refused.unwrap_err(), ErrorKind::Internal);
}

#[test]
fn drop_of_missing_topic_is_not_an_error() {
    let mut svc = new_stack();
    let topic = Uuid::new(6, 6);
    svc.drop(&DropReq::try_from_parts(rid(12), Some(topic)).unwrap());
}

#[test]
fn repeat_create_surfaces_generic_mapping() {
    let mut svc = new_stack();
    let topic = Uuid::new(8, 8);
    let req = CreateReq::try_from_parts(rid(13), Some(topic)).unwrap();
    svc.create(&req).unwrap();
    assert_eq!(svc.create(&req).unwrap_err(), ErrorKind::Internal);
}

#[test]
fn keys_bounded_ascending() {
    let mut svc = new_stack();
    let topic = Uuid::new(2, 3);
    svc.make_writable();
    svc.create(&CreateReq::try_from_parts(rid(14), Some(topic)).unwrap())
        .unwrap();
    for i in 0..10u8 {
        svc.push_back(&push_req(topic, &[i])).unwrap();
    }

    let limited = svc
        .keys(&KeysReq::try_from_parts(rid(15), Some(topic), 3).unwrap())
        .unwrap();
    assert_eq!(limited, vec![1, 2, 3]);

    let none = svc
        .keys(&KeysReq::try_from_parts(rid(16), Some(topic), 0).unwrap())
        .unwrap();
    assert!(none.is_empty());

    let all = svc
        .keys(&KeysReq::try_from_parts(rid(17), Some(topic), 100).unwrap())
        .unwrap();
    assert_eq!(all, (1..=10).collect::<Vec<u64>>());
}

#[test]
fn list_returns_every_topic() {
    let mut svc = new_stack();
    let a = Uuid::new(1, 1);
    let b = Uuid::new(2, 2);
    svc.create(&CreateReq::try_from_parts(rid(18), Some(a)).unwrap())
        .unwrap();
    svc.create(&CreateReq::try_from_parts(rid(19), Some(b)).unwrap())
        .unwrap();
    let ids = svc
        .list(&ListReq::try_from_parts(rid(20)).unwrap())
        .unwrap();
    let raws: Vec<u128> = ids.iter().map(|u| u.as_u128()).collect();
    assert_eq!(raws, vec![a.as_u128(), b.as_u128()]);
}

#[test]
fn list_aborts_whole_on_foreign_table() {
    let mut db = TableStore::new();
    let good = topic2table_prefix_default().id2name(Uuid::new(0, 1));
    db.create(&good).unwrap();
    db.create("migrations").unwrap();
    let t = topic_svc_new(topic2table_prefix_default());
    let r = t.list(&db, &ListReq::try_from_parts(rid(21)).unwrap());
    assert_eq!(r.unwrap_err(), ErrorKind::Internal);
}

#[test]
fn exact_count_matches_queue_count() {
    let mut svc = new_stack();
    let topic = Uuid::new(3, 1);
    svc.make_writable();
    svc.create(&CreateReq::try_from_parts(rid(22), Some(topic)).unwrap())
        .unwrap();
    for _ in 0..5 {
        svc.push_back(&push_req(topic, b"x")).unwrap();
    }
    let via_queue = svc
        .count(&CountReq::try_from_parts(rid(23), Some(topic)).unwrap())
        .unwrap();
    assert_eq!(via_queue, 5);

    let mut db = TableStore::new();
    let name = topic2table_prefix_default().id2name(Uuid::new(0, 2));
    db.create(&name).unwrap();
    let cnt = count_svc_new(topic2table_prefix_default());
    let exact = cnt
        .exact(
            &db,
            &ExactReq::try_from_parts(rid(24), Some(Uuid::new(0, 2))).unwrap(),
        )
        .unwrap();
    assert_eq!(exact, 0);
}

#[test]
fn keys_stream_delivers_error_as_final_element() {
    let ok = keys_stream_items(Ok(vec![1, 2, 3]));
    assert_eq!(ok, vec![Ok(1), Ok(2), Ok(3)]);

    let failed = keys_stream_items(Err(ErrorKind::Unavailable));
    assert_eq!(failed, vec![Err(ErrorKind::Unavailable)]);
}

#[test]
fn wait_session_sees_record_pushed_mid_poll() {
    let mut svc = new_stack();
    let topic = Uuid::new(11, 11);
    svc.make_writable();
    svc.create(&CreateReq::try_from_parts(rid(26), Some(topic)).unwrap())
        .unwrap();

    let wait_req = WaitNextReq::try_from_parts(
        rid(27),
        Some(topic),
        -1,
        GivenDuration::Nanos(50_000_000),
        GivenDuration::Nanos(200_000_000),
        1_000_000,
    )
    .unwrap();
    let mut session = svc.wait_next(&wait_req);

    // First poll: the topic is still empty, `NotFound` is swallowed.
    let empty = svc.next(&next_req(topic, -1));
    assert!(session.on_poll(0, empty).is_none());

    // A record lands; the next poll delivers it with the retry count.
    svc.push_back(&push_req(topic, b"arrived")).unwrap();
    let found = svc.next(&next_req(topic, -1));
    match session.on_poll(100_000_000, found) {
        Some(WaitReply::Next { key, value, elapsed_ns, retried }) => {
            assert_eq!(key, 1);
            assert_eq!(value, b"arrived".to_vec());
            assert_eq!(elapsed_ns, 100_000_000);
            assert_eq!(retried, 1);
        }
        _ => panic!("expected the record to be delivered"),
    }
}

#[test]
fn missing_ids_are_invalid_argument() {
    let topic = Uuid::new(1, 1);
    assert!(matches!(
        PushBackReq::try_from_parts(None, Some(topic), vec![]).err(),
        Some(ErrorKind::InvalidArgument)
    ));
    assert!(matches!(
        NextReq::try_from_parts(rid(25), None, -1).err(),
        Some(ErrorKind::InvalidArgument)
    ));
    assert!(matches!(
        ListReq::try_from_parts(None).err(),
        Some(ErrorKind::InvalidArgument)
    ));
}
