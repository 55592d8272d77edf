//! Round-trip and rejection behaviour of the topic-id/table-name codec.

use db2q::topic2table::{topic2table_prefix_default, uuid_hex_string, Prefix, Table2Topic, Topic2Table};
use db2q::uuid::Uuid;

fn default_conv() -> Prefix {
    topic2table_prefix_default()
}

#[test]
fn encode_zero_id() {
    let conv = default_conv();
    let name = conv.id2name(Uuid::new(0, 0));
    assert_eq!(name, "t00000000000000000000000000000000");
}

#[test]
fn encode_known_id() {
    let conv = default_conv();
    let name = conv.id2name(Uuid::new(0x0123_4567_89ab_cdef, 0xfedc_ba98_7654_3210));
    assert_eq!(name, "t0123456789abcdeffedcba9876543210");
}

#[test]
fn decode_inverts_encode() {
    let conv = default_conv();
    let ids = [
        Uuid::new(0, 0),
        Uuid::new(0, 1),
        Uuid::new(u64::MAX, u64::MAX),
        Uuid::new(0xdead_beef_0000_0001, 0x1234_5678_9abc_def0),
    ];
    for id in ids {
        let name = conv.id2name(id);
        let back = conv.name2id(&name).expect("an encoded name must decode");
        assert_eq!(back.as_u128(), id.as_u128());
    }
}

#[test]
fn decode_rejects_wrong_prefix() {
    let conv = default_conv();
    assert!(conv.name2id("s0123456789abcdeffedcba9876543210").is_err());
}

#[test]
fn decode_rejects_short_and_long_names() {
    let conv = default_conv();
    assert!(conv.name2id("").is_err());
    assert!(conv.name2id("t").is_err());
    assert!(conv.name2id("t0123456789abcdeffedcba987654321").is_err());
    assert!(conv.name2id("t0123456789abcdeffedcba98765432100").is_err());
}

#[test]
fn decode_rejects_non_hex_remainder() {
    let conv = default_conv();
    assert!(conv.name2id("t0123456789abcdeffedcba987654321g").is_err());
    assert!(conv.name2id("t0123456789ABCDEFFEDCBA9876543210").is_err());
    assert!(conv.name2id("t+123456789abcdeffedcba9876543210").is_err());
    assert!(conv.name2id("t 123456789abcdeffedcba9876543210").is_err());
}

#[test]
fn uuid_split_inverts_new() {
    let id = Uuid::new(0x1122_3344_5566_7788, 0x99aa_bbcc_ddee_ff00);
    let (hi, lo) = id.split();
    assert_eq!(hi, 0x1122_3344_5566_7788);
    assert_eq!(lo, 0x99aa_bbcc_ddee_ff00);
    assert_eq!(
        id.as_u128(),
        0x1122_3344_5566_7788_99aa_bbcc_ddee_ff00u128
    );
}

#[test]
fn uuid_from_u128_round_trip() {
    let id = Uuid::from_u128(42);
    assert_eq!(id.as_u128(), 42);
    let (hi, lo) = id.split();
    assert_eq!((hi, lo), (0, 42));
}

#[test]
fn uuid_hex_string_is_fixed_width() {
    assert_eq!(
        uuid_hex_string(&Uuid::new(0, 0xff)),
        "000000000000000000000000000000ff"
    );
    assert_eq!(
        uuid_hex_string(&Uuid::new(u64::MAX, u64::MAX)),
        "ffffffffffffffffffffffffffffffff"
    );
}

#[test]
fn uuid_new_v4_is_usable() {
    let id = Uuid::new_v4();
    let (hi, lo) = id.split();
    assert_eq!(Uuid::new(hi, lo).as_u128(), id.as_u128());
}
