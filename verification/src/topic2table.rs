//! The validating, bidirectional codec between topic identifiers and backend
//! table names: a configurable prefix followed by the identifier as exactly
//! 32 lowercase hex digits. Decoding accepts precisely the image of encoding.

use vstd::prelude::*;
use vstd::arithmetic::div_mod::{
    lemma_fundamental_div_mod_converse, lemma_mod_breakdown, lemma_small_mod,
};
use vstd::string::{StrSliceExecFns, StringExecFns};

use crate::err::ErrorKind;
use crate::uuid::Uuid;

verus! {

/// The lowercase hex digit for a nibble.
pub open spec fn nibble_char(n: nat) -> char {
    if n == 0 { '0' } else if n == 1 { '1' } else if n == 2 { '2' } else if n == 3 { '3' }
    else if n == 4 { '4' } else if n == 5 { '5' } else if n == 6 { '6' } else if n == 7 { '7' }
    else if n == 8 { '8' } else if n == 9 { '9' } else if n == 10 { 'a' } else if n == 11 { 'b' }
    else if n == 12 { 'c' } else if n == 13 { 'd' } else if n == 14 { 'e' } else if n == 15 { 'f' }
    else { '0' }
}

/// Whether a character is a lowercase hex digit.
pub open spec fn is_hex_char(c: char) -> bool {
    ||| c == '0' ||| c == '1' ||| c == '2' ||| c == '3'
    ||| c == '4' ||| c == '5' ||| c == '6' ||| c == '7'
    ||| c == '8' ||| c == '9' ||| c == 'a' ||| c == 'b'
    ||| c == 'c' ||| c == 'd' ||| c == 'e' ||| c == 'f'
}

/// The nibble a lowercase hex digit stands for.
pub open spec fn nibble_of(c: char) -> nat {
    if c == '0' { 0 } else if c == '1' { 1 } else if c == '2' { 2 } else if c == '3' { 3 }
    else if c == '4' { 4 } else if c == '5' { 5 } else if c == '6' { 6 } else if c == '7' { 7 }
    else if c == '8' { 8 } else if c == '9' { 9 } else if c == 'a' { 10 } else if c == 'b' { 11 }
    else if c == 'c' { 12 } else if c == 'd' { 13 } else if c == 'e' { 14 } else if c == 'f' { 15 }
    else { 0 }
}

pub open spec fn pow16(w: nat) -> nat
    decreases w,
{
    if w == 0 { 1 } else { 16 * pow16((w - 1) as nat) }
}

/// The `w` lowest-order nibbles of `v`, most significant first.
pub open spec fn hex_digits(v: nat, w: nat) -> Seq<char>
    decreases w,
{
    if w == 0 { Seq::empty() } else { hex_digits(v / 16, (w - 1) as nat).push(nibble_char(v % 16)) }
}

/// The value of a string of lowercase hex digits, most significant first.
pub open spec fn hex_value(s: Seq<char>) -> nat
    decreases s.len(),
{
    if s.len() == 0 { 0 } else { hex_value(s.drop_last()) * 16 + nibble_of(s.last()) }
}

pub open spec fn all_hex(s: Seq<char>) -> bool {
    forall|i: int| 0 <= i < s.len() ==> is_hex_char(#[trigger] s[i])
}

/// The table name that stands for a raw 128-bit identifier.
pub open spec fn encoded_name(prefix: Seq<char>, raw: u128) -> Seq<char> {
    prefix + hex_digits(raw as nat, 32)
}

/// The identifier a table name stands for, if the name has the structural
/// prefix followed by exactly 32 lowercase hex digits; `None` otherwise.
pub open spec fn decoded_id(prefix: Seq<char>, name: Seq<char>) -> Option<u128> {
    if name.len() == prefix.len() + 32 && name.take(prefix.len() as int) == prefix
        && all_hex(name.skip(prefix.len() as int)) {
        Some(hex_value(name.skip(prefix.len() as int)) as u128)
    } else {
        None
    }
}

pub proof fn lemma_pow16_pos(w: nat)
    ensures
        pow16(w) >= 1,
    decreases w,
{
    if w > 0 {
        lemma_pow16_pos((w - 1) as nat);
    }
}

pub proof fn lemma_pow16_increases(w1: nat, w2: nat)
    requires
        w1 <= w2,
    ensures
        pow16(w1) <= pow16(w2),
    decreases w2,
{
    if w1 < w2 {
        lemma_pow16_increases(w1, (w2 - 1) as nat);
        lemma_pow16_pos((w2 - 1) as nat);
    }
}

pub proof fn lemma_pow16_32()
    ensures
        pow16(32) == 0x1_0000_0000_0000_0000_0000_0000_0000_0000,
{
    reveal_with_fuel(pow16, 33);
}

proof fn lemma_nibble_roundtrip(n: nat)
    requires
        n < 16,
    ensures
        is_hex_char(nibble_char(n)),
        nibble_of(nibble_char(n)) == n,
{
}

proof fn lemma_char_roundtrip(c: char)
    requires
        is_hex_char(c),
    ensures
        nibble_of(c) < 16,
        nibble_char(nibble_of(c)) == c,
{
}

pub proof fn lemma_hex_digits_len(v: nat, w: nat)
    ensures
        hex_digits(v, w).len() == w,
    decreases w,
{
    if w > 0 {
        lemma_hex_digits_len(v / 16, (w - 1) as nat);
    }
}

pub proof fn lemma_hex_digits_hex(v: nat, w: nat)
    ensures
        all_hex(hex_digits(v, w)),
    decreases w,
{
    if w > 0 {
        lemma_hex_digits_hex(v / 16, (w - 1) as nat);
        lemma_nibble_roundtrip(v % 16);
        let prev = hex_digits(v / 16, (w - 1) as nat);
        assert forall|i: int| 0 <= i < hex_digits(v, w).len() implies
            is_hex_char(#[trigger] hex_digits(v, w)[i]) by {
            if i < prev.len() {
                assert(hex_digits(v, w)[i] == prev[i]);
            }
        }
    }
}

pub proof fn lemma_hex_value_bound(s: Seq<char>)
    requires
        all_hex(s),
    ensures
        hex_value(s) < pow16(s.len()),
    decreases s.len(),
{
    if s.len() > 0 {
        let s0 = s.drop_last();
        assert(all_hex(s0)) by {
            assert forall|i: int| 0 <= i < s0.len() implies is_hex_char(#[trigger] s0[i]) by {
                assert(s0[i] == s[i]);
            }
        }
        lemma_hex_value_bound(s0);
        lemma_char_roundtrip(s.last());
    }
}

pub proof fn lemma_hex_value_of_digits(v: nat, w: nat)
    ensures
        hex_value(hex_digits(v, w)) == v % pow16(w),
    decreases w,
{
    lemma_hex_digits_len(v, w);
    if w == 0 {
        assert(v % 1 == 0) by {
            lemma_small_mod(0, 1);
            lemma_fundamental_div_mod_converse(v as int, 1, v as int, 0);
        }
    } else {
        let p = pow16((w - 1) as nat);
        lemma_pow16_pos((w - 1) as nat);
        lemma_hex_value_of_digits(v / 16, (w - 1) as nat);
        lemma_nibble_roundtrip(v % 16);
        let inner = hex_digits(v / 16, (w - 1) as nat);
        assert(hex_digits(v, w).drop_last() == inner);
        assert(hex_value(hex_digits(v, w)) == ((v / 16) % p) * 16 + v % 16);
        lemma_mod_breakdown(v as int, 16, p as int);
        assert(v % (16 * p) == 16 * ((v / 16) % p) + v % 16);
    }
}

pub proof fn lemma_digits_of_value(s: Seq<char>)
    requires
        all_hex(s),
    ensures
        hex_digits(hex_value(s), s.len()) == s,
    decreases s.len(),
{
    if s.len() == 0 {
        assert(hex_digits(hex_value(s), 0) =~= s);
    } else {
        let s0 = s.drop_last();
        let c = s.last();
        assert(all_hex(s0)) by {
            assert forall|i: int| 0 <= i < s0.len() implies is_hex_char(#[trigger] s0[i]) by {
                assert(s0[i] == s[i]);
            }
        }
        lemma_char_roundtrip(c);
        let d = nibble_of(c);
        let hv = hex_value(s);
        assert(hv == hex_value(s0) * 16 + d);
        lemma_fundamental_div_mod_converse(hv as int, 16, hex_value(s0) as int, d as int);
        lemma_digits_of_value(s0);
        assert(hex_digits(hv, s.len()) == hex_digits(hex_value(s0), s0.len()).push(nibble_char(d)));
        assert(s =~= s0.push(c));
    }
}

/// Decoding inverts encoding: every identifier comes back unchanged.
pub proof fn lemma_decode_inverts_encode(prefix: Seq<char>, raw: u128)
    ensures
        decoded_id(prefix, encoded_name(prefix, raw)) == Some(raw),
{
    let digits = hex_digits(raw as nat, 32);
    let name = encoded_name(prefix, raw);
    lemma_hex_digits_len(raw as nat, 32);
    lemma_hex_digits_hex(raw as nat, 32);
    assert(name.take(prefix.len() as int) =~= prefix);
    assert(name.skip(prefix.len() as int) =~= digits);
    lemma_hex_value_of_digits(raw as nat, 32);
    lemma_pow16_32();
    lemma_small_mod(raw as nat, pow16(32));
}

/// Decoding accepts nothing outside the image of encoding: a decoded name is
/// exactly the encoding of the identifier it yields.
pub proof fn lemma_decode_only_image(prefix: Seq<char>, name: Seq<char>, raw: u128)
    requires
        decoded_id(prefix, name) == Some(raw),
    ensures
        name == encoded_name(prefix, raw),
{
    let digits = name.skip(prefix.len() as int);
    lemma_hex_value_bound(digits);
    lemma_pow16_32();
    assert(raw as nat == hex_value(digits));
    lemma_digits_of_value(digits);
    assert(name =~= name.take(prefix.len() as int) + digits);
}

/// The hex digit for a nibble, as a one-character string.
fn nibble_str(n: u8) -> (r: &'static str)
    requires
        n < 16,
    ensures
        r@ =~= seq![nibble_char(n as nat)],
{
    proof {
        reveal_strlit("0"); reveal_strlit("1"); reveal_strlit("2"); reveal_strlit("3");
        reveal_strlit("4"); reveal_strlit("5"); reveal_strlit("6"); reveal_strlit("7");
        reveal_strlit("8"); reveal_strlit("9"); reveal_strlit("a"); reveal_strlit("b");
        reveal_strlit("c"); reveal_strlit("d"); reveal_strlit("e"); reveal_strlit("f");
    }
    if n == 0 { "0" } else if n == 1 { "1" } else if n == 2 { "2" } else if n == 3 { "3" }
    else if n == 4 { "4" } else if n == 5 { "5" } else if n == 6 { "6" } else if n == 7 { "7" }
    else if n == 8 { "8" } else if n == 9 { "9" } else if n == 10 { "a" } else if n == 11 { "b" }
    else if n == 12 { "c" } else if n == 13 { "d" } else if n == 14 { "e" } else { "f" }
}

/// Appends the `w` lowest-order nibbles of `v` to `s`, most significant first.
fn push_hex(s: &mut String, v: u128, w: usize)
    ensures
        final(s)@ == old(s)@ + hex_digits(v as nat, w as nat),
    decreases w,
{
    if w == 0 {
        assert(old(s)@ + hex_digits(v as nat, 0) =~= old(s)@);
    } else {
        push_hex(s, v / 16, w - 1);
        let nib: u8 = (v % 16) as u8;
        s.append(nibble_str(nib));
        assert(s@ =~= old(s)@ + hex_digits(v as nat, w as nat));
    }
}

/// The value of a lowercase hex digit, `None` for any other character.
fn hex_char_value(c: char) -> (r: Option<u8>)
    ensures
        match r {
            Some(d) => is_hex_char(c) && d < 16 && d as nat == nibble_of(c),
            None => !is_hex_char(c),
        },
{
    if c == '0' { Some(0) } else if c == '1' { Some(1) } else if c == '2' { Some(2) }
    else if c == '3' { Some(3) } else if c == '4' { Some(4) } else if c == '5' { Some(5) }
    else if c == '6' { Some(6) } else if c == '7' { Some(7) } else if c == '8' { Some(8) }
    else if c == '9' { Some(9) } else if c == 'a' { Some(10) } else if c == 'b' { Some(11) }
    else if c == 'c' { Some(12) } else if c == 'd' { Some(13) } else if c == 'e' { Some(14) }
    else if c == 'f' { Some(15) } else { None }
}

/// Maps a topic identifier to the name of its backing table.
pub trait Topic2Table {
    spec fn spec_id2name(&self, topic_id: Uuid) -> Seq<char>;

    fn id2name(&self, topic_id: Uuid) -> (r: String)
        ensures
            r@ == self.spec_id2name(topic_id),
    ;
}

/// Maps a table name back to the topic identifier it encodes, rejecting any
/// name it could not itself have produced.
pub trait Table2Topic {
    spec fn spec_name2id(&self, name: Seq<char>) -> Option<Uuid>;

    fn name2id(&self, name: &str) -> (r: Result<Uuid, ErrorKind>)
        ensures
            match r {
                Ok(u) => self.spec_name2id(name@) == Some(u),
                Err(k) => self.spec_name2id(name@) is None && k == ErrorKind::Internal,
            },
    ;
}

pub trait TopicConv: Topic2Table + Table2Topic {}

impl<T: Topic2Table + Table2Topic> TopicConv for T {}

/// The codec in use: a fixed prefix followed by 32 lowercase hex digits.
pub struct Prefix {
    prefix: String,
}

impl Prefix {
    pub closed spec fn spec_prefix(&self) -> Seq<char> {
        self.prefix@
    }
}

impl Default for Prefix {
    fn default() -> (r: Self)
        ensures
            r.spec_prefix() == "t"@,
    {
        Self { prefix: String::from_str("t") }
    }
}

impl Topic2Table for Prefix {
    open spec fn spec_id2name(&self, topic_id: Uuid) -> Seq<char> {
        encoded_name(self.spec_prefix(), topic_id.spec_raw())
    }

    fn id2name(&self, topic_id: Uuid) -> (r: String) {
        let mut s: String = self.prefix.clone();
        push_hex(&mut s, topic_id.as_u128(), 32);
        s
    }
}

impl Table2Topic for Prefix {
    open spec fn spec_name2id(&self, name: Seq<char>) -> Option<Uuid> {
        match decoded_id(self.spec_prefix(), name) {
            Some(raw) => Some(Uuid::spec_new(raw)),
            None => None,
        }
    }

    fn name2id(&self, name: &str) -> (r: Result<Uuid, ErrorKind>) {
        let plen: usize = self.prefix.as_str().unicode_len();
        let nlen: usize = name.unicode_len();
        if nlen < 32 || nlen - 32 != plen {
            return Err(ErrorKind::Internal);
        }
        let mut i: usize = 0;
        while i < plen
            invariant
                i <= plen,
                plen == self.spec_prefix().len(),
                nlen == name@.len(),
                nlen == plen + 32,
                forall|j: int| 0 <= j < i ==> name@[j] == self.spec_prefix()[j],
            decreases plen - i,
        {
            if name.get_char(i) != self.prefix.as_str().get_char(i) {
                assert(name@.take(plen as int) != self.spec_prefix()) by {
                    assert(name@.take(plen as int)[i as int] == name@[i as int]);
                }
                return Err(ErrorKind::Internal);
            }
            i = i + 1;
        }
        assert(name@.take(plen as int) =~= self.spec_prefix());
        let ghost digits = name@.skip(plen as int);
        let mut acc: u128 = 0;
        let mut k: usize = plen;
        proof {
            assert(digits.subrange(0, 0) =~= Seq::<char>::empty());
        }
        while k < nlen
            invariant
                plen <= k <= nlen,
                nlen == name@.len(),
                nlen == plen + 32,
                digits == name@.skip(plen as int),
                all_hex(digits.subrange(0, k - plen)),
                acc as nat == hex_value(digits.subrange(0, k - plen)),
            decreases nlen - k,
        {
            let c = name.get_char(k);
            assert(c == digits[k - plen]);
            match hex_char_value(c) {
                None => {
                    assert(!is_hex_char(digits[k - plen]));
                    return Err(ErrorKind::Internal);
                },
                Some(d) => {
                    let ghost done = digits.subrange(0, k - plen);
                    proof {
                        lemma_hex_value_bound(done);
                        lemma_pow16_increases(done.len(), 31);
                        lemma_pow16_32();
                        assert(pow16(31) * 16 == pow16(32));
                        assert(acc as nat * 16 + 15 < pow16(32));
                    }
                    acc = acc * 16 + (d as u128);
                    proof {
                        let done1 = digits.subrange(0, k + 1 - plen);
                        assert(done1.drop_last() =~= done);
                        assert(done1.last() == digits[k - plen]);
                        assert forall|j: int| 0 <= j < done1.len() implies
                            is_hex_char(#[trigger] done1[j]) by {
                            if j < done.len() {
                                assert(done1[j] == done[j]);
                            }
                        }
                    }
                },
            }
            k = k + 1;
        }
        proof {
            assert(digits.subrange(0, 32) =~= digits);
            lemma_hex_value_bound(digits);
            lemma_pow16_32();
        }
        let u = Uuid::from_u128(acc);
        proof {
            Uuid::lemma_spec_new(acc);
            Uuid::lemma_eq_raw(u, Uuid::spec_new(acc));
        }
        Ok(u)
    }
}

/// An identifier as its 32 lowercase hex digits, the form names and
/// correlation ids are reported in.
pub fn uuid_hex_string(id: &Uuid) -> (r: String)
    ensures
        r@ == hex_digits(id.spec_raw() as nat, 32),
{
    let mut s: String = String::new();
    push_hex(&mut s, id.as_u128(), 32);
    proof {
        assert(Seq::<char>::empty() + hex_digits(id.spec_raw() as nat, 32) =~= hex_digits(
            id.spec_raw() as nat,
            32,
        ));
    }
    s
}

/// The default codec: prefix `t`.
pub fn topic2table_prefix_default() -> (r: Prefix)
    ensures
        r.spec_prefix() == "t"@,
{
    Prefix::default()
}

/// A `Prefix` decodes every name it encodes back to the same identifier.
pub proof fn lemma_prefix_round_trip(p: Prefix, id: Uuid)
    ensures
        p.spec_name2id(p.spec_id2name(id)) == Some(id),
{
    lemma_decode_inverts_encode(p.spec_prefix(), id.spec_raw());
    Uuid::lemma_spec_new(id.spec_raw());
    Uuid::lemma_eq_raw(id, Uuid::spec_new(id.spec_raw()));
}

/// A `Prefix` rejects every name outside the image of its encoding, and a
/// name it accepts is exactly the encoding of the identifier it yields.
pub proof fn lemma_prefix_rejects_foreign(p: Prefix, name: Seq<char>)
    ensures
        match p.spec_name2id(name) {
            Some(id) => name == p.spec_id2name(id),
            None => forall|id: Uuid| name != #[trigger] p.spec_id2name(id),
        },
{
    match p.spec_name2id(name) {
        Some(id) => {
            let raw = decoded_id(p.spec_prefix(), name)->Some_0;
            lemma_decode_only_image(p.spec_prefix(), name, raw);
            Uuid::lemma_spec_new(raw);
        },
        None => {
            assert forall|id: Uuid| name != #[trigger] p.spec_id2name(id) by {
                if name == p.spec_id2name(id) {
                    lemma_decode_inverts_encode(p.spec_prefix(), id.spec_raw());
                }
            }
        },
    }
}

} // verus!
