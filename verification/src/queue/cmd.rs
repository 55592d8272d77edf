//! Validated queue requests. Each request type is built from the plain
//! fields of its wire message; a missing identifier is rejected as
//! `InvalidArgument` before any work is done.

use vstd::prelude::*;
use vstd::string::StrSliceExecFns;

use crate::err::ErrorKind;
use crate::uuid::Uuid;

verus! {

/// The poll interval used when the caller names none, in nanoseconds.
pub const INTERVAL_DEFAULT_NS: u64 = 1_000_000_000;

/// The long-poll timeout used when the caller names none, in nanoseconds.
pub const TIMEOUT_DEFAULT_NS: u64 = 2_000_000_000;

/// The built-in floor for the poll interval, in nanoseconds, used when the
/// environment names none or an unparsable one.
pub const INTERVAL_MINIMUM_DEFAULT_NS: u64 = 1_000_000;

/// The name of the environment entry that may override the interval floor.
pub fn interval_minimum_key() -> (r: &'static str)
    ensures
        r@ == "ENV_INTERVAL_NS_MINIMUM"@,
{
    "ENV_INTERVAL_NS_MINIMUM"
}

/// A duration handed over by the transport: absent, present but not
/// convertible to a duration, or a count of nanoseconds.
#[derive(Clone, Copy, PartialEq, Eq, Structural, Debug)]
pub enum GivenDuration {
    Absent,
    Unconvertible,
    Nanos(u64),
}

/// A request to count the records of one topic.
pub struct CountReq {
    request_id: Uuid,
    topic_id: Uuid,
}

impl CountReq {
    pub closed spec fn spec_request_id(&self) -> Uuid {
        self.request_id
    }

    pub closed spec fn spec_topic_id(&self) -> Uuid {
        self.topic_id
    }

    /// Accepts the request exactly when both identifiers are present.
    pub fn try_from_parts(request_id: Option<Uuid>, topic_id: Option<Uuid>) -> (r: Result<
        Self,
        ErrorKind,
    >)
        ensures
            match r {
                Ok(q) => request_id == Some(q.spec_request_id()) && topic_id == Some(
                    q.spec_topic_id(),
                ),
                Err(k) => k == ErrorKind::InvalidArgument && (request_id is None
                    || topic_id is None),
            },
    {
        match (request_id, topic_id) {
            (Some(request_id), Some(topic_id)) => Ok(Self { request_id, topic_id }),
            _ => Err(ErrorKind::InvalidArgument),
        }
    }

    pub fn as_request_id(&self) -> (r: Uuid)
        ensures
            r == self.spec_request_id(),
    {
        self.request_id
    }

    pub fn as_topic_id(&self) -> (r: Uuid)
        ensures
            r == self.spec_topic_id(),
    {
        self.topic_id
    }
}

/// A request for the keys of one topic, bounded by a caller limit.
pub struct KeysReq {
    request_id: Uuid,
    topic_id: Uuid,
    max_keys: u64,
}

impl KeysReq {
    pub closed spec fn spec_request_id(&self) -> Uuid {
        self.request_id
    }

    pub closed spec fn spec_topic_id(&self) -> Uuid {
        self.topic_id
    }

    pub closed spec fn spec_max_keys(&self) -> u64 {
        self.max_keys
    }

    /// Accepts the request exactly when both identifiers are present.
    pub fn try_from_parts(
        request_id: Option<Uuid>,
        topic_id: Option<Uuid>,
        max_keys: u64,
    ) -> (r: Result<Self, ErrorKind>)
        ensures
            match r {
                Ok(q) => request_id == Some(q.spec_request_id()) && topic_id == Some(
                    q.spec_topic_id(),
                ) && q.spec_max_keys() == max_keys,
                Err(k) => k == ErrorKind::InvalidArgument && (request_id is None
                    || topic_id is None),
            },
    {
        match (request_id, topic_id) {
            (Some(request_id), Some(topic_id)) => Ok(Self { request_id, topic_id, max_keys }),
            _ => Err(ErrorKind::InvalidArgument),
        }
    }

    pub fn as_request_id(&self) -> (r: Uuid)
        ensures
            r == self.spec_request_id(),
    {
        self.request_id
    }

    pub fn as_topic_id(&self) -> (r: Uuid)
        ensures
            r == self.spec_topic_id(),
    {
        self.topic_id
    }

    pub fn as_max_keys(&self) -> (r: u64)
        ensures
            r == self.spec_max_keys(),
    {
        self.max_keys
    }
}

/// The previous key a wire message names: non-negative means a key, any
/// negative value means "from the start".
pub open spec fn spec_previous_of(previous: i64) -> Option<u64> {
    if previous >= 0 {
        Some(previous as u64)
    } else {
        None
    }
}

/// A request for the record after a given key, or the first record.
pub struct NextReq {
    request_id: Uuid,
    topic_id: Uuid,
    previous: Option<u64>,
}

impl NextReq {
    pub closed spec fn spec_request_id(&self) -> Uuid {
        self.request_id
    }

    pub closed spec fn spec_topic_id(&self) -> Uuid {
        self.topic_id
    }

    pub closed spec fn spec_previous_key(&self) -> Option<u64> {
        self.previous
    }

    /// Accepts the request exactly when both identifiers are present; a
    /// negative previous key means "from the start".
    pub fn try_from_parts(
        request_id: Option<Uuid>,
        topic_id: Option<Uuid>,
        previous: i64,
    ) -> (r: Result<Self, ErrorKind>)
        ensures
            match r {
                Ok(q) => request_id == Some(q.spec_request_id()) && topic_id == Some(
                    q.spec_topic_id(),
                ) && q.spec_previous_key() == spec_previous_of(previous),
                Err(k) => k == ErrorKind::InvalidArgument && (request_id is None
                    || topic_id is None),
            },
    {
        match (request_id, topic_id) {
            (Some(request_id), Some(topic_id)) => {
                let previous: Option<u64> = if previous >= 0 {
                    Some(previous as u64)
                } else {
                    None
                };
                Ok(Self { request_id, topic_id, previous })
            },
            _ => Err(ErrorKind::InvalidArgument),
        }
    }

    pub fn as_request_id(&self) -> (r: Uuid)
        ensures
            r == self.spec_request_id(),
    {
        self.request_id
    }

    pub fn as_topic_id(&self) -> (r: Uuid)
        ensures
            r == self.spec_topic_id(),
    {
        self.topic_id
    }

    pub fn as_previous_key(&self) -> (r: Option<u64>)
        ensures
            r == self.spec_previous_key(),
    {
        self.previous
    }
}

/// A request to append one value to a topic.
pub struct PushBackReq {
    request_id: Uuid,
    topic_id: Uuid,
    value: Vec<u8>,
}

impl PushBackReq {
    pub closed spec fn spec_request_id(&self) -> Uuid {
        self.request_id
    }

    pub closed spec fn spec_topic_id(&self) -> Uuid {
        self.topic_id
    }

    pub closed spec fn spec_value(&self) -> Seq<u8> {
        self.value@
    }

    /// Accepts the request exactly when both identifiers are present; the
    /// payload is carried through unchanged.
    pub fn try_from_parts(
        request_id: Option<Uuid>,
        topic_id: Option<Uuid>,
        value: Vec<u8>,
    ) -> (r: Result<Self, ErrorKind>)
        ensures
            match r {
                Ok(q) => request_id == Some(q.spec_request_id()) && topic_id == Some(
                    q.spec_topic_id(),
                ) && q.spec_value() == value@,
                Err(k) => k == ErrorKind::InvalidArgument && (request_id is None
                    || topic_id is None),
            },
    {
        match (request_id, topic_id) {
            (Some(request_id), Some(topic_id)) => Ok(Self { request_id, topic_id, value }),
            _ => Err(ErrorKind::InvalidArgument),
        }
    }

    pub fn as_request_id(&self) -> (r: Uuid)
        ensures
            r == self.spec_request_id(),
    {
        self.request_id
    }

    pub fn as_topic_id(&self) -> (r: Uuid)
        ensures
            r == self.spec_topic_id(),
    {
        self.topic_id
    }

    pub fn as_value(&self) -> (r: &[u8])
        ensures
            r@ == self.spec_value(),
    {
        self.value.as_slice()
    }

    pub fn into_value(self) -> (r: Vec<u8>)
        ensures
            r@ == self.spec_value(),
    {
        self.value
    }
}

/// The poll interval actually used: the caller's request — or the default
/// where none is usable — raised to the configured floor.
pub open spec fn spec_effective_interval(given: GivenDuration, minimum: u64) -> u64 {
    let requested = match given {
        GivenDuration::Absent => INTERVAL_DEFAULT_NS,
        GivenDuration::Unconvertible => INTERVAL_DEFAULT_NS,
        GivenDuration::Nanos(n) => n,
    };
    if requested >= minimum {
        requested
    } else {
        minimum
    }
}

/// The timeout actually used: the caller's request where usable, the
/// timeout default where absent, the interval default where unconvertible.
pub open spec fn spec_effective_timeout(given: GivenDuration) -> u64 {
    match given {
        GivenDuration::Absent => TIMEOUT_DEFAULT_NS,
        GivenDuration::Unconvertible => INTERVAL_DEFAULT_NS,
        GivenDuration::Nanos(n) => n,
    }
}

/// Minimum interval floor: whatever the caller asks for, the interval in
/// effect is never below the configured floor, and is exactly the larger of
/// the two.
pub proof fn lemma_interval_floor(given: GivenDuration, minimum: u64)
    ensures
        spec_effective_interval(given, minimum) >= minimum,
        given matches GivenDuration::Nanos(n) ==> (n >= minimum ==> spec_effective_interval(
            given,
            minimum,
        ) == n),
{
}

/// A request to wait for the record after a given key, polling until a
/// timeout.
pub struct WaitNextReq {
    request_id: Uuid,
    topic_id: Uuid,
    previous: Option<u64>,
    interval_ns: u64,
    timeout_ns: u64,
}

impl WaitNextReq {
    pub closed spec fn spec_request_id(&self) -> Uuid {
        self.request_id
    }

    pub closed spec fn spec_topic_id(&self) -> Uuid {
        self.topic_id
    }

    pub closed spec fn spec_previous_key(&self) -> Option<u64> {
        self.previous
    }

    pub closed spec fn spec_interval_ns(&self) -> u64 {
        self.interval_ns
    }

    pub closed spec fn spec_timeout_ns(&self) -> u64 {
        self.timeout_ns
    }

    /// Accepts the request exactly when both identifiers are present. The
    /// poll interval is clamped to the configured floor; the timeout is
    /// taken as given.
    pub fn try_from_parts(
        request_id: Option<Uuid>,
        topic_id: Option<Uuid>,
        previous: i64,
        interval: GivenDuration,
        timeout: GivenDuration,
        interval_minimum: u64,
    ) -> (r: Result<Self, ErrorKind>)
        ensures
            match r {
                Ok(q) => {
                    &&& request_id == Some(q.spec_request_id())
                    &&& topic_id == Some(q.spec_topic_id())
                    &&& q.spec_previous_key() == spec_previous_of(previous)
                    &&& q.spec_interval_ns() == spec_effective_interval(interval, interval_minimum)
                    &&& q.spec_timeout_ns() == spec_effective_timeout(timeout)
                },
                Err(k) => k == ErrorKind::InvalidArgument && (request_id is None
                    || topic_id is None),
            },
    {
        match (request_id, topic_id) {
            (Some(request_id), Some(topic_id)) => {
                let previous: Option<u64> = if previous >= 0 {
                    Some(previous as u64)
                } else {
                    None
                };
                let requested: u64 = match interval {
                    GivenDuration::Absent => INTERVAL_DEFAULT_NS,
                    GivenDuration::Unconvertible => INTERVAL_DEFAULT_NS,
                    GivenDuration::Nanos(n) => n,
                };
                let interval_ns: u64 = if requested >= interval_minimum {
                    requested
                } else {
                    interval_minimum
                };
                let timeout_ns: u64 = match timeout {
                    GivenDuration::Absent => TIMEOUT_DEFAULT_NS,
                    GivenDuration::Unconvertible => INTERVAL_DEFAULT_NS,
                    GivenDuration::Nanos(n) => n,
                };
                Ok(Self { request_id, topic_id, previous, interval_ns, timeout_ns })
            },
            _ => Err(ErrorKind::InvalidArgument),
        }
    }

    pub fn as_request_id(&self) -> (r: Uuid)
        ensures
            r == self.spec_request_id(),
    {
        self.request_id
    }

    pub fn as_topic_id(&self) -> (r: Uuid)
        ensures
            r == self.spec_topic_id(),
    {
        self.topic_id
    }

    pub fn as_previous_key(&self) -> (r: Option<u64>)
        ensures
            r == self.spec_previous_key(),
    {
        self.previous
    }

    /// The clamped poll interval, in nanoseconds.
    pub fn as_interval(&self) -> (r: u64)
        ensures
            r == self.spec_interval_ns(),
    {
        self.interval_ns
    }

    /// The timeout, in nanoseconds.
    pub fn as_timeout(&self) -> (r: u64)
        ensures
            r == self.spec_timeout_ns(),
    {
        self.timeout_ns
    }
}

/// Whether a character is a decimal digit.
pub open spec fn is_dec_char(c: char) -> bool {
    ||| c == '0' ||| c == '1' ||| c == '2' ||| c == '3' ||| c == '4'
    ||| c == '5' ||| c == '6' ||| c == '7' ||| c == '8' ||| c == '9'
}

/// The digit a decimal character stands for.
pub open spec fn dec_of(c: char) -> nat {
    if c == '0' { 0 } else if c == '1' { 1 } else if c == '2' { 2 } else if c == '3' { 3 }
    else if c == '4' { 4 } else if c == '5' { 5 } else if c == '6' { 6 } else if c == '7' { 7 }
    else if c == '8' { 8 } else if c == '9' { 9 } else { 0 }
}

pub open spec fn all_dec(s: Seq<char>) -> bool {
    forall|i: int| 0 <= i < s.len() ==> is_dec_char(#[trigger] s[i])
}

/// The value of a string of decimal digits, most significant first.
pub open spec fn dec_value(s: Seq<char>) -> nat
    decreases s.len(),
{
    if s.len() == 0 {
        0
    } else {
        dec_value(s.drop_last()) * 10 + dec_of(s.last())
    }
}

/// What parsing an unsigned decimal integer yields: the digits may carry one
/// leading plus sign, must not be empty, and must fit in 64 bits.
pub open spec fn spec_parse_u64(s: Seq<char>) -> Option<u64> {
    let ds = if s.len() > 0 && s[0] == '+' {
        s.drop_first()
    } else {
        s
    };
    if ds.len() == 0 {
        None
    } else if !all_dec(ds) {
        None
    } else if dec_value(ds) > u64::MAX {
        None
    } else {
        Some(dec_value(ds) as u64)
    }
}

/// A longer digit string never has a smaller value.
proof fn lemma_dec_value_prefix(s: Seq<char>, k: int)
    requires
        0 <= k <= s.len(),
    ensures
        dec_value(s.subrange(0, k)) <= dec_value(s),
    decreases s.len() - k,
{
    if k < s.len() {
        let t = s.subrange(0, k + 1);
        assert(t.drop_last() =~= s.subrange(0, k));
        assert(dec_value(s.subrange(0, k)) <= dec_value(t));
        lemma_dec_value_prefix(s, k + 1);
        assert(s.subrange(0, s.len() as int) =~= s);
    } else {
        assert(s.subrange(0, k) =~= s);
    }
}

/// The digit a decimal character stands for, `None` for any other character.
fn dec_char_value(c: char) -> (r: Option<u8>)
    ensures
        match r {
            Some(d) => is_dec_char(c) && d < 10 && d as nat == dec_of(c),
            None => !is_dec_char(c),
        },
{
    if c == '0' { Some(0) } else if c == '1' { Some(1) } else if c == '2' { Some(2) }
    else if c == '3' { Some(3) } else if c == '4' { Some(4) } else if c == '5' { Some(5) }
    else if c == '6' { Some(6) } else if c == '7' { Some(7) } else if c == '8' { Some(8) }
    else if c == '9' { Some(9) } else { None }
}

/// Parses an unsigned decimal integer: digits with an optional leading plus
/// sign, rejecting anything else and any value above 64 bits.
pub fn parse_u64(s: &str) -> (r: Option<u64>)
    ensures
        r == spec_parse_u64(s@),
{
    let n: usize = s.unicode_len();
    let start: usize = if n > 0 && s.get_char(0) == '+' {
        1
    } else {
        0
    };
    let ghost ds = if start == 1 { s@.drop_first() } else { s@ };
    proof {
        if start == 1 {
            assert(ds =~= s@.subrange(1, n as int));
        }
    }
    if n == start {
        return None;
    }
    let mut acc: u64 = 0;
    let mut i: usize = start;
    proof {
        assert(ds.subrange(0, 0) =~= Seq::<char>::empty());
    }
    while i < n
        invariant
            start <= i <= n,
            start < n,
            n == s@.len(),
            start == 0 || start == 1,
            (start == 1) <==> (n > 0 && s@[0] == '+'),
            ds == (if n > 0 && s@[0] == '+' { s@.drop_first() } else { s@ }),
            ds.len() == n - start,
            all_dec(ds.subrange(0, i - start)),
            acc as nat == dec_value(ds.subrange(0, i - start)),
        decreases n - i,
    {
        let c = s.get_char(i);
        assert(c == ds[i - start]);
        match dec_char_value(c) {
            None => {
                assert(!is_dec_char(ds[i - start]));
                return None;
            },
            Some(d) => {
                let ghost done = ds.subrange(0, i - start);
                let ghost done1 = ds.subrange(0, i + 1 - start);
                proof {
                    assert(done1.drop_last() =~= done);
                    assert(done1.last() == ds[i - start]);
                    assert forall|j: int| 0 <= j < done1.len() implies is_dec_char(
                        #[trigger] done1[j],
                    ) by {
                        if j < done.len() {
                            assert(done1[j] == done[j]);
                        }
                    }
                }
                if acc > u64::MAX / 10 || (acc == u64::MAX / 10 && d > 5) {
                    proof {
                        assert(dec_value(done1) > u64::MAX);
                        lemma_dec_value_prefix(ds, i + 1 - start);
                    }
                    return None;
                }
                acc = acc * 10 + (d as u64);
            },
        }
        i = i + 1;
    }
    proof {
        assert(ds.subrange(0, ds.len() as int) =~= ds);
    }
    Some(acc)
}

/// The interval floor in effect: the environment override where it parses,
/// the built-in default otherwise.
pub open spec fn spec_interval_minimum(raw: Option<Seq<char>>) -> u64 {
    match raw {
        None => INTERVAL_MINIMUM_DEFAULT_NS,
        Some(s) => match spec_parse_u64(s) {
            Some(u) => u,
            None => INTERVAL_MINIMUM_DEFAULT_NS,
        },
    }
}

/// Computes the interval floor from the raw environment value, if any:
/// unparsable or absent values fall back silently to the built-in default.
pub fn interval_minimum_from_env(raw: Option<&str>) -> (r: u64)
    ensures
        r == spec_interval_minimum(match raw {
            Some(s) => Some(s@),
            None => None,
        }),
{
    match raw {
        None => INTERVAL_MINIMUM_DEFAULT_NS,
        Some(s) => match parse_u64(s) {
            Some(u) => u,
            None => INTERVAL_MINIMUM_DEFAULT_NS,
        },
    }
}

} // verus!
