//! The long-poll protocol: one ephemeral session per call, polling the
//! backend at the clamped interval until a record appears, the timeout
//! passes, or the backend fails. `NotFound` is the retry signal, swallowed
//! here and nowhere else; the consumer receives exactly zero or one reply.

use vstd::prelude::*;

use crate::err::ErrorKind;
use crate::queue::cmd::WaitNextReq;
use crate::store::clone_bytes;

verus! {

/// The per-call state of one long poll: the previous key handed to every
/// poll, the clamped interval, the deadline, and how often the poll came
/// back empty so far.
pub struct WaitNextSession {
    pub previous: Option<u64>,
    pub interval_ns: u64,
    pub timeout_ns: u64,
    pub retried: u64,
}

/// The single reply a long poll delivers.
pub enum WaitReply {
    /// A record appeared: its key and payload, how long the call had been
    /// running, and how many empty polls preceded it.
    Next { key: u64, value: Vec<u8>, elapsed_ns: u64, retried: u64 },
    /// The deadline passed first.
    Timeout { retried: u64 },
    /// The backend failed with something other than the retry signal.
    Failed { kind: ErrorKind, retried: u64 },
}

impl WaitReply {
    /// The classification a failing reply carries: the deadline case is
    /// `DeadlineExceeded`, a forwarded backend failure keeps its kind, and
    /// a delivered record has none.
    pub fn failure_kind(&self) -> (r: Option<ErrorKind>)
        ensures
            (self matches WaitReply::Next { .. }) <==> r is None,
            self matches WaitReply::Timeout { .. } ==> r == Some(ErrorKind::DeadlineExceeded),
            self matches WaitReply::Failed { kind, .. } ==> r == Some(*kind),
    {
        match self {
            WaitReply::Next { .. } => None,
            WaitReply::Timeout { .. } => Some(ErrorKind::DeadlineExceeded),
            WaitReply::Failed { kind, .. } => Some(*kind),
        }
    }
}

/// What one poll observed: the elapsed time at the deadline check before
/// it, and what the backend returned.
pub struct WaitEvent {
    pub elapsed_ns: u64,
    pub poll: Result<(u64, Vec<u8>), ErrorKind>,
}

impl WaitEvent {
    /// Whether this event ends the loop for a session with this deadline.
    pub open spec fn terminal(&self, timeout_ns: u64) -> bool {
        ||| self.elapsed_ns >= timeout_ns
        ||| self.poll is Ok
        ||| (self.poll matches Err(k) && k != ErrorKind::NotFound)
    }
}

/// The position of the first event that ends the loop, or -1 when the
/// whole schedule is consumed without an answer.
pub open spec fn terminating_index(timeout_ns: u64, events: Seq<WaitEvent>) -> int
    decreases events.len(),
{
    if events.len() == 0 {
        -1
    } else if events[0].terminal(timeout_ns) {
        0
    } else {
        let r = terminating_index(timeout_ns, events.drop_first());
        if r == -1 {
            -1
        } else {
            r + 1
        }
    }
}

/// Where the terminating index points: every event before it is an empty
/// poll within the deadline, and it is the first that is not.
pub proof fn lemma_terminating_index(timeout_ns: u64, events: Seq<WaitEvent>)
    ensures
        ({
            let t = terminating_index(timeout_ns, events);
            &&& t == -1 ==> forall|m: int|
                0 <= m < events.len() ==> !(#[trigger] events[m]).terminal(timeout_ns)
            &&& t != -1 ==> 0 <= t < events.len() && events[t].terminal(timeout_ns) && forall|
                m: int,
            |
                0 <= m < t ==> !(#[trigger] events[m]).terminal(timeout_ns)
        }),
    decreases events.len(),
{
    if events.len() > 0 && !events[0].terminal(timeout_ns) {
        let tail = events.drop_first();
        lemma_terminating_index(timeout_ns, tail);
        let rt = terminating_index(timeout_ns, tail);
        if rt == -1 {
            assert forall|m: int| 0 <= m < events.len() implies !(#[trigger] events[m]).terminal(
                timeout_ns,
            ) by {
                if m > 0 {
                    assert(tail[m - 1] == events[m]);
                }
            }
        } else {
            assert(events[rt + 1] == tail[rt]);
            assert forall|m: int| 0 <= m < rt + 1 implies !(#[trigger] events[m]).terminal(
                timeout_ns,
            ) by {
                if m > 0 {
                    assert(tail[m - 1] == events[m]);
                }
            }
        }
    }
}

impl WaitNextSession {
    /// A fresh session for a validated request: no retries yet.
    pub fn from_req(req: &WaitNextReq) -> (s: Self)
        ensures
            s.previous == req.spec_previous_key(),
            s.interval_ns == req.spec_interval_ns(),
            s.timeout_ns == req.spec_timeout_ns(),
            s.retried == 0,
    {
        WaitNextSession {
            previous: req.as_previous_key(),
            interval_ns: req.as_interval(),
            timeout_ns: req.as_timeout(),
            retried: 0,
        }
    }

    /// The check made before every poll: once the elapsed time reaches the
    /// timeout, the session ends with `Timeout` carrying the retry count.
    pub fn check_deadline(&self, elapsed_ns: u64) -> (r: Option<WaitReply>)
        ensures
            elapsed_ns >= self.timeout_ns ==> r == Some(
                (WaitReply::Timeout { retried: self.retried }),
            ),
            elapsed_ns < self.timeout_ns ==> r is None,
    {
        if elapsed_ns >= self.timeout_ns {
            Some(WaitReply::Timeout { retried: self.retried })
        } else {
            None
        }
    }

    /// Consumes one poll result: a record is delivered at once with the
    /// elapsed time and retry count; the retry signal `NotFound` bumps the
    /// counter and asks for another tick; any other failure is delivered.
    pub fn on_poll(&mut self, elapsed_ns: u64, poll: Result<(u64, Vec<u8>), ErrorKind>) -> (r:
        Option<WaitReply>)
        requires
            old(self).retried < u64::MAX,
        ensures
            final(self).previous == old(self).previous,
            final(self).interval_ns == old(self).interval_ns,
            final(self).timeout_ns == old(self).timeout_ns,
            match poll {
                Ok(kv) => {
                    &&& final(self).retried == old(self).retried
                    &&& r matches Some(reply)
                    &&& reply matches WaitReply::Next { key, value, elapsed_ns: e, retried }
                    &&& key == kv.0
                    &&& value@ == kv.1@
                    &&& e == elapsed_ns
                    &&& retried == old(self).retried
                },
                Err(k) => {
                    if k == ErrorKind::NotFound {
                        r is None && final(self).retried == old(self).retried + 1
                    } else {
                        final(self).retried == old(self).retried && r == Some(
                            (WaitReply::Failed { kind: k, retried: old(self).retried }),
                        )
                    }
                },
            },
    {
        match poll {
            Ok((key, value)) => Some(
                WaitReply::Next { key, value, elapsed_ns, retried: self.retried },
            ),
            Err(k) => {
                if matches!(k, ErrorKind::NotFound) {
                    self.retried = self.retried + 1;
                    None
                } else {
                    Some(WaitReply::Failed { kind: k, retried: self.retried })
                }
            },
        }
    }

    /// Plays a whole poll schedule against the session, in order, exactly
    /// as the loop does: deadline check, then poll, until one of them
    /// answers. `None` means the schedule ran out with the session still
    /// waiting; the consumer has received nothing.
    pub fn run(&mut self, events: &Vec<WaitEvent>) -> (r: Option<WaitReply>)
        requires
            old(self).retried + events@.len() < u64::MAX,
        ensures
            final(self).previous == old(self).previous,
            final(self).interval_ns == old(self).interval_ns,
            final(self).timeout_ns == old(self).timeout_ns,
            ({
                let t = terminating_index(old(self).timeout_ns, events@);
                match r {
                    None => t == -1 && final(self).retried == old(self).retried + events@.len(),
                    Some(reply) => {
                        let e = events@[t];
                        &&& 0 <= t < events@.len()
                        &&& final(self).retried == old(self).retried + t
                        &&& if e.elapsed_ns >= old(self).timeout_ns {
                            reply == (WaitReply::Timeout { retried: (old(self).retried + t) as u64 })
                        } else {
                            match e.poll {
                                Ok(kv) => {
                                    &&& reply matches WaitReply::Next {
                                        key,
                                        value,
                                        elapsed_ns: el,
                                        retried,
                                    }
                                    &&& key == kv.0
                                    &&& value@ == kv.1@
                                    &&& el == e.elapsed_ns
                                    &&& retried == old(self).retried + t
                                },
                                Err(k) => k != ErrorKind::NotFound && reply == (
                                WaitReply::Failed {
                                    kind: k,
                                    retried: (old(self).retried + t) as u64,
                                }),
                            }
                        }
                    },
                }
            }),
    {
        proof {
            lemma_terminating_index(old(self).timeout_ns, events@);
        }
        let n: usize = events.len();
        let mut i: usize = 0;
        while i < n
            invariant
                i <= n,
                n == events@.len(),
                self.previous == old(self).previous,
                self.interval_ns == old(self).interval_ns,
                self.timeout_ns == old(self).timeout_ns,
                self.retried == old(self).retried + i,
                old(self).retried + n < u64::MAX,
                forall|m: int|
                    0 <= m < i ==> !(#[trigger] events@[m]).terminal(old(self).timeout_ns),
            decreases n - i,
        {
            let e: &WaitEvent = &events[i];
            match self.check_deadline(e.elapsed_ns) {
                Some(reply) => {
                    proof {
                        lemma_terminating_index(old(self).timeout_ns, events@);
                    }
                    return Some(reply);
                },
                None => {},
            }
            let poll: Result<(u64, Vec<u8>), ErrorKind> = match &e.poll {
                Ok(kv) => Ok((kv.0, clone_bytes(&kv.1))),
                Err(k) => Err(*k),
            };
            match self.on_poll(e.elapsed_ns, poll) {
                Some(reply) => {
                    proof {
                        lemma_terminating_index(old(self).timeout_ns, events@);
                    }
                    return Some(reply);
                },
                None => {},
            }
            i = i + 1;
        }
        proof {
            lemma_terminating_index(old(self).timeout_ns, events@);
        }
        None
    }
}

} // verus!
