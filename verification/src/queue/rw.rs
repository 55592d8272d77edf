//! The read/write-mode actor and the gated queue service. The mode lives
//! behind one control loop reached only by messages; write paths consult it
//! before touching the backend, read paths ignore it.

use vstd::prelude::*;

use crate::err::ErrorKind;
use crate::queue::cmd::{CountReq, KeysReq, NextReq, PushBackReq};
use crate::queue::svc::{count_post, keys_post, next_post, push_back_post, Svc};
use crate::store::TableStore;
use crate::topic2table::Topic2Table;

verus! {

/// One message to the mode actor: change the mode, or ask for it.
#[derive(Clone, Copy, PartialEq, Eq, Structural, Debug)]
pub enum RwMsg {
    SetMode { writable: bool },
    QueryMode,
}

/// One reply from the mode actor.
#[derive(Clone, Copy, PartialEq, Eq, Structural, Debug)]
pub enum RwReply {
    Ack,
    State(bool),
}

/// The state of the mode actor: a single flag, initially read-only.
pub struct RwSvc {
    writable: bool,
}

/// The mode after the actor has handled a sequence of messages in arrival
/// order: queries change nothing, the last mode change wins.
pub open spec fn writable_after(init: bool, msgs: Seq<RwMsg>) -> bool
    decreases msgs.len(),
{
    if msgs.len() == 0 {
        init
    } else {
        match msgs.last() {
            RwMsg::SetMode { writable } => writable,
            RwMsg::QueryMode => writable_after(init, msgs.drop_last()),
        }
    }
}

/// The mode the last `Set` in a message sequence carries, if any.
pub open spec fn last_set(msgs: Seq<RwMsg>) -> Option<bool>
    decreases msgs.len(),
{
    if msgs.len() == 0 {
        None
    } else {
        match msgs.last() {
            RwMsg::SetMode { writable } => Some(writable),
            RwMsg::QueryMode => last_set(msgs.drop_last()),
        }
    }
}

/// No update is ever lost: after any message sequence the mode is exactly
/// what the most recent `Set` asked for, or the initial mode when none was
/// asked.
pub proof fn lemma_last_set_wins(init: bool, msgs: Seq<RwMsg>)
    ensures
        writable_after(init, msgs) == match last_set(msgs) {
            Some(w) => w,
            None => init,
        },
    decreases msgs.len(),
{
    if msgs.len() > 0 {
        lemma_last_set_wins(init, msgs.drop_last());
    }
}

/// The reply owed to the message at position `i`: an acknowledgement for a
/// mode change, and for a query the mode left by everything handled before
/// it — never anything older.
pub open spec fn reply_at(init: bool, msgs: Seq<RwMsg>, i: int) -> RwReply {
    match msgs[i] {
        RwMsg::SetMode { .. } => RwReply::Ack,
        RwMsg::QueryMode => RwReply::State(writable_after(init, msgs.take(i))),
    }
}

impl RwSvc {
    pub closed spec fn spec_writable(&self) -> bool {
        self.writable
    }

    /// A fresh actor: read-only.
    pub fn new() -> (r: Self)
        ensures
            !r.spec_writable(),
    {
        RwSvc { writable: false }
    }

    /// Handles one message: a mode change takes effect at once and is
    /// acknowledged; a query reports the current mode and changes nothing.
    pub fn step(&mut self, msg: RwMsg) -> (reply: RwReply)
        ensures
            match msg {
                RwMsg::SetMode { writable } => final(self).spec_writable() == writable && reply
                    == RwReply::Ack,
                RwMsg::QueryMode => *final(self) == *old(self) && reply == RwReply::State(
                    old(self).spec_writable(),
                ),
            },
    {
        match msg {
            RwMsg::SetMode { writable } => {
                self.writable = writable;
                RwReply::Ack
            },
            RwMsg::QueryMode => RwReply::State(self.writable),
        }
    }

    /// Handles a whole message sequence in arrival order: the final mode is
    /// `writable_after`, and every message gets exactly the reply owed to
    /// it.
    pub fn run(&mut self, msgs: &Vec<RwMsg>) -> (replies: Vec<RwReply>)
        ensures
            final(self).spec_writable() == writable_after(old(self).spec_writable(), msgs@),
            replies@.len() == msgs@.len(),
            forall|i: int|
                0 <= i < msgs@.len() ==> #[trigger] replies@[i] == reply_at(
                    old(self).spec_writable(),
                    msgs@,
                    i,
                ),
    {
        let n: usize = msgs.len();
        let mut replies: Vec<RwReply> = Vec::new();
        let mut i: usize = 0;
        proof {
            assert(msgs@.take(0) =~= Seq::<RwMsg>::empty());
        }
        while i < n
            invariant
                i <= n,
                n == msgs@.len(),
                replies@.len() == i,
                self.spec_writable() == writable_after(old(self).spec_writable(), msgs@.take(
                    i as int,
                )),
                forall|m: int|
                    0 <= m < i ==> #[trigger] replies@[m] == reply_at(
                        old(self).spec_writable(),
                        msgs@,
                        m,
                    ),
            decreases n - i,
        {
            let reply = self.step(msgs[i]);
            replies.push(reply);
            proof {
                let taken = msgs@.take(i + 1);
                assert(taken.drop_last() =~= msgs@.take(i as int));
                assert(taken.last() == msgs@[i as int]);
            }
            i = i + 1;
        }
        proof {
            assert(msgs@.take(n as int) =~= msgs@);
        }
        replies
    }
}

/// What a gated push does: rejected with `FailedPrecondition` before the
/// backend is touched while the queue is read-only; the plain push
/// otherwise.
pub open spec fn gated_push_back_post(
    writable: bool,
    name: Seq<char>,
    pre: TableStore,
    post: TableStore,
    value: Seq<u8>,
    r: Result<(), ErrorKind>,
) -> bool {
    if writable {
        push_back_post(name, pre, post, value, r)
    } else {
        r == Err::<(), ErrorKind>(ErrorKind::FailedPrecondition) && post == pre
    }
}

/// The queue service behind the mode actor: writes are gated, reads pass
/// through.
pub struct RwQueueSvc<T> {
    gate: RwSvc,
    internal: Svc<T>,
}

/// Builds the gated service around an inner queue service; the mode actor
/// starts read-only.
pub fn rw_q_svc_new<T: Topic2Table>(internal: Svc<T>) -> (r: RwQueueSvc<T>)
    ensures
        !r.spec_writable(),
        r.spec_internal() == internal,
{
    RwQueueSvc { gate: RwSvc::new(), internal }
}

impl<T: Topic2Table> RwQueueSvc<T> {
    pub closed spec fn spec_writable(&self) -> bool {
        self.gate.spec_writable()
    }

    pub closed spec fn spec_internal(&self) -> Svc<T> {
        self.internal
    }

    /// The mode the actor reports right now.
    pub fn is_writable(&self) -> (b: bool)
        ensures
            b == self.spec_writable(),
    {
        self.gate.is_writable_state()
    }

    fn change_mode(&mut self, writable: bool)
        ensures
            final(self).spec_writable() == writable,
            final(self).spec_internal() == old(self).spec_internal(),
    {
        self.gate.step(RwMsg::SetMode { writable });
    }

    /// Accept writes from now on; idempotent.
    pub fn make_writable(&mut self)
        ensures
            final(self).spec_writable(),
            final(self).spec_internal() == old(self).spec_internal(),
    {
        self.change_mode(true)
    }

    /// Reject writes from now on; idempotent.
    pub fn make_readable(&mut self)
        ensures
            !final(self).spec_writable(),
            final(self).spec_internal() == old(self).spec_internal(),
    {
        self.change_mode(false)
    }

    /// A write: consults the mode first and rejects with
    /// `FailedPrecondition` while read-only, before touching the backend.
    pub fn push_back(&self, db: &mut TableStore, req: &PushBackReq) -> (r: Result<(), ErrorKind>)
        requires
            old(db).wf(),
        ensures
            gated_push_back_post(
                self.spec_writable(),
                self.spec_internal().spec_name_of(req.spec_topic_id()),
                *old(db),
                *final(db),
                req.spec_value(),
                r,
            ),
    {
        let writable: bool = self.is_writable();
        if !writable {
            return Err(ErrorKind::FailedPrecondition);
        }
        self.internal.push_back(db, req)
    }

    /// The reserved write: gated like a push, then permanently
    /// unsupported.
    pub fn pop_front(&self) -> (r: Result<(), ErrorKind>)
        ensures
            !self.spec_writable() ==> r == Err::<(), ErrorKind>(ErrorKind::FailedPrecondition),
            self.spec_writable() ==> r == Err::<(), ErrorKind>(ErrorKind::Unimplemented),
    {
        let writable: bool = self.is_writable();
        if !writable {
            return Err(ErrorKind::FailedPrecondition);
        }
        self.internal.pop_front()
    }

    /// A read: passes through regardless of mode.
    pub fn count(&self, db: &TableStore, req: &CountReq) -> (r: Result<u64, ErrorKind>)
        requires
            db.wf(),
        ensures
            count_post(self.spec_internal().spec_name_of(req.spec_topic_id()), *db, r),
    {
        self.internal.count(db, req)
    }

    /// A read: passes through regardless of mode.
    pub fn next(&self, db: &TableStore, req: &NextReq) -> (r: Result<(u64, Vec<u8>), ErrorKind>)
        requires
            db.wf(),
        ensures
            next_post(
                self.spec_internal().spec_name_of(req.spec_topic_id()),
                *db,
                req.spec_previous_key(),
                r,
            ),
    {
        self.internal.next(db, req)
    }

    /// A read: passes through regardless of mode.
    pub fn keys(&self, db: &TableStore, req: &KeysReq) -> (r: Result<Vec<u64>, ErrorKind>)
        requires
            db.wf(),
        ensures
            keys_post(
                self.spec_internal().spec_name_of(req.spec_topic_id()),
                *db,
                req.spec_max_keys(),
                r,
            ),
    {
        self.internal.keys(db, req)
    }
}

impl RwSvc {
    /// The current mode, as a query sees it.
    pub fn is_writable_state(&self) -> (b: bool)
        ensures
            b == self.spec_writable(),
    {
        self.writable
    }
}

} // verus!
