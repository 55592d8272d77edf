//! The service lock: one queue service and one topic service behind a
//! single mutual-exclusion region. Every inbound call of either kind takes
//! the same exclusive borrow, runs to completion and releases — a write or
//! read against a topic's table can never interleave with that topic's
//! create or drop. Here the region is the exclusive borrow itself: each
//! operation is one `&mut` call, so any concurrent use is forced into some
//! total serial order.

use vstd::prelude::*;

use crate::err::ErrorKind;
use crate::queue::cmd::{CountReq, KeysReq, NextReq, PushBackReq, WaitNextReq};
use crate::queue::rw::{gated_push_back_post, RwQueueSvc};
use crate::queue::svc::{count_post, keys_post, next_post, push_back_post};
use crate::queue::wait::WaitNextSession;
use crate::store::TableStore;
use crate::topic::cmd::{CreateReq, DropReq, ListReq};
use crate::topic::svc::{create_post, drop_post, Svc as TopicSvc};
use crate::topic2table::{Topic2Table, TopicConv};
use crate::uuid::Uuid;

verus! {

/// The wrapped pair and the store they share, behind one lock.
pub struct Locked<C, D> {
    q_svc: RwQueueSvc<C>,
    t_svc: TopicSvc<D>,
    db: TableStore,
}

/// Puts a queue service, a topic service and their shared store behind one
/// mutual-exclusion region.
pub fn locked_q_topic_svc_new<C: Topic2Table, D: TopicConv>(
    q_svc: RwQueueSvc<C>,
    t_svc: TopicSvc<D>,
    db: TableStore,
) -> (r: Locked<C, D>)
    requires
        db.wf(),
    ensures
        r.spec_q_svc() == q_svc,
        r.spec_t_svc() == t_svc,
        r.spec_db() == db,
{
    Locked { q_svc, t_svc, db }
}

impl<C: Topic2Table, D: TopicConv> Locked<C, D> {
    pub closed spec fn spec_q_svc(&self) -> RwQueueSvc<C> {
        self.q_svc
    }

    pub closed spec fn spec_t_svc(&self) -> TopicSvc<D> {
        self.t_svc
    }

    pub closed spec fn spec_db(&self) -> TableStore {
        self.db
    }

    pub open spec fn spec_writable(&self) -> bool {
        self.spec_q_svc().spec_writable()
    }

    /// The name the queue side resolves a topic to.
    pub open spec fn q_name_of(&self, topic_id: Uuid) -> Seq<char> {
        self.spec_q_svc().spec_internal().spec_name_of(topic_id)
    }

    /// The name the topic side resolves a topic to.
    pub open spec fn t_name_of(&self, topic_id: Uuid) -> Seq<char> {
        self.spec_t_svc().spec_name_of(topic_id)
    }

    pub open spec fn wf(&self) -> bool {
        self.spec_db().wf()
    }

    /// One critical section: a gated push.
    pub fn push_back(&mut self, req: &PushBackReq) -> (r: Result<(), ErrorKind>)
        requires
            old(self).wf(),
        ensures
            final(self).wf(),
            final(self).spec_q_svc() == old(self).spec_q_svc(),
            final(self).spec_t_svc() == old(self).spec_t_svc(),
            gated_push_back_post(
                old(self).spec_writable(),
                old(self).q_name_of(req.spec_topic_id()),
                old(self).spec_db(),
                final(self).spec_db(),
                req.spec_value(),
                r,
            ),
    {
        self.q_svc.push_back(&mut self.db, req)
    }

    /// One critical section: the reserved, gated pop.
    pub fn pop_front(&mut self) -> (r: Result<(), ErrorKind>)
        ensures
            *final(self) == *old(self),
            !old(self).spec_writable() ==> r == Err::<(), ErrorKind>(
                ErrorKind::FailedPrecondition,
            ),
            old(self).spec_writable() ==> r == Err::<(), ErrorKind>(ErrorKind::Unimplemented),
    {
        self.q_svc.pop_front()
    }

    /// One critical section: a count.
    pub fn count(&mut self, req: &CountReq) -> (r: Result<u64, ErrorKind>)
        requires
            old(self).wf(),
        ensures
            *final(self) == *old(self),
            count_post(old(self).q_name_of(req.spec_topic_id()), old(self).spec_db(), r),
    {
        self.q_svc.count(&self.db, req)
    }

    /// One critical section: a next.
    pub fn next(&mut self, req: &NextReq) -> (r: Result<(u64, Vec<u8>), ErrorKind>)
        requires
            old(self).wf(),
        ensures
            *final(self) == *old(self),
            next_post(
                old(self).q_name_of(req.spec_topic_id()),
                old(self).spec_db(),
                req.spec_previous_key(),
                r,
            ),
    {
        self.q_svc.next(&self.db, req)
    }

    /// One critical section: a bounded key enumeration.
    pub fn keys(&mut self, req: &KeysReq) -> (r: Result<Vec<u64>, ErrorKind>)
        requires
            old(self).wf(),
        ensures
            *final(self) == *old(self),
            keys_post(
                old(self).q_name_of(req.spec_topic_id()),
                old(self).spec_db(),
                req.spec_max_keys(),
                r,
            ),
    {
        self.q_svc.keys(&self.db, req)
    }

    /// One critical section: starting a long poll. The session is handed
    /// back at once; the polling itself runs outside the lock.
    pub fn wait_next(&mut self, req: &WaitNextReq) -> (s: WaitNextSession)
        ensures
            *final(self) == *old(self),
            s.previous == req.spec_previous_key(),
            s.interval_ns == req.spec_interval_ns(),
            s.timeout_ns == req.spec_timeout_ns(),
            s.retried == 0,
    {
        WaitNextSession::from_req(req)
    }

    /// One critical section: a create.
    pub fn create(&mut self, req: &CreateReq) -> (r: Result<(), ErrorKind>)
        requires
            old(self).wf(),
        ensures
            final(self).wf(),
            final(self).spec_q_svc() == old(self).spec_q_svc(),
            final(self).spec_t_svc() == old(self).spec_t_svc(),
            create_post(
                old(self).t_name_of(req.spec_topic_id()),
                old(self).spec_db(),
                final(self).spec_db(),
                r,
            ),
    {
        self.t_svc.create(&mut self.db, req)
    }

    /// One critical section: a drop.
    pub fn drop(&mut self, req: &DropReq)
        requires
            old(self).wf(),
        ensures
            final(self).wf(),
            final(self).spec_q_svc() == old(self).spec_q_svc(),
            final(self).spec_t_svc() == old(self).spec_t_svc(),
            drop_post(
                old(self).t_name_of(req.spec_topic_id()),
                old(self).spec_db(),
                final(self).spec_db(),
            ),
    {
        self.t_svc.drop(&mut self.db, req);
    }

    /// One critical section: a listing.
    pub fn list(&mut self, req: &ListReq) -> (r: Result<Vec<Uuid>, ErrorKind>)
        requires
            old(self).wf(),
        ensures
            *final(self) == *old(self),
            match r {
                Ok(ids) => {
                    &&& ids@.len() == old(self).spec_db().tables@.len()
                    &&& forall|i: int|
                        0 <= i < ids@.len() ==> old(self).spec_t_svc().spec_topic_conv().spec_name2id(
                            old(self).spec_db().tables@[i].name@,
                        ) == Some(#[trigger] ids@[i])
                },
                Err(k) => {
                    &&& k == ErrorKind::Internal
                    &&& exists|i: int|
                        0 <= i < old(self).spec_db().tables@.len() && old(
                            self,
                        ).spec_t_svc().spec_topic_conv().spec_name2id(
                            (#[trigger] old(self).spec_db().tables@[i]).name@,
                        ) is None
                },
            },
    {
        self.t_svc.list(&self.db, req)
    }

    /// Lets writes through from now on.
    pub fn make_writable(&mut self)
        ensures
            final(self).spec_writable(),
            final(self).spec_q_svc().spec_internal() == old(self).spec_q_svc().spec_internal(),
            final(self).spec_t_svc() == old(self).spec_t_svc(),
            final(self).spec_db() == old(self).spec_db(),
    {
        self.q_svc.make_writable()
    }

    /// Rejects writes from now on.
    pub fn make_readable(&mut self)
        ensures
            !final(self).spec_writable(),
            final(self).spec_q_svc().spec_internal() == old(self).spec_q_svc().spec_internal(),
            final(self).spec_t_svc() == old(self).spec_t_svc(),
            final(self).spec_db() == old(self).spec_db(),
    {
        self.q_svc.make_readable()
    }

    /// The mode the actor sees right now.
    pub fn is_writable(&self) -> (b: bool)
        ensures
            b == self.spec_writable(),
    {
        self.q_svc.is_writable()
    }
}

/// Mutual exclusion, one order: a push serialized before a drop of the same
/// topic lands its record first — it succeeds whenever the table exists
/// with key space left — and the drop then takes the whole table with it.
pub proof fn lemma_serial_push_then_drop(
    name: Seq<char>,
    s0: TableStore,
    s1: TableStore,
    s2: TableStore,
    value: Seq<u8>,
    r_push: Result<(), ErrorKind>,
)
    requires
        s0.has_table(name),
        s0.table(name).next_key < u64::MAX,
        push_back_post(name, s0, s1, value, r_push),
        drop_post(name, s1, s2),
    ensures
        r_push is Ok,
        !s2.has_table(name),
{
}

/// Mutual exclusion, the other order: a push serialized after a drop of the
/// same topic finds no table — it fails with the generic mapping and leaves
/// the store exactly as the drop left it. No third, interleaved outcome
/// exists.
pub proof fn lemma_serial_drop_then_push(
    name: Seq<char>,
    s0: TableStore,
    s1: TableStore,
    s2: TableStore,
    value: Seq<u8>,
    r_push: Result<(), ErrorKind>,
)
    requires
        drop_post(name, s0, s1),
        push_back_post(name, s1, s2, value, r_push),
    ensures
        r_push == Err::<(), ErrorKind>(ErrorKind::Internal),
        s2 == s1,
        !s2.has_table(name),
{
}

} // verus!
