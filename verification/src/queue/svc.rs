//! The queue service: push, count, next and key enumeration against one
//! topic, each a single call against the backend store. What each call does
//! to the store is stated once, as a predicate shared by every layer that
//! forwards it.

use vstd::prelude::*;
use vstd::slice::slice_to_vec;

use crate::err::ErrorKind;
use crate::queue::cmd::{CountReq, KeysReq, NextReq, PushBackReq};
use crate::store::{first_index_above, Record, TableStore};
use crate::topic2table::Topic2Table;

verus! {

/// The record `next` speaks of: the first one for no previous key, the
/// first one strictly after the previous key otherwise; -1 when none.
pub open spec fn next_index(rs: Seq<Record>, previous: Option<u64>) -> int {
    match previous {
        None => if rs.len() > 0 { 0 } else { -1 },
        Some(p) => first_index_above(rs, p),
    }
}

/// What a push does to the store: one record appended to the named table,
/// carrying the next key and the given payload; everything else untouched.
/// A missing table or an exhausted key space surfaces the generic mapping,
/// leaving the store unchanged.
pub open spec fn push_back_post(
    name: Seq<char>,
    pre: TableStore,
    post: TableStore,
    value: Seq<u8>,
    r: Result<(), ErrorKind>,
) -> bool {
    &&& post.wf()
    &&& match r {
        Ok(()) => {
            &&& pre.has_table(name)
            &&& post.has_table(name)
            &&& pre.table(name).next_key < u64::MAX
            &&& post.table(name).records@.len() == pre.table(name).records@.len() + 1
            &&& post.table(name).records@.take(pre.table(name).records@.len() as int)
                == pre.table(name).records@
            &&& post.table(name).records@.last().key == pre.table(name).next_key
            &&& post.table(name).records@.last().value@ == value
            &&& post.table(name).next_key == pre.table(name).next_key + 1
            &&& post.tables@.len() == pre.tables@.len()
            &&& post.spec_index_of(name) == pre.spec_index_of(name)
            &&& forall|j: int|
                0 <= j < pre.tables@.len() && j != pre.spec_index_of(name)
                    ==> #[trigger] post.tables@[j] == pre.tables@[j]
        },
        Err(k) => {
            &&& k == ErrorKind::Internal
            &&& post == pre
            &&& (!pre.has_table(name) || pre.table(name).next_key == u64::MAX)
        },
    }
}

/// What a count returns: the number of records of the named table.
pub open spec fn count_post(
    name: Seq<char>,
    db: TableStore,
    r: Result<u64, ErrorKind>,
) -> bool {
    match r {
        Ok(c) => db.has_table(name) && c as nat == db.table(name).records@.len(),
        Err(k) => k == ErrorKind::Internal && !db.has_table(name),
    }
}

/// What a next returns: the record `next_index` points at, `NotFound` when
/// there is none — the designated retry signal of the long poll.
pub open spec fn next_post(
    name: Seq<char>,
    db: TableStore,
    previous: Option<u64>,
    r: Result<(u64, Vec<u8>), ErrorKind>,
) -> bool {
    match r {
        Ok(kv) => {
            let idx = next_index(db.table(name).records@, previous);
            &&& db.has_table(name)
            &&& idx != -1
            &&& kv.0 == db.table(name).records@[idx].key
            &&& kv.1@ == db.table(name).records@[idx].value@
        },
        Err(k) => {
            ||| (k == ErrorKind::NotFound && db.has_table(name) && next_index(
                db.table(name).records@,
                previous,
            ) == -1)
            ||| (k == ErrorKind::Internal && !db.has_table(name))
        },
    }
}

/// What a key enumeration returns: the keys of the named table, ascending,
/// bounded by the caller's limit, counted from the smallest.
pub open spec fn keys_post(
    name: Seq<char>,
    db: TableStore,
    limit: u64,
    r: Result<Vec<u64>, ErrorKind>,
) -> bool {
    match r {
        Ok(ks) => {
            let rs = db.table(name).records@;
            &&& db.has_table(name)
            &&& ks@.len() == (if limit as nat <= rs.len() { limit as nat } else { rs.len() })
            &&& forall|m: int| 0 <= m < ks@.len() ==> #[trigger] ks@[m] == rs[m].key
        },
        Err(k) => k == ErrorKind::Internal && !db.has_table(name),
    }
}

/// Keys come out ascending: what a key enumeration returns from a
/// well-formed store is strictly increasing.
pub proof fn lemma_keys_ascending(
    name: Seq<char>,
    db: TableStore,
    limit: u64,
    ks: Vec<u64>,
)
    requires
        db.wf(),
        keys_post(name, db, limit, Ok(ks)),
    ensures
        forall|i: int, j: int| 0 <= i < j < ks@.len() ==> ks@[i] < ks@[j],
{
    let rs = db.table(name).records@;
    let idx = db.spec_index_of(name);
    assert(db.tables@[idx].wf());
    assert forall|i: int, j: int| 0 <= i < j < ks@.len() implies ks@[i] < ks@[j] by {
        assert(ks@[i] == rs[i].key);
        assert(ks@[j] == rs[j].key);
    }
}

/// The queue service over a table-name codec.
pub struct Svc<T> {
    topic2table: T,
}

/// Builds the queue service around a codec.
pub fn queue_svc_new<T: Topic2Table>(topic2table: T) -> (r: Svc<T>)
    ensures
        r.spec_topic2table() == topic2table,
{
    Svc { topic2table }
}

impl<T: Topic2Table> Svc<T> {
    pub closed spec fn spec_topic2table(&self) -> T {
        self.topic2table
    }

    /// The table name a request's topic resolves to.
    pub open spec fn spec_name_of(&self, topic_id: crate::uuid::Uuid) -> Seq<char> {
        self.spec_topic2table().spec_id2name(topic_id)
    }

    /// Appends the request's payload to the topic's table.
    pub fn push_back(&self, db: &mut TableStore, req: &PushBackReq) -> (r: Result<(), ErrorKind>)
        requires
            old(db).wf(),
        ensures
            push_back_post(
                self.spec_name_of(req.spec_topic_id()),
                *old(db),
                *final(db),
                req.spec_value(),
                r,
            ),
    {
        let name: String = self.topic2table.id2name(req.as_topic_id());
        let value: Vec<u8> = slice_to_vec(req.as_value());
        match db.append(name.as_str(), value) {
            Ok(_) => {
                proof {
                    let pre_rs = old(db).table(name@).records@;
                    assert(db.table(name@).records@.take(pre_rs.len() as int) =~= pre_rs);
                }
                Ok(())
            },
            Err(k) => Err(k),
        }
    }

    /// Pop is permanently unsupported: records are never deleted.
    pub fn pop_front(&self) -> (r: Result<(), ErrorKind>)
        ensures
            r == Err::<(), ErrorKind>(ErrorKind::Unimplemented),
    {
        Err(ErrorKind::Unimplemented)
    }

    /// Counts the records of the topic's table.
    pub fn count(&self, db: &TableStore, req: &CountReq) -> (r: Result<u64, ErrorKind>)
        requires
            db.wf(),
        ensures
            count_post(self.spec_name_of(req.spec_topic_id()), *db, r),
    {
        let name: String = self.topic2table.id2name(req.as_topic_id());
        db.count(name.as_str())
    }

    /// The record after the request's previous key, or the first record.
    pub fn next(&self, db: &TableStore, req: &NextReq) -> (r: Result<(u64, Vec<u8>), ErrorKind>)
        requires
            db.wf(),
        ensures
            next_post(
                self.spec_name_of(req.spec_topic_id()),
                *db,
                req.spec_previous_key(),
                r,
            ),
    {
        let name: String = self.topic2table.id2name(req.as_topic_id());
        match req.as_previous_key() {
            None => db.select_first(name.as_str()),
            Some(prev) => db.select_after(name.as_str(), prev),
        }
    }

    /// The keys of the topic's table, bounded by the request's limit.
    pub fn keys(&self, db: &TableStore, req: &KeysReq) -> (r: Result<Vec<u64>, ErrorKind>)
        requires
            db.wf(),
        ensures
            keys_post(self.spec_name_of(req.spec_topic_id()), *db, req.spec_max_keys(), r),
    {
        let name: String = self.topic2table.id2name(req.as_topic_id());
        db.keys(name.as_str(), req.as_max_keys())
    }
}

/// The exact sequence a key-enumeration producer hands to its consumer:
/// every key in order on success; on failure the error, delivered as the
/// stream's only element, then nothing.
pub fn keys_stream_items(keys: Result<Vec<u64>, ErrorKind>) -> (r: Vec<Result<u64, ErrorKind>>)
    ensures
        match keys {
            Ok(ks) => r@.len() == ks@.len() && forall|i: int|
                0 <= i < ks@.len() ==> #[trigger] r@[i] == Ok::<u64, ErrorKind>(ks@[i]),
            Err(e) => r@.len() == 1 && r@[0] == Err::<u64, ErrorKind>(e),
        },
{
    match keys {
        Ok(ks) => {
            let n: usize = ks.len();
            let mut items: Vec<Result<u64, ErrorKind>> = Vec::new();
            let mut i: usize = 0;
            while i < n
                invariant
                    i <= n,
                    n == ks@.len(),
                    items@.len() == i,
                    forall|m: int|
                        0 <= m < i ==> #[trigger] items@[m] == Ok::<u64, ErrorKind>(ks@[m]),
                decreases n - i,
            {
                items.push(Ok(ks[i]));
                i = i + 1;
            }
            items
        },
        Err(e) => {
            let mut items: Vec<Result<u64, ErrorKind>> = Vec::new();
            items.push(Err(e));
            items
        },
    }
}

} // verus!
