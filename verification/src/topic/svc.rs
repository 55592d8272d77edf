//! The topic service: create, drop and list backing tables. Listing decodes
//! every table name in the namespace and aborts whole on the first foreign
//! name — no partial results.

use vstd::prelude::*;

use crate::err::ErrorKind;
use crate::store::TableStore;
use crate::topic::cmd::{CreateReq, DropReq, ListReq};
use crate::topic2table::TopicConv;
use crate::uuid::Uuid;

verus! {

/// What a create does to the store: a fresh, empty table for the topic,
/// first key 1, everything else untouched; a repeat create surfaces the
/// generic backend-error mapping unchanged.
pub open spec fn create_post(
    name: Seq<char>,
    pre: TableStore,
    post: TableStore,
    r: Result<(), ErrorKind>,
) -> bool {
    &&& post.wf()
    &&& match r {
        Ok(()) => {
            &&& !pre.has_table(name)
            &&& post.has_table(name)
            &&& post.tables@.len() == pre.tables@.len() + 1
            &&& post.tables@.take(pre.tables@.len() as int) == pre.tables@
            &&& post.table(name).records@.len() == 0
            &&& post.table(name).next_key == 1
        },
        Err(k) => k == ErrorKind::Internal && pre.has_table(name) && post == pre,
    }
}

/// What a drop does to the store: the topic's table is gone afterwards, a
/// missing table is not an error, and no other table is touched.
pub open spec fn drop_post(name: Seq<char>, pre: TableStore, post: TableStore) -> bool {
    &&& post.wf()
    &&& !post.has_table(name)
    &&& (!pre.has_table(name) ==> post == pre)
    &&& (pre.has_table(name) ==> post.tables@ == pre.tables@.remove(pre.spec_index_of(name)))
    &&& forall|other: Seq<char>| #![trigger post.has_table(other)]
        other != name && pre.has_table(other) ==> post.has_table(other)
    &&& forall|other: Seq<char>| #![trigger post.table(other)]
        other != name && pre.has_table(other) ==> post.table(other) == pre.table(other)
}

/// The topic service over a bidirectional codec.
pub struct Svc<T> {
    topic_conv: T,
}

/// Builds the topic service around a codec.
pub fn topic_svc_new<T: TopicConv>(topic_conv: T) -> (r: Svc<T>)
    ensures
        r.spec_topic_conv() == topic_conv,
{
    Svc { topic_conv }
}

impl<T: TopicConv> Svc<T> {
    pub closed spec fn spec_topic_conv(&self) -> T {
        self.topic_conv
    }

    /// The table name a request's topic resolves to.
    pub open spec fn spec_name_of(&self, topic_id: Uuid) -> Seq<char> {
        self.spec_topic_conv().spec_id2name(topic_id)
    }

    /// Creates the backing table of the request's topic.
    pub fn create(&self, db: &mut TableStore, req: &CreateReq) -> (r: Result<(), ErrorKind>)
        requires
            old(db).wf(),
        ensures
            create_post(self.spec_name_of(req.spec_topic_id()), *old(db), *final(db), r),
    {
        let name: String = self.topic_conv.id2name(req.as_topic_id());
        db.create(name.as_str())
    }

    /// Drops the backing table of the request's topic; a missing table is
    /// not an error.
    pub fn drop(&self, db: &mut TableStore, req: &DropReq)
        requires
            old(db).wf(),
        ensures
            drop_post(self.spec_name_of(req.spec_topic_id()), *old(db), *final(db)),
    {
        let name: String = self.topic_conv.id2name(req.as_topic_id());
        db.drop_table(name.as_str());
    }

    /// Lists every topic in the namespace by decoding each table name. One
    /// undecodable name aborts the whole listing with `Internal`: no
    /// partial results are ever returned.
    pub fn list(&self, db: &TableStore, _req: &ListReq) -> (r: Result<Vec<Uuid>, ErrorKind>)
        ensures
            match r {
                Ok(ids) => {
                    &&& ids@.len() == db.tables@.len()
                    &&& forall|i: int|
                        0 <= i < ids@.len() ==> self.spec_topic_conv().spec_name2id(
                            db.tables@[i].name@,
                        ) == Some(#[trigger] ids@[i])
                },
                Err(k) => {
                    &&& k == ErrorKind::Internal
                    &&& exists|i: int|
                        0 <= i < db.tables@.len() && self.spec_topic_conv().spec_name2id(
                            (#[trigger] db.tables@[i]).name@,
                        ) is None
                },
            },
    {
        let names: Vec<String> = db.list_names();
        let n: usize = names.len();
        let mut ids: Vec<Uuid> = Vec::new();
        let mut i: usize = 0;
        while i < n
            invariant
                i <= n,
                n == names@.len(),
                n == db.tables@.len(),
                forall|m: int| 0 <= m < n ==> (#[trigger] names@[m])@ == db.tables@[m].name@,
                ids@.len() == i,
                forall|m: int|
                    0 <= m < i ==> self.spec_topic_conv().spec_name2id(db.tables@[m].name@)
                        == Some(#[trigger] ids@[m]),
            decreases n - i,
        {
            match self.topic_conv.name2id(names[i].as_str()) {
                Ok(id) => {
                    ids.push(id);
                },
                Err(_) => {
                    return Err(ErrorKind::Internal);
                },
            }
            i = i + 1;
        }
        Ok(ids)
    }
}

} // verus!
