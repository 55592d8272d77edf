//! The count service: an exact record count for one topic, an independent
//! validation path beside the queue service's own count.

use vstd::prelude::*;

use crate::count::cmd::ExactReq;
use crate::err::ErrorKind;
use crate::queue::svc::count_post;
use crate::store::TableStore;
use crate::topic2table::Topic2Table;

verus! {

/// The count service over a table-name codec.
pub struct Svc<T> {
    topic2table: T,
}

/// Builds the count service around a codec.
pub fn count_svc_new<T: Topic2Table>(topic2table: T) -> (r: Svc<T>)
    ensures
        r.spec_topic2table() == topic2table,
{
    Svc { topic2table }
}

impl<T: Topic2Table> Svc<T> {
    pub closed spec fn spec_topic2table(&self) -> T {
        self.topic2table
    }

    /// The table name a request's topic resolves to.
    pub open spec fn spec_name_of(&self, topic_id: crate::uuid::Uuid) -> Seq<char> {
        self.spec_topic2table().spec_id2name(topic_id)
    }

    /// Counts the records of an already-resolved table.
    pub fn count(&self, db: &TableStore, checked_name: &str) -> (r: Result<u64, ErrorKind>)
        requires
            db.wf(),
        ensures
            count_post(checked_name@, *db, r),
    {
        db.count(checked_name)
    }

    /// The exact record count of the request's topic.
    pub fn exact(&self, db: &TableStore, req: &ExactReq) -> (r: Result<u64, ErrorKind>)
        requires
            db.wf(),
        ensures
            count_post(self.spec_name_of(req.spec_topic_id()), *db, r),
    {
        let name: String = self.topic2table.id2name(req.as_topic());
        self.count(db, name.as_str())
    }
}

} // verus!
