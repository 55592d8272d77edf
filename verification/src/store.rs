//! The narrow storage interface the services are written against — append,
//! count, select-first, select-after, create-table, drop-table, list-tables —
//! realised as a verified in-memory reference store: one append-only table
//! per topic, keys assigned on insert and strictly increasing.

use vstd::prelude::*;
use vstd::slice::slice_to_vec;
use vstd::string::StrSliceExecFns;

use crate::err::ErrorKind;

verus! {

/// One record of a topic: the key assigned on insert and an opaque payload.
pub struct Record {
    pub key: u64,
    pub value: Vec<u8>,
}

/// One topic's backing table: an append-only record list and the key the
/// next insert will receive.
pub struct Table {
    pub name: String,
    pub records: Vec<Record>,
    pub next_key: u64,
}

impl Table {
    /// Keys start at 1, stay below the next key to be assigned, and strictly
    /// increase in insertion order.
    pub open spec fn wf(&self) -> bool {
        &&& 1 <= self.next_key
        &&& forall|i: int|
            0 <= i < self.records@.len() ==> (#[trigger] self.records@[i]).key < self.next_key
        &&& forall|i: int, j: int|
            0 <= i < j < self.records@.len()
                ==> (#[trigger] self.records@[i]).key < (#[trigger] self.records@[j]).key
    }
}

/// The position of the first record whose key is strictly above `prev`,
/// or -1 when there is none.
pub open spec fn first_index_above(rs: Seq<Record>, prev: u64) -> int
    decreases rs.len(),
{
    if rs.len() == 0 {
        -1
    } else if rs[0].key > prev {
        0
    } else {
        let r = first_index_above(rs.drop_first(), prev);
        if r == -1 { -1 } else { r + 1 }
    }
}

/// What `first_index_above` finds: either nothing is above `prev`, or the
/// found record is above `prev` and everything before it is not.
pub proof fn lemma_first_index_above(rs: Seq<Record>, prev: u64)
    ensures
        ({
            let r = first_index_above(rs, prev);
            &&& r == -1 ==> forall|m: int|
                0 <= m < rs.len() ==> (#[trigger] rs[m]).key <= prev
            &&& r != -1 ==> 0 <= r < rs.len() && rs[r].key > prev && forall|m: int|
                0 <= m < r ==> (#[trigger] rs[m]).key <= prev
        }),
    decreases rs.len(),
{
    if rs.len() > 0 && !(rs[0].key > prev) {
        let tail = rs.drop_first();
        lemma_first_index_above(tail, prev);
        let rt = first_index_above(tail, prev);
        if rt == -1 {
            assert forall|m: int| 0 <= m < rs.len() implies (#[trigger] rs[m]).key <= prev by {
                if m > 0 {
                    assert(tail[m - 1] == rs[m]);
                    assert(tail[m - 1].key <= prev);
                }
            }
        } else {
            assert(rs[rt + 1] == tail[rt]);
            assert forall|m: int| 0 <= m < rt + 1 implies (#[trigger] rs[m]).key <= prev by {
                if m > 0 {
                    assert(tail[m - 1] == rs[m]);
                    assert(tail[m - 1].key <= prev);
                }
            }
        }
    }
}

/// The whole store: the fixed namespace of tables, names unique.
pub struct TableStore {
    pub tables: Vec<Table>,
}

impl TableStore {
    pub open spec fn wf(&self) -> bool {
        &&& forall|i: int| 0 <= i < self.tables@.len() ==> (#[trigger] self.tables@[i]).wf()
        &&& forall|i: int, j: int|
            0 <= i < j < self.tables@.len()
                ==> (#[trigger] self.tables@[i]).name@ != (#[trigger] self.tables@[j]).name@
    }

    pub open spec fn has_table(&self, name: Seq<char>) -> bool {
        exists|i: int| 0 <= i < self.tables@.len() && (#[trigger] self.tables@[i]).name@ == name
    }

    pub open spec fn spec_index_of(&self, name: Seq<char>) -> int {
        choose|i: int| 0 <= i < self.tables@.len() && (#[trigger] self.tables@[i]).name@ == name
    }

    /// The table backing `name`; meaningful only when `has_table` holds.
    pub open spec fn table(&self, name: Seq<char>) -> Table {
        self.tables@[self.spec_index_of(name)]
    }

    /// Under `wf`, at most one table carries a given name.
    pub proof fn lemma_index_unique(&self, name: Seq<char>, i: int)
        requires
            self.wf(),
            0 <= i < self.tables@.len(),
            self.tables@[i].name@ == name,
        ensures
            self.has_table(name),
            self.spec_index_of(name) == i,
            self.table(name) == self.tables@[i],
    {
        let j = self.spec_index_of(name);
        if j != i {
            if j < i {
                assert(self.tables@[j].name@ != self.tables@[i].name@);
            } else {
                assert(self.tables@[i].name@ != self.tables@[j].name@);
            }
        }
    }

    pub fn new() -> (r: Self)
        ensures
            r.wf(),
            r.tables@.len() == 0,
    {
        TableStore { tables: Vec::new() }
    }

    /// The index of the table backing `name`, if one exists.
    fn index_of(&self, name: &str) -> (r: Option<usize>)
        requires
            self.wf(),
        ensures
            match r {
                Some(i) => {
                    &&& i < self.tables@.len()
                    &&& self.tables@[i as int].name@ == name@
                    &&& self.has_table(name@)
                    &&& self.spec_index_of(name@) == i
                },
                None => !self.has_table(name@),
            },
    {
        let n: usize = self.tables.len();
        let mut i: usize = 0;
        while i < n
            invariant
                self.wf(),
                i <= n,
                n == self.tables@.len(),
                forall|j: int| 0 <= j < i ==> (#[trigger] self.tables@[j]).name@ != name@,
            decreases n - i,
        {
            if str_eq(self.tables[i].name.as_str(), name) {
                proof {
                    self.lemma_index_unique(name@, i as int);
                }
                return Some(i);
            }
            i = i + 1;
        }
        None
    }

    /// Creates the backing table for `name`; a second create of the same
    /// name surfaces the generic backend-error mapping.
    pub fn create(&mut self, name: &str) -> (r: Result<(), ErrorKind>)
        requires
            old(self).wf(),
        ensures
            final(self).wf(),
            match r {
                Ok(()) => {
                    &&& !old(self).has_table(name@)
                    &&& final(self).has_table(name@)
                    &&& final(self).tables@.len() == old(self).tables@.len() + 1
                    &&& final(self).tables@.take(old(self).tables@.len() as int) == old(
                        self,
                    ).tables@
                    &&& final(self).table(name@).name@ == name@
                    &&& final(self).table(name@).records@.len() == 0
                    &&& final(self).table(name@).next_key == 1
                },
                Err(k) => {
                    &&& k == ErrorKind::Internal
                    &&& old(self).has_table(name@)
                    &&& *final(self) == *old(self)
                },
            },
    {
        match self.index_of(name) {
            Some(_) => Err(ErrorKind::Internal),
            None => {
                let t = Table { name: name.to_owned(), records: Vec::new(), next_key: 1 };
                let ghost n = self.tables@.len() as int;
                self.tables.push(t);
                proof {
                    assert(self.tables@.take(n) =~= old(self).tables@);
                    assert forall|i: int, j: int| 0 <= i < j < self.tables@.len() implies (
                    #[trigger] self.tables@[i]).name@ != (#[trigger] self.tables@[j]).name@ by {
                        if j < n {
                            assert(old(self).tables@[i].name@ != old(self).tables@[j].name@);
                        } else {
                            assert(old(self).tables@[i].name@ != name@);
                        }
                    }
                    self.lemma_index_unique(name@, n);
                }
                Ok(())
            },
        }
    }

    /// Removes the backing table for `name`; a missing table is not an error.
    pub fn drop_table(&mut self, name: &str)
        requires
            old(self).wf(),
        ensures
            final(self).wf(),
            !final(self).has_table(name@),
            old(self).has_table(name@) ==> final(self).tables@ == old(self).tables@.remove(
                old(self).spec_index_of(name@),
            ),
            !old(self).has_table(name@) ==> *final(self) == *old(self),
            forall|other: Seq<char>| #![trigger final(self).has_table(other)]
                other != name@ && old(self).has_table(other) ==> final(self).has_table(other),
            forall|other: Seq<char>| #![trigger final(self).table(other)]
                other != name@ && old(self).has_table(other) ==> final(self).table(other) == old(
                    self,
                ).table(other),
    {
        match self.index_of(name) {
            None => {},
            Some(i) => {
                let ghost pre = *self;
                self.tables.remove(i);
                proof {
                    assert forall|a: int, b: int| 0 <= a < b < self.tables@.len() implies (
                    #[trigger] self.tables@[a]).name@ != (#[trigger] self.tables@[b]).name@ by {
                        let a0 = if a < i as int { a } else { a + 1 };
                        let b0 = if b < i as int { b } else { b + 1 };
                        assert(pre.tables@[a0].name@ != pre.tables@[b0].name@);
                    }
                    assert forall|j: int|
                        0 <= j < self.tables@.len() implies (#[trigger] self.tables@[j]).name@
                        != name@ by {
                        let j0 = if j < i as int { j } else { j + 1 };
                        assert(self.tables@[j] == pre.tables@[j0]);
                        if j0 != i as int {
                            pre.lemma_index_unique(name@, i as int);
                            if pre.tables@[j0].name@ == name@ {
                                pre.lemma_index_unique(name@, j0);
                            }
                        }
                    }
                    assert forall|other: Seq<char>| #![trigger self.has_table(other)]
                        other != name@ && pre.has_table(other) implies self.has_table(other) by {
                        let j0 = pre.spec_index_of(other);
                        let j = if j0 < i as int { j0 } else { j0 - 1 };
                        assert(pre.tables@[j0].name@ == other);
                        assert(j0 != i as int);
                        assert(self.tables@[j] == pre.tables@[j0]);
                        self.lemma_index_unique(other, j);
                    }
                    assert forall|other: Seq<char>| #![trigger self.table(other)]
                        other != name@ && pre.has_table(other) implies self.table(other)
                        == pre.table(other) by {
                        let j0 = pre.spec_index_of(other);
                        let j = if j0 < i as int { j0 } else { j0 - 1 };
                        assert(pre.tables@[j0].name@ == other);
                        assert(j0 != i as int);
                        assert(self.tables@[j] == pre.tables@[j0]);
                        self.lemma_index_unique(other, j);
                    }
                }
            },
        }
    }

    /// Appends one record to the table backing `name`, assigning the next
    /// key; fails with the generic mapping when the table is missing or the
    /// key space is exhausted.
    pub fn append(&mut self, name: &str, value: Vec<u8>) -> (r: Result<u64, ErrorKind>)
        requires
            old(self).wf(),
        ensures
            final(self).wf(),
            match r {
                Ok(k) => {
                    &&& old(self).has_table(name@)
                    &&& final(self).has_table(name@)
                    &&& k == old(self).table(name@).next_key
                    &&& k < u64::MAX
                    &&& final(self).table(name@).name@ == name@
                    &&& final(self).table(name@).records@ == old(self).table(
                        name@,
                    ).records@.push((Record { key: k, value: value }))
                    &&& final(self).table(name@).next_key == k + 1
                    &&& final(self).tables@.len() == old(self).tables@.len()
                    &&& final(self).spec_index_of(name@) == old(self).spec_index_of(name@)
                    &&& forall|j: int|
                        0 <= j < old(self).tables@.len() && j != old(self).spec_index_of(name@)
                            ==> #[trigger] final(self).tables@[j] == old(self).tables@[j]
                },
                Err(k) => {
                    &&& k == ErrorKind::Internal
                    &&& *final(self) == *old(self)
                    &&& (!old(self).has_table(name@) || old(self).table(name@).next_key
                        == u64::MAX)
                },
            },
    {
        match self.index_of(name) {
            None => Err(ErrorKind::Internal),
            Some(i) => {
                if self.tables[i].next_key == u64::MAX {
                    return Err(ErrorKind::Internal);
                }
                let ghost pre = *self;
                let mut t: Table = self.tables.remove(i);
                let k: u64 = t.next_key;
                t.records.push(Record { key: k, value });
                t.next_key = k + 1;
                self.tables.insert(i, t);
                proof {
                    assert(self.tables@ =~= pre.tables@.update(i as int, self.tables@[i as int]));
                    assert forall|a: int, b: int| 0 <= a < b < self.tables@.len() implies (
                    #[trigger] self.tables@[a]).name@ != (#[trigger] self.tables@[b]).name@ by {
                        assert(pre.tables@[a].name@ != pre.tables@[b].name@);
                    }
                    self.lemma_index_unique(name@, i as int);
                }
                Ok(k)
            },
        }
    }

    /// How many records the table backing `name` holds.
    pub fn count(&self, name: &str) -> (r: Result<u64, ErrorKind>)
        requires
            self.wf(),
        ensures
            match r {
                Ok(c) => self.has_table(name@) && c as nat == self.table(name@).records@.len(),
                Err(k) => k == ErrorKind::Internal && !self.has_table(name@),
            },
    {
        match self.index_of(name) {
            None => Err(ErrorKind::Internal),
            Some(i) => Ok(self.tables[i].records.len() as u64),
        }
    }

    /// The record with the smallest key, `NotFound` on an empty table.
    pub fn select_first(&self, name: &str) -> (r: Result<(u64, Vec<u8>), ErrorKind>)
        requires
            self.wf(),
        ensures
            match r {
                Ok(kv) => {
                    &&& self.has_table(name@)
                    &&& self.table(name@).records@.len() > 0
                    &&& kv.0 == self.table(name@).records@[0].key
                    &&& kv.1@ == self.table(name@).records@[0].value@
                },
                Err(k) => {
                    ||| (k == ErrorKind::NotFound && self.has_table(name@) && self.table(
                        name@,
                    ).records@.len() == 0)
                    ||| (k == ErrorKind::Internal && !self.has_table(name@))
                },
            },
    {
        match self.index_of(name) {
            None => Err(ErrorKind::Internal),
            Some(i) => {
                let t: &Table = &self.tables[i];
                if t.records.len() == 0 {
                    Err(ErrorKind::NotFound)
                } else {
                    let key: u64 = t.records[0].key;
                    let value: Vec<u8> = clone_bytes(&t.records[0].value);
                    Ok((key, value))
                }
            },
        }
    }

    /// The record with the smallest key strictly above `prev`, `NotFound`
    /// when no key is above it.
    pub fn select_after(&self, name: &str, prev: u64) -> (r: Result<(u64, Vec<u8>), ErrorKind>)
        requires
            self.wf(),
        ensures
            match r {
                Ok(kv) => {
                    let idx = first_index_above(self.table(name@).records@, prev);
                    &&& self.has_table(name@)
                    &&& idx != -1
                    &&& kv.0 == self.table(name@).records@[idx].key
                    &&& kv.1@ == self.table(name@).records@[idx].value@
                },
                Err(k) => {
                    ||| (k == ErrorKind::NotFound && self.has_table(name@) && first_index_above(
                        self.table(name@).records@,
                        prev,
                    ) == -1)
                    ||| (k == ErrorKind::Internal && !self.has_table(name@))
                },
            },
    {
        match self.index_of(name) {
            None => Err(ErrorKind::Internal),
            Some(i) => {
                let t: &Table = &self.tables[i];
                let n: usize = t.records.len();
                let ghost rs = t.records@;
                proof {
                    lemma_first_index_above(rs, prev);
                }
                let mut j: usize = 0;
                while j < n
                    invariant
                        j <= n,
                        n == rs.len(),
                        rs == t.records@,
                        self.has_table(name@),
                        self.table(name@).records@ == rs,
                        forall|m: int| 0 <= m < j ==> (#[trigger] rs[m]).key <= prev,
                    decreases n - j,
                {
                    if t.records[j].key > prev {
                        proof {
                            lemma_first_index_above(rs, prev);
                        }
                        let key: u64 = t.records[j].key;
                        let value: Vec<u8> = clone_bytes(&t.records[j].value);
                        return Ok((key, value));
                    }
                    j = j + 1;
                }
                Err(ErrorKind::NotFound)
            },
        }
    }

    /// The keys of the table backing `name`, ascending, at most `limit` of
    /// them, counted from the smallest.
    pub fn keys(&self, name: &str, limit: u64) -> (r: Result<Vec<u64>, ErrorKind>)
        requires
            self.wf(),
        ensures
            match r {
                Ok(ks) => {
                    let rs = self.table(name@).records@;
                    &&& self.has_table(name@)
                    &&& ks@.len() == (if limit as nat <= rs.len() { limit as nat } else {
                        rs.len()
                    })
                    &&& forall|m: int| 0 <= m < ks@.len() ==> #[trigger] ks@[m] == rs[m].key
                },
                Err(k) => k == ErrorKind::Internal && !self.has_table(name@),
            },
    {
        match self.index_of(name) {
            None => Err(ErrorKind::Internal),
            Some(i) => {
                let t: &Table = &self.tables[i];
                let n: usize = t.records.len();
                let take_n: usize = if limit < n as u64 { limit as usize } else { n };
                let mut ks: Vec<u64> = Vec::new();
                let mut j: usize = 0;
                while j < take_n
                    invariant
                        j <= take_n,
                        take_n <= n,
                        n == t.records@.len(),
                        ks@.len() == j,
                        forall|m: int| 0 <= m < j ==> #[trigger] ks@[m] == t.records@[m].key,
                    decreases take_n - j,
                {
                    ks.push(t.records[j].key);
                    j = j + 1;
                }
                Ok(ks)
            },
        }
    }

    /// The names of every table in the namespace, in stored order.
    pub fn list_names(&self) -> (r: Vec<String>)
        ensures
            r@.len() == self.tables@.len(),
            forall|m: int| 0 <= m < r@.len() ==> (#[trigger] r@[m])@ == self.tables@[m].name@,
    {
        let n: usize = self.tables.len();
        let mut names: Vec<String> = Vec::new();
        let mut j: usize = 0;
        while j < n
            invariant
                j <= n,
                n == self.tables@.len(),
                names@.len() == j,
                forall|m: int| 0 <= m < j ==> (#[trigger] names@[m])@ == self.tables@[m].name@,
            decreases n - j,
        {
            names.push(self.tables[j].name.clone());
            j = j + 1;
        }
        names
    }
}

/// Monotonic keys: within one table, the record after the one at position
/// `i` — in the sense of the smallest key strictly above its key — is the
/// record at position `i + 1`, and the last record has no successor.
pub proof fn lemma_next_follows_push_order(t: Table, i: int)
    requires
        t.wf(),
        0 <= i < t.records@.len(),
    ensures
        i + 1 < t.records@.len() ==> first_index_above(t.records@, t.records@[i].key) == i + 1,
        i + 1 == t.records@.len() ==> first_index_above(t.records@, t.records@[i].key) == -1,
{
    let rs = t.records@;
    let prev = rs[i].key;
    lemma_first_index_above(rs, prev);
    let r = first_index_above(rs, prev);
    if r != -1 {
        if r < i {
            assert(rs[r].key < rs[i].key);
            assert(false);
        }
        if r == i {
            assert(false);
        }
    }
    if i + 1 < rs.len() {
        assert(rs[i + 1].key > prev);
        if r == -1 {
            assert(rs[i + 1].key <= prev);
            assert(false);
        }
        if r > i + 1 {
            assert(rs[i + 1].key <= prev);
            assert(false);
        }
    } else {
        if r != -1 {
            assert(r > i);
            assert(false);
        }
    }
}

/// Ordering: within a well-formed table, the record `first_index_above`
/// finds carries the smallest key strictly above `prev` — `next` never
/// skips a record and never goes backwards.
pub proof fn lemma_first_above_is_smallest(t: Table, prev: u64)
    requires
        t.wf(),
    ensures
        ({
            let rs = t.records@;
            let r = first_index_above(rs, prev);
            &&& r != -1 ==> rs[r].key > prev && forall|m: int|
                0 <= m < rs.len() && (#[trigger] rs[m]).key > prev ==> rs[r].key <= rs[m].key
            &&& r == -1 ==> forall|m: int|
                0 <= m < rs.len() ==> (#[trigger] rs[m]).key <= prev
        }),
{
    let rs = t.records@;
    lemma_first_index_above(rs, prev);
    let r = first_index_above(rs, prev);
    if r != -1 {
        assert forall|m: int|
            0 <= m < rs.len() && (#[trigger] rs[m]).key > prev implies rs[r].key <= rs[m].key by {
            if m < r {
                assert(rs[m].key <= prev);
            }
        }
    }
}

/// Byte-for-byte copy of a payload.
pub fn clone_bytes(v: &Vec<u8>) -> (r: Vec<u8>)
    ensures
        r@ == v@,
{
    slice_to_vec(v.as_slice())
}

/// Whether two strings hold the same characters.
fn str_eq(a: &str, b: &str) -> (r: bool)
    ensures
        r <==> a@ == b@,
{
    let alen: usize = a.unicode_len();
    let blen: usize = b.unicode_len();
    if alen != blen {
        return false;
    }
    let mut i: usize = 0;
    while i < alen
        invariant
            i <= alen,
            alen == a@.len(),
            alen == b@.len(),
            forall|j: int| 0 <= j < i ==> a@[j] == b@[j],
        decreases alen - i,
    {
        if a.get_char(i) != b.get_char(i) {
            return false;
        }
        i = i + 1;
    }
    proof {
        assert(a@ =~= b@);
    }
    true
}

} // verus!
