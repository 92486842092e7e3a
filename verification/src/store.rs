use crate::error::{ArgumentFault, PoolError};
use crate::fields::FieldMap;
use vstd::prelude::*;

verus! {

/// The largest number of records that one page may hold.
pub const MAX_PAGE: u64 = 100;

/// One record, as a value: the pool's identifier and its fields.
pub type Entry = (Seq<char>, Map<Seq<char>, Seq<char>>);

/// A pool's identifier together with the fields stored for it.
#[derive(Debug)]
pub struct PoolRecord {
    pub pool_id: String,
    pub fields: FieldMap,
}

impl View for PoolRecord {
    type V = Entry;

    open spec fn view(&self) -> Entry {
        (self.pool_id@, self.fields@)
    }
}

/// The values of a list of records, in the same order.
pub open spec fn entries_of(records: Seq<PoolRecord>) -> Seq<Entry> {
    Seq::new(records.len(), |i: int| records[i]@)
}

/// No two records belong to the same pool.
pub open spec fn distinct_pools(s: Seq<Entry>) -> bool {
    forall|i: int, j: int| 0 <= i < j < s.len() ==> (#[trigger] s[i]).0 != (#[trigger] s[j]).0
}

/// Some record belongs to `pool`.
pub open spec fn has_pool(s: Seq<Entry>, pool: Seq<char>) -> bool {
    exists|i: int| 0 <= i < s.len() && (#[trigger] s[i]).0 == pool
}

/// The index of a record that belongs to `pool`, if there is one.
pub open spec fn pool_slot(s: Seq<Entry>, pool: Seq<char>) -> int {
    choose|i: int| 0 <= i < s.len() && (#[trigger] s[i]).0 == pool
}

/// The fields stored for `pool`, or `None` where the pool is unknown.
pub open spec fn fields_of(s: Seq<Entry>, pool: Seq<char>) -> Option<Map<Seq<char>, Seq<char>>> {
    if has_pool(s, pool) {
        Some(s[pool_slot(s, pool)].1)
    } else {
        None
    }
}

/// The store after `value` was written under `name` for `pool`: the pool's
/// record keeps its place and gains or overwrites the field; an unknown pool
/// gets a new record, with this one field, behind all the others.
pub open spec fn with_field(
    s: Seq<Entry>,
    pool: Seq<char>,
    name: Seq<char>,
    value: Seq<char>,
) -> Seq<Entry> {
    if has_pool(s, pool) {
        let i = pool_slot(s, pool);
        s.update(i, (pool, s[i].1.insert(name, value)))
    } else {
        s.push((pool, Map::<Seq<char>, Seq<char>>::empty().insert(name, value)))
    }
}

/// Where a page that is asked for from position `from_index` starts in a
/// store of `count` records: there, or at the end where that is past it.
pub open spec fn page_start(count: nat, from_index: nat) -> nat {
    if from_index >= count {
        count
    } else {
        from_index
    }
}

/// Where a page of at most `limit` records from position `from_index` ends
/// in a store of `count` records.
pub open spec fn page_end(count: nat, from_index: nat, limit: nat) -> nat {
    if from_index + limit >= count {
        count
    } else {
        from_index + limit
    }
}

/// The records from position `from_index` on, at most `limit` of them, in
/// the store's order. Past the end there is nothing.
pub open spec fn page_of(s: Seq<Entry>, from_index: nat, limit: nat) -> Seq<Entry> {
    s.subrange(page_start(s.len(), from_index) as int, page_end(s.len(), from_index, limit) as int)
}

/// The positions that a page covers in a store of `count` records: from the
/// first of the pair up to, not including, the second. A `limit` over
/// [`MAX_PAGE`] is refused.
pub fn page_range(count: u64, from_index: u64, limit: u64) -> (r: Result<(u64, u64), PoolError>)
    ensures
        limit > MAX_PAGE <==> r is Err,
        r matches Err(e) ==> e@ == crate::error::Fault::InvalidArgument(
            ArgumentFault::LimitTooLarge,
        ),
        r matches Ok((start, end)) ==> {
            &&& start == page_start(count as nat, from_index as nat)
            &&& end == page_end(count as nat, from_index as nat, limit as nat)
            &&& start <= end <= count
            &&& end - start <= limit
        },
{
    if limit > MAX_PAGE {
        Err(PoolError::InvalidArgument(ArgumentFault::LimitTooLarge))
    } else if from_index >= count {
        Ok((count, count))
    } else if limit >= count - from_index {
        Ok((from_index, count))
    } else {
        Ok((from_index, from_index + limit))
    }
}

/// Among records of distinct pools, the record at `i` is the one found under
/// its pool.
pub proof fn lemma_pool_slot(s: Seq<Entry>, i: int)
    requires
        distinct_pools(s),
        0 <= i < s.len(),
    ensures
        has_pool(s, s[i].0),
        pool_slot(s, s[i].0) == i,
        fields_of(s, s[i].0) == Some(s[i].1),
{
    let pool = s[i].0;
    assert(has_pool(s, pool));
    let j = pool_slot(s, pool);
    assert(0 <= j < s.len() && s[j].0 == pool);
    if j < i {
        assert(s[j].0 != s[i].0);
    }
    if i < j {
        assert(s[i].0 != s[j].0);
    }
}

/// Writing a field keeps the pools distinct.
pub proof fn lemma_with_field_distinct(
    s: Seq<Entry>,
    pool: Seq<char>,
    name: Seq<char>,
    value: Seq<char>,
)
    requires
        distinct_pools(s),
    ensures
        distinct_pools(with_field(s, pool, name, value)),
        has_pool(with_field(s, pool, name, value), pool),
{
    let t = with_field(s, pool, name, value);
    let at = if has_pool(s, pool) {
        pool_slot(s, pool)
    } else {
        s.len() as int
    };
    assert(0 <= at < t.len() && t[at].0 == pool);
    assert forall|a: int, b: int| 0 <= a < b < t.len() implies (#[trigger] t[a]).0 != (
    #[trigger] t[b]).0 by {
        if a < s.len() && b < s.len() {
            assert(s[a].0 != s[b].0);
            assert(t[a].0 == s[a].0 && t[b].0 == s[b].0);
        } else {
            assert(b == s.len() && !has_pool(s, pool));
            assert(t[a] == s[a]);
        }
    }
}

/// The record store: the pools that have at least one field, in the order in
/// which they were first written, each with its fields.
#[derive(Debug)]
pub struct RecordStore {
    records: Vec<PoolRecord>,
}

impl View for RecordStore {
    type V = Seq<Entry>;

    closed spec fn view(&self) -> Seq<Entry> {
        entries_of(self.records@)
    }
}

impl RecordStore {
    /// The invariant of the type: every record's fields are well formed, no
    /// record is without a field, and no two records belong to the same pool.
    pub closed spec fn wf(&self) -> bool {
        &&& forall|i: int| 0 <= i < self.records@.len() ==> (#[trigger] self.records@[i]).fields.wf()
        &&& forall|i: int| 0 <= i < self.records@.len() ==> (#[trigger] self.records@[i]).fields@.len() > 0
        &&& distinct_pools(self@)
    }

    /// What the invariant says of the store as a value.
    pub proof fn lemma_wf(&self)
        requires
            self.wf(),
        ensures
            distinct_pools(self@),
            forall|i: int| 0 <= i < self@.len() ==> (#[trigger] self@[i]).1.dom().finite(),
            forall|i: int| 0 <= i < self@.len() ==> (#[trigger] self@[i]).1.len() > 0,
    {
        assert forall|i: int| 0 <= i < self@.len() implies (#[trigger] self@[i]).1.dom().finite()
            && self@[i].1.len() > 0 by {
            self.records@[i].fields.lemma_finite();
        }
    }

    /// The empty store.
    pub fn new() -> (r: RecordStore)
        ensures
            r.wf(),
            r@ == Seq::<Entry>::empty(),
    {
        let r = RecordStore { records: Vec::new() };
        assert(r@ =~= Seq::<Entry>::empty());
        r
    }

    fn position(&self, pool_id: &String) -> (r: Option<usize>)
        ensures
            match r {
                Some(i) => i < self@.len() && self@[i as int].0 == pool_id@,
                None => !has_pool(self@, pool_id@),
            },
    {
        let mut i: usize = 0;
        while i < self.records.len()
            invariant
                i <= self.records@.len(),
                self@.len() == self.records@.len(),
                forall|j: int| 0 <= j < i ==> (#[trigger] self@[j]).0 != pool_id@,
            decreases self.records@.len() - i,
        {
            assert(self@[i as int].0 == self.records@[i as int].pool_id@);
            if self.records[i].pool_id == *pool_id {
                return Some(i);
            }
            i += 1;
        }
        None
    }

    /// The fields of `pool_id`, or `None` where the pool is unknown.
    pub fn get(&self, pool_id: &String) -> (r: Option<FieldMap>)
        requires
            self.wf(),
        ensures
            match r {
                Some(f) => f.wf() && fields_of(self@, pool_id@) == Some(f@),
                None => fields_of(self@, pool_id@) is None,
            },
    {
        match self.position(pool_id) {
            Some(i) => {
                proof {
                    lemma_pool_slot(self@, i as int);
                }
                Some(self.records[i].fields.duplicate())
            },
            None => None,
        }
    }

    /// The number of pools with at least one field.
    pub fn count(&self) -> (r: u64)
        ensures
            r == self@.len(),
    {
        self.records.len() as u64
    }

    /// Writes `value` under `name` for `pool_id`, creating the pool's record
    /// where there was none.
    pub fn upsert(&mut self, pool_id: String, name: String, value: String)
        requires
            old(self).wf(),
        ensures
            final(self).wf(),
            final(self)@ == with_field(old(self)@, pool_id@, name@, value@),
    {
        let ghost before = self@;
        let ghost pool = pool_id@;
        let ghost k = name@;
        let ghost v = value@;
        proof {
            lemma_with_field_distinct(before, pool, k, v);
        }
        match self.position(&pool_id) {
            Some(i) => {
                proof {
                    lemma_pool_slot(before, i as int);
                }
                let mut fields = self.records[i].fields.duplicate();
                fields.insert(name, value);
                proof {
                    fields.lemma_finite();
                    assert(fields@.contains_key(k));
                }
                self.records[i] = PoolRecord { pool_id, fields };
                assert(self@ =~= with_field(before, pool, k, v));
            },
            None => {
                let mut fields = FieldMap::new();
                fields.insert(name, value);
                proof {
                    fields.lemma_finite();
                    assert(fields@.contains_key(k));
                }
                self.records.push(PoolRecord { pool_id, fields });
                assert(self@ =~= with_field(before, pool, k, v));
            },
        }
    }

    /// One page of the store: the records from position `from_index` on, at
    /// most `limit` of them, in the store's order. A `limit` over
    /// [`MAX_PAGE`] is refused before anything is read.
    pub fn page(&self, from_index: u64, limit: u64) -> (r: Result<Vec<PoolRecord>, PoolError>)
        requires
            self.wf(),
        ensures
            limit > MAX_PAGE <==> r is Err,
            r matches Err(e) ==> e@ == crate::error::Fault::InvalidArgument(
                ArgumentFault::LimitTooLarge,
            ),
            r matches Ok(page) ==> {
                &&& entries_of(page@) == page_of(self@, from_index as nat, limit as nat)
                &&& page@.len() == page_of(self@, from_index as nat, limit as nat).len()
                &&& page@.len() <= MAX_PAGE
                &&& forall|i: int| 0 <= i < page@.len() ==> (#[trigger] page@[i]).fields.wf()
            },
    {
        let n: usize = self.records.len();
        let (first, last) = match page_range(n as u64, from_index, limit) {
            Err(e) => {
                return Err(e);
            },
            Ok(range) => range,
        };
        let start: usize = first as usize;
        let end: usize = last as usize;
        let mut page: Vec<PoolRecord> = Vec::new();
        let mut i: usize = start;
        while i < end
            invariant
                start <= i <= end <= n,
                n == self.records@.len(),
                page@.len() == i - start,
                self.wf(),
                forall|j: int|
                    0 <= j < page@.len() ==> (#[trigger] page@[j])@ == self.records@[start + j]@
                        && page@[j].fields.wf(),
            decreases end - i,
        {
            let record = PoolRecord {
                pool_id: self.records[i].pool_id.clone(),
                fields: self.records[i].fields.duplicate(),
            };
            page.push(record);
            i += 1;
        }
        assert(entries_of(page@) =~= page_of(self@, from_index as nat, limit as nat));
        Ok(page)
    }
}

} // verus!
