//! The authoritative collection of records, in creation order.

use vstd::prelude::*;
use crate::record::{Record, RecordId, RecordView, random_id};
use crate::timestamp::{Timestamp, now_utc, parse_time, rfc3339_parse};

verus! {

/// Why a store operation was refused.
#[derive(Debug, PartialEq, Eq)]
pub enum StoreError {
    /// The target text is not an RFC 3339 date-time.
    BadInput(String),
    /// No record has the identifier.
    NotFound,
    /// The identifier drawn for a new record is already taken, or an instant
    /// has no text form when the records are written out.
    Internal,
}

/// The message that comes with a target text that does not parse.
pub const BAD_TIME_MESSAGE: &'static str = "Invalid datetime (expected RFC3339)";

/// The identifiers of a sequence of records are pairwise distinct.
pub open spec fn ids_distinct(rs: Seq<RecordView>) -> bool {
    forall|i: int, j: int| 0 <= i < rs.len() && 0 <= j < rs.len() && i != j ==> rs[i].id != rs[j].id
}

/// Some record of the sequence has the identifier.
pub open spec fn has_id(rs: Seq<RecordView>, id: RecordId) -> bool {
    exists|i: int| 0 <= i < rs.len() && rs[i].id == id
}

/// The records of the sequence whose identifier is not `id`, in order.
pub open spec fn without_id(rs: Seq<RecordView>, id: RecordId) -> Seq<RecordView> {
    rs.filter(|r: RecordView| r.id != id)
}

/// The sequence with the title and target of the record that has `id`
/// replaced, every other record and every position kept.
pub open spec fn with_update(
    rs: Seq<RecordView>,
    id: RecordId,
    title: Seq<char>,
    target: Timestamp,
) -> Seq<RecordView> {
    rs.map_values(
        |r: RecordView|
            if r.id == id {
                RecordView { title: title, target: target, ..r }
            } else {
                r
            },
    )
}

/// The records of a store, with their identifiers distinct and their
/// instants well formed.
pub open spec fn valid_records(rs: Seq<RecordView>) -> bool {
    ids_distinct(rs) && forall|i: int| 0 <= i < rs.len() ==> (#[trigger] rs[i]).wf()
}

/// The records, in the order in which they were created.
pub struct RecordStore {
    records: Vec<Record>,
}

/// The views of a vector of records.
pub open spec fn views(v: Seq<Record>) -> Seq<RecordView> {
    v.map_values(|r: Record| r@)
}

impl View for RecordStore {
    type V = Seq<RecordView>;

    closed spec fn view(&self) -> Seq<RecordView> {
        views(self.records@)
    }
}

impl RecordStore {
    pub closed spec fn wf(&self) -> bool {
        valid_records(self@)
    }

    /// A well-formed store holds valid records.
    pub proof fn lemma_wf_records(&self)
        requires
            self.wf(),
        ensures
            valid_records(self@),
    {
    }

    /// A store with no records.
    pub fn new() -> (r: RecordStore)
        ensures
            r.wf(),
            r@ == Seq::<RecordView>::empty(),
    {
        let r = RecordStore { records: Vec::new() };
        assert(r@ =~= Seq::<RecordView>::empty());
        r
    }

    /// All records, in stored order.
    pub fn list(&self) -> (r: Vec<Record>)
        ensures
            views(r@) == self@,
    {
        let mut out: Vec<Record> = Vec::new();
        let mut i: usize = 0;
        while i < self.records.len()
            invariant
                i <= self.records.len(),
                views(out@) =~= views(self.records@).take(i as int),
            decreases self.records.len() - i,
        {
            let ghost prev = out@;
            out.push(self.records[i].duplicate());
            assert(views(out@) =~= views(prev).push(self.records@[i as int]@));
            assert(views(self.records@).take(i as int + 1) =~= views(self.records@).take(i as int).push(self.records@[i as int]@));
            i = i + 1;
        }
        assert(views(self.records@).take(i as int) =~= views(self.records@));
        out
    }

    /// The number of records.
    pub fn len(&self) -> (r: usize)
        ensures
            r == self@.len(),
    {
        self.records.len()
    }

    /// The position of the record that has `id`, if any.
    fn position_of(&self, id: RecordId) -> (r: Option<usize>)
        ensures
            r is None <==> !has_id(self@, id),
            r matches Some(i) ==> i < self@.len() && self@[i as int].id == id,
    {
        let mut i: usize = 0;
        while i < self.records.len()
            invariant
                i <= self.records.len(),
                forall|k: int| 0 <= k < i ==> self@[k].id != id,
            decreases self.records.len() - i,
        {
            if self.records[i].id == id {
                assert(self@[i as int].id == id);
                return Some(i);
            }
            i = i + 1;
        }
        None
    }

    /// Whether some record has `id`.
    pub fn contains(&self, id: RecordId) -> (r: bool)
        ensures
            r == has_id(self@, id),
    {
        self.position_of(id).is_some()
    }

    /// Appends a record with the given fields, unless `id` is taken.
    pub fn insert_new(&mut self, id: RecordId, title: String, target: Timestamp, created_at: Timestamp)
        -> (r: Result<Record, StoreError>)
        requires
            old(self).wf(),
            target.wf(),
            created_at.wf(),
        ensures
            final(self).wf(),
            r is Err <==> has_id(old(self)@, id),
            r matches Err(e) ==> e == StoreError::Internal && final(self)@ == old(self)@,
            r matches Ok(rec) ==> {
                &&& rec@ == (RecordView { id, title: title@, target, created_at })
                &&& final(self)@ == old(self)@.push(rec@)
            },
    {
        if self.contains(id) {
            return Err(StoreError::Internal);
        }
        let rec = Record { id, title, target, created_at };
        let out = rec.duplicate();
        self.records.push(rec);
        assert(self@ =~= old(self)@.push(out@));
        Ok(out)
    }

    /// Creates a record from a title and a target text: the target is read
    /// first, then a fresh identifier and the current instant are drawn, and
    /// the record goes to the end.
    pub fn create(&mut self, title: String, target_text: &str) -> (r: Result<Record, StoreError>)
        requires
            old(self).wf(),
        ensures
            final(self).wf(),
            r matches Err(StoreError::BadInput(m)) <==> rfc3339_parse(target_text@) is None,
            r matches Err(StoreError::BadInput(m)) ==> m@ == BAD_TIME_MESSAGE@,
            r matches Err(StoreError::NotFound) ==> false,
            r matches Err(StoreError::Internal) ==> old(self)@.len() > 0,
            r is Err ==> final(self)@ == old(self)@,
            r matches Ok(rec) ==> {
                &&& rfc3339_parse(target_text@) == Some(rec@.target)
                &&& rec@.title == title@
                &&& rec@.created_at.offset_hour == 0 && rec@.created_at.offset_minute == 0
                    && rec@.created_at.offset_second == 0
                &&& !has_id(old(self)@, rec@.id)
                &&& final(self)@ == old(self)@.push(rec@)
            },
    {
        let target = match parse_time(target_text) {
            Ok(t) => t,
            Err(_) => {
                return Err(StoreError::BadInput(String::from_str(BAD_TIME_MESSAGE)));
            },
        };
        let id = random_id();
        let created_at = now_utc();
        self.insert_new(id, title, target, created_at)
    }

    /// Gives the record that has `id` a new title and target, in place.
    pub fn replace(&mut self, id: RecordId, title: String, target: Timestamp) -> (r: Result<Record, StoreError>)
        requires
            old(self).wf(),
            target.wf(),
        ensures
            final(self).wf(),
            r is Err <==> !has_id(old(self)@, id),
            r matches Err(e) ==> e == StoreError::NotFound && final(self)@ == old(self)@,
            r matches Ok(rec) ==> {
                &&& final(self)@ == with_update(old(self)@, id, title@, target)
                &&& exists|i: int| 0 <= i < old(self)@.len() && old(self)@[i].id == id
                    && rec@ == (RecordView { title: title@, target, ..old(self)@[i] })
            },
    {
        match self.position_of(id) {
            None => Err(StoreError::NotFound),
            Some(i) => {
                let ghost before = self@;
                let old_rec = self.records.remove(i);
                let rec = Record { id, title, target, created_at: old_rec.created_at };
                let out = rec.duplicate();
                self.records.insert(i, rec);
                assert(self@ =~= with_update(before, id, title@, target)) by {
                    assert forall|k: int| 0 <= k < before.len() implies self@[k] == with_update(before, id, title@, target)[k] by {
                        if k != i as int {
                            assert(before[k].id != before[i as int].id);
                        }
                    }
                }
                Ok(out)
            },
        }
    }

    /// Gives the record that has `id` a new title and a target read from text.
    pub fn update(&mut self, id: RecordId, title: String, target_text: &str) -> (r: Result<Record, StoreError>)
        requires
            old(self).wf(),
        ensures
            final(self).wf(),
            r matches Err(StoreError::NotFound) <==> !has_id(old(self)@, id),
            r matches Err(StoreError::BadInput(m)) <==> has_id(old(self)@, id) && rfc3339_parse(target_text@) is None,
            r matches Err(StoreError::BadInput(m)) ==> m@ == BAD_TIME_MESSAGE@,
            r matches Err(StoreError::Internal) ==> false,
            r is Err ==> final(self)@ == old(self)@,
            r matches Ok(rec) ==> {
                &&& rfc3339_parse(target_text@) == Some(rec@.target)
                &&& final(self)@ == with_update(old(self)@, id, title@, rec@.target)
                &&& exists|i: int| 0 <= i < old(self)@.len() && old(self)@[i].id == id
                    && rec@ == (RecordView { title: title@, target: rec@.target, ..old(self)@[i] })
            },
    {
        if !self.contains(id) {
            return Err(StoreError::NotFound);
        }
        let target = match parse_time(target_text) {
            Ok(t) => t,
            Err(_) => {
                return Err(StoreError::BadInput(String::from_str(BAD_TIME_MESSAGE)));
            },
        };
        self.replace(id, title, target)
    }

    /// Removes every record that has `id`.
    pub fn delete(&mut self, id: RecordId) -> (r: Result<(), StoreError>)
        requires
            old(self).wf(),
        ensures
            final(self).wf(),
            r is Err <==> !has_id(old(self)@, id),
            r matches Err(e) ==> e == StoreError::NotFound,
            final(self)@ == without_id(old(self)@, id),
    {
        if !self.contains(id) {
            proof {
                assert(without_id(self@, id) == self@) by {
                    lemma_filter_all_kept(self@, id);
                }
            }
            return Err(StoreError::NotFound);
        }
        let ghost before = self@;
        let mut kept: Vec<Record> = Vec::new();
        let mut i: usize = 0;
        while i < self.records.len()
            invariant
                i <= self.records.len(),
                self@ == before,
                views(kept@) == without_id(before.take(i as int), id),
            decreases self.records.len() - i,
        {
            proof {
                lemma_filter_step(before, id, i as int);
            }
            if self.records[i].id != id {
                kept.push(self.records[i].duplicate());
                assert(views(kept@) =~= views(kept@).drop_last().push(self.records[i as int]@));
            } else {
                assert(views(kept@) =~= without_id(before.take(i as int + 1), id));
            }
            i = i + 1;
        }
        assert(before.take(i as int) =~= before);
        self.records = kept;
        proof {
            lemma_without_id_valid(before, id);
        }
        Ok(())
    }
}

/// The identifiers of the records in a store are pairwise distinct, whatever
/// sequence of creations, updates and deletions produced it: every operation
/// keeps the store well formed, and creation only appends an identifier that
/// no record has.
pub proof fn lemma_ids_pairwise_distinct(s: &RecordStore)
    requires
        s.wf(),
    ensures
        ids_distinct(s@),
{
}

/// Appending a record whose identifier no record has, as creation does,
/// keeps the identifiers pairwise distinct; so every sequence of creations
/// gives pairwise distinct identifiers.
pub proof fn lemma_create_keeps_ids_distinct(before: Seq<RecordView>, rec: RecordView)
    requires
        ids_distinct(before),
        !has_id(before, rec.id),
    ensures
        ids_distinct(before.push(rec)),
        has_id(before.push(rec), rec.id),
{
    let after = before.push(rec);
    assert(after[before.len() as int] == rec);
    assert forall|i: int, j: int| 0 <= i < after.len() && 0 <= j < after.len() && i != j implies after[i].id != after[j].id by {
        if i < before.len() && j < before.len() {
            assert(after[i] == before[i] && after[j] == before[j]);
        } else if i < before.len() {
            assert(after[i] == before[i]);
        } else if j < before.len() {
            assert(after[j] == before[j]);
        }
    }
}

/// Records created one after another, starting from an empty store, are
/// listed in the order in which they were created.
pub proof fn lemma_creation_order(states: Seq<Seq<RecordView>>, created: Seq<RecordView>)
    requires
        states.len() == created.len() + 1,
        states[0].len() == 0,
        forall|k: int| 0 <= k < created.len() ==> states[k + 1] == #[trigger] states[k].push(created[k]),
    ensures
        states.last() == created,
    decreases created.len(),
{
    if created.len() == 0 {
        assert(states.last() =~= created);
    } else {
        let n = created.len() - 1;
        lemma_creation_order(states.drop_last(), created.drop_last());
        assert(states[n + 1] == states[n].push(created[n]));
        assert(states.drop_last().last() == states[n]);
        assert(states.last() =~= created);
    }
}

/// Any number of updates, one after another, keep every record at its
/// position with its identifier.
pub proof fn lemma_updates_keep_order(
    states: Seq<Seq<RecordView>>,
    ids: Seq<RecordId>,
    titles: Seq<Seq<char>>,
    targets: Seq<Timestamp>,
)
    requires
        states.len() == ids.len() + 1,
        titles.len() == ids.len(),
        targets.len() == ids.len(),
        forall|k: int|
            0 <= k < ids.len() ==> states[k + 1] == #[trigger] with_update(
                states[k],
                ids[k],
                titles[k],
                targets[k],
            ),
    ensures
        states.last().len() == states[0].len(),
        forall|i: int| 0 <= i < states[0].len() ==> (#[trigger] states.last()[i]).id == states[0][i].id,
    decreases ids.len(),
{
    if ids.len() > 0 {
        let n = ids.len() - 1;
        lemma_updates_keep_order(states.drop_last(), ids.drop_last(), titles.drop_last(), targets.drop_last());
        assert(states.drop_last().last() == states[n]);
        assert(states.drop_last()[0] == states[0]);
        assert(states[n + 1] == with_update(states[n], ids[n], titles[n], targets[n]));
        lemma_update_keeps_positions(states[n], ids[n], titles[n], targets[n]);
        assert forall|i: int| 0 <= i < states[0].len() implies (#[trigger] states.last()[i]).id == states[0][i].id by {
            assert(states.drop_last().last()[i].id == states[0][i].id);
        }
    }
}

/// Two lists of one store, with no mutation between them, hold the same
/// records in the same order.
pub proof fn lemma_list_repeatable(s: &RecordStore, first: Seq<Record>, second: Seq<Record>)
    requires
        views(first) == s@,
        views(second) == s@,
    ensures
        views(first) == views(second),
{
}

/// An update keeps every record at its position, with its identifier and
/// creation instant; only the title and target of the matching record change.
pub proof fn lemma_update_keeps_positions(
    rs: Seq<RecordView>,
    id: RecordId,
    title: Seq<char>,
    target: Timestamp,
)
    ensures
        with_update(rs, id, title, target).len() == rs.len(),
        forall|i: int|
            0 <= i < rs.len() ==> {
                let u = #[trigger] with_update(rs, id, title, target)[i];
                &&& u.id == rs[i].id
                &&& u.created_at == rs[i].created_at
                &&& (rs[i].id == id ==> u.title == title && u.target == target)
                &&& (rs[i].id != id ==> u == rs[i])
            },
{
}

/// Deleting the identifier of the record at position `k` of a valid
/// collection removes exactly that record, and the others keep their order.
pub proof fn lemma_delete_removes_exactly(rs: Seq<RecordView>, id: RecordId, k: int)
    requires
        valid_records(rs),
        0 <= k < rs.len(),
        rs[k].id == id,
    ensures
        without_id(rs, id) == rs.remove(k),
{
    let pred = |r: RecordView| r.id != id;
    let a = rs.take(k);
    let b = rs.subrange(k, k + 1);
    let c = rs.skip(k + 1);
    assert(rs =~= a + b + c);
    Seq::filter_distributes_over_add(a + b, c, pred);
    Seq::filter_distributes_over_add(a, b, pred);
    assert(!has_id(a, id)) by {
        if has_id(a, id) {
            let j = choose|j: int| 0 <= j < a.len() && a[j].id == id;
            assert(rs[j].id == rs[k].id);
        }
    }
    assert(!has_id(c, id)) by {
        if has_id(c, id) {
            let j = choose|j: int| 0 <= j < c.len() && c[j].id == id;
            assert(rs[k + 1 + j].id == rs[k].id);
        }
    }
    lemma_filter_all_kept(a, id);
    lemma_filter_all_kept(c, id);
    reveal(Seq::filter);
    assert(b.drop_last() =~= Seq::<RecordView>::empty());
    assert(b.drop_last().filter(pred) =~= Seq::<RecordView>::empty());
    assert(b.last() == rs[k]);
    assert(b.filter(pred) =~= Seq::<RecordView>::empty());
    assert(rs.remove(k) =~= a + c);
}

proof fn lemma_filter_step(rs: Seq<RecordView>, id: RecordId, i: int)
    requires
        0 <= i < rs.len(),
    ensures
        without_id(rs.take(i + 1), id) == if rs[i].id != id {
            without_id(rs.take(i), id).push(rs[i])
        } else {
            without_id(rs.take(i), id)
        },
{
    assert(rs.take(i + 1).drop_last() =~= rs.take(i));
    reveal(Seq::filter);
}

proof fn lemma_filter_all_kept(rs: Seq<RecordView>, id: RecordId)
    requires
        !has_id(rs, id),
    ensures
        without_id(rs, id) == rs,
    decreases rs.len(),
{
    reveal(Seq::filter);
    if rs.len() > 0 {
        assert(!has_id(rs.drop_last(), id)) by {
            if has_id(rs.drop_last(), id) {
                let k = choose|k: int| 0 <= k < rs.drop_last().len() && rs.drop_last()[k].id == id;
                assert(rs[k].id == id);
            }
        }
        lemma_filter_all_kept(rs.drop_last(), id);
        assert(rs.drop_last().push(rs.last()) =~= rs);
        assert(rs.last() == rs[rs.len() - 1]);
    }
}

proof fn lemma_without_id_valid(rs: Seq<RecordView>, id: RecordId)
    requires
        valid_records(rs),
    ensures
        valid_records(without_id(rs, id)),
        !has_id(without_id(rs, id), id),
    decreases rs.len(),
{
    reveal(Seq::filter);
    if rs.len() > 0 {
        let init = rs.drop_last();
        assert(valid_records(init));
        lemma_without_id_valid(init, id);
        lemma_filter_subset(init, id);
        let w = without_id(init, id);
        if rs.last().id != id {
            assert(without_id(rs, id) == w.push(rs.last()));
            assert forall|k: int| 0 <= k < w.len() implies w[k].id != rs.last().id by {
                let j = choose|j: int| 0 <= j < init.len() && init[j] == w[k];
                assert(rs[j] == init[j]);
            }
        } else {
            assert(without_id(rs, id) == w);
        }
    }
}

proof fn lemma_filter_subset(rs: Seq<RecordView>, id: RecordId)
    ensures
        forall|k: int| 0 <= k < without_id(rs, id).len() ==> rs.contains(#[trigger] without_id(rs, id)[k]),
{
    assert forall|k: int| 0 <= k < without_id(rs, id).len() implies rs.contains(#[trigger] without_id(rs, id)[k]) by {
        let x = without_id(rs, id)[k];
        assert(without_id(rs, id).contains(x));
        rs.lemma_filter_contains_rev(|r: RecordView| r.id != id, x);
    }
}

} // verus!
