//! The record store as a mathematical object, and what holds of it.

use vstd::prelude::*;

use crate::record::RecordView;

verus! {

/// What a caller supplies for a new record: every field but the identifier,
/// with the owner resolved from the caller's identity.
pub struct NewRecord {
    pub owner: Seq<char>,
    pub name: Seq<char>,
    pub record_type: Seq<char>,
    pub date: Seq<char>,
    pub size: Seq<char>,
    pub data: Seq<char>,
    pub notes: Seq<char>,
    pub uploaded_at: Seq<char>,
}

impl NewRecord {
    /// The record that is stored when the store assigns `id` to these fields.
    pub open spec fn with_id(self, id: u64) -> RecordView {
        RecordView {
            id,
            owner: self.owner,
            name: self.name,
            record_type: self.record_type,
            date: self.date,
            size: self.size,
            data: self.data,
            notes: self.notes,
            uploaded_at: self.uploaded_at,
        }
    }
}

/// Selects the records that `owner` created.
pub open spec fn owned_by(owner: Seq<char>) -> spec_fn(RecordView) -> bool {
    |r: RecordView| r.owner == owner
}

/// The state of a record store: the records by identifier, and the
/// identifier that the next record will get.
pub struct StoreView {
    pub records: Map<u64, RecordView>,
    pub next_id: u64,
}

impl StoreView {
    /// A store that holds nothing and will assign 1 first.
    pub open spec fn empty() -> StoreView {
        StoreView { records: Map::empty(), next_id: 1 }
    }

    /// Identifiers are assigned from 1 upwards without gaps, and every record
    /// carries the identifier it is stored under.
    pub open spec fn well_formed(self) -> bool {
        &&& self.next_id >= 1
        &&& forall|id: u64| self.records.contains_key(id) <==> 1 <= id < self.next_id
        &&& forall|id: u64| self.records.contains_key(id) ==> (#[trigger] self.records[id]).id == id
    }

    /// Whether another identifier is left to assign.
    pub open spec fn has_room(self) -> bool {
        self.next_id < u64::MAX
    }

    /// The store after one more record was added.
    pub open spec fn add(self, fields: NewRecord) -> StoreView {
        StoreView {
            records: self.records.insert(self.next_id, fields.with_id(self.next_id)),
            next_id: (self.next_id + 1) as u64,
        }
    }

    /// The record stored under `id`, if there is one.
    pub open spec fn get(self, id: u64) -> Option<RecordView> {
        if self.records.contains_key(id) {
            Some(self.records[id])
        } else {
            None
        }
    }

    /// The number of identifiers assigned so far.
    pub open spec fn count(self) -> nat {
        (self.next_id - 1) as nat
    }

    /// Every stored record, in the order of the identifiers.
    pub open spec fn all(self) -> Seq<RecordView> {
        Seq::new(self.count(), |i: int| self.records[(i + 1) as u64])
    }

    /// The records that `owner` created, in the order of their identifiers.
    pub open spec fn records_of(self, owner: Seq<char>) -> Seq<RecordView> {
        self.all().filter(owned_by(owner))
    }

    /// The store after the records of `adds` were added, in order, to an
    /// empty store.
    pub open spec fn after(adds: Seq<NewRecord>) -> StoreView
        decreases adds.len(),
    {
        if adds.len() == 0 {
            StoreView::empty()
        } else {
            StoreView::after(adds.drop_last()).add(adds.last())
        }
    }
}

/// The records that `adds` put into an empty store, in order: the record of
/// the first add under identifier 1, that of the second under 2, and so on.
pub open spec fn numbered(adds: Seq<NewRecord>) -> Seq<RecordView> {
    Seq::new(adds.len(), |i: int| adds[i].with_id((i + 1) as u64))
}

/// Identifiers count up from 1: after any `n` adds to an empty store, by
/// whichever owners, the store is well formed and the next add gets
/// identifier `n + 1`. So the adds get 1, 2, 3, ... without gap or repeat.
pub proof fn lemma_identifiers_count_up(adds: Seq<NewRecord>)
    requires
        adds.len() < u64::MAX,
    ensures
        StoreView::after(adds).well_formed(),
        StoreView::after(adds).next_id == adds.len() + 1,
    decreases adds.len(),
{
    if adds.len() > 0 {
        lemma_identifiers_count_up(adds.drop_last());
    }
}

/// A record can be read back as it was added: right after an add, the
/// identifier it returned leads to a record with the owner and every other
/// field as supplied.
pub proof fn lemma_add_then_get(store: StoreView, fields: NewRecord)
    ensures
        store.add(fields).get(store.next_id) == Some(fields.with_id(store.next_id)),
        fields.with_id(store.next_id).owner == fields.owner,
{
}

/// Records do not change: an add leaves what every other identifier leads to
/// as it was.
pub proof fn lemma_add_keeps_others(store: StoreView, fields: NewRecord, other: u64)
    requires
        other != store.next_id,
    ensures
        store.add(fields).get(other) == store.get(other),
{
}

/// The store after `adds` holds exactly the records of `adds`, numbered from 1.
pub proof fn lemma_all_after(adds: Seq<NewRecord>)
    requires
        adds.len() < u64::MAX,
    ensures
        StoreView::after(adds).all() == numbered(adds),
    decreases adds.len(),
{
    lemma_identifiers_count_up(adds);
    if adds.len() > 0 {
        let front = adds.drop_last();
        lemma_all_after(front);
        lemma_identifiers_count_up(front);
        let before = StoreView::after(front);
        let now = StoreView::after(adds);
        assert forall|i: int| 0 <= i < adds.len() implies now.all()[i] == numbered(adds)[i] by {
            if i < front.len() {
                assert(before.all()[i] == numbered(front)[i]);
            }
        }
    }
    assert(StoreView::after(adds).all() =~= numbered(adds));
}

/// Listing by owner returns exactly what that owner added: after any adds to
/// an empty store, a record with identifier `id` is listed for `owner` if and
/// only if the add that was assigned `id` was made by `owner`.
pub proof fn lemma_listed_iff_added_by_owner(adds: Seq<NewRecord>, owner: Seq<char>, id: u64)
    requires
        adds.len() < u64::MAX,
    ensures
        (exists|r: RecordView|
            #[trigger] StoreView::after(adds).records_of(owner).contains(r) && r.id == id) <==> (1
            <= id <= adds.len() && adds[id - 1].owner == owner),
{
    lemma_all_after(adds);
    let all = numbered(adds);
    let listed = StoreView::after(adds).records_of(owner);
    assert(listed == all.filter(owned_by(owner)));
    if 1 <= id <= adds.len() && adds[id - 1].owner == owner {
        all.lemma_filter_contains(owned_by(owner), id - 1);
        assert(listed.contains(all[id - 1]) && all[id - 1].id == id);
    }
    if exists|r: RecordView| #[trigger] listed.contains(r) && r.id == id {
        let r = choose|r: RecordView| #[trigger] listed.contains(r) && r.id == id;
        let j = choose|j: int| 0 <= j < listed.len() && listed[j] == r;
        all.lemma_filter_pred(owned_by(owner), j);
        all.lemma_filter_contains_rev(owned_by(owner), r);
        let i = choose|i: int| 0 <= i < all.len() && all[i] == r;
        assert(i + 1 == id && adds[i].owner == owner);
    }
}

/// A listing names no record twice: after any adds to an empty store, the
/// records listed for `owner` come with strictly increasing identifiers.
pub proof fn lemma_listed_in_order(adds: Seq<NewRecord>, owner: Seq<char>)
    requires
        adds.len() < u64::MAX,
    ensures
        forall|i: int, j: int|
            0 <= i < j < StoreView::after(adds).records_of(owner).len() ==> (
            #[trigger] StoreView::after(adds).records_of(owner)[i]).id < (
            #[trigger] StoreView::after(adds).records_of(owner)[j]).id,
    decreases adds.len(),
{
    lemma_all_after(adds);
    let all = numbered(adds);
    let listed = all.filter(owned_by(owner));
    all.lemma_filter_len(owned_by(owner));
    if adds.len() > 0 {
        let front = adds.drop_last();
        lemma_all_after(front);
        lemma_listed_in_order(front, owner);
        let earlier = StoreView::after(front).records_of(owner);
        assert(earlier == numbered(front).filter(owned_by(owner)));
        assert(all.drop_last() =~= numbered(front));
        assert(listed == if owned_by(owner)(all.last()) {
            earlier.push(all.last())
        } else {
            earlier
        }) by {
            reveal(Seq::filter);
        }
        assert forall|i: int, j: int| 0 <= i < j < listed.len() implies (#[trigger] listed[i]).id
            < (#[trigger] listed[j]).id by {
            assert(listed[i] == earlier[i]);
            if j < earlier.len() {
                assert(listed[j] == earlier[j]);
            } else {
                numbered(front).lemma_filter_contains_rev(owned_by(owner), earlier[i]);
                let k = choose|k: int| 0 <= k < front.len() && numbered(front)[k] == earlier[i];
                assert(listed[i].id == k + 1);
                assert(listed[j] == all.last());
            }
        }
    }
}

} // verus!
