//! The record store: records by identifier, each attributed to the principal
//! that created it.

use std::collections::HashMap;
use vstd::prelude::*;

use crate::principal::{principal_text, PrincipalId};
use crate::record::{MedicalRecord, RecordView};
use crate::store_view::{owned_by, NewRecord, StoreView};

verus! {

/// The views of a vector of records, in order.
pub open spec fn views(records: Seq<MedicalRecord>) -> Seq<RecordView> {
    records.map_values(|r: MedicalRecord| r@)
}

/// Holds every record ever added, and the counter that names the next one.
/// Records are never changed or removed.
pub struct RecordStore {
    records: HashMap<u64, MedicalRecord>,
    next_id: u64,
}

impl View for RecordStore {
    type V = StoreView;

    closed spec fn view(&self) -> StoreView {
        StoreView {
            records: self.records@.map_values(|r: MedicalRecord| r@),
            next_id: self.next_id,
        }
    }
}

impl RecordStore {
    #[verifier::type_invariant]
    spec fn consistent(&self) -> bool {
        self@.well_formed()
    }

    /// An empty store; the first record added to it gets identifier 1.
    pub fn new() -> (store: RecordStore)
        ensures
            store@ == StoreView::empty(),
    {
        let store = RecordStore { records: HashMap::new(), next_id: 1 };
        assert(store@.records =~= Map::<u64, RecordView>::empty());
        store
    }

    /// The identifier that the next record will get.
    pub fn next_id(&self) -> (id: u64)
        ensures
            id == self@.next_id,
            self@.well_formed(),
    {
        proof {
            use_type_invariant(self);
        }
        self.next_id
    }

    /// Whether the store can take another record, that is whether an
    /// identifier is left to assign.
    pub fn has_room(&self) -> (room: bool)
        ensures
            room == self@.has_room(),
    {
        self.next_id < u64::MAX
    }

    /// Stores a new record that belongs to `owner` and returns the identifier
    /// assigned to it. Nothing is checked of the fields.
    pub fn add_record(
        &mut self,
        owner: String,
        name: String,
        record_type: String,
        date: String,
        size: String,
        data: String,
        notes: String,
        uploaded_at: String,
    ) -> (id: u64)
        requires
            old(self)@.has_room(),
        ensures
            id == old(self)@.next_id,
            final(self)@ == old(self)@.add(
                (NewRecord {
                    owner: owner@,
                    name: name@,
                    record_type: record_type@,
                    date: date@,
                    size: size@,
                    data: data@,
                    notes: notes@,
                    uploaded_at: uploaded_at@,
                }),
            ),
            final(self)@.well_formed(),
    {
        proof {
            use_type_invariant(&*self);
        }
        let id: u64 = self.next_id;
        let record = MedicalRecord {
            id,
            owner,
            name,
            record_type,
            date,
            size,
            data,
            notes,
            uploaded_at,
        };
        let ghost before = self@;
        let ghost stored = record@;
        // The store is taken out whole and put back whole, so that it is
        // never left with the record inserted and the counter not yet moved.
        let mut taken = RecordStore::new();
        core::mem::swap(self, &mut taken);
        let RecordStore { mut records, next_id: _ } = taken;
        records.insert(id, record);
        proof {
            let now = records@.map_values(|r: MedicalRecord| r@);
            assert(now =~= before.records.insert(id, stored));
            assert forall|k: u64| now.contains_key(k) <==> 1 <= k < id + 1 by {
                assert(before.records.contains_key(k) <==> 1 <= k < id);
            }
        }
        let grown = RecordStore { records, next_id: id + 1 };
        *self = grown;
        id
    }

    /// Every record that `owner` created, in the order of the identifiers.
    /// Grants play no part: a record of another owner is never listed.
    pub fn get_my_records(&self, owner: &String) -> (mine: Vec<MedicalRecord>)
        ensures
            views(mine@) == self@.records_of(owner@),
            self@.well_formed(),
    {
        proof {
            use_type_invariant(self);
        }
        let ghost all = self@.all();
        let ghost wanted = owned_by(owner@);
        let mut mine: Vec<MedicalRecord> = Vec::new();
        let mut id: u64 = 1;
        assert(views(mine@) =~= all.take(0).filter(wanted)) by {
            reveal(Seq::filter);
        }
        while id < self.next_id
            invariant
                1 <= id <= self.next_id,
                self@.well_formed(),
                all == self@.all(),
                wanted == owned_by(owner@),
                views(mine@) == all.take(id - 1).filter(wanted),
            decreases self.next_id - id,
        {
            let ghost seen = all.take(id - 1);
            let ghost kept = views(mine@);
            assert(self@.records.contains_key(id));
            match self.records.get(&id) {
                Some(record) => {
                    assert(record@ == all[id - 1]);
                    if record.owner == *owner {
                        mine.push(record.clone());
                        assert(views(mine@) =~= kept.push(all[id - 1]));
                    }
                },
                None => {},
            }
            proof {
                let next = all.take(id as int);
                assert(next.drop_last() =~= seen);
                assert(next.last() == all[id - 1]);
                reveal(Seq::filter);
                assert(views(mine@) == next.filter(wanted));
            }
            id += 1;
        }
        assert(all.take(id - 1) =~= all);
        mine
    }

    /// The record stored under `id`, whoever asks.
    pub fn get_record_by_id(&self, id: u64) -> (found: Option<MedicalRecord>)
        ensures
            match found {
                Some(record) => self@.get(id) == Some(record@),
                None => self@.get(id).is_none(),
            },
    {
        match self.records.get(&id) {
            Some(record) => Some(record.clone()),
            None => None,
        }
    }

    /// Stores a new record for the caller `caller`: the owner is the
    /// caller's principal text, the rest is as in [`RecordStore::add_record`].
    pub fn add_record_as(
        &mut self,
        caller: &PrincipalId,
        name: String,
        record_type: String,
        date: String,
        size: String,
        data: String,
        notes: String,
        uploaded_at: String,
    ) -> (id: u64)
        requires
            old(self)@.has_room(),
        ensures
            id == old(self)@.next_id,
            final(self)@ == old(self)@.add(
                (NewRecord {
                    owner: principal_text(caller@),
                    name: name@,
                    record_type: record_type@,
                    date: date@,
                    size: size@,
                    data: data@,
                    notes: notes@,
                    uploaded_at: uploaded_at@,
                }),
            ),
            final(self)@.well_formed(),
    {
        let owner = caller.to_text();
        self.add_record(owner, name, record_type, date, size, data, notes, uploaded_at)
    }

    /// Every record that the caller `caller` created: those whose owner is
    /// the caller's principal text, in the order of the identifiers.
    pub fn get_records_as(&self, caller: &PrincipalId) -> (mine: Vec<MedicalRecord>)
        ensures
            views(mine@) == self@.records_of(principal_text(caller@)),
            self@.well_formed(),
    {
        let owner = caller.to_text();
        self.get_my_records(&owner)
    }
}

} // verus!
