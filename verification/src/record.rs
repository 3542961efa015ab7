//! The record document and its mathematical view.

use vstd::prelude::*;

verus! {

/// The view of a [`MedicalRecord`]: its identifier and the character
/// sequences of its fields.
pub struct RecordView {
    pub id: u64,
    pub owner: Seq<char>,
    pub name: Seq<char>,
    pub record_type: Seq<char>,
    pub date: Seq<char>,
    pub size: Seq<char>,
    pub data: Seq<char>,
    pub notes: Seq<char>,
    pub uploaded_at: Seq<char>,
}

/// One stored document. Every field but `id` is an opaque string to the
/// store; `owner` is the principal that created the record.
#[derive(Debug)]
pub struct MedicalRecord {
    pub id: u64,
    pub owner: String,
    pub name: String,
    pub record_type: String,
    pub date: String,
    pub size: String,
    pub data: String,
    pub notes: String,
    pub uploaded_at: String,
}

impl View for MedicalRecord {
    type V = RecordView;

    open spec fn view(&self) -> RecordView {
        RecordView {
            id: self.id,
            owner: self.owner@,
            name: self.name@,
            record_type: self.record_type@,
            date: self.date@,
            size: self.size@,
            data: self.data@,
            notes: self.notes@,
            uploaded_at: self.uploaded_at@,
        }
    }
}

impl Clone for MedicalRecord {
    /// A clone is an identical record.
    fn clone(&self) -> (copy: Self)
        ensures
            copy == *self,
    {
        MedicalRecord {
            id: self.id,
            owner: self.owner.clone(),
            name: self.name.clone(),
            record_type: self.record_type.clone(),
            date: self.date.clone(),
            size: self.size.clone(),
            data: self.data.clone(),
            notes: self.notes.clone(),
            uploaded_at: self.uploaded_at.clone(),
        }
    }
}

} // verus!
