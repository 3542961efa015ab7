//! A per-record access ledger and an owner-scoped record store.
//!
//! [`AccessLedger`] tracks which principals may act on which record;
//! [`RecordStore`] keeps the records themselves, each under an identifier
//! that the store assigns and never reuses. The two hold independent state:
//! reading a record by its identifier consults no grant.

pub mod access_ledger;
pub mod grant_set;
pub mod principal;
pub mod record;
pub mod record_store;
pub mod store_view;

pub use access_ledger::AccessLedger;
pub use grant_set::GrantSet;
pub use principal::PrincipalId;
pub use record::{MedicalRecord, RecordView};
pub use record_store::RecordStore;
pub use store_view::{NewRecord, StoreView};
