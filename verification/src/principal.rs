//! Caller identities and their textual form.
//!
//! The store attributes records to principals by their text. A caller's
//! identity arrives as raw bytes; `candid` renders them.

use vstd::prelude::*;

verus! {

/// The longest identity, in bytes, that has a textual form.
pub const MAX_PRINCIPAL_BYTES: usize = 29;

/// The text that `candid::Principal::to_text` gives for the principal made of
/// `bytes`. It is a function of the bytes alone; nothing else is claimed of it.
pub uninterp spec fn principal_text(bytes: Seq<u8>) -> Seq<char>;

/// The raw bytes of a calling identity, at most [`MAX_PRINCIPAL_BYTES`] of them.
pub struct PrincipalId {
    bytes: Vec<u8>,
}

impl View for PrincipalId {
    type V = Seq<u8>;

    closed spec fn view(&self) -> Seq<u8> {
        self.bytes@
    }
}

/// Calls `candid::Principal::from_slice` and then `to_text` on the result
/// (`candid` takes both from `ic_principal`).
///
/// `from_slice` panics on more than 29 bytes, which the precondition rules
/// out. The contract claims only that the text depends on the bytes alone,
/// by naming it [`principal_text`]; the encoding itself is not proved.
#[verifier::external_body]
fn render_principal(bytes: &Vec<u8>) -> (text: String)
    requires
        bytes@.len() <= MAX_PRINCIPAL_BYTES,
    ensures
        text@ == principal_text(bytes@),
{
    candid::Principal::from_slice(bytes.as_slice()).to_text()
}

impl PrincipalId {
    #[verifier::type_invariant]
    spec fn fits(&self) -> bool {
        self.bytes@.len() <= MAX_PRINCIPAL_BYTES
    }

    /// Accepts `bytes` as an identity exactly when there are at most
    /// [`MAX_PRINCIPAL_BYTES`] of them.
    pub fn from_bytes(bytes: Vec<u8>) -> (id: Option<PrincipalId>)
        ensures
            id.is_some() <==> bytes@.len() <= MAX_PRINCIPAL_BYTES,
            id matches Some(p) ==> p@ == bytes@,
    {
        if bytes.len() <= MAX_PRINCIPAL_BYTES {
            Some(PrincipalId { bytes })
        } else {
            None
        }
    }

    /// The bytes this identity was made from.
    pub fn as_bytes(&self) -> (bytes: &Vec<u8>)
        ensures
            bytes@ == self@,
    {
        &self.bytes
    }

    /// The principal's text, as stored in a record's `owner` field.
    pub fn to_text(&self) -> (text: String)
        ensures
            text@ == principal_text(self@),
    {
        proof {
            use_type_invariant(self);
        }
        render_principal(&self.bytes)
    }
}

} // verus!
