//! The access ledger: which principals may act on which record.

use std::collections::hash_map::Entry;
use std::collections::HashMap;
use vstd::prelude::*;

use crate::grant_set::{texts, GrantSet};

verus! {

/// One grant: a record identifier and the text of a principal.
pub type Grant = (u64, Seq<char>);

/// For each record identifier, the set of principals granted access to it.
///
/// A record that was never named and a record whose grants were all revoked
/// are the same to every operation, so the ledger's view is the set of
/// grants in force.
pub struct AccessLedger {
    grants: HashMap<u64, GrantSet>,
}

impl View for AccessLedger {
    type V = Set<Grant>;

    closed spec fn view(&self) -> Set<Grant> {
        Set::new(
            |g: Grant| self.grants@.contains_key(g.0) && self.grants@[g.0]@.contains(g.1),
        )
    }
}

impl AccessLedger {
    /// The principals that hold a grant on `record_id`.
    pub open spec fn grantees(&self, record_id: u64) -> Set<Seq<char>> {
        Set::new(|p: Seq<char>| self@.contains((record_id, p)))
    }

    /// A ledger in which nobody has access to anything.
    pub fn new() -> (ledger: AccessLedger)
        ensures
            ledger@ == Set::<Grant>::empty(),
    {
        let ledger = AccessLedger { grants: HashMap::new() };
        assert(ledger@ =~= Set::<Grant>::empty());
        ledger
    }

    /// Gives `grantee` access to `record_id`. Granting twice is the same as
    /// granting once.
    pub fn grant_access(&mut self, record_id: u64, grantee: String)
        ensures
            final(self)@ == old(self)@.insert((record_id, grantee@)),
    {
        let set = self.grants.entry(record_id).or_insert(GrantSet::new());
        set.insert(grantee);
        assert(self@ =~= old(self)@.insert((record_id, grantee@)));
    }

    /// Takes access to `record_id` away from `grantee`. Where the grant is
    /// not in force the ledger stays as it is.
    pub fn revoke_access(&mut self, record_id: u64, grantee: String)
        ensures
            final(self)@ == old(self)@.remove((record_id, grantee@)),
            !old(self)@.contains((record_id, grantee@)) ==> final(self)@ == old(self)@,
    {
        match self.grants.entry(record_id) {
            Entry::Occupied(entry) => {
                let set = entry.into_mut();
                set.remove(&grantee);
            },
            Entry::Vacant(_) => {},
        }
        assert(self@ =~= old(self)@.remove((record_id, grantee@)));
    }

    /// Whether `principal` holds a grant on `record_id`.
    pub fn has_access(&self, record_id: u64, principal: String) -> (allowed: bool)
        ensures
            allowed == self@.contains((record_id, principal@)),
    {
        match self.grants.get(&record_id) {
            Some(set) => set.contains(&principal),
            None => false,
        }
    }

    /// The principals that hold a grant on `record_id`, each once, in no
    /// promised order; empty for a record the ledger has never seen.
    pub fn get_grantees(&self, record_id: u64) -> (grantees: Vec<String>)
        ensures
            texts(grantees@).no_duplicates(),
            texts(grantees@).to_set() == self.grantees(record_id),
            grantees@.len() == self.grantees(record_id).len(),
    {
        let grantees = match self.grants.get(&record_id) {
            Some(set) => set.to_vec(),
            None => Vec::new(),
        };
        proof {
            assert(texts(grantees@).to_set() =~= self.grantees(record_id));
            texts(grantees@).unique_seq_to_set();
        }
        grantees
    }
}

/// A change to the ledger.
pub enum LedgerOp {
    Grant { record_id: u64, principal: Seq<char> },
    Revoke { record_id: u64, principal: Seq<char> },
}

/// The grants in force after `op` was applied to `grants`: what
/// [`AccessLedger::grant_access`] and [`AccessLedger::revoke_access`] do to
/// the ledger's view.
pub open spec fn apply(grants: Set<Grant>, op: LedgerOp) -> Set<Grant> {
    match op {
        LedgerOp::Grant { record_id, principal } => grants.insert((record_id, principal)),
        LedgerOp::Revoke { record_id, principal } => grants.remove((record_id, principal)),
    }
}

/// The grants in force after `ops` were applied, in order, to an empty ledger.
pub open spec fn replay(ops: Seq<LedgerOp>) -> Set<Grant>
    decreases ops.len(),
{
    if ops.len() == 0 {
        Set::empty()
    } else {
        apply(replay(ops.drop_last()), ops.last())
    }
}

/// Whether `ops` holds a grant of `record_id` to `principal` that no later
/// revocation of the same pair follows.
pub open spec fn granted_and_not_revoked(
    ops: Seq<LedgerOp>,
    record_id: u64,
    principal: Seq<char>,
) -> bool {
    exists|i: int|
        0 <= i < ops.len() && #[trigger] ops[i] == (LedgerOp::Grant { record_id, principal })
            && forall|j: int|
            i < j < ops.len() ==> #[trigger] ops[j] != (LedgerOp::Revoke { record_id, principal })
}

/// Access follows the last change: after any history of grants and
/// revocations on an empty ledger, a principal has access to a record if and
/// only if it was granted access and that grant was not revoked since. Until
/// the first grant there is no access; changes to other pairs do not matter.
pub proof fn lemma_access_follows_last_change(
    ops: Seq<LedgerOp>,
    record_id: u64,
    principal: Seq<char>,
)
    ensures
        replay(ops).contains((record_id, principal)) <==> granted_and_not_revoked(
            ops,
            record_id,
            principal,
        ),
    decreases ops.len(),
{
    if ops.len() > 0 {
        let front = ops.drop_last();
        let last = ops.last();
        let n = front.len() as int;
        lemma_access_follows_last_change(front, record_id, principal);
        let grant = LedgerOp::Grant { record_id, principal };
        let revoke = LedgerOp::Revoke { record_id, principal };
        if last == grant {
            assert(ops[n] == grant);
        } else if last == revoke {
            assert(ops[n] == revoke);
        } else {
            if granted_and_not_revoked(front, record_id, principal) {
                let i = choose|i: int|
                    0 <= i < front.len() && #[trigger] front[i] == grant && forall|j: int|
                        i < j < front.len() ==> #[trigger] front[j] != revoke;
                assert(ops[i] == grant);
                assert forall|j: int| i < j < ops.len() implies #[trigger] ops[j] != revoke by {
                    if j < n {
                        assert(front[j] != revoke);
                    }
                }
            }
            if granted_and_not_revoked(ops, record_id, principal) {
                let i = choose|i: int|
                    0 <= i < ops.len() && #[trigger] ops[i] == grant && forall|j: int|
                        i < j < ops.len() ==> #[trigger] ops[j] != revoke;
                assert(front[i] == grant);
                assert forall|j: int| i < j < front.len() implies #[trigger] front[j]
                    != revoke by {
                    assert(ops[j] != revoke);
                }
            }
        }
    }
}

/// Revoking what was never granted changes nothing: after a history that
/// holds no grant of `record_id` to `principal`, revoking that pair leaves
/// the ledger exactly as it was.
pub proof fn lemma_revoke_never_granted(ops: Seq<LedgerOp>, record_id: u64, principal: Seq<char>)
    requires
        forall|i: int|
            0 <= i < ops.len() ==> #[trigger] ops[i] != (LedgerOp::Grant { record_id, principal }),
    ensures
        replay(ops.push(LedgerOp::Revoke { record_id, principal })) == replay(ops),
{
    lemma_access_follows_last_change(ops, record_id, principal);
    let revoke = LedgerOp::Revoke { record_id, principal };
    assert(ops.push(revoke).drop_last() =~= ops);
    assert(replay(ops).remove((record_id, principal)) =~= replay(ops));
}

} // verus!
