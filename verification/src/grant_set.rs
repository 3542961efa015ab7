//! A set of principals, kept as a vector in which no text occurs twice.

use vstd::prelude::*;

verus! {

/// The character sequences of a vector of strings, in order.
pub open spec fn texts(strings: Seq<String>) -> Seq<Seq<char>> {
    strings.map_values(|s: String| s@)
}

/// The principals granted access to one record.
pub struct GrantSet {
    members: Vec<String>,
}

impl View for GrantSet {
    type V = Set<Seq<char>>;

    closed spec fn view(&self) -> Set<Seq<char>> {
        texts(self.members@).to_set()
    }
}

impl GrantSet {
    #[verifier::type_invariant]
    spec fn distinct(&self) -> bool {
        texts(self.members@).no_duplicates()
    }

    /// The empty set.
    pub fn new() -> (set: GrantSet)
        ensures
            set@ == Set::<Seq<char>>::empty(),
    {
        let set = GrantSet { members: Vec::new() };
        assert(texts(set.members@).to_set() =~= Set::<Seq<char>>::empty());
        set
    }

    /// Where `principal` stands in the vector, if it is a member.
    fn position(&self, principal: &String) -> (at: Option<usize>)
        ensures
            match at {
                Some(i) => i < self.members@.len() && self.members@[i as int]@ == principal@,
                None => !self@.contains(principal@),
            },
    {
        let mut i: usize = 0;
        while i < self.members.len()
            invariant
                i <= self.members@.len(),
                forall|j: int| 0 <= j < i ==> self.members@[j]@ != principal@,
            decreases self.members@.len() - i,
        {
            if self.members[i] == *principal {
                return Some(i);
            }
            i += 1;
        }
        assert(!texts(self.members@).contains(principal@));
        None
    }

    /// Whether `principal` is a member.
    pub fn contains(&self, principal: &String) -> (found: bool)
        ensures
            found == self@.contains(principal@),
    {
        match self.position(principal) {
            Some(i) => {
                assert(texts(self.members@)[i as int] == principal@);
                true
            },
            None => false,
        }
    }

    /// Adds `principal`; adding a member again changes nothing. Returns
    /// whether the principal was new.
    pub fn insert(&mut self, principal: String) -> (added: bool)
        ensures
            final(self)@ == old(self)@.insert(principal@),
            added == !old(self)@.contains(principal@),
    {
        if self.contains(&principal) {
            assert(self@.insert(principal@) =~= self@);
            false
        } else {
            proof {
                use_type_invariant(&*self);
            }
            let ghost before = texts(self.members@);
            // The vector is changed outside the set and then put back.
            let mut members: Vec<String> = Vec::new();
            core::mem::swap(&mut self.members, &mut members);
            members.push(principal);
            proof {
                assert(texts(members@) =~= before.push(principal@));
                before.lemma_push_to_set_commute(principal@);
            }
            self.members = members;
            true
        }
    }

    /// Takes `principal` out; removing a non-member changes nothing. Returns
    /// whether the principal was a member.
    pub fn remove(&mut self, principal: &String) -> (removed: bool)
        ensures
            final(self)@ == old(self)@.remove(principal@),
            removed == old(self)@.contains(principal@),
    {
        match self.position(principal) {
            Some(i) => {
                proof {
                    use_type_invariant(&*self);
                }
                let ghost before = texts(self.members@);
                assert(before[i as int] == principal@);
                let mut members: Vec<String> = Vec::new();
                core::mem::swap(&mut self.members, &mut members);
                members.remove(i);
                proof {
                    let after = texts(members@);
                    assert(after =~= before.remove(i as int));
                    assert(after.no_duplicates());
                    assert(after.to_set() =~= before.to_set().remove(principal@)) by {
                        assert forall|p: Seq<char>|
                            before.to_set().remove(principal@).contains(p) implies after.contains(
                            p,
                        ) by {
                            let j = choose|j: int| 0 <= j < before.len() && before[j] == p;
                            if j < i {
                                assert(after[j] == p);
                            } else {
                                assert(after[j - 1] == p);
                            }
                        }
                    }
                }
                self.members = members;
                true
            },
            None => {
                assert(self@.remove(principal@) =~= self@);
                false
            },
        }
    }

    /// The members, each once, in no promised order.
    pub fn to_vec(&self) -> (members: Vec<String>)
        ensures
            texts(members@).no_duplicates(),
            texts(members@).to_set() == self@,
            members@.len() == self@.len(),
    {
        proof {
            use_type_invariant(self);
        }
        let mut members: Vec<String> = Vec::new();
        let mut i: usize = 0;
        while i < self.members.len()
            invariant
                i <= self.members@.len(),
                texts(members@) == texts(self.members@).take(i as int),
            decreases self.members@.len() - i,
        {
            let ghost before = texts(members@);
            members.push(self.members[i].clone());
            assert(texts(members@) =~= before.push(self.members@[i as int]@));
            i += 1;
            assert(texts(members@) =~= texts(self.members@).take(i as int));
        }
        assert(texts(members@) =~= texts(self.members@));
        proof {
            texts(members@).unique_seq_to_set();
        }
        members
    }
}

} // verus!
