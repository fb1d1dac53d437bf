//! Sets of names that can be copied.

use crate::converter::optimizer::facts::lemma_push_contains;
use crate::text::names;
use vstd::hash_set::StringHashSet;
use vstd::prelude::*;

verus! {

/// A set of names, kept as a hash set and as the list of what was inserted.
pub struct NameSet {
    set: StringHashSet,
    list: Vec<String>,
}

impl View for NameSet {
    type V = Set<Seq<char>>;

    closed spec fn view(&self) -> Set<Seq<char>> {
        self.set@
    }
}

impl NameSet {
    #[verifier::type_invariant]
    closed spec fn consistent(&self) -> bool {
        &&& self.set@.finite()
        &&& forall|name: Seq<char>| #[trigger]
            self.set@.contains(name) == names(self.list@).contains(name)
    }

    /// The empty set.
    pub fn new() -> (r: NameSet)
        ensures
            r@ == Set::<Seq<char>>::empty(),
    {
        let list: Vec<String> = Vec::new();
        NameSet { set: StringHashSet::new(), list }
    }

    /// Whether `name` is in the set.
    pub fn contains(&self, name: &str) -> (r: bool)
        ensures
            r == self@.contains(name@),
    {
        self.set.contains(name)
    }

    /// The hash set of the names.
    pub fn as_hash_set(&self) -> (r: &StringHashSet)
        ensures
            r@ == self@,
            r@.finite(),
    {
        proof {
            use_type_invariant(self);
        }
        &self.set
    }

    /// Inserts `name`, and tells whether it is new.
    pub fn insert(&mut self, name: &str) -> (r: bool)
        ensures
            final(self)@ == old(self)@.insert(name@),
            r == !old(self)@.contains(name@),
    {
        proof {
            use_type_invariant(&*self);
        }
        if self.set.contains(name) {
            proof {
                assert(self.set@.insert(name@) =~= self.set@);
            }
            false
        } else {
            let ghost before = self.set@;
            let ghost prior = names(self.list@);
            let mut taken = NameSet::new();
            std::mem::swap(self, &mut taken);
            let NameSet { set, list } = taken;
            let mut set = set;
            let mut list = list;
            set.insert(name.to_string());
            list.push(name.to_string());
            proof {
                assert(names(list@) =~= prior.push(name@));
                assert forall|n: Seq<char>| #[trigger] set@.contains(n) == names(list@).contains(
                    n,
                ) by {
                    lemma_push_contains(prior, name@, n);
                    assert(before.contains(n) == prior.contains(n));
                }
            }
            *self = NameSet { set, list };
            true
        }
    }

    /// A copy of the set.
    pub fn duplicate(&self) -> (r: NameSet)
        ensures
            r@ == self@,
    {
        proof {
            use_type_invariant(self);
        }
        let mut r = NameSet::new();
        let mut i: usize = 0;
        while i < self.list.len()
            invariant
                i <= self.list.len(),
                forall|name: Seq<char>| #[trigger]
                    r@.contains(name) == names(self.list@).take(i as int).contains(name),
            decreases self.list.len() - i,
        {
            let ghost before = r@;
            r.insert(self.list[i].as_str());
            proof {
                let list = names(self.list@);
                assert(list.take(i + 1) =~= list.take(i as int).push(list[i as int]));
                assert forall|name: Seq<char>| #[trigger]
                    r@.contains(name) == list.take(i + 1).contains(name) by {
                    lemma_push_contains(list.take(i as int), list[i as int], name);
                    assert(before.contains(name) == list.take(i as int).contains(name));
                }
            }
            i = i + 1;
        }
        proof {
            assert(names(self.list@).take(i as int) =~= names(self.list@));
            assert(r@ =~= self@);
        }
        r
    }
}

} // verus!
