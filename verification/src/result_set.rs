//! A set of strings, kept as a list without repetition.

use crate::text::texts;
use vstd::prelude::*;

verus! {

/// The values gathered by one pass: each distinct string once.
///
/// The strings are kept in the order in which they were first inserted, and
/// the view is that list. Inserting a string that is already present changes
/// nothing.
pub struct ResultSet {
    items: Vec<String>,
}

impl View for ResultSet {
    type V = Seq<Seq<char>>;

    closed spec fn view(&self) -> Seq<Seq<char>> {
        texts(self.items@)
    }
}

impl ResultSet {
    /// The invariant of the type: no string is held twice.
    #[verifier::type_invariant]
    pub open spec fn distinct(&self) -> bool {
        self@.no_duplicates()
    }

    /// The members, as a mathematical set.
    pub open spec fn values(&self) -> Set<Seq<char>> {
        self@.to_set()
    }

    /// The empty set.
    pub fn new() -> (r: Self)
        ensures
            r@ == Seq::<Seq<char>>::empty(),
    {
        let r = ResultSet { items: Vec::new() };
        assert(texts(r.items@) =~= Seq::<Seq<char>>::empty());
        r
    }

    /// The number of members.
    pub fn len(&self) -> (n: usize)
        ensures
            n == self@.len(),
    {
        self.items.len()
    }

    /// Whether `value` is a member.
    pub fn contains(&self, value: &String) -> (r: bool)
        ensures
            r == self@.contains(value@),
    {
        let n: usize = self.items.len();
        let mut i: usize = 0;
        while i < n
            invariant
                n == self.items.len(),
                i <= n,
                forall|k: int| 0 <= k < i ==> self@[k] != value@,
            decreases n - i,
        {
            if self.items[i] == *value {
                assert(self@[i as int] == value@);
                return true;
            }
            i += 1;
        }
        false
    }

    /// Adds `value` unless it is already a member, and tells whether it was
    /// added.
    pub fn insert(&mut self, value: String) -> (added: bool)
        ensures
            added == !old(self)@.contains(value@),
            final(self)@ == if added {
                old(self)@.push(value@)
            } else {
                old(self)@
            },
            final(self)@.no_duplicates(),
            final(self).values() == old(self).values().insert(value@),
    {
        proof {
            use_type_invariant(&*self);
        }
        let ghost before = self@;
        if self.contains(&value) {
            assert(before.to_set() =~= before.to_set().insert(value@));
            false
        } else {
            // The list grows outside the set, so that the set is never seen
            // in a state that breaks its invariant.
            let mut items: Vec<String> = Vec::new();
            core::mem::swap(&mut self.items, &mut items);
            items.push(value);
            assert(texts(items@) =~= before.push(value@));
            core::mem::swap(&mut self.items, &mut items);
            assert(before.push(value@).to_set() =~= before.to_set().insert(value@)) by {
                before.lemma_push_to_set_commute(value@);
            }
            true
        }
    }

    /// Gives the members up as a list, each once, in the order of first
    /// insertion.
    pub fn into_values(self) -> (r: Vec<String>)
        ensures
            texts(r@) == self@,
            texts(r@).no_duplicates(),
    {
        proof {
            use_type_invariant(&self);
        }
        self.items
    }
}

} // verus!
