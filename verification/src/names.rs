//! A set of names that only grows.

use vstd::prelude::*;

verus! {

/// The values of a run of names.
pub open spec fn names_view(names: Seq<String>) -> Seq<Seq<char>> {
    Seq::new(names.len(), |i: int| names[i]@)
}

/// A set of names. A name is never stored twice and never leaves.
#[derive(Debug)]
pub struct NameSet {
    names: Vec<String>,
}

impl View for NameSet {
    type V = Set<Seq<char>>;

    closed spec fn view(&self) -> Set<Seq<char>> {
        names_view(self.names@).to_set()
    }
}

impl NameSet {
    /// No name is stored twice.
    #[verifier::type_invariant]
    pub closed spec fn wf(&self) -> bool {
        names_view(self.names@).no_duplicates()
    }

    /// The set of a well-formed value is finite.
    pub proof fn lemma_finite(self)
        ensures
            self@.finite(),
    {
        vstd::seq_lib::seq_to_set_is_finite(names_view(self.names@));
    }

    /// The empty set.
    pub fn new() -> (set: NameSet)
        ensures
            set.wf(),
            set@ == Set::<Seq<char>>::empty(),
    {
        let set = NameSet { names: Vec::new() };
        assert(set@ =~= Set::<Seq<char>>::empty());
        set
    }

    /// Whether `name` is in the set.
    pub fn contains(&self, name: &String) -> (found: bool)
        ensures
            found == self@.contains(name@),
    {
        let mut i: usize = 0;
        while i < self.names.len()
            invariant
                i <= self.names.len(),
                forall|j: int| 0 <= j < i ==> self.names[j]@ != name@,
            decreases self.names.len() - i,
        {
            if self.names[i] == *name {
                assert(names_view(self.names@)[i as int] == name@);
                return true;
            }
            i += 1;
        }
        proof {
            if names_view(self.names@).contains(name@) {
                let j = choose|j: int|
                    0 <= j < self.names.len() && names_view(self.names@)[j] == name@;
                assert(self.names[j]@ == name@);
            }
        }
        false
    }

    /// Adds `name`. Returns whether it was new; adding a name that is
    /// already there changes nothing.
    pub fn insert(&mut self, name: String) -> (fresh: bool)
        ensures
            final(self).wf(),
            final(self)@ == old(self)@.insert(name@),
            fresh == !old(self)@.contains(name@),
            !fresh ==> *final(self) == *old(self),
    {
        proof {
            use_type_invariant(&*self);
        }
        if self.contains(&name) {
            assert(self@.insert(name@) =~= self@);
            false
        } else {
            let ghost before = names_view(self.names@);
            let mut names: Vec<String> = Vec::new();
            std::mem::swap(&mut names, &mut self.names);
            names.push(name);
            proof {
                assert(names_view(names@) =~= before.push(name@));
                before.lemma_push_to_set_commute(name@);
            }
            std::mem::swap(&mut names, &mut self.names);
            true
        }
    }

    /// The number of names in the set.
    pub fn len(&self) -> (n: usize)
        ensures
            n == self@.len(),
    {
        proof {
            use_type_invariant(self);
            names_view(self.names@).unique_seq_to_set();
        }
        self.names.len()
    }

    /// The names, in the order in which they were added.
    pub fn names(&self) -> (names: &Vec<String>)
        ensures
            names_view(names@).to_set() == self@,
            names_view(names@).no_duplicates(),
    {
        proof {
            use_type_invariant(self);
        }
        &self.names
    }
}

} // verus!
