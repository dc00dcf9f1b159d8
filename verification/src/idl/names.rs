//! Names and sets of names.

use vstd::prelude::*;
use vstd::string::StringSliceAdditionalSpecFns;
use vstd::utf8::{encode_utf8, encode_utf8_decode_utf8};

verus! {

/// Whether two texts are the same.
pub fn str_eq(a: &str, b: &str) -> (same: bool)
    ensures
        same == (a@ == b@),
{
    let x = a.as_bytes();
    let y = b.as_bytes();
    proof {
        encode_utf8_decode_utf8(a@);
        encode_utf8_decode_utf8(b@);
    }
    if x.len() != y.len() {
        return false;
    }
    let mut i: usize = 0;
    while i < x.len()
        invariant
            i <= x@.len(),
            x@.len() == y@.len(),
            x@ == encode_utf8(a@),
            y@ == encode_utf8(b@),
            forall|j: int| 0 <= j < i ==> x@[j] == y@[j],
        decreases x@.len() - i,
    {
        if x[i] != y[i] {
            return false;
        }
        i += 1;
    }
    assert(x@ =~= y@);
    true
}

/// `name` with `suffix` behind it.
pub fn with_suffix(name: &String, suffix: &str) -> (longer: String)
    ensures
        longer@ == name@ + suffix@,
{
    let mut longer = name.clone();
    vstd::string::StringExecFns::append(&mut longer, suffix);
    longer
}

/// A set of names. No name is held twice.
#[derive(Debug)]
pub struct NameSet {
    names: Vec<String>,
}

impl NameSet {
    /// No name is held twice.
    #[verifier::type_invariant]
    pub closed spec fn wf(&self) -> bool {
        forall|i: int, j: int|
            0 <= i < j < self.names@.len() ==> (#[trigger] self.names@[i])@ != (
            #[trigger] self.names@[j])@
    }

    /// The names in the set.
    pub closed spec fn view(&self) -> Set<Seq<char>> {
        Set::new(|name: Seq<char>| exists|i: int| 0 <= i < self.names@.len() && (#[trigger] self.names@[i])@ == name)
    }

    /// The empty set.
    pub fn new() -> (set: Self)
        ensures
            set@ == Set::<Seq<char>>::empty(),
    {
        let set = NameSet { names: Vec::new() };
        assert(set@ =~= Set::<Seq<char>>::empty());
        set
    }

    /// Whether `name` is in the set.
    pub fn contains(&self, name: &str) -> (found: bool)
        ensures
            found == self@.contains(name@),
    {
        let mut i: usize = 0;
        while i < self.names.len()
            invariant
                i <= self.names@.len(),
                forall|j: int| 0 <= j < i ==> (#[trigger] self.names@[j])@ != name@,
            decreases self.names@.len() - i,
        {
            if str_eq(self.names[i].as_str(), name) {
                return true;
            }
            i += 1;
        }
        false
    }

    /// Puts `name` into the set. Returns whether it was new.
    pub fn insert(&mut self, name: String) -> (fresh: bool)
        ensures
            final(self)@ == old(self)@.insert(name@),
            fresh == !old(self)@.contains(name@),
    {
        proof {
            use_type_invariant(&*self);
        }
        if self.contains(name.as_str()) {
            assert(self@ =~= old(self)@.insert(name@));
            return false;
        }
        let mut names: Vec<String> = Vec::new();
        core::mem::swap(&mut self.names, &mut names);
        names.push(name);
        core::mem::swap(&mut self.names, &mut names);
        proof {
            assert forall|n: Seq<char>| self@.contains(n) == old(self)@.insert(name@).contains(
                n,
            ) by {
                if old(self)@.contains(n) {
                    let i = choose|i: int|
                        0 <= i < old(self).names@.len() && (#[trigger] old(self).names@[i])@ == n;
                    assert(self.names@[i]@ == n);
                }
                if n == name@ {
                    assert(self.names@[self.names@.len() - 1]@ == n);
                }
            }
            assert(self@ =~= old(self)@.insert(name@));
        }
        true
    }
}

} // verus!
