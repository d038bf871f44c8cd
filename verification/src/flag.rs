//! Mailbox flags: named markers attached to a message, and the cumulative
//! flag set that every mailbox operation consults and mutates.

use vstd::prelude::*;

verus! {

/// A named boolean marker attached to a message within a mailbox.
#[derive(Clone, Copy, PartialEq, Eq, Structural, Debug)]
pub enum Flag {
    Seen,
    Answered,
    Flagged,
    Deleted,
    Draft,
}

/// The set of flags attached to one message.
///
/// The set is cumulative: [`Flags::insert`] never clears another flag, which
/// its contract states explicitly rather than leaving it to convention.
#[derive(Clone, Debug)]
pub struct Flags {
    items: Vec<Flag>,
}

impl View for Flags {
    type V = Set<Flag>;

    closed spec fn view(&self) -> Set<Flag> {
        self.items@.to_set()
    }
}

impl Flags {
    /// The empty flag set.
    pub fn new() -> (r: Flags)
        ensures
            r@ == Set::<Flag>::empty(),
    {
        let r = Flags { items: Vec::new() };
        proof {
            assert(r.items@.to_set() =~= Set::<Flag>::empty());
        }
        r
    }

    /// The flag set holding exactly the flags of `v`.
    pub fn from_vec(v: Vec<Flag>) -> (r: Flags)
        ensures
            r@ == v@.to_set(),
    {
        Flags { items: v }
    }

    /// Whether `f` is attached.
    pub fn contains(&self, f: Flag) -> (r: bool)
        ensures
            r == self@.contains(f),
    {
        let mut i: usize = 0;
        while i < self.items.len()
            invariant
                i <= self.items.len(),
                forall|j: int| 0 <= j < i ==> self.items@[j] != f,
            decreases self.items.len() - i,
        {
            if self.items[i] == f {
                return true;
            }
            i = i + 1;
        }
        proof {
            assert(!self.items@.contains(f));
        }
        false
    }

    /// Attach `f`. Setting a flag never implicitly clears another: the new
    /// set is exactly the old set plus `f`.
    pub fn insert(&mut self, f: Flag)
        ensures
            final(self)@ == old(self)@.insert(f),
            forall|g: Flag| old(self)@.contains(g) ==> final(self)@.contains(g),
    {
        if !self.contains(f) {
            let ghost before = self.items@;
            self.items.push(f);
            proof {
                assert forall|g: Flag| self.items@.to_set().contains(g)
                    implies before.to_set().insert(f).contains(g) by {
                    let i = choose|i: int| 0 <= i < self.items@.len() && self.items@[i] == g;
                    if i < before.len() {
                        assert(before.contains(g));
                    }
                }
                assert forall|g: Flag| before.to_set().insert(f).contains(g)
                    implies self.items@.to_set().contains(g) by {
                    if g == f {
                        assert(self.items@[self.items@.len() - 1] == f);
                        assert(self.items@.contains(g));
                    } else {
                        let i = choose|i: int| 0 <= i < before.len() && before[i] == g;
                        assert(self.items@[i] == g);
                    }
                }
                assert(self.items@.to_set() =~= before.to_set().insert(f));
            }
        } else {
            proof {
                assert(self@ =~= old(self)@.insert(f));
            }
        }
    }

    /// The flags as a vector, for callers that hand them to a backend.
    pub fn to_vec(&self) -> (r: Vec<Flag>)
        ensures
            r@.to_set() == self@,
    {
        self.items.clone()
    }
}

} // verus!
