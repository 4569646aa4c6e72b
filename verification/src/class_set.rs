//! The set of class names: accepted names read out of a stylesheet, or names
//! found while scanning source files.
//!
//! Class names are compared byte-exactly (no normalization). The set keeps
//! its members in a vector whose entries are pairwise distinct, and is viewed
//! as a mathematical set of character sequences.

use vstd::prelude::*;
use crate::text::str_eq;

verus! {

/// A set of class names with uniqueness enforced and insertion order
/// irrelevant to its meaning.
pub struct ClassSet {
    items: Vec<String>,
}

impl View for ClassSet {
    type V = Set<Seq<char>>;

    closed spec fn view(&self) -> Set<Seq<char>> {
        self.names().to_set()
    }
}

impl ClassSet {
    /// The member names, in insertion order.
    pub closed spec fn names(&self) -> Seq<Seq<char>> {
        self.items@.map_values(|s: String| s@)
    }

    /// The members are pairwise distinct.
    pub closed spec fn wf(&self) -> bool {
        self.names().no_duplicates()
    }

    pub fn new() -> (r: ClassSet)
        ensures
            r.wf(),
            r@ == Set::<Seq<char>>::empty(),
            r.names() == Seq::<Seq<char>>::empty(),
    {
        let r = ClassSet { items: Vec::new() };
        proof {
            assert(r.names() =~= Seq::<Seq<char>>::empty());
            assert(r@ =~= Set::<Seq<char>>::empty());
        }
        r
    }

    /// Whether `name` is a member.
    pub fn contains(&self, name: &str) -> (r: bool)
        ensures
            r == self@.contains(name@),
    {
        let n = self.items.len();
        let mut i: usize = 0;
        while i < n
            invariant
                n == self.items@.len(),
                0 <= i <= n,
                forall|j: int| 0 <= j < i ==> self.names()[j] != name@,
            decreases n - i,
        {
            if str_eq(self.items[i].as_str(), name) {
                proof {
                    assert(self.names()[i as int] == name@);
                    assert(self.names().contains(name@));
                }
                return true;
            }
            i += 1;
        }
        proof {
            assert(!self.names().contains(name@));
        }
        false
    }

    /// Adds `name` unless it is already a member; says whether it was added.
    pub fn insert(&mut self, name: String) -> (added: bool)
        requires
            old(self).wf(),
        ensures
            final(self).wf(),
            final(self)@ == old(self)@.insert(name@),
            added == !old(self)@.contains(name@),
            final(self).names() == if added {
                old(self).names().push(name@)
            } else {
                old(self).names()
            },
    {
        if self.contains(name.as_str()) {
            proof {
                assert(self@ =~= old(self)@.insert(name@));
            }
            false
        } else {
            let ghost before = self.names();
            self.items.push(name);
            proof {
                assert(self.names() =~= before.push(name@));
                assert forall|x: Seq<char>| self.names().contains(x)
                    <==> (before.contains(x) || x == name@) by {
                    if self.names().contains(x) {
                        let i = choose|i: int|
                            0 <= i < self.names().len() && self.names()[i] == x;
                        if i < before.len() {
                            assert(before[i] == x);
                        }
                    }
                    if before.contains(x) {
                        let i = choose|i: int| 0 <= i < before.len() && before[i] == x;
                        assert(self.names()[i] == x);
                    }
                    if x == name@ {
                        assert(self.names()[before.len() as int] == x);
                    }
                }
                assert(self@ =~= old(self)@.insert(name@));
                assert(!before.contains(name@));
            }
            true
        }
    }

    /// How many members the set has.
    pub fn len(&self) -> (r: usize)
        requires
            self.wf(),
        ensures
            r == self.names().len(),
            r == self@.len(),
    {
        proof {
            self.names().unique_seq_to_set();
        }
        self.items.len()
    }

    /// Whether the set has no member.
    pub fn is_empty(&self) -> (r: bool)
        ensures
            r == self@.is_empty(),
    {
        if self.items.len() == 0 {
            proof {
                assert(self.names().len() == 0);
                assert forall|x: Seq<char>| !self@.contains(x) by {
                    assert(!self.names().contains(x));
                }
                assert(self@ =~= Set::<Seq<char>>::empty());
            }
            true
        } else {
            proof {
                assert(self.names()[0] == self.items@[0]@);
                assert(self.names().contains(self.items@[0]@));
                assert(self@.contains(self.items@[0]@));
            }
            false
        }
    }

    /// A copy of the members, in insertion order.
    pub fn to_vec(&self) -> (r: Vec<String>)
        ensures
            r@.map_values(|s: String| s@) == self.names(),
    {
        let n = self.items.len();
        let mut out: Vec<String> = Vec::new();
        let mut i: usize = 0;
        proof {
            assert(out@.map_values(|s: String| s@) =~= self.names().take(0));
        }
        while i < n
            invariant
                n == self.items@.len(),
                0 <= i <= n,
                out@.map_values(|s: String| s@) == self.names().take(i as int),
            decreases n - i,
        {
            out.push(self.items[i].clone());
            proof {
                assert(out@.map_values(|s: String| s@) =~= self.names().take(i as int).push(
                    self.names()[i as int],
                ));
                assert(self.names().take(i + 1 as int) =~= self.names().take(i as int).push(
                    self.names()[i as int],
                ));
            }
            i += 1;
        }
        proof {
            assert(self.names().take(n as int) =~= self.names());
        }
        out
    }

}

} // verus!
