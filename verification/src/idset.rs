//! A set of node identities, backed by a vector of strings and viewed as a
//! mathematical set of character sequences. This is the expansion set of the
//! tree views and the breakpoint set of the debugger.

use vstd::prelude::*;
use crate::text::str_eq;

verus! {

pub struct IdSet {
    items: Vec<String>,
}

impl View for IdSet {
    type V = Set<Seq<char>>;

    closed spec fn view(&self) -> Set<Seq<char>> {
        Set::new(|s: Seq<char>| exists|i: int| 0 <= i < self.items@.len() && self.items@[i]@ == s)
    }
}

impl IdSet {
    /// No two stored strings read the same, so removal by value is exact.
    pub closed spec fn wf(&self) -> bool {
        forall|i: int, j: int|
            0 <= i < j < self.items@.len() ==> self.items@[i]@ != self.items@[j]@
    }

    pub fn new() -> (r: IdSet)
        ensures
            r@ =~= Set::<Seq<char>>::empty(),
            r.wf(),
    {
        IdSet { items: Vec::new() }
    }

    pub fn contains(&self, id: &str) -> (r: bool)
        ensures
            r == self@.contains(id@),
    {
        let n = self.items.len();
        let mut i: usize = 0;
        while i < n
            invariant
                n == self.items@.len(),
                i <= n,
                forall|j: int| 0 <= j < i ==> self.items@[j]@ != id@,
            decreases n - i,
        {
            if str_eq(self.items[i].as_str(), id) {
                return true;
            }
            i += 1;
        }
        false
    }

    pub fn insert(&mut self, id: String)
        requires
            old(self).wf(),
        ensures
            final(self)@ =~= old(self)@.insert(id@),
            final(self).wf(),
    {
        if !self.contains(id.as_str()) {
            let ghost idv = id@;
            self.items.push(id);
            proof {
                assert(final(self)@ =~= old(self)@.insert(idv)) by {
                    assert forall|s: Seq<char>|
                        final(self)@.contains(s) implies old(self)@.insert(idv).contains(s) by {
                        let k = choose|k: int|
                            0 <= k < self.items@.len() && self.items@[k]@ == s;
                        if k < old(self).items@.len() {
                            assert(old(self).items@[k]@ == s);
                        }
                    }
                    assert forall|s: Seq<char>|
                        old(self)@.insert(idv).contains(s) implies final(self)@.contains(s) by {
                        if old(self)@.contains(s) {
                            let k = choose|k: int|
                                0 <= k < old(self).items@.len() && old(self).items@[k]@ == s;
                            assert(self.items@[k]@ == s);
                        } else {
                            assert(self.items@[self.items@.len() - 1]@ == s);
                        }
                    }
                }
            }
        }
    }

    pub fn remove(&mut self, id: &str)
        requires
            old(self).wf(),
        ensures
            final(self)@ =~= old(self)@.remove(id@),
            final(self).wf(),
    {
        let n = self.items.len();
        let mut i: usize = 0;
        while i < n
            invariant
                n == self.items@.len(),
                i <= n,
                old(self).wf(),
                *self == *old(self),
                forall|j: int| 0 <= j < i ==> self.items@[j]@ != id@,
            decreases n - i,
        {
            if str_eq(self.items[i].as_str(), id) {
                self.items.remove(i);
                proof {
                    assert(final(self)@ =~= old(self)@.remove(id@)) by {
                        assert forall|s: Seq<char>|
                            final(self)@.contains(s) implies old(self)@.remove(id@).contains(s) by {
                            let k = choose|k: int|
                                0 <= k < self.items@.len() && self.items@[k]@ == s;
                            if k < i {
                                assert(old(self).items@[k]@ == s);
                            } else {
                                assert(old(self).items@[k + 1]@ == s);
                            }
                        }
                        assert forall|s: Seq<char>|
                            old(self)@.remove(id@).contains(s) implies final(self)@.contains(s) by {
                            let k = choose|k: int|
                                0 <= k < old(self).items@.len() && old(self).items@[k]@ == s;
                            if k < i {
                                assert(self.items@[k]@ == s);
                            } else {
                                assert(k != i);
                                assert(self.items@[k - 1]@ == s);
                            }
                        }
                    }
                }
                return;
            }
            i += 1;
        }
        proof {
            assert(final(self)@ =~= old(self)@.remove(id@));
        }
    }

    /// The stored identities in insertion order.
    pub fn as_vec(&self) -> (r: &Vec<String>)
        ensures
            forall|i: int| 0 <= i < r@.len() ==> self@.contains(#[trigger] r@[i]@),
    {
        &self.items
    }
}

} // verus!
