//! Replay filters: persistent single-use sets keyed by a scalar.  `check`
//! looks without recording; `filter` records a fresh key.  A key that has
//! been recorded once is reported `Seen` ever after, which is what makes
//! every credential id single-use.
use vstd::prelude::*;

use crate::group::{sc_eq, Sc};

verus! {

/// The answer of a filter lookup.
#[derive(Clone, Copy, Debug, PartialEq, Eq, Structural)]
pub enum SeenType {
    Fresh,
    Seen,
}

/// A single-use set of scalar keys.
pub struct SeenSet {
    items: Vec<Sc>,
}

impl View for SeenSet {
    type V = Seq<Seq<u8>>;

    closed spec fn view(&self) -> Seq<Seq<u8>> {
        crate::zkp::scs_view(self.items@)
    }
}

/// Whether a key is in a filter.
pub open spec fn seen_in(s: Seq<Seq<u8>>, k: Seq<u8>) -> bool {
    exists|i: int| 0 <= i < s.len() && s[i] == k
}

impl SeenSet {
    /// An empty filter.
    pub fn new() -> (r: SeenSet)
        ensures
            r@.len() == 0,
    {
        SeenSet { items: Vec::new() }
    }

    fn lookup(&self, k: &Sc) -> (r: bool)
        ensures
            r == seen_in(self@, k@),
    {
        let mut i: usize = 0;
        while i < self.items.len()
            invariant
                i <= self.items@.len(),
                forall|j: int| 0 <= j < i ==> self@[j] != k@,
            decreases self.items@.len() - i,
        {
            if sc_eq(&self.items[i], k) {
                assert(self@[i as int] == k@);
                return true;
            }
            i += 1;
        }
        false
    }

    /// Look a key up without recording it.
    pub fn check(&self, k: &Sc) -> (r: SeenType)
        ensures
            r == SeenType::Seen <==> seen_in(self@, k@),
    {
        if self.lookup(k) {
            SeenType::Seen
        } else {
            SeenType::Fresh
        }
    }

    /// Look a key up and record it when fresh.
    pub fn filter(&mut self, k: &Sc) -> (r: SeenType)
        ensures
            r == SeenType::Seen <==> seen_in(old(self)@, k@),
            r == SeenType::Seen ==> *final(self) == *old(self),
            r == SeenType::Fresh ==> final(self)@ == old(self)@.push(k@),
    {
        if self.lookup(k) {
            SeenType::Seen
        } else {
            self.items.push(*k);
            proof {
                assert(self@ =~= old(self)@.push(k@));
            }
            SeenType::Fresh
        }
    }
}

/// Once a key has been recorded, it stays recorded: `filter` never removes
/// a key, so a later `filter` of the same key answers `Seen`.
pub proof fn lemma_filter_single_use(s0: Seq<Seq<u8>>, k: Seq<u8>)
    ensures
        seen_in(s0.push(k), k),
        forall|k2: Seq<u8>| seen_in(s0, k2) ==> seen_in(s0.push(k), k2),
{
    assert(s0.push(k)[s0.len() as int] == k);
    assert forall|k2: Seq<u8>| seen_in(s0, k2) implies seen_in(s0.push(k), k2) by {
        let i = choose|i: int| 0 <= i < s0.len() && s0[i] == k2;
        assert(s0.push(k)[i] == k2);
    }
}

} // verus!
