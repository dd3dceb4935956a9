//! The interner: deduplicates identifier and string text into cheap-to-compare
//! handles. It is the one piece of state that outlives a single read call; the
//! reader stores text by value, and downstream phases intern it through a
//! context object of this type, so independent interners can be made for
//! independent sessions.

use vstd::prelude::*;
use crate::sexpr::bytes_eq;

verus! {

/// An interning table. Well-formed tables never hold the same text twice, so
/// two handles of one table are equal exactly when their texts are equal.
pub struct Interner {
    pub strings: Vec<Vec<u8>>,
}

impl Interner {
    /// No two entries hold the same text.
    pub open spec fn wf(self) -> bool {
        forall|i: int, j: int|
            0 <= i < j < self.strings@.len() ==> #[trigger] self.strings@[i]@ != #[trigger] self
                .strings@[j]@
    }

    pub open spec fn spec_len(self) -> nat {
        self.strings@.len()
    }

    /// The text a handle stands for.
    pub open spec fn text(self, h: int) -> Seq<u8> {
        self.strings@[h]@
    }

    pub fn new() -> (r: Interner)
        ensures
            r.wf(),
            r.spec_len() == 0,
    {
        Interner { strings: Vec::new() }
    }

    /// Intern one text: the handle of the entry holding it, added at the end
    /// if it was absent. Existing handles keep their text.
    pub fn intern(&mut self, text: &[u8]) -> (h: usize)
        requires
            old(self).wf(),
        ensures
            final(self).wf(),
            h < final(self).spec_len(),
            final(self).text(h as int) == text@,
            old(self).spec_len() <= final(self).spec_len() <= old(self).spec_len() + 1,
            forall|i: int|
                0 <= i < old(self).spec_len() ==> final(self).text(i) == #[trigger] old(self).text(
                    i,
                ),
    {
        let mut k: usize = 0;
        while k < self.strings.len()
            invariant
                k <= self.strings@.len(),
                forall|i: int| 0 <= i < k ==> #[trigger] self.strings@[i]@ != text@,
                self.wf(),
                self == old(self),
            decreases self.strings@.len() - k,
        {
            if bytes_eq(self.strings[k].as_slice(), text) {
                return k;
            }
            k += 1;
        }
        let ghost before = self.strings@;
        let mut owned: Vec<u8> = Vec::new();
        owned.extend_from_slice(text);
        self.strings.push(owned);
        proof {
            assert(self.strings@.len() == before.len() + 1);
            assert(forall|i: int| 0 <= i < before.len() ==> self.strings@[i] == before[i]);
            assert(self.strings@[before.len() as int]@ == text@);
        }
        self.strings.len() - 1
    }

    /// The text behind a handle.
    pub fn resolve(&self, h: usize) -> (r: &Vec<u8>)
        requires
            h < self.spec_len(),
        ensures
            r@ == self.text(h as int),
    {
        &self.strings[h]
    }
}

/// Law: in a well-formed interner, two handles stand for the same text
/// exactly when they are the same handle, so handle comparison decides text
/// equality in O(1).
pub proof fn lemma_handle_identity(it: Interner, h1: int, h2: int)
    requires
        it.wf(),
        0 <= h1 < it.spec_len(),
        0 <= h2 < it.spec_len(),
    ensures
        (it.text(h1) == it.text(h2)) <==> h1 == h2,
{
    if h1 < h2 {
        assert(it.strings@[h1]@ != it.strings@[h2]@);
    } else if h2 < h1 {
        assert(it.strings@[h2]@ != it.strings@[h1]@);
    }
}

} // verus!
