use vstd::prelude::*;

verus! {

/// The per-interrupt meaning of a word-wise AND-NOT between bitmaps:
/// `a_new` claims exactly what `a_old` claims minus what `b` claims.
pub open spec fn diff_semantics(a_new: IrqBitmap, a_old: IrqBitmap, b: IrqBitmap) -> bool {
    forall|id: int| a_new.spec_has(id) == (a_old.spec_has(id) && !b.spec_has(id))
}

/// One bit per interrupt ID 0..1023. A set bit means the owning cell claims
/// that interrupt line. All cross-cell ownership reasoning in the crate is
/// phrased over `spec_has`.
#[derive(Debug)]
pub struct IrqBitmap {
    words: Vec<u32>,
}

/// The `k`-th bit of word `w` is set.
pub open spec fn word_bit(w: u32, k: u32) -> bool {
    (w >> k) & 1 == 1
}

impl IrqBitmap {
    /// The 32 backing words.
    pub closed spec fn spec_words(self) -> Seq<u32> {
        self.words@
    }

    pub open spec fn wf(self) -> bool {
        self.spec_words().len() == 32
    }

    /// The raw backing word at index `i`.
    pub open spec fn word(self, i: int) -> u32 {
        self.spec_words()[i]
    }

    /// Interrupt `id` is claimed by this bitmap.
    pub open spec fn spec_has(self, id: int) -> bool {
        0 <= id < 1024 && word_bit(self.word(id / 32), (id % 32) as u32)
    }

    /// No interrupt is claimed by both `self` and `other`.
    pub open spec fn spec_disjoint(self, other: IrqBitmap) -> bool {
        forall|id: int| !(self.spec_has(id) && other.spec_has(id))
    }

    /// An all-zero bitmap: no interrupt claimed.
    pub fn new() -> (r: Self)
        ensures
            r.wf(),
            forall|i: int| 0 <= i < 32 ==> r.word(i) == 0,
            forall|id: int| !r.spec_has(id),
    {
        let mut words: Vec<u32> = Vec::new();
        let mut i: usize = 0;
        while i < 32
            invariant
                i <= 32,
                words@.len() == i,
                forall|j: int| 0 <= j < i ==> words@[j] == 0,
            decreases 32 - i,
        {
            words.push(0);
            i = i + 1;
        }
        let r = IrqBitmap { words };
        proof {
            assert forall|id: int| !r.spec_has(id) by {
                if 0 <= id < 1024 {
                    let k = (id % 32) as u32;
                    assert(r.word(id / 32) == 0);
                    assert(!word_bit(0u32, k)) by (bit_vector);
                }
            }
        }
        r
    }

    /// Whether interrupt `id` is claimed.
    pub fn get(&self, id: u32) -> (r: bool)
        requires
            self.wf(),
            id < 1024,
        ensures
            r == self.spec_has(id as int),
    {
        let idx: usize = (id / 32) as usize;
        let k: u32 = id % 32;
        (self.words[idx] >> k) & 1 == 1
    }

    /// The raw word at index `i`.
    pub fn word_at(&self, i: usize) -> (r: u32)
        requires
            self.wf(),
            i < 32,
        ensures
            r == self.word(i as int),
    {
        self.words[i]
    }

    /// OR `mask` into word `i`: claim the interrupts whose bits are set.
    pub fn or_word(&mut self, i: usize, mask: u32)
        requires
            old(self).wf(),
            i < 32,
        ensures
            final(self).wf(),
            final(self).word(i as int) == old(self).word(i as int) | mask,
            forall|j: int| 0 <= j < 32 && j != i ==> final(self).word(j) == old(self).word(j),
            final(self).spec_words() == old(self).spec_words().update(
                i as int,
                old(self).word(i as int) | mask,
            ),
    {
        let w: u32 = self.words[i];
        self.words[i] = w | mask;
    }

    /// AND word `i` with `mask`: keep only the interrupts whose bits are set
    /// in `mask`.
    pub fn and_word(&mut self, i: usize, mask: u32)
        requires
            old(self).wf(),
            i < 32,
        ensures
            final(self).wf(),
            final(self).word(i as int) == old(self).word(i as int) & mask,
            forall|j: int| 0 <= j < 32 && j != i ==> final(self).word(j) == old(self).word(j),
            final(self).spec_words() == old(self).spec_words().update(
                i as int,
                old(self).word(i as int) & mask,
            ),
    {
        let w: u32 = self.words[i];
        self.words[i] = w & mask;
    }

    /// Clear from `self` every interrupt claimed by word `i` of `mask`.
    pub fn andnot_word(&mut self, i: usize, mask: u32)
        requires
            old(self).wf(),
            i < 32,
        ensures
            final(self).wf(),
            final(self).word(i as int) == old(self).word(i as int) & !mask,
            forall|j: int| 0 <= j < 32 && j != i ==> final(self).word(j) == old(self).word(j),
            final(self).spec_words() == old(self).spec_words().update(
                i as int,
                old(self).word(i as int) & !mask,
            ),
    {
        let w: u32 = self.words[i];
        self.words[i] = w & !mask;
    }

    /// Remove from `self` every interrupt that `other` claims.
    pub fn diff(&mut self, other: &IrqBitmap)
        requires
            old(self).wf(),
            other.wf(),
        ensures
            final(self).wf(),
            forall|i: int| 0 <= i < 32 ==> final(self).word(i) == old(self).word(i) & !other.word(i),
            diff_semantics(*final(self), *old(self), *other),
    {
        let mut i: usize = 0;
        while i < 32
            invariant
                i <= 32,
                self.wf(),
                other.wf(),
                forall|j: int| 0 <= j < i ==> self.word(j) == old(self).word(j) & !other.word(j),
                forall|j: int| i <= j < 32 ==> self.word(j) == old(self).word(j),
            decreases 32 - i,
        {
            let m: u32 = other.words[i];
            self.andnot_word(i, m);
            i = i + 1;
        }
        proof {
            lemma_diff_semantics(*self, *old(self), *other);
        }
    }
}

/// A word-wise AND-NOT of backing words yields, bit for bit, the set
/// difference of the claimed interrupts.
pub proof fn lemma_diff_semantics(a_new: IrqBitmap, a_old: IrqBitmap, b: IrqBitmap)
    requires
        forall|i: int| 0 <= i < 32 ==> a_new.word(i) == a_old.word(i) & !b.word(i),
    ensures
        diff_semantics(a_new, a_old, b),
{
    assert forall|id: int|
        a_new.spec_has(id) == (a_old.spec_has(id) && !b.spec_has(id)) by {
        if 0 <= id < 1024 {
            let w = id / 32;
            let k = (id % 32) as u32;
            assert(0 <= w < 32);
            assert(k < 32);
            assert(a_new.word(w) == a_old.word(w) & !b.word(w));
            lemma_word_bit_andnot(a_old.word(w), b.word(w), k);
        }
    }
}

/// A claim subtracted is a claim absent: right after the difference, the
/// bitmap shares no interrupt with what was taken out of it—so a newly
/// created cell's claimed interrupts are absent from the root cell's
/// bitmap the moment creation subtracts them.
pub proof fn lemma_diff_makes_disjoint(a_new: IrqBitmap, a_old: IrqBitmap, b: IrqBitmap)
    requires
        diff_semantics(a_new, a_old, b),
    ensures
        forall|id: int| b.spec_has(id) ==> !a_new.spec_has(id),
        a_new.spec_disjoint(b),
{
}

/// Bit-level meaning of a word AND-NOT (set difference).
pub proof fn lemma_word_bit_andnot(a: u32, b: u32, k: u32)
    by (bit_vector)
    requires
        k < 32,
    ensures
        word_bit(a & !b, k) == (word_bit(a, k) && !word_bit(b, k)),
{
}

} // verus!
