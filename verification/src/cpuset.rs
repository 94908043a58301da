use vstd::prelude::*;

verus! {

/// Bit `id` of the CPU bitmap `set` is set.
pub open spec fn cpu_bit(set: u64, id: int) -> bool {
    0 <= id < 64 && (set >> (id as u64)) & 1 == 1
}

/// `c` is the lowest-numbered member of `set`.
pub open spec fn spec_is_first_cpu(set: CpuSet, c: int) -> bool {
    set.spec_contains(c) && (forall|d: int| 0 <= d < c ==> !set.spec_contains(d))
}

/// The lowest-numbered member of a nonempty set.
pub open spec fn spec_first_cpu_of(set: CpuSet) -> int {
    choose|c: int| spec_is_first_cpu(set, c)
}

/// The lowest member is unique, so any witness equals `spec_first_cpu_of`.
pub proof fn lemma_first_cpu_of(set: CpuSet, c: int)
    requires
        spec_is_first_cpu(set, c),
    ensures
        spec_first_cpu_of(set) == c,
{
    let c2 = spec_first_cpu_of(set);
    assert(spec_is_first_cpu(set, c2));
    assert(set.spec_contains(c));
    assert(set.spec_contains(c2));
    if c2 < c {
        assert(!set.spec_contains(c2));
    }
    if c < c2 {
        assert(!set.spec_contains(c));
    }
}

/// A fixed set of physical CPU identifiers, backed by one 64-bit bitmap.
/// Each cell owns one; the partitioning invariants keep the sets of
/// distinct non-root cells disjoint.
#[derive(Clone, Copy, Debug, PartialEq, Eq, Structural)]
pub struct CpuSet {
    pub bitmap: u64,
}

impl CpuSet {
    /// CPU `id` is a member of this set.
    pub open spec fn spec_contains(self, id: int) -> bool {
        cpu_bit(self.bitmap, id)
    }

    /// The set has at least one member.
    pub open spec fn spec_nonempty(self) -> bool {
        exists|id: int| self.spec_contains(id)
    }

    /// Build the set from the configuration's CPU bitmap.
    pub fn from_bitmap(bitmap: u64) -> (r: Self)
        ensures
            r.bitmap == bitmap,
    {
        CpuSet { bitmap }
    }

    /// Membership test; identifiers outside 0..64 are never members.
    pub fn contains_cpu(&self, id: u64) -> (r: bool)
        ensures
            r == self.spec_contains(id as int),
    {
        if id < 64 {
            (self.bitmap >> id) & 1 == 1
        } else {
            false
        }
    }

    /// The lowest-numbered member, if any.
    pub fn first_cpu(&self) -> (r: Option<u64>)
        ensures
            (r is None) <==> (forall|id: int| !self.spec_contains(id)),
            r matches Some(c) ==> self.spec_contains(c as int) && c < 64
                && (forall|d: int| 0 <= d < c ==> !self.spec_contains(d))
                && c as int == spec_first_cpu_of(*self),
    {
        let mut i: u64 = 0;
        while i < 64
            invariant
                i <= 64,
                forall|d: int| 0 <= d < i ==> !self.spec_contains(d),
            decreases 64 - i,
        {
            if (self.bitmap >> i) & 1 == 1 {
                proof {
                    assert(self.spec_contains(i as int));
                    lemma_first_cpu_of(*self, i as int);
                }
                return Some(i);
            }
            i = i + 1;
        }
        None
    }

    /// The members of the set except `except`, in increasing order.
    pub fn iter_except(&self, except: u64) -> (r: Vec<u64>)
        ensures
            forall|a: int, b: int| 0 <= a < b < r@.len() ==> r@[a] < r@[b],
            forall|c: u64| r@.contains(c) ==> self.spec_contains(c as int) && c != except,
            forall|c: u64| self.spec_contains(c as int) && c != except ==> r@.contains(c),
    {
        let mut r: Vec<u64> = Vec::new();
        let mut i: u64 = 0;
        while i < 64
            invariant
                i <= 64,
                forall|a: int, b: int| 0 <= a < b < r@.len() ==> r@[a] < r@[b],
                forall|a: int| 0 <= a < r@.len()
                    ==> #[trigger] r@[a] < i && self.spec_contains(r@[a] as int) && r@[a] != except,
                forall|c: u64| c < i && self.spec_contains(c as int) && c != except
                    ==> r@.contains(c),
            decreases 64 - i,
        {
            if (self.bitmap >> i) & 1 == 1 && i != except {
                let ghost prev = r@;
                r.push(i);
                proof {
                    assert(self.spec_contains(i as int));
                    assert(r@ == prev.push(i));
                    assert(r@[r@.len() - 1] == i);
                    assert forall|c: u64|
                        c < i + 1 && self.spec_contains(c as int) && c != except
                            implies r@.contains(c) by {
                        if c < i {
                            assert(prev.contains(c));
                            let k = choose|k: int| 0 <= k < prev.len() && prev[k] == c;
                            assert(r@[k] == c);
                        } else {
                            assert(r@[r@.len() - 1] == c);
                        }
                    }
                }
            } else {
                proof {
                    assert forall|c: u64|
                        c < i + 1 && self.spec_contains(c as int) && c != except
                            implies r@.contains(c) by {
                        assert(c != i);
                        assert(c < i);
                    }
                }
            }
            i = i + 1;
        }
        proof {
            assert forall|c: u64|
                r@.contains(c) implies self.spec_contains(c as int) && c != except by {
                let k = choose|k: int| 0 <= k < r@.len() && r@[k] == c;
                assert(r@[k] == c);
            }
        }
        r
    }
}

} // verus!
