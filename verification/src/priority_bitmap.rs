//! Two-level priority bitmap: one `u64` per group of 64 priorities and a
//! group map whose bit `g` is set exactly when group `g` holds a set bit.
//! Lower number = higher priority (0 is highest).
use vstd::prelude::*;
use vstd::std_specs::bits::{u64_trailing_zeros, axiom_u64_trailing_zeros};
use vstd::set_lib::{set_int_range, lemma_int_range, lemma_len_subset};

verus! {

/// Bit `i` of `x` is set.
pub open spec fn bit(x: u64, i: u64) -> bool {
    (x >> i) & 1u64 == 1u64
}

/// `p` is the least element of `s`.
pub open spec fn is_least(s: Set<int>, p: int) -> bool {
    s.contains(p) && forall|q: int| s.contains(q) ==> p <= q
}

proof fn lemma_bit_or(x: u64, b: u64, j: u64)
    requires
        b < 64,
        j < 64,
    ensures
        bit(x | (1u64 << b), j) == (bit(x, j) || j == b),
{
    assert(((x | (1u64 << b)) >> j) & 1u64 == 1u64 <==> (((x >> j) & 1u64 == 1u64) || j == b))
        by (bit_vector)
        requires
            b < 64,
            j < 64,
    ;
}

proof fn lemma_bit_and_not(x: u64, b: u64, j: u64)
    requires
        b < 64,
        j < 64,
    ensures
        bit(x & !(1u64 << b), j) == (bit(x, j) && j != b),
{
    assert(((x & !(1u64 << b)) >> j) & 1u64 == 1u64 <==> (((x >> j) & 1u64 == 1u64) && j != b))
        by (bit_vector)
        requires
            b < 64,
            j < 64,
    ;
}

proof fn lemma_or_nonzero(x: u64, b: u64)
    requires
        b < 64,
    ensures
        x | (1u64 << b) != 0,
{
    assert(x | (1u64 << b) != 0) by (bit_vector)
        requires
            b < 64,
    ;
}

proof fn lemma_and_not_zero_from(x: u64, b: u64)
    requires
        b < 64,
        x == 0,
    ensures
        x & !(1u64 << b) == 0,
{
    assert(x & !(1u64 << b) == 0) by (bit_vector)
        requires
            x == 0,
    ;
}

/// A word is zero exactly when none of its 64 bits is set.
proof fn lemma_zero_iff_no_bit(x: u64)
    ensures
        x == 0 <==> forall|j: u64| j < 64 ==> !#[trigger] bit(x, j),
{
    if x == 0 {
        assert forall|j: u64| j < 64 implies !#[trigger] bit(x, j) by {
            assert((0u64 >> j) & 1u64 == 0u64) by (bit_vector);
        }
    } else {
        axiom_u64_trailing_zeros(x);
        let t = u64_trailing_zeros(x) as u64;
        assert(t < 64);
        assert(bit(x, t));
    }
}

/// The trailing-zero count of a nonzero word names its least set bit.
proof fn lemma_trailing_zeros_least(x: u64)
    requires
        x != 0,
    ensures
        u64_trailing_zeros(x) < 64,
        bit(x, u64_trailing_zeros(x) as u64),
        forall|j: u64| j < u64_trailing_zeros(x) ==> !#[trigger] bit(x, j),
{
    axiom_u64_trailing_zeros(x);
    assert forall|j: u64| j < u64_trailing_zeros(x) implies !#[trigger] bit(x, j) by {
        assert((x >> j) & 1u64 == 0u64);
    }
}

/// Draining by repeated `pop_highest` yields priorities in ascending
/// order: the least element of a set is below the least element of the rest.
pub proof fn lemma_pop_order(s: Set<int>, first: int, second: int)
    requires
        is_least(s, first),
        is_least(s.remove(first), second),
    ensures
        first < second,
{
}

/// Taking the least element out of a finite set leaves a finite set with one
/// element fewer: draining a bitmap by `pop_highest` ends, after as many pops
/// as it has priorities set, in `None`.
pub proof fn lemma_pop_shrinks(s: Set<int>, p: int)
    requires
        s.finite(),
        is_least(s, p),
    ensures
        s.remove(p).finite(),
        s.remove(p).len() == s.len() - 1,
        s.len() > 0,
{
}

/// Setting a priority twice is the same as setting it once, clearing twice
/// the same as clearing once, and clearing a priority that was just set
/// (and was not set before) restores the previous contents.
pub proof fn lemma_set_clear_algebra(s: Set<int>, p: int)
    ensures
        s.insert(p).insert(p) == s.insert(p),
        s.remove(p).remove(p) == s.remove(p),
        !s.contains(p) ==> s.insert(p).remove(p) == s,
        s.insert(p).contains(p),
        !s.remove(p).contains(p),
{
    assert(s.insert(p).insert(p) =~= s.insert(p));
    assert(s.remove(p).remove(p) =~= s.remove(p));
    if !s.contains(p) {
        assert(s.insert(p).remove(p) =~= s);
    }
}

/// Two-level bitmap over `NUM_GROUPS * 64` priorities.
pub struct PriorityBitmap<const NUM_GROUPS: usize> {
    group_map: u64,
    group_table: Vec<u64>,
}

impl<const NUM_GROUPS: usize> PriorityBitmap<NUM_GROUPS> {
    /// The number of priorities, as a mathematical integer.
    pub open spec fn cap() -> int {
        NUM_GROUPS * 64
    }

    /// Number of priorities the bitmap holds (`NUM_GROUPS * 64`).
    pub fn capacity() -> (r: usize)
        requires
            NUM_GROUPS * 64 <= usize::MAX,
        ensures
            r == Self::cap(),
    {
        NUM_GROUPS * 64
    }

    /// Group count in the supported range `1..=64`.
    pub open spec fn groups_ok() -> bool {
        0 < NUM_GROUPS <= 64
    }

    /// Internal consistency: one word per group, group-map bit `g` set exactly
    /// when group `g` is nonzero, and no group-map bit beyond the groups.
    pub closed spec fn wf(&self) -> bool {
        &&& Self::groups_ok()
        &&& self.group_table@.len() == NUM_GROUPS
        &&& forall|g: u64| g < NUM_GROUPS ==> (#[trigger] bit(self.group_map, g) <==> self.group_table@[g as int] != 0)
        &&& forall|g: u64| NUM_GROUPS <= g < 64 ==> !#[trigger] bit(self.group_map, g)
    }

    /// The set of priorities that are currently set.
    pub closed spec fn view(&self) -> Set<int> {
        Set::new(|p: int| 0 <= p < Self::cap() && self.word_bit(p))
    }

    /// The priorities set are below the capacity; so they are finitely many,
    /// at most the capacity.
    pub proof fn lemma_contents_in_range(&self)
        ensures
            forall|p: int| #[trigger] self@.contains(p) ==> 0 <= p < Self::cap(),
            self@.finite(),
            self@.len() <= Self::cap(),
    {
        let r = set_int_range(0, Self::cap());
        lemma_int_range(0, Self::cap());
        assert(self@.subset_of(r));
        lemma_len_subset(self@, r);
    }

    spec fn word_bit(&self, p: int) -> bool {
        bit(self.group_table@[p / 64], (p % 64) as u64)
    }

    /// Builds a bitmap of `NUM_GROUPS` zero words.
    fn zero_table() -> (t: Vec<u64>)
        ensures
            t@.len() == NUM_GROUPS,
            forall|g: int| 0 <= g < NUM_GROUPS ==> t@[g] == 0,
    {
        let mut t: Vec<u64> = Vec::new();
        let mut i: usize = 0;
        while i < NUM_GROUPS
            invariant
                i <= NUM_GROUPS,
                t@.len() == i,
                forall|g: int| 0 <= g < i ==> t@[g] == 0,
            decreases NUM_GROUPS - i,
        {
            t.push(0);
            i = i + 1;
        }
        t
    }

    /// An empty bitmap.
    pub fn new() -> (r: Self)
        requires
            Self::groups_ok(),
        ensures
            r.wf(),
            r@ == Set::<int>::empty(),
    {
        let r = Self { group_map: 0, group_table: Self::zero_table() };
        proof {
            lemma_zero_iff_no_bit(0);
            assert(r@ =~= Set::<int>::empty()) by {
                assert forall|p: int| !r@.contains(p) by {
                    if 0 <= p < Self::cap() {
                        lemma_zero_iff_no_bit(r.group_table@[p / 64]);
                    }
                }
            }
        }
        r
    }

    /// Marks `prio` as ready.
    pub fn set(&mut self, prio: usize)
        requires
            old(self).wf(),
            prio < Self::cap(),
        ensures
            final(self).wf(),
            final(self)@ == old(self)@.insert(prio as int),
    {
        let g: usize = prio / 64;
        let b: usize = prio % 64;
        let w: u64 = self.group_table[g] | (1u64 << (b as u64));
        self.group_table.set(g, w);
        self.group_map = self.group_map | (1u64 << (g as u64));
        proof {
            let ow = old(self).group_table@[g as int];
            lemma_or_nonzero(ow, b as u64);
            assert forall|h: u64| h < NUM_GROUPS implies (#[trigger] bit(self.group_map, h)
                <==> self.group_table@[h as int] != 0) by {
                lemma_bit_or(old(self).group_map, g as u64, h);
            }
            assert forall|h: u64| NUM_GROUPS <= h < 64 implies !#[trigger] bit(self.group_map, h) by {
                lemma_bit_or(old(self).group_map, g as u64, h);
            }
            assert(self@ =~= old(self)@.insert(prio as int)) by {
                assert forall|p: int| #[trigger] self@.contains(p) == old(self)@.insert(prio as int).contains(p) by {
                    if 0 <= p < Self::cap() {
                        if p / 64 == g {
                            lemma_bit_or(ow, b as u64, (p % 64) as u64);
                        }
                    }
                }
            }
        }
    }

    /// Marks `prio` as not ready.
    pub fn clear(&mut self, prio: usize)
        requires
            old(self).wf(),
            prio < Self::cap(),
        ensures
            final(self).wf(),
            final(self)@ == old(self)@.remove(prio as int),
    {
        let g: usize = prio / 64;
        let b: usize = prio % 64;
        let w: u64 = self.group_table[g] & !(1u64 << (b as u64));
        self.group_table.set(g, w);
        if w == 0 {
            self.group_map = self.group_map & !(1u64 << (g as u64));
        }
        proof {
            let ow = old(self).group_table@[g as int];
            assert forall|h: u64| h < NUM_GROUPS implies (#[trigger] bit(self.group_map, h)
                <==> self.group_table@[h as int] != 0) by {
                if w == 0 {
                    lemma_bit_and_not(old(self).group_map, g as u64, h);
                } else if h == g {
                    if ow == 0 {
                        lemma_and_not_zero_from(ow, b as u64);
                    }
                }
            }
            assert forall|h: u64| NUM_GROUPS <= h < 64 implies !#[trigger] bit(self.group_map, h) by {
                if w == 0 {
                    lemma_bit_and_not(old(self).group_map, g as u64, h);
                }
            }
            assert(self@ =~= old(self)@.remove(prio as int)) by {
                assert forall|p: int| #[trigger] self@.contains(p) == old(self)@.remove(prio as int).contains(p) by {
                    if 0 <= p < Self::cap() {
                        if p / 64 == g {
                            lemma_bit_and_not(ow, b as u64, (p % 64) as u64);
                        }
                    }
                }
            }
        }
    }

    /// Whether `prio` is ready.
    pub fn is_set(&self, prio: usize) -> (r: bool)
        requires
            self.wf(),
            prio < Self::cap(),
        ensures
            r == self@.contains(prio as int),
    {
        let b: usize = prio % 64;
        let w: u64 = self.group_table[prio / 64];
        let r = (w >> (b as u64)) & 1 != 0;
        proof {
            let bb = b as u64;
            assert(((w >> bb) & 1u64 != 0u64) == ((w >> bb) & 1u64 == 1u64)) by (bit_vector);
            assert(self.word_bit(prio as int) == bit(w, bb));
        }
        r
    }

    /// Whether no priority is ready.
    pub fn is_empty(&self) -> (r: bool)
        requires
            self.wf(),
        ensures
            r == (self@ == Set::<int>::empty()),
    {
        proof {
            lemma_zero_iff_no_bit(self.group_map);
            if self.group_map == 0 {
                assert(self@ =~= Set::<int>::empty()) by {
                    assert forall|p: int| !self@.contains(p) by {
                        if 0 <= p < Self::cap() {
                            let g = p / 64;
                            assert(!bit(self.group_map, g as u64));
                            lemma_zero_iff_no_bit(self.group_table@[g]);
                        }
                    }
                }
            } else {
                let g = choose|j: u64| j < 64 && bit(self.group_map, j);
                assert(g < NUM_GROUPS);
                let w = self.group_table@[g as int];
                lemma_trailing_zeros_least(w);
                let t = u64_trailing_zeros(w) as u64;
                let p = g * 64 + t;
                assert(p / 64 == g && p % 64 == t);
                assert(self@.contains(p));
            }
        }
        self.group_map == 0
    }

    /// The highest ready priority (the numerically least), if any.
    pub fn highest(&self) -> (r: Option<usize>)
        requires
            self.wf(),
        ensures
            match r {
                Some(p) => is_least(self@, p as int) && p < Self::cap(),
                None => self@ == Set::<int>::empty(),
            },
    {
        let gm = self.group_map;
        if gm == 0 {
            proof {
                lemma_zero_iff_no_bit(0);
                assert(self@ =~= Set::<int>::empty()) by {
                    assert forall|p: int| !self@.contains(p) by {
                        if 0 <= p < Self::cap() {
                            let g = p / 64;
                            assert(!bit(self.group_map, g as u64));
                            lemma_zero_iff_no_bit(self.group_table@[g]);
                        }
                    }
                }
            }
            return None;
        }
        proof {
            lemma_trailing_zeros_least(gm);
        }
        let g: usize = gm.trailing_zeros() as usize;
        let w = self.group_table[g];
        proof {
            lemma_trailing_zeros_least(w);
        }
        let b: usize = w.trailing_zeros() as usize;
        let p: usize = g * 64 + b;
        proof {
            assert(p / 64 == g && p % 64 == b);
            assert(self@.contains(p as int));
            assert forall|q: int| self@.contains(q) implies p <= q by {
                let qg = q / 64;
                let qb = q % 64;
                assert(q == qg * 64 + qb);
                lemma_zero_iff_no_bit(self.group_table@[qg]);
                assert(bit(gm, qg as u64));
                if qg == g {
                    assert(bit(w, qb as u64));
                }
            }
        }
        Some(p)
    }

    /// Removes and returns the highest ready priority, if any.
    pub fn pop_highest(&mut self) -> (r: Option<usize>)
        requires
            old(self).wf(),
        ensures
            final(self).wf(),
            match r {
                Some(p) => is_least(old(self)@, p as int) && p < Self::cap() && final(self)@ == old(self)@.remove(p as int),
                None => old(self)@ == Set::<int>::empty() && final(self)@ == old(self)@,
            },
    {
        let prio = match self.highest() {
            Some(p) => p,
            None => return None,
        };
        self.clear(prio);
        Some(prio)
    }

    /// Marks every priority as not ready.
    pub fn clear_all(&mut self)
        requires
            old(self).wf(),
        ensures
            final(self).wf(),
            final(self)@ == Set::<int>::empty(),
    {
        self.group_map = 0;
        self.group_table = Self::zero_table();
        proof {
            lemma_zero_iff_no_bit(0);
            assert(self@ =~= Set::<int>::empty()) by {
                assert forall|p: int| !self@.contains(p) by {
                    if 0 <= p < Self::cap() {
                        lemma_zero_iff_no_bit(self.group_table@[p / 64]);
                    }
                }
            }
        }
    }
}

} // verus!
