//! A set of squares held in one 64-bit word: bit `i` is set when square `i`
//! is a member.

use vstd::prelude::*;
use vstd::std_specs::bits::axiom_u64_trailing_zeros;

verus! {

/// Whether bit `i` of `w` is set; false outside `[0, 64)`.
pub open spec fn bit(w: u64, i: int) -> bool {
    0 <= i < 64 && (w >> (i as u64)) & 1u64 == 1u64
}

/// How many of the lowest `n` bits of `w` are set.
pub open spec fn count_below(w: u64, n: int) -> int
    decreases n,
{
    if n <= 0 {
        0
    } else {
        count_below(w, n - 1) + if bit(w, n - 1) { 1int } else { 0int }
    }
}

/// The members of `w` that are smaller than `n`.
pub open spec fn members_below(w: u64, n: int) -> Set<int> {
    Set::new(|i: int| i < n && bit(w, i))
}

proof fn lemma_bit_zero(i: u64)
    by (bit_vector)
    ensures
        (0u64 >> i) & 1u64 == 0u64,
{
}

proof fn lemma_bit_single(s: u64, i: u64)
    by (bit_vector)
    requires
        s < 64,
        i < 64,
    ensures
        (((1u64 << s) >> i) & 1u64 == 1u64) == (i == s),
{
}

proof fn lemma_bit_or(a: u64, b: u64, i: u64)
    by (bit_vector)
    requires
        i < 64,
    ensures
        (((a | b) >> i) & 1u64 == 1u64) == (((a >> i) & 1u64 == 1u64) || ((b >> i) & 1u64 == 1u64)),
{
}

proof fn lemma_bit_and(a: u64, b: u64, i: u64)
    by (bit_vector)
    requires
        i < 64,
    ensures
        (((a & b) >> i) & 1u64 == 1u64) == (((a >> i) & 1u64 == 1u64) && ((b >> i) & 1u64 == 1u64)),
{
}

proof fn lemma_bit_xor(a: u64, b: u64, i: u64)
    by (bit_vector)
    requires
        i < 64,
    ensures
        (((a ^ b) >> i) & 1u64 == 1u64) == (((a >> i) & 1u64 == 1u64) != ((b >> i) & 1u64 == 1u64)),
{
}

proof fn lemma_bit_not(a: u64, i: u64)
    by (bit_vector)
    requires
        i < 64,
    ensures
        (((!a) >> i) & 1u64 == 1u64) == !((a >> i) & 1u64 == 1u64),
{
}

proof fn lemma_bit_shl(a: u64, n: u64, i: u64)
    by (bit_vector)
    requires
        n < 64,
        i < 64,
    ensures
        (((a << n) >> i) & 1u64 == 1u64) == (i >= n && (a >> ((i - n) as u64)) & 1u64 == 1u64),
{
}

proof fn lemma_bit_shr(a: u64, n: u64, i: u64)
    by (bit_vector)
    requires
        n < 64,
        i < 64,
    ensures
        (((a >> n) >> i) & 1u64 == 1u64) == (i + n < 64 && (a >> ((i + n) as u64)) & 1u64 == 1u64),
{
}

proof fn lemma_bit_file(f: u64, i: u64)
    by (bit_vector)
    requires
        f < 8,
        i < 64,
    ensures
        (((0x0101_0101_0101_0101u64 << f) >> i) & 1u64 == 1u64) == (i % 8 == f),
{
}

/// The members below `n` are finite and `count_below` counts them.
pub proof fn lemma_count_below(w: u64, n: int)
    requires
        0 <= n <= 64,
    ensures
        members_below(w, n).finite(),
        members_below(w, n).len() == count_below(w, n),
    decreases n,
{
    if n == 0 {
        assert(members_below(w, n) =~= Set::<int>::empty());
    } else {
        lemma_count_below(w, n - 1);
        if bit(w, n - 1) {
            assert(members_below(w, n) =~= members_below(w, n - 1).insert(n - 1));
        } else {
            assert(members_below(w, n) =~= members_below(w, n - 1));
        }
    }
}

/// A set of squares, each an index in `[0, 64)`.
#[derive(Clone, Copy, Debug, PartialEq, Eq, Structural)]
pub struct BitSet(pub u64);

impl View for BitSet {
    type V = Set<int>;

    /// The squares that are members.
    open spec fn view(&self) -> Set<int> {
        Set::new(|i: int| bit(self.0, i))
    }
}

impl BitSet {
    /// The set is finite, with at most 64 members, all in `[0, 64)`.
    pub proof fn lemma_view(self)
        ensures
            self@.finite(),
            self@.len() == count_below(self.0, 64),
            self@.len() <= 64,
            forall|i: int| self@.contains(i) ==> 0 <= i < 64,
    {
        lemma_count_below(self.0, 64);
        assert(self@ =~= members_below(self.0, 64));
        lemma_count_bound(self.0, 64);
    }

    /// Two sets with the same members are the same word.
    pub proof fn lemma_same_members(self, other: BitSet)
        requires
            self@ == other@,
        ensures
            self == other,
    {
        let (a, b) = (self.0, other.0);
        let x = a ^ b;
        axiom_u64_trailing_zeros(x);
        if x != 0 {
            let t = vstd::std_specs::bits::u64_trailing_zeros(x) as u64;
            lemma_bit_xor(a, b, t);
            assert((x >> t) & 1u64 == 1u64);
            assert(bit(a, t as int) != bit(b, t as int));
            assert(self@.contains(t as int) == bit(self.0, t as int));
            assert(other@.contains(t as int) == bit(other.0, t as int));
            assert(false);
        }
        assert(a ^ b == 0 ==> a == b) by (bit_vector);
    }

    /// The set without members.
    pub fn empty() -> (r: BitSet)
        ensures
            r@ == Set::<int>::empty(),
    {
        let r = BitSet(0);
        proof {
            assert forall|i: int| !r@.contains(i) by {
                if 0 <= i < 64 {
                    lemma_bit_zero(i as u64);
                }
            }
            assert(r@ =~= Set::<int>::empty());
        }
        r
    }

    /// The set whose one member is `sq`.
    pub fn singleton(sq: u8) -> (r: BitSet)
        requires
            sq < 64,
        ensures
            r@ == set![sq as int],
    {
        let r = BitSet(1u64 << sq);
        proof {
            assert forall|i: int| r@.contains(i) == (i == sq) by {
                if 0 <= i < 64 {
                    lemma_bit_single(sq as u64, i as u64);
                }
            }
            assert(r@ =~= set![sq as int]);
        }
        r
    }

    /// The squares of file `f` (0 is the a-file), one on each rank.
    pub fn file(f: u8) -> (r: BitSet)
        requires
            f < 8,
        ensures
            r@ == Set::new(|i: int| 0 <= i < 64 && i % 8 == f),
    {
        let r = BitSet(0x0101_0101_0101_0101u64 << f);
        proof {
            assert forall|i: int| r@.contains(i) == (0 <= i < 64 && i % 8 == f) by {
                if 0 <= i < 64 {
                    lemma_bit_file(f as u64, i as u64);
                }
            }
            assert(r@ =~= Set::new(|i: int| 0 <= i < 64 && i % 8 == f));
        }
        r
    }

    /// Whether `sq` is a member.
    pub fn contains(&self, sq: u8) -> (r: bool)
        requires
            sq < 64,
        ensures
            r == self@.contains(sq as int),
    {
        (self.0 >> sq) & 1u64 == 1u64
    }

    /// Whether the set has no member.
    pub fn is_empty(&self) -> (r: bool)
        ensures
            r == (self@ == Set::<int>::empty()),
    {
        proof {
            axiom_u64_trailing_zeros(self.0);
            if self.0 == 0 {
                assert forall|i: int| !self@.contains(i) by {
                    if 0 <= i < 64 {
                        lemma_bit_zero(i as u64);
                    }
                }
                assert(self@ =~= Set::<int>::empty());
            } else {
                let t = vstd::std_specs::bits::u64_trailing_zeros(self.0);
                assert(self@.contains(t as int));
            }
        }
        self.0 == 0
    }

    /// The members of either set.
    pub fn union(&self, other: &BitSet) -> (r: BitSet)
        ensures
            r@ == self@.union(other@),
    {
        let r = BitSet(self.0 | other.0);
        proof {
            assert forall|i: int| r@.contains(i) == (self@.contains(i) || other@.contains(i)) by {
                if 0 <= i < 64 {
                    lemma_bit_or(self.0, other.0, i as u64);
                }
            }
            assert(r@ =~= self@.union(other@));
        }
        r
    }

    /// The members of both sets.
    pub fn intersection(&self, other: &BitSet) -> (r: BitSet)
        ensures
            r@ == self@.intersect(other@),
    {
        let r = BitSet(self.0 & other.0);
        proof {
            assert forall|i: int| r@.contains(i) == (self@.contains(i) && other@.contains(i)) by {
                if 0 <= i < 64 {
                    lemma_bit_and(self.0, other.0, i as u64);
                }
            }
            assert(r@ =~= self@.intersect(other@));
        }
        r
    }

    /// The members of exactly one of the two sets.
    pub fn symmetric_difference(&self, other: &BitSet) -> (r: BitSet)
        ensures
            r@ == self@.difference(other@).union(other@.difference(self@)),
    {
        let r = BitSet(self.0 ^ other.0);
        proof {
            assert forall|i: int| r@.contains(i) == (self@.contains(i) != other@.contains(i)) by {
                if 0 <= i < 64 {
                    lemma_bit_xor(self.0, other.0, i as u64);
                }
            }
            assert(r@ =~= self@.difference(other@).union(other@.difference(self@)));
        }
        r
    }

    /// The squares of the board that are not members.
    pub fn complement(&self) -> (r: BitSet)
        ensures
            r@ == Set::new(|i: int| 0 <= i < 64 && !self@.contains(i)),
    {
        let r = BitSet(!self.0);
        proof {
            assert forall|i: int| r@.contains(i) == (0 <= i < 64 && !self@.contains(i)) by {
                if 0 <= i < 64 {
                    lemma_bit_not(self.0, i as u64);
                }
            }
            assert(r@ =~= Set::new(|i: int| 0 <= i < 64 && !self@.contains(i)));
        }
        r
    }

    /// Every member moved up by `n` squares; members pushed past square 63
    /// are dropped.
    pub fn shift_left(&self, n: u8) -> (r: BitSet)
        requires
            1 <= n <= 63,
        ensures
            r@ == Set::new(|i: int| 0 <= i < 64 && self@.contains(i - n)),
    {
        let r = BitSet(self.0 << n);
        proof {
            assert forall|i: int| r@.contains(i) == (0 <= i < 64 && self@.contains(i - n)) by {
                if 0 <= i < 64 {
                    lemma_bit_shl(self.0, n as u64, i as u64);
                }
            }
            assert(r@ =~= Set::new(|i: int| 0 <= i < 64 && self@.contains(i - n)));
        }
        r
    }

    /// Every member moved down by `n` squares; members pushed below square 0
    /// are dropped.
    pub fn shift_right(&self, n: u8) -> (r: BitSet)
        requires
            1 <= n <= 63,
        ensures
            r@ == Set::new(|i: int| 0 <= i < 64 && self@.contains(i + n)),
    {
        let r = BitSet(self.0 >> n);
        proof {
            assert forall|i: int| r@.contains(i) == (0 <= i < 64 && self@.contains(i + n)) by {
                if 0 <= i < 64 {
                    lemma_bit_shr(self.0, n as u64, i as u64);
                }
            }
            assert(r@ =~= Set::new(|i: int| 0 <= i < 64 && self@.contains(i + n)));
        }
        r
    }

    /// The set with `sq` added.
    pub fn with(&self, sq: u8) -> (r: BitSet)
        requires
            sq < 64,
        ensures
            r@ == self@.insert(sq as int),
    {
        let one = BitSet::singleton(sq);
        let r = self.union(&one);
        proof {
            assert(r@ =~= self@.insert(sq as int));
        }
        r
    }

    /// The set with `sq` taken out.
    pub fn without(&self, sq: u8) -> (r: BitSet)
        requires
            sq < 64,
        ensures
            r@ == self@.remove(sq as int),
    {
        let one = BitSet::singleton(sq);
        let r = self.intersection(&one.complement());
        proof {
            assert(r@ =~= self@.remove(sq as int));
        }
        r
    }

    /// Takes the lowest member out of the set and returns it; `None`, with the
    /// set unchanged, when the set is empty.
    pub fn pop_lowest(&mut self) -> (r: Option<u8>)
        ensures
            match r {
                None => old(self)@ == Set::<int>::empty() && *final(self) == *old(self),
                Some(s) => s < 64 && old(self)@.contains(s as int) && (forall|j: int|
                    old(self)@.contains(j) ==> s <= j) && final(self)@ == old(self)@.remove(
                    s as int,
                ),
            },
    {
        if self.is_empty() {
            return None;
        }
        let w = self.0;
        let t = w.trailing_zeros();
        proof {
            axiom_u64_trailing_zeros(w);
            assert(t < 64) by {
                if t >= 64 {
                    assert(w == 0);
                    assert forall|i: int| !self@.contains(i) by {
                        if 0 <= i < 64 {
                            lemma_bit_zero(i as u64);
                        }
                    }
                    assert(self@ =~= Set::<int>::empty());
                }
            }
            assert(bit(w, t as int));
            assert forall|j: int| bit(w, j) implies t <= j by {
                if j < t {
                    assert((w >> (j as u64)) & 1u64 == 0u64);
                }
            }
        }
        let s = t as u8;
        let rest = self.without(s);
        *self = rest;
        Some(s)
    }

    /// The number of members.
    pub fn count(&self) -> (r: u32)
        ensures
            r == self@.len(),
            r <= 64,
    {
        let mut n: u32 = 0;
        let mut i: u8 = 0;
        while i < 64
            invariant
                i <= 64,
                n == count_below(self.0, i as int),
                n <= i,
            decreases 64 - i,
        {
            if self.contains(i) {
                n = n + 1;
            }
            i = i + 1;
        }
        proof {
            self.lemma_view();
        }
        n
    }

    /// The members, each once, in ascending order.
    pub fn squares(&self) -> (r: Vec<u8>)
        ensures
            r@.len() == self@.len(),
            forall|k: int| 0 <= k < r@.len() ==> self@.contains(#[trigger] r@[k] as int),
            forall|s: int| self@.contains(s) ==> exists|k: int| 0 <= k < r@.len() && r@[k] == s,
            forall|j: int, k: int| 0 <= j < k < r@.len() ==> r@[j] < r@[k],
    {
        let mut out: Vec<u8> = Vec::new();
        let mut rest = *self;
        proof {
            self.lemma_view();
        }
        loop
            invariant
                self@.finite(),
                rest@.finite(),
                rest@.subset_of(self@),
                out@.len() + rest@.len() == self@.len(),
                forall|k: int| 0 <= k < out@.len() ==> self@.contains(#[trigger] out@[k] as int),
                forall|k: int, s: int|
                    #![trigger out@[k], rest@.contains(s)]
                    0 <= k < out@.len() && rest@.contains(s) ==> out@[k] < s,
                forall|s: int|
                    self@.contains(s) && !rest@.contains(s) ==> exists|k: int|
                        0 <= k < out@.len() && out@[k] == s,
                forall|j: int, k: int| 0 <= j < k < out@.len() ==> out@[j] < out@[k],
            decreases rest@.len(),
        {
            let ghost before = rest;
            let ghost prev = out@;
            match rest.pop_lowest() {
                None => {
                    return out;
                },
                Some(s) => {
                    out.push(s);
                    proof {
                        rest.lemma_view();
                        assert forall|t: int|
                            self@.contains(t) && !rest@.contains(t) implies exists|k: int|
                            0 <= k < out@.len() && out@[k] == t by {
                            if t == s {
                                assert(out@[out@.len() - 1] == s);
                            } else {
                                assert(!before@.contains(t));
                                let k = choose|k: int| 0 <= k < prev.len() && prev[k] == t;
                                assert(out@[k] == t);
                            }
                        }
                    }
                },
            }
        }
    }
}

proof fn lemma_count_bound(w: u64, n: int)
    requires
        0 <= n,
    ensures
        0 <= count_below(w, n) <= n,
    decreases n,
{
    if n > 0 {
        lemma_count_bound(w, n - 1);
    }
}

} // verus!
