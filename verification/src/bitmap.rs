use vstd::prelude::*;
use vstd::std_specs::bits::{
    axiom_u64_trailing_ones, axiom_u64_trailing_zeros, u64_trailing_ones, u64_trailing_zeros,
};

verus! {

/// A set-bit index over a fixed range of positions.
///
/// `find_first_one` returns the lowest set position, or the width itself as
/// a "none" sentinel; `find_first_zero` is its dual. Position 0 is scanned
/// first, mirroring the "lower index wins" convention of the scheduler's
/// priority queues.
pub trait BitMap: Sized {
    /// Structural well-formedness of the index.
    spec fn inv(&self) -> bool;

    /// The number of positions the index covers.
    spec fn width(&self) -> int;

    /// Whether position `pos` is currently set.
    spec fn bit(&self, pos: int) -> bool;

    /// Sets position `pos`.
    fn set(&mut self, pos: usize)
        requires
            old(self).inv(),
            pos < old(self).width(),
        ensures
            final(self).inv(),
            final(self).width() == old(self).width(),
            forall|j: int|
                0 <= j < old(self).width() ==> final(self).bit(j) == (old(self).bit(j) || j
                    == pos),
    ;

    /// Reads position `pos`.
    fn get(&self, pos: usize) -> (r: bool)
        requires
            self.inv(),
            pos < self.width(),
        ensures
            r == self.bit(pos as int),
    ;

    /// Clears position `pos`.
    fn clear(&mut self, pos: usize)
        requires
            old(self).inv(),
            pos < old(self).width(),
        ensures
            final(self).inv(),
            final(self).width() == old(self).width(),
            forall|j: int|
                0 <= j < old(self).width() ==> final(self).bit(j) == (old(self).bit(j) && j
                    != pos),
    ;

    /// Returns the lowest set position, or the width when none is set.
    fn find_first_one(&self) -> (r: usize)
        requires
            self.inv(),
        ensures
            r <= self.width(),
            r < self.width() ==> self.bit(r as int) && forall|j: int|
                0 <= j < r ==> !self.bit(j),
            r == self.width() ==> forall|j: int| 0 <= j < self.width() ==> !self.bit(j),
    ;

    /// Returns the lowest clear position, or the width when every position
    /// is set.
    fn find_first_zero(&self) -> (r: usize)
        requires
            self.inv(),
        ensures
            r <= self.width(),
            r < self.width() ==> !self.bit(r as int) && forall|j: int|
                0 <= j < r ==> self.bit(j),
            r == self.width() ==> forall|j: int| 0 <= j < self.width() ==> self.bit(j),
    ;
}

/// A 64-position set-bit index held in a single machine word, scanned with
/// the hardware count-trailing-zeros primitive so lookups take constant
/// time.
#[derive(Clone, Copy, Debug)]
pub struct BitMap64 {
    data: u64,
}

impl BitMap64 {
    /// Creates an index with every position clear.
    pub fn new() -> (r: Self)
        ensures
            r.inv(),
            forall|j: int| 0 <= j < 64 ==> !r.bit(j),
    {
        proof {
            assert(forall|j: u64| j < 64 ==> (0u64 >> j) & 1u64 == 0u64) by (bit_vector);
        }
        BitMap64 { data: 0 }
    }

    /// True when no position is set.
    pub fn empty(&self) -> (r: bool)
        ensures
            r == forall|j: int| 0 <= j < 64 ==> !self.bit(j),
    {
        proof {
            axiom_u64_trailing_zeros(self.data);
            let d = self.data;
            assert(d == 0 ==> forall|j: u64| j < 64 ==> (d >> j) & 1u64 == 0u64)
                by (bit_vector);
            if d != 0 {
                // the lowest set bit witnesses that some position is set
                assert(self.bit(u64_trailing_zeros(d) as int));
            }
        }
        self.data == 0
    }
}

impl BitMap for BitMap64 {
    open spec fn inv(&self) -> bool {
        true
    }

    open spec fn width(&self) -> int {
        64
    }

    closed spec fn bit(&self, pos: int) -> bool {
        (self.data >> (pos as u64)) & 1u64 == 1u64
    }

    fn set(&mut self, pos: usize) {
        proof {
            let d = self.data;
            let p = pos as u64;
            assert(forall|j: u64|
                j < 64 && p < 64 ==> ((d | (1u64 << p)) >> j) & 1u64 == (if j == p {
                    1u64
                } else {
                    (d >> j) & 1u64
                })) by (bit_vector);
            assert(forall|j: u64| j < 64 ==> ((d >> j) & 1u64 == 1u64 || (d >> j) & 1u64 == 0u64))
                by (bit_vector);
        }
        self.data = self.data | (1u64 << (pos as u64));
    }

    fn get(&self, pos: usize) -> (r: bool) {
        (self.data >> (pos as u64)) & 1u64 == 1u64
    }

    fn clear(&mut self, pos: usize) {
        proof {
            let d = self.data;
            let p = pos as u64;
            assert(forall|j: u64|
                j < 64 && p < 64 ==> ((d & !(1u64 << p)) >> j) & 1u64 == (if j == p {
                    0u64
                } else {
                    (d >> j) & 1u64
                })) by (bit_vector);
            assert(forall|j: u64| j < 64 ==> ((d >> j) & 1u64 == 1u64 || (d >> j) & 1u64 == 0u64))
                by (bit_vector);
        }
        self.data = self.data & !(1u64 << (pos as u64));
    }

    fn find_first_one(&self) -> (r: usize) {
        proof {
            axiom_u64_trailing_zeros(self.data);
            let d = self.data;
            assert(d == 0 ==> forall|j: u64| j < 64 ==> (d >> j) & 1u64 == 0u64)
                by (bit_vector);
            assert(forall|j: u64| j < 64 ==> ((d >> j) & 1u64 == 1u64 || (d >> j) & 1u64 == 0u64))
                by (bit_vector);
        }
        self.data.trailing_zeros() as usize
    }

    fn find_first_zero(&self) -> (r: usize) {
        proof {
            axiom_u64_trailing_ones(self.data);
            let d = self.data;
            assert(d == 0xffff_ffff_ffff_ffffu64 ==> forall|j: u64|
                j < 64 ==> (d >> j) & 1u64 == 1u64) by (bit_vector);
            assert(forall|j: u64| j < 64 ==> ((d >> j) & 1u64 == 1u64 || (d >> j) & 1u64 == 0u64))
                by (bit_vector);
        }
        self.data.trailing_ones() as usize
    }
}

/// A two-level set-bit index over 4096 positions: a 64-wide group word
/// whose bit `i` records that group `i` holds at least one set position,
/// plus one 64-wide word per group. A lookup is two constant-time scans.
pub struct BitMap4096 {
    l1: BitMap64,
    l2: Vec<BitMap64>,
}

impl BitMap4096 {
    /// Creates an index with every position clear.
    pub fn new() -> (r: Self)
        ensures
            r.inv(),
            forall|p: int| 0 <= p < 4096 ==> !r.bit(p),
    {
        let l1 = BitMap64::new();
        let mut l2: Vec<BitMap64> = Vec::new();
        let mut i: usize = 0;
        while i < 64
            invariant
                i <= 64,
                l2@.len() == i,
                forall|k: int, j: int| 0 <= k < i && 0 <= j < 64 ==> !l2@[k].bit(j),
            decreases 64 - i,
        {
            l2.push(BitMap64::new());
            i = i + 1;
        }
        let r = BitMap4096 { l1, l2 };
        proof {
            assert forall|p: int| 0 <= p < 4096 implies !r.bit(p) by {
                vstd::arithmetic::div_mod::lemma_fundamental_div_mod(p, 64);
            }
        }
        r
    }

    /// True when no position is set.
    pub fn empty(&self) -> (r: bool)
        requires
            self.inv(),
        ensures
            r == forall|p: int| 0 <= p < 4096 ==> !self.bit(p),
    {
        let r = self.l1.empty();
        proof {
            if r {
                assert forall|p: int| 0 <= p < 4096 implies !self.bit(p) by {
                    vstd::arithmetic::div_mod::lemma_fundamental_div_mod(p, 64);
                    assert(!self.l1.bit(p / 64));
                }
            } else {
                let i = choose|i: int| 0 <= i < 64 && self.l1.bit(i);
                let j = choose|j: int| 0 <= j < 64 && self.l2@[i].bit(j);
                assert(self.bit(i * 64 + j)) by {
                    vstd::arithmetic::div_mod::lemma_fundamental_div_mod_converse(
                        i * 64 + j,
                        64,
                        i,
                        j,
                    );
                }
            }
        }
        r
    }

    /// Clears and returns the lowest set position, or `None` when the index
    /// is empty.
    pub fn fetch(&mut self) -> (r: Option<usize>)
        requires
            old(self).inv(),
        ensures
            final(self).inv(),
            match r {
                Some(p) => {
                    &&& p < 4096
                    &&& old(self).bit(p as int)
                    &&& forall|q: int| 0 <= q < p ==> !old(self).bit(q)
                    &&& forall|q: int|
                        0 <= q < 4096 ==> final(self).bit(q) == (old(self).bit(q) && q != p)
                },
                None => {
                    &&& forall|q: int| 0 <= q < 4096 ==> !old(self).bit(q)
                    &&& *final(self) == *old(self)
                },
            },
    {
        let pos = self.find_first_one();
        if pos >= 4096 {
            return None;
        }
        self.clear(pos);
        Some(pos)
    }
}

impl BitMap for BitMap4096 {
    closed spec fn inv(&self) -> bool {
        &&& self.l2@.len() == 64
        &&& forall|i: int|
            0 <= i < 64 ==> (self.l1.bit(i) <==> exists|j: int|
                0 <= j < 64 && self.l2@[i].bit(j))
    }

    open spec fn width(&self) -> int {
        4096
    }

    closed spec fn bit(&self, pos: int) -> bool {
        self.l2@[pos / 64].bit(pos % 64)
    }

    fn set(&mut self, pos: usize) {
        let l1_index = pos / 64;
        let l2_index = pos % 64;
        self.l1.set(l1_index);
        let mut word = self.l2[l1_index];
        word.set(l2_index);
        self.l2.set(l1_index, word);
        proof {
            vstd::arithmetic::div_mod::lemma_fundamental_div_mod(pos as int, 64);
            assert(self.l2@[l1_index as int].bit(l2_index as int));
            assert forall|k: int| 0 <= k < 4096 implies self.bit(k) == (old(self).bit(k) || k
                == pos) by {
                vstd::arithmetic::div_mod::lemma_fundamental_div_mod(k, 64);
                if k / 64 == l1_index && k % 64 == l2_index {
                    assert(k == pos);
                }
            }
            assert forall|i: int| 0 <= i < 64 implies (self.l1.bit(i) <==> exists|j: int|
                0 <= j < 64 && self.l2@[i].bit(j)) by {
                if i == l1_index {
                    assert(self.l2@[i].bit(l2_index as int));
                } else {
                    if self.l1.bit(i) {
                        let j = choose|j: int| 0 <= j < 64 && old(self).l2@[i].bit(j);
                        assert(self.l2@[i].bit(j));
                    }
                }
            }
        }
    }

    fn get(&self, pos: usize) -> (r: bool) {
        let l1_index = pos / 64;
        let l2_index = pos % 64;
        self.l1.get(l1_index) && self.l2[l1_index].get(l2_index)
    }

    fn clear(&mut self, pos: usize) {
        let l1_index = pos / 64;
        let l2_index = pos % 64;
        let mut word = self.l2[l1_index];
        word.clear(l2_index);
        self.l2.set(l1_index, word);
        let word_now_empty = word.empty();
        if word_now_empty {
            self.l1.clear(l1_index);
        }
        proof {
            vstd::arithmetic::div_mod::lemma_fundamental_div_mod(pos as int, 64);
            assert forall|k: int| 0 <= k < 4096 implies self.bit(k) == (old(self).bit(k) && k
                != pos) by {
                vstd::arithmetic::div_mod::lemma_fundamental_div_mod(k, 64);
                if k / 64 == l1_index && k % 64 == l2_index {
                    assert(k == pos);
                }
            }
            assert forall|i: int| 0 <= i < 64 implies (self.l1.bit(i) <==> exists|j: int|
                0 <= j < 64 && self.l2@[i].bit(j)) by {
                if i == l1_index {
                    if word_now_empty {
                        assert(!self.l1.bit(i));
                        assert(forall|j: int| 0 <= j < 64 ==> !self.l2@[i].bit(j));
                    } else {
                        let j = choose|j: int| 0 <= j < 64 && word.bit(j);
                        assert(old(self).l2@[i as int].bit(j));
                        assert(old(self).l1.bit(i));
                        assert(self.l1.bit(i));
                        assert(self.l2@[i].bit(j));
                    }
                } else {
                    if self.l1.bit(i) {
                        assert(old(self).l1.bit(i));
                        let j = choose|j: int| 0 <= j < 64 && old(self).l2@[i as int].bit(j);
                        assert(self.l2@[i].bit(j));
                    }
                    if exists|j: int| 0 <= j < 64 && self.l2@[i].bit(j) {
                        let j = choose|j: int| 0 <= j < 64 && self.l2@[i].bit(j);
                        assert(old(self).l2@[i as int].bit(j));
                        assert(old(self).l1.bit(i));
                        assert(self.l1.bit(i));
                    }
                }
            }
        }
    }

    fn find_first_one(&self) -> (r: usize) {
        let l1_index = self.l1.find_first_one();
        if l1_index == 64 {
            proof {
                assert forall|p: int| 0 <= p < 4096 implies !self.bit(p) by {
                    vstd::arithmetic::div_mod::lemma_fundamental_div_mod(p, 64);
                    assert(!self.l1.bit(p / 64));
                }
            }
            return 4096;
        }
        let l2_index = self.l2[l1_index].find_first_one();
        proof {
            assert(l2_index < 64) by {
                assert(exists|j: int| 0 <= j < 64 && self.l2@[l1_index as int].bit(j));
            }
        }
        let r = l1_index * 64 + l2_index;
        proof {
            vstd::arithmetic::div_mod::lemma_fundamental_div_mod_converse(
                r as int,
                64,
                l1_index as int,
                l2_index as int,
            );
            assert forall|q: int| 0 <= q < r implies !self.bit(q) by {
                vstd::arithmetic::div_mod::lemma_fundamental_div_mod(q, 64);
                if q / 64 < l1_index {
                    assert(!self.l1.bit(q / 64));
                }
            }
        }
        r
    }

    fn find_first_zero(&self) -> (r: usize) {
        let mut i: usize = 0;
        while i < 64
            invariant
                self.inv(),
                i <= 64,
                forall|p: int| 0 <= p < i * 64 ==> self.bit(p),
            decreases 64 - i,
        {
            let j = self.l2[i].find_first_zero();
            if j < 64 {
                let r = i * 64 + j;
                proof {
                    vstd::arithmetic::div_mod::lemma_fundamental_div_mod_converse(
                        r as int,
                        64,
                        i as int,
                        j as int,
                    );
                    assert forall|q: int| 0 <= q < r implies self.bit(q) by {
                        vstd::arithmetic::div_mod::lemma_fundamental_div_mod(q, 64);
                        if q >= i * 64 {
                            assert(q / 64 == i) by {
                                vstd::arithmetic::div_mod::lemma_fundamental_div_mod_converse(
                                    q,
                                    64,
                                    i as int,
                                    q - i * 64,
                                );
                            }
                        }
                    }
                }
                return r;
            }
            proof {
                assert forall|p: int| 0 <= p < (i + 1) * 64 implies self.bit(p) by {
                    vstd::arithmetic::div_mod::lemma_fundamental_div_mod(p, 64);
                    if p >= i * 64 {
                        assert(p / 64 == i) by {
                            vstd::arithmetic::div_mod::lemma_fundamental_div_mod_converse(
                                p,
                                64,
                                i as int,
                                p - i * 64,
                            );
                        }
                    }
                }
            }
            i = i + 1;
        }
        4096
    }
}

} // verus!
