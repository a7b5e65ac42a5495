//! A small set of keys held as one 64-bit mask, one bit per key, the way
//! per-frame key membership is stored. Its mathematical view is a
//! `Set<Key>`.

use vstd::prelude::*;

use crate::keyboard::Key;
use crate::keyboard::key_index;
use crate::keyboard::lemma_key_index_bound;
use crate::keyboard::lemma_key_index_injective;

verus! {

/// Whether bit `i` of `bits` is set.
pub open spec fn nth_bit(bits: u64, i: u64) -> bool {
    (bits >> i) & 1 == 1
}

/// The set of keys whose bit is set in the mask.
#[derive(Clone, Copy)]
pub struct KeySet {
    bits: u64,
}

impl View for KeySet {
    type V = Set<Key>;

    closed spec fn view(&self) -> Set<Key> {
        Set::new(|k: Key| nth_bit(self.bits, key_index(k)))
    }
}

impl KeySet {
    /// Every set bit stands for some key, so a bit pattern never claims
    /// members no key can name.
    pub closed spec fn wf(self) -> bool {
        forall|j: u64|
            j < 64 && #[trigger] nth_bit(self.bits, j) ==> exists|k: Key| key_index(k) == j
    }

    /// The set with no keys in it.
    pub fn empty() -> (s: KeySet)
        ensures
            s.wf(),
            s@ == Set::<Key>::empty(),
    {
        let s = KeySet { bits: 0 };
        proof {
            assert(forall|j: u64| (0u64 >> j) & 1 == 0) by (bit_vector);
            assert(s@ =~= Set::<Key>::empty());
        }
        s
    }

    /// Whether `k` is in the set.
    pub fn contains(&self, k: Key) -> (r: bool)
        ensures
            r == self@.contains(k),
    {
        (self.bits >> k.index()) & 1 == 1
    }

    /// Adds `k` to the set.
    pub fn insert(&mut self, k: Key)
        requires
            old(self).wf(),
        ensures
            final(self).wf(),
            final(self)@ == old(self)@.insert(k),
    {
        let i = k.index();
        proof {
            lemma_key_index_bound(k);
        }
        self.bits = self.bits | (1u64 << i);
        proof {
            let old_bits = old(self).bits;
            let new_bits = self.bits;
            assert forall|j: u64| j < 64 implies #[trigger] nth_bit(new_bits, j) == (nth_bit(
                old_bits,
                j,
            ) || j == key_index(k)) by {
                lemma_bit_or(old_bits, key_index(k), j);
            }
            assert forall|k2: Key| self@.contains(k2) == old(self)@.insert(k).contains(k2) by {
                lemma_key_index_bound(k2);
                if key_index(k2) == key_index(k) {
                    lemma_key_index_injective(k2, k);
                }
            }
            assert(self@ =~= old(self)@.insert(k));
        }
    }

    /// Removes `k` from the set.
    pub fn remove(&mut self, k: Key)
        requires
            old(self).wf(),
        ensures
            final(self).wf(),
            final(self)@ == old(self)@.remove(k),
    {
        let i = k.index();
        proof {
            lemma_key_index_bound(k);
        }
        self.bits = self.bits & !(1u64 << i);
        proof {
            let old_bits = old(self).bits;
            let new_bits = self.bits;
            assert forall|j: u64| j < 64 implies #[trigger] nth_bit(new_bits, j) == (nth_bit(
                old_bits,
                j,
            ) && j != key_index(k)) by {
                lemma_bit_andnot(old_bits, key_index(k), j);
            }
            assert forall|k2: Key| self@.contains(k2) == old(self)@.remove(k).contains(k2) by {
                lemma_key_index_bound(k2);
                if key_index(k2) == key_index(k) {
                    lemma_key_index_injective(k2, k);
                }
            }
            assert(self@ =~= old(self)@.remove(k));
        }
    }

    /// Whether every key of `other` is also in `self`; the mask form of
    /// the exit-combo test "keys-down intersected with the combo equals
    /// the combo".
    pub fn contains_all(&self, other: &KeySet) -> (r: bool)
        requires
            self.wf(),
            other.wf(),
        ensures
            r == other@.subset_of(self@),
    {
        let a = other.bits;
        let b = self.bits;
        let mut ok = true;
        let mut j: u64 = 0;
        while j < 64
            invariant
                j <= 64,
                a == other.bits,
                b == self.bits,
                ok ==> forall|j2: u64|
                    j2 < j ==> (#[trigger] nth_bit(a, j2) ==> nth_bit(b, j2)),
                !ok ==> exists|j2: u64| j2 < 64 && #[trigger] nth_bit(a, j2) && !nth_bit(b, j2),
            decreases 64u64 - j,
        {
            if (a >> j) & 1 == 1 && (b >> j) & 1 != 1 {
                proof {
                    assert(nth_bit(a, j) && !nth_bit(b, j));
                }
                ok = false;
            }
            j = j + 1;
        }
        proof {
            if ok {
                assert forall|k: Key| other@.contains(k) implies self@.contains(k) by {
                    lemma_key_index_bound(k);
                }
            } else {
                let j2 = choose|j2: u64| j2 < 64 && #[trigger] nth_bit(a, j2) && !nth_bit(b, j2);
                let k = choose|k: Key| key_index(k) == j2;
                assert(other@.contains(k) && !self@.contains(k));
            }
        }
        ok
    }

    /// The set holding exactly the keys listed in `keys`.
    pub fn from_keys(keys: &Vec<Key>) -> (s: KeySet)
        ensures
            s.wf(),
            s@ == Set::new(|k: Key| keys@.contains(k)),
    {
        let mut s = KeySet::empty();
        let mut i: usize = 0;
        while i < keys.len()
            invariant
                i <= keys@.len(),
                s.wf(),
                s@ == Set::new(|k: Key| keys@.take(i as int).contains(k)),
            decreases keys@.len() - i,
        {
            let ghost prev = s@;
            s.insert(keys[i]);
            proof {
                assert(keys@.take(i + 1)[i as int] == keys@[i as int]);
                assert forall|k: Key| s@.contains(k) == keys@.take(i + 1).contains(k) by {
                    if keys@.take(i + 1).contains(k) {
                        let wi = choose|wi: int|
                            0 <= wi < i + 1 && #[trigger] keys@.take(i + 1)[wi] == k;
                        if wi < i {
                            assert(keys@.take(i as int)[wi] == k);
                            assert(prev.contains(k));
                        } else {
                            assert(k == keys@[i as int]);
                        }
                    }
                    if prev.contains(k) {
                        let wi = choose|wi: int|
                            0 <= wi < i && #[trigger] keys@.take(i as int)[wi] == k;
                        assert(keys@.take(i + 1)[wi] == k);
                        assert(keys@.take(i + 1).contains(k));
                    }
                }
                assert(s@ =~= Set::new(|k: Key| keys@.take(i + 1).contains(k)));
            }
            i = i + 1;
        }
        proof {
            assert(keys@.take(keys@.len() as int) =~= keys@);
            assert(s@ =~= Set::new(|k: Key| keys@.contains(k)));
        }
        s
    }
}

/// Setting bit `i` leaves every other bit alone and turns bit `i` on.
pub(crate) proof fn lemma_bit_or(b: u64, i: u64, j: u64)
    by (bit_vector)
    requires
        i < 64,
        j < 64,
    ensures
        ((b | (1u64 << i)) >> j) & 1 == (if i == j {
            1u64
        } else {
            (b >> j) & 1
        }),
{
}

/// Clearing bit `i` leaves every other bit alone and turns bit `i` off.
pub(crate) proof fn lemma_bit_andnot(b: u64, i: u64, j: u64)
    by (bit_vector)
    requires
        i < 64,
        j < 64,
    ensures
        ((b & !(1u64 << i)) >> j) & 1 == (if i == j {
            0u64
        } else {
            (b >> j) & 1
        }),
{
}



} // verus!
