//! The ranking structure: a priority collection of scored archetype names
//! that yields its entries from highest rank key to lowest.
//!
//! A score is carried as a 32-bit order key. For scores that are IEEE-754
//! single-precision values, the embedding program derives the key from the
//! score's bit pattern with [`rank_key_of_bits`], whose unsigned order agrees
//! with the numeric order of the scores it encodes (see the lemmas below).

use vstd::prelude::*;
use vstd::seq_lib::group_to_multiset_ensures;

verus! {

/// One scored entry: an archetype name together with its rank key.
/// Two entries are equal exactly when both fields are equal.
pub struct Rank {
    /// The archetype's name.
    pub name: String,
    /// The score's order key: higher means more similar.
    pub rank_key: u32,
}

impl PartialEq for Rank {
    fn eq(&self, other: &Rank) -> (r: bool) {
        self.rank_key == other.rank_key && self.name == other.name
    }
}

impl vstd::std_specs::cmp::PartialEqSpecImpl for Rank {
    open spec fn obeys_eq_spec() -> bool {
        true
    }

    open spec fn eq_spec(&self, other: &Rank) -> bool {
        self.rank_key == other.rank_key && self.name@ == other.name@
    }
}

/// Entries ordered from highest rank key to lowest.
pub open spec fn sorted_desc(s: Seq<Rank>) -> bool {
    forall|i: int, j: int| 0 <= i <= j < s.len() ==> s[i].rank_key >= s[j].rank_key
}

/// The totally ordered set of scored entries for one classification call.
/// Entries come out of [`Ranking::pop`] from best to worst.
pub struct Ranking {
    entries: Vec<Rank>,
}

impl View for Ranking {
    type V = Seq<Rank>;

    closed spec fn view(&self) -> Seq<Rank> {
        self.entries@
    }
}

impl Ranking {
    /// The entries are held from highest rank key to lowest.
    pub open spec fn wf(self) -> bool {
        sorted_desc(self@)
    }

    /// An empty ranking.
    pub fn new() -> (r: Ranking)
        ensures
            r.wf(),
            r@ == Seq::<Rank>::empty(),
    {
        Ranking { entries: Vec::new() }
    }

    /// How many entries remain.
    pub fn len(&self) -> (n: usize)
        ensures
            n == self@.len(),
    {
        self.entries.len()
    }

    /// Whether any entry remains.
    pub fn is_empty(&self) -> (r: bool)
        ensures
            r == (self@.len() == 0),
    {
        self.entries.len() == 0
    }

    /// Insert one scored entry, keeping the order. Among entries with equal
    /// rank keys the relative order is unspecified to callers: ties carry no
    /// ordering promise.
    pub fn push(&mut self, rank: Rank)
        requires
            old(self).wf(),
        ensures
            final(self).wf(),
            final(self)@.len() == old(self)@.len() + 1,
            final(self)@.to_multiset() == old(self)@.to_multiset().insert(rank),
    {
        broadcast use group_to_multiset_ensures;

        let ghost r = rank;
        let mut i: usize = 0;
        while i < self.entries.len() && self.entries[i].rank_key >= rank.rank_key
            invariant
                0 <= i <= self.entries@.len(),
                forall|j: int| 0 <= j < i ==> self.entries@[j].rank_key >= rank.rank_key,
            decreases self.entries@.len() - i,
        {
            i += 1;
        }
        let ghost before = self.entries@;
        let ghost at = i as int;
        self.entries.insert(i, rank);
        proof {
            assert(self.entries@ == before.insert(at, r));
            assert forall|p: int, q: int| 0 <= p <= q < self.entries@.len() implies
                self.entries@[p].rank_key >= self.entries@[q].rank_key by {
                if p < at && q > at {
                    assert(self.entries@[p] == before[p]);
                    assert(self.entries@[q] == before[q - 1]);
                } else if p == at && q > at {
                    assert(before[at].rank_key < r.rank_key);
                    assert(self.entries@[q] == before[q - 1]);
                } else if p < at && q == at {
                    assert(self.entries@[p] == before[p]);
                }
            }
            assert(self.entries@.remove(at) =~= before);
            assert(self.entries@.remove(at).to_multiset() == self.entries@.to_multiset().remove(r));
            assert(self.entries@.contains(r)) by {
                assert(self.entries@[at] == r);
            }
            assert(self.entries@.to_multiset().count(r) > 0);
            assert(self.entries@.to_multiset() =~= before.to_multiset().insert(r));
        }
    }

    /// Remove and return the best remaining entry: its rank key is at least
    /// the rank key of every entry left behind. Returns `None` exactly when
    /// the ranking is exhausted.
    pub fn pop(&mut self) -> (r: Option<Rank>)
        requires
            old(self).wf(),
        ensures
            final(self).wf(),
            match r {
                None => old(self)@.len() == 0 && final(self)@ == old(self)@,
                Some(best) => {
                    &&& old(self)@.len() > 0
                    &&& best == old(self)@[0]
                    &&& final(self)@ == old(self)@.drop_first()
                    &&& forall|j: int|
                        0 <= j < final(self)@.len() ==> final(self)@[j].rank_key <= best.rank_key
                },
            },
    {
        if self.entries.len() == 0 {
            None
        } else {
            let best = self.entries.remove(0);
            proof {
                assert(self.entries@ =~= old(self)@.drop_first());
            }
            Some(best)
        }
    }
}

/// Law: extraction order is non-increasing in rank key. The sequence still
/// held by a well-formed ranking — which is exactly the sequence that
/// repeated [`Ranking::pop`] calls will yield — never rises.
pub proof fn lemma_extraction_order_non_increasing(r: Ranking, i: int, j: int)
    requires
        r.wf(),
        0 <= i <= j < r@.len(),
    ensures
        r@[i].rank_key >= r@[j].rank_key,
{
}

/// The order key of a 32-bit word read as a sign-magnitude encoding: words
/// with the top bit clear keep their order above all words with the top bit
/// set, and order among the latter is reversed. Applied to the bit pattern
/// of a finite IEEE-754 single-precision number, the key's unsigned order is
/// the numeric order of the encoded numbers.
pub open spec fn spec_rank_key_of_bits(bits: u32) -> u32 {
    if bits & 0x8000_0000u32 != 0 {
        !bits
    } else {
        bits | 0x8000_0000u32
    }
}

/// Compute [`spec_rank_key_of_bits`].
pub fn rank_key_of_bits(bits: u32) -> (r: u32)
    ensures
        r == spec_rank_key_of_bits(bits),
{
    if bits & 0x8000_0000u32 != 0 {
        !bits
    } else {
        bits | 0x8000_0000u32
    }
}

/// The key encoding loses nothing: distinct words get distinct keys.
pub proof fn lemma_rank_key_injective(a: u32, b: u32)
    requires
        spec_rank_key_of_bits(a) == spec_rank_key_of_bits(b),
    ensures
        a == b,
{
    assert(spec_rank_key_of_bits(a) == spec_rank_key_of_bits(b) ==> a == b) by (bit_vector);
}

/// On words with the top bit clear (non-negative numbers), key order is
/// word order; on words with the top bit set (negative numbers), key order
/// is reversed word order; and every key of the former kind exceeds every
/// key of the latter.
pub proof fn lemma_rank_key_order(a: u32, b: u32)
    ensures
        a & 0x8000_0000u32 == 0 && b & 0x8000_0000u32 == 0 ==> (spec_rank_key_of_bits(a)
            <= spec_rank_key_of_bits(b) <==> a <= b),
        a & 0x8000_0000u32 != 0 && b & 0x8000_0000u32 != 0 ==> (spec_rank_key_of_bits(a)
            <= spec_rank_key_of_bits(b) <==> a >= b),
        a & 0x8000_0000u32 != 0 && b & 0x8000_0000u32 == 0 ==> spec_rank_key_of_bits(a)
            < spec_rank_key_of_bits(b),
{
    assert(a & 0x8000_0000u32 == 0 && b & 0x8000_0000u32 == 0 ==> ((if a & 0x8000_0000u32 != 0 {
        !a
    } else {
        a | 0x8000_0000u32
    }) <= (if b & 0x8000_0000u32 != 0 {
        !b
    } else {
        b | 0x8000_0000u32
    }) <==> a <= b)) by (bit_vector);
    assert(a & 0x8000_0000u32 != 0 && b & 0x8000_0000u32 != 0 ==> ((if a & 0x8000_0000u32 != 0 {
        !a
    } else {
        a | 0x8000_0000u32
    }) <= (if b & 0x8000_0000u32 != 0 {
        !b
    } else {
        b | 0x8000_0000u32
    }) <==> a >= b)) by (bit_vector);
    assert(a & 0x8000_0000u32 != 0 && b & 0x8000_0000u32 == 0 ==> ((if a & 0x8000_0000u32 != 0 {
        !a
    } else {
        a | 0x8000_0000u32
    }) < (if b & 0x8000_0000u32 != 0 {
        !b
    } else {
        b | 0x8000_0000u32
    }))) by (bit_vector);
}

} // verus!
