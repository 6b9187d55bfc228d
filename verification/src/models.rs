//! The named-facet vector entity and its schema-compatibility checks.
//!
//! A facet weight is carried as the 32-bit encoding of the IEEE-754
//! single-precision number the embedding program computed for it; the core
//! never interprets it numerically. Two entities may be compared only when
//! their facet key sets are identical; everything here that speaks of keys
//! speaks of that rule.

use crate::errors::ClassifierError;
use vstd::prelude::*;

verus! {

/// The reserved record field naming an entity.
pub const NAME_KEY: &'static str = "name";

/// One named trait dimension of an entity.
pub struct Facet {
    /// The facet's name, shared across all entities in a comparison set.
    pub key: String,
    /// The facet's weight, as the 32-bit encoding of a single-precision
    /// number. The numeric interpretation lives with the embedding program.
    pub weight_bits: u32,
}

/// An entity in the trait space: a name and its facet vector.
pub struct DeepRole {
    /// The entity's identifier. Uniqueness within a collection is a
    /// convention, not enforced here.
    pub name: String,
    /// The facet vector, in the order the loader produced it.
    pub facets: Vec<Facet>,
}

impl DeepRole {
    /// The facet keys, in facet order.
    pub open spec fn spec_keys(self) -> Seq<Seq<char>> {
        self.facets@.map_values(|f: Facet| f.key@)
    }

    /// The facet keys as a set: the entity's schema.
    pub open spec fn key_set(self) -> Set<Seq<char>> {
        self.spec_keys().to_set()
    }

    /// Whether `key` names a facet of this entity.
    pub open spec fn spec_has_key(self, key: Seq<char>) -> bool {
        self.key_set().contains(key)
    }

    /// Look for a facet named `key`.
    pub fn has_key(&self, key: &String) -> (r: bool)
        ensures
            r == self.spec_has_key(key@),
    {
        let n = self.facets.len();
        let mut i: usize = 0;
        while i < n
            invariant
                n == self.facets@.len(),
                0 <= i <= n,
                forall|j: int| 0 <= j < i ==> self.facets@[j].key@ != key@,
            decreases n - i,
        {
            if self.facets[i].key == *key {
                proof {
                    assert(self.spec_keys()[i as int] == key@);
                    assert(self.spec_keys().contains(key@));
                }
                return true;
            }
            i += 1;
        }
        proof {
            assert forall|k: Seq<char>| self.spec_keys().contains(k) implies k != key@ by {
                let w = choose|w: int| 0 <= w < self.spec_keys().len() && self.spec_keys()[w] == k;
                assert(self.facets@[w].key@ == k);
            }
            assert(!self.key_set().contains(key@));
        }
        false
    }

    /// Whether every facet key of this entity also names a facet of `other`.
    pub fn keys_subset_of(&self, other: &DeepRole) -> (r: bool)
        ensures
            r == self.key_set().subset_of(other.key_set()),
    {
        let n = self.facets.len();
        let mut i: usize = 0;
        while i < n
            invariant
                n == self.facets@.len(),
                0 <= i <= n,
                forall|j: int| 0 <= j < i ==> other.key_set().contains(self.facets@[j].key@),
            decreases n - i,
        {
            if !other.has_key(&self.facets[i].key) {
                proof {
                    assert(self.spec_keys()[i as int] == self.facets@[i as int].key@);
                    assert(self.key_set().contains(self.facets@[i as int].key@));
                }
                return false;
            }
            i += 1;
        }
        proof {
            assert forall|k: Seq<char>| self.key_set().contains(k) implies
                other.key_set().contains(k) by {
                let w = choose|w: int| 0 <= w < self.spec_keys().len() && self.spec_keys()[w] == k;
                assert(self.facets@[w].key@ == k);
            }
        }
        true
    }

    /// Whether this entity and `other` have identical facet schemas.
    pub fn same_facet_schema(&self, other: &DeepRole) -> (r: bool)
        ensures
            r == (self.key_set() == other.key_set()),
    {
        let fwd = self.keys_subset_of(other);
        let bwd = other.keys_subset_of(self);
        proof {
            if fwd && bwd {
                assert(self.key_set() =~= other.key_set());
            }
            if self.key_set() == other.key_set() {
                assert(self.key_set().subset_of(other.key_set()));
                assert(other.key_set().subset_of(self.key_set()));
            }
        }
        fwd && bwd
    }

    /// Check that this entity and `other` may be compared: their facet
    /// schemas must be identical. A mismatch is the fatal
    /// [`ClassifierError::FacetKeyMismatch`] of a comparison, never a value.
    pub fn ensure_comparable(&self, other: &DeepRole) -> (r: Result<(), ClassifierError>)
        ensures
            r is Ok <==> self.key_set() == other.key_set(),
            r is Err ==> r == Err::<(), ClassifierError>(ClassifierError::FacetKeyMismatch),
    {
        if self.same_facet_schema(other) {
            Ok(())
        } else {
            Err(ClassifierError::FacetKeyMismatch)
        }
    }
}

} // verus!
