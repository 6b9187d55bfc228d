//! The classifier: an immutable archetype collection, the schema check a
//! classification must pass, and the construction of the ordered ranking
//! from the per-archetype rank keys.

use crate::errors::ClassifierError;
use crate::models::DeepRole;
use crate::ranking::{Rank, Ranking};
use vstd::prelude::*;

verus! {

/// The scoring method of one classification request.
#[derive(Clone, Copy, PartialEq, Eq, Structural, Debug)]
pub enum ClassificationMethod {
    /// Rank by the reciprocal of the angle between profile and archetype.
    AngularDistance,
    /// Rank by the dot product of profile and archetype.
    VectorProjection,
}

/// Which on-disk shape a model file has. The core never reads files; the
/// embedding program picks the loader by this tag.
pub enum ModelFormat<'a> {
    /// A comma-separated tabular file at the given path.
    Csv(&'a str),
    /// A structured-text file at the given path.
    Json(&'a str),
}

/// The orchestrator: owns the fixed, already-normalized archetype
/// collection for its whole lifetime.
pub struct Classifier {
    /// The reference entities profiles are ranked against.
    pub archetypes: Vec<DeepRole>,
}

/// The scored entry that archetype `i` contributes to a ranking, given its
/// rank key.
pub open spec fn spec_scored_entries(archetypes: Seq<DeepRole>, rank_keys: Seq<u32>) -> Seq<Rank> {
    Seq::new(archetypes.len(), |i: int| (Rank { name: archetypes[i].name, rank_key: rank_keys[i] }))
}

impl Classifier {
    /// Build a classifier over a fully loaded, normalized archetype
    /// collection.
    pub fn new(archetypes: Vec<DeepRole>) -> (r: Classifier)
        ensures
            r.archetypes == archetypes,
    {
        Classifier { archetypes }
    }

    /// Check that `profile` shares its facet schema with every archetype,
    /// as a classification requires. A mismatch anywhere is the fatal
    /// [`ClassifierError::FacetKeyMismatch`].
    pub fn check_profile_schema(&self, profile: &DeepRole) -> (r: Result<(), ClassifierError>)
        ensures
            r is Ok <==> (forall|i: int|
                0 <= i < self.archetypes@.len() ==> profile.key_set()
                    == (#[trigger] self.archetypes@[i]).key_set()),
            r is Err ==> r == Err::<(), ClassifierError>(ClassifierError::FacetKeyMismatch),
    {
        let n = self.archetypes.len();
        let mut i: usize = 0;
        while i < n
            invariant
                n == self.archetypes@.len(),
                0 <= i <= n,
                forall|j: int|
                    0 <= j < i ==> profile.key_set() == (#[trigger] self.archetypes@[j]).key_set(),
            decreases n - i,
        {
            if !profile.same_facet_schema(&self.archetypes[i]) {
                return Err(ClassifierError::FacetKeyMismatch);
            }
            i += 1;
        }
        Ok(())
    }

    /// Build the ordered ranking of the archetypes from the rank key each
    /// one scored: entry `i` pairs the name of archetype `i` with
    /// `rank_keys[i]`. The result holds exactly those entries, from highest
    /// rank key to lowest.
    pub fn ranking_from_scores(&self, rank_keys: &Vec<u32>) -> (r: Ranking)
        requires
            rank_keys@.len() == self.archetypes@.len(),
        ensures
            r.wf(),
            r@.len() == self.archetypes@.len(),
            r@.to_multiset() == spec_scored_entries(self.archetypes@, rank_keys@).to_multiset(),
    {
        broadcast use vstd::seq_lib::group_to_multiset_ensures;

        let ghost target = spec_scored_entries(self.archetypes@, rank_keys@);
        let n = self.archetypes.len();
        let mut ranking = Ranking::new();
        let mut i: usize = 0;
        proof {
            assert(target.take(0) =~= Seq::<Rank>::empty());
            assert(ranking@.to_multiset() =~= target.take(0).to_multiset());
        }
        while i < n
            invariant
                n == self.archetypes@.len(),
                rank_keys@.len() == n,
                0 <= i <= n,
                ranking.wf(),
                ranking@.len() == i,
                target == spec_scored_entries(self.archetypes@, rank_keys@),
                ranking@.to_multiset() == target.take(i as int).to_multiset(),
            decreases n - i,
        {
            let entry = Rank {
                name: self.archetypes[i].name.clone(),
                rank_key: rank_keys[i],
            };
            proof {
                assert(entry == target[i as int]);
                assert(target.take(i + 1) =~= target.take(i as int).push(target[i as int]));
            }
            ranking.push(entry);
            proof {
                vstd::seq_lib::to_multiset_build(target.take(i as int), target[i as int]);
                assert(ranking@.to_multiset() =~= target.take(i as int + 1).to_multiset());
            }
            i += 1;
        }
        proof {
            assert(target.take(n as int) =~= target);
        }
        ranking
    }
}

} // verus!
