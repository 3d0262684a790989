//! The variant resolver: finds the recipe of a family whose fingerprint is
//! exactly the requested one.

use vstd::prelude::*;
use crate::idset::same_members;
use crate::model::ServiceError;
use crate::recipe::name_set;
use crate::store::Store;

verus! {

/// The least id among those of `candidates` whose fingerprint has exactly
/// the members of `wanted`; `None` where no candidate has such a fingerprint.
pub fn first_match(store: &Store, candidates: &Vec<i32>, wanted: &Vec<i32>) -> (r: Option<i32>)
    ensures
        match r {
            Some(id) => {
                &&& candidates@.contains(id)
                &&& store@.fingerprint(id) =~= wanted@.to_set()
                &&& forall|j: int|
                    0 <= j < candidates.len() && store@.fingerprint(#[trigger] candidates[j])
                        =~= wanted@.to_set() ==> id <= candidates[j]
            },
            None => forall|j: int|
                0 <= j < candidates.len() ==> !(store@.fingerprint(#[trigger] candidates[j])
                    =~= wanted@.to_set()),
        },
{
    let mut best: Option<i32> = None;
    let mut i: usize = 0;
    while i < candidates.len()
        invariant
            i <= candidates.len(),
            match best {
                Some(id) => {
                    &&& candidates@.contains(id)
                    &&& store@.fingerprint(id) =~= wanted@.to_set()
                    &&& forall|j: int|
                        0 <= j < i && store@.fingerprint(#[trigger] candidates[j])
                            =~= wanted@.to_set() ==> id <= candidates[j]
                },
                None => forall|j: int|
                    0 <= j < i ==> !(store@.fingerprint(#[trigger] candidates[j])
                        =~= wanted@.to_set()),
            },
        decreases candidates.len() - i,
    {
        let candidate = candidates[i];
        let fingerprint = store.fingerprint(candidate);
        if same_members(&fingerprint, wanted) {
            assert(candidates@.contains(candidates[i as int]));
            let better = match best {
                Some(id) => candidate < id,
                None => true,
            };
            if better {
                best = Some(candidate);
            }
        }
        i += 1;
    }
    best
}

/// Resolves a recipe against the requested preferences.
///
/// Fails with `NotFound` where the store has no recipe `recipe_id`. Else
/// the candidates are the canonical original of `recipe_id` and the
/// variations of that original, and the answer is the candidate with the
/// least id whose fingerprint is exactly the set of ids that the names
/// resolve to, or `None` where no candidate has that fingerprint.
pub fn resolve(store: &Store, recipe_id: i32, preferences: &Vec<String>) -> (r: Result<
    Option<i32>,
    ServiceError,
>)
    requires
        store.wf(),
    ensures
        r == store@.resolution(recipe_id, name_set(preferences@)),
{
    let original = match store.original_of(recipe_id) {
        Some(original) => original,
        None => {
            return Err(ServiceError::NotFound);
        },
    };
    let wanted = store.preference_ids(preferences);
    let mut candidates = store.variations_of(original);
    let ghost variations = candidates@;
    candidates.push(original);
    let found = first_match(store, &candidates, &wanted);
    proof {
        let goal = store@.preference_ids(name_set(preferences@));
        assert(goal =~= wanted@.to_set());
        assert forall|id: i32| candidates@.contains(id) <==> store@.is_candidate(
            original,
            id,
        ) by {
            if candidates@.contains(id) {
                let j = choose|j: int| 0 <= j < candidates@.len() && candidates@[j] == id;
                if j < variations.len() {
                    assert(variations[j] == id);
                    assert(variations.contains(id));
                }
            }
            if store@.is_candidate(original, id) {
                if id == original {
                    assert(candidates@[candidates@.len() - 1] == id);
                } else {
                    assert(variations.contains(id));
                    let j = choose|j: int| 0 <= j < variations.len() && variations[j] == id;
                    assert(candidates@[j] == id);
                }
            }
        }
        match found {
            Some(id) => {
                assert forall|other: i32| #[trigger]
                    store@.is_hit(original, goal, other) implies id <= other by {
                    assert(candidates@.contains(other));
                    let j = choose|j: int| 0 <= j < candidates@.len() && candidates@[j] == other;
                    assert(store@.fingerprint(candidates[j]) =~= wanted@.to_set());
                }
                assert(store@.is_first_hit(original, goal, id));
                store@.lemma_first_hit_is(original, goal, id);
            },
            None => {
                assert forall|id: i32| !store@.is_hit(original, goal, id) by {
                    if store@.is_hit(original, goal, id) {
                        assert(candidates@.contains(id));
                        let j = choose|j: int| 0 <= j < candidates@.len() && candidates@[j] == id;
                        assert(store@.fingerprint(candidates[j]) =~= wanted@.to_set());
                    }
                }
                store@.lemma_no_hit(original, goal);
            },
        }
    }
    Ok(found)
}

} // verus!
