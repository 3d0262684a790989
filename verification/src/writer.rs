//! The variant writer: records a generated recipe as a variation of the
//! canonical original of the recipe it was made from.

use vstd::prelude::*;
use crate::model::ServiceError;
use crate::recipe::{Recipe, name_set};
use crate::store::Store;

verus! {

/// Records `candidate` under the id `new_id` as a variation of the canonical
/// original of `base_id`, with the requested preferences as its fingerprint.
///
/// The edge of the new recipe points at the canonical original of `base_id`,
/// also where `base_id` is itself a variation. The fingerprint is the set of
/// the ids that the names resolve to: a name that occurs twice gives one
/// association, an unknown name none.
///
/// Succeeds where the store has the recipe `base_id` and `new_id` is not in
/// use, and returns the new row. Else it fails with `PersistenceFailed` and
/// the store is as it was.
pub fn create_variant(
    store: &mut Store,
    new_id: i32,
    base_id: i32,
    candidate: &Recipe,
    preferences: &Vec<String>,
) -> (r: Result<Recipe, ServiceError>)
    requires
        old(store).wf(),
    ensures
        final(store).wf(),
        r is Ok <==> old(store)@.has_recipe(base_id) && !old(store)@.has_recipe(new_id),
        r matches Ok(row) ==> row@ == candidate@.stored_as_variant(new_id) && old(
            store,
        )@.records_variant(
            final(store)@,
            new_id,
            old(store)@.original_of(base_id),
            candidate@,
            old(store)@.preference_ids(name_set(preferences@)),
        ),
        r matches Err(e) ==> e == ServiceError::PersistenceFailed && *final(store) == *old(store),
{
    let original = match store.original_of(base_id) {
        Some(original) => original,
        None => {
            return Err(ServiceError::PersistenceFailed);
        },
    };
    let ids = store.preference_ids(preferences);
    let r = store.insert_variant(new_id, original, candidate, &ids);
    proof {
        if r is Ok {
            assert(old(store)@.with_variant(new_id, original, candidate@, ids@) == store@);
        }
    }
    r
}

} // verus!
