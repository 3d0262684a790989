//! The resolution service: one request, from the lookup to the recorded
//! variant, as three steps between which the caller talks to the generator
//! and to storage.

use vstd::prelude::*;
use crate::generator::{generated_recipe, read_response};
use crate::model::ServiceError;
use crate::recipe::{Recipe, RecipeView, name_set};
use crate::resolver::resolve;
use crate::store::Store;
use crate::writer::create_variant;

verus! {

/// What the generator is asked for after a miss: a variant of the family's
/// original for the requested preferences, in the order of the request.
#[derive(Debug)]
pub struct GenerationRequest {
    pub original: Recipe,
    pub preferences: Vec<String>,
}

/// How a lookup ends where the recipe exists: with the recipe that matches,
/// or with the request to generate one.
#[derive(Debug)]
pub enum Lookup {
    Found(Recipe),
    Generate(GenerationRequest),
}

/// A copy of a list of names.
pub fn copy_names(names: &Vec<String>) -> (r: Vec<String>)
    ensures
        r@ == names@,
{
    let mut out: Vec<String> = Vec::new();
    let mut i: usize = 0;
    while i < names.len()
        invariant
            i <= names.len(),
            out@ == names@.take(i as int),
        decreases names.len() - i,
    {
        out.push(names[i].clone());
        assert(out@ =~= names@.take(i + 1));
        i += 1;
    }
    assert(names@.take(i as int) =~= names@);
    out
}

/// The first step of a request: the lookup.
///
/// Fails with `NotFound` where the store has no recipe `recipe_id`. On a hit
/// it returns the row of the recipe that resolution finds. On a miss it
/// returns the request for the generator: the row of the canonical original
/// of `recipe_id` as the base, and the preferences as they were asked for.
pub fn get_recipe_by_id(store: &Store, recipe_id: i32, preferences: &Vec<String>) -> (r: Result<
    Lookup,
    ServiceError,
>)
    requires
        store.wf(),
    ensures
        match store@.resolution(recipe_id, name_set(preferences@)) {
            Err(error) => r == Err::<Lookup, ServiceError>(error),
            Ok(Some(found)) => r matches Ok(Lookup::Found(row)) && row@ == store@.recipe(found),
            Ok(None) => r matches Ok(Lookup::Generate(request)) && request.original@
                == store@.recipe(store@.original_of(recipe_id)) && request.preferences@
                == preferences@,
        },
{
    let resolved = match resolve(store, recipe_id, preferences) {
        Ok(resolved) => resolved,
        Err(error) => {
            return Err(error);
        },
    };
    match resolved {
        Some(found) => {
            proof {
                store@.lemma_found_exists(recipe_id, name_set(preferences@), found);
            }
            match store.recipe_by_id(found) {
                Some(row) => Ok(Lookup::Found(row.clone())),
                None => Err(ServiceError::NotFound),
            }
        },
        None => {
            let original = match store.original_of(recipe_id) {
                Some(original) => original,
                None => {
                    return Err(ServiceError::NotFound);
                },
            };
            proof {
                let i = choose|i: int|
                    0 <= i < store@.recipes.len() && (#[trigger] store@.recipes[i]).id == Some(
                        original,
                    ) && store@.recipes[i].isoriginal;
                assert(store@.has_recipe(original));
            }
            match store.recipe_by_id(original) {
                Some(row) => Ok(
                    Lookup::Generate(
                        GenerationRequest {
                            original: row.clone(),
                            preferences: copy_names(preferences),
                        },
                    ),
                ),
                None => Err(ServiceError::NotFound),
            }
        },
    }
}

/// The second step, after a miss: what the generator answered. `None`
/// stands for a call that failed. The answer is a whole, well-formed recipe
/// or the request fails with `GenerationFailed`.
pub fn accept_generation(reply: Option<&str>) -> (r: Result<Recipe, ServiceError>)
    ensures
        match reply {
            Some(text) => match generated_recipe(text@) {
                Some(candidate) => r matches Ok(recipe) && recipe@ == candidate,
                None => r == Err::<Recipe, ServiceError>(ServiceError::GenerationFailed),
            },
            None => r == Err::<Recipe, ServiceError>(ServiceError::GenerationFailed),
        },
{
    match reply {
        Some(text) => read_response(text),
        None => Err(ServiceError::GenerationFailed),
    }
}

/// The third step: the generated recipe is recorded under the id that
/// storage assigned to it. `None` stands for a write that failed.
///
/// The new recipe becomes a variation of the canonical original of the
/// request's base recipe, with the requested preferences as its fingerprint,
/// and its row is returned. Where storage assigned no id, the id is in use
/// or the base recipe is not in the store, the request fails with
/// `PersistenceFailed` and the store is as it was.
pub fn record_variant(
    store: &mut Store,
    request: &GenerationRequest,
    candidate: &Recipe,
    stored_id: Option<i32>,
) -> (r: Result<Recipe, ServiceError>)
    requires
        old(store).wf(),
    ensures
        final(store).wf(),
        r is Ok <==> (stored_id matches Some(new_id) && request.original.id matches Some(base)
            && old(store)@.has_recipe(base) && !old(store)@.has_recipe(new_id)),
        r matches Ok(row) ==> (stored_id matches Some(new_id) && request.original.id matches Some(
            base,
        ) && row@ == candidate@.stored_as_variant(new_id) && old(store)@.records_variant(
            final(store)@,
            new_id,
            old(store)@.original_of(base),
            candidate@,
            old(store)@.preference_ids(name_set(request.preferences@)),
        )),
        r matches Err(error) ==> error == ServiceError::PersistenceFailed && *final(store) == *old(
            store,
        ),
{
    let new_id = match stored_id {
        Some(new_id) => new_id,
        None => {
            return Err(ServiceError::PersistenceFailed);
        },
    };
    let base = match request.original.id {
        Some(base) => base,
        None => {
            return Err(ServiceError::PersistenceFailed);
        },
    };
    create_variant(store, new_id, base, candidate, &request.preferences)
}

/// The recipe that the generator's answer carries, if the call succeeded and
/// the answer is well formed.
pub open spec fn generation(reply: Option<&str>) -> Option<RecipeView> {
    match reply {
        Some(text) => generated_recipe(text@),
        None => None,
    }
}

/// One request from its start to its end, for a generator and a storage
/// whose answers are known: `reply` is what the generator answers, `None`
/// for a call that fails; `stored_id` is the id that storage assigns, `None`
/// for a write that fails. Neither is looked at unless the request gets so far.
///
/// An unknown recipe ends the request with `NotFound`. On a hit the matching
/// recipe is returned. On a miss the generator's answer decides: without a
/// well-formed recipe the request ends with `GenerationFailed`; with one,
/// the recipe is recorded as a variation of the canonical original of
/// `recipe_id` and returned, or the request ends with `PersistenceFailed`.
/// Only a recorded variant changes the store.
pub fn get_preferred_recipe(
    store: &mut Store,
    recipe_id: i32,
    preferences: &Vec<String>,
    reply: Option<&str>,
    stored_id: Option<i32>,
) -> (r: Result<Recipe, ServiceError>)
    requires
        old(store).wf(),
    ensures
        final(store).wf(),
        r is Err ==> *final(store) == *old(store),
        match old(store)@.resolution(recipe_id, name_set(preferences@)) {
            Err(error) => r == Err::<Recipe, ServiceError>(error),
            Ok(Some(found)) => r matches Ok(row) && row@ == old(store)@.recipe(found)
                && *final(store) == *old(store),
            Ok(None) => match generation(reply) {
                None => r == Err::<Recipe, ServiceError>(ServiceError::GenerationFailed),
                Some(candidate) => if stored_id matches Some(new_id) && !old(store)@.has_recipe(
                    new_id,
                ) {
                    r matches Ok(row) && row@ == candidate.stored_as_variant(stored_id->0) && old(
                        store,
                    )@.records_variant(
                        final(store)@,
                        stored_id->0,
                        old(store)@.original_of(recipe_id),
                        candidate,
                        old(store)@.preference_ids(name_set(preferences@)),
                    )
                } else {
                    r == Err::<Recipe, ServiceError>(ServiceError::PersistenceFailed)
                },
            },
        },
{
    let request = match get_recipe_by_id(store, recipe_id, preferences) {
        Err(error) => {
            return Err(error);
        },
        Ok(Lookup::Found(row)) => {
            return Ok(row);
        },
        Ok(Lookup::Generate(request)) => request,
    };
    let candidate = match accept_generation(reply) {
        Ok(candidate) => candidate,
        Err(error) => {
            return Err(error);
        },
    };
    proof {
        let original = store@.original_of(recipe_id);
        store@.lemma_original_of(recipe_id);
        let i = choose|i: int|
            0 <= i < store@.recipes.len() && (#[trigger] store@.recipes[i]).id == Some(original)
                && store@.recipes[i].isoriginal;
        assert(store@.has_recipe(original));
        store@.lemma_original_flag(original);
        assert(request.original.id == Some(original));
        assert(store@.original_of(original) == original);
    }
    record_variant(store, &request, &candidate, stored_id)
}

} // verus!
