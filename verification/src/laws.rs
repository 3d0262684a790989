//! What holds of resolution and of recorded variants, in every store that
//! meets the invariant.

use vstd::prelude::*;
use crate::model::StoreState;
use crate::recipe::{DerivationEdge, PreferenceAssociation, RecipeView};

verus! {

/// Exact match. What resolution finds is a candidate of the canonical
/// original of the requested recipe, and its fingerprint is exactly the set of
/// ids that the requested names resolve to: it holds every one of them, and
/// nothing else.
pub proof fn law_exact_match(store: StoreState, recipe_id: i32, names: Set<Seq<char>>, found: i32)
    requires
        store.resolution(recipe_id, names) == Ok::<Option<i32>, crate::model::ServiceError>(
            Some(found),
        ),
    ensures
        store.has_recipe(recipe_id),
        store.is_candidate(store.original_of(recipe_id), found),
        store.fingerprint(found) == store.preference_ids(names),
        forall|p: i32| store.fingerprint(found).contains(p) <==> store.preference_ids(names).contains(p),
{
    let original = store.original_of(recipe_id);
    let wanted = store.preference_ids(names);
    let chosen = choose|id: i32| store.is_first_hit(original, wanted, id);
    assert(store.is_first_hit(original, wanted, chosen));
    assert(store.fingerprint(found) =~= wanted);
}

/// Resolution is a function of the store's content and the request: asked
/// twice of the same content with the same recipe id and the same names, it
/// answers the same. Of two ids that both qualify as the answer, neither is
/// smaller, so they are one.
pub proof fn law_resolution_repeats(
    first: StoreState,
    second: StoreState,
    recipe_id: i32,
    names: Set<Seq<char>>,
    a: i32,
    b: i32,
)
    requires
        first == second,
    ensures
        first.resolution(recipe_id, names) == second.resolution(recipe_id, names),
        first.is_first_hit(first.original_of(recipe_id), first.preference_ids(names), a)
            && second.is_first_hit(second.original_of(recipe_id), second.preference_ids(names), b)
            ==> a == b,
{
    let original = first.original_of(recipe_id);
    let wanted = first.preference_ids(names);
    if first.is_first_hit(original, wanted, a) && first.is_first_hit(original, wanted, b) {
        assert(first.is_hit(original, wanted, a));
        assert(first.is_hit(original, wanted, b));
    }
}

/// Depth one, of every store that meets the invariant: an edge leads from a
/// variant to an original, and no edge leaves an original.
pub proof fn law_depth_one(store: StoreState, original: i32, variation: i32)
    requires
        store.wf(),
        store.has_edge(original, variation),
    ensures
        store.is_original(original),
        !store.is_variant(original),
        !store.has_parent(original),
        store.is_variant(variation),
        store.original_of(variation) == original,
{
    let edge = DerivationEdge { original_id: original, variation_id: variation };
    let k = choose|k: int| 0 <= k < store.edges.len() && store.edges[k] == edge;
    assert(store.is_original(store.edges[k].original_id));
    assert(store.is_variant(store.edges[k].variation_id));
    assert(store.has_recipe(original)) by {
        let i = choose|i: int|
            0 <= i < store.recipes.len() && (#[trigger] store.recipes[i]).id == Some(original)
                && store.recipes[i].isoriginal;
    }
    assert(store.has_recipe(variation)) by {
        let i = choose|i: int|
            0 <= i < store.recipes.len() && (#[trigger] store.recipes[i]).id == Some(variation)
                && !store.recipes[i].isoriginal;
    }
    store.lemma_original_flag(original);
    store.lemma_original_flag(variation);
    store.lemma_original_of(variation);
    if store.has_parent(original) {
        let l = choose|l: int|
            0 <= l < store.edges.len() && (#[trigger] store.edges[l]).variation_id == original;
        assert(store.is_variant(store.edges[l].variation_id));
    }
}

/// Depth one, of every recorded variant: whether the recipe it was made from
/// is an original or itself a variation, the one edge of the new recipe
/// points at the canonical original of that recipe, which is an original and
/// no variation; and the store still meets the invariant.
pub proof fn law_variant_hangs_from_original(
    before: StoreState,
    after: StoreState,
    new_id: i32,
    base_id: i32,
    content: RecipeView,
    fingerprint: Set<i32>,
)
    requires
        before.wf(),
        before.has_recipe(base_id),
        !before.has_recipe(new_id),
        before.records_variant(after, new_id, before.original_of(base_id), content, fingerprint),
    ensures
        after.wf(),
        after.is_variant(new_id),
        after.has_edge(before.original_of(base_id), new_id),
        after.original_of(new_id) == before.original_of(base_id),
        forall|original: i32|
            after.has_edge(original, new_id) ==> original == before.original_of(base_id)
                && after.is_original(original) && !after.is_variant(original),
{
    let root = before.original_of(base_id);
    let ids = choose|ids: Seq<i32>|
        ids.no_duplicates() && ids.to_set() =~= fingerprint && #[trigger] before.with_variant(
            new_id,
            root,
            content,
            ids,
        ) == after;
    before.lemma_original_of(base_id);
    before.lemma_with_variant_wf(new_id, root, content, ids);
    let edge = DerivationEdge { original_id: root, variation_id: new_id };
    assert(after.edges[before.edges.len() as int] == edge);
    assert(after.has_edge(root, new_id));
    assert forall|original: i32| after.has_edge(original, new_id) implies original == root
        && after.is_original(original) && !after.is_variant(original) by {
        law_depth_one(after, original, new_id);
    }
    law_depth_one(after, root, new_id);
}

/// Round trip. Once a variant has been recorded for a request, resolving the
/// same names finds exactly the new recipe, whether the family's original,
/// any recipe of the family or the new recipe itself is asked for; provided
/// that no recipe of the family with a smaller id already had that
/// fingerprint, as is the case after a miss.
pub proof fn law_round_trip(
    before: StoreState,
    after: StoreState,
    new_id: i32,
    base_id: i32,
    content: RecipeView,
    names: Set<Seq<char>>,
    asked: i32,
)
    requires
        before.wf(),
        before.has_recipe(base_id),
        !before.has_recipe(new_id),
        before.records_variant(
            after,
            new_id,
            before.original_of(base_id),
            content,
            before.preference_ids(names),
        ),
        asked == new_id || (before.has_recipe(asked) && before.original_of(asked)
            == before.original_of(base_id)),
        forall|earlier: i32| #[trigger]
            before.is_hit(before.original_of(base_id), before.preference_ids(names), earlier)
                ==> new_id <= earlier,
    ensures
        after.resolution(asked, names) == Ok::<Option<i32>, crate::model::ServiceError>(
            Some(new_id),
        ),
{
    let root = before.original_of(base_id);
    let wanted = before.preference_ids(names);
    let ids = choose|ids: Seq<i32>|
        ids.no_duplicates() && ids.to_set() =~= wanted && #[trigger] before.with_variant(
            new_id,
            root,
            content,
            ids,
        ) == after;
    law_variant_hangs_from_original(before, after, new_id, base_id, content, wanted);
    before.lemma_original_of(base_id);
    assert(after.preference_ids(names) =~= wanted);
    let n = before.recipes.len() as int;
    let m = before.edges.len() as int;
    let a = before.associations.len() as int;
    assert(after.recipes[n].id == Some(new_id));
    assert(after.has_recipe(new_id));
    // The old recipes and edges are still there.
    assert forall|id: i32| before.has_recipe(id) implies after.has_recipe(id) by {
        let i = choose|i: int|
            0 <= i < before.recipes.len() && (#[trigger] before.recipes[i]).id == Some(id);
        assert(after.recipes[i].id == Some(id));
    }
    assert forall|o: i32, v: i32| before.has_edge(o, v) implies after.has_edge(o, v) by {
        let edge = DerivationEdge { original_id: o, variation_id: v };
        let k = choose|k: int| 0 <= k < before.edges.len() && before.edges[k] == edge;
        assert(after.edges[k] == edge);
    }
    assert forall|o: i32, v: i32| after.has_edge(o, v) && v != new_id implies before.has_edge(
        o,
        v,
    ) by {
        let edge = DerivationEdge { original_id: o, variation_id: v };
        let k = choose|k: int| 0 <= k < after.edges.len() && after.edges[k] == edge;
        assert(k < m);
        assert(before.edges[k] == edge);
    }
    // The recipe asked for belongs to the same family afterwards.
    assert(after.original_of(asked) == root) by {
        if asked != new_id {
            before.lemma_original_of(asked);
            after.lemma_original_of(asked);
            if before.is_original(asked) {
                let i = choose|i: int|
                    0 <= i < before.recipes.len() && (#[trigger] before.recipes[i]).id == Some(
                        asked,
                    ) && before.recipes[i].isoriginal;
                assert(after.recipes[i].id == Some(asked) && after.recipes[i].isoriginal);
                assert(after.is_original(asked));
            } else {
                assert(before.has_edge(root, asked));
                assert(after.has_edge(root, asked));
            }
        }
    }
    // The fingerprints: the new recipe has the requested one, the others keep theirs.
    let rows = StoreState::fingerprint_rows(new_id, ids);
    assert forall|p: i32| after.fingerprint(new_id).contains(p) <==> wanted.contains(p) by {
        let row = PreferenceAssociation { recipe_id: new_id, preference_id: p };
        if after.associations.contains(row) {
            let k = choose|k: int| 0 <= k < after.associations.len() && after.associations[k] == row;
            if k < a {
                assert(before.has_recipe(before.associations[k].recipe_id));
            } else {
                assert(ids[k - a] == p);
                assert(ids.contains(p));
                assert(ids.to_set().contains(p));
            }
        }
        if wanted.contains(p) {
            assert(ids.to_set().contains(p));
            let j = choose|j: int| 0 <= j < ids.len() && ids[j] == p;
            assert(after.associations[a + j] == row);
        }
    }
    assert(after.fingerprint(new_id) =~= wanted);
    assert forall|c: i32| c != new_id implies after.fingerprint(c) =~= before.fingerprint(c) by {
        assert forall|p: i32| after.fingerprint(c).contains(p) <==> before.fingerprint(c).contains(
            p,
        ) by {
            let row = PreferenceAssociation { recipe_id: c, preference_id: p };
            if after.associations.contains(row) {
                let k = choose|k: int|
                    0 <= k < after.associations.len() && after.associations[k] == row;
                assert(k < a);
                assert(before.associations[k] == row);
            }
            if before.associations.contains(row) {
                let k = choose|k: int|
                    0 <= k < before.associations.len() && before.associations[k] == row;
                assert(after.associations[k] == row);
            }
        }
    }
    assert(after.is_hit(root, wanted, new_id));
    assert forall|other: i32| #[trigger] after.is_hit(root, wanted, other) implies new_id
        <= other by {
        if other != new_id {
            assert(before.is_hit(root, wanted, other));
        }
    }
    after.lemma_first_hit_is(root, wanted, new_id);
}

/// A miss is a miss: where resolution finds nothing, no candidate of the
/// family has the requested fingerprint.
pub proof fn law_miss_means_no_match(
    store: StoreState,
    recipe_id: i32,
    names: Set<Seq<char>>,
    candidate: i32,
)
    requires
        store.resolution(recipe_id, names) == Ok::<Option<i32>, crate::model::ServiceError>(None),
        store.is_candidate(store.original_of(recipe_id), candidate),
    ensures
        store.fingerprint(candidate) != store.preference_ids(names),
{
    store.lemma_first_hit(store.original_of(recipe_id), store.preference_ids(names));
    assert(!store.is_hit(store.original_of(recipe_id), store.preference_ids(names), candidate));
}

/// Round trip after a miss. Where resolving a request finds nothing and a
/// variant is then recorded for it, resolving the same names finds exactly
/// the new recipe, whichever recipe of the family is asked for.
pub proof fn law_round_trip_after_miss(
    before: StoreState,
    after: StoreState,
    new_id: i32,
    base_id: i32,
    content: RecipeView,
    names: Set<Seq<char>>,
    asked: i32,
)
    requires
        before.wf(),
        before.resolution(base_id, names) == Ok::<Option<i32>, crate::model::ServiceError>(None),
        !before.has_recipe(new_id),
        before.records_variant(
            after,
            new_id,
            before.original_of(base_id),
            content,
            before.preference_ids(names),
        ),
        asked == new_id || (before.has_recipe(asked) && before.original_of(asked)
            == before.original_of(base_id)),
    ensures
        after.resolution(asked, names) == Ok::<Option<i32>, crate::model::ServiceError>(
            Some(new_id),
        ),
{
    before.lemma_first_hit(before.original_of(base_id), before.preference_ids(names));
    law_round_trip(before, after, new_id, base_id, content, names, asked);
}

} // verus!
