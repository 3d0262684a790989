//! The mathematical model of the store: four relations, the invariant that
//! ties them together, and what resolution means on them.

use vstd::prelude::*;
use crate::recipe::{DerivationEdge, PreferenceAssociation, PreferenceView, RecipeView};

verus! {

/// The ways in which a request can fail.
#[derive(Debug, Clone, Copy, PartialEq, Eq, Structural)]
pub enum ServiceError {
    /// The requested recipe does not exist.
    NotFound,
    /// The generator failed, or what it returned is not a well-formed recipe.
    GenerationFailed,
    /// The new variant could not be recorded.
    PersistenceFailed,
}

/// The content of the store at one moment.
pub struct StoreState {
    pub recipes: Seq<RecipeView>,
    pub preferences: Seq<PreferenceView>,
    pub edges: Seq<DerivationEdge>,
    pub associations: Seq<PreferenceAssociation>,
}

impl StoreState {
    /// A store without rows.
    pub open spec fn empty() -> StoreState {
        StoreState {
            recipes: Seq::empty(),
            preferences: Seq::empty(),
            edges: Seq::empty(),
            associations: Seq::empty(),
        }
    }

    /// There is a recipe with this id.
    pub open spec fn has_recipe(self, id: i32) -> bool {
        exists|i: int| 0 <= i < self.recipes.len() && (#[trigger] self.recipes[i]).id == Some(id)
    }

    /// There is an original recipe with this id.
    pub open spec fn is_original(self, id: i32) -> bool {
        exists|i: int|
            0 <= i < self.recipes.len() && (#[trigger] self.recipes[i]).id == Some(id)
                && self.recipes[i].isoriginal
    }

    /// There is a derived recipe with this id.
    pub open spec fn is_variant(self, id: i32) -> bool {
        exists|i: int|
            0 <= i < self.recipes.len() && (#[trigger] self.recipes[i]).id == Some(id)
                && !self.recipes[i].isoriginal
    }

    /// The row of the recipe with this id.
    pub open spec fn recipe(self, id: i32) -> RecipeView {
        let i = choose|i: int|
            0 <= i < self.recipes.len() && (#[trigger] self.recipes[i]).id == Some(id);
        self.recipes[i]
    }

    /// The derivation graph holds the edge from `variation` to `original`.
    pub open spec fn has_edge(self, original: i32, variation: i32) -> bool {
        self.edges.contains(DerivationEdge { original_id: original, variation_id: variation })
    }

    /// Some edge leaves the recipe `variation`.
    pub open spec fn has_parent(self, variation: i32) -> bool {
        exists|k: int|
            0 <= k < self.edges.len() && (#[trigger] self.edges[k]).variation_id == variation
    }

    /// The canonical original of a recipe: the recipe itself where it is an
    /// original, else the recipe its edge points at.
    pub open spec fn original_of(self, id: i32) -> i32 {
        if self.is_original(id) {
            id
        } else {
            let k = choose|k: int|
                0 <= k < self.edges.len() && (#[trigger] self.edges[k]).variation_id == id;
            self.edges[k].original_id
        }
    }

    /// The candidates of an original are the original and its variations.
    pub open spec fn is_candidate(self, original: i32, id: i32) -> bool {
        id == original || self.has_edge(original, id)
    }

    /// The fingerprint of a recipe: the set of preference ids associated with it.
    pub open spec fn fingerprint(self, id: i32) -> Set<i32> {
        Set::new(
            |p: i32|
                self.associations.contains(
                    PreferenceAssociation { recipe_id: id, preference_id: p },
                ),
        )
    }

    /// The ids of the known preferences among `names`. Unknown names give no id.
    pub open spec fn preference_ids(self, names: Set<Seq<char>>) -> Set<i32> {
        Set::new(
            |id: i32|
                exists|i: int|
                    0 <= i < self.preferences.len() && (#[trigger] self.preferences[i]).id == id
                        && names.contains(self.preferences[i].name),
        )
    }

    /// `id` is a candidate of `original` whose fingerprint is exactly `wanted`.
    pub open spec fn is_hit(self, original: i32, wanted: Set<i32>, id: i32) -> bool {
        self.is_candidate(original, id) && self.fingerprint(id) =~= wanted
    }

    /// `id` is the hit with the least id.
    pub open spec fn is_first_hit(self, original: i32, wanted: Set<i32>, id: i32) -> bool {
        &&& self.is_hit(original, wanted, id)
        &&& forall|other: i32| #[trigger] self.is_hit(original, wanted, other) ==> id <= other
    }

    /// The hit with the least id, if there is a hit.
    pub open spec fn first_hit(self, original: i32, wanted: Set<i32>) -> Option<i32> {
        if exists|id: i32| self.is_first_hit(original, wanted, id) {
            Some(choose|id: i32| self.is_first_hit(original, wanted, id))
        } else {
            None
        }
    }

    /// What resolving `recipe_id` against the requested names gives: an error
    /// where the recipe is unknown, else the first hit among the candidates of
    /// its canonical original, or a miss.
    pub open spec fn resolution(self, recipe_id: i32, names: Set<Seq<char>>) -> Result<
        Option<i32>,
        ServiceError,
    > {
        if self.has_recipe(recipe_id) {
            Ok(self.first_hit(self.original_of(recipe_id), self.preference_ids(names)))
        } else {
            Err(ServiceError::NotFound)
        }
    }

    /// Every recipe has an id, and no two recipes share one.
    pub open spec fn recipes_keyed(self) -> bool {
        &&& forall|i: int| 0 <= i < self.recipes.len() ==> (#[trigger] self.recipes[i]).id is Some
        &&& forall|i: int, j: int|
            0 <= i < j < self.recipes.len() ==> (#[trigger] self.recipes[i]).id != (
            #[trigger] self.recipes[j]).id
    }

    /// The derivation graph is a forest of depth one: every edge leads from a
    /// variant to an original, and every variant has exactly one edge.
    pub open spec fn edges_flat(self) -> bool {
        &&& forall|k: int|
            0 <= k < self.edges.len() ==> self.is_original((#[trigger] self.edges[k]).original_id)
                && self.is_variant(self.edges[k].variation_id)
        &&& forall|k: int, l: int|
            0 <= k < l < self.edges.len() ==> (#[trigger] self.edges[k]).variation_id != (
            #[trigger] self.edges[l]).variation_id
        &&& forall|i: int|
            0 <= i < self.recipes.len() && !(#[trigger] self.recipes[i]).isoriginal
                && self.recipes[i].id is Some ==> self.has_parent(self.recipes[i].id->0)
    }

    /// No two preferences share an id or a name.
    pub open spec fn preferences_keyed(self) -> bool {
        forall|i: int, j: int|
            0 <= i < j < self.preferences.len() ==> (#[trigger] self.preferences[i]).id != (
            #[trigger] self.preferences[j]).id && self.preferences[i].name
                != self.preferences[j].name
    }

    /// Every association belongs to a recipe of the store, and none occurs twice.
    pub open spec fn associations_sound(self) -> bool {
        &&& forall|k: int|
            0 <= k < self.associations.len() ==> self.has_recipe(
                (#[trigger] self.associations[k]).recipe_id,
            )
        &&& forall|k: int, l: int|
            0 <= k < l < self.associations.len() ==> (#[trigger] self.associations[k]) != (
            #[trigger] self.associations[l])
    }

    /// The invariant of the store.
    pub open spec fn wf(self) -> bool {
        &&& self.recipes_keyed()
        &&& self.edges_flat()
        &&& self.preferences_keyed()
        &&& self.associations_sound()
    }

    /// The store after a variant has been recorded: the content as a new
    /// recipe row that is not an original, one association for each
    /// preference id, and the edge from the new recipe to `original`.
    pub open spec fn with_variant(
        self,
        new_id: i32,
        original: i32,
        content: RecipeView,
        preference_ids: Seq<i32>,
    ) -> StoreState {
        StoreState {
            recipes: self.recipes.push(content.stored_as_variant(new_id)),
            preferences: self.preferences,
            edges: self.edges.push(DerivationEdge { original_id: original, variation_id: new_id }),
            associations: self.associations + Self::fingerprint_rows(new_id, preference_ids),
        }
    }
    /// The rows that record the fingerprint of a new recipe.
    pub open spec fn fingerprint_rows(new_id: i32, preference_ids: Seq<i32>) -> Seq<
        PreferenceAssociation,
    > {
        Seq::new(
            preference_ids.len(),
            |k: int| PreferenceAssociation { recipe_id: new_id, preference_id: preference_ids[k] },
        )
    }

    /// Recording a variant under an original, with an id that is not in use
    /// and a fingerprint without repetitions, keeps the invariant.
    pub proof fn lemma_with_variant_wf(
        self,
        new_id: i32,
        original: i32,
        content: RecipeView,
        preference_ids: Seq<i32>,
    )
        requires
            self.wf(),
            !self.has_recipe(new_id),
            self.is_original(original),
            preference_ids.no_duplicates(),
        ensures
            self.with_variant(new_id, original, content, preference_ids).wf(),
    {
        let after = self.with_variant(new_id, original, content, preference_ids);
        let n = self.recipes.len() as int;
        assert(after.recipes[n].id == Some(new_id));
        assert forall|i: int| 0 <= i < n implies after.recipes[i] == self.recipes[i] by {}
        assert forall|id: i32| self.has_recipe(id) implies after.has_recipe(id) by {
            let i = choose|i: int|
                0 <= i < self.recipes.len() && (#[trigger] self.recipes[i]).id == Some(id);
            assert(after.recipes[i].id == Some(id));
        }
        assert forall|id: i32| self.is_original(id) implies after.is_original(id) by {
            let i = choose|i: int|
                0 <= i < self.recipes.len() && (#[trigger] self.recipes[i]).id == Some(id)
                    && self.recipes[i].isoriginal;
            assert(after.recipes[i].id == Some(id) && after.recipes[i].isoriginal);
        }
        assert forall|id: i32| self.is_variant(id) implies after.is_variant(id) by {
            let i = choose|i: int|
                0 <= i < self.recipes.len() && (#[trigger] self.recipes[i]).id == Some(id)
                    && !self.recipes[i].isoriginal;
            assert(after.recipes[i].id == Some(id) && !after.recipes[i].isoriginal);
        }
        assert(after.is_variant(new_id)) by {
            assert(after.recipes[n].id == Some(new_id) && !after.recipes[n].isoriginal);
        }
        assert(after.has_recipe(new_id));
        assert(after.recipes_keyed()) by {
            assert forall|i: int, j: int| 0 <= i < j < after.recipes.len() implies (
            #[trigger] after.recipes[i]).id != (#[trigger] after.recipes[j]).id by {
                if j == n {
                    assert(self.recipes[i].id != Some(new_id));
                } else {
                    assert(self.recipes[i].id != self.recipes[j].id);
                }
            }
        }
        let m = self.edges.len() as int;
        assert(after.edges_flat()) by {
            assert forall|k: int| 0 <= k < after.edges.len() implies after.is_original(
                (#[trigger] after.edges[k]).original_id,
            ) && after.is_variant(after.edges[k].variation_id) by {
                if k < m {
                    assert(after.edges[k] == self.edges[k]);
                }
            }
            assert forall|k: int, l: int| 0 <= k < l < after.edges.len() implies (
            #[trigger] after.edges[k]).variation_id != (#[trigger] after.edges[l]).variation_id by {
                if l == m {
                    assert(self.is_variant(self.edges[k].variation_id));
                    assert(self.has_recipe(self.edges[k].variation_id)) by {
                        let i = choose|i: int|
                            0 <= i < self.recipes.len() && (#[trigger] self.recipes[i]).id == Some(
                                self.edges[k].variation_id,
                            ) && !self.recipes[i].isoriginal;
                    }
                } else {
                    assert(self.edges[k].variation_id != self.edges[l].variation_id);
                }
            }
            assert forall|i: int|
                0 <= i < after.recipes.len() && !(#[trigger] after.recipes[i]).isoriginal
                    && after.recipes[i].id is Some implies after.has_parent(
                after.recipes[i].id->0,
            ) by {
                if i == n {
                    assert(after.edges[m].variation_id == new_id);
                } else {
                    assert(self.has_parent(self.recipes[i].id->0));
                    let k = choose|k: int|
                        0 <= k < self.edges.len() && (#[trigger] self.edges[k]).variation_id
                            == self.recipes[i].id->0;
                    assert(after.edges[k].variation_id == self.recipes[i].id->0);
                }
            }
        }
        let a = self.associations.len() as int;
        assert(after.associations_sound()) by {
            assert forall|k: int| 0 <= k < after.associations.len() implies after.has_recipe(
                (#[trigger] after.associations[k]).recipe_id,
            ) by {
                if k < a {
                    assert(after.associations[k] == self.associations[k]);
                }
            }
            assert forall|k: int, l: int| 0 <= k < l < after.associations.len() implies (
            #[trigger] after.associations[k]) != (#[trigger] after.associations[l]) by {
                if l < a {
                    assert(self.associations[k] != self.associations[l]);
                } else if k < a {
                    assert(self.has_recipe(self.associations[k].recipe_id));
                    assert(after.associations[l].recipe_id == new_id);
                } else {
                    assert(preference_ids[k - a] != preference_ids[l - a]);
                }
            }
        }
    }
    /// With ids that are keys, a recipe is an original exactly when its row
    /// says so, and a variant exactly when its row says otherwise.
    pub proof fn lemma_original_flag(self, id: i32)
        requires
            self.recipes_keyed(),
            self.has_recipe(id),
        ensures
            self.recipe(id).id == Some(id),
            self.is_original(id) <==> self.recipe(id).isoriginal,
            self.is_variant(id) <==> !self.recipe(id).isoriginal,
    {
        let c = choose|i: int|
            0 <= i < self.recipes.len() && (#[trigger] self.recipes[i]).id == Some(id);
        assert forall|i: int|
            0 <= i < self.recipes.len() && (#[trigger] self.recipes[i]).id == Some(id) implies i
            == c by {
            if i < c {
                assert(self.recipes[i].id != self.recipes[c].id);
            }
            if c < i {
                assert(self.recipes[c].id != self.recipes[i].id);
            }
        }
    }
    /// `after` is this store with one variant recorded under `original`: the
    /// content under `new_id`, and a fingerprint of exactly the ids of
    /// `fingerprint`, each once.
    pub open spec fn records_variant(
        self,
        after: StoreState,
        new_id: i32,
        original: i32,
        content: RecipeView,
        fingerprint: Set<i32>,
    ) -> bool {
        exists|ids: Seq<i32>|
            ids.no_duplicates() && ids.to_set() =~= fingerprint && #[trigger] self.with_variant(
                new_id,
                original,
                content,
                ids,
            ) == after
    }

    /// In a store that meets the invariant, the canonical original of a
    /// recipe is an original, and a recipe that is not an original has the
    /// edge that leads to it.
    pub proof fn lemma_original_of(self, id: i32)
        requires
            self.wf(),
            self.has_recipe(id),
        ensures
            self.is_original(self.original_of(id)),
            self.is_candidate(self.original_of(id), id),
            forall|original: i32| self.has_edge(original, id) ==> original == self.original_of(id),
    {
        self.lemma_original_flag(id);
        if !self.is_original(id) {
            let i = choose|i: int|
                0 <= i < self.recipes.len() && (#[trigger] self.recipes[i]).id == Some(id);
            assert(self.has_parent(self.recipes[i].id->0));
            let k = choose|k: int|
                0 <= k < self.edges.len() && (#[trigger] self.edges[k]).variation_id == id;
            assert(self.is_original(self.edges[k].original_id));
            assert(self.edges[k] == DerivationEdge {
                original_id: self.original_of(id),
                variation_id: id,
            });
            assert forall|original: i32| self.has_edge(original, id) implies original
                == self.original_of(id) by {
                let wanted = DerivationEdge { original_id: original, variation_id: id };
                let l = choose|l: int| 0 <= l < self.edges.len() && self.edges[l] == wanted;
                if l < k {
                    assert(self.edges[l].variation_id != self.edges[k].variation_id);
                }
                if k < l {
                    assert(self.edges[k].variation_id != self.edges[l].variation_id);
                }
            }
        } else {
            assert forall|original: i32| self.has_edge(original, id) implies original
                == self.original_of(id) by {
                let wanted = DerivationEdge { original_id: original, variation_id: id };
                let l = choose|l: int| 0 <= l < self.edges.len() && self.edges[l] == wanted;
                assert(self.is_variant(self.edges[l].variation_id));
            }
        }
    }
    /// A hit that no other hit has a smaller id than is the first hit.
    pub proof fn lemma_first_hit_is(self, original: i32, wanted: Set<i32>, id: i32)
        requires
            self.is_first_hit(original, wanted, id),
        ensures
            self.first_hit(original, wanted) == Some(id),
    {
        let chosen = choose|c: i32| self.is_first_hit(original, wanted, c);
        assert(self.is_hit(original, wanted, chosen));
        assert(self.is_hit(original, wanted, id));
        assert(chosen <= id && id <= chosen);
    }

    /// Where nothing is a hit, there is no first hit.
    pub proof fn lemma_no_hit(self, original: i32, wanted: Set<i32>)
        requires
            forall|id: i32| !self.is_hit(original, wanted, id),
        ensures
            self.first_hit(original, wanted) is None,
    {
    }
    /// What resolution finds is a recipe of the store.
    pub proof fn lemma_found_exists(self, recipe_id: i32, names: Set<Seq<char>>, found: i32)
        requires
            self.wf(),
            self.resolution(recipe_id, names) == Ok::<Option<i32>, ServiceError>(Some(found)),
        ensures
            self.has_recipe(found),
    {
        let original = self.original_of(recipe_id);
        let wanted = self.preference_ids(names);
        let chosen = choose|id: i32| self.is_first_hit(original, wanted, id);
        assert(self.is_first_hit(original, wanted, chosen));
        self.lemma_original_of(recipe_id);
        if found == original {
            let i = choose|i: int|
                0 <= i < self.recipes.len() && (#[trigger] self.recipes[i]).id == Some(original)
                    && self.recipes[i].isoriginal;
        } else {
            let edge = DerivationEdge { original_id: original, variation_id: found };
            let k = choose|k: int| 0 <= k < self.edges.len() && self.edges[k] == edge;
            assert(self.is_variant(self.edges[k].variation_id));
            let i = choose|i: int|
                0 <= i < self.recipes.len() && (#[trigger] self.recipes[i]).id == Some(found)
                    && !self.recipes[i].isoriginal;
        }
    }
    /// Where there is a hit, there is a hit with the least id.
    pub proof fn lemma_least_hit(self, original: i32, wanted: Set<i32>, hit: i32) -> (least: i32)
        requires
            self.is_hit(original, wanted, hit),
        ensures
            self.is_first_hit(original, wanted, least),
            least <= hit,
        decreases hit - i32::MIN,
    {
        if forall|other: i32| #[trigger] self.is_hit(original, wanted, other) ==> hit <= other {
            hit
        } else {
            let smaller = choose|other: i32|
                #[trigger] self.is_hit(original, wanted, other) && !(hit <= other);
            self.lemma_least_hit(original, wanted, smaller)
        }
    }

    /// The first hit is a hit, and no hit has a smaller id; where there is no
    /// first hit, nothing is a hit.
    pub proof fn lemma_first_hit(self, original: i32, wanted: Set<i32>)
        ensures
            match self.first_hit(original, wanted) {
                Some(id) => self.is_first_hit(original, wanted, id),
                None => forall|id: i32| !self.is_hit(original, wanted, id),
            },
    {
        match self.first_hit(original, wanted) {
            Some(id) => {
                let chosen = choose|c: i32| self.is_first_hit(original, wanted, c);
                assert(self.is_first_hit(original, wanted, chosen));
            },
            None => {
                assert forall|id: i32| !self.is_hit(original, wanted, id) by {
                    if self.is_hit(original, wanted, id) {
                        let least = self.lemma_least_hit(original, wanted, id);
                    }
                }
            },
        }
    }
}

} // verus!
