//! The store: the rows of the four relations, held under the invariant of
//! the model, with the lookups that resolution needs.

use vstd::prelude::*;
use crate::idset::all_distinct;
use crate::model::{ServiceError, StoreState};
use crate::recipe::{
    DerivationEdge, Preference, PreferenceAssociation, PreferenceView, Recipe, RecipeView, copy_text,
    name_set,
};

verus! {

/// The views of a list of recipe rows.
pub open spec fn recipe_views(rows: Seq<Recipe>) -> Seq<RecipeView> {
    Seq::new(rows.len(), |i: int| rows[i]@)
}

/// The views of a list of preference rows.
pub open spec fn preference_views(rows: Seq<Preference>) -> Seq<PreferenceView> {
    Seq::new(rows.len(), |i: int| rows[i]@)
}

/// The content that four lists of rows stand for.
pub open spec fn rows_view(
    recipes: Seq<Recipe>,
    preferences: Seq<Preference>,
    edges: Seq<DerivationEdge>,
    associations: Seq<PreferenceAssociation>,
) -> StoreState {
    StoreState {
        recipes: recipe_views(recipes),
        preferences: preference_views(preferences),
        edges,
        associations,
    }
}

/// The recipes, preferences, derivation edges and preference associations.
#[derive(Debug)]
pub struct Store {
    recipes: Vec<Recipe>,
    preferences: Vec<Preference>,
    edges: Vec<DerivationEdge>,
    associations: Vec<PreferenceAssociation>,
}

/// The position of the first row with the given id.
fn position_of(recipes: &Vec<Recipe>, id: i32) -> (r: Option<usize>)
    ensures
        match r {
            Some(i) => i < recipes.len() && recipes[i as int].id == Some(id),
            None => forall|i: int| 0 <= i < recipes.len() ==> (#[trigger] recipes[i]).id != Some(id),
        },
{
    let mut i: usize = 0;
    while i < recipes.len()
        invariant
            i <= recipes.len(),
            forall|j: int| 0 <= j < i ==> (#[trigger] recipes[j]).id != Some(id),
        decreases recipes.len() - i,
    {
        match recipes[i].id {
            Some(found) => {
                if found == id {
                    return Some(i);
                }
            },
            None => {},
        }
        i += 1;
    }
    None
}

/// One of the first `upto` preferences has the id `id` and a name in `names`.
spec fn named_before(preferences: Seq<PreferenceView>, names: Set<Seq<char>>, upto: int, id: i32) -> bool {
    exists|l: int|
        0 <= l < upto && (#[trigger] preferences[l]).id == id && names.contains(preferences[l].name)
}

/// Whether `name` is one of `names`.
fn name_listed(names: &Vec<String>, name: &String) -> (r: bool)
    ensures
        r == name_set(names@).contains(name@),
{
    let mut i: usize = 0;
    while i < names.len()
        invariant
            i <= names.len(),
            forall|j: int| 0 <= j < i ==> (#[trigger] names[j])@ != name@,
        decreases names.len() - i,
    {
        if names[i] == *name {
            return true;
        }
        i += 1;
    }
    false
}

impl Store {
    /// The content of the store.
    pub closed spec fn view(&self) -> StoreState {
        rows_view(self.recipes@, self.preferences@, self.edges@, self.associations@)
    }

    /// The invariant holds.
    pub open spec fn wf(&self) -> bool {
        self@.wf()
    }

    /// A store without rows.
    pub fn new() -> (s: Store)
        ensures
            s@ == StoreState::empty(),
            s.wf(),
    {
        let s = Store {
            recipes: Vec::new(),
            preferences: Vec::new(),
            edges: Vec::new(),
            associations: Vec::new(),
        };
        assert(s@.recipes =~= Seq::empty());
        assert(s@.preferences =~= Seq::empty());
        s
    }

    /// The recipe with the given id, if the store has one.
    pub fn recipe_by_id(&self, id: i32) -> (r: Option<&Recipe>)
        requires
            self.wf(),
        ensures
            r is Some <==> self@.has_recipe(id),
            r matches Some(row) ==> row@ == self@.recipe(id) && row@.id == Some(id),
    {
        match position_of(&self.recipes, id) {
            Some(i) => {
                assert(self@.recipes[i as int].id == Some(id));
                Some(&self.recipes[i])
            },
            None => {
                assert forall|j: int| 0 <= j < self@.recipes.len() implies (
                #[trigger] self@.recipes[j]).id != Some(id) by {
                    assert(self.recipes@[j].id != Some(id));
                }
                None
            },
        }
    }

    /// The canonical original of a recipe: its own id where the recipe is an
    /// original, else the id its derivation edge points at. `None` where the
    /// store has no such recipe.
    pub fn original_of(&self, id: i32) -> (r: Option<i32>)
        requires
            self.wf(),
        ensures
            r is Some <==> self@.has_recipe(id),
            r matches Some(original) ==> original == self@.original_of(id) && self@.is_original(
                original,
            ),
    {
        match position_of(&self.recipes, id) {
            None => {
                assert forall|j: int| 0 <= j < self@.recipes.len() implies (
                #[trigger] self@.recipes[j]).id != Some(id) by {
                    assert(self.recipes@[j].id != Some(id));
                }
                None
            },
            Some(i) => {
                assert(self@.recipes[i as int].id == Some(id));
                if self.recipes[i].isoriginal {
                    Some(id)
                } else {
                    assert(!self@.is_original(id));
                    assert(self@.has_parent(id));
                    let mut k: usize = 0;
                    while k < self.edges.len()
                        invariant
                            k <= self.edges.len(),
                            forall|l: int| 0 <= l < k ==> (#[trigger] self.edges[l]).variation_id != id,
                            self.wf(),
                            self@.has_recipe(id),
                            !self@.is_original(id),
                            self@.has_parent(id),
                            self@.edges == self.edges@,
                        decreases self.edges.len() - k,
                    {
                        if self.edges[k].variation_id == id {
                            proof {
                                let chosen = choose|c: int|
                                    0 <= c < self@.edges.len() && (
                                    #[trigger] self@.edges[c]).variation_id == id;
                                if chosen < k {
                                    assert(self@.edges[chosen].variation_id
                                        != self@.edges[k as int].variation_id);
                                }
                                if k < chosen {
                                    assert(self@.edges[k as int].variation_id
                                        != self@.edges[chosen].variation_id);
                                }
                                assert(chosen == k as int);
                                assert(self@.is_original(self@.edges[k as int].original_id));
                            }
                            return Some(self.edges[k].original_id);
                        }
                        k += 1;
                    }
                    proof {
                        let c = choose|c: int|
                            0 <= c < self@.edges.len() && (#[trigger] self@.edges[c]).variation_id
                                == id;
                        assert(self.edges[c].variation_id != id);
                    }
                    None
                }
            },
        }
    }
    /// The ids of the variations of `original`.
    pub fn variations_of(&self, original: i32) -> (r: Vec<i32>)
        ensures
            forall|id: i32| r@.contains(id) <==> self@.has_edge(original, id),
    {
        let mut out: Vec<i32> = Vec::new();
        let mut k: usize = 0;
        while k < self.edges.len()
            invariant
                k <= self.edges.len(),
                self@.edges == self.edges@,
                forall|j: int| 0 <= j < out@.len() ==> self@.has_edge(original, #[trigger] out@[j]),
                forall|l: int|
                    0 <= l < k && (#[trigger] self.edges[l]).original_id == original
                        ==> out@.contains(self.edges[l].variation_id),
            decreases self.edges.len() - k,
        {
            let edge = self.edges[k];
            if edge.original_id == original {
                let ghost before = out@;
                out.push(edge.variation_id);
                assert(self@.edges[k as int] == edge);
                assert forall|l: int|
                    0 <= l < k + 1 && (#[trigger] self.edges[l]).original_id
                        == original implies out@.contains(self.edges[l].variation_id) by {
                    if l < k {
                        let j = choose|j: int|
                            0 <= j < before.len() && before[j] == self.edges[l].variation_id;
                        assert(out@[j] == before[j]);
                    } else {
                        assert(out@[before.len() as int] == edge.variation_id);
                    }
                }
            }
            k += 1;
        }
        assert forall|id: i32| self@.has_edge(original, id) implies out@.contains(id) by {
            let wanted = DerivationEdge { original_id: original, variation_id: id };
            let l = choose|l: int| 0 <= l < self@.edges.len() && self@.edges[l] == wanted;
            assert(self.edges[l].original_id == original);
        }
        out
    }

    /// The preference ids associated with the recipe `id`.
    pub fn fingerprint(&self, id: i32) -> (r: Vec<i32>)
        ensures
            r@.to_set() =~= self@.fingerprint(id),
    {
        let mut out: Vec<i32> = Vec::new();
        let mut k: usize = 0;
        while k < self.associations.len()
            invariant
                k <= self.associations.len(),
                self@.associations == self.associations@,
                forall|j: int|
                    0 <= j < out@.len() ==> self@.fingerprint(id).contains(#[trigger] out@[j]),
                forall|l: int|
                    0 <= l < k && (#[trigger] self.associations[l]).recipe_id == id
                        ==> out@.contains(self.associations[l].preference_id),
            decreases self.associations.len() - k,
        {
            let row = self.associations[k];
            if row.recipe_id == id {
                let ghost before = out@;
                out.push(row.preference_id);
                assert(self@.associations[k as int] == row);
                assert forall|l: int|
                    0 <= l < k + 1 && (#[trigger] self.associations[l]).recipe_id
                        == id implies out@.contains(self.associations[l].preference_id) by {
                    if l < k {
                        let j = choose|j: int|
                            0 <= j < before.len() && before[j]
                                == self.associations[l].preference_id;
                        assert(out@[j] == before[j]);
                    } else {
                        assert(out@[before.len() as int] == row.preference_id);
                    }
                }
            }
            k += 1;
        }
        assert forall|p: i32| self@.fingerprint(id).contains(p) implies out@.contains(p) by {
            let wanted = PreferenceAssociation { recipe_id: id, preference_id: p };
            let l = choose|l: int|
                0 <= l < self@.associations.len() && self@.associations[l] == wanted;
            assert(self.associations[l].recipe_id == id);
        }
        out
    }

    /// The ids of the preferences that `names` names. A name that no
    /// preference has gives no id; a name that occurs twice gives one.
    pub fn preference_ids(&self, names: &Vec<String>) -> (r: Vec<i32>)
        requires
            self.wf(),
        ensures
            r@.to_set() =~= self@.preference_ids(name_set(names@)),
            r@.no_duplicates(),
    {
        let ghost wanted = name_set(names@);
        let mut out: Vec<i32> = Vec::new();
        let mut k: usize = 0;
        while k < self.preferences.len()
            invariant
                k <= self.preferences.len(),
                self.wf(),
                wanted == name_set(names@),
                self@.preferences == preference_views(self.preferences@),
                out@.no_duplicates(),
                forall|j: int|
                    0 <= j < out@.len() ==> named_before(self@.preferences, wanted, k as int, #[trigger] out@[j]),
                forall|l: int|
                    0 <= l < k && wanted.contains((#[trigger] self@.preferences[l]).name)
                        ==> out@.contains(self@.preferences[l].id),
            decreases self.preferences.len() - k,
        {
            assert(self@.preferences[k as int] == self.preferences[k as int]@);
            if name_listed(names, &self.preferences[k].name) {
                let ghost before = out@;
                let id = self.preferences[k].id;
                assert forall|j: int| 0 <= j < before.len() implies before[j] != id by {
                    assert(named_before(self@.preferences, wanted, k as int, before[j]));
                    let l = choose|l: int|
                        0 <= l < k && (#[trigger] self@.preferences[l]).id == before[j]
                            && wanted.contains(self@.preferences[l].name);
                    assert(self@.preferences[l].id != self@.preferences[k as int].id);
                }
                out.push(id);
                assert forall|l: int|
                    0 <= l < k + 1 && wanted.contains(
                        (#[trigger] self@.preferences[l]).name,
                    ) implies out@.contains(self@.preferences[l].id) by {
                    if l < k {
                        assert(before.contains(self@.preferences[l].id));
                        let j = choose|j: int|
                            0 <= j < before.len() && before[j] == self@.preferences[l].id;
                        assert(out@[j] == self@.preferences[l].id);
                    } else {
                        assert(out@[out@.len() - 1] == id);
                    }
                }
                assert forall|j: int| 0 <= j < out@.len() implies named_before(
                    self@.preferences,
                    wanted,
                    k + 1,
                    #[trigger] out@[j],
                ) by {
                    if j < before.len() {
                        assert(out@[j] == before[j]);
                        assert(named_before(self@.preferences, wanted, k as int, before[j]));
                        let l = choose|l: int|
                            0 <= l < k && (#[trigger] self@.preferences[l]).id == before[j]
                                && wanted.contains(self@.preferences[l].name);
                        assert(self@.preferences[l].id == out@[j]);
                    } else {
                        assert(self@.preferences[k as int].id == out@[j]);
                    }
                }
            } else {
                assert forall|j: int| 0 <= j < out@.len() implies named_before(
                    self@.preferences,
                    wanted,
                    k + 1,
                    #[trigger] out@[j],
                ) by {
                    assert(named_before(self@.preferences, wanted, k as int, out@[j]));
                    let l = choose|l: int|
                        0 <= l < k && (#[trigger] self@.preferences[l]).id == out@[j]
                            && wanted.contains(self@.preferences[l].name);
                    assert(self@.preferences[l].id == out@[j]);
                }
            }
            k += 1;
        }
        assert forall|id: i32| out@.to_set().contains(id) <==> self@.preference_ids(
            wanted,
        ).contains(id) by {
            if out@.contains(id) {
                let j = choose|j: int| 0 <= j < out@.len() && out@[j] == id;
                assert(named_before(self@.preferences, wanted, k as int, out@[j]));
            }
            if self@.preference_ids(wanted).contains(id) {
                let l = choose|l: int|
                    0 <= l < self@.preferences.len() && (#[trigger] self@.preferences[l]).id == id
                        && wanted.contains(self@.preferences[l].name);
                assert(out@.contains(self@.preferences[l].id));
            }
        }
        out
    }
    /// Records a variant in one step: the content as a new recipe row that is
    /// not an original, one association for each preference id, and the edge
    /// from the new recipe to `original`.
    ///
    /// Succeeds where `new_id` is not in use, `original` is an original of the
    /// store and no preference id is given twice, and returns the new row.
    /// Else it fails with `PersistenceFailed` and the store is as it was: no
    /// row of the three kinds has been added.
    pub fn insert_variant(
        &mut self,
        new_id: i32,
        original: i32,
        content: &Recipe,
        preference_ids: &Vec<i32>,
    ) -> (r: Result<Recipe, ServiceError>)
        requires
            old(self).wf(),
        ensures
            final(self).wf(),
            r is Ok <==> !old(self)@.has_recipe(new_id) && old(self)@.is_original(original)
                && preference_ids@.no_duplicates(),
            r matches Ok(row) ==> row@ == content@.stored_as_variant(new_id) && final(self)@ == old(
                self,
            )@.with_variant(new_id, original, content@, preference_ids@),
            r matches Err(e) ==> e == ServiceError::PersistenceFailed && *final(self) == *old(self),
    {
        if self.recipe_by_id(new_id).is_some() {
            return Err(ServiceError::PersistenceFailed);
        }
        match self.recipe_by_id(original) {
            None => {
                assert(!self@.is_original(original)) by {
                    if self@.is_original(original) {
                        let i = choose|i: int|
                            0 <= i < self@.recipes.len() && (#[trigger] self@.recipes[i]).id
                                == Some(original) && self@.recipes[i].isoriginal;
                        assert(self@.has_recipe(original));
                    }
                }
                return Err(ServiceError::PersistenceFailed);
            },
            Some(row) => {
                proof {
                    self@.lemma_original_flag(original);
                }
                if !row.isoriginal {
                    return Err(ServiceError::PersistenceFailed);
                }
            },
        }
        if !all_distinct(preference_ids) {
            return Err(ServiceError::PersistenceFailed);
        }
        let ghost before = self@;
        let ghost old_recipes = self.recipes@;
        let ghost old_associations = self.associations@;
        let stored = Recipe {
            id: Some(new_id),
            title: content.title.clone(),
            description: copy_text(&content.description),
            instructions: copy_text(&content.instructions),
            preptime: content.preptime,
            difficulty: content.difficulty,
            isoriginal: false,
        };
        let answer = stored.clone();
        self.recipes.push(stored);
        self.edges.push(DerivationEdge { original_id: original, variation_id: new_id });
        let mut k: usize = 0;
        while k < preference_ids.len()
            invariant
                k <= preference_ids.len(),
                self.recipes@ == old_recipes.push(stored),
                self.preferences@ == old(self).preferences@,
                self.edges@ == old(self).edges@.push(
                    DerivationEdge { original_id: original, variation_id: new_id },
                ),
                self.associations@ == old_associations + StoreState::fingerprint_rows(
                    new_id,
                    preference_ids@.take(k as int),
                ),
            decreases preference_ids.len() - k,
        {
            self.associations.push(
                PreferenceAssociation { recipe_id: new_id, preference_id: preference_ids[k] },
            );
            assert(self.associations@ =~= old_associations + StoreState::fingerprint_rows(
                new_id,
                preference_ids@.take(k + 1),
            ));
            k += 1;
        }
        proof {
            assert(preference_ids@.take(k as int) =~= preference_ids@);
            let after = before.with_variant(new_id, original, content@, preference_ids@);
            assert(self@.recipes =~= after.recipes);
            assert(self@.preferences =~= after.preferences);
            assert(self@ == after);
            before.lemma_with_variant_wf(new_id, original, content@, preference_ids@);
        }
        Ok(answer)
    }
    /// Whether every recipe has an id of its own.
    fn recipes_keyed(&self) -> (r: bool)
        ensures
            r == self@.recipes_keyed(),
    {
        let n = self.recipes.len();
        let mut i: usize = 0;
        while i < n
            invariant
                i <= n,
                n == self.recipes.len(),
                forall|a: int| 0 <= a < i ==> (#[trigger] self.recipes[a]).id is Some,
                forall|a: int, b: int|
                    0 <= a < b < n && a < i ==> (#[trigger] self.recipes[a]).id != (
                    #[trigger] self.recipes[b]).id,
            decreases n - i,
        {
            match self.recipes[i].id {
                None => {
                    assert(self@.recipes[i as int].id is None);
                    return false;
                },
                Some(id) => {
                    let mut j: usize = i + 1;
                    while j < n
                        invariant
                            i < j <= n,
                            n == self.recipes.len(),
                            self.recipes[i as int].id == Some(id),
                            forall|b: int| i < b < j ==> (#[trigger] self.recipes[b]).id != Some(id),
                        decreases n - j,
                    {
                        match self.recipes[j].id {
                            Some(other) => {
                                if other == id {
                                    assert(self@.recipes[i as int].id == self@.recipes[j as int].id);
                                    return false;
                                }
                            },
                            None => {},
                        }
                        j += 1;
                    }
                },
            }
            i += 1;
        }
        assert forall|a: int| 0 <= a < self@.recipes.len() implies (
        #[trigger] self@.recipes[a]).id is Some by {
            assert(self.recipes[a].id is Some);
        }
        assert forall|a: int, b: int| 0 <= a < b < self@.recipes.len() implies (
        #[trigger] self@.recipes[a]).id != (#[trigger] self@.recipes[b]).id by {
            assert(self.recipes[a].id != self.recipes[b].id);
        }
        true
    }

    /// Whether the store has a recipe `id` whose row says `original` of it.
    fn has_kind(&self, id: i32, original: bool) -> (r: bool)
        requires
            self@.recipes_keyed(),
        ensures
            r == if original {
                self@.is_original(id)
            } else {
                self@.is_variant(id)
            },
    {
        match position_of(&self.recipes, id) {
            Some(i) => {
                assert(self@.recipes[i as int].id == Some(id));
                proof {
                    self@.lemma_original_flag(id);
                }
                self.recipes[i].isoriginal == original
            },
            None => {
                assert forall|j: int| 0 <= j < self@.recipes.len() implies (
                #[trigger] self@.recipes[j]).id != Some(id) by {
                    assert(self.recipes@[j].id != Some(id));
                }
                false
            },
        }
    }

    /// Whether some edge leaves the recipe `id`.
    fn has_parent(&self, id: i32) -> (r: bool)
        ensures
            r == self@.has_parent(id),
    {
        let mut k: usize = 0;
        while k < self.edges.len()
            invariant
                k <= self.edges.len(),
                forall|l: int| 0 <= l < k ==> (#[trigger] self.edges[l]).variation_id != id,
            decreases self.edges.len() - k,
        {
            if self.edges[k].variation_id == id {
                assert(self@.edges[k as int].variation_id == id);
                return true;
            }
            k += 1;
        }
        assert forall|l: int| 0 <= l < self@.edges.len() implies (
        #[trigger] self@.edges[l]).variation_id != id by {
            assert(self.edges[l].variation_id != id);
        }
        false
    }

    /// Whether the edges form a forest of depth one over the recipes.
    fn edges_flat(&self) -> (r: bool)
        requires
            self@.recipes_keyed(),
        ensures
            r == self@.edges_flat(),
    {
        let m = self.edges.len();
        let mut k: usize = 0;
        while k < m
            invariant
                k <= m,
                m == self.edges.len(),
                self@.recipes_keyed(),
                self@.edges == self.edges@,
                forall|a: int|
                    0 <= a < k ==> self@.is_original((#[trigger] self.edges[a]).original_id)
                        && self@.is_variant(self.edges[a].variation_id),
                forall|a: int, b: int|
                    0 <= a < b < m && a < k ==> (#[trigger] self.edges[a]).variation_id != (
                    #[trigger] self.edges[b]).variation_id,
            decreases m - k,
        {
            let edge = self.edges[k];
            if !self.has_kind(edge.original_id, true) || !self.has_kind(edge.variation_id, false) {
                assert(!(self@.is_original(self@.edges[k as int].original_id) && self@.is_variant(
                    self@.edges[k as int].variation_id,
                )));
                return false;
            }
            let mut l: usize = k + 1;
            while l < m
                invariant
                    k < l <= m,
                    m == self.edges.len(),
                    self@.edges == self.edges@,
                    edge == self.edges[k as int],
                    forall|b: int|
                        k < b < l ==> (#[trigger] self.edges[b]).variation_id != edge.variation_id,
                decreases m - l,
            {
                if self.edges[l].variation_id == edge.variation_id {
                    assert(self@.edges[k as int].variation_id == self@.edges[l as int].variation_id);
                    return false;
                }
                l += 1;
            }
            k += 1;
        }
        let n = self.recipes.len();
        let mut i: usize = 0;
        while i < n
            invariant
                i <= n,
                n == self.recipes.len(),
                self@.recipes == recipe_views(self.recipes@),
                forall|a: int|
                    0 <= a < i && !(#[trigger] self.recipes[a]).isoriginal && self.recipes[a].id
                        is Some ==> self@.has_parent(self.recipes[a].id->0),
            decreases n - i,
        {
            if !self.recipes[i].isoriginal {
                match self.recipes[i].id {
                    Some(id) => {
                        if !self.has_parent(id) {
                            assert(!self@.recipes[i as int].isoriginal && self@.recipes[i as int].id
                                == Some(id));
                            return false;
                        }
                    },
                    None => {},
                }
            }
            i += 1;
        }
        assert forall|a: int|
            0 <= a < self@.recipes.len() && !(#[trigger] self@.recipes[a]).isoriginal
                && self@.recipes[a].id is Some implies self@.has_parent(self@.recipes[a].id->0) by {
            assert(!self.recipes[a].isoriginal && self.recipes[a].id is Some);
        }
        true
    }

    /// Whether no two preferences share an id or a name.
    fn preferences_keyed(&self) -> (r: bool)
        ensures
            r == self@.preferences_keyed(),
    {
        let n = self.preferences.len();
        let mut i: usize = 0;
        while i < n
            invariant
                i <= n,
                n == self.preferences.len(),
                forall|a: int, b: int|
                    0 <= a < b < n && a < i ==> (#[trigger] self.preferences[a]).id != (
                    #[trigger] self.preferences[b]).id && self.preferences[a].name@
                        != self.preferences[b].name@,
            decreases n - i,
        {
            let mut j: usize = i + 1;
            while j < n
                invariant
                    i < j <= n,
                    n == self.preferences.len(),
                    forall|b: int|
                        i < b < j ==> self.preferences[i as int].id != (
                        #[trigger] self.preferences[b]).id && self.preferences[i as int].name@
                            != self.preferences[b].name@,
                decreases n - j,
            {
                if self.preferences[i].id == self.preferences[j].id || self.preferences[i].name
                    == self.preferences[j].name {
                    assert(self@.preferences[i as int].id == self@.preferences[j as int].id
                        || self@.preferences[i as int].name == self@.preferences[j as int].name);
                    return false;
                }
                j += 1;
            }
            i += 1;
        }
        assert forall|a: int, b: int| 0 <= a < b < self@.preferences.len() implies (
        #[trigger] self@.preferences[a]).id != (#[trigger] self@.preferences[b]).id
            && self@.preferences[a].name != self@.preferences[b].name by {
            assert(self.preferences[a].id != self.preferences[b].id);
        }
        true
    }

    /// Whether every association belongs to a recipe and none occurs twice.
    fn associations_sound(&self) -> (r: bool)
        ensures
            r == self@.associations_sound(),
    {
        let n = self.associations.len();
        let mut k: usize = 0;
        while k < n
            invariant
                k <= n,
                n == self.associations.len(),
                self@.associations == self.associations@,
                self@.recipes == recipe_views(self.recipes@),
                forall|a: int|
                    0 <= a < k ==> self@.has_recipe((#[trigger] self.associations[a]).recipe_id),
                forall|a: int, b: int|
                    0 <= a < b < n && a < k ==> (#[trigger] self.associations[a]) != (
                    #[trigger] self.associations[b]),
            decreases n - k,
        {
            let row = self.associations[k];
            match position_of(&self.recipes, row.recipe_id) {
                Some(i) => {
                    assert(self@.recipes[i as int].id == Some(row.recipe_id));
                },
                None => {
                    assert forall|j: int| 0 <= j < self@.recipes.len() implies (
                    #[trigger] self@.recipes[j]).id != Some(row.recipe_id) by {
                        assert(self.recipes@[j].id != Some(row.recipe_id));
                    }
                    assert(!self@.has_recipe(self@.associations[k as int].recipe_id));
                    return false;
                },
            }
            let mut l: usize = k + 1;
            while l < n
                invariant
                    k < l <= n,
                    n == self.associations.len(),
                    self@.associations == self.associations@,
                    row == self.associations[k as int],
                    forall|b: int| k < b < l ==> (#[trigger] self.associations[b]) != row,
                decreases n - l,
            {
                let other = self.associations[l];
                if other.recipe_id == row.recipe_id && other.preference_id == row.preference_id {
                    assert(self@.associations[k as int] == self@.associations[l as int]);
                    return false;
                }
                l += 1;
            }
            k += 1;
        }
        true
    }

    /// A store of the given rows, where they meet the invariant: every recipe
    /// has an id of its own; every edge leads from a variant to an original,
    /// and every variant has exactly one edge; no two preferences share an id
    /// or a name; every association belongs to a recipe and none occurs
    /// twice. `None` where they do not.
    pub fn from_rows(
        recipes: Vec<Recipe>,
        preferences: Vec<Preference>,
        edges: Vec<DerivationEdge>,
        associations: Vec<PreferenceAssociation>,
    ) -> (r: Option<Store>)
        ensures
            r is Some <==> rows_view(recipes@, preferences@, edges@, associations@).wf(),
            r matches Some(store) ==> store@ == rows_view(
                recipes@,
                preferences@,
                edges@,
                associations@,
            ),
    {
        let store = Store { recipes, preferences, edges, associations };
        if store.recipes_keyed() && store.edges_flat() && store.preferences_keyed()
            && store.associations_sound() {
            Some(store)
        } else {
            None
        }
    }
}

} // verus!
