//! The rows of the four relations, and their mathematical views.

use vstd::prelude::*;

verus! {

/// What a recipe row holds, with texts as sequences of characters.
pub struct RecipeView {
    pub id: Option<i32>,
    pub title: Seq<char>,
    pub description: Option<Seq<char>>,
    pub instructions: Option<Seq<char>>,
    pub preptime: Option<i32>,
    pub difficulty: Option<i32>,
    pub isoriginal: bool,
}

/// A recipe. A stored row has an id; generated content that has not been
/// stored yet has none.
#[derive(Debug)]
pub struct Recipe {
    pub id: Option<i32>,
    pub title: String,
    pub description: Option<String>,
    pub instructions: Option<String>,
    pub preptime: Option<i32>,
    pub difficulty: Option<i32>,
    pub isoriginal: bool,
}

/// The characters of an optional text.
pub open spec fn text_of(text: Option<String>) -> Option<Seq<char>> {
    match text {
        Some(s) => Some(s@),
        None => None,
    }
}

impl View for Recipe {
    type V = RecipeView;

    open spec fn view(&self) -> RecipeView {
        RecipeView {
            id: self.id,
            title: self.title@,
            description: text_of(self.description),
            instructions: text_of(self.instructions),
            preptime: self.preptime,
            difficulty: self.difficulty,
            isoriginal: self.isoriginal,
        }
    }
}

/// A copy of an optional text.
pub fn copy_text(text: &Option<String>) -> (r: Option<String>)
    ensures
        r == *text,
{
    match text {
        Some(s) => Some(s.clone()),
        None => None,
    }
}

impl Clone for Recipe {
    fn clone(&self) -> (r: Recipe)
        ensures
            r == *self,
    {
        Recipe {
            id: self.id,
            title: self.title.clone(),
            description: copy_text(&self.description),
            instructions: copy_text(&self.instructions),
            preptime: self.preptime,
            difficulty: self.difficulty,
            isoriginal: self.isoriginal,
        }
    }
}

impl RecipeView {
    /// The same content as a stored variant with the given id.
    pub open spec fn stored_as_variant(self, id: i32) -> RecipeView {
        RecipeView { id: Some(id), isoriginal: false, ..self }
    }
}

/// A preference: an id and a unique name.
#[derive(Debug)]
pub struct Preference {
    pub id: i32,
    pub name: String,
}

/// What a preference row holds.
pub struct PreferenceView {
    pub id: i32,
    pub name: Seq<char>,
}

impl View for Preference {
    type V = PreferenceView;

    open spec fn view(&self) -> PreferenceView {
        PreferenceView { id: self.id, name: self.name@ }
    }
}

/// The link from a variant to the original it descends from.
#[derive(Debug, Clone, Copy, PartialEq, Eq, Structural)]
pub struct DerivationEdge {
    pub original_id: i32,
    pub variation_id: i32,
}

/// One member of a recipe's fingerprint.
#[derive(Debug, Clone, Copy, PartialEq, Eq, Structural)]
pub struct PreferenceAssociation {
    pub recipe_id: i32,
    pub preference_id: i32,
}

/// The preferences a request asks for, by name.
#[derive(Debug)]
pub struct PrefParam {
    pub preferences: Vec<String>,
}

/// The names in a list, as a set of texts.
pub open spec fn name_set(names: Seq<String>) -> Set<Seq<char>> {
    Set::new(|name: Seq<char>| exists|i: int| 0 <= i < names.len() && (#[trigger] names[i])@ == name)
}

} // verus!
