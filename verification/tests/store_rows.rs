use recipe_variants::idset::{all_distinct, contains_id, included, same_members};
use recipe_variants::recipe::{DerivationEdge, Preference, PreferenceAssociation, Recipe};
use recipe_variants::store::Store;

fn recipe(id: Option<i32>, original: bool) -> Recipe {
    Recipe {
        id,
        title: "Dish".to_string(),
        description: None,
        instructions: None,
        preptime: None,
        difficulty: None,
        isoriginal: original,
    }
}

fn preference(id: i32, name: &str) -> Preference {
    Preference { id, name: name.to_string() }
}

fn link(original: i32, variation: i32) -> DerivationEdge {
    DerivationEdge { original_id: original, variation_id: variation }
}

fn assoc(recipe: i32, preference: i32) -> PreferenceAssociation {
    PreferenceAssociation { recipe_id: recipe, preference_id: preference }
}

#[test]
fn an_empty_store_is_accepted() {
    let store = Store::from_rows(vec![], vec![], vec![], vec![]).unwrap();
    assert!(store.recipe_by_id(1).is_none());
    assert_eq!(store.original_of(1), None);
    assert!(Store::new().recipe_by_id(0).is_none());
}

#[test]
fn sound_rows_are_accepted_and_can_be_looked_up() {
    let store = Store::from_rows(
        vec![recipe(Some(2), true), recipe(Some(-4), false), recipe(Some(9), true)],
        vec![preference(1, "vegan"), preference(2, "quick")],
        vec![link(2, -4)],
        vec![assoc(-4, 2), assoc(-4, 77), assoc(2, 1)],
    )
    .unwrap();
    assert_eq!(store.recipe_by_id(-4).unwrap().id, Some(-4));
    assert_eq!(store.original_of(-4), Some(2));
    assert_eq!(store.original_of(2), Some(2));
    assert_eq!(store.original_of(9), Some(9));
    assert_eq!(store.original_of(5), None);
    assert_eq!(store.variations_of(2), vec![-4]);
    assert_eq!(store.variations_of(9), Vec::<i32>::new());
    assert_eq!(store.fingerprint(-4), vec![2, 77]);
    assert_eq!(store.fingerprint(2), vec![1]);
    assert_eq!(store.preference_ids(&vec!["quick".to_string(), "vegan".to_string()]), vec![1, 2]);
}

#[test]
fn a_recipe_without_an_id_is_refused() {
    assert!(Store::from_rows(vec![recipe(None, true)], vec![], vec![], vec![]).is_none());
}

#[test]
fn two_recipes_with_one_id_are_refused() {
    let rows = vec![recipe(Some(1), true), recipe(Some(2), true), recipe(Some(1), true)];
    assert!(Store::from_rows(rows, vec![], vec![], vec![]).is_none());
}

#[test]
fn a_variant_without_an_edge_is_refused() {
    let rows = vec![recipe(Some(1), true), recipe(Some(2), false)];
    assert!(Store::from_rows(rows, vec![], vec![], vec![]).is_none());
}

#[test]
fn a_variant_with_two_edges_is_refused() {
    let rows = vec![recipe(Some(1), true), recipe(Some(2), true), recipe(Some(3), false)];
    assert!(Store::from_rows(rows, vec![], vec![link(1, 3), link(2, 3)], vec![]).is_none());
    let rows = vec![recipe(Some(1), true), recipe(Some(3), false)];
    assert!(Store::from_rows(rows, vec![], vec![link(1, 3), link(1, 3)], vec![]).is_none());
}

#[test]
fn an_edge_to_a_variant_is_refused() {
    let rows = vec![recipe(Some(1), true), recipe(Some(2), false), recipe(Some(3), false)];
    assert!(Store::from_rows(rows, vec![], vec![link(1, 2), link(2, 3)], vec![]).is_none());
}

#[test]
fn an_edge_from_an_original_is_refused() {
    let rows = vec![recipe(Some(1), true), recipe(Some(2), true)];
    assert!(Store::from_rows(rows, vec![], vec![link(1, 2)], vec![]).is_none());
}

#[test]
fn an_edge_between_unknown_recipes_is_refused() {
    let rows = vec![recipe(Some(1), true)];
    assert!(Store::from_rows(rows, vec![], vec![link(1, 5)], vec![]).is_none());
    let rows = vec![recipe(Some(1), true), recipe(Some(2), false)];
    assert!(Store::from_rows(rows, vec![], vec![link(8, 2)], vec![]).is_none());
}

#[test]
fn preferences_that_share_an_id_or_a_name_are_refused() {
    let shared_id = vec![preference(1, "vegan"), preference(1, "quick")];
    assert!(Store::from_rows(vec![], shared_id, vec![], vec![]).is_none());
    let shared_name = vec![preference(1, "vegan"), preference(2, "vegan")];
    assert!(Store::from_rows(vec![], shared_name, vec![], vec![]).is_none());
}

#[test]
fn a_repeated_or_stray_association_is_refused() {
    let rows = vec![recipe(Some(1), true)];
    assert!(Store::from_rows(rows, vec![], vec![], vec![assoc(1, 3), assoc(1, 4), assoc(1, 3)])
        .is_none());
    let rows = vec![recipe(Some(1), true)];
    assert!(Store::from_rows(rows, vec![], vec![], vec![assoc(2, 3)]).is_none());
}

#[test]
fn id_lists_read_as_sets() {
    assert!(contains_id(&vec![3, 1, 2], 1));
    assert!(!contains_id(&vec![3, 1, 2], 4));
    assert!(!contains_id(&vec![], 0));
    assert!(included(&vec![1, 1, 2], &vec![2, 1]));
    assert!(included(&vec![], &vec![]));
    assert!(!included(&vec![1, 3], &vec![1, 2]));
    assert!(same_members(&vec![1, 2, 2], &vec![2, 1]));
    assert!(same_members(&vec![], &vec![]));
    assert!(!same_members(&vec![1], &vec![1, 2]));
    assert!(!same_members(&vec![1, 2], &vec![1]));
    assert!(!same_members(&vec![], &vec![0]));
    assert!(all_distinct(&vec![]));
    assert!(all_distinct(&vec![4, 2, 9]));
    assert!(!all_distinct(&vec![4, 2, 4]));
    assert!(!all_distinct(&vec![1, 2, 2]));
}
