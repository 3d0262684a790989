use recipe_variants::model::ServiceError;
use recipe_variants::recipe::{DerivationEdge, PrefParam, Preference, PreferenceAssociation, Recipe};
use recipe_variants::resolver::resolve;
use recipe_variants::service::{
    accept_generation, copy_names, get_preferred_recipe, get_recipe_by_id, record_variant,
    GenerationRequest, Lookup,
};
use recipe_variants::store::Store;

fn stored(id: i32, title: &str, original: bool) -> Recipe {
    Recipe {
        id: Some(id),
        title: title.to_string(),
        description: Some("as written".to_string()),
        instructions: None,
        preptime: Some(60),
        difficulty: None,
        isoriginal: original,
    }
}

fn kitchen() -> Store {
    Store::from_rows(
        vec![stored(1, "Stew", true), stored(10, "Vegan stew", false)],
        vec![
            Preference { id: 1, name: "vegan".to_string() },
            Preference { id: 2, name: "quick".to_string() },
        ],
        vec![DerivationEdge { original_id: 1, variation_id: 10 }],
        vec![PreferenceAssociation { recipe_id: 10, preference_id: 1 }],
    )
    .unwrap()
}

fn asked(items: &[&str]) -> PrefParam {
    PrefParam { preferences: items.iter().map(|s| s.to_string()).collect() }
}

fn reply(content: &str) -> String {
    let mut message = serde_json::Map::new();
    message.insert("content".to_string(), serde_json::Value::String(content.to_string()));
    let mut choice = serde_json::Map::new();
    choice.insert("message".to_string(), serde_json::Value::Object(message));
    let mut body = serde_json::Map::new();
    body.insert(
        "choices".to_string(),
        serde_json::Value::Array(vec![serde_json::Value::Object(choice)]),
    );
    serde_json::Value::Object(body).to_string()
}

fn expect_request(lookup: Result<Lookup, ServiceError>) -> GenerationRequest {
    match lookup {
        Ok(Lookup::Generate(request)) => request,
        other => panic!("expected a request for the generator, got {:?}", other),
    }
}

#[test]
fn a_hit_returns_the_stored_row() {
    let store = kitchen();
    match get_recipe_by_id(&store, 1, &asked(&["vegan"]).preferences) {
        Ok(Lookup::Found(row)) => {
            assert_eq!(row.id, Some(10));
            assert_eq!(row.title, "Vegan stew");
            assert_eq!(row.preptime, Some(60));
            assert!(!row.isoriginal);
        }
        other => panic!("expected a hit, got {:?}", other),
    }
    match get_recipe_by_id(&store, 10, &asked(&[]).preferences) {
        Ok(Lookup::Found(row)) => {
            assert_eq!(row.id, Some(1));
            assert!(row.isoriginal);
        }
        other => panic!("expected a hit, got {:?}", other),
    }
}

#[test]
fn an_unknown_recipe_ends_the_request() {
    let store = kitchen();
    match get_recipe_by_id(&store, 5, &asked(&["vegan"]).preferences) {
        Err(error) => assert_eq!(error, ServiceError::NotFound),
        other => panic!("expected NotFound, got {:?}", other),
    }
}

#[test]
fn a_miss_asks_for_a_variant_of_the_original() {
    let store = kitchen();
    let request = expect_request(get_recipe_by_id(&store, 10, &asked(&["quick", "vegan"]).preferences));
    assert_eq!(request.original.id, Some(1));
    assert_eq!(request.original.title, "Stew");
    assert!(request.original.isoriginal);
    assert_eq!(request.preferences, vec!["quick".to_string(), "vegan".to_string()]);
}

#[test]
fn a_failed_call_is_a_failed_generation() {
    assert_eq!(accept_generation(None).err(), Some(ServiceError::GenerationFailed));
    assert_eq!(accept_generation(Some("<html>")).err(), Some(ServiceError::GenerationFailed));
    let good = accept_generation(Some(&reply(r#"{"title":"Quick stew"}"#))).unwrap();
    assert_eq!(good.title, "Quick stew");
}

#[test]
fn the_whole_request_from_miss_to_recorded_variant() {
    let mut store = kitchen();
    let wanted = asked(&["quick"]);
    let request = expect_request(get_recipe_by_id(&store, 10, &wanted.preferences));
    let candidate =
        accept_generation(Some(&reply(r#"{"title":"Quick stew","preptime":15}"#))).unwrap();
    let row = record_variant(&mut store, &request, &candidate, Some(11)).unwrap();
    assert_eq!(row.id, Some(11));
    assert_eq!(row.title, "Quick stew");
    assert_eq!(row.preptime, Some(15));
    assert!(!row.isoriginal);
    assert_eq!(store.original_of(11), Some(1));
    assert_eq!(store.fingerprint(11), vec![2]);
    match get_recipe_by_id(&store, 1, &wanted.preferences) {
        Ok(Lookup::Found(found)) => assert_eq!(found.id, Some(11)),
        other => panic!("expected a hit, got {:?}", other),
    }
}

#[test]
fn malformed_content_writes_nothing_and_can_be_retried() {
    let mut store = kitchen();
    let wanted = asked(&["quick"]);
    let request = expect_request(get_recipe_by_id(&store, 1, &wanted.preferences));
    let failed = accept_generation(Some(&reply(r#"{"description":"no title"}"#)));
    assert_eq!(failed.err(), Some(ServiceError::GenerationFailed));
    assert_eq!(store.variations_of(1), vec![10]);
    assert_eq!(resolve(&store, 1, &wanted.preferences), Ok(None));
    let candidate = accept_generation(Some(&reply(r#"{"title":"Quick stew"}"#))).unwrap();
    let row = record_variant(&mut store, &request, &candidate, Some(12)).unwrap();
    assert_eq!(row.id, Some(12));
    assert_eq!(resolve(&store, 1, &wanted.preferences), Ok(Some(12)));
}

#[test]
fn a_failed_write_is_a_failed_persistence() {
    let mut store = kitchen();
    let request = expect_request(get_recipe_by_id(&store, 1, &asked(&["quick"]).preferences));
    let candidate = accept_generation(Some(&reply(r#"{"title":"Quick stew"}"#))).unwrap();
    assert_eq!(
        record_variant(&mut store, &request, &candidate, None).err(),
        Some(ServiceError::PersistenceFailed)
    );
    assert_eq!(
        record_variant(&mut store, &request, &candidate, Some(10)).err(),
        Some(ServiceError::PersistenceFailed)
    );
    let stray = GenerationRequest { original: candidate.clone(), preferences: vec![] };
    assert_eq!(
        record_variant(&mut store, &stray, &candidate, Some(11)).err(),
        Some(ServiceError::PersistenceFailed)
    );
    assert_eq!(store.variations_of(1), vec![10]);
    assert!(store.recipe_by_id(11).is_none());
    assert_eq!(resolve(&store, 1, &asked(&["quick"]).preferences), Ok(None));
}

#[test]
fn names_are_copied_as_they_are() {
    let names = asked(&["b", "a", "b"]).preferences;
    assert_eq!(copy_names(&names), names);
    assert_eq!(copy_names(&Vec::new()), Vec::<String>::new());
}

#[test]
fn a_whole_request_that_hits_looks_at_nothing_else() {
    let mut store = kitchen();
    let row = get_preferred_recipe(&mut store, 1, &asked(&["vegan"]).preferences, None, None)
        .unwrap();
    assert_eq!(row.id, Some(10));
    assert_eq!(row.title, "Vegan stew");
    let row = get_preferred_recipe(&mut store, 10, &asked(&[]).preferences, None, Some(10))
        .unwrap();
    assert_eq!(row.id, Some(1));
    assert_eq!(store.variations_of(1), vec![10]);
}

#[test]
fn a_whole_request_for_an_unknown_recipe_is_not_found() {
    let mut store = kitchen();
    let answer = reply(r#"{"title":"Quick stew"}"#);
    let outcome =
        get_preferred_recipe(&mut store, 3, &asked(&["quick"]).preferences, Some(&answer), Some(11));
    assert_eq!(outcome.err(), Some(ServiceError::NotFound));
    assert!(store.recipe_by_id(11).is_none());
}

#[test]
fn a_whole_request_that_misses_records_the_generated_variant() {
    let mut store = kitchen();
    let wanted = asked(&["vegan", "quick"]).preferences;
    let answer = reply(r#"{"title":"Quick vegan stew","difficulty":3}"#);
    let row = get_preferred_recipe(&mut store, 10, &wanted, Some(&answer), Some(11)).unwrap();
    assert_eq!(row.id, Some(11));
    assert_eq!(row.title, "Quick vegan stew");
    assert_eq!(row.difficulty, Some(3));
    assert!(!row.isoriginal);
    assert_eq!(store.original_of(11), Some(1));
    assert_eq!(store.variations_of(1), vec![10, 11]);
    let mut fingerprint = store.fingerprint(11);
    fingerprint.sort();
    assert_eq!(fingerprint, vec![1, 2]);
    let again = get_preferred_recipe(&mut store, 1, &wanted, None, None).unwrap();
    assert_eq!(again.id, Some(11));
    let other = get_preferred_recipe(&mut store, 11, &asked(&["vegan"]).preferences, None, None)
        .unwrap();
    assert_eq!(other.id, Some(10));
}

#[test]
fn a_whole_request_fails_with_the_generator_and_writes_nothing() {
    let mut store = kitchen();
    let wanted = asked(&["quick"]).preferences;
    let without_title = reply(r#"{"description":"no title"}"#);
    for answer in [None, Some("not json"), Some(without_title.as_str())] {
        let outcome = get_preferred_recipe(&mut store, 1, &wanted, answer, Some(11));
        assert_eq!(outcome.err(), Some(ServiceError::GenerationFailed));
        assert!(store.recipe_by_id(11).is_none());
        assert_eq!(store.variations_of(1), vec![10]);
        assert_eq!(resolve(&store, 1, &wanted), Ok(None));
    }
}

#[test]
fn a_whole_request_fails_with_storage_and_writes_nothing() {
    let mut store = kitchen();
    let wanted = asked(&["quick"]).preferences;
    let answer = reply(r#"{"title":"Quick stew"}"#);
    for stored_id in [None, Some(1), Some(10)] {
        let outcome = get_preferred_recipe(&mut store, 1, &wanted, Some(&answer), stored_id);
        assert_eq!(outcome.err(), Some(ServiceError::PersistenceFailed));
        assert_eq!(store.variations_of(1), vec![10]);
        assert_eq!(store.fingerprint(10), vec![1]);
        assert_eq!(resolve(&store, 1, &wanted), Ok(None));
    }
    let retried = get_preferred_recipe(&mut store, 1, &wanted, Some(&answer), Some(12)).unwrap();
    assert_eq!(retried.id, Some(12));
}
