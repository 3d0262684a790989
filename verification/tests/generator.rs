use recipe_variants::generator::{
    authorization, build_prompt, candidate_from_value, content_from_value, join_names,
    read_response, Config, MODEL, SYSTEM_PROMPT,
};
use recipe_variants::model::ServiceError;

fn document(text: &str) -> serde_json::Value {
    serde_json::from_str::<serde_json::Value>(text).unwrap()
}

fn reply_with(content: &str) -> String {
    let mut message = serde_json::Map::new();
    message.insert("role".to_string(), serde_json::Value::String("assistant".to_string()));
    message.insert("content".to_string(), serde_json::Value::String(content.to_string()));
    let mut choice = serde_json::Map::new();
    choice.insert("index".to_string(), serde_json::Value::from(0));
    choice.insert("message".to_string(), serde_json::Value::Object(message));
    let mut reply = serde_json::Map::new();
    reply.insert("id".to_string(), serde_json::Value::String("chatcmpl-1".to_string()));
    reply.insert(
        "choices".to_string(),
        serde_json::Value::Array(vec![serde_json::Value::Object(choice)]),
    );
    serde_json::Value::Object(reply).to_string()
}

fn texts(items: &[&str]) -> Vec<String> {
    items.iter().map(|s| s.to_string()).collect()
}

#[test]
fn a_full_document_gives_the_whole_recipe() {
    let recipe = candidate_from_value(&document(
        r#"{"title":"Chili sin carne","description":"Beans","instructions":"Cook.","preptime":30,"difficulty":1,"ingredients":["beans"],"isoriginal":true,"id":4}"#,
    ))
    .unwrap();
    assert_eq!(recipe.id, None);
    assert_eq!(recipe.title, "Chili sin carne");
    assert_eq!(recipe.description.as_deref(), Some("Beans"));
    assert_eq!(recipe.instructions.as_deref(), Some("Cook."));
    assert_eq!(recipe.preptime, Some(30));
    assert_eq!(recipe.difficulty, Some(1));
    assert!(!recipe.isoriginal);
}

#[test]
fn absent_and_null_members_give_no_value() {
    let recipe = candidate_from_value(&document(
        r#"{"title":"Bread","description":null,"preptime":null,"difficulty":-3}"#,
    ))
    .unwrap();
    assert_eq!(recipe.title, "Bread");
    assert_eq!(recipe.description, None);
    assert_eq!(recipe.instructions, None);
    assert_eq!(recipe.preptime, None);
    assert_eq!(recipe.difficulty, Some(-3));
    let bare = candidate_from_value(&document(r#"{"title":""}"#)).unwrap();
    assert_eq!(bare.title, "");
    assert_eq!(bare.difficulty, None);
}

#[test]
fn a_missing_title_is_a_failed_generation() {
    let outcome = candidate_from_value(&document(r#"{"description":"Beans","preptime":30}"#));
    assert_eq!(outcome.err(), Some(ServiceError::GenerationFailed));
    let outcome = candidate_from_value(&document(r#"{}"#));
    assert_eq!(outcome.err(), Some(ServiceError::GenerationFailed));
}

#[test]
fn a_title_of_the_wrong_type_is_a_failed_generation() {
    for text in [r#"{"title":null}"#, r#"{"title":5}"#, r#"{"title":["a"]}"#, r#"{"title":{"a":1}}"#] {
        assert_eq!(
            candidate_from_value(&document(text)).err(),
            Some(ServiceError::GenerationFailed)
        );
    }
}

#[test]
fn a_text_member_of_the_wrong_type_is_a_failed_generation() {
    for text in [
        r#"{"title":"a","description":5}"#,
        r#"{"title":"a","description":false}"#,
        r#"{"title":"a","instructions":["step"]}"#,
        r#"{"title":"a","instructions":{}}"#,
    ] {
        assert_eq!(
            candidate_from_value(&document(text)).err(),
            Some(ServiceError::GenerationFailed)
        );
    }
}

#[test]
fn a_number_member_must_be_an_integer_that_fits() {
    for text in [
        r#"{"title":"a","preptime":"30"}"#,
        r#"{"title":"a","preptime":30.5}"#,
        r#"{"title":"a","preptime":30.0}"#,
        r#"{"title":"a","preptime":2147483648}"#,
        r#"{"title":"a","difficulty":-2147483649}"#,
        r#"{"title":"a","difficulty":18446744073709551615}"#,
        r#"{"title":"a","difficulty":true}"#,
    ] {
        assert_eq!(
            candidate_from_value(&document(text)).err(),
            Some(ServiceError::GenerationFailed)
        );
    }
    let edge = candidate_from_value(&document(
        r#"{"title":"a","preptime":2147483647,"difficulty":-2147483648}"#,
    ))
    .unwrap();
    assert_eq!(edge.preptime, Some(2147483647));
    assert_eq!(edge.difficulty, Some(-2147483648));
}

#[test]
fn a_document_that_is_no_object_is_a_failed_generation() {
    for text in [r#"null"#, r#"["title"]"#, r#""title""#, r#"7"#, r#"true"#] {
        assert_eq!(
            candidate_from_value(&document(text)).err(),
            Some(ServiceError::GenerationFailed)
        );
    }
}

#[test]
fn the_content_is_the_text_of_the_first_choice() {
    let reply = document(
        r#"{"choices":[{"message":{"content":"first"}},{"message":{"content":"second"}}]}"#,
    );
    assert_eq!(content_from_value(&reply).as_deref(), Some("first"));
}

#[test]
fn a_reply_without_content_has_none() {
    for text in [
        r#"{}"#,
        r#"{"choices":[]}"#,
        r#"{"choices":{"message":{"content":"x"}}}"#,
        r#"{"choices":[{"text":"x"}]}"#,
        r#"{"choices":[{"message":{}}]}"#,
        r#"{"choices":[{"message":{"content":null}}]}"#,
        r#"{"choices":[{"message":{"content":{"title":"x"}}}]}"#,
        r#"{"choices":[["message"]]}"#,
        r#"{"error":{"message":"quota"}}"#,
        r#"[{"choices":[]}]"#,
    ] {
        assert_eq!(content_from_value(&document(text)), None);
    }
}

#[test]
fn a_well_formed_reply_is_read_to_the_end() {
    let recipe = read_response(&reply_with(
        r#"{"title":"Tofu curry","instructions":"Fry, then simmer.","preptime":25}"#,
    ))
    .unwrap();
    assert_eq!(recipe.title, "Tofu curry");
    assert_eq!(recipe.description, None);
    assert_eq!(recipe.instructions.as_deref(), Some("Fry, then simmer."));
    assert_eq!(recipe.preptime, Some(25));
    assert_eq!(recipe.id, None);
    assert!(!recipe.isoriginal);
}

#[test]
fn content_without_title_is_a_failed_generation() {
    let outcome = read_response(&reply_with(r#"{"description":"no title here","preptime":5}"#));
    assert_eq!(outcome.err(), Some(ServiceError::GenerationFailed));
}

#[test]
fn a_reply_that_cannot_be_read_is_a_failed_generation() {
    for reply in [
        "".to_string(),
        "Service unavailable".to_string(),
        r#"{"choices":[]}"#.to_string(),
        r#"{"choices":[{"message":{"content":"not json"}}]}"#.to_string(),
        r#"{"choices":[{"message":{"content":"{\"title\":\"cut"}}]}"#.to_string(),
        reply_with(r#"{"title":"a"} trailing"#),
        reply_with(r#"[]"#),
    ] {
        assert_eq!(read_response(&reply).err(), Some(ServiceError::GenerationFailed));
    }
}

#[test]
fn names_are_joined_with_comma_and_space() {
    assert_eq!(join_names(&texts(&[])), "");
    assert_eq!(join_names(&texts(&["vegan"])), "vegan");
    assert_eq!(join_names(&texts(&["vegan", "quick"])), "vegan, quick");
    assert_eq!(join_names(&texts(&["a", "", "b", "a"])), "a, , b, a");
}

#[test]
fn the_prompt_holds_the_recipe_then_the_preferences() {
    assert_eq!(
        build_prompt(r#"{"id":1,"title":"Stew"}"#, &texts(&["vegan", "quick"])),
        r#"Recipe: {"id":1,"title":"Stew"}, preferences: vegan, quick"#
    );
    assert_eq!(build_prompt("{}", &texts(&[])), "Recipe: {}, preferences: ");
}

#[test]
fn the_credential_is_a_bearer_token() {
    let config = Config {
        database_url: "postgres://localhost/recipes".to_string(),
        openai_key: "k-123".to_string(),
    };
    assert_eq!(authorization(&config), "Bearer k-123");
}

#[test]
fn the_task_asks_for_json_with_a_title() {
    assert!(SYSTEM_PROMPT.starts_with("Given a recipe in JSON format"));
    assert!(SYSTEM_PROMPT.contains("\"title\": \"Recipe Title\""));
    assert_eq!(MODEL, "gpt-4-1106-preview");
}
