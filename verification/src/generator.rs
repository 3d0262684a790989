//! The recipe generator client, without its transport: the prompt that is
//! sent, and the strict reading of what comes back.

use vstd::prelude::*;
use vstd::string::*;
use crate::json::{Json, as_integer, as_text, element, is_null, json_model, json_parse, member, parse};
use crate::model::ServiceError;
use crate::recipe::{Recipe, RecipeView};

verus! {

/// The member `key` of an object; `None` for an absent key and for a
/// document that is no object.
pub open spec fn field(document: Json, key: Seq<char>) -> Option<Json> {
    match document {
        Json::Object(members) => if members.contains_key(key) {
            Some(members[key])
        } else {
            None
        },
        _ => None,
    }
}

/// An optional text member: no text where the key is absent or null, the
/// text where the member is a string. `None` where the member is anything else.
pub open spec fn optional_text(document: Json, key: Seq<char>) -> Option<Option<Seq<char>>> {
    match field(document, key) {
        None => Some(None),
        Some(Json::Null) => Some(None),
        Some(Json::Text(text)) => Some(Some(text)),
        Some(_) => None,
    }
}

/// An optional number member: no number where the key is absent or null,
/// the number where the member is an integer that fits in `i32`. `None`
/// where the member is anything else.
pub open spec fn optional_number(document: Json, key: Seq<char>) -> Option<Option<i32>> {
    match field(document, key) {
        None => Some(None),
        Some(Json::Null) => Some(None),
        Some(Json::Integer(number)) => if i32::MIN <= number <= i32::MAX {
            Some(Some(number as i32))
        } else {
            None
        },
        Some(_) => None,
    }
}

/// The recipe that a document describes: an object with a title that is a
/// string, and with a description, instructions, a preparation time and a
/// difficulty that are each absent, null or of their type. `None` where the
/// document is anything else. The recipe has no id and is no original.
pub open spec fn candidate_of(document: Json) -> Option<RecipeView> {
    match (
        field(document, "title"@),
        optional_text(document, "description"@),
        optional_text(document, "instructions"@),
        optional_number(document, "preptime"@),
        optional_number(document, "difficulty"@),
    ) {
        (
            Some(Json::Text(title)),
            Some(description),
            Some(instructions),
            Some(preptime),
            Some(difficulty),
        ) => Some(
            RecipeView {
                id: None,
                title,
                description,
                instructions,
                preptime,
                difficulty,
                isoriginal: false,
            },
        ),
        _ => None,
    }
}

/// The text that a reply of the generation service carries: the string at
/// `choices[0].message.content`. `None` where the reply has no such string.
pub open spec fn response_content(reply: Json) -> Option<Seq<char>> {
    match field(reply, "choices"@) {
        Some(Json::Array(choices)) => if choices.len() > 0 {
            match field(choices[0], "message"@) {
                Some(message) => match field(message, "content"@) {
                    Some(Json::Text(content)) => Some(content),
                    _ => None,
                },
                None => None,
            }
        } else {
            None
        },
        _ => None,
    }
}

/// The recipe that the text of a reply carries: the reply is a JSON
/// document, its content is a JSON document in turn, and that document
/// describes a recipe. `None` where any of the three fails.
pub open spec fn generated_recipe(reply: Seq<char>) -> Option<RecipeView> {
    match json_parse(reply) {
        Some(document) => match response_content(document) {
            Some(content) => match json_parse(content) {
                Some(inner) => candidate_of(inner),
                None => None,
            },
            None => None,
        },
        None => None,
    }
}

/// Reads an optional text member.
fn read_optional_text(document: &serde_json::Value, key: &str) -> (r: Option<Option<String>>)
    ensures
        match optional_text(json_model(*document), key@) {
            Some(text) => r matches Some(found) && crate::recipe::text_of(found) == text,
            None => r is None,
        },
{
    match member(document, key) {
        None => Some(None),
        Some(value) => {
            if is_null(value) {
                Some(None)
            } else {
                match as_text(value) {
                    Some(text) => Some(Some(text.to_owned())),
                    None => None,
                }
            }
        },
    }
}

/// Reads an optional number member.
fn read_optional_number(document: &serde_json::Value, key: &str) -> (r: Option<Option<i32>>)
    ensures
        r == optional_number(json_model(*document), key@),
{
    match member(document, key) {
        None => Some(None),
        Some(value) => {
            if is_null(value) {
                Some(None)
            } else {
                match as_integer(value) {
                    Some(number) => {
                        if -2147483648 <= number && number <= 2147483647 {
                            Some(Some(number as i32))
                        } else {
                            None
                        }
                    },
                    None => None,
                }
            }
        },
    }
}

/// The recipe that a JSON document describes, read strictly: a missing
/// title, or a member of the wrong type, is a failure of the generation and
/// never a recipe with a part left out.
pub fn candidate_from_value(document: &serde_json::Value) -> (r: Result<Recipe, ServiceError>)
    ensures
        match candidate_of(json_model(*document)) {
            Some(candidate) => r matches Ok(recipe) && recipe@ == candidate,
            None => r == Err::<Recipe, ServiceError>(ServiceError::GenerationFailed),
        },
{
    let title = match member(document, "title") {
        Some(value) => match as_text(value) {
            Some(text) => text.to_owned(),
            None => {
                return Err(ServiceError::GenerationFailed);
            },
        },
        None => {
            return Err(ServiceError::GenerationFailed);
        },
    };
    let description = match read_optional_text(document, "description") {
        Some(text) => text,
        None => {
            return Err(ServiceError::GenerationFailed);
        },
    };
    let instructions = match read_optional_text(document, "instructions") {
        Some(text) => text,
        None => {
            return Err(ServiceError::GenerationFailed);
        },
    };
    let preptime = match read_optional_number(document, "preptime") {
        Some(number) => number,
        None => {
            return Err(ServiceError::GenerationFailed);
        },
    };
    let difficulty = match read_optional_number(document, "difficulty") {
        Some(number) => number,
        None => {
            return Err(ServiceError::GenerationFailed);
        },
    };
    Ok(Recipe { id: None, title, description, instructions, preptime, difficulty, isoriginal: false })
}

/// The text that a reply of the generation service carries.
pub fn content_from_value(reply: &serde_json::Value) -> (r: Option<String>)
    ensures
        match response_content(json_model(*reply)) {
            Some(content) => r matches Some(text) && text@ == content,
            None => r is None,
        },
{
    let choices = match member(reply, "choices") {
        Some(value) => value,
        None => {
            return None;
        },
    };
    let first = match element(choices, 0) {
        Some(value) => value,
        None => {
            return None;
        },
    };
    let message = match member(first, "message") {
        Some(value) => value,
        None => {
            return None;
        },
    };
    let content = match member(message, "content") {
        Some(value) => value,
        None => {
            return None;
        },
    };
    match as_text(content) {
        Some(text) => Some(text.to_owned()),
        None => None,
    }
}

/// Reads the reply of the generation service: either the whole recipe, well
/// formed, or `GenerationFailed`.
pub fn read_response(reply: &str) -> (r: Result<Recipe, ServiceError>)
    ensures
        match generated_recipe(reply@) {
            Some(candidate) => r matches Ok(recipe) && recipe@ == candidate,
            None => r == Err::<Recipe, ServiceError>(ServiceError::GenerationFailed),
        },
{
    let document = match parse(reply) {
        Ok(value) => value,
        Err(_) => {
            return Err(ServiceError::GenerationFailed);
        },
    };
    let content = match content_from_value(&document) {
        Some(text) => text,
        None => {
            return Err(ServiceError::GenerationFailed);
        },
    };
    match parse(content.as_str()) {
        Ok(inner) => candidate_from_value(&inner),
        Err(_) => Err(ServiceError::GenerationFailed),
    }
}

/// The task that the generation service is given with every request.
pub const SYSTEM_PROMPT: &'static str = "Given a recipe in JSON format and a list of preferred
ingredients, adjust the recipe to match the preferences and return the adjusted recipe
in JSON format. The json format should be as follows:
{
    \"title\": \"Recipe Title\",
    \"description\": \"Recipe Description\",
    \"instructions\": \"Recipe Instructions\",
    \"preptime\": 30,
    \"difficulty\": 1,
    \"ingredients\": [
        \"ingredient1\",
        \"ingredient2\",
        \"ingredient3\"
    ],
    \"isoriginal\": false
} ";

/// The model that the generation service is asked for.
pub const MODEL: &'static str = "gpt-4-1106-preview";

/// What the client needs from its surroundings.
#[derive(Debug)]
pub struct Config {
    pub database_url: String,
    pub openai_key: String,
}

/// The names of a list, in their order, with a comma and a space between
/// each two of them.
pub open spec fn joined(names: Seq<String>) -> Seq<char>
    decreases names.len(),
{
    if names.len() == 0 {
        Seq::empty()
    } else if names.len() == 1 {
        names[0]@
    } else {
        joined(names.drop_last()) + ", "@ + names.last()@
    }
}

/// The prompt for a base recipe, given as JSON, and a list of preferences.
pub open spec fn prompt_text(recipe_json: Seq<char>, preferences: Seq<String>) -> Seq<char> {
    "Recipe: "@ + recipe_json + ", preferences: "@ + joined(preferences)
}

/// The names of a list, separated by a comma and a space.
pub fn join_names(names: &Vec<String>) -> (r: String)
    ensures
        r@ == joined(names@),
{
    let mut out = String::new();
    let mut i: usize = 0;
    while i < names.len()
        invariant
            i <= names.len(),
            out@ == joined(names@.take(i as int)),
        decreases names.len() - i,
    {
        let ghost before = names@.take(i as int);
        let ghost after = names@.take(i + 1);
        assert(after.drop_last() =~= before);
        assert(after.last() == names[i as int]);
        if i > 0 {
            out.append(", ");
        } else {
            assert(out@ + names[i as int]@ =~= names[i as int]@);
        }
        out.append(names[i].as_str());
        i += 1;
    }
    assert(names@.take(i as int) =~= names@);
    out
}

/// The prompt that asks for a variant of a recipe: the base recipe as JSON,
/// then the requested preferences in their order.
pub fn build_prompt(recipe_json: &str, preferences: &Vec<String>) -> (r: String)
    ensures
        r@ == prompt_text(recipe_json@, preferences@),
{
    let mut out = "Recipe: ".to_owned();
    out.append(recipe_json);
    out.append(", preferences: ");
    let names = join_names(preferences);
    out.append(names.as_str());
    out
}

/// The credential that accompanies a request to the generation service.
pub fn authorization(config: &Config) -> (r: String)
    ensures
        r@ == "Bearer "@ + config.openai_key@,
{
    let mut out = "Bearer ".to_owned();
    out.append(config.openai_key.as_str());
    out
}

} // verus!
