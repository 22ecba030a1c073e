//! Where the tested value goes in a request: an HTTP header, a query
//! parameter, or a field of a JSON body (optionally inside a template of
//! the other fields the endpoint needs to reach the comparison at all).
use vstd::prelude::*;
use serde_json::{Map as JsonMap, Value as JsonValue};

verus! {

/// A JSON object, as serde_json represents it.
pub type JsonObject = JsonMap<String, JsonValue>;

#[verifier::external_type_specification]
#[verifier::external_body]
#[verifier::reject_recursive_types(K)]
#[verifier::reject_recursive_types(V)]
pub struct ExJsonMap<K, V>(serde_json::Map<K, V>);

#[verifier::external_type_specification]
#[verifier::external_body]
pub struct ExJsonValue(serde_json::Value);

#[verifier::external_type_specification]
#[verifier::external_body]
pub struct ExJsonError(serde_json::Error);

/// What a JSON object holds, seen through its keys: each key maps to the
/// string it holds, or to `None` when its value is not a JSON string.
pub uninterp spec fn json_object_view(m: serde_json::Map<String, serde_json::Value>) -> Map<
    Seq<char>,
    Option<Seq<char>>,
>;

/// How `serde_json::from_str` reads a text as a JSON value: `None` when
/// the text is not valid JSON, `Some(None)` when it is another JSON value
/// than an object, and `Some(Some(entries))` when it is an object, its
/// entries seen as `json_object_view` sees them.
pub uninterp spec fn parsed_json_object(text: Seq<char>) -> Option<Option<Map<Seq<char>, Option<Seq<char>>>>>;

/// The view of an object without keys.
pub open spec fn no_entries() -> Map<Seq<char>, Option<Seq<char>>> {
    Map::empty()
}

/// An empty JSON object, through `serde_json::Map::new`.
#[verifier::external_body]
fn new_json_object() -> (m: JsonObject)
    ensures
        json_object_view(m) == no_entries(),
{
    JsonMap::new()
}

/// A copy of a JSON object, through its `Clone`, which copies the
/// underlying map.
#[verifier::external_body]
fn clone_json_object(m: &JsonObject) -> (c: JsonObject)
    ensures
        json_object_view(c) == json_object_view(*m),
{
    m.clone()
}

/// Sets `key` to the JSON string `value`, through `serde_json::Map::insert`
/// (which adds the key or replaces its value, leaving other keys alone).
#[verifier::external_body]
fn insert_json_string(m: &mut JsonObject, key: &str, value: &str)
    ensures
        json_object_view(*final(m)) == json_object_view(*old(m)).insert(key@, Some(value@)),
{
    m.insert(key.to_string(), JsonValue::String(value.to_string()));
}

/// Removes `key`, through `serde_json::Map::remove`.
#[verifier::external_body]
fn remove_json_key(m: &mut JsonObject, key: &str)
    ensures
        json_object_view(*final(m)) == json_object_view(*old(m)).remove(key@),
{
    m.remove(key);
}

/// Reads `text` with `serde_json::from_str` as a JSON value and keeps it
/// when it is an object.
#[verifier::external_body]
fn parse_json_object(text: &str) -> (r: Result<Option<JsonObject>, serde_json::Error>)
    ensures
        match r {
            Ok(Some(m)) => parsed_json_object(text@) == Some(Some(json_object_view(m))),
            Ok(None) => parsed_json_object(text@) == Some(None::<Map<Seq<char>, Option<Seq<char>>>>),
            Err(_) => parsed_json_object(text@) is None,
        },
{
    match serde_json::from_str::<JsonValue>(text) {
        Ok(JsonValue::Object(map)) => Ok(Some(map)),
        Ok(_) => Ok(None),
        Err(e) => Err(e),
    }
}

/// Where the tested value is injected. `Header` suits API keys, `Query`
/// legacy endpoints with a token in the URL, `JsonBody` JSON logins; its
/// template holds the other body fields the backend needs.
#[derive(Clone, Debug)]
pub enum InjectionPoint {
    Header(String),
    Query(String),
    JsonBody { field: String, template: Option<JsonObject> },
}

pub open spec fn spec_describe(p: InjectionPoint) -> Seq<char> {
    match p {
        InjectionPoint::Header(n) => "header "@ + n@,
        InjectionPoint::Query(n) => "query param "@ + n@,
        InjectionPoint::JsonBody { field, template } => match template {
            Some(_) => "JSON field "@ + field@ + " (with body template)"@,
            None => "JSON field "@ + field@,
        },
    }
}

impl InjectionPoint {
    /// A short human-readable description, for reports.
    pub fn describe(&self) -> (s: String)
        ensures
            s@ == spec_describe(*self),
    {
        match self {
            InjectionPoint::Header(n) => {
                let mut s = String::from_str("header ");
                s.append(n.as_str());
                s
            },
            InjectionPoint::Query(n) => {
                let mut s = String::from_str("query param ");
                s.append(n.as_str());
                s
            },
            InjectionPoint::JsonBody { field, template } => {
                let mut s = String::from_str("JSON field ");
                s.append(field.as_str());
                match template {
                    Some(_) => {
                        s.append(" (with body template)");
                    },
                    None => {},
                }
                s
            },
        }
    }
}

/// The JSON body of one request: the template's fields (none without a
/// template) with `field` added, or overwritten, as the string `value`.
pub fn request_body(template: &Option<JsonObject>, field: &str, value: &str) -> (body:
    JsonObject)
    ensures
        json_object_view(body) == (match template {
            Some(t) => json_object_view(*t),
            None => no_entries(),
        }).insert(field@, Some(value@)),
{
    let mut body = match template {
        Some(t) => clone_json_object(t),
        None => new_json_object(),
    };
    insert_json_string(&mut body, field, value);
    body
}

/// Why the injection options of a check were refused.
pub enum InjectionArgsError {
    /// `--json-body` fills in the fields around `--json-field`, so it
    /// cannot be used without it.
    JsonBodyWithoutField,
    /// `--json-body` is not valid JSON.
    JsonBodyInvalid(serde_json::Error),
    /// `--json-body` is valid JSON but not an object.
    JsonBodyNotObject,
}

/// Builds the injection point from the check options: `--header`,
/// `--query` or `--json-field` (in that order of precedence; the argument
/// parser allows exactly one), with `--json-body` as the template of a
/// JSON field. The injected field is removed from the template, since it
/// is set on every request.
pub fn injection_from_args(
    header: Option<String>,
    query: Option<String>,
    json_field: Option<String>,
    json_body: Option<String>,
) -> (r: Result<InjectionPoint, InjectionArgsError>)
    requires
        header is Some || query is Some || json_field is Some,
    ensures
        (json_body is Some && json_field is None) ==> r matches Err(InjectionArgsError::JsonBodyWithoutField),
        !(json_body is Some && json_field is None) ==> match header {
            Some(h) => r matches Ok(InjectionPoint::Header(n)) && n@ == h@,
            None => match query {
                Some(q) => r matches Ok(InjectionPoint::Query(n)) && n@ == q@,
                None => match json_body {
                    None => r matches Ok(InjectionPoint::JsonBody { field, template }) && field@
                        == json_field->0@ && template is None,
                    Some(raw) => match parsed_json_object(raw@) {
                        None => r matches Err(InjectionArgsError::JsonBodyInvalid(_)),
                        Some(None) => r matches Err(InjectionArgsError::JsonBodyNotObject),
                        Some(Some(entries)) => r matches Ok(InjectionPoint::JsonBody { field, template }) && field@
                            == json_field->0@ && (template matches Some(t) && json_object_view(t) == entries.remove(
                            field@,
                        )),
                    },
                },
            },
        },
{
    if json_body.is_some() && json_field.is_none() {
        return Err(InjectionArgsError::JsonBodyWithoutField);
    }
    match header {
        Some(name) => Ok(InjectionPoint::Header(name)),
        None => match query {
            Some(name) => Ok(InjectionPoint::Query(name)),
            None => {
                let name = json_field.unwrap();
                match json_body {
                    None => Ok(InjectionPoint::JsonBody { field: name, template: None }),
                    Some(raw) => match parse_json_object(raw.as_str()) {
                        Err(e) => Err(InjectionArgsError::JsonBodyInvalid(e)),
                        Ok(None) => Err(InjectionArgsError::JsonBodyNotObject),
                        Ok(Some(obj)) => {
                            let mut obj = obj;
                            remove_json_key(&mut obj, name.as_str());
                            Ok(InjectionPoint::JsonBody { field: name, template: Some(obj) })
                        },
                    },
                }
            },
        },
    }
}

} // verus!
