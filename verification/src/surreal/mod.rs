//! Access to a SurrealDB datastore: connection values, the errors of
//! the gateway, and the two tools built on it.

use vstd::prelude::*;
use crate::json::{json_models, lemma_json_models, lemma_member_models, member_models, Json, JsonValue};
use crate::text::all_whitespace;

pub mod schema;
pub mod select;

pub use schema::SurrealSchemaTool;
pub use select::SurrealSelectTool;

verus! {

/// `serde_json::Error`, carried through and never looked into.
#[verifier::external_type_specification]
#[verifier::external_body]
pub struct ExJsonError(serde_json::Error);

/// Where and as whom to reach the datastore.
#[derive(Debug)]
pub struct SurrealDbConfig {
    pub url: String,
    pub user: String,
    pub pass: String,
    pub db: String,
    pub namespace: String,
}

impl SurrealDbConfig {
    /// Collects the five connection values, each kept as given.
    pub fn new(url: String, user: String, pass: String, db: String, namespace: String) -> (cfg: Self)
        ensures
            cfg.url == url,
            cfg.user == user,
            cfg.pass == pass,
            cfg.db == db,
            cfg.namespace == namespace,
    {
        Self { url, user, pass, db, namespace }
    }
}

impl Clone for SurrealDbConfig {
    fn clone(&self) -> (cfg: Self)
        ensures
            cfg == *self,
    {
        Self {
            url: self.url.clone(),
            user: self.user.clone(),
            pass: self.pass.clone(),
            db: self.db.clone(),
            namespace: self.namespace.clone(),
        }
    }
}

/// What can go wrong between a tool and the datastore.
#[derive(Debug)]
pub enum SurrealError {
    /// The datastore could not be reached, or refused the credentials
    /// or the scope.
    ConnectionError(String),
    /// The datastore refused or failed the statement.
    QueryError(String),
    /// What the datastore returned could not be turned into JSON.
    SerializationError(serde_json::Error),
    /// The caller's input was refused before anything was sent.
    InvalidInput(String),
}

/// Formats a `serde_json::Error` with `to_string`. Nothing is claimed
/// of the text.
#[verifier::external_body]
fn json_error_text(error: &serde_json::Error) -> (text: String) {
    error.to_string()
}

impl SurrealError {
    /// `text` is a message of this error: the name of its kind, a colon
    /// and the detail it carries. Of a serialization error the detail is
    /// left open.
    pub open spec fn has_message(&self, text: Seq<char>) -> bool {
        match self {
            SurrealError::ConnectionError(detail) => text == "Connection error: "@ + detail@,
            SurrealError::QueryError(detail) => text == "Query error: "@ + detail@,
            SurrealError::SerializationError(_) => "Serialization error: "@.is_prefix_of(text),
            SurrealError::InvalidInput(detail) => text == "Invalid input: "@ + detail@,
        }
    }

    /// The message of this error.
    pub fn message(&self) -> (text: String)
        ensures
            self.has_message(text@),
    {
        match self {
            SurrealError::ConnectionError(detail) => {
                let mut text = "Connection error: ".to_owned();
                text.append(detail.as_str());
                text
            },
            SurrealError::QueryError(detail) => {
                let mut text = "Query error: ".to_owned();
                text.append(detail.as_str());
                text
            },
            SurrealError::SerializationError(error) => {
                let mut text = "Serialization error: ".to_owned();
                let detail = json_error_text(error);
                text.append(detail.as_str());
                text
            },
            SurrealError::InvalidInput(detail) => {
                let mut text = "Invalid input: ".to_owned();
                text.append(detail.as_str());
                text
            },
        }
    }
}

impl From<serde_json::Error> for SurrealError {
    fn from(error: serde_json::Error) -> (wrapped: Self) {
        SurrealError::SerializationError(error)
    }
}

impl vstd::std_specs::convert::FromSpecImpl<serde_json::Error> for SurrealError {
    open spec fn obeys_from_spec() -> bool {
        true
    }

    open spec fn from_spec(error: serde_json::Error) -> Self {
        SurrealError::SerializationError(error)
    }
}

/// The steps of one call of the gateway, in the order in which they
/// are taken. Each call opens a connection of its own.
#[derive(Clone, Copy, Debug, PartialEq, Eq)]
pub enum GatewayStage {
    /// Open the connection.
    Connect,
    /// Sign in with the configured user name and password.
    Authenticate,
    /// Select the configured namespace and database.
    SelectScope,
    /// Send the statement.
    Submit,
    /// Take the result of the first statement out of the reply.
    Extract,
}

impl GatewayStage {
    /// The error that a failure at this stage is reported as, with the
    /// datastore's own words as its detail: a connection error until
    /// the scope is selected, a query error from then on.
    pub fn failure(&self, detail: String) -> (error: SurrealError)
        ensures
            match self {
                GatewayStage::Connect | GatewayStage::Authenticate | GatewayStage::SelectScope => error
                    == SurrealError::ConnectionError(detail),
                GatewayStage::Submit | GatewayStage::Extract => error == SurrealError::QueryError(
                    detail,
                ),
            },
    {
        match self {
            GatewayStage::Connect => SurrealError::ConnectionError(detail),
            GatewayStage::Authenticate => SurrealError::ConnectionError(detail),
            GatewayStage::SelectScope => SurrealError::ConnectionError(detail),
            GatewayStage::Submit => SurrealError::QueryError(detail),
            GatewayStage::Extract => SurrealError::QueryError(detail),
        }
    }
}

/// How a tool presents itself to a language model: its name, what it
/// does, and the shape of its arguments.
#[derive(Debug)]
pub struct ToolDefinition {
    pub name: String,
    pub description: String,
    pub parameters: JsonValue,
}

/// The declaration of the arguments of a tool that takes one required
/// string: an object type with the one property `name`, described by
/// `description`. Members stand in the order of their names.
pub open spec fn string_parameter(name: Seq<char>, description: Seq<char>) -> Json {
    Json::Object(
        seq![
            (
                "properties"@,
                Json::Object(
                    seq![
                        (
                            name,
                            Json::Object(
                                seq![
                                    ("description"@, Json::String(description)),
                                    ("type"@, Json::String("string"@)),
                                ],
                            ),
                        ),
                    ],
                ),
            ),
            ("required"@, Json::Array(seq![Json::String(name)])),
            ("type"@, Json::String("object"@)),
        ],
    )
}

/// The declaration of the arguments of a tool that takes one required
/// string.
pub fn string_parameter_schema(name: &str, description: &str) -> (schema: JsonValue)
    ensures
        schema@ == string_parameter(name@, description@),
{
    let property_members: Vec<(String, JsonValue)> = vec![
        ("description".to_owned(), JsonValue::String(description.to_owned())),
        ("type".to_owned(), JsonValue::String("string".to_owned())),
    ];
    let property = JsonValue::Object(property_members);
    proof {
        lemma_member_models(property_members@);
        assert(member_models(property_members@) =~= seq![
            ("description"@, Json::String(description@)),
            ("type"@, Json::String("string"@)),
        ]);
    }
    let properties_members: Vec<(String, JsonValue)> = vec![(name.to_owned(), property)];
    let properties = JsonValue::Object(properties_members);
    proof {
        lemma_member_models(properties_members@);
        assert(member_models(properties_members@) =~= seq![(name@, property@)]);
    }
    let required_items: Vec<JsonValue> = vec![JsonValue::String(name.to_owned())];
    let required = JsonValue::Array(required_items);
    proof {
        lemma_json_models(required_items@);
        assert(json_models(required_items@) =~= seq![Json::String(name@)]);
    }
    let members: Vec<(String, JsonValue)> = vec![
        ("properties".to_owned(), properties),
        ("required".to_owned(), required),
        ("type".to_owned(), JsonValue::String("object".to_owned())),
    ];
    proof {
        lemma_member_models(members@);
        assert(member_models(members@) =~= seq![
            ("properties"@, properties@),
            ("required"@, required@),
            ("type"@, Json::String("object"@)),
        ]);
    }
    JsonValue::Object(members)
}

/// Both tools refuse an input of white space only before anything is
/// sent: the schema tool as a table name, the select tool as a
/// statement.
pub proof fn lemma_blank_input_is_refused(input: Seq<char>)
    requires
        all_whitespace(input),
    ensures
        schema::table_name_fault(input) is Some,
        select::query_fault(input) is Some,
{
    select::lemma_blank_query_is_refused(input);
}

} // verus!
