//! The catalog records, the policy document model and the library's errors.

use vstd::prelude::*;

verus! {

/// One grantable permission of a service.
#[derive(Debug, Clone)]
pub struct AwsAction {
    /// The qualified name, e.g. `"s3:GetObject"`.
    pub name: String,
    /// The category of the action, e.g. `"Read"` or `"Write"`.
    pub action_type: String,
}

/// A service and the actions it offers.
#[derive(Debug, Clone)]
pub struct AwsService {
    /// The service's display name.
    pub name: String,
    /// The namespace that prefixes its actions, e.g. `"s3"`.
    pub prefix: String,
    /// The actions of the service.
    pub actions: Vec<AwsAction>,
}

/// The value of a statement's `Action` or `NotAction` field.
#[derive(Debug, Clone, PartialEq, Eq)]
pub enum ActionValue {
    /// A single pattern.
    Text(String),
    /// A list of entries: `Some` for a string, `None` for any other value; a list
    /// with a `None` entry is not a list of strings and so is malformed.
    List(Vec<Option<String>>),
    /// Any value that is neither a string nor a list.
    Other,
}

/// One statement of a policy document.
#[derive(Debug, Clone)]
pub struct AWSPolicyStatement {
    pub sid: Option<String>,
    pub effect: String,
    pub principal: Option<serde_json::Value>,
    pub action: ActionValue,
    pub not_action: Option<ActionValue>,
    pub resource: Option<serde_json::Value>,
    pub not_resource: Option<serde_json::Value>,
    pub condition: Option<serde_json::Value>,
}

/// A policy document: a version, an optional id and its statements.
#[derive(Debug, Clone)]
pub struct AWSPolicyDocument {
    pub version: String,
    pub id: Option<String>,
    pub statement: Vec<AWSPolicyStatement>,
}

/// The errors of the library.
#[derive(Debug, Clone, PartialEq, Eq)]
pub enum ExpansionError {
    /// The queried namespace is not one of the catalog's.
    ServiceNotFound(String),
    /// The statement at this index has an action field that is neither a string nor a list.
    MalformedActionValue(usize),
    /// The catalog could not be decoded.
    CatalogParseError(String),
    /// The policy document could not be decoded.
    PolicyParseError(String),
}

/// A JSON value carried through unread.
#[verifier::external_type_specification]
#[verifier::external_body]
pub struct ExValue(serde_json::Value);

/// The views of a sequence of strings.
pub open spec fn string_views(s: Seq<String>) -> Seq<Seq<char>> {
    s.map_values(|x: String| x@)
}

} // verus!
