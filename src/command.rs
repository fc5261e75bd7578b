//! The operations that a front end offers, as plain values.

use vstd::prelude::*;
use crate::index::{prefix_matches, strictly_ascending, ActionIndex};
use crate::query::{has_namespace, namespace_query, query_namespace};
use crate::types::{string_views, AwsService, ExpansionError};

verus! {

/// Lists the actions of one namespace, optionally narrowed to a partial action name.
#[derive(Debug, Clone)]
pub struct ExpandSubCommand {
    /// The partial action name; its `*` are removed before matching.
    pub prefix: Option<String>,
    /// The namespace, e.g. `"iam"`.
    pub service_name: String,
}

/// Expands the action lists of a policy document.
#[derive(Debug, Clone)]
pub struct ExpandFileSubCommand {
    /// Where the document is read from.
    pub policy_file: String,
    /// Where the expanded document goes; `None` for the standard output.
    pub output_file: Option<String>,
}

/// The operations.
#[derive(Debug, Clone)]
pub enum Action {
    /// Lists the namespaces of the catalog.
    ListServices,
    /// Lists the actions of one namespace.
    Expand(ExpandSubCommand),
    /// Expands a policy document.
    ExpandFile(ExpandFileSubCommand),
}

/// The operation that was asked for.
#[derive(Debug, Clone)]
pub struct Args {
    pub action: Action,
}

/// The query that a command's fields give.
pub open spec fn command_query(c: ExpandSubCommand) -> Seq<char> {
    namespace_query(c.service_name@, match c.prefix {
        Some(p) => Some(p@),
        None => None,
    })
}

impl ExpandSubCommand {
    /// The names of the command's namespace that start with its partial action
    /// name, each once and in ascending order; `ServiceNotFound` exactly when no service has the namespace.
    pub fn matching_actions(&self, index: &ActionIndex, services: &Vec<AwsService>) -> (r: Result<Vec<String>, ExpansionError>)
        ensures
            !has_namespace(services@, self.service_name@) <==> r is Err,
            r matches Err(e) ==> e matches ExpansionError::ServiceNotFound(n) && n@ == self.service_name@,
            r matches Ok(v) ==> string_views(v@).no_duplicates() && strictly_ascending(string_views(v@))
                && string_views(v@).to_set() == prefix_matches(index@, command_query(*self)),
    {
        let prefix: Option<&str> = match &self.prefix {
            Some(p) => Some(p.as_str()),
            None => None,
        };
        query_namespace(index, services, self.service_name.as_str(), prefix)
    }
}

} // verus!
