//! Expansion of wildcard IAM actions.
//!
//! A catalog of services and their qualified action names (`"<namespace>:<Action>"`)
//! is indexed once in a prefix tree; namespaces are queried against it, and the
//! action lists of policy documents are rewritten into the concrete, deduplicated
//! set of permissions that they denote.

pub mod types;
pub mod index;
pub mod query;
pub mod expand;
pub mod command;
pub mod laws;
