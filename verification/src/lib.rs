//! Verified core of a git identity-profile manager.
//!
//! A profile bundles an identity (name, email) with an authentication mode
//! and mode-specific settings. A profile can be bound to a version-controlled
//! project; applying it yields a plan of local configuration changes
//! (identity, remote URL scheme, SSH command override, credential helper)
//! that an unverified shell executes against the repository.

pub mod auth;
pub mod error;
pub mod ghauth;
pub mod kv;
pub mod output;
pub mod plan;
pub mod profile;
pub mod project;
pub mod remote;
pub mod store;
pub mod text;
