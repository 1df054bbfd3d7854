//! Builds the text of a sandbox profile from a set of permissions.
//!
//! A [`Permissions`] value names the paths that may be read and written, whether
//! the network may be used, and the programs that may be run.
//! [`generate_profile`] appends one fragment of rules per category to a template,
//! and [`minify_profile`] folds a profile into a single line.

pub mod minify;
pub mod permissions;
pub mod profile;
pub mod rules;
pub mod text;

pub use crate::minify::minify_profile;
pub use crate::permissions::{path_outcome, validate_paths, Permissions, ProfileError};
pub use crate::profile::generate_profile;
pub use crate::rules::{
    generate_file_permissions, generate_network_permissions, generate_run_permissions,
};
