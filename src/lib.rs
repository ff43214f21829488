//! Promotes the "Unreleased" section of a Keep-a-Changelog style document to
//! a dated, versioned release, bumping the semantic version.

pub mod text;
pub mod version;
pub mod changelog;
pub mod lemmas;
