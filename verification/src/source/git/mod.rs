//! Packages that live in git repositories.

pub mod specifier;
