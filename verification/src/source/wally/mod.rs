//! Packages of Wally registries.

pub mod compat_util;
