//! Where packages come from.

pub mod fs;
pub mod git;
pub mod pesde;
pub mod specifiers;
pub mod version_id;
pub mod wally;
pub mod workspace;
