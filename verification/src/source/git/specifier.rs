//! The specifier of a dependency that lives in a git repository.

use crate::text::concat3;
use vstd::prelude::*;
use vstd::string::*;

verus! {

/// A dependency on a package in a git repository.
#[derive(Debug)]
pub struct GitDependencySpecifier {
    /// The URL of the repository.
    pub repo: String,
    /// The revision to check out.
    pub rev: String,
    /// The directory of the package inside the repository, if it is not
    /// the root.
    pub path: Option<String>,
}

impl GitDependencySpecifier {
    /// The specifier as it is shown to people: `repo#rev`.
    pub open spec fn text_spec(self) -> Seq<char> {
        self.repo@ + "#"@ + self.rev@
    }

    /// The specifier as it is shown to people: `repo#rev`.
    pub fn text(&self) -> (r: String)
        ensures
            r@ == self.text_spec(),
    {
        concat3(self.repo.as_str(), "#", self.rev.as_str())
    }

    /// A copy of the specifier.
    pub fn duplicate(&self) -> (r: GitDependencySpecifier)
        ensures
            r == *self,
    {
        GitDependencySpecifier {
            repo: self.repo.clone(),
            rev: self.rev.clone(),
            path: match &self.path {
                Some(p) => Some(p.clone()),
                None => None,
            },
        }
    }
}

} // verus!
