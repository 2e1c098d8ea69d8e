//! Core of a package manager for Luau projects that target several runtimes.

use crate::manifest::{lookup, lookup_spec, Named};
use vstd::prelude::*;
use vstd::string::*;

pub mod archive;
pub mod download;
pub mod linking;
pub mod lockfile;
pub mod manifest;
pub mod names;
pub mod paths;
pub mod publish;
pub mod resolver;
pub mod source;
pub mod text;

verus! {

/// The name of the manifest file.
pub const MANIFEST_FILE_NAME: &'static str = "pesde.toml";

/// The name of the lockfile.
pub const LOCKFILE_FILE_NAME: &'static str = "pesde.lock";

/// The alias of the index that is used where none is named.
pub const DEFAULT_INDEX_NAME: &'static str = "default";

/// The name of the directory, inside a packages folder, that holds the
/// containers of the installed packages.
pub const PACKAGES_CONTAINER_NAME: &'static str = ".pesde";

/// The library path that is recorded for a package in which no library
/// file was found.
pub const LINK_LIB_NO_FILE_FOUND: &'static str = "____pesde_no_export_file_found";

/// A user name and password for git.
#[derive(Debug)]
pub struct Account {
    /// The user name.
    pub username: String,
    /// The password or token.
    pub password: String,
}

/// How the project proves who it is to registries and git servers.
#[derive(Debug)]
pub struct AuthConfig {
    tokens: Vec<Named>,
    git_credentials: Option<Account>,
}

impl AuthConfig {
    /// The tokens, each under the URL of the index it is for.
    pub closed spec fn tokens_spec(self) -> Seq<Named> {
        self.tokens@
    }

    /// The credentials for git, if there are any.
    pub closed spec fn git_credentials_spec(self) -> Option<Account> {
        self.git_credentials
    }

    /// A configuration without tokens and without credentials.
    pub fn new() -> (r: AuthConfig)
        ensures
            r.tokens_spec() == Seq::<Named>::empty(),
            r.git_credentials_spec() is None,
    {
        AuthConfig { tokens: Vec::new(), git_credentials: None }
    }

    /// The configuration with `tokens` in place of its tokens.
    pub fn with_tokens(self, tokens: Vec<Named>) -> (r: AuthConfig)
        ensures
            r.tokens_spec() == tokens@,
            r.git_credentials_spec() == self.git_credentials_spec(),
    {
        AuthConfig { tokens, git_credentials: self.git_credentials }
    }

    /// The configuration with `git_credentials` in place of its
    /// credentials.
    pub fn with_git_credentials(self, git_credentials: Option<Account>) -> (r: AuthConfig)
        ensures
            r.tokens_spec() == self.tokens_spec(),
            r.git_credentials_spec() == git_credentials,
    {
        AuthConfig { tokens: self.tokens, git_credentials }
    }

    /// The tokens, each under the URL of the index it is for.
    pub fn tokens(&self) -> (r: &Vec<Named>)
        ensures
            r@ == self.tokens_spec(),
    {
        &self.tokens
    }

    /// The credentials for git, if there are any.
    pub fn git_credentials(&self) -> (r: Option<&Account>)
        ensures
            match r {
                Some(account) => self.git_credentials_spec() == Some(*account),
                None => self.git_credentials_spec() is None,
            },
    {
        self.git_credentials.as_ref()
    }

    /// The token to send to the index at `url`, if one is configured.
    pub fn token_for(&self, url: &str) -> (r: Option<&String>)
        ensures
            match r {
                Some(token) => lookup_spec(self.tokens_spec(), url@) == Some(token@),
                None => lookup_spec(self.tokens_spec(), url@) is None,
            },
    {
        lookup(&self.tokens, url)
    }
}

/// A project: where it lives, and where it keeps what it fetches.
#[derive(Debug)]
pub struct Project {
    package_dir: String,
    workspace_dir: Option<String>,
    data_dir: String,
    auth_config: AuthConfig,
    cas_dir: String,
}

impl Project {
    /// The directory of the package.
    pub closed spec fn package_dir_spec(self) -> Seq<char> {
        self.package_dir@
    }

    /// The directory of the workspace that the package belongs to.
    pub closed spec fn workspace_dir_spec(self) -> Option<String> {
        self.workspace_dir
    }

    /// The directory for data that is shared between projects.
    pub closed spec fn data_dir_spec(self) -> Seq<char> {
        self.data_dir@
    }

    /// The directory of the content-addressed store.
    pub closed spec fn cas_dir_spec(self) -> Seq<char> {
        self.cas_dir@
    }

    /// How the project proves who it is.
    pub closed spec fn auth_config_spec(self) -> AuthConfig {
        self.auth_config
    }

    /// A project in `package_dir`.
    pub fn new(
        package_dir: String,
        workspace_dir: Option<String>,
        data_dir: String,
        cas_dir: String,
        auth_config: AuthConfig,
    ) -> (r: Project)
        ensures
            r.package_dir_spec() == package_dir@,
            r.workspace_dir_spec() == workspace_dir,
            r.data_dir_spec() == data_dir@,
            r.cas_dir_spec() == cas_dir@,
            r.auth_config_spec() == auth_config,
    {
        Project { package_dir, workspace_dir, data_dir, auth_config, cas_dir }
    }

    /// The directory of the package.
    pub fn package_dir(&self) -> (r: &str)
        ensures
            r@ == self.package_dir_spec(),
    {
        self.package_dir.as_str()
    }

    /// The directory of the workspace that the package belongs to, if it
    /// belongs to one.
    pub fn workspace_dir(&self) -> (r: Option<&String>)
        ensures
            match r {
                Some(dir) => self.workspace_dir_spec() == Some(*dir),
                None => self.workspace_dir_spec() is None,
            },
    {
        self.workspace_dir.as_ref()
    }

    /// The directory for data that is shared between projects.
    pub fn data_dir(&self) -> (r: &str)
        ensures
            r@ == self.data_dir_spec(),
    {
        self.data_dir.as_str()
    }

    /// How the project proves who it is.
    pub fn auth_config(&self) -> (r: &AuthConfig)
        ensures
            *r == self.auth_config_spec(),
    {
        &self.auth_config
    }

    /// The directory of the content-addressed store.
    pub fn cas_dir(&self) -> (r: &str)
        ensures
            r@ == self.cas_dir_spec(),
    {
        self.cas_dir.as_str()
    }
}

} // verus!
