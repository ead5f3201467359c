//! Records exchanged with the repository provider.

use vstd::prelude::*;

verus! {

/// Single repository information with name and all contributors URL.
#[derive(Debug, PartialEq, Eq)]
pub struct RepoInfo {
    /// Name of the repository.
    pub name: String,
    /// URL address with all contributors.
    pub contributors_url: String,
}

/// All repositories which match a search query, one page of them.
#[derive(Debug, PartialEq, Eq)]
pub struct ReposResponse {
    /// Repositories of the page, most starred first.
    pub items: Vec<RepoInfo>,
}

/// Contributor information: login (username) and amount of contributions
/// to one repository.
#[derive(Debug, PartialEq, Eq)]
pub struct Contributor {
    /// Username of the contributor.
    pub login: String,
    /// Amount of contributions of this user to the repository.
    pub contributions: usize,
}

impl Clone for RepoInfo {
    fn clone(&self) -> (copy: Self)
        ensures
            copy == *self,
    {
        RepoInfo { name: self.name.clone(), contributors_url: self.contributors_url.clone() }
    }
}

impl Clone for Contributor {
    fn clone(&self) -> (copy: Self)
        ensures
            copy == *self,
    {
        Contributor { login: self.login.clone(), contributions: self.contributions }
    }
}

} // verus!
