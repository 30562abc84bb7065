//! Records mirroring the persistence schema.  The queries themselves live
//! outside the verified library; these are the rows they move.

use vstd::prelude::*;

verus! {

/// Struct holding database connection information
#[derive(Debug)]
#[allow(dead_code)]
pub struct Database {
    url: String,
}

/// This enum represents the different options there are for git hosting
/// platforms
#[derive(Debug)]
pub enum HostOptions {
    /// Variant for github
    Github,
}

impl HostOptions {
    /// Creates string from self.
    /// Uses lower case representation of name of host.
    pub fn to_string(self) -> (r: String)
        ensures
            r@ == "github"@,
    {
        match self {
            Self::Github => "github".to_owned(),
        }
    }
}

/// A row naming one git hosting platform.
#[derive(Debug)]
#[allow(dead_code)]
pub struct Hosts {
    id: i64,
    host_name: String,
}

/// A row naming one repository on a host.
#[derive(Debug)]
#[allow(dead_code)]
pub struct Repos {
    id: i64,
    owner_fk: i64,
    host_fk: i64,
    repo_name: String,
}

/// What one user may do with one repository.
#[derive(Debug)]
#[allow(dead_code)]
pub struct RepoPermissions {
    repo_fk: i64,
    user_fk: i64,
    read: bool,
    write: bool,
    execute: bool,
}

/// What one user may do with one report.
#[derive(Debug)]
#[allow(dead_code)]
pub struct ReportPermissions {
    report_fk: i64,
    user_fk: i64,
    read: bool,
    write: bool,
    execute: bool,
}

} // verus!
