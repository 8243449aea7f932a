//! The enumerations that the query API reports, each with its canonical
//! text label. Values that this library does not know are carried through
//! with the label that the API gave them.

use vstd::prelude::*;

use crate::order::str_eq;

verus! {

/// A permission level on a repository.
#[derive(Debug, Clone)]
pub enum Permission {
    Admin,
    Maintain,
    Triage,
    Write,
    Read,
    NoAccess,
    Other(String),
}

/// The severity of a security advisory.
#[derive(Debug, Clone)]
pub enum Severity {
    Critical,
    High,
    Moderate,
    Low,
    Other(String),
}

/// The package-manager namespace of a vulnerable package.
#[derive(Debug, Clone)]
pub enum Ecosystem {
    Actions,
    Composer,
    Erlang,
    Go,
    Maven,
    Npm,
    Nuget,
    Pip,
    Pub,
    Rubygems,
    Rust,
    Swift,
    Other(String),
}

pub open spec fn permission_label(p: Permission) -> Seq<char> {
    match p {
        Permission::Admin => "ADMIN"@,
        Permission::Maintain => "MAINTAIN"@,
        Permission::Triage => "TRIAGE"@,
        Permission::Write => "WRITE"@,
        Permission::Read => "READ"@,
        Permission::NoAccess => "NONE"@,
        Permission::Other(s) => s@,
    }
}

pub open spec fn severity_label(s: Severity) -> Seq<char> {
    match s {
        Severity::Critical => "CRITICAL"@,
        Severity::High => "HIGH"@,
        Severity::Moderate => "MODERATE"@,
        Severity::Low => "LOW"@,
        Severity::Other(t) => t@,
    }
}

pub open spec fn ecosystem_label(e: Ecosystem) -> Seq<char> {
    match e {
        Ecosystem::Actions => "ACTIONS"@,
        Ecosystem::Composer => "COMPOSER"@,
        Ecosystem::Erlang => "ERLANG"@,
        Ecosystem::Go => "GO"@,
        Ecosystem::Maven => "MAVEN"@,
        Ecosystem::Npm => "NPM"@,
        Ecosystem::Nuget => "NUGET"@,
        Ecosystem::Pip => "PIP"@,
        Ecosystem::Pub => "PUB"@,
        Ecosystem::Rubygems => "RUBYGEMS"@,
        Ecosystem::Rust => "RUST"@,
        Ecosystem::Swift => "SWIFT"@,
        Ecosystem::Other(t) => t@,
    }
}

impl Permission {
    /// The API's own name for this permission level.
    pub fn label(&self) -> (r: String)
        ensures
            r@ == permission_label(*self),
    {
        match self {
            Permission::Admin => "ADMIN".to_owned(),
            Permission::Maintain => "MAINTAIN".to_owned(),
            Permission::Triage => "TRIAGE".to_owned(),
            Permission::Write => "WRITE".to_owned(),
            Permission::Read => "READ".to_owned(),
            Permission::NoAccess => "NONE".to_owned(),
            Permission::Other(s) => s.clone(),
        }
    }
}

impl Severity {
    /// The API's own name for this severity.
    pub fn label(&self) -> (r: String)
        ensures
            r@ == severity_label(*self),
    {
        match self {
            Severity::Critical => "CRITICAL".to_owned(),
            Severity::High => "HIGH".to_owned(),
            Severity::Moderate => "MODERATE".to_owned(),
            Severity::Low => "LOW".to_owned(),
            Severity::Other(s) => s.clone(),
        }
    }
}

impl Ecosystem {
    /// The API's own name for this ecosystem.
    pub fn label(&self) -> (r: String)
        ensures
            r@ == ecosystem_label(*self),
    {
        match self {
            Ecosystem::Actions => "ACTIONS".to_owned(),
            Ecosystem::Composer => "COMPOSER".to_owned(),
            Ecosystem::Erlang => "ERLANG".to_owned(),
            Ecosystem::Go => "GO".to_owned(),
            Ecosystem::Maven => "MAVEN".to_owned(),
            Ecosystem::Npm => "NPM".to_owned(),
            Ecosystem::Nuget => "NUGET".to_owned(),
            Ecosystem::Pip => "PIP".to_owned(),
            Ecosystem::Pub => "PUB".to_owned(),
            Ecosystem::Rubygems => "RUBYGEMS".to_owned(),
            Ecosystem::Rust => "RUST".to_owned(),
            Ecosystem::Swift => "SWIFT".to_owned(),
            Ecosystem::Other(s) => s.clone(),
        }
    }
}

impl Permission {
    /// The value that the API names `s`; a name that this library does not
    /// know is kept as it is.
    pub fn from_label(s: &str) -> (r: Permission)
        ensures
            permission_label(r) == s@,
            (r is Other) == !(
                s@ == "ADMIN"@
                || s@ == "MAINTAIN"@
                || s@ == "TRIAGE"@
                || s@ == "WRITE"@
                || s@ == "READ"@
                || s@ == "NONE"@
            ),
    {
        if str_eq(s, "ADMIN") {
            Permission::Admin
        } else if str_eq(s, "MAINTAIN") {
            Permission::Maintain
        } else if str_eq(s, "TRIAGE") {
            Permission::Triage
        } else if str_eq(s, "WRITE") {
            Permission::Write
        } else if str_eq(s, "READ") {
            Permission::Read
        } else if str_eq(s, "NONE") {
            Permission::NoAccess
        } else {
            Permission::Other(s.to_owned())
        }
    }
}

impl Severity {
    /// The value that the API names `s`; a name that this library does not
    /// know is kept as it is.
    pub fn from_label(s: &str) -> (r: Severity)
        ensures
            severity_label(r) == s@,
            (r is Other) == !(
                s@ == "CRITICAL"@
                || s@ == "HIGH"@
                || s@ == "MODERATE"@
                || s@ == "LOW"@
            ),
    {
        if str_eq(s, "CRITICAL") {
            Severity::Critical
        } else if str_eq(s, "HIGH") {
            Severity::High
        } else if str_eq(s, "MODERATE") {
            Severity::Moderate
        } else if str_eq(s, "LOW") {
            Severity::Low
        } else {
            Severity::Other(s.to_owned())
        }
    }
}

impl Ecosystem {
    /// The value that the API names `s`; a name that this library does not
    /// know is kept as it is.
    pub fn from_label(s: &str) -> (r: Ecosystem)
        ensures
            ecosystem_label(r) == s@,
            (r is Other) == !(
                s@ == "ACTIONS"@
                || s@ == "COMPOSER"@
                || s@ == "ERLANG"@
                || s@ == "GO"@
                || s@ == "MAVEN"@
                || s@ == "NPM"@
                || s@ == "NUGET"@
                || s@ == "PIP"@
                || s@ == "PUB"@
                || s@ == "RUBYGEMS"@
                || s@ == "RUST"@
                || s@ == "SWIFT"@
            ),
    {
        if str_eq(s, "ACTIONS") {
            Ecosystem::Actions
        } else if str_eq(s, "COMPOSER") {
            Ecosystem::Composer
        } else if str_eq(s, "ERLANG") {
            Ecosystem::Erlang
        } else if str_eq(s, "GO") {
            Ecosystem::Go
        } else if str_eq(s, "MAVEN") {
            Ecosystem::Maven
        } else if str_eq(s, "NPM") {
            Ecosystem::Npm
        } else if str_eq(s, "NUGET") {
            Ecosystem::Nuget
        } else if str_eq(s, "PIP") {
            Ecosystem::Pip
        } else if str_eq(s, "PUB") {
            Ecosystem::Pub
        } else if str_eq(s, "RUBYGEMS") {
            Ecosystem::Rubygems
        } else if str_eq(s, "RUST") {
            Ecosystem::Rust
        } else if str_eq(s, "SWIFT") {
            Ecosystem::Swift
        } else {
            Ecosystem::Other(s.to_owned())
        }
    }
}

} // verus!
