//! The records that the service's requests and responses carry.
use vstd::prelude::*;

verus! {

/// Name, version and identifier of a package.
pub struct PackageMetadata {
    pub Name: String,
    pub Version: String,
    pub ID: String,
}

/// The payload of a package: its zipped content in Base64, or the URL it
/// comes from, and an optional install script.
pub struct PackageData {
    pub Content: Option<String>,
    pub URL: Option<String>,
    pub JSProgram: Option<String>,
}

/// A package: metadata and payload.
pub struct Package {
    pub metadata: PackageMetadata,
    pub data: PackageData,
}

/// One query of a package listing: a package name, or `*` for every package.
pub struct PackageQuery {
    pub Version: Option<String>,
    pub Name: String,
}

/// The user of a history entry.
pub struct User {
    pub name: String,
    pub isAdmin: bool,
}

/// One entry of the history of a package.
pub struct PackageHistoryEntry {
    pub User: User,
    pub Date: String,
    pub PackageMetadata: PackageMetadata,
    pub Action: String,
}

/// A regular expression to search packages with.
pub struct PackageRegEx {
    pub RegEx: String,
}

} // verus!
