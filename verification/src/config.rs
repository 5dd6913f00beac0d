//! The settings of a running installation.

use std::path::PathBuf;
use vstd::prelude::*;

verus! {

/// `std::path::PathBuf`, carried as it is.
#[verifier::external_type_specification]
#[verifier::external_body]
pub struct ExPathBuf(PathBuf);

/// Where the registry is and how often it is asked.
#[derive(Debug)]
pub struct Thing {
    /// The address that lists the authorized identifiers.
    pub url: String,
    /// The token sent along with each request.
    pub token: String,
    /// The number of seconds between two requests.
    pub refresh_secs: u64,
}

/// Where the authorization set is stored between runs.
#[derive(Debug)]
pub struct Persistence {
    /// The file that holds the records.
    pub path: PathBuf,
}

} // verus!
