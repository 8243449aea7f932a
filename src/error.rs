//! What can abort a scan.

use vstd::prelude::*;

verus! {

/// A fatal failure of a scan; no partial result is kept.
#[derive(Debug, Clone, PartialEq, Eq)]
pub enum ScanError {
    /// The request or the decoding of its response failed; holds the cause.
    Transport(String),
    /// The response envelope carried no data.
    MissingData,
    /// The data named no organization.
    MissingOrganization,
    /// A populated list held an absent entry, or an entry lacked a field
    /// that the query always asks for.
    MalformedResponse,
}

} // verus!
