//! Requests kept under a name, and collections of them.

use vstd::prelude::*;
use vstd::string::*;
use crate::http::Request;

verus! {

/// A named collection of kept requests.
#[derive(Debug, Clone)]
pub struct Collection {
    pub name: String,
    pub requests: Vec<SavedRequest>,
}

/// A request kept under a name, with the times at which it was made and last
/// changed.
#[derive(Debug, Clone)]
pub struct SavedRequest {
    pub name: String,
    pub description: Option<String>,
    pub request: Request,
    pub created_at: String,
    pub updated_at: String,
}

/// The time that a newly kept request carries.
pub open spec fn spec_first_stamp() -> Seq<char> {
    "2024-01-01T00:00:00Z"@
}

impl SavedRequest {
    /// Keeps `request` under `name`, without a description.
    pub fn new(name: String, request: Request) -> (r: Self)
        ensures
            r.name == name,
            r.description is None,
            r.request == request,
            r.created_at@ == spec_first_stamp(),
            r.updated_at@ == spec_first_stamp(),
    {
        SavedRequest {
            name,
            description: None,
            request,
            created_at: "2024-01-01T00:00:00Z".to_owned(),
            updated_at: "2024-01-01T00:00:00Z".to_owned(),
        }
    }
}

} // verus!
