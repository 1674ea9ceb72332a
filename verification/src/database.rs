//! Selection of benchmark runs stored in the time-series database.
//!
//! The database itself is an external collaborator; what the library owns
//! is the shape of a query: which entries a fetch asks for. The driver
//! turns a filter into the database's native query form.

use vstd::prelude::*;

verus! {

/// Which stored entries a fetch asks for.
pub enum EntryFilter {
    /// Entries whose executable name matches this pattern.
    ExeName(String),
}

impl EntryFilter {
    /// The pattern the filter matches executable names against.
    pub fn pattern(&self) -> (r: &String)
        ensures
            match self {
                EntryFilter::ExeName(p) => r@ == p@,
            },
    {
        match self {
            EntryFilter::ExeName(p) => p,
        }
    }
}

} // verus!
