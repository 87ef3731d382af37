use vstd::prelude::*;

verus! {

/// The only way solving can fail: some cell has no value left to take.
#[derive(Clone, Copy, Debug, PartialEq, Eq, Structural)]
pub struct PossibilityError;

/// Why a grid cannot be built.
#[derive(Clone, Copy, Debug, PartialEq, Eq, Structural)]
pub enum ConstructionError {
    /// The grid would have no row.
    NoRows,
    /// The grid would have no column.
    NoColumns,
    /// The cells would have no candidate to begin with.
    NoCandidates,
}

impl PossibilityError {
    /// A sentence for logs and panics.
    pub fn message(&self) -> (s: String)
        ensures
            s@ == "no remaining candidates for some cell"@,
    {
        "no remaining candidates for some cell".to_string()
    }
}

} // verus!
