//! What the logic needs to know of the database.
use vstd::prelude::*;

verus! {

/// A call to the database did not succeed.
#[derive(Debug, Clone, Copy, PartialEq, Eq, Structural)]
pub struct DatabaseFailure;

} // verus!
