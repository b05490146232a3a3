//! Dropships.
use vstd::prelude::*;

verus! {

/// Marks a dropship.
#[derive(Clone, Copy, Debug, PartialEq, Eq, Default)]
pub struct DropShip {}

} // verus!
