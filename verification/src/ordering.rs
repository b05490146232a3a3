//! The stages before the game runs.
use vstd::prelude::*;

verus! {

/// The stage in which the game loads what it shows.
#[derive(Clone, Copy, Debug, PartialEq, Eq, Hash)]
pub struct GameLoading;

/// The stage in which the game sets itself up.
#[derive(Clone, Copy, Debug, PartialEq, Eq, Hash)]
pub struct GameInit;

} // verus!
