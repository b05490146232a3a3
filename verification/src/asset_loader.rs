//! Names for what a body looks like.
use vstd::prelude::*;

verus! {

/// A model that the host can show. A body carries the name; the host holds
/// the model.
#[derive(Clone, Copy, Debug, PartialEq, Eq, Hash)]
pub enum Scene {
    Ship,
    Sidewinder,
    Dropship,
    Hook,
    Mine,
    Bullet,
}

} // verus!
