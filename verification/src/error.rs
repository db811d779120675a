//! What can be wrong with the way the simulation is set up.

use vstd::prelude::*;

verus! {

/// A fault of configuration. Nothing that happens while the simulation runs
/// is an error: a world without a player is an ordinary state.
#[derive(Clone, Copy, Debug, PartialEq, Eq, Structural)]
pub enum SimError {
    /// A range to draw from is empty: its lower end lies above its upper.
    InvalidRandomRange,
}

} // verus!
