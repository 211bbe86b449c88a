//! Visibility modes of circuit wires.

use vstd::prelude::*;

verus! {

/// How a wire's value enters a circuit.
#[derive(Clone, Copy, Debug, PartialEq, Eq, Structural)]
pub enum Mode {
    /// Fixed when the circuit is built: part of the circuit itself.
    Constant,
    /// Revealed alongside the proof.
    Public,
    /// Witnessed: proven, never revealed.
    Private,
}

impl Mode {
    /// Whether the mode is `Constant`.
    pub fn is_constant(&self) -> (fixed: bool)
        ensures
            fixed == (*self is Constant),
    {
        match self {
            Mode::Constant => true,
            _ => false,
        }
    }

    /// The visibility of a wire computed from wires of the two given modes:
    /// fixed when both are fixed, and otherwise a witness.
    pub open spec fn combined(self, other: Mode) -> Mode {
        if self is Constant && other is Constant {
            Mode::Constant
        } else {
            Mode::Private
        }
    }

    /// Computes [`Mode::combined`].
    pub fn combine(self, other: Mode) -> (mode: Mode)
        ensures
            mode == self.combined(other),
    {
        if self.is_constant() && other.is_constant() {
            Mode::Constant
        } else {
            Mode::Private
        }
    }
}

} // verus!
