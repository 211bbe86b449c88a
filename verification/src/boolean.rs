//! Boolean wires.

use vstd::prelude::*;
use crate::mode::Mode;
use crate::model::combined_mode;

verus! {

/// A wire that carries a bit.
#[derive(Clone, Copy, Debug, PartialEq, Eq)]
pub struct Boolean {
    value: bool,
    mode: Mode,
}

impl Boolean {
    /// The bit that the wire carries.
    pub closed spec fn value(&self) -> bool {
        self.value
    }

    /// The wire's visibility.
    pub closed spec fn mode(&self) -> Mode {
        self.mode
    }

    /// The bits that a sequence of wires carries, in order.
    pub open spec fn values(wires: Seq<Boolean>) -> Seq<bool> {
        Seq::new(wires.len(), |i: int| wires[i].value())
    }

    /// The visibilities of a sequence of wires, in order.
    pub open spec fn modes(wires: Seq<Boolean>) -> Seq<Mode> {
        Seq::new(wires.len(), |i: int| wires[i].mode())
    }

    /// A wire of the given visibility that carries `value`.
    pub fn new(mode: Mode, value: bool) -> (wire: Boolean)
        ensures
            wire.value() == value,
            wire.mode() == mode,
    {
        Boolean { value, mode }
    }

    /// A fixed wire that carries `value`.
    pub fn constant(value: bool) -> (wire: Boolean)
        ensures
            wire.value() == value,
            wire.mode() is Constant,
    {
        Boolean { value, mode: Mode::Constant }
    }

    /// One wire of visibility `mode` for each of `values`, in order.
    pub fn inject(mode: Mode, values: &[bool]) -> (wires: Vec<Boolean>)
        ensures
            Boolean::values(wires@) == values@,
            Boolean::modes(wires@) == Seq::new(values@.len(), |i: int| mode),
    {
        let mut wires: Vec<Boolean> = Vec::new();
        let mut i: usize = 0;
        while i < values.len()
            invariant
                i <= values@.len(),
                wires@.len() == i,
                forall|j: int|
                    0 <= j < i ==> (#[trigger] wires@[j]).value() == values@[j] && wires@[j].mode()
                        == mode,
            decreases values@.len() - i,
        {
            wires.push(Boolean::new(mode, values[i]));
            i = i + 1;
        }
        wires
    }

    /// The visibility of a wire computed from all of `wires`: fixed if each
    /// of them is, and otherwise a witness.
    pub fn combined_mode(wires: &[Boolean]) -> (mode: Mode)
        ensures
            mode == combined_mode(Boolean::modes(wires@)),
    {
        let mut i: usize = 0;
        while i < wires.len()
            invariant
                i <= wires@.len(),
                forall|j: int| 0 <= j < i ==> (#[trigger] wires@[j]).mode() is Constant,
            decreases wires@.len() - i,
        {
            if !wires[i].is_constant() {
                assert(!(Boolean::modes(wires@)[i as int] is Constant));
                return Mode::Private;
            }
            i = i + 1;
        }
        Mode::Constant
    }

    /// Returns the bit that the wire carries.
    pub fn eject_value(&self) -> (value: bool)
        ensures
            value == self.value(),
    {
        self.value
    }

    /// Returns the wire's visibility.
    pub fn eject_mode(&self) -> (mode: Mode)
        ensures
            mode == self.mode(),
    {
        self.mode
    }

    /// Whether the wire is fixed.
    pub fn is_constant(&self) -> (fixed: bool)
        ensures
            fixed == (self.mode() is Constant),
    {
        self.mode.is_constant()
    }
}

} // verus!
