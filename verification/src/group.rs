//! Group-element wires.

use vstd::prelude::*;
use crate::boolean::Boolean;
use crate::circuit::{
    count, lemma_count_concat, lemma_count_push, lemma_count_repeated, repeated, Circuit, Entry,
};
use crate::curve::Curve;
use crate::mode::Mode;

verus! {

/// A wire that carries a group element.
#[derive(Debug, PartialEq, Eq)]
pub struct Group<G: Curve> {
    value: G,
    mode: Mode,
}

impl<G: Curve> Clone for Group<G> {
    fn clone(&self) -> (wire: Self)
        ensures
            wire == *self,
    {
        Group { value: self.value, mode: self.mode }
    }
}

impl<G: Curve> Copy for Group<G> {

}

/// The number of fixed values that a sum of wires of the two given modes
/// allocates.
///
/// The two curve coefficients that the addition law uses are fixed values in
/// any case. Where both operands are fixed, so is the sum, and its two
/// coordinates are fixed values too.
pub open spec fn sum_constants(left: Mode, right: Mode) -> nat {
    if left is Constant && right is Constant {
        4
    } else {
        2
    }
}

/// The number of private witnesses, each with its constraint, that a sum of
/// wires of the two given modes allocates.
///
/// A sum of fixed elements is computed while the circuit is built and needs
/// none. Otherwise the addition law takes six products, each witnessed and
/// constrained; with one fixed operand three of them are products by a fixed
/// value and fold away.
pub open spec fn sum_witnesses(left: Mode, right: Mode) -> nat {
    if left is Constant && right is Constant {
        0
    } else if left is Constant || right is Constant {
        3
    } else {
        6
    }
}

/// What a sum of wires of the two given modes appends to a circuit: its
/// fixed values, and after them its witnesses, each with its constraint.
pub open spec fn sum_layout(left: Mode, right: Mode) -> Seq<Entry> {
    repeated(seq![Entry::Wire(Mode::Constant)], sum_constants(left, right)) + repeated(
        seq![Entry::Wire(Mode::Private), Entry::Constraint],
        sum_witnesses(left, right),
    )
}

/// The layout of a sum holds the fixed values, witnesses and constraints
/// that the sum costs, and no public input.
pub proof fn lemma_sum_layout_counts(left: Mode, right: Mode)
    ensures
        count(sum_layout(left, right), Entry::Wire(Mode::Constant)) == sum_constants(left, right),
        count(sum_layout(left, right), Entry::Wire(Mode::Public)) == 0,
        count(sum_layout(left, right), Entry::Wire(Mode::Private)) == sum_witnesses(left, right),
        count(sum_layout(left, right), Entry::Constraint) == sum_witnesses(left, right),
{
    let fixed = seq![Entry::Wire(Mode::Constant)];
    let witnessed = seq![Entry::Wire(Mode::Private), Entry::Constraint];
    let constants = sum_constants(left, right);
    let witnesses = sum_witnesses(left, right);
    assert forall|kind: Entry|
        count(sum_layout(left, right), kind) == constants * #[trigger] count(fixed, kind)
            + witnesses * count(witnessed, kind) by {
        lemma_count_repeated(fixed, constants, kind);
        lemma_count_repeated(witnessed, witnesses, kind);
        lemma_count_concat(repeated(fixed, constants), repeated(witnessed, witnesses), kind);
    }
    let empty = Seq::<Entry>::empty();
    assert(fixed =~= empty.push(Entry::Wire(Mode::Constant)));
    assert(witnessed =~= empty.push(Entry::Wire(Mode::Private)).push(Entry::Constraint));
    assert forall|kind: Entry|
        #[trigger] count(fixed, kind) == (if kind == Entry::Wire(Mode::Constant) {
            1nat
        } else {
            0nat
        }) by {
        lemma_count_push(empty, Entry::Wire(Mode::Constant), kind);
    }
    assert forall|kind: Entry|
        #[trigger] count(witnessed, kind) == (if kind == Entry::Wire(Mode::Private) || kind
            == Entry::Constraint {
            1nat
        } else {
            0nat
        }) by {
        lemma_count_push(empty, Entry::Wire(Mode::Private), kind);
        lemma_count_push(empty.push(Entry::Wire(Mode::Private)), Entry::Constraint, kind);
    }
    assert(count(fixed, Entry::Wire(Mode::Constant)) == 1);
    assert(count(fixed, Entry::Wire(Mode::Public)) == 0);
    assert(count(fixed, Entry::Wire(Mode::Private)) == 0);
    assert(count(fixed, Entry::Constraint) == 0);
    assert(count(witnessed, Entry::Wire(Mode::Constant)) == 0);
    assert(count(witnessed, Entry::Wire(Mode::Public)) == 0);
    assert(count(witnessed, Entry::Wire(Mode::Private)) == 1);
    assert(count(witnessed, Entry::Constraint) == 1);
}

impl<G: Curve> Group<G> {
    /// The element that the wire carries.
    pub closed spec fn value(&self) -> G {
        self.value
    }

    /// The wire's visibility.
    pub closed spec fn mode(&self) -> Mode {
        self.mode
    }

    /// Whether the wire carries a valid element.
    pub open spec fn wf(&self) -> bool {
        self.value().valid()
    }

    /// A wire of the given visibility that carries `value`.
    pub fn new(mode: Mode, value: G) -> (wire: Self)
        ensures
            wire.value() == value,
            wire.mode() == mode,
    {
        Group { value, mode }
    }

    /// A fixed wire that carries `value`.
    pub fn constant(value: G) -> (wire: Self)
        ensures
            wire.value() == value,
            wire.mode() is Constant,
    {
        Group { value, mode: Mode::Constant }
    }

    /// A fixed wire that carries the group's identity.
    pub fn zero() -> (wire: Self)
        ensures
            wire.value() == G::identity(),
            wire.mode() is Constant,
            wire.wf(),
    {
        proof {
            G::identity_is_valid();
        }
        Group { value: G::zero(), mode: Mode::Constant }
    }

    /// Returns the element that the wire carries.
    pub fn eject_value(&self) -> (value: G)
        ensures
            value == self.value(),
    {
        self.value
    }

    /// Returns the wire's visibility.
    pub fn eject_mode(&self) -> (mode: Mode)
        ensures
            mode == self.mode(),
    {
        self.mode
    }

    /// Whether the wire is fixed.
    pub fn is_constant(&self) -> (fixed: bool)
        ensures
            fixed == (self.mode() is Constant),
    {
        self.mode.is_constant()
    }

    /// Selects `first` where `condition` carries `true`, and `second`
    /// otherwise.
    ///
    /// The selection is linear in its operands: it allocates nothing and
    /// records no constraint, whichever way it goes. Its visibility is the
    /// combination of the three operands' visibilities.
    pub fn ternary(condition: &Boolean, first: &Self, second: &Self) -> (wire: Self)
        ensures
            wire.value() == if condition.value() {
                first.value()
            } else {
                second.value()
            },
            wire.mode() == condition.mode().combined(first.mode()).combined(second.mode()),
    {
        let mode = condition.eject_mode().combine(first.mode).combine(second.mode);
        if condition.eject_value() {
            Group { value: first.value, mode }
        } else {
            Group { value: second.value, mode }
        }
    }

    /// The same element on a wire that is treated as computed from a wire of
    /// visibility `mode`: fixed only if both the wire and `mode` are.
    pub fn promote(&self, mode: Mode) -> (wire: Self)
        ensures
            wire.value() == self.value(),
            wire.mode() == self.mode().combined(mode),
    {
        Group { value: self.value, mode: self.mode.combine(mode) }
    }

    /// Adds two wires in `circuit`.
    ///
    /// The sum carries the group sum of the operands' elements, and is fixed
    /// exactly if both operands are. The circuit is extended by
    /// [`sum_layout`]: [`sum_constants`] fixed values, then [`sum_witnesses`]
    /// witnesses with their constraints.
    pub fn add(&self, other: &Self, circuit: &mut Circuit) -> (wire: Self)
        requires
            self.wf(),
            other.wf(),
        ensures
            wire.value() == self.value().sum(other.value()),
            wire.mode() == self.mode().combined(other.mode()),
            wire.wf(),
            final(circuit)@ == old(circuit)@ + sum_layout(self.mode(), other.mode()),
            old(circuit).grown_by(
                final(circuit),
                sum_constants(self.mode(), other.mode()),
                sum_witnesses(self.mode(), other.mode()),
            ),
    {
        proof {
            G::sum_is_valid(self.value, other.value);
        }
        let left_fixed = self.mode.is_constant();
        let right_fixed = other.mode.is_constant();
        let constants: usize = if left_fixed && right_fixed {
            4
        } else {
            2
        };
        let witnesses: usize = if left_fixed && right_fixed {
            0
        } else if left_fixed || right_fixed {
            3
        } else {
            6
        };
        circuit.fix(constants);
        circuit.witness(witnesses);
        proof {
            let layout = sum_layout(self.mode(), other.mode());
            assert(circuit@ =~= old(circuit)@ + layout);
            lemma_sum_layout_counts(self.mode(), other.mode());
            old(circuit).lemma_extended(circuit, layout);
        }
        Group { value: self.value.add(&other.value), mode: self.mode.combine(other.mode) }
    }
}

} // verus!
