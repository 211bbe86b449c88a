//! The hash as mathematics: its value, its visibility and its cost.

use vstd::prelude::*;
use crate::circuit::{count, lemma_count_concat, Entry};
use crate::curve::Curve;
use crate::group::{lemma_sum_layout_counts, sum_layout};
use crate::mode::Mode;
use crate::padding::padded_with;

verus! {

/// Whether `table` holds `num_windows` windows of `window_size` valid
/// elements each.
pub open spec fn is_table<G: Curve>(table: Seq<Seq<G>>, num_windows: nat, window_size: nat) -> bool {
    &&& table.len() == num_windows
    &&& forall|w: int| 0 <= w < table.len() ==> (#[trigger] table[w]).len() == window_size
    &&& forall|w: int, p: int|
        0 <= w < table.len() && 0 <= p < table[w].len() ==> (#[trigger] table[w][p]).valid()
}

/// The table of base elements derived from `seed`: the element at position
/// `p` of window `w` is the generator for index `w * window_size + p`.
pub open spec fn base_table<G: Curve>(seed: Seq<u8>, num_windows: nat, window_size: nat) -> Seq<
    Seq<G>,
> {
    Seq::new(
        num_windows,
        |w: int| Seq::new(window_size, |p: int| G::generator_at(seed, (w * window_size + p) as nat)),
    )
}

/// `bits`, followed by as many `false` as it takes to reach `capacity`.
pub open spec fn padded(bits: Seq<bool>, capacity: nat) -> Seq<bool> {
    padded_with(bits, capacity, false)
}

/// What one position contributes to the hash: its base where the bit is set,
/// and the identity where it is not.
pub open spec fn selected<G: Curve>(bit: bool, base: G) -> G {
    if bit {
        base
    } else {
        G::identity()
    }
}

/// The sum of the contributions of the first `count` positions, taken from
/// the identity onwards in the order of the positions.
pub open spec fn selected_sum<G: Curve>(bases: Seq<G>, bits: Seq<bool>, count: nat) -> G
    decreases count,
{
    if count == 0 {
        G::identity()
    } else {
        selected_sum(bases, bits, (count - 1) as nat).sum(
            selected(bits[count - 1], bases[count - 1]),
        )
    }
}

/// The hash of `bits` under `table`: the bits are padded to the table's
/// capacity and paired, in order, with the table's elements, window after
/// window; the contributions of all positions are summed.
pub open spec fn hash_of<G: Curve>(table: Seq<Seq<G>>, bits: Seq<bool>) -> G {
    let bases = table.flatten();
    selected_sum(bases, padded(bits, bases.len()), bases.len())
}

/// The sum of the bases of the first `count` positions whose bit is set,
/// taken from the identity onwards in the order of the positions. This is
/// the hash as it is computed outside a circuit.
pub open spec fn plain_sum<G: Curve>(bases: Seq<G>, bits: Seq<bool>, count: nat) -> G
    decreases count,
{
    if count == 0 {
        G::identity()
    } else if bits[count - 1] {
        plain_sum(bases, bits, (count - 1) as nat).sum(bases[count - 1])
    } else {
        plain_sum(bases, bits, (count - 1) as nat)
    }
}

/// The plain hash of `bits` under `table`: the sum of the table's elements
/// at the positions where `bits` is set.
pub open spec fn plain_hash_of<G: Curve>(table: Seq<Seq<G>>, bits: Seq<bool>) -> G {
    let bases = table.flatten();
    plain_sum(bases, padded(bits, bases.len()), bases.len())
}

/// Whether every mode in `modes` is `Constant`.
pub open spec fn all_constant(modes: Seq<Mode>) -> bool {
    forall|i: int| 0 <= i < modes.len() ==> modes[i] is Constant
}

/// The visibility of a wire computed from wires of the given modes: fixed
/// if all of them are, and otherwise a witness.
pub open spec fn combined_mode(modes: Seq<Mode>) -> Mode {
    if all_constant(modes) {
        Mode::Constant
    } else {
        Mode::Private
    }
}

/// The number of fixed values that hashing allocates over `positions`
/// positions: four for each position when the input is all fixed, and two
/// otherwise.
pub open spec fn hash_constants(fixed: bool, positions: nat) -> nat {
    if fixed {
        4 * positions
    } else {
        2 * positions
    }
}

/// The number of private witnesses, and of constraints, that hashing
/// allocates over `positions` positions: none when the input is all fixed;
/// otherwise six for each position, less three for the first, whose sum
/// starts from the fixed identity.
pub open spec fn hash_witnesses(fixed: bool, positions: nat) -> nat {
    if fixed || positions == 0 {
        0
    } else {
        (6 * positions - 3) as nat
    }
}

/// The visibility of the running sum before the position of index
/// `position` is added: the sum starts as the fixed identity, and stays
/// fixed only while everything added to it is.
pub open spec fn running_mode(fixed: bool, position: nat) -> Mode {
    if fixed || position == 0 {
        Mode::Constant
    } else {
        Mode::Private
    }
}

/// The visibility at which every selected element is taken: the combined
/// visibility of the whole input.
pub open spec fn selected_mode(fixed: bool) -> Mode {
    if fixed {
        Mode::Constant
    } else {
        Mode::Private
    }
}

/// What hashing appends to a circuit over `positions` positions: for each
/// position in turn, the layout of the sum that adds its selected element
/// to the running sum.
pub open spec fn hash_layout(fixed: bool, positions: nat) -> Seq<Entry>
    decreases positions,
{
    if positions == 0 {
        Seq::empty()
    } else {
        hash_layout(fixed, (positions - 1) as nat) + sum_layout(
            running_mode(fixed, (positions - 1) as nat),
            selected_mode(fixed),
        )
    }
}

/// The layout of a hash holds the fixed values, witnesses and constraints
/// that the hash costs, and no public input.
pub proof fn lemma_hash_layout_counts(fixed: bool, positions: nat)
    ensures
        count(hash_layout(fixed, positions), Entry::Wire(Mode::Constant)) == hash_constants(
            fixed,
            positions,
        ),
        count(hash_layout(fixed, positions), Entry::Wire(Mode::Public)) == 0,
        count(hash_layout(fixed, positions), Entry::Wire(Mode::Private)) == hash_witnesses(
            fixed,
            positions,
        ),
        count(hash_layout(fixed, positions), Entry::Constraint) == hash_witnesses(fixed, positions),
    decreases positions,
{
    if positions > 0 {
        let before = (positions - 1) as nat;
        let step = sum_layout(running_mode(fixed, before), selected_mode(fixed));
        lemma_hash_layout_counts(fixed, before);
        lemma_sum_layout_counts(running_mode(fixed, before), selected_mode(fixed));
        lemma_count_concat(hash_layout(fixed, before), step, Entry::Wire(Mode::Constant));
        lemma_count_concat(hash_layout(fixed, before), step, Entry::Wire(Mode::Public));
        lemma_count_concat(hash_layout(fixed, before), step, Entry::Wire(Mode::Private));
        lemma_count_concat(hash_layout(fixed, before), step, Entry::Constraint);
    }
}

/// Position `p` of window `w` has an index below the capacity.
pub proof fn lemma_position_index(w: int, p: int, num_windows: int, window_size: int)
    by (nonlinear_arith)
    requires
        0 <= w < num_windows,
        0 <= p < window_size,
    ensures
        0 <= w * window_size + p < num_windows * window_size,
{
}

/// The first position of the window after `w` comes right after the last
/// position of `w`.
pub proof fn lemma_next_window(w: int, window_size: int)
    by (nonlinear_arith)
    ensures
        (w + 1) * window_size == w * window_size + window_size,
{
}

/// The flattening of a table of uniform windows has the table's capacity as
/// its length, and lists position `p` of window `w` at index
/// `w * window_size + p`.
pub proof fn lemma_flatten_table<G: Curve>(table: Seq<Seq<G>>, window_size: nat)
    requires
        forall|w: int| 0 <= w < table.len() ==> (#[trigger] table[w]).len() == window_size,
    ensures
        table.flatten().len() == table.len() * window_size,
        forall|w: int, p: int|
            0 <= w < table.len() && 0 <= p < window_size ==> table.flatten()[w * window_size + p]
                == #[trigger] table[w][p],
    decreases table.len(),
{
    if table.len() == 0 {
        assert(table.len() * window_size == 0) by (nonlinear_arith)
            requires
                table.len() == 0,
        ;
    } else {
        let front = table.drop_last();
        let last = table.last();
        lemma_flatten_table(front, window_size);
        assert(table =~= front.push(last));
        front.lemma_flatten_push(last);
        assert(table.len() * window_size == front.len() * window_size + window_size)
            by (nonlinear_arith)
            requires
                table.len() == front.len() + 1,
        ;
        assert forall|w: int, p: int| 0 <= w < table.len() && 0 <= p < window_size implies (
        table.flatten()[w * window_size + p] == #[trigger] table[w][p]) by {
            if w < front.len() {
                lemma_position_index(w, p, front.len() as int, window_size as int);
            }
        }
    }
}

} // verus!
