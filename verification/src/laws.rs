//! What holds of the hash whatever the group, the parameters and the input.

use vstd::prelude::*;
use crate::boolean::Boolean;
use crate::circuit::{Circuit, Entry};
use crate::crh::PedersenCRH;
use crate::curve::Curve;
use crate::group::Group;
use crate::mode::Mode;
use crate::model::{
    all_constant, hash_layout, hash_of, is_table, lemma_flatten_table, padded, plain_hash_of,
    plain_sum, selected_sum,
};
use crate::padding::padded_with;
use crate::pedersen::Pedersen;

verus! {

/// Whether every one of `bases` is valid.
pub open spec fn all_valid<G: Curve>(bases: Seq<G>) -> bool {
    forall|i: int| 0 <= i < bases.len() ==> (#[trigger] bases[i]).valid()
}

/// The elements of a table, flattened, are valid.
pub proof fn lemma_table_is_valid<G: Curve>(table: Seq<Seq<G>>, num_windows: nat, window_size: nat)
    requires
        is_table(table, num_windows, window_size),
    ensures
        table.flatten().len() == num_windows * window_size,
        all_valid(table.flatten()),
{
    lemma_flatten_table(table, window_size);
    let bases = table.flatten();
    assert forall|i: int| 0 <= i < bases.len() implies (#[trigger] bases[i]).valid() by {
        let w = i / (window_size as int);
        let p = i % (window_size as int);
        assert(window_size > 0) by (nonlinear_arith)
            requires
                0 <= i < num_windows * window_size,
        ;
        vstd::arithmetic::div_mod::lemma_fundamental_div_mod(i, window_size as int);
        vstd::arithmetic::div_mod::lemma_div_pos_is_pos(i, window_size as int);
        assert(w < num_windows) by (nonlinear_arith)
            requires
                i == window_size * w + p,
                0 <= p,
                0 <= w,
                i < num_windows * window_size,
                window_size > 0,
        ;
        assert(w * window_size + p == i) by (nonlinear_arith)
            requires
                i == window_size * w + p,
        ;
        assert(table[w][p].valid());
    }
}

/// Summing the selected elements position by position gives what the plain
/// hash gives, which adds the bases of the set bits and skips the others:
/// the identity that an unset bit selects leaves the sum as it is.
pub proof fn lemma_selected_sum_is_plain_sum<G: Curve>(bases: Seq<G>, bits: Seq<bool>, count: nat)
    requires
        all_valid(bases),
        count <= bases.len(),
    ensures
        selected_sum(bases, bits, count) == plain_sum(bases, bits, count),
        plain_sum(bases, bits, count).valid(),
    decreases count,
{
    if count == 0 {
        G::identity_is_valid();
    } else {
        let before = (count - 1) as nat;
        lemma_selected_sum_is_plain_sum(bases, bits, before);
        let sum = plain_sum(bases, bits, before);
        if bits[count - 1] {
            G::sum_is_valid(sum, bases[count - 1]);
        } else {
            G::identity_is_neutral(sum);
        }
    }
}

/// On the same table and the same bits, the hash that sums the selected
/// elements is the plain hash, and it is a valid element.
pub proof fn lemma_hash_is_plain_hash<G: Curve>(
    table: Seq<Seq<G>>,
    num_windows: nat,
    window_size: nat,
    bits: Seq<bool>,
)
    requires
        is_table(table, num_windows, window_size),
        bits.len() <= num_windows * window_size,
    ensures
        hash_of(table, bits) == plain_hash_of(table, bits),
        hash_of(table, bits).valid(),
{
    lemma_table_is_valid(table, num_windows, window_size);
    let bases = table.flatten();
    lemma_selected_sum_is_plain_sum(bases, padded(bits, bases.len()), bases.len());
}

/// The gadget computes the plain hash: where a gadget and plain parameters
/// hold the same base elements, the element on the wire that the gadget
/// returns for an input is the element that the plain hash returns for the
/// input's bits.
pub proof fn gadget_agrees_with_plain_hash<G: Curve, const NUM_WINDOWS: usize, const WINDOW_SIZE: usize>(
    gadget: Pedersen<G, NUM_WINDOWS, WINDOW_SIZE>,
    plain: PedersenCRH<G, NUM_WINDOWS, WINDOW_SIZE>,
    input: Seq<Boolean>,
    before: Circuit,
    after: Circuit,
    hash: Group<G>,
)
    requires
        gadget.wf(),
        gadget@ == plain@,
        input.len() <= NUM_WINDOWS * WINDOW_SIZE,
        gadget.hashes(input, before, after, hash),
    ensures
        hash.value() == plain_hash_of(plain@, Boolean::values(input)),
{
    lemma_hash_is_plain_hash(
        gadget@,
        NUM_WINDOWS as nat,
        WINDOW_SIZE as nat,
        Boolean::values(input),
    );
}

/// An input below the capacity has the hash and the visibility of the same
/// input followed by fixed `false` bits up to the capacity.
pub proof fn lemma_padding_changes_nothing<G: Curve>(
    table: Seq<Seq<G>>,
    num_windows: nat,
    window_size: nat,
    bits: Seq<bool>,
    modes: Seq<Mode>,
)
    requires
        is_table(table, num_windows, window_size),
        bits.len() <= num_windows * window_size,
        modes.len() == bits.len(),
    ensures
        hash_of(table, padded(bits, num_windows * window_size)) == hash_of(table, bits),
        plain_hash_of(table, padded(bits, num_windows * window_size)) == plain_hash_of(
            table,
            bits,
        ),
        all_constant(padded_with(modes, num_windows * window_size, Mode::Constant))
            == all_constant(modes),
{
    let capacity = num_windows * window_size;
    lemma_flatten_table(table, window_size);
    let longer = padded_with(modes, capacity, Mode::Constant);
    if all_constant(modes) {
        assert forall|i: int| 0 <= i < longer.len() implies longer[i] is Constant by {}
    }
    if all_constant(longer) {
        assert forall|i: int| 0 <= i < modes.len() implies modes[i] is Constant by {
            assert(longer[i] is Constant);
        }
    }
}

/// Padding an input oneself changes nothing: hashing an input below the
/// capacity returns what hashing `longer` returns, and adds to the circuit
/// what hashing `longer` adds, where `longer` is the input followed by
/// fixed `false` wires up to the capacity.
pub proof fn padding_changes_nothing<G: Curve, const NUM_WINDOWS: usize, const WINDOW_SIZE: usize>(
    gadget: Pedersen<G, NUM_WINDOWS, WINDOW_SIZE>,
    input: Seq<Boolean>,
    longer: Seq<Boolean>,
    before: Circuit,
    after: Circuit,
    hash: Group<G>,
)
    requires
        gadget.wf(),
        input.len() <= NUM_WINDOWS * WINDOW_SIZE,
        Boolean::values(longer) == padded(
            Boolean::values(input),
            (NUM_WINDOWS * WINDOW_SIZE) as nat,
        ),
        Boolean::modes(longer) == padded_with(
            Boolean::modes(input),
            (NUM_WINDOWS * WINDOW_SIZE) as nat,
            Mode::Constant,
        ),
    ensures
        gadget.hashes(input, before, after, hash) == gadget.hashes(longer, before, after, hash),
{
    lemma_padding_changes_nothing(
        gadget@,
        NUM_WINDOWS as nat,
        WINDOW_SIZE as nat,
        Boolean::values(input),
        Boolean::modes(input),
    );
}

/// The padding contributes nothing: the hash of an input is the sum of the
/// contributions of its own positions alone.
pub proof fn padding_contributes_nothing<G: Curve>(
    table: Seq<Seq<G>>,
    num_windows: nat,
    window_size: nat,
    bits: Seq<bool>,
)
    requires
        is_table(table, num_windows, window_size),
        bits.len() <= num_windows * window_size,
    ensures
        hash_of(table, bits) == selected_sum(table.flatten(), bits, bits.len()),
{
    lemma_table_is_valid(table, num_windows, window_size);
    let bases = table.flatten();
    lemma_sum_over_padding(bases, bits, bases.len());
}

/// Past the end of `bits`, the padded sum stays what it was at the end.
proof fn lemma_sum_over_padding<G: Curve>(bases: Seq<G>, bits: Seq<bool>, count: nat)
    requires
        all_valid(bases),
        bits.len() <= count <= bases.len(),
    ensures
        selected_sum(bases, padded(bits, bases.len()), count) == selected_sum(
            bases,
            bits,
            bits.len(),
        ),
    decreases count,
{
    let longer = padded(bits, bases.len());
    if count == bits.len() {
        lemma_sum_reads_prefix(bases, longer, bits, count);
    } else {
        let before = (count - 1) as nat;
        lemma_sum_over_padding(bases, bits, before);
        lemma_selected_sum_is_plain_sum(bases, longer, before);
        G::identity_is_neutral(selected_sum(bases, longer, before));
    }
}

/// A sum over the first `count` positions reads the first `count` bits
/// only.
proof fn lemma_sum_reads_prefix<G: Curve>(
    bases: Seq<G>,
    first: Seq<bool>,
    second: Seq<bool>,
    count: nat,
)
    requires
        count <= first.len(),
        count <= second.len(),
        forall|i: int| 0 <= i < count ==> first[i] == second[i],
    ensures
        selected_sum(bases, first, count) == selected_sum(bases, second, count),
    decreases count,
{
    if count > 0 {
        lemma_sum_reads_prefix(bases, first, second, (count - 1) as nat);
    }
}

/// Hashing is a function of the base elements and of the input's bits and
/// visibilities: two runs on gadgets with the same table and on inputs that
/// agree in both return the same element at the same visibility, and add
/// the same to their circuits, whatever the circuits held before.
pub proof fn hashing_is_deterministic<G: Curve, const NUM_WINDOWS: usize, const WINDOW_SIZE: usize>(
    gadget: Pedersen<G, NUM_WINDOWS, WINDOW_SIZE>,
    input: Seq<Boolean>,
    before: Circuit,
    after: Circuit,
    hash: Group<G>,
    other_gadget: Pedersen<G, NUM_WINDOWS, WINDOW_SIZE>,
    other_input: Seq<Boolean>,
    other_before: Circuit,
    other_after: Circuit,
    other_hash: Group<G>,
)
    requires
        gadget@ == other_gadget@,
        Boolean::values(input) == Boolean::values(other_input),
        Boolean::modes(input) == Boolean::modes(other_input),
        gadget.hashes(input, before, after, hash),
        other_gadget.hashes(other_input, other_before, other_after, other_hash),
    ensures
        hash.value() == other_hash.value(),
        hash.mode() == other_hash.mode(),
        exists|layout: Seq<Entry>|
            #![trigger before@ + layout]
            after@ == before@ + layout && other_after@ == other_before@ + layout,
        after.constants() - before.constants() == other_after.constants()
            - other_before.constants(),
        after.public() - before.public() == other_after.public() - other_before.public(),
        after.private() - before.private() == other_after.private() - other_before.private(),
        after.constraints() - before.constraints() == other_after.constraints()
            - other_before.constraints(),
{
    let layout = hash_layout(
        all_constant(Boolean::modes(input)),
        Pedersen::<G, NUM_WINDOWS, WINDOW_SIZE>::capacity(),
    );
}

/// The cost of a hash follows from the capacity and from whether the input
/// is all fixed, and from nothing else.
///
/// With a capacity of `L` positions, hashing an all-fixed input adds `4 L`
/// fixed values to the circuit and not one witness or constraint. Hashing
/// an input with a public or private bit adds `2 L` fixed values and
/// `6 L - 3` witnesses and as many constraints, wherever that bit stands
/// and whichever of the two it is. No hash adds a public input.
pub proof fn cost_follows_visibility<G: Curve, const NUM_WINDOWS: usize, const WINDOW_SIZE: usize>(
    gadget: Pedersen<G, NUM_WINDOWS, WINDOW_SIZE>,
    input: Seq<Boolean>,
    before: Circuit,
    after: Circuit,
    hash: Group<G>,
)
    requires
        input.len() <= NUM_WINDOWS * WINDOW_SIZE,
        gadget.hashes(input, before, after, hash),
    ensures
        after.public() == before.public(),
        after.private() - before.private() == after.constraints() - before.constraints(),
        all_constant(Boolean::modes(input)) ==> {
            &&& after.constants() == before.constants() + 4 * (NUM_WINDOWS * WINDOW_SIZE)
            &&& after.constraints() == before.constraints()
        },
        !all_constant(Boolean::modes(input)) ==> {
            &&& after.constants() == before.constants() + 2 * (NUM_WINDOWS * WINDOW_SIZE)
            &&& after.constraints() == before.constraints() + 6 * (NUM_WINDOWS * WINDOW_SIZE) - 3
        },
{
}

/// An input with a single set bit hashes to the base element of that bit.
pub proof fn lone_bit_selects_its_base<G: Curve>(
    table: Seq<Seq<G>>,
    num_windows: nat,
    window_size: nat,
    bits: Seq<bool>,
    place: int,
)
    requires
        is_table(table, num_windows, window_size),
        bits.len() <= num_windows * window_size,
        0 <= place < bits.len(),
        forall|i: int| 0 <= i < bits.len() ==> bits[i] == (i == place),
    ensures
        hash_of(table, bits) == table.flatten()[place],
{
    lemma_table_is_valid(table, num_windows, window_size);
    padding_contributes_nothing(table, num_windows, window_size, bits);
    lemma_sum_around_lone_bit(table.flatten(), bits, place, bits.len());
}

/// Up to the lone set bit the sum is the identity, and from it on the bit's
/// base.
proof fn lemma_sum_around_lone_bit<G: Curve>(bases: Seq<G>, bits: Seq<bool>, place: int, count: nat)
    requires
        all_valid(bases),
        count <= bits.len() <= bases.len(),
        0 <= place < bits.len(),
        forall|i: int| 0 <= i < bits.len() ==> bits[i] == (i == place),
    ensures
        selected_sum(bases, bits, count) == if count <= place {
            G::identity()
        } else {
            bases[place]
        },
    decreases count,
{
    if count > 0 {
        lemma_sum_around_lone_bit(bases, bits, place, (count - 1) as nat);
        G::identity_is_valid();
        G::identity_is_neutral(G::identity());
        G::identity_is_neutral(bases[place]);
    }
}

} // verus!
