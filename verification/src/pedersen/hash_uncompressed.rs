//! The hash evaluator.

use vstd::prelude::*;
use crate::boolean::Boolean;
use crate::circuit::Circuit;
use crate::crh::CapacityExceeded;
use crate::curve::Curve;
use crate::group::{sum_layout, Group};
use crate::model::{
    all_constant, combined_mode, hash_constants, hash_layout, hash_of, hash_witnesses,
    lemma_flatten_table, lemma_hash_layout_counts, lemma_next_window, lemma_position_index,
    padded, running_mode, selected_mode, selected_sum,
};
use crate::padding::pad;
use crate::pedersen::Pedersen;

verus! {

impl<G: Curve, const NUM_WINDOWS: usize, const WINDOW_SIZE: usize> Pedersen<
    G,
    NUM_WINDOWS,
    WINDOW_SIZE,
> {
    /// Whether hashing `input` takes a circuit from `before` to `after` and
    /// returns `hash`.
    ///
    /// The wire carries the hash of the input's bits, at the combined
    /// visibility of the input. The circuit is what it was, followed by the
    /// layout of a hash of this visibility at this capacity; so it has grown
    /// by the fixed values, witnesses and constraints that such a hash
    /// costs.
    pub open spec fn hashes(
        &self,
        input: Seq<Boolean>,
        before: Circuit,
        after: Circuit,
        hash: Group<G>,
    ) -> bool {
        let fixed = all_constant(Boolean::modes(input));
        &&& hash.value() == hash_of(self@, Boolean::values(input))
        &&& hash.mode() == combined_mode(Boolean::modes(input))
        &&& after@ == before@ + hash_layout(fixed, Self::capacity())
        &&& before.grown_by(
            &after,
            hash_constants(fixed, Self::capacity()),
            hash_witnesses(fixed, Self::capacity()),
        )
    }

    /// Hashes `input` in `circuit` if it fits the capacity, and otherwise
    /// reports by how much it does not and leaves the circuit as it was.
    pub fn try_hash_uncompressed(&self, input: &[Boolean], circuit: &mut Circuit) -> (outcome:
        Result<Group<G>, CapacityExceeded>)
        requires
            self.wf(),
        ensures
            match outcome {
                Ok(hash) => {
                    &&& input@.len() <= Self::capacity()
                    &&& self.hashes(input@, *old(circuit), *final(circuit), hash)
                    &&& hash.wf()
                },
                Err(error) => {
                    &&& input@.len() > Self::capacity()
                    &&& error.length == input@.len()
                    &&& error.capacity == Self::capacity()
                    &&& final(circuit)@ == old(circuit)@
                },
            },
    {
        let capacity = NUM_WINDOWS * WINDOW_SIZE;
        if input.len() > capacity {
            return Err(CapacityExceeded { length: input.len(), capacity });
        }
        Ok(self.hash_uncompressed(input, circuit))
    }

    /// Hashes `input` in `circuit`.
    ///
    /// The input is padded with fixed `false` wires to the gadget's
    /// capacity and cut into windows. Each bit selects its base element or
    /// the identity, and the selected elements are added up from the
    /// identity onwards, window after window and position after position.
    ///
    /// Every selected element is taken at the combined visibility of the
    /// whole input, so the shape of what is added to the circuit depends on
    /// whether the input is all fixed, and on nothing else: not on the bits,
    /// and not on where a fixed bit stands among the others.
    ///
    /// An input longer than the capacity is a misuse of the gadget, and is
    /// not accepted.
    #[verifier::loop_isolation(false)]
    pub fn hash_uncompressed(&self, input: &[Boolean], circuit: &mut Circuit) -> (hash: Group<G>)
        requires
            self.wf(),
            input@.len() <= Self::capacity(),
        ensures
            self.hashes(input@, *old(circuit), *final(circuit), hash),
            hash.wf(),
    {
        // Pad the input to the capacity, and note its visibility as a whole.
        let capacity = NUM_WINDOWS * WINDOW_SIZE;
        let mode = Boolean::combined_mode(input);
        let wires = pad(input, capacity, Boolean::constant(false));
        let zero = Group::<G>::zero();

        let ghost start = *circuit;
        let ghost fixed = all_constant(Boolean::modes(input@));
        let ghost bases = self@.flatten();
        let ghost bits = Boolean::values(wires@);
        proof {
            lemma_flatten_table(self@, WINDOW_SIZE as nat);
            assert(bits =~= padded(Boolean::values(input@), bases.len()));
            assert forall|k: int| 0 <= k < wires@.len() && fixed implies (
            #[trigger] wires@[k]).mode() is Constant by {
                if k < input@.len() {
                    assert(Boolean::modes(input@)[k] is Constant);
                }
            }
        }

        // Sum what the bits select, window by window; `k` counts the
        // positions that are done.
        let mut sum = Group::<G>::zero();
        let mut k: usize = 0;
        let mut w: usize = 0;
        while w < NUM_WINDOWS
            invariant
                w <= NUM_WINDOWS,
                k == w * WINDOW_SIZE,
                sum.value() == selected_sum(bases, bits, k as nat),
                sum.mode() == running_mode(fixed, k as nat),
                sum.wf(),
                circuit@ == start@ + hash_layout(fixed, k as nat),
            decreases NUM_WINDOWS - w,
        {
            let mut p: usize = 0;
            while p < WINDOW_SIZE
                invariant
                    w < NUM_WINDOWS,
                    p <= WINDOW_SIZE,
                    k == w * WINDOW_SIZE + p,
                    sum.value() == selected_sum(bases, bits, k as nat),
                    sum.mode() == running_mode(fixed, k as nat),
                    sum.wf(),
                    circuit@ == start@ + hash_layout(fixed, k as nat),
                decreases WINDOW_SIZE - p,
            {
                proof {
                    lemma_position_index(w as int, p as int, NUM_WINDOWS as int, WINDOW_SIZE as int);
                }
                let base = self.base(w, p);
                let selected = Group::ternary(&wires[k], &base, &zero).promote(mode);
                let ghost before = circuit@;
                sum = sum.add(&selected, circuit);
                assert(circuit@ =~= start@ + hash_layout(fixed, (k + 1) as nat)) by {
                    assert(before + sum_layout(running_mode(fixed, k as nat), selected_mode(fixed))
                        =~= start@ + (hash_layout(fixed, k as nat) + sum_layout(
                        running_mode(fixed, k as nat),
                        selected_mode(fixed),
                    )));
                }
                k = k + 1;
                p = p + 1;
            }
            proof {
                lemma_next_window(w as int, WINDOW_SIZE as int);
            }
            w = w + 1;
        }
        proof {
            lemma_hash_layout_counts(fixed, capacity as nat);
            start.lemma_extended(circuit, hash_layout(fixed, capacity as nat));
        }
        sum
    }
}

} // verus!
