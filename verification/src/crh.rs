//! The Pedersen hash outside a circuit.

use vstd::prelude::*;
use vstd::string::StringSliceAdditionalSpecFns;
use crate::curve::Curve;
use crate::model::{
    base_table, is_table, lemma_flatten_table, lemma_next_window, lemma_position_index,
    plain_hash_of, plain_sum,
};
use crate::padding::pad;

verus! {

/// The one way in which hashing fails: the input has more bits than the
/// parameters have base elements.
#[derive(Clone, Copy, Debug, PartialEq, Eq)]
pub struct CapacityExceeded {
    /// The number of bits that were handed in.
    pub length: usize,
    /// The number of bits that the parameters can take.
    pub capacity: usize,
}

impl CapacityExceeded {
    /// What to tell whoever handed in the input.
    pub fn message(&self) -> (text: &'static str)
        ensures
            text@ == "incorrect input length for pedersen hash"@,
    {
        "incorrect input length for pedersen hash"
    }
}

/// The parameters of a Pedersen hash over `NUM_WINDOWS` windows of
/// `WINDOW_SIZE` bits, and the hash on plain bits.
pub struct PedersenCRH<G: Curve, const NUM_WINDOWS: usize, const WINDOW_SIZE: usize> {
    bases: Vec<Vec<G>>,
}

impl<G: Curve, const NUM_WINDOWS: usize, const WINDOW_SIZE: usize> View for PedersenCRH<
    G,
    NUM_WINDOWS,
    WINDOW_SIZE,
> {
    type V = Seq<Seq<G>>;

    /// The table of base elements, window by window.
    closed spec fn view(&self) -> Seq<Seq<G>> {
        Seq::new(self.bases@.len(), |w: int| self.bases@[w]@)
    }
}

impl<G: Curve, const NUM_WINDOWS: usize, const WINDOW_SIZE: usize> PedersenCRH<
    G,
    NUM_WINDOWS,
    WINDOW_SIZE,
> {
    /// The number of bits that the parameters can take.
    pub open spec fn capacity() -> nat {
        (NUM_WINDOWS * WINDOW_SIZE) as nat
    }

    /// Whether the table has `NUM_WINDOWS` windows of `WINDOW_SIZE` valid
    /// elements, and a capacity that a `usize` can hold.
    pub open spec fn wf(&self) -> bool {
        &&& is_table(self@, NUM_WINDOWS as nat, WINDOW_SIZE as nat)
        &&& Self::capacity() <= usize::MAX
    }

    /// Derives the parameters from `message`: the base element at position
    /// `p` of window `w` is the group's generator for the message's bytes
    /// and the index `w * WINDOW_SIZE + p`.
    #[verifier::loop_isolation(false)]
    pub fn setup(message: &str) -> (parameters: Self)
        requires
            Self::capacity() <= usize::MAX,
        ensures
            parameters.wf(),
            parameters@ == base_table::<G>(
                message.spec_bytes(),
                NUM_WINDOWS as nat,
                WINDOW_SIZE as nat,
            ),
    {
        let seed = message.as_bytes();
        let ghost table = base_table::<G>(seed@, NUM_WINDOWS as nat, WINDOW_SIZE as nat);
        let mut bases: Vec<Vec<G>> = Vec::new();
        let mut w: usize = 0;
        while w < NUM_WINDOWS
            invariant
                w <= NUM_WINDOWS,
                bases@.len() == w,
                forall|i: int| 0 <= i < w ==> (#[trigger] bases@[i])@ == table[i],
            decreases NUM_WINDOWS - w,
        {
            let mut window: Vec<G> = Vec::new();
            let mut p: usize = 0;
            while p < WINDOW_SIZE
                invariant
                    w < NUM_WINDOWS,
                    p <= WINDOW_SIZE,
                    window@.len() == p,
                    forall|j: int| 0 <= j < p ==> #[trigger] window@[j] == table[w as int][j],
                decreases WINDOW_SIZE - p,
            {
                proof {
                    lemma_position_index(w as int, p as int, NUM_WINDOWS as int, WINDOW_SIZE as int);
                }
                window.push(G::generator(seed, w * WINDOW_SIZE + p));
                p = p + 1;
            }
            bases.push(window);
            w = w + 1;
        }
        let parameters = PedersenCRH { bases };
        proof {
            assert forall|w: int, p: int|
                0 <= w < table.len() && 0 <= p < table[w].len() implies (
            #[trigger] table[w][p]).valid() by {
                G::generator_is_valid(seed@, (w * WINDOW_SIZE + p) as nat);
            }
        }
        parameters
    }

    /// Returns the base element at position `position` of window `window`.
    pub fn base(&self, window: usize, position: usize) -> (element: G)
        requires
            self.wf(),
            window < NUM_WINDOWS,
            position < WINDOW_SIZE,
        ensures
            element == self@[window as int][position as int],
    {
        assert(self@[window as int].len() == WINDOW_SIZE);
        self.bases[window][position]
    }

    /// Hashes `input`: the sum of the base elements at the positions where
    /// `input` is set, taken in the order of the positions. An input shorter
    /// than the capacity is padded with `false`; one that is longer is
    /// refused.
    #[verifier::loop_isolation(false)]
    pub fn hash(&self, input: &[bool]) -> (outcome: Result<G, CapacityExceeded>)
        requires
            self.wf(),
        ensures
            match outcome {
                Ok(hash) => {
                    &&& input@.len() <= Self::capacity()
                    &&& hash == plain_hash_of(self@, input@)
                    &&& hash.valid()
                },
                Err(error) => {
                    &&& input@.len() > Self::capacity()
                    &&& error.length == input@.len()
                    &&& error.capacity == Self::capacity()
                },
            },
    {
        let capacity = NUM_WINDOWS * WINDOW_SIZE;
        if input.len() > capacity {
            return Err(CapacityExceeded { length: input.len(), capacity });
        }
        let bits = pad(input, capacity, false);
        let ghost bases = self@.flatten();
        proof {
            lemma_flatten_table(self@, WINDOW_SIZE as nat);
            G::identity_is_valid();
        }
        let mut sum = G::zero();
        let mut k: usize = 0;
        let mut w: usize = 0;
        while w < NUM_WINDOWS
            invariant
                w <= NUM_WINDOWS,
                k == w * WINDOW_SIZE,
                sum == plain_sum(bases, bits@, k as nat),
                sum.valid(),
            decreases NUM_WINDOWS - w,
        {
            let mut p: usize = 0;
            while p < WINDOW_SIZE
                invariant
                    w < NUM_WINDOWS,
                    p <= WINDOW_SIZE,
                    k == w * WINDOW_SIZE + p,
                    sum == plain_sum(bases, bits@, k as nat),
                    sum.valid(),
                decreases WINDOW_SIZE - p,
            {
                proof {
                    lemma_position_index(w as int, p as int, NUM_WINDOWS as int, WINDOW_SIZE as int);
                }
                if bits[k] {
                    proof {
                        G::sum_is_valid(sum, self@[w as int][p as int]);
                    }
                    sum = sum.add(&self.bases[w][p]);
                }
                k = k + 1;
                p = p + 1;
            }
            proof {
                lemma_next_window(w as int, WINDOW_SIZE as int);
            }
            w = w + 1;
        }
        Ok(sum)
    }
}

} // verus!
