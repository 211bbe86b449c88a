//! The Pedersen hash gadget.

use vstd::prelude::*;
use vstd::string::StringSliceAdditionalSpecFns;
use crate::crh::PedersenCRH;
use crate::curve::Curve;
use crate::group::Group;
use crate::model::{base_table, is_table};

pub mod hash_uncompressed;

verus! {

/// A Pedersen hash over `NUM_WINDOWS` windows of `WINDOW_SIZE` bits, as a
/// circuit gadget.
///
/// It holds its base elements as fixed wires. They are derived once, by
/// [`Pedersen::setup`], and never change.
pub struct Pedersen<G: Curve, const NUM_WINDOWS: usize, const WINDOW_SIZE: usize> {
    bases: Vec<Vec<Group<G>>>,
}

impl<G: Curve, const NUM_WINDOWS: usize, const WINDOW_SIZE: usize> View for Pedersen<
    G,
    NUM_WINDOWS,
    WINDOW_SIZE,
> {
    type V = Seq<Seq<G>>;

    /// The table of base elements, window by window.
    closed spec fn view(&self) -> Seq<Seq<G>> {
        Seq::new(
            self.bases@.len(),
            |w: int| Seq::new(self.bases@[w]@.len(), |p: int| self.bases@[w]@[p].value()),
        )
    }
}

impl<G: Curve, const NUM_WINDOWS: usize, const WINDOW_SIZE: usize> Pedersen<
    G,
    NUM_WINDOWS,
    WINDOW_SIZE,
> {
    /// The number of bits that the gadget can take.
    pub open spec fn capacity() -> nat {
        (NUM_WINDOWS * WINDOW_SIZE) as nat
    }

    /// Whether every base element sits on a fixed wire.
    pub closed spec fn fixed(&self) -> bool {
        forall|w: int, p: int|
            0 <= w < self.bases@.len() && 0 <= p < self.bases@[w]@.len()
                ==> (#[trigger] self.bases@[w]@[p]).mode() is Constant
    }

    /// Whether the table has `NUM_WINDOWS` windows of `WINDOW_SIZE` valid
    /// elements, all on fixed wires, and a capacity that a `usize` can hold.
    pub open spec fn wf(&self) -> bool {
        &&& is_table(self@, NUM_WINDOWS as nat, WINDOW_SIZE as nat)
        &&& self.fixed()
        &&& Self::capacity() <= usize::MAX
    }

    /// Derives the gadget's base elements from `message`, as
    /// [`PedersenCRH::setup`] does, and puts each on a fixed wire.
    #[verifier::loop_isolation(false)]
    pub fn setup(message: &str) -> (gadget: Self)
        requires
            Self::capacity() <= usize::MAX,
        ensures
            gadget.wf(),
            gadget@ == base_table::<G>(
                message.spec_bytes(),
                NUM_WINDOWS as nat,
                WINDOW_SIZE as nat,
            ),
    {
        let native = PedersenCRH::<G, NUM_WINDOWS, WINDOW_SIZE>::setup(message);
        let mut bases: Vec<Vec<Group<G>>> = Vec::new();
        let mut w: usize = 0;
        while w < NUM_WINDOWS
            invariant
                w <= NUM_WINDOWS,
                bases@.len() == w,
                forall|i: int| 0 <= i < w ==> (#[trigger] bases@[i])@.len() == WINDOW_SIZE,
                forall|i: int, j: int|
                    0 <= i < w && 0 <= j < WINDOW_SIZE ==> (#[trigger] bases@[i]@[j]).value()
                        == native@[i][j] && bases@[i]@[j].mode() is Constant,
            decreases NUM_WINDOWS - w,
        {
            let mut window: Vec<Group<G>> = Vec::new();
            let mut p: usize = 0;
            while p < WINDOW_SIZE
                invariant
                    w < NUM_WINDOWS,
                    p <= WINDOW_SIZE,
                    window@.len() == p,
                    forall|j: int|
                        0 <= j < p ==> (#[trigger] window@[j]).value() == native@[w as int][j]
                            && window@[j].mode() is Constant,
                decreases WINDOW_SIZE - p,
            {
                window.push(Group::constant(native.base(w, p)));
                p = p + 1;
            }
            bases.push(window);
            w = w + 1;
        }
        let gadget = Pedersen { bases };
        proof {
            assert forall|w: int| 0 <= w < gadget@.len() implies #[trigger] gadget@[w]
                =~= native@[w] by {}
        }
        gadget
    }

    /// Returns the fixed wire of the base element at position `position` of
    /// window `window`.
    pub fn base(&self, window: usize, position: usize) -> (wire: Group<G>)
        requires
            self.wf(),
            window < NUM_WINDOWS,
            position < WINDOW_SIZE,
        ensures
            wire.value() == self@[window as int][position as int],
            wire.mode() is Constant,
            wire.wf(),
    {
        assert(self@[window as int][position as int].valid());
        self.bases[window][position]
    }
}

} // verus!
