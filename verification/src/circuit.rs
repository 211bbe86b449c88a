//! The circuit under construction: what was appended to it, in order.

use vstd::prelude::*;
use crate::mode::Mode;

verus! {

/// One thing that was appended to a circuit.
#[derive(Clone, Copy, Debug, PartialEq, Eq, Structural)]
pub enum Entry {
    /// A wire of the given visibility.
    Wire(Mode),
    /// A constraint.
    Constraint,
}

/// How many entries of `layout` are `kind`.
pub open spec fn count(layout: Seq<Entry>, kind: Entry) -> nat
    decreases layout.len(),
{
    if layout.len() == 0 {
        0
    } else {
        count(layout.drop_last(), kind) + if layout.last() == kind {
            1nat
        } else {
            0nat
        }
    }
}

/// `block`, `times` times in a row.
pub open spec fn repeated(block: Seq<Entry>, times: nat) -> Seq<Entry>
    decreases times,
{
    if times == 0 {
        Seq::empty()
    } else {
        repeated(block, (times - 1) as nat) + block
    }
}

/// Counting goes entry by entry.
pub proof fn lemma_count_push(layout: Seq<Entry>, entry: Entry, kind: Entry)
    ensures
        count(layout.push(entry), kind) == count(layout, kind) + if entry == kind {
            1nat
        } else {
            0nat
        },
{
    assert(layout.push(entry).drop_last() =~= layout);
}

/// The entries of a kind in two layouts in a row are those of the first and
/// those of the second.
pub proof fn lemma_count_concat(first: Seq<Entry>, second: Seq<Entry>, kind: Entry)
    ensures
        count(first + second, kind) == count(first, kind) + count(second, kind),
    decreases second.len(),
{
    if second.len() > 0 {
        lemma_count_concat(first, second.drop_last(), kind);
        assert((first + second).drop_last() =~= first + second.drop_last());
    }
}

/// A block in a row has its entries of a kind as often as it is repeated.
pub proof fn lemma_count_repeated(block: Seq<Entry>, times: nat, kind: Entry)
    ensures
        count(repeated(block, times), kind) == times * count(block, kind),
    decreases times,
{
    if times == 0 {
        assert(times * count(block, kind) == 0) by (nonlinear_arith)
            requires
                times == 0,
        ;
    } else {
        let before = (times - 1) as nat;
        lemma_count_repeated(block, before, kind);
        lemma_count_concat(repeated(block, before), block, kind);
        assert(times * count(block, kind) == before * count(block, kind) + count(block, kind))
            by (nonlinear_arith)
            requires
                times == before + 1,
        ;
    }
}

/// A circuit that is being built.
///
/// Gadgets append wires and constraints to it, and nothing is ever taken
/// out. What it keeps of each is its kind, in the order of appending: that
/// is the circuit's layout, and the circuit's size follows from it.
#[derive(Debug, PartialEq, Eq)]
pub struct Circuit {
    entries: Vec<Entry>,
}

impl Clone for Circuit {
    fn clone(&self) -> (copy: Self)
        ensures
            copy@ == self@,
    {
        let mut entries: Vec<Entry> = Vec::new();
        let mut i: usize = 0;
        while i < self.entries.len()
            invariant
                i <= self.entries@.len(),
                entries@ == self.entries@.take(i as int),
            decreases self.entries@.len() - i,
        {
            entries.push(self.entries[i]);
            i = i + 1;
        }
        Circuit { entries }
    }
}

impl View for Circuit {
    type V = Seq<Entry>;

    /// The layout: every entry, in the order of appending.
    closed spec fn view(&self) -> Seq<Entry> {
        self.entries@
    }
}

impl Circuit {
    /// The number of fixed values allocated so far.
    pub open spec fn constants(&self) -> nat {
        count(self@, Entry::Wire(Mode::Constant))
    }

    /// The number of public inputs allocated so far.
    pub open spec fn public(&self) -> nat {
        count(self@, Entry::Wire(Mode::Public))
    }

    /// The number of private witnesses allocated so far.
    pub open spec fn private(&self) -> nat {
        count(self@, Entry::Wire(Mode::Private))
    }

    /// The number of constraints recorded so far.
    pub open spec fn constraints(&self) -> nat {
        count(self@, Entry::Constraint)
    }

    /// Whether `after` is this circuit with `constants` more fixed values
    /// and `witnesses` more private witnesses and constraints, and as many
    /// public inputs as before.
    pub open spec fn grown_by(&self, after: &Circuit, constants: nat, witnesses: nat) -> bool {
        &&& after.constants() == self.constants() + constants
        &&& after.public() == self.public()
        &&& after.private() == self.private() + witnesses
        &&& after.constraints() == self.constraints() + witnesses
    }

    /// A circuit that was extended by a layout has grown by what the layout
    /// holds of each kind.
    pub proof fn lemma_extended(&self, after: &Circuit, layout: Seq<Entry>)
        requires
            after@ == self@ + layout,
        ensures
            after.constants() == self.constants() + count(layout, Entry::Wire(Mode::Constant)),
            after.public() == self.public() + count(layout, Entry::Wire(Mode::Public)),
            after.private() == self.private() + count(layout, Entry::Wire(Mode::Private)),
            after.constraints() == self.constraints() + count(layout, Entry::Constraint),
    {
        lemma_count_concat(self@, layout, Entry::Wire(Mode::Constant));
        lemma_count_concat(self@, layout, Entry::Wire(Mode::Public));
        lemma_count_concat(self@, layout, Entry::Wire(Mode::Private));
        lemma_count_concat(self@, layout, Entry::Constraint);
    }

    /// An empty circuit.
    pub fn new() -> (circuit: Circuit)
        ensures
            circuit@ == Seq::<Entry>::empty(),
    {
        Circuit { entries: Vec::new() }
    }

    /// Returns the number of entries.
    pub fn len(&self) -> (length: usize)
        ensures
            length == self@.len(),
    {
        self.entries.len()
    }

    /// Returns the entry at `index`.
    pub fn entry(&self, index: usize) -> (entry: Entry)
        requires
            index < self@.len(),
        ensures
            entry == self@[index as int],
    {
        self.entries[index]
    }

    /// Returns the number of entries that are `kind`.
    pub fn tally(&self, kind: Entry) -> (total: usize)
        ensures
            total == count(self@, kind),
    {
        let mut total: usize = 0;
        let mut i: usize = 0;
        while i < self.entries.len()
            invariant
                i <= self.entries@.len(),
                total == count(self.entries@.take(i as int), kind),
                total <= i,
            decreases self.entries@.len() - i,
        {
            proof {
                assert(self.entries@.take(i + 1) =~= self.entries@.take(i as int).push(
                    self.entries@[i as int],
                ));
                lemma_count_push(self.entries@.take(i as int), self.entries@[i as int], kind);
            }
            if self.entries[i] == kind {
                total = total + 1;
            }
            i = i + 1;
        }
        assert(self.entries@.take(i as int) =~= self.entries@);
        total
    }

    /// Returns the number of fixed values allocated so far.
    pub fn num_constants(&self) -> (total: usize)
        ensures
            total == self.constants(),
    {
        self.tally(Entry::Wire(Mode::Constant))
    }

    /// Returns the number of public inputs allocated so far.
    pub fn num_public(&self) -> (total: usize)
        ensures
            total == self.public(),
    {
        self.tally(Entry::Wire(Mode::Public))
    }

    /// Returns the number of private witnesses allocated so far.
    pub fn num_private(&self) -> (total: usize)
        ensures
            total == self.private(),
    {
        self.tally(Entry::Wire(Mode::Private))
    }

    /// Returns the number of constraints recorded so far.
    pub fn num_constraints(&self) -> (total: usize)
        ensures
            total == self.constraints(),
    {
        self.tally(Entry::Constraint)
    }

    /// Appends a wire of visibility `mode`.
    pub fn allocate(&mut self, mode: Mode)
        ensures
            final(self)@ == old(self)@.push(Entry::Wire(mode)),
    {
        self.entries.push(Entry::Wire(mode));
    }

    /// Appends a constraint.
    pub fn enforce(&mut self)
        ensures
            final(self)@ == old(self)@.push(Entry::Constraint),
    {
        self.entries.push(Entry::Constraint);
    }

    /// Appends `count` fixed values.
    pub fn fix(&mut self, count: usize)
        ensures
            final(self)@ == old(self)@ + repeated(seq![Entry::Wire(Mode::Constant)], count as nat),
    {
        let ghost block = seq![Entry::Wire(Mode::Constant)];
        let mut i: usize = 0;
        while i < count
            invariant
                i <= count,
                block == seq![Entry::Wire(Mode::Constant)],
                self@ == old(self)@ + repeated(block, i as nat),
            decreases count - i,
        {
            self.allocate(Mode::Constant);
            i = i + 1;
        }
    }

    /// Appends `count` private witnesses, each followed by the constraint
    /// that ties it to the wires it was computed from.
    pub fn witness(&mut self, count: usize)
        ensures
            final(self)@ == old(self)@ + repeated(
                seq![Entry::Wire(Mode::Private), Entry::Constraint],
                count as nat,
            ),
    {
        let ghost block = seq![Entry::Wire(Mode::Private), Entry::Constraint];
        let mut i: usize = 0;
        while i < count
            invariant
                i <= count,
                block == seq![Entry::Wire(Mode::Private), Entry::Constraint],
                self@ == old(self)@ + repeated(block, i as nat),
            decreases count - i,
        {
            self.allocate(Mode::Private);
            self.enforce();
            i = i + 1;
        }
    }
}

} // verus!
