//! Right-padding of an input to a fixed length.

use vstd::prelude::*;

verus! {

/// `items`, followed by as many copies of `filler` as it takes to reach
/// `length`.
pub open spec fn padded_with<T>(items: Seq<T>, length: nat, filler: T) -> Seq<T> {
    items + Seq::new((length - items.len()) as nat, |i: int| filler)
}

/// Copies `items` and appends `filler` until the copy has `length` items.
pub fn pad<T: Copy>(items: &[T], length: usize, filler: T) -> (out: Vec<T>)
    requires
        items@.len() <= length,
    ensures
        out@ == padded_with(items@, length as nat, filler),
        out@.len() == length,
{
    let mut out: Vec<T> = Vec::new();
    let mut i: usize = 0;
    while i < items.len()
        invariant
            i <= items@.len(),
            out@ == items@.take(i as int),
        decreases items@.len() - i,
    {
        out.push(items[i]);
        i = i + 1;
    }
    while i < length
        invariant
            items@.len() <= i <= length,
            out@ == padded_with(items@, i as nat, filler),
        decreases length - i,
    {
        out.push(filler);
        i = i + 1;
    }
    out
}

} // verus!
