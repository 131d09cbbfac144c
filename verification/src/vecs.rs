//! Small helpers on vectors.

use vstd::prelude::*;

verus! {

/// The items in the opposite order.
pub fn reverse<T>(items: Vec<T>) -> (out: Vec<T>)
    ensures
        out@ == items@.reverse(),
{
    let ghost all = items@;
    let mut rest = items;
    let mut out: Vec<T> = Vec::new();
    while rest.len() > 0
        invariant
            rest@.len() + out@.len() == all.len(),
            forall|i: int| 0 <= i < rest@.len() ==> #[trigger] rest@[i] == all[i],
            forall|i: int| 0 <= i < out@.len() ==> #[trigger] out@[i] == all[all.len() - 1 - i],
        decreases rest.len(),
    {
        let item = rest.pop().unwrap();
        out.push(item);
    }
    assert(out@ =~= all.reverse());
    out
}

} // verus!
