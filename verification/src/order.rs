//! Taking the items of a vector out in their order.

use vstd::prelude::*;

verus! {

/// The items of `v` in reverse order, so that `pop` hands them out first
/// to last.
pub fn reversed<T>(v: Vec<T>) -> (r: Vec<T>)
    ensures
        r@ == v@.reverse(),
{
    let ghost all = v@;
    let mut v = v;
    let mut out: Vec<T> = Vec::new();
    while v.len() > 0
        invariant
            v@.len() + out@.len() == all.len(),
            forall|i: int| 0 <= i < v@.len() ==> (#[trigger] v@[i]) == all[i],
            forall|i: int| 0 <= i < out@.len() ==> (#[trigger] out@[i]) == all[all.len() - 1 - i],
        decreases v.len(),
    {
        let item = v.pop();
        match item {
            Some(x) => {
                out.push(x);
            },
            None => {
                assert(false);
            },
        }
    }
    assert(out@ =~= all.reverse());
    out
}

} // verus!
