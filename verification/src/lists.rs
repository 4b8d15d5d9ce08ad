//! Lists that are taken apart from the front.

use vstd::prelude::*;

verus! {

/// The items of `v`, last first, so that `pop` gives them in their order.
pub fn reversed<T>(v: Vec<T>) -> (r: Vec<T>)
    ensures
        r@ == v@.reverse(),
{
    let mut v = v;
    let ghost all = v@;
    let mut rev: Vec<T> = Vec::new();
    while v.len() > 0
        invariant
            v@ + rev@.reverse() == all,
        decreases v.len(),
    {
        let ghost v0 = v@;
        let ghost r0 = rev@;
        match v.pop() {
            Some(item) => {
                rev.push(item);
                assert(v@ + rev@.reverse() =~= v0 + r0.reverse());
            },
            None => {},
        }
    }
    assert(rev@.reverse() =~= all);
    assert(rev@ =~= rev@.reverse().reverse());
    rev
}

} // verus!
