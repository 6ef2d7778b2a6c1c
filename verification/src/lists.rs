//! Lists.

use vstd::prelude::*;

verus! {

/// The items of a list, last one first.
pub fn reversed<T>(list: Vec<T>) -> (r: Vec<T>)
    ensures
        r@ == list@.reverse(),
{
    let ghost whole = list@;
    let mut rest = list;
    let mut r: Vec<T> = Vec::new();
    while rest.len() > 0
        invariant
            whole =~= rest@ + r@.reverse(),
        decreases rest@.len(),
    {
        let ghost before = rest@;
        let ghost taken = r@;
        let item = rest.pop().unwrap();
        r.push(item);
        proof {
            assert(r@.reverse() =~= seq![item] + taken.reverse());
            assert(before =~= rest@.push(item));
        }
    }
    proof {
        assert(whole =~= r@.reverse());
        assert(r@ =~= whole.reverse());
    }
    r
}

} // verus!
