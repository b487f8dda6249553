use vstd::prelude::*;

verus! {

/// The multiples of seven below `limit`, in increasing order: the value that
/// is computed once and then shared by every thread.
pub fn multiples_of_seven_below(limit: u64) -> (v: Vec<u64>)
    ensures
        v@.len() == (limit as int + 6) / 7,
        forall|i: int| 0 <= i < v@.len() ==> #[trigger] v@[i] == 7 * i,
{
    let mut v: Vec<u64> = Vec::new();
    let mut n: u64 = 0;
    while n < limit
        invariant
            n <= limit,
            v@.len() == (n as int + 6) / 7,
            forall|i: int| 0 <= i < v@.len() ==> #[trigger] v@[i] == 7 * i,
        decreases limit - n,
    {
        if n % 7 == 0 {
            proof {
                assert(v@.len() == n as int / 7);
                assert(7 * (n as int / 7) == n);
            }
            v.push(n);
        }
        n = n + 1;
    }
    v
}

} // verus!
