//! Randomized peer-topology sampling: `k` distinct peer indices out of
//! `[0, n)` with the node's own index left out. A single reservoir pass
//! over the ordered candidate pool makes every k-subset of the pool
//! equally likely to appear as the result set.

use vstd::prelude::*;
use crate::errors::Error;
use crate::rng;

verus! {

/// The candidate pool in order: the sequence `[0, n)` with `exclude`
/// left out, so position `m` holds `m` before the gap and `m + 1` after.
pub open spec fn pool_entry(exclude: int, m: int) -> int {
    if m < exclude {
        m
    } else {
        m + 1
    }
}

/// Draws `k` distinct indices from `[0, n)`, none equal to `exclude`.
/// Fails with an invalid-argument error exactly when `k` exceeds the
/// `n - 1` candidates available.
pub fn sample(k: usize, n: usize, exclude: usize) -> (r: Result<Vec<usize>, Error>)
    requires
        exclude < n,
    ensures
        match r {
            Ok(v) => {
                &&& k < n
                &&& v@.len() == k as nat
                &&& forall|p: int| 0 <= p < k ==> 0 <= #[trigger] v@[p] < n && v@[p] != exclude
                &&& forall|p: int, q: int| 0 <= p < q < k ==> v@[p] != v@[q]
            },
            Err(e) => e == Error::InvalidArgument && k > n - 1,
        },
{
    if k >= n {
        return Err(Error::InvalidArgument);
    }
    let mut pool: Vec<usize> = Vec::new();
    let mut j: usize = 0;
    while j < n
        invariant
            exclude < n,
            j <= n,
            pool@.len() == if j <= exclude { j as nat } else { (j - 1) as nat },
            forall|m: int| 0 <= m < pool@.len() ==>
                #[trigger] pool@[m] == pool_entry(exclude as int, m),
        decreases n - j,
    {
        if j != exclude {
            pool.push(j);
        }
        j += 1;
    }
    let mut i: usize = k;
    while i < pool.len()
        invariant
            k < n,
            exclude < n,
            pool@.len() == (n - 1) as nat,
            k <= i,
            forall|m: int| i <= m < pool@.len() ==>
                #[trigger] pool@[m] == pool_entry(exclude as int, m),
            forall|p: int| 0 <= p < k ==> 0 <= #[trigger] pool@[p] < n && pool@[p] != exclude,
            forall|p: int, q: int| 0 <= p < q < k ==> pool@[p] != pool@[q],
            forall|p: int, m: int| 0 <= p < k && i <= m < pool@.len() ==>
                #[trigger] pool@[p] != #[trigger] pool@[m],
        decreases pool@.len() - i,
    {
        let r = rng::draw_up_to(i);
        if r < k {
            let x = pool[i];
            pool.set(r, x);
        }
        i += 1;
    }
    let mut out: Vec<usize> = Vec::new();
    let mut p: usize = 0;
    while p < k
        invariant
            k < n,
            p <= k,
            pool@.len() == (n - 1) as nat,
            out@ == pool@.subrange(0, p as int),
            forall|q: int| 0 <= q < k ==> 0 <= #[trigger] pool@[q] < n && pool@[q] != exclude,
            forall|q: int, s: int| 0 <= q < s < k ==> pool@[q] != pool@[s],
        decreases k - p,
    {
        out.push(pool[p]);
        assert(out@ == pool@.subrange(0, p + 1));
        p += 1;
    }
    Ok(out)
}

} // verus!
