//! The stored octant of reciprocal-lattice points. Only indices
//! `(ikx, iky, ikz)` with all three at least zero are stored; each stored
//! point stands for itself and its mirror images through the axes it is not
//! on, so its prefactor is weighted by two for each non-zero index.
use vstd::prelude::*;

verus! {

/// How many of the three indices are non-zero.
pub open spec fn nonzero_count(ikx: int, iky: int, ikz: int) -> nat {
    (if ikx != 0 { 1nat } else { 0nat }) + (if iky != 0 { 1nat } else { 0nat }) + (if ikz != 0 { 1nat } else { 0nat })
}

pub open spec fn pow2(n: nat) -> nat
    decreases n,
{
    if n == 0 { 1 } else { 2 * pow2((n - 1) as nat) }
}

/// Weight of the stored point `(ikx, iky, ikz)`: zero at the origin, which the
/// sum leaves out, and otherwise two to the number of non-zero indices.
pub open spec fn fold_weight(ikx: int, iky: int, ikz: int) -> nat {
    if ikx == 0 && iky == 0 && ikz == 0 { 0 } else { pow2(nonzero_count(ikx, iky, ikz)) }
}

/// The weight of a stored reciprocal-lattice point.
pub fn fold_factor(ikx: usize, iky: usize, ikz: usize) -> (r: u64)
    ensures
        r == fold_weight(ikx as int, iky as int, ikz as int),
{
    if ikx == 0 && iky == 0 && ikz == 0 {
        return 0;
    }
    let mut f: u64 = 1;
    if ikx != 0 {
        f = f * 2;
    }
    if iky != 0 {
        f = f * 2;
    }
    if ikz != 0 {
        f = f * 2;
    }
    proof {
        reveal_with_fuel(pow2, 4);
    }
    f
}

} // verus!
