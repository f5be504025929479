//! Witness matrices: row-major tables of canonical field elements whose
//! height is a power of two of at least 2, as the low-degree-extension step
//! of the outer proof system requires.

use vstd::prelude::*;

use crate::field::is_canonical;

verus! {

/// True when `n` is a power of two.
pub open spec fn is_pow2(n: nat) -> bool
    decreases n,
{
    if n == 0 {
        false
    } else if n == 1 {
        true
    } else {
        n % 2 == 0 && is_pow2(n / 2)
    }
}

/// The padded height for `n` meaningful rows: the least power of two that is
/// at least `max(2, n)`.
pub open spec fn is_padded_height(h: nat, n: nat) -> bool {
    &&& is_pow2(h)
    &&& h >= 2
    &&& h >= n
    &&& (h == 2 || h / 2 < n)
}

/// A per-chip witness matrix over the Baby Bear field.
pub struct WitnessMatrix {
    /// The rows, each a flat vector of canonical field elements.
    pub rows: Vec<Vec<u32>>,
    /// The fixed column count of the owning chip.
    pub width: usize,
}

impl WitnessMatrix {
    /// Well-formedness: padded power-of-two height, uniform width, canonical cells.
    pub open spec fn wf(self) -> bool {
        &&& is_pow2(self.rows@.len() as nat)
        &&& self.rows@.len() >= 2
        &&& forall|i: int|
            0 <= i < self.rows@.len() ==> (#[trigger] self.rows@[i])@.len() == self.width
        &&& forall|i: int, j: int|
            0 <= i < self.rows@.len() && 0 <= j < self.width ==> is_canonical(
                #[trigger] self.rows@[i]@[j],
            )
    }

    /// The matrix height (number of rows).
    pub open spec fn spec_height(self) -> nat {
        self.rows@.len() as nat
    }

    /// The number of rows.
    pub fn height(&self) -> (r: usize)
        ensures
            r == self.spec_height(),
    {
        self.rows.len()
    }

    /// The number of columns.
    pub fn width(&self) -> (r: usize)
        ensures
            r == self.width,
    {
        self.width
    }
}

/// Copy one row of a matrix.
pub fn clone_row(v: &Vec<u32>) -> (r: Vec<u32>)
    ensures
        r@ == v@,
{
    let mut r: Vec<u32> = Vec::new();
    let mut i: usize = 0;
    while i < v.len()
        invariant
            i <= v@.len(),
            r@ == v@.subrange(0, i as int),
        decreases v@.len() - i,
    {
        r.push(v[i]);
        proof {
            assert(r@ =~= v@.subrange(0, i + 1));
        }
        i = i + 1;
    }
    proof {
        assert(v@.subrange(0, v@.len() as int) =~= v@);
    }
    r
}

/// The least power of two that is at least `max(2, n)`.
pub fn next_power_of_two_height(n: usize) -> (r: usize)
    requires
        n <= 0x4000_0000,
    ensures
        is_padded_height(r as nat, n as nat),
{
    proof {
        assert(is_pow2(1));
        assert(is_pow2(2));
    }
    let mut r: usize = 2;
    while r < n
        invariant
            is_pow2(r as nat),
            2 <= r,
            r == 2 || r / 2 < n,
            n <= 0x4000_0000,
        decreases 2 * n - r,
    {
        r = r * 2;
    }
    r
}

} // verus!
