//! The constraint-builder abstraction shared by all chips.
//!
//! A chip's `eval` receives a builder holding one row pair (the local row and
//! the next row) and asserts polynomial identities on it: unconditional
//! zero/one/equality assertions, assertions scoped under a selector ("when
//! flag X holds, assert Y", encoded as `selector * claim = 0`), and
//! transition-only assertions that apply to every row pair except the one
//! anchored at the last row. The builder records whether every asserted
//! identity held on the concrete row pair it carries.

use vstd::prelude::*;

use crate::field::{fmul, fp_mul, fp_sub, fsub, is_canonical};

verus! {

/// All entries of a row are canonical field elements.
pub open spec fn row_canonical(s: Seq<u32>) -> bool {
    forall|i: int| 0 <= i < s.len() ==> is_canonical(#[trigger] s[i])
}

/// A constraint builder over one concrete row pair.
pub struct ConstraintBuilder {
    /// The local row.
    pub local: Vec<u32>,
    /// The row following the local row (ignored by transition assertions
    /// when `is_transition` is false).
    pub next: Vec<u32>,
    /// Whether this row pair crosses a row boundary of the matrix.
    pub is_transition: bool,
    /// Whether every identity asserted so far held.
    pub ok: bool,
}

impl ConstraintBuilder {
    /// The builder's rows hold canonical field elements.
    pub open spec fn wf(self) -> bool {
        row_canonical(self.local@) && row_canonical(self.next@)
    }

    /// Start checking a row pair; no identity has failed yet.
    pub fn new(local: Vec<u32>, next: Vec<u32>, is_transition: bool) -> (r: Self)
        ensures
            r.local == local,
            r.next == next,
            r.is_transition == is_transition,
            r.ok,
    {
        ConstraintBuilder { local, next, is_transition, ok: true }
    }

    /// Assert `x = 0`.
    pub fn assert_zero(&mut self, x: u32)
        ensures
            *final(self) == (ConstraintBuilder { ok: old(self).ok && x == 0, ..*old(self) }),
    {
        self.ok = self.ok && x == 0;
    }

    /// Assert `x = 1`.
    pub fn assert_one(&mut self, x: u32)
        ensures
            *final(self) == (ConstraintBuilder { ok: old(self).ok && x == 1, ..*old(self) }),
    {
        self.ok = self.ok && x == 1;
    }

    /// Assert `a = b`.
    pub fn assert_eq(&mut self, a: u32, b: u32)
        ensures
            *final(self) == (ConstraintBuilder { ok: old(self).ok && a == b, ..*old(self) }),
    {
        self.ok = self.ok && a == b;
    }

    /// Assert `c * x = 0`: under the selector `c`, the claim `x` vanishes.
    pub fn when_assert_zero(&mut self, c: u32, x: u32)
        requires
            is_canonical(c),
            is_canonical(x),
        ensures
            *final(self) == (ConstraintBuilder {
                ok: old(self).ok && fmul(c as int, x as int) == 0,
                ..*old(self)
            }),
    {
        let v = fp_mul(c, x);
        self.ok = self.ok && v == 0;
    }

    /// Assert `c * (x - 1) = 0`: under the selector `c`, `x` equals one.
    pub fn when_assert_one(&mut self, c: u32, x: u32)
        requires
            is_canonical(c),
            is_canonical(x),
        ensures
            *final(self) == (ConstraintBuilder {
                ok: old(self).ok && fmul(c as int, fsub(x as int, 1)) == 0,
                ..*old(self)
            }),
    {
        let v = fp_mul(c, fp_sub(x, 1));
        self.ok = self.ok && v == 0;
    }

    /// Assert `c * (a - b) = 0`: under the selector `c`, `a` equals `b`.
    pub fn when_assert_eq(&mut self, c: u32, a: u32, b: u32)
        requires
            is_canonical(c),
            is_canonical(a),
            is_canonical(b),
        ensures
            *final(self) == (ConstraintBuilder {
                ok: old(self).ok && fmul(c as int, fsub(a as int, b as int)) == 0,
                ..*old(self)
            }),
    {
        let v = fp_mul(c, fp_sub(a, b));
        self.ok = self.ok && v == 0;
    }

    /// Transition-scoped form of `when_assert_zero`.
    pub fn transition_when_assert_zero(&mut self, c: u32, x: u32)
        requires
            is_canonical(c),
            is_canonical(x),
        ensures
            *final(self) == (ConstraintBuilder {
                ok: old(self).ok && (old(self).is_transition ==> fmul(c as int, x as int) == 0),
                ..*old(self)
            }),
    {
        if self.is_transition {
            let v = fp_mul(c, x);
            self.ok = self.ok && v == 0;
        }
    }

    /// Transition-scoped form of `when_assert_one`.
    pub fn transition_when_assert_one(&mut self, c: u32, x: u32)
        requires
            is_canonical(c),
            is_canonical(x),
        ensures
            *final(self) == (ConstraintBuilder {
                ok: old(self).ok && (old(self).is_transition ==> fmul(
                    c as int,
                    fsub(x as int, 1),
                ) == 0),
                ..*old(self)
            }),
    {
        if self.is_transition {
            let v = fp_mul(c, fp_sub(x, 1));
            self.ok = self.ok && v == 0;
        }
    }

    /// Transition-scoped form of `when_assert_eq`.
    pub fn transition_when_assert_eq(&mut self, c: u32, a: u32, b: u32)
        requires
            is_canonical(c),
            is_canonical(a),
            is_canonical(b),
        ensures
            *final(self) == (ConstraintBuilder {
                ok: old(self).ok && (old(self).is_transition ==> fmul(
                    c as int,
                    fsub(a as int, b as int),
                ) == 0),
                ..*old(self)
            }),
    {
        if self.is_transition {
            let v = fp_mul(c, fp_sub(a, b));
            self.ok = self.ok && v == 0;
        }
    }
}

} // verus!
