//! Memory chip: read/write consistency over the sorted memory log.
//!
//! The memory log is sorted by (address, cycle), which turns the temporal
//! "every read returns the most recent prior write" property into a local
//! adjacency property between neighbouring rows, checked by per-row-pair
//! polynomial constraints. Inequalities are recovered with field-inverse
//! helper columns: a claimed inverse certifies that a difference is nonzero.

use vstd::prelude::*;

use crate::builder::{row_canonical, ConstraintBuilder};
use crate::chips::cpu::{b2f, fr, poly_boolean};
use crate::field::{fadd, fmul, fp_add, fp_from_bool, fp_from_u32, fp_from_u64, fp_inverse,
    fp_mul, fp_sub, fsub, is_canonical, FIELD_MODULUS};
use crate::matrix::{clone_row, is_padded_height, next_power_of_two_height, WitnessMatrix};
use crate::trace::{mem_le, mem_sorted, ExecutionTrace, MemoryAccess};

verus! {

/// Number of columns in the memory trace.
pub const MEMORY_NUM_COLUMNS: usize = 7;

/// Memory trace columns.
#[derive(Clone, Copy, Debug)]
pub struct MemoryColumns<T> {
    /// Memory address
    pub address: T,
    /// Cycle when access occurred
    pub cycle: T,
    /// Value read or written
    pub value: T,
    /// 1 if write, 0 if read
    pub is_write: T,
    /// 1 if this row has the same address as the next row
    pub same_addr_as_next: T,
    /// Claimed inverse of the address difference to the next row, when the
    /// addresses differ
    pub addr_diff_inv: T,
    /// Claimed inverse of (next cycle - cycle - 1) within a same-address run
    pub cycle_diff_inv: T,
}

impl<T> MemoryColumns<T> {
    /// The columns of a row, in schema order.
    pub open spec fn row_seq(self) -> Seq<T> {
        seq![
            self.address,
            self.cycle,
            self.value,
            self.is_write,
            self.same_addr_as_next,
            self.addr_diff_inv,
            self.cycle_diff_inv,
        ]
    }
}

/// The named-column view of a flat row, in schema order.
pub open spec fn mem_cols_of_seq<T>(s: Seq<T>) -> MemoryColumns<T> {
    MemoryColumns {
        address: s[0],
        cycle: s[1],
        value: s[2],
        is_write: s[3],
        same_addr_as_next: s[4],
        addr_diff_inv: s[5],
        cycle_diff_inv: s[6],
    }
}

/// The named view and the flat row are mutually inverse projections.
pub proof fn lemma_mem_row_view_reversible<T>(c: MemoryColumns<T>, s: Seq<T>)
    requires
        s.len() == MEMORY_NUM_COLUMNS,
    ensures
        mem_cols_of_seq(c.row_seq()) == c,
        mem_cols_of_seq(s).row_seq() =~= s,
{
}

impl<T: Copy> MemoryColumns<T> {
    /// Flatten the named columns into a row.
    pub fn to_row(&self) -> (r: Vec<T>)
        ensures
            r@ == self.row_seq(),
    {
        let mut r: Vec<T> = Vec::new();
        r.push(self.address);
        r.push(self.cycle);
        r.push(self.value);
        r.push(self.is_write);
        r.push(self.same_addr_as_next);
        r.push(self.addr_diff_inv);
        r.push(self.cycle_diff_inv);
        proof {
            assert(r@ =~= self.row_seq());
        }
        r
    }

    /// Read the named columns out of a flat row.
    pub fn from_row(row: &Vec<T>) -> (r: MemoryColumns<T>)
        requires
            row@.len() == MEMORY_NUM_COLUMNS,
        ensures
            r == mem_cols_of_seq(row@),
    {
        MemoryColumns {
            address: row[0],
            cycle: row[1],
            value: row[2],
            is_write: row[3],
            same_addr_as_next: row[4],
            addr_diff_inv: row[5],
            cycle_diff_inv: row[6],
        }
    }
}

/// The named view of row `i` of a matrix.
pub open spec fn mem_row_cols(m: WitnessMatrix, i: int) -> MemoryColumns<u32> {
    mem_cols_of_seq(m.rows@[i]@)
}

/// The address-difference inverse column is correct for row `i` of the
/// sorted log: it certifies a nonzero address difference to the next row,
/// and is zero where no such certificate exists.
pub open spec fn mem_addr_inv_ok(s: Seq<MemoryAccess>, i: int, c: MemoryColumns<u32>) -> bool {
    let diff = fsub(fr(s[i + 1].address as int) as int, fr(s[i].address as int) as int);
    if i + 1 < s.len() && s[i + 1].address != s[i].address && diff != 0 {
        fmul(c.addr_diff_inv as int, diff) == 1
    } else {
        c.addr_diff_inv == 0
    }
}

/// The cycle-difference inverse column is correct for row `i` of the sorted
/// log: within a same-address run it certifies that `next.cycle - cycle - 1`
/// is nonzero, and is zero where no such certificate exists.
pub open spec fn mem_cycle_inv_ok(s: Seq<MemoryAccess>, i: int, c: MemoryColumns<u32>) -> bool {
    let diff = fsub(fr(s[i + 1].cycle as int) as int, fadd(fr(s[i].cycle as int) as int, 1));
    if i + 1 < s.len() && s[i + 1].address == s[i].address && diff != 0 {
        fmul(c.cycle_diff_inv as int, diff) == 1
    } else {
        c.cycle_diff_inv == 0
    }
}

/// Row `i` of the matrix carries the `i`-th record of the sorted log.
pub open spec fn mem_row_match(s: Seq<MemoryAccess>, i: int, c: MemoryColumns<u32>) -> bool {
    &&& c.address == fr(s[i].address as int)
    &&& c.cycle == fr(s[i].cycle as int)
    &&& c.value == fr(s[i].value as int)
    &&& c.is_write == b2f(s[i].is_write)
    &&& c.same_addr_as_next == b2f(i + 1 < s.len() && s[i + 1].address == s[i].address)
    &&& mem_addr_inv_ok(s, i, c)
    &&& mem_cycle_inv_ok(s, i, c)
}

/// All-zero padding row.
pub open spec fn mem_zero_row() -> MemoryColumns<u32> {
    MemoryColumns {
        address: 0u32,
        cycle: 0u32,
        value: 0u32,
        is_write: 0u32,
        same_addr_as_next: 0u32,
        addr_diff_inv: 0u32,
        cycle_diff_inv: 0u32,
    }
}

/// The rows of `m` are exactly the rows generated from the sorted log `s`:
/// one row per record, then zero padding.
pub open spec fn mem_rows_match(s: Seq<MemoryAccess>, m: WitnessMatrix) -> bool {
    let n = s.len() as int;
    &&& n <= m.rows@.len()
    &&& forall|i: int| 0 <= i < n ==> mem_row_match(s, i, #[trigger] mem_row_cols(m, i))
    &&& forall|i: int|
        n <= i < m.rows@.len() ==> (#[trigger] m.rows@[i])@ == mem_zero_row().row_seq()
}

/// The witness matrix `m` was generated from some sorted permutation of the
/// memory log.
pub open spec fn mem_generated_from(
    log: Seq<MemoryAccess>,
    s: Seq<MemoryAccess>,
    m: WitnessMatrix,
) -> bool {
    &&& mem_sorted(s)
    &&& s.to_multiset() == log.to_multiset()
    &&& s.len() == log.len()
    &&& mem_rows_match(s, m)
}

/// Generate the memory rows from the sorted log.
pub fn mem_rows_from_sorted(sorted: &Vec<MemoryAccess>) -> (m: WitnessMatrix)
    requires
        sorted@.len() <= 0x4000_0000,
    ensures
        m.wf(),
        m.width == MEMORY_NUM_COLUMNS,
        is_padded_height(m.spec_height(), sorted@.len() as nat),
        mem_rows_match(sorted@, m),
{
    let n = sorted.len();
    let height = next_power_of_two_height(n);
    let mut rows: Vec<Vec<u32>> = Vec::new();
    let mut i: usize = 0;
    while i < n
        invariant
            i <= n,
            n == sorted@.len(),
            rows@.len() == i,
            forall|k: int|
                0 <= k < i ==> mem_row_match(sorted@, k, mem_cols_of_seq((#[trigger] rows@[k])@)),
            forall|k: int|
                0 <= k < i ==> (#[trigger] rows@[k])@.len() == MEMORY_NUM_COLUMNS && row_canonical(
                    rows@[k]@,
                ),
        decreases n - i,
    {
        let a = fp_from_u32(sorted[i].address);
        let c = fp_from_u64(sorted[i].cycle);
        let v = fp_from_u32(sorted[i].value);
        let w = fp_from_bool(sorted[i].is_write);
        let mut same: u32 = 0;
        let mut addr_inv: u32 = 0;
        let mut cyc_inv: u32 = 0;
        if i + 1 < n {
            let a2 = fp_from_u32(sorted[i + 1].address);
            let c2 = fp_from_u64(sorted[i + 1].cycle);
            if sorted[i + 1].address == sorted[i].address {
                same = 1;
                let cdiff = fp_sub(c2, fp_add(c, 1));
                if cdiff != 0 {
                    cyc_inv = fp_inverse(cdiff);
                }
            } else {
                let adiff = fp_sub(a2, a);
                if adiff != 0 {
                    addr_inv = fp_inverse(adiff);
                }
            }
        }
        let cols = MemoryColumns::<u32> {
            address: a,
            cycle: c,
            value: v,
            is_write: w,
            same_addr_as_next: same,
            addr_diff_inv: addr_inv,
            cycle_diff_inv: cyc_inv,
        };
        let row = cols.to_row();
        proof {
            lemma_mem_row_view_reversible::<u32>(cols, cols.row_seq());
            assert(mem_row_match(sorted@, i as int, cols));
            assert(forall|j: int| 0 <= j < row@.len() ==> is_canonical(#[trigger] row@[j]));
        }
        rows.push(row);
        i = i + 1;
    }
    let mut j = n;
    while j < height
        invariant
            n <= j <= height,
            n == sorted@.len(),
            rows@.len() == j,
            forall|k: int|
                0 <= k < n ==> mem_row_match(sorted@, k, mem_cols_of_seq((#[trigger] rows@[k])@)),
            forall|k: int| n <= k < j ==> (#[trigger] rows@[k])@ == mem_zero_row().row_seq(),
            forall|k: int|
                0 <= k < j ==> (#[trigger] rows@[k])@.len() == MEMORY_NUM_COLUMNS && row_canonical(
                    rows@[k]@,
                ),
        decreases height - j,
    {
        let row = mem_zero_row_exec();
        rows.push(row);
        j = j + 1;
    }
    let m = WitnessMatrix { rows, width: MEMORY_NUM_COLUMNS };
    proof {
        assert forall|i2: int| 0 <= i2 < n implies mem_row_match(
            sorted@,
            i2,
            #[trigger] mem_row_cols(m, i2),
        ) by {
            assert(mem_row_cols(m, i2) == mem_cols_of_seq(m.rows@[i2]@));
        }
    }
    m
}

/// Build one all-zero padding row.
fn mem_zero_row_exec() -> (r: Vec<u32>)
    ensures
        r@ == mem_zero_row().row_seq(),
        r@.len() == MEMORY_NUM_COLUMNS,
        row_canonical(r@),
{
    let cols = MemoryColumns::<u32> {
        address: 0,
        cycle: 0,
        value: 0,
        is_write: 0,
        same_addr_as_next: 0,
        addr_diff_inv: 0,
        cycle_diff_inv: 0,
    };
    let r = cols.to_row();
    proof {
        assert(cols == mem_zero_row());
        assert(forall|j: int| 0 <= j < r@.len() ==> is_canonical(#[trigger] r@[j]));
    }
    r
}

/// The memory constraints on one row pair.
pub open spec fn mem_constraints(
    l: MemoryColumns<u32>,
    x: MemoryColumns<u32>,
    is_transition: bool,
) -> bool {
    // Boolean columns
    &&& poly_boolean(l.is_write as int)
    &&& poly_boolean(l.same_addr_as_next as int)
    // Same-address grouping: under the flag, the next row repeats the address
    &&& (is_transition ==> fmul(
        l.same_addr_as_next as int,
        fsub(x.address as int, l.address as int),
    ) == 0)
    // Strict cycle growth within a run, certified by the claimed inverse:
    // (next.cycle - cycle - 1) * cycle_diff_inv = 1 under the flag
    &&& (is_transition ==> fmul(
        l.same_addr_as_next as int,
        fsub(fmul(fsub(x.cycle as int, fadd(l.cycle as int, 1)), l.cycle_diff_inv as int), 1),
    ) == 0)
    // Read consistency: a read at the same address repeats the value
    &&& (is_transition ==> fmul(
        fmul(l.same_addr_as_next as int, fsub(1, x.is_write as int)),
        fsub(x.value as int, l.value as int),
    ) == 0)
    // Boundary: the first access of a new address group is a write, or reads
    // the defined initial memory value zero
    &&& (is_transition ==> fmul(
        fmul(fsub(1, l.same_addr_as_next as int), fsub(1, x.is_write as int)),
        x.value as int,
    ) == 0)
}

/// Every row pair satisfies the memory constraints, and the very first row
/// is a write or reads the defined initial memory value zero.
pub open spec fn mem_matrix_ok(m: WitnessMatrix) -> bool {
    &&& forall|i: int|
        0 <= i < m.rows@.len() - 1 ==> mem_constraints(
            mem_cols_of_seq((#[trigger] m.rows@[i])@),
            mem_cols_of_seq(m.rows@[i + 1]@),
            true,
        )
    &&& (m.rows@.len() > 0 ==> mem_constraints(
        mem_cols_of_seq(m.rows@[m.rows@.len() - 1]@),
        mem_cols_of_seq(m.rows@[m.rows@.len() - 1]@),
        false,
    ))
    &&& (m.rows@.len() > 0 ==> fmul(
        fsub(1, mem_row_cols(m, 0).is_write as int),
        mem_row_cols(m, 0).value as int,
    ) == 0)
}

/// Memory chip enforcing read/write consistency.
pub struct MemoryChip;

impl MemoryChip {
    /// The fixed column count of this chip.
    pub fn width(&self) -> (r: usize)
        ensures
            r == MEMORY_NUM_COLUMNS,
    {
        MEMORY_NUM_COLUMNS
    }

    /// Evaluate the memory constraints on the row pair held by the builder.
    pub fn eval(&self, b: &mut ConstraintBuilder)
        requires
            old(b).wf(),
            old(b).local@.len() == MEMORY_NUM_COLUMNS,
            old(b).next@.len() == MEMORY_NUM_COLUMNS,
        ensures
            final(b).local == old(b).local,
            final(b).next == old(b).next,
            final(b).is_transition == old(b).is_transition,
            final(b).ok == (old(b).ok && mem_constraints(
                mem_cols_of_seq(old(b).local@),
                mem_cols_of_seq(old(b).next@),
                old(b).is_transition,
            )),
    {
        let l = MemoryColumns::from_row(&b.local);
        let x = MemoryColumns::from_row(&b.next);
        proof {
            assert(forall|i: int|
                0 <= i < old(b).local@.len() ==> is_canonical(#[trigger] old(b).local@[i]));
            assert(forall|i: int|
                0 <= i < old(b).next@.len() ==> is_canonical(#[trigger] old(b).next@[i]));
        }
        // Boolean constraints
        b.assert_zero(fp_mul(l.is_write, fp_sub(1, l.is_write)));
        b.assert_zero(fp_mul(l.same_addr_as_next, fp_sub(1, l.same_addr_as_next)));
        // Same-address grouping
        b.transition_when_assert_eq(l.same_addr_as_next, x.address, l.address);
        // Strict cycle growth within a run
        let cycle_cert = fp_mul(fp_sub(x.cycle, fp_add(l.cycle, 1)), l.cycle_diff_inv);
        b.transition_when_assert_one(l.same_addr_as_next, cycle_cert);
        // Read consistency
        let same_and_read = fp_mul(l.same_addr_as_next, fp_sub(1, x.is_write));
        b.transition_when_assert_eq(same_and_read, x.value, l.value);
        // Boundary for a new address group
        let new_group_read = fp_mul(fp_sub(1, l.same_addr_as_next), fp_sub(1, x.is_write));
        b.transition_when_assert_zero(new_group_read, x.value);
    }

    /// Generate the memory trace sorted by (address, cycle).
    pub fn generate_trace(&self, trace: &ExecutionTrace) -> (m: WitnessMatrix)
        requires
            trace.memory_log@.len() <= 0x4000_0000,
        ensures
            m.wf(),
            m.width == MEMORY_NUM_COLUMNS,
            is_padded_height(m.spec_height(), trace.memory_log@.len() as nat),
            exists|s: Seq<MemoryAccess>| mem_generated_from(trace.memory_log@, s, m),
    {
        let sorted = trace.sorted_memory_log();
        let m = mem_rows_from_sorted(&sorted);
        proof {
            assert(mem_generated_from(trace.memory_log@, sorted@, m));
        }
        m
    }

    /// Check every row pair of a matrix against the memory constraints,
    /// together with the first-row boundary rule.
    pub fn check_matrix(&self, m: &WitnessMatrix) -> (r: bool)
        requires
            m.wf(),
            m.width == MEMORY_NUM_COLUMNS,
        ensures
            r == mem_matrix_ok(*m),
    {
        let h = m.rows.len();
        let mut ok = true;
        let mut i: usize = 0;
        while i < h - 1
            invariant
                m.wf(),
                m.width == MEMORY_NUM_COLUMNS,
                h == m.rows@.len(),
                2 <= h,
                i <= h - 1,
                ok == (forall|k: int|
                    0 <= k < i ==> mem_constraints(
                        mem_cols_of_seq((#[trigger] m.rows@[k])@),
                        mem_cols_of_seq(m.rows@[k + 1]@),
                        true,
                    )),
            decreases h - 1 - i,
        {
            let local = clone_row(&m.rows[i]);
            let next = clone_row(&m.rows[i + 1]);
            let mut b = ConstraintBuilder::new(local, next, true);
            self.eval(&mut b);
            ok = ok && b.ok;
            i = i + 1;
        }
        let last = clone_row(&m.rows[h - 1]);
        let last_again = clone_row(&m.rows[h - 1]);
        let mut b = ConstraintBuilder::new(last, last_again, false);
        self.eval(&mut b);
        ok = ok && b.ok;
        let first = MemoryColumns::from_row(&m.rows[0]);
        let boundary = fp_mul(fp_sub(1, first.is_write), first.value);
        ok = ok && boundary == 0;
        ok
    }
}

/// A value of 0 or 1 satisfies the boolean polynomial identity.
proof fn lemma_poly_bool01(v: u32)
    requires
        v == 0 || v == 1,
    ensures
        poly_boolean(v as int),
{
    if v == 0 {
        crate::field::lemma_fmul_zero(fsub(1, 0));
    } else {
        assert(fsub(1, 1) == 0);
        crate::field::lemma_fmul_zero(1);
    }
}

/// A sorted log on which the memory constraints hold by construction:
/// adjacent reads are consistent, cycles fit in the field, the cycle gap
/// inside a same-address run is never exactly one (the certificate
/// `(next.cycle - cycle - 1) * inv = 1` has no solution there), and the
/// first access of each address group is a write or reads the defined
/// initial memory value zero.
pub open spec fn mem_log_sound(s: Seq<MemoryAccess>) -> bool {
    &&& mem_sorted(s)
    &&& read_consistent_adjacent(s)
    &&& (forall|i: int| 0 <= i < s.len() ==> (#[trigger] s[i]).cycle < FIELD_MODULUS as u64)
    &&& (forall|i: int|
        0 <= i < s.len() - 1 && (#[trigger] s[i + 1]).address == s[i].address ==> s[i + 1].cycle
            != s[i].cycle + 1)
    &&& (forall|i: int|
        0 <= i < s.len() && (i == 0 || s[i - 1].address != (#[trigger] s[i]).address) && !s[
            i
        ].is_write ==> s[i].value == 0)
}

/// The memory constraints hold on one row pair of a matrix generated from a
/// sound sorted log.
#[verifier::rlimit(60)]
proof fn lemma_mem_generated_pair(s: Seq<MemoryAccess>, m: WitnessMatrix, i: int, is_transition: bool)
    requires
        mem_rows_match(s, m),
        mem_log_sound(s),
        0 <= i < m.rows@.len(),
        is_transition ==> i < m.rows@.len() - 1,
    ensures
        mem_constraints(
            mem_row_cols(m, i),
            mem_row_cols(m, if is_transition {
                i + 1
            } else {
                i
            }),
            is_transition,
        ),
{
    let n = s.len() as int;
    let x_idx = if is_transition {
        i + 1
    } else {
        i
    };
    let c = mem_row_cols(m, i);
    let x = mem_row_cols(m, x_idx);
    if i >= n {
        lemma_mem_row_view_reversible::<u32>(mem_zero_row(), m.rows@[i]@);
        assert(c == mem_zero_row());
    }
    if x_idx >= n {
        lemma_mem_row_view_reversible::<u32>(mem_zero_row(), m.rows@[x_idx]@);
        assert(x == mem_zero_row());
    }
    vstd::arithmetic::div_mod::lemma_small_mod(1nat, FIELD_MODULUS as nat);
    // booleans
    if i < n {
        assert(mem_row_match(s, i, c));
        lemma_poly_bool01(c.is_write);
        lemma_poly_bool01(c.same_addr_as_next);
    } else {
        lemma_poly_bool01(0);
    }
    if is_transition {
        if i < n && i + 1 < n && s[i + 1].address == s[i].address {
            assert(c.same_addr_as_next == 1);
            assert(mem_row_match(s, i + 1, x));
            // the next row repeats the address
            assert(x.address == c.address);
            crate::field::lemma_fsub_self(x.address as int);
            crate::field::lemma_fmul_zero(1);
            // the cycle certificate
            let c1 = s[i].cycle as int;
            let c2 = s[i + 1].cycle as int;
            vstd::arithmetic::div_mod::lemma_small_mod(c1 as nat, FIELD_MODULUS as nat);
            vstd::arithmetic::div_mod::lemma_small_mod(c2 as nat, FIELD_MODULUS as nat);
            assert(mem_le(s[i], s[i + 1]));
            assert(c1 <= c2);
            let a1 = fadd(c1, 1);
            let d = fsub(c2, a1);
            if c1 + 1 < FIELD_MODULUS {
                crate::field::lemma_fadd_small(c1, 1);
                crate::field::lemma_fsub_nonzero(c2, a1);
            } else {
                // c1 = p - 1, so c2 = p - 1 as well, and the difference is -0 - ... nonzero
                assert(a1 == 0);
                assert(c2 == FIELD_MODULUS - 1);
                vstd::arithmetic::div_mod::lemma_small_mod(c2 as nat, FIELD_MODULUS as nat);
                assert(d == c2);
            }
            assert(d != 0);
            assert(fmul(c.cycle_diff_inv as int, d) == 1);
            crate::field::lemma_fmul_comm(c.cycle_diff_inv as int, d);
            assert(fmul(d, c.cycle_diff_inv as int) == 1);
            assert(fsub(1, 1) == 0);
            crate::field::lemma_fmul_zero(1);
            // read consistency
            if !s[i + 1].is_write {
                assert(x.is_write == 0);
                assert(fsub(1, 0) == 1);
                crate::field::lemma_fmul_one(1);
                let i0 = i;
                assert(s[i0 + 1].value == s[i0].value);
                assert(x.value == c.value);
                crate::field::lemma_fsub_self(x.value as int);
                crate::field::lemma_fmul_zero(1);
            } else {
                assert(fsub(1, x.is_write as int) == 0);
                crate::field::lemma_fmul_zero(1);
                crate::field::lemma_fmul_zero(fsub(x.value as int, c.value as int));
            }
            // boundary guard vanishes
            assert(fsub(1, c.same_addr_as_next as int) == 0);
            crate::field::lemma_fmul_zero(fsub(1, x.is_write as int));
            crate::field::lemma_fmul_zero(x.value as int);
        } else {
            // no same-address run into the next row
            assert(c.same_addr_as_next == 0);
            crate::field::lemma_fmul_zero(fsub(x.address as int, c.address as int));
            crate::field::lemma_fmul_zero(
                fsub(fmul(fsub(x.cycle as int, fadd(c.cycle as int, 1)), c.cycle_diff_inv as int), 1),
            );
            crate::field::lemma_fmul_zero(fsub(1, x.is_write as int));
            crate::field::lemma_fmul_zero(fsub(x.value as int, c.value as int));
            // boundary of a new address group
            assert(fsub(1, 0) == 1);
            if x_idx < n {
                if !s[x_idx].is_write {
                    assert(x.is_write == 0);
                    crate::field::lemma_fmul_one(1);
                    assert(s[x_idx].value == 0);
                    assert(x.value == 0);
                    crate::field::lemma_fmul_zero(1);
                } else {
                    assert(fsub(1, x.is_write as int) == 0);
                    crate::field::lemma_fmul_zero(1);
                    crate::field::lemma_fmul_zero(x.value as int);
                }
            } else {
                assert(x.is_write == 0 && x.value == 0);
                crate::field::lemma_fmul_one(1);
                crate::field::lemma_fmul_zero(1);
            }
        }
    }
}

/// Pairing of the generator with the evaluator: a memory matrix generated
/// from a sound sorted log satisfies the memory constraints on every row
/// pair and at the first-row boundary, by construction.
pub proof fn lemma_mem_generated_satisfies_constraints(s: Seq<MemoryAccess>, m: WitnessMatrix)
    requires
        mem_rows_match(s, m),
        mem_log_sound(s),
        m.rows@.len() >= 2,
    ensures
        mem_matrix_ok(m),
{
    let n = s.len() as int;
    assert forall|i: int| 0 <= i < m.rows@.len() - 1 implies mem_constraints(
        mem_cols_of_seq((#[trigger] m.rows@[i])@),
        mem_cols_of_seq(m.rows@[i + 1]@),
        true,
    ) by {
        lemma_mem_generated_pair(s, m, i, true);
    }
    lemma_mem_generated_pair(s, m, m.rows@.len() - 1, false);
    // the very first access is a write or reads the initial value zero
    let f = mem_row_cols(m, 0);
    if n > 0 {
        assert(mem_row_match(s, 0, f));
        if !s[0].is_write {
            assert(s[0].value == 0);
            assert(f.is_write == 0 && f.value == 0);
            crate::field::lemma_fmul_zero(fsub(1, 0));
        } else {
            assert(fsub(1, f.is_write as int) == 0);
            crate::field::lemma_fmul_zero(f.value as int);
        }
    } else {
        lemma_mem_row_view_reversible::<u32>(mem_zero_row(), m.rows@[0]@);
        assert(f == mem_zero_row());
        crate::field::lemma_fmul_zero(fsub(1, 0));
    }
}

/// Adjacent read consistency on a record sequence: a read that follows a
/// record at the same address carries that record's value.
pub open spec fn read_consistent_adjacent(s: Seq<MemoryAccess>) -> bool {
    forall|i: int|
        0 <= i < s.len() - 1 && (#[trigger] s[i + 1]).address == s[i].address && !s[i + 1].is_write
            ==> s[i + 1].value == s[i].value
}

/// Soundness of the read-consistency constraint: when a matrix built from a
/// log with field-sized values satisfies the memory constraints, adjacent
/// reads in the log agree with their same-address predecessor.
pub proof fn lemma_mem_constraints_give_read_consistency(s: Seq<MemoryAccess>, m: WitnessMatrix)
    requires
        mem_rows_match(s, m),
        mem_matrix_ok(m),
        forall|i: int| 0 <= i < s.len() ==> (#[trigger] s[i]).value < FIELD_MODULUS,
    ensures
        read_consistent_adjacent(s),
{
    assert forall|i: int|
        0 <= i < s.len() - 1 && (#[trigger] s[i + 1]).address == s[i].address && !s[
            i + 1
        ].is_write implies s[i + 1].value == s[i].value by {
        let c = mem_row_cols(m, i);
        let x = mem_row_cols(m, i + 1);
        assert(mem_row_match(s, i, c));
        assert(mem_row_match(s, i + 1, x));
        assert(c.same_addr_as_next == 1);
        assert(x.is_write == 0);
        assert(i < m.rows@.len() - 1);
        assert(mem_constraints(
            mem_cols_of_seq((m.rows@[i])@),
            mem_cols_of_seq(m.rows@[i + 1]@),
            true,
        ));
        vstd::arithmetic::div_mod::lemma_small_mod(1nat, FIELD_MODULUS as nat);
        assert(fsub(1, 0) == 1);
        crate::field::lemma_fmul_one(1);
        let z = fsub(x.value as int, c.value as int);
        vstd::arithmetic::div_mod::lemma_mod_bound(
            x.value as int - c.value as int,
            FIELD_MODULUS as int,
        );
        crate::field::lemma_fmul_one(z);
        assert(z == 0);
        let v1 = s[i].value;
        let v2 = s[i + 1].value;
        vstd::arithmetic::div_mod::lemma_small_mod(v1 as nat, FIELD_MODULUS as nat);
        vstd::arithmetic::div_mod::lemma_small_mod(v2 as nat, FIELD_MODULUS as nat);
        if v1 != v2 {
            crate::field::lemma_fsub_nonzero(v2 as int, v1 as int);
        }
    }
}

/// Within a same-address run of reads, the value is carried forward.
proof fn lemma_mem_value_run(s: Seq<MemoryAccess>, j: int, k: int)
    requires
        mem_sorted(s),
        read_consistent_adjacent(s),
        0 <= j <= k < s.len(),
        s[j].address == s[k].address,
        forall|t: int| j < t <= k ==> !(#[trigger] s[t]).is_write,
    ensures
        s[k].value == s[j].value,
    decreases k - j,
{
    if j < k {
        if j < k - 1 {
            assert(mem_le(s[j], s[k - 1]));
            assert(mem_le(s[k - 1], s[k]));
        }
        assert(s[k - 1].address == s[j].address);
        lemma_mem_value_run(s, j, k - 1);
        let i0 = k - 1;
        assert(s[i0 + 1].address == s[i0].address);
        assert(!s[i0 + 1].is_write);
        assert(s[i0 + 1].value == s[i0].value);
    }
}

/// Read-after-write: in a sorted, adjacently read-consistent log, a read
/// returns the value of the nearest preceding write to its address.
pub proof fn lemma_read_after_write(s: Seq<MemoryAccess>, j: int, k: int)
    requires
        mem_sorted(s),
        read_consistent_adjacent(s),
        0 <= j < k < s.len(),
        s[j].address == s[k].address,
        s[j].is_write,
        !s[k].is_write,
        forall|t: int|
            j < t < k ==> !((#[trigger] s[t]).is_write && s[t].address == s[j].address),
    ensures
        s[k].value == s[j].value,
{
    assert forall|t: int| j < t <= k implies !(#[trigger] s[t]).is_write by {
        if t < k {
            assert(mem_le(s[j], s[t]));
            assert(mem_le(s[t], s[k]));
            assert(s[t].address == s[j].address);
        }
    }
    lemma_mem_value_run(s, j, k);
}

} // verus!
