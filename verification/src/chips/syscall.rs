//! Syscall chips for cryptographic operations.
//!
//! Each chip handles one syscall code, filters the shared syscall log by that
//! code, and contributes its own columns and trace rows. The round-level
//! cryptographic state columns (S-box, MDS layer, bit decompositions) are an
//! open design gap of this layer: the rows carry the per-call and per-round
//! metadata, and the state columns are left zero.

use vstd::prelude::*;

use crate::builder::row_canonical;
use crate::chips::cpu::{b2f, fr};
use crate::field::{fp_from_u32, fp_from_u64};
use crate::matrix::{is_padded_height, next_power_of_two_height, WitnessMatrix};
use crate::trace::{filter_by_code, SyscallCode, SyscallRecord};

verus! {

/// Poseidon2 state width.
pub const POSEIDON2_WIDTH: usize = 16;

/// Number of full Poseidon2 rounds.
pub const POSEIDON2_FULL_ROUNDS: usize = 8;

/// Number of partial Poseidon2 rounds.
pub const POSEIDON2_PARTIAL_ROUNDS: usize = 14;

/// Rows per Poseidon2 invocation: one per round.
pub const POSEIDON2_ROUNDS: usize = 22;

/// Number of columns in the Poseidon2 trace: cycle, round, full-round flag,
/// and two 16-element state snapshots.
pub const POSEIDON2_NUM_COLUMNS: usize = 35;

/// Number of columns in the SHA256 trace.
pub const SHA256_NUM_COLUMNS: usize = 20;

/// SHA256 block size in 32-bit words.
pub const SHA256_BLOCK_WORDS: usize = 16;

/// SHA256 rounds per block.
pub const SHA256_ROUNDS: usize = 64;

/// SHA256 hash size in 32-bit words.
pub const SHA256_HASH_WORDS: usize = 8;

/// Common interface for syscall chips.
pub trait SyscallChip {
    /// The syscall code this chip handles.
    spec fn spec_syscall_code(&self) -> u32;

    /// The number of constraints per invocation.
    spec fn spec_constraints_per_call(&self) -> usize;

    /// Syscall code this chip handles.
    fn syscall_code(&self) -> (r: u32)
        ensures
            r == self.spec_syscall_code(),
    ;

    /// Number of constraints per invocation.
    fn constraints_per_call(&self) -> (r: usize)
        ensures
            r == self.spec_constraints_per_call(),
    ;
}

/// Poseidon2 trace columns.
#[derive(Clone, Copy, Debug)]
pub struct Poseidon2Columns<T> {
    /// Cycle when the syscall was invoked
    pub cycle: T,
    /// Round number (0 to full + partial rounds - 1)
    pub round: T,
    /// Is this a full round?
    pub is_full_round: T,
    /// Current state (16 field elements)
    pub state: [T; 16],
    /// State after S-box application
    pub state_after_sbox: [T; 16],
}

/// SHA256 trace columns for one round. The schema reserves one trailing
/// unused cell so that each row spans the fixed chip width.
#[derive(Clone, Copy, Debug)]
pub struct Sha256Columns<T> {
    /// Cycle when the syscall was invoked
    pub cycle: T,
    /// Block index (for multi-block messages)
    pub block_idx: T,
    /// Round number (0-63)
    pub round: T,
    /// Working variable a
    pub a: T,
    /// Working variable b
    pub b: T,
    /// Working variable c
    pub c: T,
    /// Working variable d
    pub d: T,
    /// Working variable e
    pub e: T,
    /// Working variable f
    pub f: T,
    /// Working variable g
    pub g: T,
    /// Working variable h
    pub h: T,
    /// Message schedule word for this round
    pub w: T,
    /// Round constant
    pub k: T,
    /// Ch(e, f, g) = (e AND f) XOR (NOT e AND g)
    pub ch: T,
    /// Maj(a, b, c), the bitwise majority
    pub maj: T,
    /// Sigma0(a)
    pub sigma0: T,
    /// Sigma1(e)
    pub sigma1: T,
    /// temp1 = h + sigma1 + ch + k + w
    pub temp1: T,
    /// temp2 = sigma0 + maj
    pub temp2: T,
}

/// The SHA256 round constants, in round order.
pub open spec fn spec_sha256_k() -> Seq<u32> {
    seq![
        0x428a2f98u32, 0x71374491, 0xb5c0fbcf, 0xe9b5dba5, 0x3956c25b, 0x59f111f1, 0x923f82a4,
        0xab1c5ed5, 0xd807aa98, 0x12835b01, 0x243185be, 0x550c7dc3, 0x72be5d74, 0x80deb1fe,
        0x9bdc06a7, 0xc19bf174, 0xe49b69c1, 0xefbe4786, 0x0fc19dc6, 0x240ca1cc, 0x2de92c6f,
        0x4a7484aa, 0x5cb0a9dc, 0x76f988da, 0x983e5152, 0xa831c66d, 0xb00327c8, 0xbf597fc7,
        0xc6e00bf3, 0xd5a79147, 0x06ca6351, 0x14292967, 0x27b70a85, 0x2e1b2138, 0x4d2c6dfc,
        0x53380d13, 0x650a7354, 0x766a0abb, 0x81c2c92e, 0x92722c85, 0xa2bfe8a1, 0xa81a664b,
        0xc24b8b70, 0xc76c51a3, 0xd192e819, 0xd6990624, 0xf40e3585, 0x106aa070, 0x19a4c116,
        0x1e376c08, 0x2748774c, 0x34b0bcb5, 0x391c0cb3, 0x4ed8aa4a, 0x5b9cca4f, 0x682e6ff3,
        0x748f82ee, 0x78a5636f, 0x84c87814, 0x8cc70208, 0x90befffa, 0xa4506ceb, 0xbef9a3f7,
        0xc67178f2,
    ]
}

/// The SHA256 initial hash values.
pub open spec fn spec_sha256_h() -> Seq<u32> {
    seq![
        0x6a09e667u32, 0xbb67ae85, 0x3c6ef372, 0xa54ff53a, 0x510e527f, 0x9b05688c, 0x1f83d9ab,
        0x5be0cd19,
    ]
}

/// The SHA256 round constants.
#[verifier::rlimit(60)]
pub fn sha256_round_constants() -> (r: Vec<u32>)
    ensures
        r@ == spec_sha256_k(),
{
    let mut r: Vec<u32> = Vec::new();
    r.push(0x428a2f98);
    r.push(0x71374491);
    r.push(0xb5c0fbcf);
    r.push(0xe9b5dba5);
    r.push(0x3956c25b);
    r.push(0x59f111f1);
    r.push(0x923f82a4);
    r.push(0xab1c5ed5);
    r.push(0xd807aa98);
    r.push(0x12835b01);
    r.push(0x243185be);
    r.push(0x550c7dc3);
    r.push(0x72be5d74);
    r.push(0x80deb1fe);
    r.push(0x9bdc06a7);
    r.push(0xc19bf174);
    r.push(0xe49b69c1);
    r.push(0xefbe4786);
    r.push(0x0fc19dc6);
    r.push(0x240ca1cc);
    r.push(0x2de92c6f);
    r.push(0x4a7484aa);
    r.push(0x5cb0a9dc);
    r.push(0x76f988da);
    r.push(0x983e5152);
    r.push(0xa831c66d);
    r.push(0xb00327c8);
    r.push(0xbf597fc7);
    r.push(0xc6e00bf3);
    r.push(0xd5a79147);
    r.push(0x06ca6351);
    r.push(0x14292967);
    r.push(0x27b70a85);
    r.push(0x2e1b2138);
    r.push(0x4d2c6dfc);
    r.push(0x53380d13);
    r.push(0x650a7354);
    r.push(0x766a0abb);
    r.push(0x81c2c92e);
    r.push(0x92722c85);
    r.push(0xa2bfe8a1);
    r.push(0xa81a664b);
    r.push(0xc24b8b70);
    r.push(0xc76c51a3);
    r.push(0xd192e819);
    r.push(0xd6990624);
    r.push(0xf40e3585);
    r.push(0x106aa070);
    r.push(0x19a4c116);
    r.push(0x1e376c08);
    r.push(0x2748774c);
    r.push(0x34b0bcb5);
    r.push(0x391c0cb3);
    r.push(0x4ed8aa4a);
    r.push(0x5b9cca4f);
    r.push(0x682e6ff3);
    r.push(0x748f82ee);
    r.push(0x78a5636f);
    r.push(0x84c87814);
    r.push(0x8cc70208);
    r.push(0x90befffa);
    r.push(0xa4506ceb);
    r.push(0xbef9a3f7);
    r.push(0xc67178f2);
    proof {
        assert(r@ =~= spec_sha256_k());
    }
    r
}

/// The SHA256 initial hash values.
pub fn sha256_initial_hash() -> (r: Vec<u32>)
    ensures
        r@ == spec_sha256_h(),
{
    let mut r: Vec<u32> = Vec::new();
    r.push(0x6a09e667);
    r.push(0xbb67ae85);
    r.push(0x3c6ef372);
    r.push(0xa54ff53a);
    r.push(0x510e527f);
    r.push(0x9b05688c);
    r.push(0x1f83d9ab);
    r.push(0x5be0cd19);
    proof {
        assert(r@ =~= spec_sha256_h());
    }
    r
}

/// The records of the log carrying the given code, in order.
fn records_with_code<'a>(syscalls: &'a Vec<SyscallRecord>, code: u32) -> (r: Vec<
    &'a SyscallRecord,
>)
    ensures
        r@.len() == filter_by_code(syscalls@, code).len(),
        forall|i: int|
            0 <= i < r@.len() ==> *(#[trigger] r@[i]) == filter_by_code(syscalls@, code)[i],
{
    let mut r: Vec<&SyscallRecord> = Vec::new();
    let n = syscalls.len();
    let mut idx: usize = 0;
    while idx < n
        invariant
            idx <= n,
            n == syscalls@.len(),
            r@.len() == filter_by_code(syscalls@.subrange(0, idx as int), code).len(),
            forall|i: int|
                0 <= i < r@.len() ==> *(#[trigger] r@[i]) == filter_by_code(
                    syscalls@.subrange(0, idx as int),
                    code,
                )[i],
        decreases n - idx,
    {
        proof {
            let prefix = syscalls@.subrange(0, idx as int + 1);
            assert(prefix.drop_last() =~= syscalls@.subrange(0, idx as int));
            assert(prefix.last() == syscalls@[idx as int]);
        }
        if syscalls[idx].code == code {
            r.push(&syscalls[idx]);
        }
        idx = idx + 1;
    }
    proof {
        assert(syscalls@.subrange(0, n as int) =~= syscalls@);
    }
    r
}

/// The Poseidon2 row for round `r` of one call: cycle, round index, the
/// full-round flag (the first and last four rounds are full), and the zeroed
/// state snapshots.
pub open spec fn poseidon2_row_for(cycle: u64, r: int) -> Seq<u32> {
    seq![fr(cycle as int), r as u32, b2f(r < 4 || r >= 18)] + Seq::new(32nat, |k: int| 0u32)
}

/// An all-zero Poseidon2 padding row.
pub open spec fn poseidon2_zero_row() -> Seq<u32> {
    Seq::new(35nat, |k: int| 0u32)
}

/// The rows of `m` are the Poseidon2 rounds of the filtered calls, in call
/// order, 22 rows per call, then zero padding.
pub open spec fn poseidon2_rows_match(calls: Seq<SyscallRecord>, m: WitnessMatrix) -> bool {
    let total = calls.len() as int * 22;
    &&& total <= m.rows@.len()
    &&& forall|i: int|
        0 <= i < total ==> (#[trigger] m.rows@[i])@ == poseidon2_row_for(calls[i / 22].cycle, i % 22)
    &&& forall|i: int| total <= i < m.rows@.len() ==> (#[trigger] m.rows@[i])@ == poseidon2_zero_row()
}

/// Build the Poseidon2 row for round `r` of one call.
fn poseidon2_row(cycle: u64, r: usize) -> (row: Vec<u32>)
    requires
        r < 22,
    ensures
        row@ == poseidon2_row_for(cycle, r as int),
        row@.len() == POSEIDON2_NUM_COLUMNS,
        row_canonical(row@),
{
    let mut row: Vec<u32> = Vec::new();
    row.push(fp_from_u64(cycle));
    row.push(r as u32);
    if r < 4 || r >= 18 {
        row.push(1);
    } else {
        row.push(0);
    }
    let mut k: usize = 0;
    while k < 32
        invariant
            k <= 32,
            row@.len() == 3 + k,
            row@[0] == fr(cycle as int),
            row@[1] == r as u32,
            row@[2] == b2f(r < 4 || r >= 18),
            forall|t: int| 3 <= t < row@.len() ==> #[trigger] row@[t] == 0u32,
            r < 22,
        decreases 32 - k,
    {
        row.push(0);
        k = k + 1;
    }
    proof {
        assert(row@ =~= poseidon2_row_for(cycle, r as int));
    }
    row
}

/// Build an all-zero Poseidon2 padding row.
fn poseidon2_zero_row_exec() -> (row: Vec<u32>)
    ensures
        row@ == poseidon2_zero_row(),
        row@.len() == POSEIDON2_NUM_COLUMNS,
        row_canonical(row@),
{
    let mut row: Vec<u32> = Vec::new();
    let mut k: usize = 0;
    while k < 35
        invariant
            k <= 35,
            row@.len() == k,
            forall|t: int| 0 <= t < row@.len() ==> #[trigger] row@[t] == 0u32,
        decreases 35 - k,
    {
        row.push(0);
        k = k + 1;
    }
    proof {
        assert(row@ =~= poseidon2_zero_row());
    }
    row
}

/// Poseidon2 chip for hash operations.
pub struct Poseidon2Chip {
    /// Round constants
    pub round_constants: Vec<[u32; 16]>,
    /// MDS matrix (internal linear layer)
    pub mds_matrix: [[u32; 16]; 16],
}

impl Poseidon2Chip {
    /// Create the chip. The concrete Baby Bear round constants and MDS
    /// matrix belong to the round-level arithmetization, which is outside
    /// this layer's scope; the tables are zero-initialized.
    pub fn new() -> (r: Self)
        ensures
            r.round_constants@.len() == POSEIDON2_FULL_ROUNDS + POSEIDON2_PARTIAL_ROUNDS,
    {
        let mut round_constants: Vec<[u32; 16]> = Vec::new();
        let mut i: usize = 0;
        while i < 22
            invariant
                i <= 22,
                round_constants@.len() == i,
            decreases 22 - i,
        {
            round_constants.push([0u32; 16]);
            i = i + 1;
        }
        Poseidon2Chip { round_constants, mds_matrix: [[0u32; 16]; 16] }
    }

    /// The fixed column count of this chip.
    pub fn width(&self) -> (r: usize)
        ensures
            r == POSEIDON2_NUM_COLUMNS,
    {
        POSEIDON2_NUM_COLUMNS
    }

    /// Generate the Poseidon2 trace: 22 round rows per call carrying this
    /// chip's syscall code, padded with zero rows to a power of two.
    pub fn generate_trace(&self, syscalls: &Vec<SyscallRecord>) -> (m: WitnessMatrix)
        requires
            syscalls@.len() <= 0x100_0000,
        ensures
            m.wf(),
            m.width == POSEIDON2_NUM_COLUMNS,
            is_padded_height(
                m.spec_height(),
                (filter_by_code(syscalls@, SyscallCode::Poseidon2.spec_code()).len() * 22) as nat,
            ),
            poseidon2_rows_match(filter_by_code(syscalls@, SyscallCode::Poseidon2.spec_code()), m),
    {
        let code = SyscallCode::Poseidon2.as_u32();
        let calls = records_with_code(syscalls, code);
        proof {
            filter_by_code_len(syscalls@, code);
        }
        let nc = calls.len();
        let total = nc * 22;
        let height = next_power_of_two_height(total);
        let ghost fcalls = filter_by_code(syscalls@, code);
        let mut rows: Vec<Vec<u32>> = Vec::new();
        let mut j: usize = 0;
        while j < nc
            invariant
                j <= nc,
                nc == fcalls.len(),
                nc * 22 == total,
                total <= 0x1_0000_0000,
                fcalls == filter_by_code(syscalls@, code),
                calls@.len() == nc,
                forall|t: int| 0 <= t < nc ==> *(#[trigger] calls@[t]) == fcalls[t],
                rows@.len() == j * 22,
                forall|i: int|
                    0 <= i < j * 22 ==> (#[trigger] rows@[i])@ == poseidon2_row_for(
                        fcalls[i / 22].cycle,
                        i % 22,
                    ),
                forall|i: int|
                    0 <= i < rows@.len() ==> (#[trigger] rows@[i])@.len() == POSEIDON2_NUM_COLUMNS
                        && row_canonical(rows@[i]@),
            decreases nc - j,
        {
            let cycle = calls[j].cycle;
            let mut r: usize = 0;
            while r < 22
                invariant
                    r <= 22,
                    j < nc,
                    nc == fcalls.len(),
                    nc * 22 == total,
                    total <= 0x1_0000_0000,
                    fcalls == filter_by_code(syscalls@, code),
                    calls@.len() == nc,
                    forall|t: int| 0 <= t < nc ==> *(#[trigger] calls@[t]) == fcalls[t],
                    cycle == fcalls[j as int].cycle,
                    rows@.len() == j * 22 + r,
                    forall|i: int|
                        0 <= i < j * 22 + r ==> (#[trigger] rows@[i])@ == poseidon2_row_for(
                            fcalls[i / 22].cycle,
                            i % 22,
                        ),
                    forall|i: int|
                        0 <= i < rows@.len() ==> (#[trigger] rows@[i])@.len()
                            == POSEIDON2_NUM_COLUMNS && row_canonical(rows@[i]@),
                decreases 22 - r,
            {
                let row = poseidon2_row(cycle, r);
                proof {
                    let i = j * 22 + r;
                    vstd::arithmetic::div_mod::lemma_fundamental_div_mod_converse(
                        i as int,
                        22,
                        j as int,
                        r as int,
                    );
                    assert(i as int / 22 == j as int && i as int % 22 == r as int);
                    assert(row@ == poseidon2_row_for(fcalls[j as int].cycle, r as int));
                }
                rows.push(row);
                r = r + 1;
            }
            j = j + 1;
        }
        let mut p = total;
        while p < height
            invariant
                total <= p <= height,
                rows@.len() == p,
                nc == fcalls.len(),
                nc * 22 == total,
                forall|i: int|
                    0 <= i < total ==> (#[trigger] rows@[i])@ == poseidon2_row_for(
                        fcalls[i / 22].cycle,
                        i % 22,
                    ),
                forall|i: int| total <= i < p ==> (#[trigger] rows@[i])@ == poseidon2_zero_row(),
                forall|i: int|
                    0 <= i < rows@.len() ==> (#[trigger] rows@[i])@.len() == POSEIDON2_NUM_COLUMNS
                        && row_canonical(rows@[i]@),
            decreases height - p,
        {
            let row = poseidon2_zero_row_exec();
            rows.push(row);
            p = p + 1;
        }
        WitnessMatrix { rows, width: POSEIDON2_NUM_COLUMNS }
    }
}

impl Default for Poseidon2Chip {
    /// The same chip as `new` builds.
    fn default() -> (r: Self)
        ensures
            r.round_constants@.len() == POSEIDON2_FULL_ROUNDS + POSEIDON2_PARTIAL_ROUNDS,
    {
        Poseidon2Chip::new()
    }
}

impl SyscallChip for Poseidon2Chip {
    open spec fn spec_syscall_code(&self) -> u32 {
        SyscallCode::Poseidon2.spec_code()
    }

    open spec fn spec_constraints_per_call(&self) -> usize {
        200
    }

    fn syscall_code(&self) -> (r: u32) {
        SyscallCode::Poseidon2.as_u32()
    }

    fn constraints_per_call(&self) -> (r: usize) {
        200
    }
}

/// The filtered subsequence is never longer than the log.
pub proof fn filter_by_code_len(s: Seq<SyscallRecord>, c: u32)
    ensures
        filter_by_code(s, c).len() <= s.len(),
    decreases s.len(),
{
    if s.len() > 0 {
        filter_by_code_len(s.drop_last(), c);
    }
}

/// The SHA256 row for round `r` of one call: cycle, block index, round
/// index and the round constant; the working variables and derived values
/// belong to the bit-level arithmetization, which is outside this layer's
/// scope, and are left zero.
pub open spec fn sha256_row_for(cycle: u64, r: int) -> Seq<u32> {
    seq![
        fr(cycle as int),
        0u32,
        r as u32,
        0u32,
        0u32,
        0u32,
        0u32,
        0u32,
        0u32,
        0u32,
        0u32,
        0u32,
        fr(spec_sha256_k()[r] as int),
        0u32,
        0u32,
        0u32,
        0u32,
        0u32,
        0u32,
        0u32,
    ]
}

/// An all-zero SHA256 padding row.
pub open spec fn sha256_zero_row() -> Seq<u32> {
    Seq::new(20nat, |k: int| 0u32)
}

/// The rows of `m` are the SHA256 rounds of the filtered calls, in call
/// order, 64 rows per call, then zero padding.
pub open spec fn sha256_rows_match(calls: Seq<SyscallRecord>, m: WitnessMatrix) -> bool {
    let total = calls.len() as int * 64;
    &&& total <= m.rows@.len()
    &&& forall|i: int|
        0 <= i < total ==> (#[trigger] m.rows@[i])@ == sha256_row_for(calls[i / 64].cycle, i % 64)
    &&& forall|i: int| total <= i < m.rows@.len() ==> (#[trigger] m.rows@[i])@ == sha256_zero_row()
}

/// Build the SHA256 row for round `r` of one call.
fn sha256_row(cycle: u64, r: usize, k_consts: &Vec<u32>) -> (row: Vec<u32>)
    requires
        r < 64,
        k_consts@ == spec_sha256_k(),
    ensures
        row@ == sha256_row_for(cycle, r as int),
        row@.len() == SHA256_NUM_COLUMNS,
        row_canonical(row@),
{
    let mut row: Vec<u32> = Vec::new();
    row.push(fp_from_u64(cycle));
    row.push(0);
    row.push(r as u32);
    let mut k: usize = 0;
    while k < 9
        invariant
            k <= 9,
            row@.len() == 3 + k,
            row@[0] == fr(cycle as int),
            row@[1] == 0u32,
            row@[2] == r as u32,
            forall|t: int| 3 <= t < row@.len() ==> #[trigger] row@[t] == 0u32,
        decreases 9 - k,
    {
        row.push(0);
        k = k + 1;
    }
    row.push(fp_from_u32(k_consts[r]));
    let mut k2: usize = 0;
    while k2 < 7
        invariant
            k2 <= 7,
            row@.len() == 13 + k2,
            row@[0] == fr(cycle as int),
            row@[1] == 0u32,
            row@[2] == r as u32,
            forall|t: int| 3 <= t < 12 ==> #[trigger] row@[t] == 0u32,
            row@[12] == fr(spec_sha256_k()[r as int] as int),
            forall|t: int| 13 <= t < row@.len() ==> #[trigger] row@[t] == 0u32,
            r < 64,
        decreases 7 - k2,
    {
        row.push(0);
        k2 = k2 + 1;
    }
    proof {
        assert(row@ =~= sha256_row_for(cycle, r as int));
    }
    row
}

/// Build an all-zero SHA256 padding row.
fn sha256_zero_row_exec() -> (row: Vec<u32>)
    ensures
        row@ == sha256_zero_row(),
        row@.len() == SHA256_NUM_COLUMNS,
        row_canonical(row@),
{
    let mut row: Vec<u32> = Vec::new();
    let mut k: usize = 0;
    while k < 20
        invariant
            k <= 20,
            row@.len() == k,
            forall|t: int| 0 <= t < row@.len() ==> #[trigger] row@[t] == 0u32,
        decreases 20 - k,
    {
        row.push(0);
        k = k + 1;
    }
    proof {
        assert(row@ =~= sha256_zero_row());
    }
    row
}

/// SHA256 chip for hash operations.
pub struct Sha256Chip;

impl Sha256Chip {
    /// Create the chip.
    pub fn new() -> (r: Self) {
        Sha256Chip
    }

    /// The fixed column count of this chip.
    pub fn width(&self) -> (r: usize)
        ensures
            r == SHA256_NUM_COLUMNS,
    {
        SHA256_NUM_COLUMNS
    }

    /// Generate the SHA256 trace: 64 round rows per call carrying this
    /// chip's syscall code, padded with zero rows to a power of two.
    pub fn generate_trace(&self, syscalls: &Vec<SyscallRecord>) -> (m: WitnessMatrix)
        requires
            syscalls@.len() <= 0x100_0000,
        ensures
            m.wf(),
            m.width == SHA256_NUM_COLUMNS,
            is_padded_height(
                m.spec_height(),
                (filter_by_code(syscalls@, SyscallCode::Sha256.spec_code()).len() * 64) as nat,
            ),
            sha256_rows_match(filter_by_code(syscalls@, SyscallCode::Sha256.spec_code()), m),
    {
        let code = SyscallCode::Sha256.as_u32();
        let calls = records_with_code(syscalls, code);
        proof {
            filter_by_code_len(syscalls@, code);
        }
        let k_consts = sha256_round_constants();
        let nc = calls.len();
        let total = nc * 64;
        let height = next_power_of_two_height(total);
        let ghost fcalls = filter_by_code(syscalls@, code);
        let mut rows: Vec<Vec<u32>> = Vec::new();
        let mut j: usize = 0;
        while j < nc
            invariant
                j <= nc,
                nc == fcalls.len(),
                nc * 64 == total,
                total <= 0x1_0000_0000,
                fcalls == filter_by_code(syscalls@, code),
                calls@.len() == nc,
                k_consts@ == spec_sha256_k(),
                forall|t: int| 0 <= t < nc ==> *(#[trigger] calls@[t]) == fcalls[t],
                rows@.len() == j * 64,
                forall|i: int|
                    0 <= i < j * 64 ==> (#[trigger] rows@[i])@ == sha256_row_for(
                        fcalls[i / 64].cycle,
                        i % 64,
                    ),
                forall|i: int|
                    0 <= i < rows@.len() ==> (#[trigger] rows@[i])@.len() == SHA256_NUM_COLUMNS
                        && row_canonical(rows@[i]@),
            decreases nc - j,
        {
            let cycle = calls[j].cycle;
            let mut r: usize = 0;
            while r < 64
                invariant
                    r <= 64,
                    j < nc,
                    nc == fcalls.len(),
                    nc * 64 == total,
                    total <= 0x1_0000_0000,
                    fcalls == filter_by_code(syscalls@, code),
                    calls@.len() == nc,
                    k_consts@ == spec_sha256_k(),
                    forall|t: int| 0 <= t < nc ==> *(#[trigger] calls@[t]) == fcalls[t],
                    cycle == fcalls[j as int].cycle,
                    rows@.len() == j * 64 + r,
                    forall|i: int|
                        0 <= i < j * 64 + r ==> (#[trigger] rows@[i])@ == sha256_row_for(
                            fcalls[i / 64].cycle,
                            i % 64,
                        ),
                    forall|i: int|
                        0 <= i < rows@.len() ==> (#[trigger] rows@[i])@.len() == SHA256_NUM_COLUMNS
                            && row_canonical(rows@[i]@),
                decreases 64 - r,
            {
                let row = sha256_row(cycle, r, &k_consts);
                proof {
                    let i = j * 64 + r;
                    vstd::arithmetic::div_mod::lemma_fundamental_div_mod_converse(
                        i as int,
                        64,
                        j as int,
                        r as int,
                    );
                    assert(i as int / 64 == j as int && i as int % 64 == r as int);
                    assert(row@ == sha256_row_for(fcalls[j as int].cycle, r as int));
                }
                rows.push(row);
                r = r + 1;
            }
            j = j + 1;
        }
        let mut p = total;
        while p < height
            invariant
                total <= p <= height,
                rows@.len() == p,
                nc == fcalls.len(),
                nc * 64 == total,
                forall|i: int|
                    0 <= i < total ==> (#[trigger] rows@[i])@ == sha256_row_for(
                        fcalls[i / 64].cycle,
                        i % 64,
                    ),
                forall|i: int| total <= i < p ==> (#[trigger] rows@[i])@ == sha256_zero_row(),
                forall|i: int|
                    0 <= i < rows@.len() ==> (#[trigger] rows@[i])@.len() == SHA256_NUM_COLUMNS
                        && row_canonical(rows@[i]@),
            decreases height - p,
        {
            let row = sha256_zero_row_exec();
            rows.push(row);
            p = p + 1;
        }
        WitnessMatrix { rows, width: SHA256_NUM_COLUMNS }
    }
}

impl Default for Sha256Chip {
    /// The same chip as `new` builds.
    fn default() -> (r: Self) {
        Sha256Chip::new()
    }
}

impl SyscallChip for Sha256Chip {
    open spec fn spec_syscall_code(&self) -> u32 {
        SyscallCode::Sha256.spec_code()
    }

    open spec fn spec_constraints_per_call(&self) -> usize {
        20000
    }

    fn syscall_code(&self) -> (r: u32) {
        SyscallCode::Sha256.as_u32()
    }

    fn constraints_per_call(&self) -> (r: usize) {
        20000
    }
}

} // verus!
