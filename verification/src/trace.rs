//! Execution trace types for the ZK IR VM.
//!
//! The execution trace is the immutable input of every chip: one `Step` per
//! executed instruction, a memory-access log in execution order, and a log of
//! cryptographic syscall invocations.

use vstd::prelude::*;
use vstd::seq_lib::*;

use crate::NUM_REGISTERS;

verus! {

/// A single step of execution.
#[derive(Clone, Copy, Debug)]
pub struct Step {
    /// Program counter
    pub pc: u32,
    /// Cycle number
    pub cycle: u64,
    /// Opcode
    pub opcode: u8,
    /// Destination register
    pub rd: u8,
    /// Source register 1
    pub rs1: u8,
    /// Source register 2
    pub rs2: u8,
    /// Immediate value
    pub imm: i32,
    /// Function code (funct3 + funct7)
    pub funct: u8,
    /// Register file state after this step
    pub registers: [u32; NUM_REGISTERS],
}

/// A memory access record.
#[derive(Clone, Copy, Debug)]
pub struct MemoryAccess {
    /// Memory address
    pub address: u32,
    /// Cycle when access occurred
    pub cycle: u64,
    /// Value read or written
    pub value: u32,
    /// True if write, false if read
    pub is_write: bool,
}

/// A syscall record.
#[derive(Clone, Debug)]
pub struct SyscallRecord {
    /// Syscall code
    pub code: u32,
    /// Cycle when syscall was invoked
    pub cycle: u64,
    /// Input data (depends on syscall type)
    pub inputs: Vec<u32>,
    /// Output data (depends on syscall type)
    pub outputs: Vec<u32>,
}

/// Syscall codes: the closed set of cryptographic operations.
#[derive(Clone, Copy, Debug, PartialEq, Eq, Structural)]
pub enum SyscallCode {
    Poseidon2,
    Keccak256,
    Sha256,
    Blake3,
    EcdsaVerify,
    Ed25519Verify,
    BigintAdd,
    BigintMul,
}

impl SyscallCode {
    /// The numeric code of this syscall.
    pub open spec fn spec_code(self) -> u32 {
        match self {
            SyscallCode::Poseidon2 => 0x01,
            SyscallCode::Keccak256 => 0x02,
            SyscallCode::Sha256 => 0x03,
            SyscallCode::Blake3 => 0x04,
            SyscallCode::EcdsaVerify => 0x10,
            SyscallCode::Ed25519Verify => 0x11,
            SyscallCode::BigintAdd => 0x20,
            SyscallCode::BigintMul => 0x21,
        }
    }

    /// The numeric code of this syscall.
    pub fn as_u32(&self) -> (r: u32)
        ensures
            r == self.spec_code(),
    {
        match self {
            SyscallCode::Poseidon2 => 0x01,
            SyscallCode::Keccak256 => 0x02,
            SyscallCode::Sha256 => 0x03,
            SyscallCode::Blake3 => 0x04,
            SyscallCode::EcdsaVerify => 0x10,
            SyscallCode::Ed25519Verify => 0x11,
            SyscallCode::BigintAdd => 0x20,
            SyscallCode::BigintMul => 0x21,
        }
    }
}

/// Lexicographic order on (address, cycle).
pub open spec fn mem_le(a: MemoryAccess, b: MemoryAccess) -> bool {
    a.address < b.address || (a.address == b.address && a.cycle <= b.cycle)
}

/// Non-decreasing in (address, cycle), lexicographically.
pub open spec fn mem_sorted(s: Seq<MemoryAccess>) -> bool {
    forall|i: int, j: int| 0 <= i < j < s.len() ==> mem_le(#[trigger] s[i], #[trigger] s[j])
}

/// The subsequence of records carrying syscall code `c`, in order.
pub open spec fn filter_by_code(s: Seq<SyscallRecord>, c: u32) -> Seq<SyscallRecord>
    decreases s.len(),
{
    if s.len() == 0 {
        Seq::empty()
    } else {
        let rest = filter_by_code(s.drop_last(), c);
        if s.last().code == c {
            rest.push(s.last())
        } else {
            rest
        }
    }
}

/// Decide `mem_le` on two records.
fn mem_le_exec(a: MemoryAccess, b: MemoryAccess) -> (r: bool)
    ensures
        r == mem_le(a, b),
{
    a.address < b.address || (a.address == b.address && a.cycle <= b.cycle)
}

/// Complete execution trace.
#[derive(Clone, Debug)]
pub struct ExecutionTrace {
    /// Program bytecode hash
    pub program_hash: [u8; 32],
    /// Public inputs
    pub inputs: Vec<u32>,
    /// Public outputs
    pub outputs: Vec<u32>,
    /// Execution steps
    pub steps: Vec<Step>,
    /// Memory accesses (in execution order)
    pub memory_log: Vec<MemoryAccess>,
    /// Syscall records
    pub syscalls: Vec<SyscallRecord>,
}

impl ExecutionTrace {
    /// Create a new empty execution trace.
    pub fn new(program_hash: [u8; 32]) -> (r: Self)
        ensures
            r.program_hash == program_hash,
            r.inputs@ =~= Seq::<u32>::empty(),
            r.outputs@ =~= Seq::<u32>::empty(),
            r.steps@ =~= Seq::<Step>::empty(),
            r.memory_log@ =~= Seq::<MemoryAccess>::empty(),
            r.syscalls@ =~= Seq::<SyscallRecord>::empty(),
    {
        ExecutionTrace {
            program_hash,
            inputs: Vec::new(),
            outputs: Vec::new(),
            steps: Vec::new(),
            memory_log: Vec::new(),
            syscalls: Vec::new(),
        }
    }

    /// Number of execution cycles: the cycle of the last step, or 0.
    pub fn num_cycles(&self) -> (r: u64)
        ensures
            r == (if self.steps@.len() == 0 {
                0u64
            } else {
                self.steps@.last().cycle
            }),
    {
        if self.steps.len() == 0 {
            0
        } else {
            self.steps[self.steps.len() - 1].cycle
        }
    }

    /// The memory log sorted by (address, cycle) for the memory chip: a
    /// permutation of the log, non-decreasing in the lexicographic order.
    pub fn sorted_memory_log(&self) -> (r: Vec<MemoryAccess>)
        ensures
            mem_sorted(r@),
            r@.to_multiset() == self.memory_log@.to_multiset(),
            r@.len() == self.memory_log@.len(),
    {
        let mut out: Vec<MemoryAccess> = Vec::new();
        let n = self.memory_log.len();
        proof {
            assert(self.memory_log@.subrange(0, 0) =~= Seq::<MemoryAccess>::empty());
            assert(out@ =~= Seq::<MemoryAccess>::empty());
        }
        let mut idx: usize = 0;
        while idx < n
            invariant
                idx <= n,
                n == self.memory_log@.len(),
                out@.len() == idx,
                mem_sorted(out@),
                out@.to_multiset() == self.memory_log@.subrange(0, idx as int).to_multiset(),
            decreases n - idx,
        {
            let x = self.memory_log[idx];
            let ghost pre = out@;
            let mut j: usize = 0;
            while j < out.len() && mem_le_exec(out[j], x)
                invariant
                    j <= out@.len(),
                    out@ == pre,
                    forall|k: int| 0 <= k < j ==> mem_le(#[trigger] out@[k], x),
                decreases out@.len() - j,
            {
                j = j + 1;
            }
            out.insert(j, x);
            proof {
                assert(out@ == pre.insert(j as int, x));
                to_multiset_insert(pre, j as int, x);
                let prefix = self.memory_log@.subrange(0, idx as int + 1);
                assert(prefix.drop_last() =~= self.memory_log@.subrange(0, idx as int));
                assert(prefix.last() == x);
                to_multiset_build(prefix.drop_last(), x);
                assert(prefix =~= prefix.drop_last().push(x));
                assert(out@.to_multiset() == prefix.to_multiset());
                // sortedness after the insertion
                assert(forall|k: int| 0 <= k < j ==> out@[k] == pre[k]);
                assert(forall|k: int| j < k < out@.len() ==> out@[k] == pre[k - 1]);
                assert(out@[j as int] == x);
                if (j as int) < pre.len() {
                    assert(!mem_le(pre[j as int], x));
                    assert(mem_le(x, pre[j as int]));
                }
                assert(forall|k: int| j <= k < pre.len() ==> mem_le(x, #[trigger] pre[k]));
                assert(mem_sorted(out@));
            }
            idx = idx + 1;
        }
        proof {
            assert(self.memory_log@.subrange(0, n as int) =~= self.memory_log@);
        }
        out
    }

    /// The syscall records carrying the given code, in log order.
    pub fn syscalls_by_code<'a>(&'a self, code: SyscallCode) -> (r: Vec<&'a SyscallRecord>)
        ensures
            r@.len() == filter_by_code(self.syscalls@, code.spec_code()).len(),
            forall|i: int|
                0 <= i < r@.len() ==> *(#[trigger] r@[i]) == filter_by_code(
                    self.syscalls@,
                    code.spec_code(),
                )[i],
    {
        let c = code.as_u32();
        let mut r: Vec<&SyscallRecord> = Vec::new();
        let n = self.syscalls.len();
        let mut idx: usize = 0;
        while idx < n
            invariant
                idx <= n,
                n == self.syscalls@.len(),
                c == code.spec_code(),
                r@.len() == filter_by_code(self.syscalls@.subrange(0, idx as int), c).len(),
                forall|i: int|
                    0 <= i < r@.len() ==> *(#[trigger] r@[i]) == filter_by_code(
                        self.syscalls@.subrange(0, idx as int),
                        c,
                    )[i],
            decreases n - idx,
        {
            proof {
                let prefix = self.syscalls@.subrange(0, idx as int + 1);
                assert(prefix.drop_last() =~= self.syscalls@.subrange(0, idx as int));
                assert(prefix.last() == self.syscalls@[idx as int]);
            }
            if self.syscalls[idx].code == c {
                r.push(&self.syscalls[idx]);
            }
            idx = idx + 1;
        }
        proof {
            assert(self.syscalls@.subrange(0, n as int) =~= self.syscalls@);
        }
        r
    }
}

} // verus!
