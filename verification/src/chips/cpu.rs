//! CPU chip: one row per executed instruction.
//!
//! Each row carries the execution state, the decoded instruction, the operand
//! values, twelve mutually exclusive one-hot opcode-class flags and the
//! memory-interface columns. The constraints state that a row is one valid
//! instruction step and that the transition to the next row is consistent.

use vstd::prelude::*;

use crate::builder::{row_canonical, ConstraintBuilder};
use crate::field::{fadd, fmul, fp_add, fp_from_u32, fp_from_u64, fp_mul, fp_sub, fsub,
    is_canonical, FIELD_MODULUS};
use crate::matrix::{clone_row, is_padded_height, next_power_of_two_height, WitnessMatrix};
use crate::trace::{ExecutionTrace, Step};

verus! {

// R-type (register-register)
pub const OP_ALU: u8 = 0b0110011;
// I-type (immediate)
pub const OP_ALU_IMM: u8 = 0b0010011;
pub const OP_LOAD: u8 = 0b0000011;
pub const OP_JALR: u8 = 0b1100111;
// S-type (store)
pub const OP_STORE: u8 = 0b0100011;
// B-type (branch)
pub const OP_BRANCH: u8 = 0b1100011;
// U-type (upper immediate)
pub const OP_LUI: u8 = 0b0110111;
pub const OP_AUIPC: u8 = 0b0010111;
// J-type (jump)
pub const OP_JAL: u8 = 0b1101111;
// System
pub const OP_SYSTEM: u8 = 0b1110011;
// ZK custom
pub const OP_ZK_CUSTOM: u8 = 0b0001011;
pub const OP_ZK_IO: u8 = 0b0101011;
pub const OP_HALT: u8 = 0b1111111;

/// Number of columns in the CPU trace.
pub const CPU_NUM_COLUMNS: usize = 32;

/// CPU trace columns: 32 columns organized into logical groups.
#[derive(Clone, Copy, Debug)]
pub struct CpuColumns<T> {
    // === State (4 columns) ===
    /// Program counter
    pub pc: T,
    /// Next program counter
    pub next_pc: T,
    /// Cycle counter
    pub cycle: T,
    /// Halt flag (1 when halted)
    pub is_halted: T,
    // === Instruction decode (6 columns) ===
    /// 7-bit opcode
    pub opcode: T,
    /// Destination register (rd)
    pub rd: T,
    /// Source register 1
    pub rs1: T,
    /// Source register 2
    pub rs2: T,
    /// Immediate value
    pub imm: T,
    /// Function code (funct3 + funct7 combined)
    pub funct: T,
    // === Operand values (3 columns) ===
    /// Value of rs1 register
    pub rs1_val: T,
    /// Value of rs2 register
    pub rs2_val: T,
    /// Value to write to rd register
    pub rd_val: T,
    // === Opcode flags (12 columns, one-hot) ===
    /// ALU operation (ADD, SUB, MUL, ...)
    pub is_alu: T,
    /// ALU immediate operation (ADDI, ...)
    pub is_alu_imm: T,
    /// Branch instruction (BEQ, BNE, ...)
    pub is_branch: T,
    /// Jump instruction (JAL, JALR)
    pub is_jump: T,
    /// Load instruction (LW, LH, LB)
    pub is_load: T,
    /// Store instruction (SW, SH, SB)
    pub is_store: T,
    /// LUI or AUIPC
    pub is_lui_auipc: T,
    /// System instruction (ECALL, EBREAK)
    pub is_system: T,
    /// ZK custom instruction (ASSERT, COMMIT)
    pub is_zk_custom: T,
    /// ZK I/O instruction (READ, WRITE)
    pub is_zk_io: T,
    /// HALT instruction
    pub is_halt: T,
    /// NOP (padding rows)
    pub is_nop: T,
    // === ALU operation (4 columns) ===
    /// ALU operation selector
    pub alu_op: T,
    /// ALU result
    pub alu_result: T,
    /// Branch condition result (1 if taken)
    pub branch_taken: T,
    /// Comparison result (for SLT and similar)
    pub comparison_result: T,
    // === Memory (3 columns) ===
    /// Memory address for load/store
    pub mem_addr: T,
    /// Memory value
    pub mem_val: T,
    /// Memory operation type (1 = write, 0 = read)
    pub mem_is_write: T,
}

/// ALU operation codes.
#[derive(Clone, Copy, Debug, PartialEq, Eq, Structural)]
pub enum AluOp {
    Add,
    Sub,
    And,
    Or,
    Xor,
    /// Shift left logical
    Sll,
    /// Shift right logical
    Srl,
    /// Shift right arithmetic
    Sra,
    /// Set less than (signed)
    Slt,
    /// Set less than (unsigned)
    Sltu,
    Mul,
    Div,
    Divu,
    Rem,
    Remu,
}

impl<T> CpuColumns<T> {
    /// The columns of a row, in schema order.
    pub open spec fn row_seq(self) -> Seq<T> {
        seq![
            self.pc,
            self.next_pc,
            self.cycle,
            self.is_halted,
            self.opcode,
            self.rd,
            self.rs1,
            self.rs2,
            self.imm,
            self.funct,
            self.rs1_val,
            self.rs2_val,
            self.rd_val,
            self.is_alu,
            self.is_alu_imm,
            self.is_branch,
            self.is_jump,
            self.is_load,
            self.is_store,
            self.is_lui_auipc,
            self.is_system,
            self.is_zk_custom,
            self.is_zk_io,
            self.is_halt,
            self.is_nop,
            self.alu_op,
            self.alu_result,
            self.branch_taken,
            self.comparison_result,
            self.mem_addr,
            self.mem_val,
            self.mem_is_write,
        ]
    }
}

/// The named-column view of a flat row, in schema order.
pub open spec fn cpu_cols_of_seq<T>(s: Seq<T>) -> CpuColumns<T> {
    CpuColumns {
        pc: s[0],
        next_pc: s[1],
        cycle: s[2],
        is_halted: s[3],
        opcode: s[4],
        rd: s[5],
        rs1: s[6],
        rs2: s[7],
        imm: s[8],
        funct: s[9],
        rs1_val: s[10],
        rs2_val: s[11],
        rd_val: s[12],
        is_alu: s[13],
        is_alu_imm: s[14],
        is_branch: s[15],
        is_jump: s[16],
        is_load: s[17],
        is_store: s[18],
        is_lui_auipc: s[19],
        is_system: s[20],
        is_zk_custom: s[21],
        is_zk_io: s[22],
        is_halt: s[23],
        is_nop: s[24],
        alu_op: s[25],
        alu_result: s[26],
        branch_taken: s[27],
        comparison_result: s[28],
        mem_addr: s[29],
        mem_val: s[30],
        mem_is_write: s[31],
    }
}

/// The named view and the flat row are mutually inverse projections.
pub proof fn lemma_cpu_row_view_reversible<T>(c: CpuColumns<T>, s: Seq<T>)
    requires
        s.len() == CPU_NUM_COLUMNS,
    ensures
        cpu_cols_of_seq(c.row_seq()) == c,
        cpu_cols_of_seq(s).row_seq() =~= s,
{
}

impl<T: Copy> CpuColumns<T> {
    /// All opcode flag columns, in schema order.
    pub fn opcode_flags(&self) -> (r: [T; 12])
        ensures
            r@ =~= seq![
                self.is_alu,
                self.is_alu_imm,
                self.is_branch,
                self.is_jump,
                self.is_load,
                self.is_store,
                self.is_lui_auipc,
                self.is_system,
                self.is_zk_custom,
                self.is_zk_io,
                self.is_halt,
                self.is_nop,
            ],
    {
        [
            self.is_alu,
            self.is_alu_imm,
            self.is_branch,
            self.is_jump,
            self.is_load,
            self.is_store,
            self.is_lui_auipc,
            self.is_system,
            self.is_zk_custom,
            self.is_zk_io,
            self.is_halt,
            self.is_nop,
        ]
    }

    /// Flatten the named columns into a row.
    pub fn to_row(&self) -> (r: Vec<T>)
        ensures
            r@ == self.row_seq(),
    {
        let mut r: Vec<T> = Vec::new();
        r.push(self.pc);
        r.push(self.next_pc);
        r.push(self.cycle);
        r.push(self.is_halted);
        r.push(self.opcode);
        r.push(self.rd);
        r.push(self.rs1);
        r.push(self.rs2);
        r.push(self.imm);
        r.push(self.funct);
        r.push(self.rs1_val);
        r.push(self.rs2_val);
        r.push(self.rd_val);
        r.push(self.is_alu);
        r.push(self.is_alu_imm);
        r.push(self.is_branch);
        r.push(self.is_jump);
        r.push(self.is_load);
        r.push(self.is_store);
        r.push(self.is_lui_auipc);
        r.push(self.is_system);
        r.push(self.is_zk_custom);
        r.push(self.is_zk_io);
        r.push(self.is_halt);
        r.push(self.is_nop);
        r.push(self.alu_op);
        r.push(self.alu_result);
        r.push(self.branch_taken);
        r.push(self.comparison_result);
        r.push(self.mem_addr);
        r.push(self.mem_val);
        r.push(self.mem_is_write);
        proof {
            assert(r@ =~= self.row_seq());
        }
        r
    }

    /// Read the named columns out of a flat row.
    pub fn from_row(row: &Vec<T>) -> (r: CpuColumns<T>)
        requires
            row@.len() == CPU_NUM_COLUMNS,
        ensures
            r == cpu_cols_of_seq(row@),
    {
        CpuColumns {
            pc: row[0],
            next_pc: row[1],
            cycle: row[2],
            is_halted: row[3],
            opcode: row[4],
            rd: row[5],
            rs1: row[6],
            rs2: row[7],
            imm: row[8],
            funct: row[9],
            rs1_val: row[10],
            rs2_val: row[11],
            rd_val: row[12],
            is_alu: row[13],
            is_alu_imm: row[14],
            is_branch: row[15],
            is_jump: row[16],
            is_load: row[17],
            is_store: row[18],
            is_lui_auipc: row[19],
            is_system: row[20],
            is_zk_custom: row[21],
            is_zk_io: row[22],
            is_halt: row[23],
            is_nop: row[24],
            alu_op: row[25],
            alu_result: row[26],
            branch_taken: row[27],
            comparison_result: row[28],
            mem_addr: row[29],
            mem_val: row[30],
            mem_is_write: row[31],
        }
    }
}

/// The canonical residue of a nonnegative integer, as a cell value.
pub open spec fn fr(x: int) -> u32 {
    (x % (FIELD_MODULUS as int)) as u32
}

/// A boolean as the cell value 0 or 1.
pub open spec fn b2f(b: bool) -> u32 {
    if b {
        1u32
    } else {
        0u32
    }
}

/// The unsigned 32-bit reinterpretation of a signed immediate.
pub open spec fn u32_of_i32(x: i32) -> int {
    if x >= 0 {
        x as int
    } else {
        x as int + 0x1_0000_0000
    }
}

/// Addition wrapping at 2^32, as the machine's program counter does.
pub open spec fn wadd32(a: int, b: int) -> int {
    (a + b) % 0x1_0000_0000
}

/// The value of register `r` after the step.
pub open spec fn reg(s: Step, r: u8) -> u32 {
    s.registers@[r as int]
}

/// One of the twelve opcode classes is recognized for this opcode.
pub open spec fn is_recognized(op: u8) -> bool {
    ||| op == OP_ALU
    ||| op == OP_ALU_IMM
    ||| op == OP_BRANCH
    ||| op == OP_JAL
    ||| op == OP_JALR
    ||| op == OP_LOAD
    ||| op == OP_STORE
    ||| op == OP_LUI
    ||| op == OP_AUIPC
    ||| op == OP_SYSTEM
    ||| op == OP_ZK_CUSTOM
    ||| op == OP_ZK_IO
    ||| op == OP_HALT
}

/// Whether a branch step is taken, judged against the following step's
/// program counter: taken exactly when execution continued at `pc + imm`
/// rather than falling through to `pc + 4`.
pub open spec fn spec_branch_taken(s: Step, succ: Option<u32>) -> bool {
    s.opcode == OP_BRANCH && match succ {
        Option::Some(np) => np as int == wadd32(s.pc as int, u32_of_i32(s.imm)) && np as int
            != wadd32(s.pc as int, 4),
        Option::None => false,
    }
}

/// The per-class successor program counter of a step, before any halt
/// forcing: sequential classes advance by 4, branches go to `pc + imm` when
/// taken, jumps to their target, halt self-loops.
pub open spec fn spec_raw_next_pc(s: Step, succ: Option<u32>) -> int {
    if s.opcode == OP_HALT {
        s.pc as int
    } else if s.opcode == OP_BRANCH {
        if spec_branch_taken(s, succ) {
            wadd32(s.pc as int, u32_of_i32(s.imm))
        } else {
            wadd32(s.pc as int, 4)
        }
    } else if s.opcode == OP_JAL {
        wadd32(s.pc as int, u32_of_i32(s.imm))
    } else if s.opcode == OP_JALR {
        wadd32(reg(s, s.rs1) as int, u32_of_i32(s.imm))
    } else {
        wadd32(s.pc as int, 4)
    }
}

/// The CPU row generated for one step. `succ` is the program counter of the
/// following step, if any; `is_last` marks the final step, which is forced
/// into the halted state with a self-looping program counter.
pub open spec fn spec_cpu_step_row(s: Step, succ: Option<u32>, is_last: bool) -> CpuColumns<
    u32,
> {
    let halted = is_last || s.opcode == OP_HALT;
    let is_load = s.opcode == OP_LOAD;
    let is_store = s.opcode == OP_STORE;
    CpuColumns {
        pc: fr(s.pc as int),
        next_pc: if halted {
            fr(s.pc as int)
        } else {
            fr(spec_raw_next_pc(s, succ))
        },
        cycle: fr(s.cycle as int),
        is_halted: b2f(halted),
        opcode: s.opcode as u32,
        rd: s.rd as u32,
        rs1: s.rs1 as u32,
        rs2: s.rs2 as u32,
        imm: fr(u32_of_i32(s.imm)),
        funct: s.funct as u32,
        rs1_val: fr(reg(s, s.rs1) as int),
        rs2_val: fr(reg(s, s.rs2) as int),
        rd_val: fr(reg(s, s.rd) as int),
        is_alu: b2f(s.opcode == OP_ALU),
        is_alu_imm: b2f(s.opcode == OP_ALU_IMM),
        is_branch: b2f(s.opcode == OP_BRANCH),
        is_jump: b2f(s.opcode == OP_JAL || s.opcode == OP_JALR),
        is_load: b2f(is_load),
        is_store: b2f(is_store),
        is_lui_auipc: b2f(s.opcode == OP_LUI || s.opcode == OP_AUIPC),
        is_system: b2f(s.opcode == OP_SYSTEM),
        is_zk_custom: b2f(s.opcode == OP_ZK_CUSTOM),
        is_zk_io: b2f(s.opcode == OP_ZK_IO),
        is_halt: b2f(s.opcode == OP_HALT),
        is_nop: b2f(!is_recognized(s.opcode)),
        alu_op: 0u32,
        alu_result: fr(reg(s, s.rd) as int),
        branch_taken: b2f(spec_branch_taken(s, succ)),
        comparison_result: 0u32,
        mem_addr: if is_load || is_store {
            fr(wadd32(reg(s, s.rs1) as int, u32_of_i32(s.imm)))
        } else {
            0u32
        },
        mem_val: if is_load {
            fr(reg(s, s.rd) as int)
        } else if is_store {
            fr(reg(s, s.rs2) as int)
        } else {
            0u32
        },
        mem_is_write: b2f(is_store),
    }
}

/// A padding row: a NOP at the given row index. Padding after a halted
/// execution stays halted, so that halting remains sticky across padding.
pub open spec fn spec_cpu_nop_row(i: nat, halted: bool) -> CpuColumns<u32> {
    CpuColumns {
        pc: 0u32,
        next_pc: 0u32,
        cycle: fr(i as int),
        is_halted: b2f(halted),
        opcode: 0u32,
        rd: 0u32,
        rs1: 0u32,
        rs2: 0u32,
        imm: 0u32,
        funct: 0u32,
        rs1_val: 0u32,
        rs2_val: 0u32,
        rd_val: 0u32,
        is_alu: 0u32,
        is_alu_imm: 0u32,
        is_branch: 0u32,
        is_jump: 0u32,
        is_load: 0u32,
        is_store: 0u32,
        is_lui_auipc: 0u32,
        is_system: 0u32,
        is_zk_custom: 0u32,
        is_zk_io: 0u32,
        is_halt: 0u32,
        is_nop: 1u32,
        alu_op: 0u32,
        alu_result: 0u32,
        branch_taken: 0u32,
        comparison_result: 0u32,
        mem_addr: 0u32,
        mem_val: 0u32,
        mem_is_write: 0u32,
    }
}

/// The program counter of the step following step `i`, if any.
pub open spec fn succ_of(steps: Seq<Step>, i: int) -> Option<u32> {
    if i + 1 < steps.len() {
        Option::Some(steps[i + 1].pc)
    } else {
        Option::None
    }
}

/// Every step's register indices are in range.
pub open spec fn cpu_steps_wf(steps: Seq<Step>) -> bool {
    forall|i: int|
        0 <= i < steps.len() ==> (#[trigger] steps[i]).rd < 32 && steps[i].rs1 < 32
            && steps[i].rs2 < 32
}

/// The rows of `m` are exactly the rows generated from `steps`: one row per
/// step, then NOP padding rows.
pub open spec fn cpu_rows_match(steps: Seq<Step>, m: WitnessMatrix) -> bool {
    let n = steps.len() as int;
    &&& n <= m.rows@.len()
    &&& forall|i: int|
        0 <= i < n ==> (#[trigger] m.rows@[i])@ == spec_cpu_step_row(
            steps[i],
            succ_of(steps, i),
            i == n - 1,
        ).row_seq()
    &&& forall|i: int|
        n <= i < m.rows@.len() ==> (#[trigger] m.rows@[i])@ == spec_cpu_nop_row(
            i as nat,
            n > 0,
        ).row_seq()
}

/// Addition wrapping at 2^32.
fn wrap_add(a: u32, b: u32) -> (r: u32)
    ensures
        r as int == wadd32(a as int, b as int),
{
    let s: u64 = a as u64 + b as u64;
    if s >= 0x1_0000_0000 {
        proof {
            vstd::arithmetic::div_mod::lemma_mod_sub_multiples_vanish(
                a as int + b as int,
                0x1_0000_0000,
            );
            vstd::arithmetic::div_mod::lemma_small_mod(
                (a as int + b as int - 0x1_0000_0000) as nat,
                0x1_0000_0000,
            );
        }
        (s - 0x1_0000_0000) as u32
    } else {
        proof {
            vstd::arithmetic::div_mod::lemma_small_mod((a as int + b as int) as nat, 0x1_0000_0000);
        }
        s as u32
    }
}

/// The unsigned 32-bit reinterpretation of a signed immediate.
fn imm_as_u32(x: i32) -> (r: u32)
    ensures
        r as int == u32_of_i32(x),
{
    if x >= 0 {
        x as u32
    } else {
        ((x as i64) + 0x1_0000_0000) as u32
    }
}

/// Generate the CPU row for one step.
fn cpu_step_row(s: &Step, succ: Option<u32>, is_last: bool) -> (r: Vec<u32>)
    requires
        s.rd < 32,
        s.rs1 < 32,
        s.rs2 < 32,
    ensures
        r@ == spec_cpu_step_row(*s, succ, is_last).row_seq(),
        r@.len() == CPU_NUM_COLUMNS,
        row_canonical(r@),
{
    let halted = is_last || s.opcode == OP_HALT;
    let is_load = s.opcode == OP_LOAD;
    let is_store = s.opcode == OP_STORE;
    let pc = fp_from_u32(s.pc);
    let immu = imm_as_u32(s.imm);
    let rs1_raw = s.registers[s.rs1 as usize];
    let rs2_raw = s.registers[s.rs2 as usize];
    let rd_raw = s.registers[s.rd as usize];
    let taken = match succ {
        Option::Some(np) => s.opcode == OP_BRANCH && np == wrap_add(s.pc, immu) && np != wrap_add(
            s.pc,
            4,
        ),
        Option::None => false,
    };
    let raw_next: u32 = if s.opcode == OP_HALT {
        s.pc
    } else if s.opcode == OP_BRANCH {
        if taken {
            wrap_add(s.pc, immu)
        } else {
            wrap_add(s.pc, 4)
        }
    } else if s.opcode == OP_JAL {
        wrap_add(s.pc, immu)
    } else if s.opcode == OP_JALR {
        wrap_add(rs1_raw, immu)
    } else {
        wrap_add(s.pc, 4)
    };
    let recognized = s.opcode == OP_ALU || s.opcode == OP_ALU_IMM || s.opcode == OP_BRANCH
        || s.opcode == OP_JAL || s.opcode == OP_JALR || s.opcode == OP_LOAD || s.opcode == OP_STORE
        || s.opcode == OP_LUI || s.opcode == OP_AUIPC || s.opcode == OP_SYSTEM || s.opcode
        == OP_ZK_CUSTOM || s.opcode == OP_ZK_IO || s.opcode == OP_HALT;
    let cols = CpuColumns::<u32> {
        pc,
        next_pc: if halted {
            pc
        } else {
            fp_from_u32(raw_next)
        },
        cycle: fp_from_u64(s.cycle),
        is_halted: if halted {
            1
        } else {
            0
        },
        opcode: s.opcode as u32,
        rd: s.rd as u32,
        rs1: s.rs1 as u32,
        rs2: s.rs2 as u32,
        imm: fp_from_u32(immu),
        funct: s.funct as u32,
        rs1_val: fp_from_u32(rs1_raw),
        rs2_val: fp_from_u32(rs2_raw),
        rd_val: fp_from_u32(rd_raw),
        is_alu: if s.opcode == OP_ALU {
            1
        } else {
            0
        },
        is_alu_imm: if s.opcode == OP_ALU_IMM {
            1
        } else {
            0
        },
        is_branch: if s.opcode == OP_BRANCH {
            1
        } else {
            0
        },
        is_jump: if s.opcode == OP_JAL || s.opcode == OP_JALR {
            1
        } else {
            0
        },
        is_load: if is_load {
            1
        } else {
            0
        },
        is_store: if is_store {
            1
        } else {
            0
        },
        is_lui_auipc: if s.opcode == OP_LUI || s.opcode == OP_AUIPC {
            1
        } else {
            0
        },
        is_system: if s.opcode == OP_SYSTEM {
            1
        } else {
            0
        },
        is_zk_custom: if s.opcode == OP_ZK_CUSTOM {
            1
        } else {
            0
        },
        is_zk_io: if s.opcode == OP_ZK_IO {
            1
        } else {
            0
        },
        is_halt: if s.opcode == OP_HALT {
            1
        } else {
            0
        },
        is_nop: if recognized {
            0
        } else {
            1
        },
        alu_op: 0,
        alu_result: fp_from_u32(rd_raw),
        branch_taken: if taken {
            1
        } else {
            0
        },
        comparison_result: 0,
        mem_addr: if is_load || is_store {
            fp_from_u32(wrap_add(rs1_raw, immu))
        } else {
            0
        },
        mem_val: if is_load {
            fp_from_u32(rd_raw)
        } else if is_store {
            fp_from_u32(rs2_raw)
        } else {
            0
        },
        mem_is_write: if is_store {
            1
        } else {
            0
        },
    };
    let r = cols.to_row();
    proof {
        assert(cols == spec_cpu_step_row(*s, succ, is_last));
        assert(forall|j: int| 0 <= j < r@.len() ==> is_canonical(#[trigger] r@[j]));
    }
    r
}

/// Generate a NOP padding row at the given row index.
fn cpu_nop_row(i: usize, halted: bool) -> (r: Vec<u32>)
    ensures
        r@ == spec_cpu_nop_row(i as nat, halted).row_seq(),
        r@.len() == CPU_NUM_COLUMNS,
        row_canonical(r@),
{
    let cols = CpuColumns::<u32> {
        pc: 0,
        next_pc: 0,
        cycle: fp_from_u64(i as u64),
        is_halted: if halted {
            1
        } else {
            0
        },
        opcode: 0,
        rd: 0,
        rs1: 0,
        rs2: 0,
        imm: 0,
        funct: 0,
        rs1_val: 0,
        rs2_val: 0,
        rd_val: 0,
        is_alu: 0,
        is_alu_imm: 0,
        is_branch: 0,
        is_jump: 0,
        is_load: 0,
        is_store: 0,
        is_lui_auipc: 0,
        is_system: 0,
        is_zk_custom: 0,
        is_zk_io: 0,
        is_halt: 0,
        is_nop: 1,
        alu_op: 0,
        alu_result: 0,
        branch_taken: 0,
        comparison_result: 0,
        mem_addr: 0,
        mem_val: 0,
        mem_is_write: 0,
    };
    let r = cols.to_row();
    proof {
        assert(cols == spec_cpu_nop_row(i as nat, halted));
        assert(forall|j: int| 0 <= j < r@.len() ==> is_canonical(#[trigger] r@[j]));
    }
    r
}

/// Generate the CPU witness matrix from an execution trace: one row per step
/// in order, NOP padding up to the next power of two (minimum 2).
pub fn generate_cpu_trace(trace: &ExecutionTrace) -> (m: WitnessMatrix)
    requires
        cpu_steps_wf(trace.steps@),
        trace.steps@.len() <= 0x4000_0000,
    ensures
        m.wf(),
        m.width == CPU_NUM_COLUMNS,
        is_padded_height(m.spec_height(), trace.steps@.len() as nat),
        cpu_rows_match(trace.steps@, m),
{
    let n = trace.steps.len();
    let height = next_power_of_two_height(n);
    let mut rows: Vec<Vec<u32>> = Vec::new();
    let mut i: usize = 0;
    while i < n
        invariant
            i <= n,
            n == trace.steps@.len(),
            cpu_steps_wf(trace.steps@),
            rows@.len() == i,
            forall|k: int|
                0 <= k < i ==> (#[trigger] rows@[k])@ == spec_cpu_step_row(
                    trace.steps@[k],
                    succ_of(trace.steps@, k),
                    k == n as int - 1,
                ).row_seq(),
            forall|k: int|
                0 <= k < i ==> (#[trigger] rows@[k])@.len() == CPU_NUM_COLUMNS && row_canonical(
                    rows@[k]@,
                ),
        decreases n - i,
    {
        let succ: Option<u32> = if i + 1 < n {
            Option::Some(trace.steps[i + 1].pc)
        } else {
            Option::None
        };
        let step = trace.steps[i];
        let row = cpu_step_row(&step, succ, i == n - 1);
        rows.push(row);
        i = i + 1;
    }
    let mut j = n;
    while j < height
        invariant
            n <= j <= height,
            n == trace.steps@.len(),
            rows@.len() == j,
            forall|k: int|
                0 <= k < n ==> (#[trigger] rows@[k])@ == spec_cpu_step_row(
                    trace.steps@[k],
                    succ_of(trace.steps@, k),
                    k == n as int - 1,
                ).row_seq(),
            forall|k: int|
                n <= k < j ==> (#[trigger] rows@[k])@ == spec_cpu_nop_row(
                    k as nat,
                    n > 0,
                ).row_seq(),
            forall|k: int|
                0 <= k < j ==> (#[trigger] rows@[k])@.len() == CPU_NUM_COLUMNS && row_canonical(
                    rows@[k]@,
                ),
        decreases height - j,
    {
        let row = cpu_nop_row(j, n > 0);
        rows.push(row);
        j = j + 1;
    }
    WitnessMatrix { rows, width: CPU_NUM_COLUMNS }
}

/// The field sum of the twelve opcode-class flags.
pub open spec fn cpu_flag_sum(c: CpuColumns<u32>) -> int {
    fadd(
        fadd(
            fadd(
                fadd(
                    fadd(
                        fadd(
                            fadd(
                                fadd(
                                    fadd(
                                        fadd(fadd(c.is_alu as int, c.is_alu_imm as int), c.is_branch as int),
                                        c.is_jump as int,
                                    ),
                                    c.is_load as int,
                                ),
                                c.is_store as int,
                            ),
                            c.is_lui_auipc as int,
                        ),
                        c.is_system as int,
                    ),
                    c.is_zk_custom as int,
                ),
                c.is_zk_io as int,
            ),
            c.is_halt as int,
        ),
        c.is_nop as int,
    )
}

/// The field sum of the sequential-class flags: classes whose successor
/// program counter is `pc + 4`.
pub open spec fn cpu_sequential_sum(c: CpuColumns<u32>) -> int {
    fadd(
        fadd(
            fadd(
                fadd(
                    fadd(fadd(c.is_alu as int, c.is_alu_imm as int), c.is_load as int),
                    c.is_store as int,
                ),
                c.is_lui_auipc as int,
            ),
            c.is_zk_custom as int,
        ),
        c.is_zk_io as int,
    )
}

/// The polynomial identity `v * (1 - v) = 0`: `v` is boolean.
pub open spec fn poly_boolean(v: int) -> bool {
    fmul(v, fsub(1, v)) == 0
}

/// The affine branch target `branch_taken * (pc + imm) + (1 - branch_taken) * (pc + 4)`.
pub open spec fn cpu_branch_target(c: CpuColumns<u32>) -> int {
    fadd(
        fmul(c.branch_taken as int, fadd(c.pc as int, c.imm as int)),
        fmul(fsub(1, c.branch_taken as int), fadd(c.pc as int, 4)),
    )
}

/// The CPU constraints on one row pair. Transition constraints are scoped
/// under `is_transition` and relate the local row `l` to the next row `x`.
pub open spec fn cpu_constraints(
    l: CpuColumns<u32>,
    x: CpuColumns<u32>,
    is_transition: bool,
) -> bool {
    // Exactly one opcode-class flag is set
    &&& cpu_flag_sum(l) == 1
    // Every flag and every boolean-typed column is boolean
    &&& poly_boolean(l.is_alu as int)
    &&& poly_boolean(l.is_alu_imm as int)
    &&& poly_boolean(l.is_branch as int)
    &&& poly_boolean(l.is_jump as int)
    &&& poly_boolean(l.is_load as int)
    &&& poly_boolean(l.is_store as int)
    &&& poly_boolean(l.is_lui_auipc as int)
    &&& poly_boolean(l.is_system as int)
    &&& poly_boolean(l.is_zk_custom as int)
    &&& poly_boolean(l.is_zk_io as int)
    &&& poly_boolean(l.is_halt as int)
    &&& poly_boolean(l.is_nop as int)
    &&& poly_boolean(l.is_halted as int)
    &&& poly_boolean(l.branch_taken as int)
    &&& poly_boolean(l.mem_is_write as int)
    // ALU and ALU-immediate instructions write the ALU result to rd
    &&& fmul(l.is_alu as int, fsub(l.rd_val as int, l.alu_result as int)) == 0
    &&& fmul(l.is_alu_imm as int, fsub(l.rd_val as int, l.alu_result as int)) == 0
    // Sequential classes: next_pc = pc + 4
    &&& fmul(cpu_sequential_sum(l), fsub(l.next_pc as int, fadd(l.pc as int, 4))) == 0
    // Branches: next_pc follows the affine branch-target combination
    &&& fmul(l.is_branch as int, fsub(l.next_pc as int, cpu_branch_target(l))) == 0
    // Jumps write the link address pc + 4 to rd
    &&& fmul(l.is_jump as int, fsub(l.rd_val as int, fadd(l.pc as int, 4))) == 0
    // Halt self-loops the program counter
    &&& fmul(l.is_halt as int, fsub(l.next_pc as int, l.pc as int)) == 0
    // Once halted, stay halted
    &&& (is_transition ==> fmul(l.is_halted as int, fsub(x.is_halted as int, 1)) == 0)
    // PC continuity into the next row, except for halt and NOP rows
    &&& (is_transition ==> fmul(
        fsub(fsub(1, l.is_halt as int), l.is_nop as int),
        fsub(x.pc as int, l.next_pc as int),
    ) == 0)
    // Cycle counter increments across every non-NOP row
    &&& (is_transition ==> fmul(
        fsub(1, l.is_nop as int),
        fsub(x.cycle as int, fadd(l.cycle as int, 1)),
    ) == 0)
    // Loads read, stores write
    &&& fmul(l.is_load as int, l.mem_is_write as int) == 0
    &&& fmul(l.is_store as int, fsub(l.mem_is_write as int, 1)) == 0
}

/// Every row pair of the matrix satisfies the CPU constraints; the pair
/// anchored at the last row is evaluated without transition constraints.
pub open spec fn cpu_matrix_ok(m: WitnessMatrix) -> bool {
    &&& forall|i: int|
        0 <= i < m.rows@.len() - 1 ==> cpu_constraints(
            cpu_cols_of_seq((#[trigger] m.rows@[i])@),
            cpu_cols_of_seq(m.rows@[i + 1]@),
            true,
        )
    &&& (m.rows@.len() > 0 ==> cpu_constraints(
        cpu_cols_of_seq(m.rows@[m.rows@.len() - 1]@),
        cpu_cols_of_seq(m.rows@[m.rows@.len() - 1]@),
        false,
    ))
}

/// The named view of row `i` of a matrix.
pub open spec fn cpu_row_cols(m: WitnessMatrix, i: int) -> CpuColumns<u32> {
    cpu_cols_of_seq(m.rows@[i]@)
}

/// The plain integer sum of the twelve opcode-class flags.
pub open spec fn flag_sum_int(c: CpuColumns<u32>) -> int {
    c.is_alu as int + c.is_alu_imm as int + c.is_branch as int + c.is_jump as int
        + c.is_load as int + c.is_store as int + c.is_lui_auipc as int + c.is_system as int
        + c.is_zk_custom as int + c.is_zk_io as int + c.is_halt as int + c.is_nop as int
}

/// A cell holds 0 or 1.
pub open spec fn col_boolean(v: u32) -> bool {
    v == 0 || v == 1
}

/// Every flag and boolean-typed column of the row holds 0 or 1.
pub open spec fn cpu_bool_cols_ok(c: CpuColumns<u32>) -> bool {
    &&& col_boolean(c.is_alu)
    &&& col_boolean(c.is_alu_imm)
    &&& col_boolean(c.is_branch)
    &&& col_boolean(c.is_jump)
    &&& col_boolean(c.is_load)
    &&& col_boolean(c.is_store)
    &&& col_boolean(c.is_lui_auipc)
    &&& col_boolean(c.is_system)
    &&& col_boolean(c.is_zk_custom)
    &&& col_boolean(c.is_zk_io)
    &&& col_boolean(c.is_halt)
    &&& col_boolean(c.is_nop)
    &&& col_boolean(c.is_halted)
    &&& col_boolean(c.branch_taken)
    &&& col_boolean(c.mem_is_write)
}

/// The active flag of a step row matches the step's opcode class.
pub open spec fn active_flag_matches(c: CpuColumns<u32>, s: Step) -> bool {
    &&& c.is_alu == b2f(s.opcode == OP_ALU)
    &&& c.is_alu_imm == b2f(s.opcode == OP_ALU_IMM)
    &&& c.is_branch == b2f(s.opcode == OP_BRANCH)
    &&& c.is_jump == b2f(s.opcode == OP_JAL || s.opcode == OP_JALR)
    &&& c.is_load == b2f(s.opcode == OP_LOAD)
    &&& c.is_store == b2f(s.opcode == OP_STORE)
    &&& c.is_lui_auipc == b2f(s.opcode == OP_LUI || s.opcode == OP_AUIPC)
    &&& c.is_system == b2f(s.opcode == OP_SYSTEM)
    &&& c.is_zk_custom == b2f(s.opcode == OP_ZK_CUSTOM)
    &&& c.is_zk_io == b2f(s.opcode == OP_ZK_IO)
    &&& c.is_halt == b2f(s.opcode == OP_HALT)
    &&& c.is_nop == b2f(!is_recognized(s.opcode))
}

/// Opcode exclusivity: in every row of a generated CPU matrix the twelve
/// opcode-class flags sum to exactly 1, the active flag matches the row's
/// source instruction, and padding rows carry the NOP flag.
pub proof fn lemma_cpu_opcode_exclusivity(steps: Seq<Step>, m: WitnessMatrix)
    requires
        cpu_rows_match(steps, m),
    ensures
        forall|i: int| 0 <= i < m.rows@.len() ==> flag_sum_int(#[trigger] cpu_row_cols(m, i)) == 1,
        forall|i: int|
            0 <= i < steps.len() ==> active_flag_matches(#[trigger] cpu_row_cols(m, i), steps[i]),
        forall|i: int|
            steps.len() <= i < m.rows@.len() ==> (#[trigger] cpu_row_cols(m, i)).is_nop == 1,
{
    let n = steps.len() as int;
    assert forall|i: int| 0 <= i < m.rows@.len() implies flag_sum_int(#[trigger] cpu_row_cols(m, i))
        == 1 by {
        if i < n {
            let c = spec_cpu_step_row(steps[i], succ_of(steps, i), i == n - 1);
            lemma_cpu_row_view_reversible::<u32>(c, c.row_seq());
            assert(cpu_row_cols(m, i) == c);
        } else {
            let c = spec_cpu_nop_row(i as nat, n > 0);
            lemma_cpu_row_view_reversible::<u32>(c, c.row_seq());
            assert(cpu_row_cols(m, i) == c);
        }
    }
    assert forall|i: int| 0 <= i < steps.len() implies active_flag_matches(
        #[trigger] cpu_row_cols(m, i),
        steps[i],
    ) by {
        let c = spec_cpu_step_row(steps[i], succ_of(steps, i), i == n - 1);
        lemma_cpu_row_view_reversible::<u32>(c, c.row_seq());
        assert(cpu_row_cols(m, i) == c);
    }
    assert forall|i: int| steps.len() <= i < m.rows@.len() implies (#[trigger] cpu_row_cols(
        m,
        i,
    )).is_nop == 1 by {
        let c = spec_cpu_nop_row(i as nat, n > 0);
        lemma_cpu_row_view_reversible::<u32>(c, c.row_seq());
        assert(cpu_row_cols(m, i) == c);
    }
}

/// Boolean columns: every flag and boolean-typed column of every row of a
/// generated CPU matrix holds 0 or 1 (equivalently, satisfies `v * (1 - v) = 0`).
pub proof fn lemma_cpu_boolean_columns(steps: Seq<Step>, m: WitnessMatrix)
    requires
        cpu_rows_match(steps, m),
    ensures
        forall|i: int| 0 <= i < m.rows@.len() ==> cpu_bool_cols_ok(#[trigger] cpu_row_cols(m, i)),
{
    let n = steps.len() as int;
    assert forall|i: int| 0 <= i < m.rows@.len() implies cpu_bool_cols_ok(
        #[trigger] cpu_row_cols(m, i),
    ) by {
        if i < n {
            let c = spec_cpu_step_row(steps[i], succ_of(steps, i), i == n - 1);
            lemma_cpu_row_view_reversible::<u32>(c, c.row_seq());
            assert(cpu_row_cols(m, i) == c);
        } else {
            let c = spec_cpu_nop_row(i as nat, n > 0);
            lemma_cpu_row_view_reversible::<u32>(c, c.row_seq());
            assert(cpu_row_cols(m, i) == c);
        }
    }
}

/// The trace's program counters are consistent with the per-class successor
/// computation: each step's actual successor sits where the instruction
/// semantics send it.
pub open spec fn cpu_pc_consistent(steps: Seq<Step>) -> bool {
    forall|i: int|
        0 <= i < steps.len() - 1 ==> (#[trigger] steps[i + 1]).pc as int == spec_raw_next_pc(
            steps[i],
            succ_of(steps, i),
        )
}

/// PC chaining: for any two adjacent rows of a generated CPU matrix where
/// the first is neither a halt nor a NOP row and the second is not padding,
/// the second row's `pc` equals the first row's `next_pc`.
pub proof fn lemma_cpu_pc_chaining(steps: Seq<Step>, m: WitnessMatrix)
    requires
        cpu_rows_match(steps, m),
        cpu_pc_consistent(steps),
    ensures
        forall|i: int|
            0 <= i < m.rows@.len() - 1 && (#[trigger] cpu_row_cols(m, i)).is_halt == 0
                && cpu_row_cols(m, i).is_nop == 0 && cpu_row_cols(m, i + 1).is_nop == 0
                ==> cpu_row_cols(m, i + 1).pc == cpu_row_cols(m, i).next_pc,
{
    let n = steps.len() as int;
    assert forall|i: int|
        0 <= i < m.rows@.len() - 1 && (#[trigger] cpu_row_cols(m, i)).is_halt == 0
            && cpu_row_cols(m, i).is_nop == 0 && cpu_row_cols(m, i + 1).is_nop
            == 0 implies cpu_row_cols(m, i + 1).pc == cpu_row_cols(m, i).next_pc by {
        if i < n - 1 {
            let c = spec_cpu_step_row(steps[i], succ_of(steps, i), false);
            lemma_cpu_row_view_reversible::<u32>(c, c.row_seq());
            assert(cpu_row_cols(m, i) == c);
            let c2 = spec_cpu_step_row(steps[i + 1], succ_of(steps, i + 1), i + 1 == n - 1);
            lemma_cpu_row_view_reversible::<u32>(c2, c2.row_seq());
            assert(cpu_row_cols(m, i + 1) == c2);
            assert(steps[i].opcode != OP_HALT);
            assert(steps[i + 1].pc as int == spec_raw_next_pc(steps[i], succ_of(steps, i)));
        } else if i == n - 1 {
            let c2 = spec_cpu_nop_row((i + 1) as nat, n > 0);
            lemma_cpu_row_view_reversible::<u32>(c2, c2.row_seq());
            assert(cpu_row_cols(m, i + 1) == c2);
        } else {
            let c = spec_cpu_nop_row(i as nat, n > 0);
            lemma_cpu_row_view_reversible::<u32>(c, c.row_seq());
            assert(cpu_row_cols(m, i) == c);
        }
    }
}

/// Cycle monotonicity: in a generated CPU matrix whose steps are numbered by
/// consecutive cycles starting at 0, every adjacent pair whose first row is
/// not a NOP has the second row's cycle equal to the first row's cycle plus 1.
pub proof fn lemma_cpu_cycle_monotonic(steps: Seq<Step>, m: WitnessMatrix)
    requires
        cpu_rows_match(steps, m),
        forall|i: int| 0 <= i < steps.len() ==> (#[trigger] steps[i]).cycle as int == i,
        m.rows@.len() < FIELD_MODULUS,
    ensures
        forall|i: int|
            0 <= i < m.rows@.len() - 1 && (#[trigger] cpu_row_cols(m, i)).is_nop == 0
                ==> cpu_row_cols(m, i + 1).cycle as int == cpu_row_cols(m, i).cycle as int + 1,
{
    let n = steps.len() as int;
    assert forall|i: int|
        0 <= i < m.rows@.len() - 1 && (#[trigger] cpu_row_cols(m, i)).is_nop
            == 0 implies cpu_row_cols(m, i + 1).cycle as int == cpu_row_cols(m, i).cycle as int
        + 1 by {
        vstd::arithmetic::div_mod::lemma_small_mod(i as nat, FIELD_MODULUS as nat);
        vstd::arithmetic::div_mod::lemma_small_mod((i + 1) as nat, FIELD_MODULUS as nat);
        if i < n {
            let c = spec_cpu_step_row(steps[i], succ_of(steps, i), i == n - 1);
            lemma_cpu_row_view_reversible::<u32>(c, c.row_seq());
            assert(cpu_row_cols(m, i) == c);
            assert(c.cycle == fr(steps[i].cycle as int));
            assert(c.cycle as int == i);
        } else {
            let c = spec_cpu_nop_row(i as nat, n > 0);
            lemma_cpu_row_view_reversible::<u32>(c, c.row_seq());
            assert(cpu_row_cols(m, i) == c);
            assert(c.is_nop == 1);
        }
        if i + 1 < n {
            let c2 = spec_cpu_step_row(steps[i + 1], succ_of(steps, i + 1), i + 1 == n - 1);
            lemma_cpu_row_view_reversible::<u32>(c2, c2.row_seq());
            assert(cpu_row_cols(m, i + 1) == c2);
            assert(c2.cycle as int == i + 1);
        } else {
            let c2 = spec_cpu_nop_row((i + 1) as nat, n > 0);
            lemma_cpu_row_view_reversible::<u32>(c2, c2.row_seq());
            assert(cpu_row_cols(m, i + 1) == c2);
            assert(c2.cycle as int == i + 1);
        }
    }
}

/// Once a step halts, every later step also halts: no instruction executes
/// past a halt.
pub open spec fn halt_closed(steps: Seq<Step>) -> bool {
    forall|i: int, j: int|
        0 <= i <= j < steps.len() && (#[trigger] steps[i]).opcode == OP_HALT
            ==> (#[trigger] steps[j]).opcode == OP_HALT
}

/// Halt stickiness: in a generated CPU matrix of a trace that does not
/// execute past a halt, once a row has `is_halted = 1`, every subsequent row
/// also has `is_halted = 1`.
pub proof fn lemma_cpu_halt_sticky(steps: Seq<Step>, m: WitnessMatrix)
    requires
        cpu_rows_match(steps, m),
        halt_closed(steps),
    ensures
        forall|i: int, j: int|
            0 <= i <= j < m.rows@.len() && (#[trigger] cpu_row_cols(m, i)).is_halted == 1
                ==> (#[trigger] cpu_row_cols(m, j)).is_halted == 1,
{
    let n = steps.len() as int;
    assert forall|i: int, j: int|
        0 <= i <= j < m.rows@.len() && (#[trigger] cpu_row_cols(m, i)).is_halted
            == 1 implies (#[trigger] cpu_row_cols(m, j)).is_halted == 1 by {
        if i < n {
            let c = spec_cpu_step_row(steps[i], succ_of(steps, i), i == n - 1);
            lemma_cpu_row_view_reversible::<u32>(c, c.row_seq());
            assert(cpu_row_cols(m, i) == c);
            assert(i == n - 1 || steps[i].opcode == OP_HALT);
        } else {
            let c = spec_cpu_nop_row(i as nat, n > 0);
            lemma_cpu_row_view_reversible::<u32>(c, c.row_seq());
            assert(cpu_row_cols(m, i) == c);
            assert(n > 0);
        }
        if j < n {
            let c2 = spec_cpu_step_row(steps[j], succ_of(steps, j), j == n - 1);
            lemma_cpu_row_view_reversible::<u32>(c2, c2.row_seq());
            assert(cpu_row_cols(m, j) == c2);
            if i < n && steps[i].opcode == OP_HALT {
                assert(steps[j].opcode == OP_HALT);
            }
        } else {
            let c2 = spec_cpu_nop_row(j as nat, n > 0);
            lemma_cpu_row_view_reversible::<u32>(c2, c2.row_seq());
            assert(cpu_row_cols(m, j) == c2);
            assert(n > 0);
        }
    }
}

/// A value of 0 or 1 satisfies the boolean polynomial identity.
proof fn lemma_poly_boolean01(v: u32)
    requires
        v == 0 || v == 1,
    ensures
        poly_boolean(v as int),
{
    if v == 0 {
        crate::field::lemma_fmul_zero(fsub(1, 0));
    } else {
        assert(fsub(1, 1) == 0);
        crate::field::lemma_fmul_zero(1);
    }
}

/// For flags of 0 or 1, the field sum of the twelve opcode-class flags is
/// their plain sum.
proof fn lemma_cpu_flag_sum_plain(c: CpuColumns<u32>)
    requires
        c.is_alu <= 1,
        c.is_alu_imm <= 1,
        c.is_branch <= 1,
        c.is_jump <= 1,
        c.is_load <= 1,
        c.is_store <= 1,
        c.is_lui_auipc <= 1,
        c.is_system <= 1,
        c.is_zk_custom <= 1,
        c.is_zk_io <= 1,
        c.is_halt <= 1,
        c.is_nop <= 1,
    ensures
        cpu_flag_sum(c) == flag_sum_int(c),
{
    let s1 = c.is_alu as int + c.is_alu_imm as int;
    crate::field::lemma_fadd_small(c.is_alu as int, c.is_alu_imm as int);
    let s2 = s1 + c.is_branch as int;
    crate::field::lemma_fadd_small(s1, c.is_branch as int);
    let s3 = s2 + c.is_jump as int;
    crate::field::lemma_fadd_small(s2, c.is_jump as int);
    let s4 = s3 + c.is_load as int;
    crate::field::lemma_fadd_small(s3, c.is_load as int);
    let s5 = s4 + c.is_store as int;
    crate::field::lemma_fadd_small(s4, c.is_store as int);
    let s6 = s5 + c.is_lui_auipc as int;
    crate::field::lemma_fadd_small(s5, c.is_lui_auipc as int);
    let s7 = s6 + c.is_system as int;
    crate::field::lemma_fadd_small(s6, c.is_system as int);
    let s8 = s7 + c.is_zk_custom as int;
    crate::field::lemma_fadd_small(s7, c.is_zk_custom as int);
    let s9 = s8 + c.is_zk_io as int;
    crate::field::lemma_fadd_small(s8, c.is_zk_io as int);
    let s10 = s9 + c.is_halt as int;
    crate::field::lemma_fadd_small(s9, c.is_halt as int);
    crate::field::lemma_fadd_small(s10, c.is_nop as int);
}

/// For flags of 0 or 1, the field sum of the sequential-class flags is their
/// plain sum.
proof fn lemma_cpu_seq_sum_plain(c: CpuColumns<u32>)
    requires
        c.is_alu <= 1,
        c.is_alu_imm <= 1,
        c.is_load <= 1,
        c.is_store <= 1,
        c.is_lui_auipc <= 1,
        c.is_zk_custom <= 1,
        c.is_zk_io <= 1,
    ensures
        cpu_sequential_sum(c) == c.is_alu as int + c.is_alu_imm as int + c.is_load as int
            + c.is_store as int + c.is_lui_auipc as int + c.is_zk_custom as int + c.is_zk_io as int,
{
    let s1 = c.is_alu as int + c.is_alu_imm as int;
    crate::field::lemma_fadd_small(c.is_alu as int, c.is_alu_imm as int);
    let s2 = s1 + c.is_load as int;
    crate::field::lemma_fadd_small(s1, c.is_load as int);
    let s3 = s2 + c.is_store as int;
    crate::field::lemma_fadd_small(s2, c.is_store as int);
    let s4 = s3 + c.is_lui_auipc as int;
    crate::field::lemma_fadd_small(s3, c.is_lui_auipc as int);
    let s5 = s4 + c.is_zk_custom as int;
    crate::field::lemma_fadd_small(s4, c.is_zk_custom as int);
    crate::field::lemma_fadd_small(s5, c.is_zk_io as int);
}

/// Per-step bounds under which the generated row satisfies the field
/// constraints exactly: the program counter does not wrap, branch targets do
/// not wrap (in particular the branch immediate is nonnegative), and jumps
/// leave the link address `pc + 4` in `rd`.
pub open spec fn cpu_step_bounds(s: Step) -> bool {
    &&& s.pc as int + 4 < 0x1_0000_0000
    &&& (s.opcode == OP_BRANCH ==> s.pc as int + u32_of_i32(s.imm) < 0x1_0000_0000)
    &&& ((s.opcode == OP_JAL || s.opcode == OP_JALR) ==> reg(s, s.rd) as int == s.pc as int + 4)
}

/// A well-formed halting trace: successor program counters follow the
/// instruction semantics, nothing executes past a halt, cycles count the
/// steps from 0, the final step is a halt, and every step is within the
/// per-step bounds.
pub open spec fn cpu_steps_sound(steps: Seq<Step>) -> bool {
    &&& cpu_pc_consistent(steps)
    &&& halt_closed(steps)
    &&& (forall|i: int| 0 <= i < steps.len() ==> (#[trigger] steps[i]).cycle as int == i)
    &&& (steps.len() > 0 ==> steps[steps.len() - 1].opcode == OP_HALT)
    &&& (forall|i: int| 0 <= i < steps.len() ==> cpu_step_bounds(#[trigger] steps[i]))
}

/// The CPU constraints hold on one row pair of a matrix generated from a
/// sound trace.
proof fn lemma_cpu_generated_pair(steps: Seq<Step>, m: WitnessMatrix, i: int, is_transition: bool)
    requires
        cpu_rows_match(steps, m),
        cpu_steps_sound(steps),
        m.rows@.len() < FIELD_MODULUS,
        0 <= i < m.rows@.len(),
        is_transition ==> i < m.rows@.len() - 1,
    ensures
        cpu_constraints(
            cpu_row_cols(m, i),
            cpu_row_cols(m, if is_transition {
                i + 1
            } else {
                i
            }),
            is_transition,
        ),
{
    let n = steps.len() as int;
    let x_idx = if is_transition {
        i + 1
    } else {
        i
    };
    let c = if i < n {
        spec_cpu_step_row(steps[i], succ_of(steps, i), i == n - 1)
    } else {
        spec_cpu_nop_row(i as nat, n > 0)
    };
    lemma_cpu_row_view_reversible::<u32>(c, c.row_seq());
    assert(cpu_row_cols(m, i) == c);
    let x = if x_idx < n {
        spec_cpu_step_row(steps[x_idx], succ_of(steps, x_idx), x_idx == n - 1)
    } else {
        spec_cpu_nop_row(x_idx as nat, n > 0)
    };
    lemma_cpu_row_view_reversible::<u32>(x, x.row_seq());
    assert(cpu_row_cols(m, x_idx) == x);
    vstd::arithmetic::div_mod::lemma_small_mod(1nat, FIELD_MODULUS as nat);
    vstd::arithmetic::div_mod::lemma_small_mod(4nat, FIELD_MODULUS as nat);
    vstd::arithmetic::div_mod::lemma_small_mod(i as nat, FIELD_MODULUS as nat);
    vstd::arithmetic::div_mod::lemma_small_mod((i + 1) as nat, FIELD_MODULUS as nat);
    // the one-hot sum
    lemma_cpu_flag_sum_plain(c);
    assert(flag_sum_int(c) == 1);
    // booleans
    lemma_poly_boolean01(c.is_alu);
    lemma_poly_boolean01(c.is_alu_imm);
    lemma_poly_boolean01(c.is_branch);
    lemma_poly_boolean01(c.is_jump);
    lemma_poly_boolean01(c.is_load);
    lemma_poly_boolean01(c.is_store);
    lemma_poly_boolean01(c.is_lui_auipc);
    lemma_poly_boolean01(c.is_system);
    lemma_poly_boolean01(c.is_zk_custom);
    lemma_poly_boolean01(c.is_zk_io);
    lemma_poly_boolean01(c.is_halt);
    lemma_poly_boolean01(c.is_nop);
    lemma_poly_boolean01(c.is_halted);
    lemma_poly_boolean01(c.branch_taken);
    lemma_poly_boolean01(c.mem_is_write);
    // rd_val and alu_result coincide by construction
    crate::field::lemma_fsub_self(c.rd_val as int);
    crate::field::lemma_fmul_zero(c.is_alu as int);
    crate::field::lemma_fmul_zero(c.is_alu_imm as int);
    // the successor program counter per class
    lemma_cpu_seq_sum_plain(c);
    if i < n {
        let s = steps[i];
        vstd::arithmetic::div_mod::lemma_small_mod((s.pc + 4) as nat, 0x1_0000_0000nat);
        crate::field::lemma_freduce_add(s.pc as int, 4);
        if s.opcode == OP_ALU || s.opcode == OP_ALU_IMM || s.opcode == OP_LOAD || s.opcode
            == OP_STORE || s.opcode == OP_LUI || s.opcode == OP_AUIPC || s.opcode == OP_ZK_CUSTOM
            || s.opcode == OP_ZK_IO {
            // a sequential row is never last (the last step is a halt), so
            // its successor column is pc + 4
            assert(i != n - 1);
            assert(c.next_pc as int == fadd(c.pc as int, 4));
            crate::field::lemma_fsub_self(c.next_pc as int);
            crate::field::lemma_fmul_zero(1);
        } else {
            assert(cpu_sequential_sum(c) == 0);
            crate::field::lemma_fmul_zero(fsub(c.next_pc as int, fadd(c.pc as int, 4)));
        }
        // branch target
        if s.opcode == OP_BRANCH {
            assert(i != n - 1);
            let pc4 = fadd(c.pc as int, 4);
            let pci = fadd(c.pc as int, c.imm as int);
            crate::field::lemma_freduce_add(s.pc as int, u32_of_i32(s.imm));
            if spec_branch_taken(s, succ_of(steps, i)) {
                vstd::arithmetic::div_mod::lemma_small_mod(
                    (s.pc as int + u32_of_i32(s.imm)) as nat,
                    0x1_0000_0000nat,
                );
                assert(c.branch_taken == 1);
                crate::field::lemma_fmul_one(pci);
                assert(fsub(1, 1) == 0);
                crate::field::lemma_fmul_zero(pc4);
                crate::field::lemma_fadd_small(pci, 0);
                assert(cpu_branch_target(c) == pci);
                assert(c.next_pc as int == pci);
            } else {
                assert(c.branch_taken == 0);
                crate::field::lemma_fmul_zero(pci);
                crate::field::lemma_fmul_one(pc4);
                crate::field::lemma_fadd_small(0, pc4);
                assert(cpu_branch_target(c) == pc4);
                assert(c.next_pc as int == pc4);
            }
            crate::field::lemma_fsub_self(c.next_pc as int);
            crate::field::lemma_fmul_zero(1);
        } else {
            crate::field::lemma_fmul_zero(fsub(c.next_pc as int, cpu_branch_target(c)));
        }
        // jump link address
        if s.opcode == OP_JAL || s.opcode == OP_JALR {
            assert(reg(s, s.rd) as int == s.pc as int + 4);
            assert(c.rd_val as int == fadd(c.pc as int, 4));
            crate::field::lemma_fsub_self(c.rd_val as int);
            crate::field::lemma_fmul_zero(1);
        } else {
            crate::field::lemma_fmul_zero(fsub(c.rd_val as int, fadd(c.pc as int, 4)));
        }
        // halt self-loop
        if s.opcode == OP_HALT {
            assert(c.next_pc == c.pc);
            crate::field::lemma_fsub_self(c.next_pc as int);
            crate::field::lemma_fmul_zero(1);
        } else {
            crate::field::lemma_fmul_zero(fsub(c.next_pc as int, c.pc as int));
        }
        // loads read, stores write
        if s.opcode == OP_LOAD {
            crate::field::lemma_fmul_zero(1);
        } else {
            crate::field::lemma_fmul_zero(fmul(c.is_load as int, c.mem_is_write as int));
            crate::field::lemma_fmul_zero(c.mem_is_write as int);
        }
        if s.opcode == OP_STORE {
            assert(c.mem_is_write == 1);
            assert(fsub(1, 1) == 0);
            crate::field::lemma_fmul_zero(1);
        } else {
            crate::field::lemma_fmul_zero(fsub(c.mem_is_write as int, 1));
        }
    } else {
        // padding row: every selector of a guarded local constraint is zero
        crate::field::lemma_fmul_zero(fsub(c.next_pc as int, fadd(c.pc as int, 4)));
        crate::field::lemma_fmul_zero(fsub(c.next_pc as int, cpu_branch_target(c)));
        crate::field::lemma_fmul_zero(fsub(c.rd_val as int, fadd(c.pc as int, 4)));
        crate::field::lemma_fmul_zero(fsub(c.next_pc as int, c.pc as int));
        crate::field::lemma_fmul_zero(c.mem_is_write as int);
        crate::field::lemma_fmul_zero(fsub(c.mem_is_write as int, 1));
    }
    if is_transition {
        // halting is sticky
        if c.is_halted == 1 {
            if x_idx < n {
                assert(i < n - 1);
                assert(steps[i].opcode == OP_HALT);
                assert(steps[x_idx].opcode == OP_HALT);
                assert(x.is_halted == 1);
            } else {
                assert(x.is_halted == 1);
            }
            assert(fsub(x.is_halted as int, 1) == 0);
            crate::field::lemma_fmul_zero(1);
        } else {
            crate::field::lemma_fmul_zero(fsub(x.is_halted as int, 1));
        }
        // program-counter continuity
        let guard = fsub(fsub(1, c.is_halt as int), c.is_nop as int);
        if c.is_halt == 0 && c.is_nop == 0 {
            assert(i < n);
            assert(guard == 1);
            assert(i != n - 1);
            assert(x_idx < n);
            assert(steps[x_idx].pc as int == spec_raw_next_pc(steps[i], succ_of(steps, i)));
            assert(x.pc == c.next_pc);
            crate::field::lemma_fsub_self(x.pc as int);
            crate::field::lemma_fmul_zero(1);
        } else {
            assert(guard == 0);
            crate::field::lemma_fmul_zero(fsub(x.pc as int, c.next_pc as int));
        }
        // cycle counter
        if c.is_nop == 0 {
            assert(i < n);
            assert(c.cycle as int == i);
            assert(x.cycle as int == i + 1);
            crate::field::lemma_fadd_small(c.cycle as int, 1);
            crate::field::lemma_fsub_self(x.cycle as int);
            crate::field::lemma_fmul_zero(1);
        } else {
            assert(fsub(1, c.is_nop as int) == 0);
            crate::field::lemma_fmul_zero(fsub(x.cycle as int, fadd(c.cycle as int, 1)));
        }
    }
}

/// Pairing of the generator with the evaluator: a CPU matrix generated from
/// a well-formed halting trace satisfies the CPU constraints on every row
/// pair, by construction.
pub proof fn lemma_cpu_generated_satisfies_constraints(steps: Seq<Step>, m: WitnessMatrix)
    requires
        cpu_rows_match(steps, m),
        cpu_steps_sound(steps),
        m.rows@.len() < FIELD_MODULUS,
        m.rows@.len() >= 2,
    ensures
        cpu_matrix_ok(m),
{
    assert forall|i: int| 0 <= i < m.rows@.len() - 1 implies cpu_constraints(
        cpu_cols_of_seq((#[trigger] m.rows@[i])@),
        cpu_cols_of_seq(m.rows@[i + 1]@),
        true,
    ) by {
        lemma_cpu_generated_pair(steps, m, i, true);
    }
    lemma_cpu_generated_pair(steps, m, m.rows@.len() - 1, false);
}

/// CPU chip for ZK IR execution.
pub struct CpuChip;

impl CpuChip {
    /// The fixed column count of this chip.
    pub fn width(&self) -> (r: usize)
        ensures
            r == CPU_NUM_COLUMNS,
    {
        CPU_NUM_COLUMNS
    }

    /// Assert that a value is boolean (0 or 1): `v * (1 - v) = 0`.
    fn assert_bool(&self, b: &mut ConstraintBuilder, v: u32)
        requires
            is_canonical(v),
        ensures
            *final(b) == (ConstraintBuilder {
                ok: old(b).ok && poly_boolean(v as int),
                ..*old(b)
            }),
    {
        let e = fp_mul(v, fp_sub(1, v));
        b.assert_zero(e);
    }

    /// Evaluate the CPU constraints on the row pair held by the builder.
    pub fn eval(&self, b: &mut ConstraintBuilder)
        requires
            old(b).wf(),
            old(b).local@.len() == CPU_NUM_COLUMNS,
            old(b).next@.len() == CPU_NUM_COLUMNS,
        ensures
            final(b).local == old(b).local,
            final(b).next == old(b).next,
            final(b).is_transition == old(b).is_transition,
            final(b).ok == (old(b).ok && cpu_constraints(
                cpu_cols_of_seq(old(b).local@),
                cpu_cols_of_seq(old(b).next@),
                old(b).is_transition,
            )),
    {
        let l = CpuColumns::from_row(&b.local);
        let x = CpuColumns::from_row(&b.next);
        proof {
            assert(forall|i: int|
                0 <= i < old(b).local@.len() ==> is_canonical(#[trigger] old(b).local@[i]));
            assert(forall|i: int|
                0 <= i < old(b).next@.len() ==> is_canonical(#[trigger] old(b).next@[i]));
        }
        // Opcode flags must be one-hot (exactly one set)
        let flag_sum = fp_add(
            fp_add(
                fp_add(
                    fp_add(
                        fp_add(
                            fp_add(
                                fp_add(
                                    fp_add(
                                        fp_add(
                                            fp_add(fp_add(l.is_alu, l.is_alu_imm), l.is_branch),
                                            l.is_jump,
                                        ),
                                        l.is_load,
                                    ),
                                    l.is_store,
                                ),
                                l.is_lui_auipc,
                            ),
                            l.is_system,
                        ),
                        l.is_zk_custom,
                    ),
                    l.is_zk_io,
                ),
                l.is_halt,
            ),
            l.is_nop,
        );
        b.assert_one(flag_sum);
        // Boolean constraints
        self.assert_bool(b, l.is_alu);
        self.assert_bool(b, l.is_alu_imm);
        self.assert_bool(b, l.is_branch);
        self.assert_bool(b, l.is_jump);
        self.assert_bool(b, l.is_load);
        self.assert_bool(b, l.is_store);
        self.assert_bool(b, l.is_lui_auipc);
        self.assert_bool(b, l.is_system);
        self.assert_bool(b, l.is_zk_custom);
        self.assert_bool(b, l.is_zk_io);
        self.assert_bool(b, l.is_halt);
        self.assert_bool(b, l.is_nop);
        self.assert_bool(b, l.is_halted);
        self.assert_bool(b, l.branch_taken);
        self.assert_bool(b, l.mem_is_write);
        // ALU operations write result to rd
        b.when_assert_eq(l.is_alu, l.rd_val, l.alu_result);
        b.when_assert_eq(l.is_alu_imm, l.rd_val, l.alu_result);
        // PC transitions
        let pc_plus_4 = fp_add(l.pc, 4);
        let pc_plus_imm = fp_add(l.pc, l.imm);
        let is_sequential = fp_add(
            fp_add(
                fp_add(
                    fp_add(fp_add(fp_add(l.is_alu, l.is_alu_imm), l.is_load), l.is_store),
                    l.is_lui_auipc,
                ),
                l.is_zk_custom,
            ),
            l.is_zk_io,
        );
        b.when_assert_eq(is_sequential, l.next_pc, pc_plus_4);
        // Branch logic: next_pc = branch_taken ? pc + imm : pc + 4
        let branch_target = fp_add(
            fp_mul(l.branch_taken, pc_plus_imm),
            fp_mul(fp_sub(1, l.branch_taken), pc_plus_4),
        );
        b.when_assert_eq(l.is_branch, l.next_pc, branch_target);
        // Jump instructions save the return address in rd
        b.when_assert_eq(l.is_jump, l.rd_val, pc_plus_4);
        // Halt behavior
        b.when_assert_eq(l.is_halt, l.next_pc, l.pc);
        // Once halted, stay halted
        b.transition_when_assert_one(l.is_halted, x.is_halted);
        // PC continuity: next.pc = local.next_pc, except for halt and NOP rows
        let not_halt_or_nop = fp_sub(fp_sub(1, l.is_halt), l.is_nop);
        b.transition_when_assert_eq(not_halt_or_nop, x.pc, l.next_pc);
        // Cycle counter increments each non-NOP step
        b.transition_when_assert_eq(fp_sub(1, l.is_nop), x.cycle, fp_add(l.cycle, 1));
        // Loads read memory, stores write it
        b.when_assert_zero(l.is_load, l.mem_is_write);
        b.when_assert_one(l.is_store, l.mem_is_write);
    }

    /// Generate the CPU witness matrix for this chip.
    pub fn generate_trace(&self, trace: &ExecutionTrace) -> (m: WitnessMatrix)
        requires
            cpu_steps_wf(trace.steps@),
            trace.steps@.len() <= 0x4000_0000,
        ensures
            m.wf(),
            m.width == CPU_NUM_COLUMNS,
            is_padded_height(m.spec_height(), trace.steps@.len() as nat),
            cpu_rows_match(trace.steps@, m),
    {
        generate_cpu_trace(trace)
    }

    /// Check every row pair of a matrix against the CPU constraints.
    pub fn check_matrix(&self, m: &WitnessMatrix) -> (r: bool)
        requires
            m.wf(),
            m.width == CPU_NUM_COLUMNS,
        ensures
            r == cpu_matrix_ok(*m),
    {
        let h = m.rows.len();
        let mut ok = true;
        let mut i: usize = 0;
        while i < h - 1
            invariant
                m.wf(),
                m.width == CPU_NUM_COLUMNS,
                h == m.rows@.len(),
                2 <= h,
                i <= h - 1,
                ok == (forall|k: int|
                    0 <= k < i ==> cpu_constraints(
                        cpu_cols_of_seq((#[trigger] m.rows@[k])@),
                        cpu_cols_of_seq(m.rows@[k + 1]@),
                        true,
                    )),
            decreases h - 1 - i,
        {
            let local = clone_row(&m.rows[i]);
            let next = clone_row(&m.rows[i + 1]);
            let mut b = ConstraintBuilder::new(local, next, true);
            self.eval(&mut b);
            ok = ok && b.ok;
            i = i + 1;
        }
        let last = clone_row(&m.rows[h - 1]);
        let last_again = clone_row(&m.rows[h - 1]);
        let mut b = ConstraintBuilder::new(last, last_again, false);
        self.eval(&mut b);
        ok = ok && b.ok;
        ok
    }
}

} // verus!
