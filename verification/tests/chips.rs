//! Tests for the CPU, memory and syscall chips: trace generation, padding,
//! and the constraint checkers.

use zkir_air::chips::cpu::{CpuChip, CpuColumns, OP_ALU, OP_HALT};
use zkir_air::chips::memory::{MemoryChip, MemoryColumns};
use zkir_air::chips::syscall::{Poseidon2Chip, Sha256Chip, SyscallChip};
use zkir_air::field::FIELD_MODULUS;
use zkir_air::trace::{ExecutionTrace, MemoryAccess, Step, SyscallRecord};

// CPU column indices, in schema order
const COL_PC: usize = 0;
const COL_NEXT_PC: usize = 1;
const COL_CYCLE: usize = 2;
const COL_IS_HALTED: usize = 3;
const COL_IS_ALU: usize = 13;
const COL_IS_HALT: usize = 23;
const COL_IS_NOP: usize = 24;

// Memory column indices, in schema order
const MCOL_ADDR: usize = 0;
const MCOL_CYCLE: usize = 1;
const MCOL_VALUE: usize = 2;
const MCOL_IS_WRITE: usize = 3;
const MCOL_SAME_ADDR: usize = 4;
const MCOL_CYCLE_INV: usize = 6;

fn alu_step(pc: u32, cycle: u64) -> Step {
    Step {
        pc,
        cycle,
        opcode: OP_ALU,
        rd: 1,
        rs1: 2,
        rs2: 3,
        imm: 0,
        funct: 0,
        registers: [0u32; 32],
    }
}

#[test]
fn cpu_three_alu_steps_scenario() {
    // three ALU steps at pc = 0, 4, 8; the third is the last step and is
    // forced into the halted state
    let mut t = ExecutionTrace::new([0u8; 32]);
    t.steps.push(alu_step(0, 0));
    t.steps.push(alu_step(4, 1));
    t.steps.push(alu_step(8, 2));
    let chip = CpuChip;
    let m = chip.generate_trace(&t);
    assert_eq!(m.rows.len(), 4);
    assert_eq!(m.width, 32);
    // rows 0-1: next_pc = pc + 4, and row 1's pc equals row 0's next_pc
    assert_eq!(m.rows[0][COL_NEXT_PC], m.rows[0][COL_PC] + 4);
    assert_eq!(m.rows[1][COL_NEXT_PC], m.rows[1][COL_PC] + 4);
    assert_eq!(m.rows[1][COL_PC], m.rows[0][COL_NEXT_PC]);
    // row 2 is halted with a self-looping pc
    assert_eq!(m.rows[2][COL_IS_HALTED], 1);
    assert_eq!(m.rows[2][COL_NEXT_PC], m.rows[2][COL_PC]);
    // row 3 is a NOP padding row
    assert_eq!(m.rows[3][COL_IS_NOP], 1);
}

#[test]
fn cpu_flags_one_hot_per_row() {
    let mut t = ExecutionTrace::new([0u8; 32]);
    t.steps.push(alu_step(0, 0));
    t.steps.push(Step { opcode: OP_HALT, pc: 4, cycle: 1, ..alu_step(4, 1) });
    t.steps.push(Step { opcode: 0x55, pc: 8, cycle: 2, ..alu_step(8, 2) });
    let m = CpuChip.generate_trace(&t);
    for row in &m.rows {
        let flag_sum: u32 = row[13..25].iter().sum();
        assert_eq!(flag_sum, 1);
    }
    // unrecognized opcode maps to NOP
    assert_eq!(m.rows[2][COL_IS_NOP], 1);
    // the halt row carries the halt flag
    assert_eq!(m.rows[1][COL_IS_HALT], 1);
}

#[test]
fn cpu_boolean_columns_hold() {
    let mut t = ExecutionTrace::new([0u8; 32]);
    t.steps.push(alu_step(0, 0));
    t.steps.push(Step { opcode: OP_HALT, ..alu_step(4, 1) });
    let m = CpuChip.generate_trace(&t);
    let bool_cols = [3usize, 13, 14, 15, 16, 17, 18, 19, 20, 21, 22, 23, 24, 27, 31];
    for row in &m.rows {
        for &c in bool_cols.iter() {
            let v = row[c] as u64;
            // v * (1 - v) = 0 over the integers, i.e. v is 0 or 1
            assert_eq!(v * (1 + FIELD_MODULUS as u64 - v) % FIELD_MODULUS as u64, 0);
            assert!(v == 0 || v == 1);
        }
    }
}

#[test]
fn cpu_cycle_and_halt_padding() {
    let mut t = ExecutionTrace::new([0u8; 32]);
    t.steps.push(alu_step(0, 0));
    t.steps.push(alu_step(4, 1));
    t.steps.push(Step { opcode: OP_HALT, ..alu_step(8, 2) });
    let m = CpuChip.generate_trace(&t);
    assert_eq!(m.rows.len(), 4);
    // cycles chain by one across every non-NOP row, including into padding
    assert_eq!(m.rows[0][COL_CYCLE], 0);
    assert_eq!(m.rows[1][COL_CYCLE], 1);
    assert_eq!(m.rows[2][COL_CYCLE], 2);
    assert_eq!(m.rows[3][COL_CYCLE], 3);
    // halting is sticky across padding
    assert_eq!(m.rows[2][COL_IS_HALTED], 1);
    assert_eq!(m.rows[3][COL_IS_HALTED], 1);
}

#[test]
fn cpu_constraints_hold_on_generated_trace() {
    let mut t = ExecutionTrace::new([0u8; 32]);
    t.steps.push(alu_step(0, 0));
    t.steps.push(alu_step(4, 1));
    t.steps.push(Step { opcode: OP_HALT, ..alu_step(8, 2) });
    let chip = CpuChip;
    let m = chip.generate_trace(&t);
    assert!(chip.check_matrix(&m));
}

#[test]
fn cpu_constraints_reject_corrupted_trace() {
    let mut t = ExecutionTrace::new([0u8; 32]);
    t.steps.push(alu_step(0, 0));
    t.steps.push(Step { opcode: OP_HALT, ..alu_step(4, 1) });
    let chip = CpuChip;
    let mut m = chip.generate_trace(&t);
    assert!(chip.check_matrix(&m));
    // set a second opcode-class flag: the one-hot sum breaks
    m.rows[0][COL_IS_HALT] = 1;
    assert!(!chip.check_matrix(&m));
}

#[test]
fn cpu_empty_trace_pads_to_two_nop_rows() {
    let t = ExecutionTrace::new([0u8; 32]);
    let m = CpuChip.generate_trace(&t);
    assert_eq!(m.rows.len(), 2);
    assert_eq!(m.rows[0][COL_IS_NOP], 1);
    assert_eq!(m.rows[1][COL_IS_NOP], 1);
    assert_eq!(m.rows[0][COL_IS_HALTED], 0);
    // padding row cycles carry the row index
    assert_eq!(m.rows[0][COL_CYCLE], 0);
    assert_eq!(m.rows[1][COL_CYCLE], 1);
}

#[test]
fn cpu_width_and_opcode_flags_view() {
    assert_eq!(CpuChip.width(), 32);
    let cols = CpuColumns::<u32> {
        pc: 0,
        next_pc: 4,
        cycle: 0,
        is_halted: 0,
        opcode: 0x33,
        rd: 1,
        rs1: 2,
        rs2: 3,
        imm: 0,
        funct: 0,
        rs1_val: 0,
        rs2_val: 0,
        rd_val: 0,
        is_alu: 1,
        is_alu_imm: 0,
        is_branch: 0,
        is_jump: 0,
        is_load: 0,
        is_store: 0,
        is_lui_auipc: 0,
        is_system: 0,
        is_zk_custom: 0,
        is_zk_io: 0,
        is_halt: 0,
        is_nop: 0,
        alu_op: 0,
        alu_result: 0,
        branch_taken: 0,
        comparison_result: 0,
        mem_addr: 0,
        mem_val: 0,
        mem_is_write: 0,
    };
    let flags = cols.opcode_flags();
    assert_eq!(flags, [1, 0, 0, 0, 0, 0, 0, 0, 0, 0, 0, 0]);
    // the flat row and the named view are mutually inverse
    let row = cols.to_row();
    assert_eq!(row.len(), 32);
    assert_eq!(row[COL_IS_ALU], 1);
    let back = CpuColumns::from_row(&row);
    assert_eq!(back.to_row(), row);
}

#[test]
fn memory_sort_scenario_and_constraints() {
    let mut t = ExecutionTrace::new([0u8; 32]);
    t.memory_log.push(MemoryAccess { address: 4, cycle: 1, value: 9, is_write: true });
    t.memory_log.push(MemoryAccess { address: 4, cycle: 3, value: 9, is_write: false });
    t.memory_log.push(MemoryAccess { address: 2, cycle: 2, value: 5, is_write: true });
    let chip = MemoryChip;
    let m = chip.generate_trace(&t);
    assert_eq!(m.width, 7);
    assert_eq!(m.rows.len(), 4);
    // sorted to (2,2,w,5), (4,1,w,9), (4,3,r,9)
    assert_eq!(m.rows[0][MCOL_ADDR], 2);
    assert_eq!(m.rows[0][MCOL_CYCLE], 2);
    assert_eq!(m.rows[0][MCOL_VALUE], 5);
    assert_eq!(m.rows[0][MCOL_IS_WRITE], 1);
    assert_eq!(m.rows[1][MCOL_ADDR], 4);
    assert_eq!(m.rows[1][MCOL_CYCLE], 1);
    assert_eq!(m.rows[2][MCOL_ADDR], 4);
    assert_eq!(m.rows[2][MCOL_CYCLE], 3);
    assert_eq!(m.rows[2][MCOL_IS_WRITE], 0);
    // the read at (4,3) returns the preceding same-address write's value
    assert_eq!(m.rows[2][MCOL_VALUE], 9);
    // same-address flag groups the two address-4 rows
    assert_eq!(m.rows[0][MCOL_SAME_ADDR], 0);
    assert_eq!(m.rows[1][MCOL_SAME_ADDR], 1);
    assert!(chip.check_matrix(&m));
}

#[test]
fn memory_cycle_inverse_column_certifies_difference() {
    // cycles 1 and 4 at the same address: next.cycle - cycle - 1 = 2, and
    // the helper column holds the field inverse of 2
    let mut t = ExecutionTrace::new([0u8; 32]);
    t.memory_log.push(MemoryAccess { address: 4, cycle: 1, value: 9, is_write: true });
    t.memory_log.push(MemoryAccess { address: 4, cycle: 4, value: 9, is_write: false });
    let m = MemoryChip.generate_trace(&t);
    let inv = m.rows[0][MCOL_CYCLE_INV];
    assert_eq!(inv, (FIELD_MODULUS + 1) / 2);
    assert_eq!(((inv as u64) * 2) % (FIELD_MODULUS as u64), 1);
}

#[test]
fn memory_constraints_reject_inconsistent_read() {
    let mut t = ExecutionTrace::new([0u8; 32]);
    t.memory_log.push(MemoryAccess { address: 4, cycle: 1, value: 9, is_write: true });
    t.memory_log.push(MemoryAccess { address: 4, cycle: 3, value: 9, is_write: false });
    let chip = MemoryChip;
    let mut m = chip.generate_trace(&t);
    assert!(chip.check_matrix(&m));
    // a read that disagrees with the last write breaks read consistency
    m.rows[1][MCOL_VALUE] = 7;
    assert!(!chip.check_matrix(&m));
}

#[test]
fn memory_empty_log_pads_to_two_zero_rows() {
    let t = ExecutionTrace::new([0u8; 32]);
    let chip = MemoryChip;
    let m = chip.generate_trace(&t);
    assert_eq!(m.rows.len(), 2);
    for row in &m.rows {
        for &v in row.iter() {
            assert_eq!(v, 0);
        }
    }
    assert!(chip.check_matrix(&m));
    assert_eq!(chip.width(), 7);
}

#[test]
fn memory_row_view_roundtrip() {
    let cols = MemoryColumns::<u32> {
        address: 4,
        cycle: 1,
        value: 9,
        is_write: 1,
        same_addr_as_next: 1,
        addr_diff_inv: 0,
        cycle_diff_inv: 1,
    };
    let row = cols.to_row();
    assert_eq!(row, vec![4, 1, 9, 1, 1, 0, 1]);
    let back = MemoryColumns::from_row(&row);
    assert_eq!(back.to_row(), row);
}

fn poseidon_call(cycle: u64) -> SyscallRecord {
    SyscallRecord { code: 0x01, cycle, inputs: vec![1, 2, 3], outputs: vec![4] }
}

fn sha_call(cycle: u64) -> SyscallRecord {
    SyscallRecord { code: 0x03, cycle, inputs: vec![5], outputs: vec![6] }
}

#[test]
fn poseidon2_chip_interface() {
    let chip = Poseidon2Chip::new();
    assert_eq!(chip.syscall_code(), 0x01);
    assert_eq!(chip.constraints_per_call(), 200);
    assert_eq!(chip.width(), 35);
    assert_eq!(chip.round_constants.len(), 22);
}

#[test]
fn poseidon2_trace_rows_per_call() {
    let chip = Poseidon2Chip::new();
    let syscalls = vec![poseidon_call(7), sha_call(9)];
    let m = chip.generate_trace(&syscalls);
    // one poseidon call: 22 round rows, padded to 32
    assert_eq!(m.rows.len(), 32);
    assert_eq!(m.width, 35);
    for r in 0..22 {
        assert_eq!(m.rows[r][0], 7, "cycle column");
        assert_eq!(m.rows[r][1], r as u32, "round column");
        let full = r < 4 || r >= 18;
        assert_eq!(m.rows[r][2], if full { 1 } else { 0 }, "full-round flag");
    }
    for r in 22..32 {
        for &v in m.rows[r].iter() {
            assert_eq!(v, 0);
        }
    }
}

#[test]
fn poseidon2_trace_empty_log() {
    let chip = Poseidon2Chip::new();
    let syscalls: Vec<SyscallRecord> = Vec::new();
    let m = chip.generate_trace(&syscalls);
    assert_eq!(m.rows.len(), 2);
}

#[test]
fn sha256_chip_interface() {
    let chip = Sha256Chip::new();
    assert_eq!(chip.syscall_code(), 0x03);
    assert_eq!(chip.constraints_per_call(), 20000);
    assert_eq!(chip.width(), 20);
}

#[test]
fn sha256_trace_rows_per_call() {
    let chip = Sha256Chip::new();
    let syscalls = vec![sha_call(11), poseidon_call(1)];
    let m = chip.generate_trace(&syscalls);
    // one sha256 call: 64 round rows, already a power of two
    assert_eq!(m.rows.len(), 64);
    assert_eq!(m.width, 20);
    for r in 0..64 {
        assert_eq!(m.rows[r][0], 11, "cycle column");
        assert_eq!(m.rows[r][2], r as u32, "round column");
    }
    // the round-constant column carries the canonical residue of K[r]
    assert_eq!(m.rows[0][12], 0x428a2f98);
    assert_eq!(m.rows[63][12], 0xc67178f2u32 - FIELD_MODULUS);
}

#[test]
fn sha256_round_constant_table() {
    let k = zkir_air::chips::syscall::sha256_round_constants();
    assert_eq!(k.len(), 64);
    assert_eq!(k[0], 0x428a2f98);
    assert_eq!(k[63], 0xc67178f2);
    let h = zkir_air::chips::syscall::sha256_initial_hash();
    assert_eq!(h.len(), 8);
    assert_eq!(h[0], 0x6a09e667);
    assert_eq!(h[7], 0x5be0cd19);
}

#[test]
fn cpu_branch_and_jump_constraints() {
    // a taken branch at pc=0 targeting pc+8, then a jump at pc=8 whose rd
    // holds the link address 12, then a halt at pc=16
    let mut regs = [0u32; 32];
    regs[1] = 12; // link register for the jump at pc=8
    let mut t = ExecutionTrace::new([0u8; 32]);
    t.steps.push(Step {
        pc: 0,
        cycle: 0,
        opcode: 0b1100011, // branch
        rd: 0,
        rs1: 2,
        rs2: 3,
        imm: 8,
        funct: 0,
        registers: [0u32; 32],
    });
    t.steps.push(Step {
        pc: 8,
        cycle: 1,
        opcode: 0b1101111, // jal, target pc + imm = 16
        rd: 1,
        rs1: 0,
        rs2: 0,
        imm: 8,
        funct: 0,
        registers: regs,
    });
    t.steps.push(Step { opcode: OP_HALT, ..alu_step(16, 2) });
    let chip = CpuChip;
    let m = chip.generate_trace(&t);
    assert_eq!(m.rows.len(), 4);
    // the branch row is marked taken and its next_pc is the branch target
    const COL_BRANCH_TAKEN: usize = 27;
    assert_eq!(m.rows[0][COL_BRANCH_TAKEN], 1);
    assert_eq!(m.rows[0][COL_NEXT_PC], 8);
    // the jump row's next_pc is its target and rd_val the link address
    const COL_RD_VAL: usize = 12;
    assert_eq!(m.rows[1][COL_NEXT_PC], 16);
    assert_eq!(m.rows[1][COL_RD_VAL], 12);
    assert!(chip.check_matrix(&m));
}

#[test]
fn cpu_not_taken_branch_falls_through() {
    let mut t = ExecutionTrace::new([0u8; 32]);
    t.steps.push(Step {
        pc: 0,
        cycle: 0,
        opcode: 0b1100011, // branch, not taken: execution continues at pc + 4
        rd: 0,
        rs1: 2,
        rs2: 3,
        imm: 100,
        funct: 0,
        registers: [0u32; 32],
    });
    t.steps.push(Step { opcode: OP_HALT, ..alu_step(4, 1) });
    let chip = CpuChip;
    let m = chip.generate_trace(&t);
    const COL_BRANCH_TAKEN: usize = 27;
    assert_eq!(m.rows[0][COL_BRANCH_TAKEN], 0);
    assert_eq!(m.rows[0][COL_NEXT_PC], 4);
    assert!(chip.check_matrix(&m));
}
