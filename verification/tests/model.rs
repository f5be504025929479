//! Tests for the field arithmetic, the padded-matrix helper and the
//! execution-trace model.

use zkir_air::field::{fp_add, fp_from_u32, fp_from_u64, fp_mul, fp_sub, FIELD_MODULUS};
use zkir_air::matrix::next_power_of_two_height;
use zkir_air::trace::{ExecutionTrace, MemoryAccess, Step, SyscallCode, SyscallRecord};

fn empty_trace() -> ExecutionTrace {
    ExecutionTrace::new([0u8; 32])
}

fn step_at(pc: u32, cycle: u64, opcode: u8) -> Step {
    Step {
        pc,
        cycle,
        opcode,
        rd: 1,
        rs1: 2,
        rs2: 3,
        imm: 0,
        funct: 0,
        registers: [0u32; 32],
    }
}

#[test]
fn field_modulus_value() {
    assert_eq!(FIELD_MODULUS, 2013265921);
    assert_eq!(FIELD_MODULUS, (1u32 << 31) - (1u32 << 27) + 1);
}

#[test]
fn field_add_wraps() {
    assert_eq!(fp_add(1, 2), 3);
    assert_eq!(fp_add(FIELD_MODULUS - 1, 1), 0);
    assert_eq!(fp_add(FIELD_MODULUS - 1, FIELD_MODULUS - 1), FIELD_MODULUS - 2);
}

#[test]
fn field_sub_wraps() {
    assert_eq!(fp_sub(5, 3), 2);
    assert_eq!(fp_sub(0, 1), FIELD_MODULUS - 1);
}

#[test]
fn field_mul_exact() {
    assert_eq!(fp_mul(3, 7), 21);
    // (p - 1)^2 = p^2 - 2p + 1 = 1 mod p
    assert_eq!(fp_mul(FIELD_MODULUS - 1, FIELD_MODULUS - 1), 1);
}

#[test]
fn field_reduction() {
    assert_eq!(fp_from_u32(FIELD_MODULUS), 0);
    assert_eq!(fp_from_u32(FIELD_MODULUS + 5), 5);
    assert_eq!(fp_from_u32(7), 7);
    assert_eq!(fp_from_u64(FIELD_MODULUS as u64 * 3 + 11), 11);
}

#[test]
fn padded_height_small_inputs() {
    assert_eq!(next_power_of_two_height(0), 2);
    assert_eq!(next_power_of_two_height(1), 2);
    assert_eq!(next_power_of_two_height(2), 2);
    assert_eq!(next_power_of_two_height(3), 4);
    assert_eq!(next_power_of_two_height(4), 4);
    assert_eq!(next_power_of_two_height(5), 8);
    assert_eq!(next_power_of_two_height(1000), 1024);
}

#[test]
fn new_trace_is_empty() {
    let t = empty_trace();
    assert_eq!(t.inputs.len(), 0);
    assert_eq!(t.outputs.len(), 0);
    assert_eq!(t.steps.len(), 0);
    assert_eq!(t.memory_log.len(), 0);
    assert_eq!(t.syscalls.len(), 0);
    assert_eq!(t.program_hash, [0u8; 32]);
}

#[test]
fn num_cycles_empty_and_nonempty() {
    let mut t = empty_trace();
    assert_eq!(t.num_cycles(), 0);
    t.steps.push(step_at(0, 0, 0b0110011));
    t.steps.push(step_at(4, 1, 0b0110011));
    t.steps.push(step_at(8, 7, 0b1111111));
    assert_eq!(t.num_cycles(), 7);
}

#[test]
fn sorted_memory_log_orders_by_address_then_cycle() {
    let mut t = empty_trace();
    t.memory_log.push(MemoryAccess { address: 4, cycle: 1, value: 9, is_write: true });
    t.memory_log.push(MemoryAccess { address: 4, cycle: 3, value: 9, is_write: false });
    t.memory_log.push(MemoryAccess { address: 2, cycle: 2, value: 5, is_write: true });
    let s = t.sorted_memory_log();
    assert_eq!(s.len(), 3);
    assert_eq!((s[0].address, s[0].cycle, s[0].is_write, s[0].value), (2, 2, true, 5));
    assert_eq!((s[1].address, s[1].cycle, s[1].is_write, s[1].value), (4, 1, true, 9));
    assert_eq!((s[2].address, s[2].cycle, s[2].is_write, s[2].value), (4, 3, false, 9));
    // the read at (4, 3) carries the preceding same-address write's value
    assert_eq!(s[2].value, s[1].value);
}

#[test]
fn sorted_memory_log_is_permutation() {
    let mut t = empty_trace();
    for i in 0..8u32 {
        t.memory_log.push(MemoryAccess {
            address: 100 - i,
            cycle: i as u64,
            value: i,
            is_write: i % 2 == 0,
        });
    }
    let s = t.sorted_memory_log();
    assert_eq!(s.len(), 8);
    for w in s.windows(2) {
        assert!(
            w[0].address < w[1].address
                || (w[0].address == w[1].address && w[0].cycle <= w[1].cycle)
        );
    }
    // same multiset of records: every input record occurs in the output
    for a in &t.memory_log {
        assert!(s
            .iter()
            .any(|b| b.address == a.address && b.cycle == a.cycle && b.value == a.value
                && b.is_write == a.is_write));
    }
}

#[test]
fn syscalls_by_code_filters() {
    let mut t = empty_trace();
    t.syscalls.push(SyscallRecord { code: 0x01, cycle: 1, inputs: vec![1], outputs: vec![] });
    t.syscalls.push(SyscallRecord { code: 0x03, cycle: 2, inputs: vec![2], outputs: vec![] });
    t.syscalls.push(SyscallRecord { code: 0x01, cycle: 5, inputs: vec![3], outputs: vec![] });
    let p = t.syscalls_by_code(SyscallCode::Poseidon2);
    assert_eq!(p.len(), 2);
    assert_eq!(p[0].cycle, 1);
    assert_eq!(p[1].cycle, 5);
    let s = t.syscalls_by_code(SyscallCode::Sha256);
    assert_eq!(s.len(), 1);
    assert_eq!(s[0].cycle, 2);
    let b = t.syscalls_by_code(SyscallCode::Blake3);
    assert_eq!(b.len(), 0);
}

#[test]
fn syscall_codes() {
    assert_eq!(SyscallCode::Poseidon2.as_u32(), 0x01);
    assert_eq!(SyscallCode::Keccak256.as_u32(), 0x02);
    assert_eq!(SyscallCode::Sha256.as_u32(), 0x03);
    assert_eq!(SyscallCode::Blake3.as_u32(), 0x04);
    assert_eq!(SyscallCode::EcdsaVerify.as_u32(), 0x10);
    assert_eq!(SyscallCode::Ed25519Verify.as_u32(), 0x11);
    assert_eq!(SyscallCode::BigintAdd.as_u32(), 0x20);
    assert_eq!(SyscallCode::BigintMul.as_u32(), 0x21);
}
