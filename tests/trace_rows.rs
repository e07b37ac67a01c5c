use sandstorm::error::TraceError;
use sandstorm::memory::Memory;
use sandstorm::registers::{RegisterState, RegisterStates};
use sandstorm::trace::{ExecutionTrace, TraceRow};
use sandstorm::word::Flag;

fn instruction(flags: u64, off_dst: u64, off_op0: u64, off_op1: u64) -> u64 {
    (flags << 48) | (off_op1 << 32) | (off_op0 << 16) | off_dst
}

fn memory(cells: &[(u64, [u64; 4])]) -> Memory {
    let mut bytes = Vec::new();
    for (a, limbs) in cells {
        bytes.extend_from_slice(&a.to_le_bytes());
        for l in limbs {
            bytes.extend_from_slice(&l.to_le_bytes());
        }
    }
    Memory::from_bytes(&bytes).unwrap()
}

fn states(rows: &[(u64, u64, u64)]) -> RegisterStates {
    let mut bytes = Vec::new();
    for (ap, fp, pc) in rows {
        bytes.extend_from_slice(&ap.to_le_bytes());
        bytes.extend_from_slice(&fp.to_le_bytes());
        bytes.extend_from_slice(&pc.to_le_bytes());
    }
    RegisterStates::from_bytes(&bytes).unwrap()
}

// `[ap + 0] = 7` checked as an assertion, with op0 read at `fp - 1`.
const ASSERT_IMM: u64 = 0x4006;

#[test]
fn assert_equal_immediate_row() {
    let instr = instruction(ASSERT_IMM, 0x8000, 0x7FFF, 0x8001);
    let mem = memory(&[(1, [instr, 0, 0, 0]), (2, [7, 0, 0, 0]), (9, [3, 0, 0, 0]), (10, [7, 0, 0, 0])]);
    let trace = ExecutionTrace::new(&states(&[(10, 10, 1)]), &mem).unwrap();
    assert_eq!(trace.len(), 1);
    let row = &trace.rows[0];
    assert_eq!(row.registers, RegisterState { ap: 10, fp: 10, pc: 1 });
    assert_eq!((row.off_dst, row.off_op0, row.off_op1), (0x8000, 0x7FFF, 0x8001));
    assert_eq!((row.dst_addr, row.op0_addr, row.op1_addr), (10, 9, 2));
    assert_eq!(row.dst.limbs, [7, 0, 0, 0]);
    assert_eq!(row.op0.limbs, [3, 0, 0, 0]);
    assert_eq!(row.op1.limbs, [7, 0, 0, 0]);
    assert_eq!(row.res.limbs, [7, 0, 0, 0]);
    assert_eq!(row.tmp0.limbs, [0, 0, 0, 0]);
    assert_eq!(row.tmp1.limbs, [0, 0, 0, 0]);
    assert_eq!(row.flag_prefixes.len(), 16);
    assert_eq!(row.flag_prefixes[0], 0x4006);
    assert_eq!(row.flag_prefixes[14], 1);
    assert_eq!(row.flag_prefixes[15], 0);
}

#[test]
fn result_of_addition_and_multiplication() {
    let add = instruction(0x4026, 0x8000, 0x7FFF, 0x8001);
    let mul = instruction(0x4046, 0x8000, 0x7FFF, 0x8001);
    let mem = memory(&[
        (1, [add, 0, 0, 0]),
        (2, [7, 0, 0, 0]),
        (3, [mul, 0, 0, 0]),
        (4, [7, 0, 0, 0]),
        (9, [3, 0, 0, 0]),
        (10, [10, 0, 0, 0]),
        (11, [21, 0, 0, 0]),
    ]);
    let w = mem.resolve(1).unwrap();
    assert_eq!(w.get_res(1, 10, 10, &mem).unwrap().limbs, [10, 0, 0, 0]);
    let w = mem.resolve(3).unwrap();
    assert_eq!(w.get_res(3, 11, 10, &mem).unwrap().limbs, [21, 0, 0, 0]);
    let trace = ExecutionTrace::new(&states(&[(10, 10, 1), (11, 10, 3)]), &mem).unwrap();
    assert_eq!(trace.rows[1].res.limbs, [21, 0, 0, 0]);
}

#[test]
fn immediate_operand_ignores_memory_and_registers() {
    let instr = instruction(ASSERT_IMM, 0x8000, 0x7FFF, 0x8003);
    let mem = memory(&[(1, [instr, 0, 0, 0])]);
    let w = mem.resolve(1).unwrap();
    assert_eq!(w.get_op1_addr(1, 50, 60, &mem), Ok(4));
    assert_eq!(w.get_op1_addr(1, 0, 0, &mem), Ok(4));
}

#[test]
fn indirect_operand_reads_op0() {
    // Op1Src = 0: op1 at [op0 + 1]; op0 at [fp - 1]
    let instr = instruction(0x4002, 0x8000, 0x7FFF, 0x8001);
    let mem = memory(&[(1, [instr, 0, 0, 0]), (9, [20, 0, 0, 0]), (21, [5, 0, 0, 0])]);
    let w = mem.resolve(1).unwrap();
    assert_eq!(w.get_op1_addr(1, 10, 10, &mem), Ok(21));
    assert_eq!(w.get_op1(1, 10, 10, &mem).unwrap().limbs, [5, 0, 0, 0]);
    assert_eq!(w.get_op1_addr(1, 10, 5, &mem), Err(TraceError::MalformedInput));
}

#[test]
fn conditional_jump_res_is_inverse_of_dst() {
    // jmp rel [pc + 1] if [ap] != 0
    let jnz = instruction(0x0206, 0x8000, 0x7FFF, 0x8001);
    let mem = memory(&[(1, [jnz, 0, 0, 0]), (2, [5, 0, 0, 0]), (9, [0, 0, 0, 0]), (10, [2, 0, 0, 0])]);
    let trace = ExecutionTrace::new(&states(&[(10, 10, 1)]), &mem).unwrap();
    let row = &trace.rows[0];
    assert_eq!(row.res.limbs, [1, 0, 0x8000_0000_0000_0000, 0x0400_0000_0000_0008]);
    assert_eq!(row.tmp0.limbs, [2, 0, 0, 0]);
    assert_eq!(row.tmp1.limbs, [1, 0, 0, 0]);
}

#[test]
fn conditional_jump_on_zero_dst_gives_zero_res() {
    let jnz = instruction(0x0206, 0x8000, 0x7FFF, 0x8001);
    let mem = memory(&[(1, [jnz, 0, 0, 0]), (2, [5, 0, 0, 0]), (9, [0, 0, 0, 0]), (10, [0, 0, 0, 0])]);
    let trace = ExecutionTrace::new(&states(&[(10, 10, 1)]), &mem).unwrap();
    assert_eq!(trace.rows[0].res.limbs, [0, 0, 0, 0]);
    assert_eq!(trace.rows[0].tmp1.limbs, [0, 0, 0, 0]);
}

#[test]
fn absent_instruction_is_malformed_input() {
    let instr = instruction(ASSERT_IMM, 0x8000, 0x7FFF, 0x8001);
    let mem = memory(&[(1, [instr, 0, 0, 0]), (2, [7, 0, 0, 0]), (9, [3, 0, 0, 0]), (10, [7, 0, 0, 0])]);
    let s = RegisterState { ap: 10, fp: 10, pc: 5 };
    assert_eq!(TraceRow::new(s, &mem).unwrap_err(), TraceError::MalformedInput);
    let far = RegisterState { ap: 10, fp: 10, pc: 500 };
    assert_eq!(TraceRow::new(far, &mem).unwrap_err(), TraceError::MalformedInput);
    let err = ExecutionTrace::new(&states(&[(10, 10, 1), (10, 10, 5)]), &mem).err().unwrap();
    assert_eq!(err, TraceError::MalformedInput);
}

#[test]
fn absent_operand_is_malformed_input() {
    let instr = instruction(ASSERT_IMM, 0x8000, 0x7FFF, 0x8001);
    let mem = memory(&[(1, [instr, 0, 0, 0]), (2, [7, 0, 0, 0]), (10, [7, 0, 0, 0])]);
    let s = RegisterState { ap: 10, fp: 10, pc: 1 };
    assert_eq!(TraceRow::new(s, &mem).unwrap_err(), TraceError::MalformedInput);
}

#[test]
fn undefined_flag_groups_are_malformed_instructions() {
    // Op1Src = 3
    let bad_src = instruction(0x400E, 0x8000, 0x7FFF, 0x8001);
    // ResLogic = 3
    let bad_res = instruction(0x4066, 0x8000, 0x7FFF, 0x8001);
    // PcUpdate = 3
    let bad_pc = instruction(0x4186, 0x8000, 0x7FFF, 0x8001);
    // conditional jump with ResLogic = 1
    let bad_jnz = instruction(0x0226, 0x8000, 0x7FFF, 0x8001);
    let mem = memory(&[
        (1, [bad_src, 0, 0, 0]),
        (2, [bad_res, 0, 0, 0]),
        (3, [bad_pc, 0, 0, 0]),
        (4, [bad_jnz, 0, 0, 0]),
        (5, [1, 0, 0, 0]),
        (9, [3, 0, 0, 0]),
        (10, [7, 0, 0, 0]),
    ]);
    for pc in 1..5usize {
        let s = RegisterState { ap: 10, fp: 10, pc };
        assert_eq!(TraceRow::new(s, &mem).unwrap_err(), TraceError::MalformedInstruction, "pc {}", pc);
    }
    let w = mem.resolve(1).unwrap();
    assert!(!w.get_flag(Flag::Zero));
}

#[test]
fn undefined_result_logic_is_malformed_whatever_memory_holds() {
    // ResAdd and ResMul both set, no operand cell present
    let w = instruction(0x0060, 0x8000, 0x8000, 0x8000);
    let mem = memory(&[(0x8000, [w, 0, 0, 0])]);
    let word = mem.resolve(0x8000).unwrap();
    assert_eq!(word.get_res(0x8000, 0x8000, 0x8000, &mem).unwrap_err(), TraceError::MalformedInstruction);
    assert_eq!(word.get_tmp1(0x8000, 0x8000, 0x8000, &mem).unwrap_err(), TraceError::MalformedInstruction);
    assert_eq!(word.check_instruction(), Err(TraceError::MalformedInstruction));
    let s = RegisterState { ap: 0x8000, fp: 0x8000, pc: 0x8000 };
    assert_eq!(TraceRow::new(s, &mem).unwrap_err(), TraceError::MalformedInstruction);
}

#[test]
fn undefined_operand_source_is_malformed_before_reading_memory() {
    // Op1Imm and Op1Fp set, dst and op0 cells absent
    let w = instruction(0x400C, 0x8000, 0x7FFF, 0x8001);
    let mem = memory(&[(1, [w, 0, 0, 0])]);
    let word = mem.resolve(1).unwrap();
    assert_eq!(word.get_res(1, 10, 10, &mem).unwrap_err(), TraceError::MalformedInstruction);
    let s = RegisterState { ap: 10, fp: 10, pc: 1 };
    assert_eq!(TraceRow::new(s, &mem).unwrap_err(), TraceError::MalformedInstruction);
}
