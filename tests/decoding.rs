use sandstorm::error::TraceError;
use sandstorm::field::Felt;
use sandstorm::memory::Memory;
use sandstorm::registers::{RegisterState, RegisterStates};
use sandstorm::word::{Flag, FlagGroup, Word};

const P3: u64 = 0x0800_0000_0000_0011;

fn word(l0: u64) -> Word {
    Word::new([l0, 0, 0, 0]).unwrap()
}

fn record(address: u64, limbs: [u64; 4]) -> Vec<u8> {
    let mut out = address.to_le_bytes().to_vec();
    for l in limbs {
        out.extend_from_slice(&l.to_le_bytes());
    }
    out
}

#[test]
fn flags_read_bits_from_offset_48() {
    let w = word(0xA5C3u64 << 48);
    let bits = 0xA5C3u64;
    let all = [
        Flag::DstReg,
        Flag::Op0Reg,
        Flag::Op1Imm,
        Flag::Op1Fp,
        Flag::Op1Ap,
        Flag::ResAdd,
        Flag::ResMul,
        Flag::PcJumpAbs,
        Flag::PcJumpRel,
        Flag::PcJnz,
        Flag::ApAdd,
        Flag::ApAdd1,
        Flag::OpcodeCall,
        Flag::OpcodeRet,
        Flag::OpcodeAssertEq,
        Flag::Zero,
    ];
    for (i, f) in all.iter().enumerate() {
        assert_eq!(w.get_flag(*f), (bits >> i) & 1 == 1, "flag {}", i);
    }
}

#[test]
fn offsets_are_16_bit_windows() {
    let w = word(0x0000_1234_5678_9ABC);
    assert_eq!(w.get_off_dst(), 0x9ABC);
    assert_eq!(w.get_off_op0(), 0x5678);
    assert_eq!(w.get_off_op1(), 0x1234);
}

#[test]
fn flag_prefix_and_padding() {
    // flags 0b0111_1111_1111_1111 with bit 1 cleared
    let w = word(0x7FFDu64 << 48);
    assert_eq!(w.get_flag_prefix(Flag::DstReg), 0x7FFD);
    assert_eq!(w.get_flag_prefix(Flag::Op0Reg), 0x3FFE);
    assert_eq!(w.get_flag_prefix(Flag::OpcodeAssertEq), 1);
    assert_eq!(w.get_flag_prefix(Flag::Zero), 0);
}

#[test]
fn flag_groups_weigh_their_flags() {
    // Op1Fp, ResMul, PcJnz, ApAdd1, OpcodeRet and OpcodeAssertEq set
    let flags: u64 = (1 << 3) | (1 << 6) | (1 << 9) | (1 << 11) | (1 << 13) | (1 << 14);
    let w = word(flags << 48);
    assert_eq!(w.get_flag_group(FlagGroup::DstReg), 0);
    assert_eq!(w.get_flag_group(FlagGroup::Op1Src), 2);
    assert_eq!(w.get_flag_group(FlagGroup::ResLogic), 2);
    assert_eq!(w.get_flag_group(FlagGroup::PcUpdate), 4);
    assert_eq!(w.get_flag_group(FlagGroup::ApUpdate), 2);
    assert_eq!(w.get_flag_group(FlagGroup::Opcode), 6);
}

#[test]
fn word_new_checks_modulus() {
    // the modulus itself, and one below it
    assert!(Word::new([1, 0, 0, P3]).is_err());
    assert!(Word::new([0, 1, 0, P3]).is_err());
    assert!(Word::new([0, 0, 0, P3]).is_ok());
    assert_eq!(Word::new([u64::MAX, 0, 0, u64::MAX]).unwrap_err(), TraceError::MalformedInput);
}

#[test]
fn operand_addresses_use_selected_register() {
    // off_dst = +2, off_op0 = -1; DstReg (fp) set, Op0Reg clear (ap)
    let w = word((1u64 << 48) | (0x7FFFu64 << 16) | 0x8002);
    assert_eq!(w.get_dst_addr(100, 200), Ok(202));
    assert_eq!(w.get_op0_addr(100, 200), Ok(99));
    // below address zero
    assert_eq!(w.get_op0_addr(0, 200), Err(TraceError::MalformedInput));
}

#[test]
fn memory_decodes_sparse_records() {
    let mut bytes = record(3, [7, 0, 0, 0]);
    bytes.extend(record(1, [1, 2, 3, 4]));
    let m = Memory::from_bytes(&bytes).unwrap();
    assert_eq!(m.len(), 4);
    assert!(m.resolve(0).is_none());
    assert!(m.resolve(2).is_none());
    assert_eq!(m.resolve(3).unwrap().limbs, [7, 0, 0, 0]);
    assert_eq!(m.resolve(1).unwrap().limbs, [1, 2, 3, 4]);
    assert!(m.resolve(100).is_none());
}

#[test]
fn memory_rejects_bad_streams() {
    let mut truncated = record(1, [1, 0, 0, 0]);
    truncated.pop();
    assert_eq!(Memory::from_bytes(&truncated).unwrap_err(), TraceError::MalformedInput);
    let too_large = record(1, [1, 0, 0, P3]);
    assert_eq!(Memory::from_bytes(&too_large).unwrap_err(), TraceError::MalformedInput);
    let mut twice = record(5, [1, 0, 0, 0]);
    twice.extend(record(5, [2, 0, 0, 0]));
    assert_eq!(Memory::from_bytes(&twice).unwrap_err(), TraceError::MalformedInput);
    let empty = Memory::from_bytes(&[]).unwrap();
    assert_eq!(empty.len(), 1);
    assert!(empty.resolve(0).is_none());
}

#[test]
fn memory_round_trip_gives_back_records() {
    let records = [(9u64, [0xDEADBEEFu64, 5, 0, 1]), (2u64, [1, 0, 0, 0]), (4u64, [0, 0, 7, 0])];
    let mut bytes = Vec::new();
    for (a, l) in records.iter() {
        bytes.extend(record(*a, *l));
    }
    let m = Memory::from_bytes(&bytes).unwrap();
    let mut cells = m.present_cells();
    cells.sort();
    let mut expected: Vec<(usize, Vec<u8>)> = records
        .iter()
        .map(|(a, l)| (*a as usize, record(*a, *l)[8..].to_vec()))
        .collect();
    expected.sort();
    assert_eq!(cells, expected);
}

#[test]
fn word_bytes_are_little_endian() {
    let w = Word::new([0x0102030405060708, 0, 0, 0x0A]).unwrap();
    let b = w.to_le_bytes();
    assert_eq!(b.len(), 32);
    assert_eq!(&b[0..8], &[8, 7, 6, 5, 4, 3, 2, 1]);
    assert_eq!(b[24], 0x0A);
}

#[test]
fn register_states_decode_in_order() {
    let mut bytes = Vec::new();
    for v in [10u64, 20, 1, 11, 20, 3] {
        bytes.extend_from_slice(&v.to_le_bytes());
    }
    let s = RegisterStates::from_bytes(&bytes).unwrap();
    assert_eq!(s.len(), 2);
    assert_eq!(s.states[0], RegisterState { ap: 10, fp: 20, pc: 1 });
    assert_eq!(s.states[1], RegisterState { ap: 11, fp: 20, pc: 3 });
    assert_eq!(RegisterStates::from_bytes(&[]).unwrap().len(), 0);
}

#[test]
fn register_states_reject_truncated_record() {
    let bytes = vec![0u8; 30];
    assert_eq!(RegisterStates::from_bytes(&bytes).unwrap_err(), TraceError::MalformedInput);
}

#[test]
fn field_arithmetic_reduces_by_modulus() {
    let minus_one = Felt::from_limbs([0, 0, 0, P3]).unwrap();
    let two = Felt::from_u64(2);
    assert_eq!(minus_one.add(&two).limbs, [1, 0, 0, 0]);
    assert_eq!(minus_one.mul(&minus_one).limbs, [1, 0, 0, 0]);
    assert_eq!(Felt::from_u64(6).mul(&Felt::from_u64(7)).limbs, [42, 0, 0, 0]);
    assert!(Felt::from_limbs([1, 0, 0, P3]).is_none());
}

#[test]
fn inverse_or_zero_of_field_elements() {
    let two = Felt::from_u64(2);
    let inv = two.inverse_or_zero();
    // (P + 1) / 2
    assert_eq!(inv.limbs, [1, 0, 0x8000_0000_0000_0000, 0x0400_0000_0000_0008]);
    assert_eq!(inv.mul(&two).limbs, [1, 0, 0, 0]);
    assert_eq!(Felt::zero().inverse_or_zero().limbs, [0, 0, 0, 0]);
}

#[test]
fn memory_table_spans_largest_address() {
    let mut bytes = record(7, [1, 0, 0, 0]);
    bytes.extend(record(2, [2, 0, 0, 0]));
    let m = Memory::from_bytes(&bytes).unwrap();
    assert_eq!(m.len(), 8);
    let mut permuted = record(2, [2, 0, 0, 0]);
    permuted.extend(record(7, [1, 0, 0, 0]));
    let p = Memory::from_bytes(&permuted).unwrap();
    assert_eq!(p.len(), 8);
    for a in 0..8 {
        assert_eq!(m.resolve(a).map(|w| w.limbs), p.resolve(a).map(|w| w.limbs));
    }
}

#[test]
fn low_bits_are_offsets_and_flags() {
    let l0: u64 = 0x4006_8001_7FFF_8000;
    let w = word(l0);
    let mut rebuilt = w.get_off_dst() as u64 + ((w.get_off_op0() as u64) << 16) + ((w.get_off_op1() as u64) << 32);
    for i in 0..16 {
        if w.get_flag(Flag::from_index(i)) {
            rebuilt += 1 << (48 + i);
        }
    }
    assert_eq!(rebuilt, l0);
}
