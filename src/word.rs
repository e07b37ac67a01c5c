//! The bit layout of a Cairo instruction word: three biased 16-bit offsets
//! followed by sixteen flag bits.

use vstd::prelude::*;
use vstd::arithmetic::power2::pow2;
use crate::error::TraceError;
use crate::field::{limbs_value, modulus, Felt};

verus! {

/// Bit offset of `off_dst` within a word.
pub const OFF_DST_BIT_OFFSET: usize = 0;

/// Bit offset of `off_op0` within a word.
pub const OFF_OP0_BIT_OFFSET: usize = 16;

/// Bit offset of `off_op1` within a word.
pub const OFF_OP1_BIT_OFFSET: usize = 32;

/// Bit offset of the first flag within a word.
pub const FLAGS_BIT_OFFSET: usize = 48;

/// Number of flag slots, the last of which is always zero.
pub const NUM_FLAGS: usize = 16;

/// Mask of one offset field.
pub const OFF_MASK: usize = 0xFFFF;

/// The bias of an offset field: a stored value `v` means a displacement of
/// `v - HALF_OFFSET`.
pub const HALF_OFFSET: usize = 0x8000;

/// `width` bits of `v` starting at bit `start`.
pub open spec fn bits_at(v: nat, start: nat, width: nat) -> nat {
    (v / pow2(start)) % pow2(width)
}

/// An address, if the integer is one.
pub open spec fn to_address(a: int) -> Result<usize, TraceError> {
    if 0 <= a <= usize::MAX {
        Ok(a as usize)
    } else {
        Err(TraceError::MalformedInput)
    }
}

/// A Cairo instruction flag, in bit order.
#[derive(Clone, Copy, Debug)]
pub enum Flag {
    DstReg,
    Op0Reg,
    Op1Imm,
    Op1Fp,
    Op1Ap,
    ResAdd,
    ResMul,
    PcJumpAbs,
    PcJumpRel,
    PcJnz,
    ApAdd,
    ApAdd1,
    OpcodeCall,
    OpcodeRet,
    OpcodeAssertEq,
    /// Padding that makes the flag cells a power of two; always zero.
    Zero,
}

/// The position of a flag among the flag bits.
pub open spec fn flag_index(f: Flag) -> nat {
    match f {
        Flag::DstReg => 0,
        Flag::Op0Reg => 1,
        Flag::Op1Imm => 2,
        Flag::Op1Fp => 3,
        Flag::Op1Ap => 4,
        Flag::ResAdd => 5,
        Flag::ResMul => 6,
        Flag::PcJumpAbs => 7,
        Flag::PcJumpRel => 8,
        Flag::PcJnz => 9,
        Flag::ApAdd => 10,
        Flag::ApAdd1 => 11,
        Flag::OpcodeCall => 12,
        Flag::OpcodeRet => 13,
        Flag::OpcodeAssertEq => 14,
        Flag::Zero => 15,
    }
}

impl Flag {
    /// The position of the flag among the flag bits.
    pub fn index(&self) -> (r: usize)
        ensures
            r == flag_index(*self),
            r < NUM_FLAGS,
    {
        match self {
            Flag::DstReg => 0,
            Flag::Op0Reg => 1,
            Flag::Op1Imm => 2,
            Flag::Op1Fp => 3,
            Flag::Op1Ap => 4,
            Flag::ResAdd => 5,
            Flag::ResMul => 6,
            Flag::PcJumpAbs => 7,
            Flag::PcJumpRel => 8,
            Flag::PcJnz => 9,
            Flag::ApAdd => 10,
            Flag::ApAdd1 => 11,
            Flag::OpcodeCall => 12,
            Flag::OpcodeRet => 13,
            Flag::OpcodeAssertEq => 14,
            Flag::Zero => 15,
        }
    }
}

/// Related flags read together as one small integer.
#[derive(Clone, Copy, Debug)]
pub enum FlagGroup {
    DstReg,
    Op0Reg,
    Op1Src,
    ResLogic,
    PcUpdate,
    ApUpdate,
    Opcode,
}

/// The window of a 256-bit value that lies in its lowest limb is that of the limb.
proof fn lemma_window_in_low_limb(l: [u64; 4], start: nat, width: nat)
    requires
        start + width <= 64,
    ensures
        bits_at(limbs_value(l), start, width) == bits_at(l[0] as nat, start, width),
{
    let hi: nat = l[1] as nat + l[2] as nat * 0x1_0000_0000_0000_0000nat + l[3] as nat
        * 0x1_0000_0000_0000_0000_0000_0000_0000_0000nat;
    vstd::arithmetic::power2::lemma2_to64();
    vstd::arithmetic::power2::lemma2_to64_rest();
    assert(pow2(64) == 0x1_0000_0000_0000_0000nat);
    let v = limbs_value(l);
    assert(v == l[0] as nat + pow2(64) * hi);
    let ps = pow2(start);
    let pw = pow2(width);
    let rest = (64 - start - width) as nat;
    vstd::arithmetic::power2::lemma_pow2_pos(start);
    vstd::arithmetic::power2::lemma_pow2_pos(width);
    vstd::arithmetic::power2::lemma_pow2_adds(start, (64 - start) as nat);
    vstd::arithmetic::power2::lemma_pow2_adds(width, rest);
    let q0 = l[0] as nat / ps;
    let r0 = l[0] as nat % ps;
    vstd::arithmetic::div_mod::lemma_fundamental_div_mod(l[0] as int, ps as int);
    let a = pow2(rest) * hi;
    let k = pw * a;
    assert(pow2(64) * hi == ps * k) by (nonlinear_arith)
        requires
            pow2(64) == ps * pow2((64 - start) as nat),
            pow2((64 - start) as nat) == pw * pow2(rest),
            k == pw * a,
            a == pow2(rest) * hi,
    ;
    assert(v == (q0 + k) * ps + r0) by (nonlinear_arith)
        requires
            v == l[0] as nat + ps * k,
            l[0] as int == ps * q0 + r0,
    ;
    vstd::arithmetic::div_mod::lemma_fundamental_div_mod_converse(
        v as int,
        ps as int,
        (q0 + k) as int,
        r0 as int,
    );
    vstd::arithmetic::div_mod::lemma_mod_multiples_vanish(a as int, q0 as int, pw as int);
}

/// `width` bits of `x` starting at bit `start`, by shift and mask.
fn bit_window(x: u64, start: u64, width: u64) -> (r: u64)
    requires
        0 < width < 64,
        start + width <= 64,
    ensures
        r == bits_at(x as nat, start as nat, width as nat),
{
    proof {
        vstd::bits::lemma_u64_pow2_no_overflow(width as nat);
        vstd::bits::lemma_u64_shl_is_mul(1, width);
        vstd::bits::lemma_u64_shr_is_div(x, start);
        vstd::bits::lemma_u64_low_bits_mask_is_mod(x >> start, width as nat);
    }
    let mask = (1u64 << width) - 1;
    (x >> start) & mask
}

/// A Cairo word: a value below the field modulus, held as four little-endian
/// 64-bit limbs.
#[derive(Clone, Copy, Debug)]
pub struct Word {
    pub limbs: [u64; 4],
}

impl Word {
    pub open spec fn value(&self) -> nat {
        limbs_value(self.limbs)
    }

    pub open spec fn wf(&self) -> bool {
        self.value() < modulus()
    }

    pub open spec fn flag(&self, f: Flag) -> bool {
        bits_at(self.value(), (FLAGS_BIT_OFFSET + flag_index(f)) as nat, 1) == 1
    }

    pub open spec fn flag_bit(&self, f: Flag) -> nat {
        if self.flag(f) {
            1
        } else {
            0
        }
    }

    pub open spec fn off_dst(&self) -> nat {
        bits_at(self.value(), OFF_DST_BIT_OFFSET as nat, 16)
    }

    pub open spec fn off_op0(&self) -> nat {
        bits_at(self.value(), OFF_OP0_BIT_OFFSET as nat, 16)
    }

    pub open spec fn off_op1(&self) -> nat {
        bits_at(self.value(), OFF_OP1_BIT_OFFSET as nat, 16)
    }

    pub open spec fn group(&self, g: FlagGroup) -> nat {
        match g {
            FlagGroup::DstReg => self.flag_bit(Flag::DstReg),
            FlagGroup::Op0Reg => self.flag_bit(Flag::Op0Reg),
            FlagGroup::Op1Src => self.flag_bit(Flag::Op1Imm) + self.flag_bit(Flag::Op1Fp) * 2
                + self.flag_bit(Flag::Op1Ap) * 4,
            FlagGroup::ResLogic => self.flag_bit(Flag::ResAdd) + self.flag_bit(Flag::ResMul) * 2,
            FlagGroup::PcUpdate => self.flag_bit(Flag::PcJumpAbs) + self.flag_bit(Flag::PcJumpRel)
                * 2 + self.flag_bit(Flag::PcJnz) * 4,
            FlagGroup::ApUpdate => self.flag_bit(Flag::ApAdd) + self.flag_bit(Flag::ApAdd1) * 2,
            FlagGroup::Opcode => self.flag_bit(Flag::OpcodeCall) + self.flag_bit(Flag::OpcodeRet)
                * 2 + self.flag_bit(Flag::OpcodeAssertEq) * 4,
        }
    }

    /// The flag bits from `f` up to the last real flag, as one integer whose
    /// lowest bit is `f`; zero for the padding flag.
    pub open spec fn flag_prefix(&self, f: Flag) -> nat {
        match f {
            Flag::Zero => 0,
            _ => bits_at(
                self.value(),
                (FLAGS_BIT_OFFSET + flag_index(f)) as nat,
                (15 - flag_index(f)) as nat,
            ),
        }
    }

    pub open spec fn op0_addr(&self, ap: int, fp: int) -> int {
        self.off_op0() + (if self.flag(Flag::Op0Reg) {
            fp
        } else {
            ap
        }) - HALF_OFFSET
    }

    pub open spec fn dst_addr(&self, ap: int, fp: int) -> int {
        self.off_dst() + (if self.flag(Flag::DstReg) {
            fp
        } else {
            ap
        }) - HALF_OFFSET
    }

    /// The word holding `limbs`, if their value is below the field modulus.
    pub fn new(limbs: [u64; 4]) -> (r: Result<Word, TraceError>)
        ensures
            r is Ok <==> limbs_value(limbs) < modulus(),
            r matches Ok(w) ==> w.limbs == limbs && w.wf(),
            r matches Err(e) ==> e == TraceError::MalformedInput,
    {
        if crate::field::limbs_below_modulus(limbs) {
            Ok(Word { limbs })
        } else {
            Err(TraceError::MalformedInput)
        }
    }

    /// The field element with the word's value.
    pub fn into_felt(self) -> (r: Felt)
        requires
            self.wf(),
        ensures
            r.wf(),
            r.value() == self.value(),
    {
        Felt { limbs: self.limbs }
    }

    /// Whether flag `f` is set.
    pub fn get_flag(&self, flag: Flag) -> (r: bool)
        ensures
            r == self.flag(flag),
    {
        let i = flag.index() as u64;
        proof {
            lemma_window_in_low_limb(self.limbs, (48 + i) as nat, 1);
        }
        bit_window(self.limbs[0], 48 + i, 1) == 1
    }

    /// The stored (biased) destination offset.
    pub fn get_off_dst(&self) -> (r: usize)
        ensures
            r == self.off_dst(),
            r <= OFF_MASK,
    {
        proof {
            lemma_window_in_low_limb(self.limbs, 0, 16);
            vstd::arithmetic::power2::lemma2_to64();
        }
        bit_window(self.limbs[0], 0, 16) as usize
    }

    /// The stored (biased) first-operand offset.
    pub fn get_off_op0(&self) -> (r: usize)
        ensures
            r == self.off_op0(),
            r <= OFF_MASK,
    {
        proof {
            lemma_window_in_low_limb(self.limbs, 16, 16);
            vstd::arithmetic::power2::lemma2_to64();
        }
        bit_window(self.limbs[0], 16, 16) as usize
    }

    /// The stored (biased) second-operand offset.
    pub fn get_off_op1(&self) -> (r: usize)
        ensures
            r == self.off_op1(),
            r <= OFF_MASK,
    {
        proof {
            lemma_window_in_low_limb(self.limbs, 32, 16);
            vstd::arithmetic::power2::lemma2_to64();
        }
        bit_window(self.limbs[0], 32, 16) as usize
    }

    /// The flags from `flag` up to the last real flag, lowest bit first; zero
    /// for the padding flag.
    pub fn get_flag_prefix(&self, flag: Flag) -> (r: u64)
        ensures
            r == self.flag_prefix(flag),
    {
        match flag {
            Flag::Zero => 0,
            _ => {
                let i = flag.index() as u64;
                proof {
                    lemma_window_in_low_limb(self.limbs, (48 + i) as nat, (15 - i) as nat);
                }
                bit_window(self.limbs[0], 48 + i, 15 - i)
            },
        }
    }

    /// The integer that a group of flags encodes.
    pub fn get_flag_group(&self, flag_group: FlagGroup) -> (r: u8)
        ensures
            r == self.group(flag_group),
            r < 8,
    {
        match flag_group {
            FlagGroup::DstReg => self.get_flag(Flag::DstReg) as u8,
            FlagGroup::Op0Reg => self.get_flag(Flag::Op0Reg) as u8,
            FlagGroup::Op1Src => {
                self.get_flag(Flag::Op1Imm) as u8 + self.get_flag(Flag::Op1Fp) as u8 * 2
                    + self.get_flag(Flag::Op1Ap) as u8 * 4
            },
            FlagGroup::ResLogic => {
                self.get_flag(Flag::ResAdd) as u8 + self.get_flag(Flag::ResMul) as u8 * 2
            },
            FlagGroup::PcUpdate => {
                self.get_flag(Flag::PcJumpAbs) as u8 + self.get_flag(Flag::PcJumpRel) as u8 * 2
                    + self.get_flag(Flag::PcJnz) as u8 * 4
            },
            FlagGroup::ApUpdate => {
                self.get_flag(Flag::ApAdd) as u8 + self.get_flag(Flag::ApAdd1) as u8 * 2
            },
            FlagGroup::Opcode => {
                self.get_flag(Flag::OpcodeCall) as u8 + self.get_flag(Flag::OpcodeRet) as u8 * 2
                    + self.get_flag(Flag::OpcodeAssertEq) as u8 * 4
            },
        }
    }

    /// Address of the first operand: `off_op0 + (fp or ap) - HALF_OFFSET`.
    pub fn get_op0_addr(&self, ap: usize, fp: usize) -> (r: Result<usize, TraceError>)
        ensures
            r == to_address(self.op0_addr(ap as int, fp as int)),
    {
        let base = if self.get_flag(Flag::Op0Reg) {
            fp
        } else {
            ap
        };
        displace(base, self.get_off_op0())
    }

    /// Address of the destination: `off_dst + (fp or ap) - HALF_OFFSET`.
    pub fn get_dst_addr(&self, ap: usize, fp: usize) -> (r: Result<usize, TraceError>)
        ensures
            r == to_address(self.dst_addr(ap as int, fp as int)),
    {
        let base = if self.get_flag(Flag::DstReg) {
            fp
        } else {
            ap
        };
        displace(base, self.get_off_dst())
    }
}

/// `base + off - HALF_OFFSET`, if that is an address.
pub fn displace(base: usize, off: usize) -> (r: Result<usize, TraceError>)
    requires
        off <= OFF_MASK,
    ensures
        r == to_address(off + base - HALF_OFFSET),
{
    if base >= HALF_OFFSET {
        let b = base - HALF_OFFSET;
        if b <= usize::MAX - off {
            Ok(b + off)
        } else {
            Err(TraceError::MalformedInput)
        }
    } else {
        let s = base + off;
        if s >= HALF_OFFSET {
            Ok(s - HALF_OFFSET)
        } else {
            Err(TraceError::MalformedInput)
        }
    }
}

/// The sum of the `n` bits of `v` from bit `start` on, each weighted by its
/// position.
pub open spec fn weighted_bits(v: nat, start: nat, n: nat) -> nat
    decreases n,
{
    if n == 0 {
        0
    } else {
        weighted_bits(v, start, (n - 1) as nat) + bits_at(v, start + (n - 1) as nat, 1) * pow2(
            (n - 1) as nat,
        )
    }
}

/// A window of `n` bits is the sum of its bits weighted by position.
proof fn lemma_window_is_weighted_bits(v: nat, start: nat, n: nat)
    ensures
        bits_at(v, start, n) == weighted_bits(v, start, n),
    decreases n,
{
    if n == 0 {
        vstd::arithmetic::power2::lemma2_to64();
    } else {
        let m = (n - 1) as nat;
        lemma_window_is_weighted_bits(v, start, m);
        let ps = pow2(start);
        let pm = pow2(m);
        vstd::arithmetic::power2::lemma_pow2_pos(start);
        vstd::arithmetic::power2::lemma_pow2_pos(m);
        vstd::arithmetic::power2::lemma_pow2_adds(m, 1);
        vstd::arithmetic::power2::lemma_pow2_adds(start, m);
        vstd::arithmetic::power2::lemma2_to64();
        let x = (v / ps) as int;
        vstd::arithmetic::div_mod::lemma_mod_breakdown(x, pm as int, 2);
        vstd::arithmetic::div_mod::lemma_div_denominator(v as int, ps as int, pm as int);
        assert(pow2(n) == pm * 2);
        let pmi = pm as int;
        assert(x % (pmi * 2) == pmi * ((x / pmi) % 2) + x % pmi);
        assert(bits_at(v, start + m, 1) == (x / pmi) % 2);
    }
}

/// The sixteen flags of a word, each weighted by its position, make up
/// exactly the flag field: the bits from `FLAGS_BIT_OFFSET` on.
pub proof fn lemma_flags_reconstruct_field(w: Word)
    ensures
        bits_at(w.value(), FLAGS_BIT_OFFSET as nat, NUM_FLAGS as nat) == weighted_bits(
            w.value(),
            FLAGS_BIT_OFFSET as nat,
            NUM_FLAGS as nat,
        ),
{
    lemma_window_is_weighted_bits(w.value(), FLAGS_BIT_OFFSET as nat, NUM_FLAGS as nat);
}

/// A window of `a + b` bits is its low `a` bits plus its high `b` bits
/// shifted by `a`.
proof fn lemma_window_split(v: nat, start: nat, a: nat, b: nat)
    ensures
        bits_at(v, start, a + b) == bits_at(v, start, a) + bits_at(v, start + a, b) * pow2(a),
{
    let ps = pow2(start);
    let pa = pow2(a);
    let pb = pow2(b);
    vstd::arithmetic::power2::lemma_pow2_pos(start);
    vstd::arithmetic::power2::lemma_pow2_pos(a);
    vstd::arithmetic::power2::lemma_pow2_pos(b);
    vstd::arithmetic::power2::lemma_pow2_adds(a, b);
    vstd::arithmetic::power2::lemma_pow2_adds(start, a);
    let x = (v / ps) as int;
    vstd::arithmetic::div_mod::lemma_mod_breakdown(x, pa as int, pb as int);
    vstd::arithmetic::div_mod::lemma_div_denominator(v as int, ps as int, pa as int);
    assert(x / (pa as int) == v / pow2(start + a));
    assert(pow2(a + b) == pa * pb);
    assert(bits_at(v, start, a + b) == x % ((pa * pb) as int));
    assert(bits_at(v, start, a) == x % (pa as int));
    assert(bits_at(v, start + a, b) == (x / (pa as int)) % (pb as int));
    assert(x % ((pa * pb) as int) == (pa as int) * ((x / (pa as int)) % (pb as int)) + x % (
    pa as int));
}

/// The low 64 bits of a word are exactly its three offsets and its sixteen
/// flags: `off_dst + off_op0 * 2^16 + off_op1 * 2^32 + flags * 2^48`, where
/// `flags` weighs flag `i` by `2^i`.
pub proof fn lemma_word_layout(w: Word)
    ensures
        bits_at(w.value(), 0, 64) == w.off_dst() + w.off_op0() * pow2(16) + w.off_op1() * pow2(
            32,
        ) + weighted_bits(w.value(), FLAGS_BIT_OFFSET as nat, NUM_FLAGS as nat) * pow2(48),
{
    let v = w.value();
    lemma_window_split(v, 0, 16, 48);
    lemma_window_split(v, 16, 16, 32);
    lemma_window_split(v, 32, 16, 16);
    lemma_window_is_weighted_bits(v, 48, 16);
    vstd::arithmetic::power2::lemma2_to64();
    let low = bits_at(v, 0, 64);
    let m1 = bits_at(v, 16, 48);
    let m2 = bits_at(v, 32, 32);
    let d = bits_at(v, 0, 16);
    let o0 = bits_at(v, 16, 16);
    let o1 = bits_at(v, 32, 16);
    let f = bits_at(v, 48, 16);
    assert(low == d + m1 * 0x10000);
    assert(m1 == o0 + m2 * 0x10000);
    assert(m2 == o1 + f * 0x10000);
    assert(low == d + o0 * 0x10000 + o1 * 0x1_0000_0000 + f * 0x1_0000_0000_0000)
        by (nonlinear_arith)
        requires
            low == d + m1 * 0x10000,
            m1 == o0 + m2 * 0x10000,
            m2 == o1 + f * 0x10000,
    ;
    vstd::arithmetic::power2::lemma2_to64_rest();
    assert(pow2(16) == 0x10000 && pow2(32) == 0x1_0000_0000 && pow2(48) == 0x1_0000_0000_0000);
    assert(w.off_dst() == d && w.off_op0() == o0 && w.off_op1() == o1);
    assert(weighted_bits(v, FLAGS_BIT_OFFSET as nat, NUM_FLAGS as nat) == f);
}

} // verus!
