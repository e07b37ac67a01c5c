//! What an instruction word means at one step: the addresses and values of its
//! operands, its result, and the helper values of a conditional jump.

use vstd::prelude::*;
use crate::error::TraceError;
use crate::field::{inverse_or_zero, modulus, Felt};
use crate::memory::Memory;
use crate::word::{displace, to_address, Flag, FlagGroup, Word, HALF_OFFSET};

verus! {

/// The value at an address, where the address is one and its cell is present.
pub open spec fn cell_value(mem: Memory, a: Result<usize, TraceError>) -> Result<nat, TraceError> {
    match a {
        Ok(x) => match mem.cell(x as int) {
            Some(w) => Ok(w.value()),
            None => Err(TraceError::MalformedInput),
        },
        Err(e) => Err(e),
    }
}

/// The value a computed field element stands for.
pub open spec fn felt_value_of(r: Result<Felt, TraceError>) -> Result<nat, TraceError> {
    match r {
        Ok(f) => Ok(f.value()),
        Err(e) => Err(e),
    }
}

/// A computed field element is below the modulus.
pub open spec fn felt_ok(r: Result<Felt, TraceError>) -> bool {
    r matches Ok(f) ==> f.wf()
}

impl Word {
    /// Address of the second operand, by the operand-1 source group: the value
    /// at the first operand (0), `pc` (1), `fp` (2) or `ap` (4), displaced by
    /// `off_op1`.
    pub open spec fn op1_addr_spec(&self, pc: usize, ap: usize, fp: usize, mem: Memory) -> Result<
        usize,
        TraceError,
    > {
        let g = self.group(FlagGroup::Op1Src);
        if g == 0 {
            match to_address(self.op0_addr(ap as int, fp as int)) {
                Ok(a) => match mem.cell(a as int) {
                    Some(w) => if w.value() <= usize::MAX {
                        to_address(self.off_op1() + w.value() - HALF_OFFSET)
                    } else {
                        Err(TraceError::MalformedInput)
                    },
                    None => Err(TraceError::MalformedInput),
                },
                Err(e) => Err(e),
            }
        } else if g == 1 {
            to_address(self.off_op1() + pc - HALF_OFFSET)
        } else if g == 2 {
            to_address(self.off_op1() + fp - HALF_OFFSET)
        } else if g == 4 {
            to_address(self.off_op1() + ap - HALF_OFFSET)
        } else {
            Err(TraceError::MalformedInstruction)
        }
    }

    pub open spec fn op0_spec(&self, ap: usize, fp: usize, mem: Memory) -> Result<nat, TraceError> {
        cell_value(mem, to_address(self.op0_addr(ap as int, fp as int)))
    }

    pub open spec fn dst_spec(&self, ap: usize, fp: usize, mem: Memory) -> Result<nat, TraceError> {
        cell_value(mem, to_address(self.dst_addr(ap as int, fp as int)))
    }

    pub open spec fn op1_spec(&self, pc: usize, ap: usize, fp: usize, mem: Memory) -> Result<
        nat,
        TraceError,
    > {
        cell_value(mem, self.op1_addr_spec(pc, ap, fp, mem))
    }

    /// Whether the operand-1 source group is one of the defined sources.
    pub open spec fn op1_src_defined(&self) -> bool {
        let g = self.group(FlagGroup::Op1Src);
        g == 0 || g == 1 || g == 2 || g == 4
    }

    /// Whether `res` is repurposed to hold the inverse of `dst`: a
    /// conditional jump with result logic 0, opcode 0 and no `ap += res`.
    pub open spec fn res_holds_inverse(&self) -> bool {
        &&& self.group(FlagGroup::PcUpdate) == 4
        &&& self.group(FlagGroup::ResLogic) == 0
        &&& self.group(FlagGroup::Opcode) == 0
        &&& self.group(FlagGroup::ApUpdate) != 1
    }

    /// Whether the pc-update and result-logic groups are in the decoding table.
    pub open spec fn res_defined(&self) -> bool {
        ||| (self.group(FlagGroup::PcUpdate) <= 2 && self.group(FlagGroup::ResLogic) <= 2)
        ||| self.res_holds_inverse()
    }

    /// Whether every flag group of the word is in the decoding table.
    pub open spec fn decodes(&self) -> bool {
        self.op1_src_defined() && self.res_defined()
    }

    /// The result: for a conditional jump the inverse of `dst` (zero where it
    /// has none); otherwise `op1`, `op0 + op1` or `op0 * op1` by the result
    /// logic group. A pattern outside the decoding table is a malformed
    /// instruction whatever memory holds.
    pub open spec fn res_spec(&self, pc: usize, ap: usize, fp: usize, mem: Memory) -> Result<
        nat,
        TraceError,
    > {
        let res_logic = self.group(FlagGroup::ResLogic);
        if !self.res_defined() {
            Err(TraceError::MalformedInstruction)
        } else if self.res_holds_inverse() {
            match self.dst_spec(ap, fp, mem) {
                Ok(d) => Ok(inverse_or_zero(d)),
                Err(e) => Err(e),
            }
        } else if !self.op1_src_defined() {
            Err(TraceError::MalformedInstruction)
        } else {
            match self.op0_spec(ap, fp, mem) {
                Err(e) => Err(e),
                Ok(a) => match self.op1_spec(pc, ap, fp, mem) {
                    Err(e) => Err(e),
                    Ok(b) => if res_logic == 0 {
                        Ok(b)
                    } else if res_logic == 1 {
                        Ok((a + b) % modulus())
                    } else {
                        Ok((a * b) % modulus())
                    },
                },
            }
        }
    }

    /// `dst` when the conditional-jump flag is set, else zero.
    pub open spec fn tmp0_spec(&self, ap: usize, fp: usize, mem: Memory) -> Result<nat, TraceError> {
        if self.flag(Flag::PcJnz) {
            self.dst_spec(ap, fp, mem)
        } else {
            Ok(0)
        }
    }

    /// `tmp0 * res`.
    pub open spec fn tmp1_spec(&self, pc: usize, ap: usize, fp: usize, mem: Memory) -> Result<
        nat,
        TraceError,
    > {
        match self.res_spec(pc, ap, fp, mem) {
            Err(e) => Err(e),
            Ok(r) => match self.tmp0_spec(ap, fp, mem) {
                Err(e) => Err(e),
                Ok(t) => Ok((t * r) % modulus()),
            },
        }
    }

    /// Checks that every flag group of the word is in the decoding table.
    pub fn check_instruction(&self) -> (r: Result<(), TraceError>)
        ensures
            r is Ok <==> self.decodes(),
            r matches Err(e) ==> e == TraceError::MalformedInstruction,
    {
        let op1_src = self.get_flag_group(FlagGroup::Op1Src);
        if !(op1_src == 0 || op1_src == 1 || op1_src == 2 || op1_src == 4) {
            return Err(TraceError::MalformedInstruction);
        }
        if self.res_is_defined() {
            Ok(())
        } else {
            Err(TraceError::MalformedInstruction)
        }
    }

    /// Whether the pc-update and result-logic groups are in the decoding table.
    fn res_is_defined(&self) -> (r: bool)
        ensures
            r == self.res_defined(),
    {
        let pc_update = self.get_flag_group(FlagGroup::PcUpdate);
        let res_logic = self.get_flag_group(FlagGroup::ResLogic);
        (pc_update <= 2 && res_logic <= 2) || self.res_is_inverse()
    }

    /// Whether `res` holds the inverse of `dst`.
    fn res_is_inverse(&self) -> (r: bool)
        ensures
            r == self.res_holds_inverse(),
    {
        self.get_flag_group(FlagGroup::PcUpdate) == 4 && self.get_flag_group(FlagGroup::ResLogic)
            == 0 && self.get_flag_group(FlagGroup::Opcode) == 0 && self.get_flag_group(
            FlagGroup::ApUpdate,
        ) != 1
    }

    /// The word's value as an address, if it is one.
    pub fn as_address(&self) -> (r: Option<usize>)
        ensures
            r is Some <==> self.value() <= usize::MAX,
            r matches Some(a) ==> a == self.value(),
    {
        if self.limbs[1] == 0 && self.limbs[2] == 0 && self.limbs[3] == 0 && self.limbs[0]
            <= usize::MAX as u64 {
            Some(self.limbs[0] as usize)
        } else {
            None
        }
    }

    /// Address of the second operand.
    pub fn get_op1_addr(&self, pc: usize, ap: usize, fp: usize, mem: &Memory) -> (r: Result<
        usize,
        TraceError,
    >)
        ensures
            r == self.op1_addr_spec(pc, ap, fp, *mem),
    {
        let off = self.get_off_op1();
        match self.get_flag_group(FlagGroup::Op1Src) {
            0 => {
                let addr = match self.get_op0_addr(ap, fp) {
                    Ok(a) => a,
                    Err(e) => return Err(e),
                };
                match mem.resolve(addr) {
                    Some(w) => match w.as_address() {
                        Some(base) => displace(base, off),
                        None => Err(TraceError::MalformedInput),
                    },
                    None => Err(TraceError::MalformedInput),
                }
            },
            1 => displace(pc, off),
            2 => displace(fp, off),
            4 => displace(ap, off),
            _ => Err(TraceError::MalformedInstruction),
        }
    }

    /// The value at an address, as a field element.
    fn read_cell(mem: &Memory, addr: Result<usize, TraceError>) -> (r: Result<Felt, TraceError>)
        requires
            mem.wf(),
        ensures
            felt_value_of(r) == cell_value(*mem, addr),
            felt_ok(r),
    {
        match addr {
            Ok(a) => match mem.resolve(a) {
                Some(w) => Ok(w.into_felt()),
                None => Err(TraceError::MalformedInput),
            },
            Err(e) => Err(e),
        }
    }

    /// The first operand.
    pub fn get_op0(&self, ap: usize, fp: usize, mem: &Memory) -> (r: Result<Felt, TraceError>)
        requires
            mem.wf(),
        ensures
            felt_value_of(r) == self.op0_spec(ap, fp, *mem),
            felt_ok(r),
    {
        Word::read_cell(mem, self.get_op0_addr(ap, fp))
    }

    /// The destination value.
    pub fn get_dst(&self, ap: usize, fp: usize, mem: &Memory) -> (r: Result<Felt, TraceError>)
        requires
            mem.wf(),
        ensures
            felt_value_of(r) == self.dst_spec(ap, fp, *mem),
            felt_ok(r),
    {
        Word::read_cell(mem, self.get_dst_addr(ap, fp))
    }

    /// The second operand.
    pub fn get_op1(&self, pc: usize, ap: usize, fp: usize, mem: &Memory) -> (r: Result<
        Felt,
        TraceError,
    >)
        requires
            mem.wf(),
        ensures
            felt_value_of(r) == self.op1_spec(pc, ap, fp, *mem),
            felt_ok(r),
    {
        Word::read_cell(mem, self.get_op1_addr(pc, ap, fp, mem))
    }

    /// The result value. For a conditional jump it is the inverse of `dst`,
    /// and zero exactly where `dst` is zero.
    pub fn get_res(&self, pc: usize, ap: usize, fp: usize, mem: &Memory) -> (r: Result<
        Felt,
        TraceError,
    >)
        requires
            mem.wf(),
        ensures
            felt_value_of(r) == self.res_spec(pc, ap, fp, *mem),
            felt_ok(r),
            self.res_holds_inverse() ==> (self.dst_spec(ap, fp, *mem) matches Ok(d) ==> (
            r matches Ok(x) && (d != 0 ==> (d * x.value()) % modulus() == 1) && (x.value() == 0
                <==> d == 0))),
    {
        if !self.res_is_defined() {
            return Err(TraceError::MalformedInstruction);
        }
        if self.res_is_inverse() {
            // The result is unused by a conditional jump and holds the
            // inverse of `dst` instead, zero where there is none.
            return match self.get_dst(ap, fp, mem) {
                Ok(d) => Ok(d.inverse_or_zero()),
                Err(e) => Err(e),
            };
        }
        let op1_src = self.get_flag_group(FlagGroup::Op1Src);
        if !(op1_src == 0 || op1_src == 1 || op1_src == 2 || op1_src == 4) {
            return Err(TraceError::MalformedInstruction);
        }
        let op0 = match self.get_op0(ap, fp, mem) {
            Ok(v) => v,
            Err(e) => return Err(e),
        };
        let op1 = match self.get_op1(pc, ap, fp, mem) {
            Ok(v) => v,
            Err(e) => return Err(e),
        };
        match self.get_flag_group(FlagGroup::ResLogic) {
            0 => Ok(op1),
            1 => Ok(op0.add(&op1)),
            _ => Ok(op0.mul(&op1)),
        }
    }

    /// `dst` when the conditional-jump flag is set, else zero.
    pub fn get_tmp0(&self, ap: usize, fp: usize, mem: &Memory) -> (r: Result<Felt, TraceError>)
        requires
            mem.wf(),
        ensures
            felt_value_of(r) == self.tmp0_spec(ap, fp, *mem),
            felt_ok(r),
    {
        if self.get_flag(Flag::PcJnz) {
            self.get_dst(ap, fp, mem)
        } else {
            Ok(Felt::zero())
        }
    }

    /// `tmp0 * res`.
    pub fn get_tmp1(&self, pc: usize, ap: usize, fp: usize, mem: &Memory) -> (r: Result<
        Felt,
        TraceError,
    >)
        requires
            mem.wf(),
        ensures
            felt_value_of(r) == self.tmp1_spec(pc, ap, fp, *mem),
            felt_ok(r),
    {
        let res = match self.get_res(pc, ap, fp, mem) {
            Ok(v) => v,
            Err(e) => return Err(e),
        };
        match self.get_tmp0(ap, fp, mem) {
            Ok(tmp0) => Ok(tmp0.mul(&res)),
            Err(e) => Err(e),
        }
    }
}

/// An immediate second operand sits at `pc + off_op1 - HALF_OFFSET`, whatever
/// `ap`, `fp` and memory hold: it is never read through memory.
pub proof fn lemma_immediate_op1_addr(w: Word, pc: usize, ap: usize, fp: usize, mem: Memory)
    requires
        w.group(FlagGroup::Op1Src) == 1,
    ensures
        w.op1_addr_spec(pc, ap, fp, mem) == to_address(w.off_op1() + pc - HALF_OFFSET),
{
}

} // verus!
