//! The execution trace: per step, the decoded instruction and every value the
//! constraint system reads.

use vstd::prelude::*;
use crate::error::TraceError;
use crate::field::Felt;
use crate::memory::Memory;
use crate::registers::{RegisterState, RegisterStates};
use crate::word::{flag_index, to_address, Flag, Word, NUM_FLAGS};

verus! {

/// Columns of one trace row: `pc`, `ap`, `fp`, the sixteen flag prefixes,
/// three offsets, three operand addresses, and `dst`, `op0`, `op1`, `res`,
/// `tmp0`, `tmp1`.
pub const NUM_BASE_COLUMNS: usize = 31;

/// The error a result carries, if any.
pub open spec fn error_of<T>(r: Result<T, TraceError>) -> Option<TraceError> {
    match r {
        Ok(_) => None,
        Err(e) => Some(e),
    }
}

/// The flag at a position among the flag bits.
pub open spec fn flag_at(i: nat) -> Flag {
    choose|f: Flag| flag_index(f) == i
}

/// The first error in building the row of step `s`: an absent instruction,
/// then a flag pattern outside the decoding table, then the first value that
/// cannot be computed, in the order the values are computed; `None` where the
/// row can be built.
pub open spec fn row_error(s: RegisterState, mem: Memory) -> Option<TraceError> {
    match mem.cell(s.pc as int) {
        None => Some(TraceError::MalformedInput),
        Some(w) => {
            let (pc, ap, fp) = (s.pc, s.ap, s.fp);
            if !w.decodes() {
                Some(TraceError::MalformedInstruction)
            } else if error_of(to_address(w.dst_addr(ap as int, fp as int))) is Some {
                error_of(to_address(w.dst_addr(ap as int, fp as int)))
            } else if error_of(to_address(w.op0_addr(ap as int, fp as int))) is Some {
                error_of(to_address(w.op0_addr(ap as int, fp as int)))
            } else if error_of(w.op1_addr_spec(pc, ap, fp, mem)) is Some {
                error_of(w.op1_addr_spec(pc, ap, fp, mem))
            } else if error_of(w.dst_spec(ap, fp, mem)) is Some {
                error_of(w.dst_spec(ap, fp, mem))
            } else if error_of(w.op0_spec(ap, fp, mem)) is Some {
                error_of(w.op0_spec(ap, fp, mem))
            } else if error_of(w.op1_spec(pc, ap, fp, mem)) is Some {
                error_of(w.op1_spec(pc, ap, fp, mem))
            } else if error_of(w.res_spec(pc, ap, fp, mem)) is Some {
                error_of(w.res_spec(pc, ap, fp, mem))
            } else if error_of(w.tmp0_spec(ap, fp, mem)) is Some {
                error_of(w.tmp0_spec(ap, fp, mem))
            } else {
                error_of(w.tmp1_spec(pc, ap, fp, mem))
            }
        },
    }
}

/// One row of the trace.
#[derive(Debug)]
pub struct TraceRow {
    pub registers: RegisterState,
    pub instruction: Word,
    /// The prefix of each flag, by flag position.
    pub flag_prefixes: Vec<u64>,
    pub off_dst: usize,
    pub off_op0: usize,
    pub off_op1: usize,
    pub dst_addr: usize,
    pub op0_addr: usize,
    pub op1_addr: usize,
    pub dst: Felt,
    pub op0: Felt,
    pub op1: Felt,
    pub res: Felt,
    pub tmp0: Felt,
    pub tmp1: Felt,
}

/// Whether `row` holds the values of step `s` over `mem`.
pub open spec fn row_matches(row: TraceRow, s: RegisterState, mem: Memory) -> bool {
    let w = row.instruction;
    let (pc, ap, fp) = (s.pc, s.ap, s.fp);
    &&& row.registers == s
    &&& mem.cell(pc as int) == Some(w)
    &&& row.flag_prefixes@.len() == NUM_FLAGS
    &&& forall|i: int|
        0 <= i < NUM_FLAGS ==> #[trigger] row.flag_prefixes@[i] == w.flag_prefix(flag_at(i as nat))
    &&& row.off_dst == w.off_dst()
    &&& row.off_op0 == w.off_op0()
    &&& row.off_op1 == w.off_op1()
    &&& to_address(w.dst_addr(ap as int, fp as int)) == Ok::<usize, TraceError>(row.dst_addr)
    &&& to_address(w.op0_addr(ap as int, fp as int)) == Ok::<usize, TraceError>(row.op0_addr)
    &&& w.op1_addr_spec(pc, ap, fp, mem) == Ok::<usize, TraceError>(row.op1_addr)
    &&& w.dst_spec(ap, fp, mem) == Ok::<nat, TraceError>(row.dst.value())
    &&& w.op0_spec(ap, fp, mem) == Ok::<nat, TraceError>(row.op0.value())
    &&& w.op1_spec(pc, ap, fp, mem) == Ok::<nat, TraceError>(row.op1.value())
    &&& w.res_spec(pc, ap, fp, mem) == Ok::<nat, TraceError>(row.res.value())
    &&& w.tmp0_spec(ap, fp, mem) == Ok::<nat, TraceError>(row.tmp0.value())
    &&& w.tmp1_spec(pc, ap, fp, mem) == Ok::<nat, TraceError>(row.tmp1.value())
    &&& row.dst.wf() && row.op0.wf() && row.op1.wf()
    &&& row.res.wf() && row.tmp0.wf() && row.tmp1.wf()
}

impl Flag {
    /// The flag at position `i` among the flag bits.
    pub fn from_index(i: usize) -> (r: Flag)
        requires
            i < NUM_FLAGS,
        ensures
            flag_index(r) == i,
            r == flag_at(i as nat),
    {
        let r = match i {
            0 => Flag::DstReg,
            1 => Flag::Op0Reg,
            2 => Flag::Op1Imm,
            3 => Flag::Op1Fp,
            4 => Flag::Op1Ap,
            5 => Flag::ResAdd,
            6 => Flag::ResMul,
            7 => Flag::PcJumpAbs,
            8 => Flag::PcJumpRel,
            9 => Flag::PcJnz,
            10 => Flag::ApAdd,
            11 => Flag::ApAdd1,
            12 => Flag::OpcodeCall,
            13 => Flag::OpcodeRet,
            14 => Flag::OpcodeAssertEq,
            _ => Flag::Zero,
        };
        proof {
            let f = flag_at(i as nat);
            assert(flag_index(r) == i);
            assert(flag_index(f) == i);
            assert(f == r);
        }
        r
    }
}

impl TraceRow {
    /// Builds the row of step `s`: the instruction at `pc` (which must be
    /// present) and every operand, result and helper value.
    pub fn new(s: RegisterState, mem: &Memory) -> (r: Result<TraceRow, TraceError>)
        requires
            mem.wf(),
        ensures
            mem.cell(s.pc as int) is None ==> r == Err::<TraceRow, TraceError>(
                TraceError::MalformedInput,
            ),
            r matches Ok(row) ==> row_error(s, *mem) is None && row_matches(row, s, *mem),
            r matches Err(e) ==> row_error(s, *mem) == Some(e),
    {
        let (pc, ap, fp) = (s.pc, s.ap, s.fp);
        let w = match mem.resolve(pc) {
            Some(w) => w,
            None => return Err(TraceError::MalformedInput),
        };
        if let Err(e) = w.check_instruction() {
            return Err(e);
        }
        let dst_addr = match w.get_dst_addr(ap, fp) {
            Ok(a) => a,
            Err(e) => return Err(e),
        };
        let op0_addr = match w.get_op0_addr(ap, fp) {
            Ok(a) => a,
            Err(e) => return Err(e),
        };
        let op1_addr = match w.get_op1_addr(pc, ap, fp, mem) {
            Ok(a) => a,
            Err(e) => return Err(e),
        };
        let dst = match w.get_dst(ap, fp, mem) {
            Ok(v) => v,
            Err(e) => return Err(e),
        };
        let op0 = match w.get_op0(ap, fp, mem) {
            Ok(v) => v,
            Err(e) => return Err(e),
        };
        let op1 = match w.get_op1(pc, ap, fp, mem) {
            Ok(v) => v,
            Err(e) => return Err(e),
        };
        let res = match w.get_res(pc, ap, fp, mem) {
            Ok(v) => v,
            Err(e) => return Err(e),
        };
        let tmp0 = match w.get_tmp0(ap, fp, mem) {
            Ok(v) => v,
            Err(e) => return Err(e),
        };
        let tmp1 = match w.get_tmp1(pc, ap, fp, mem) {
            Ok(v) => v,
            Err(e) => return Err(e),
        };
        let mut flag_prefixes: Vec<u64> = Vec::new();
        let mut i: usize = 0;
        while i < NUM_FLAGS
            invariant
                i <= NUM_FLAGS,
                flag_prefixes@.len() == i,
                forall|j: int|
                    0 <= j < i ==> #[trigger] flag_prefixes@[j] == w.flag_prefix(
                        flag_at(j as nat),
                    ),
            decreases NUM_FLAGS - i,
        {
            flag_prefixes.push(w.get_flag_prefix(Flag::from_index(i)));
            i += 1;
        }
        Ok(TraceRow {
            registers: s,
            instruction: w,
            flag_prefixes,
            off_dst: w.get_off_dst(),
            off_op0: w.get_off_op0(),
            off_op1: w.get_off_op1(),
            dst_addr,
            op0_addr,
            op1_addr,
            dst,
            op0,
            op1,
            res,
            tmp0,
            tmp1,
        })
    }
}

/// The trace of a run: one row per step, in execution order.
#[derive(Debug)]
pub struct ExecutionTrace {
    pub rows: Vec<TraceRow>,
}

impl ExecutionTrace {
    /// Builds one row per register state; fails with the error of the first
    /// step whose row cannot be built.
    pub fn new(states: &RegisterStates, mem: &Memory) -> (r: Result<ExecutionTrace, TraceError>)
        requires
            mem.wf(),
        ensures
            r is Ok <==> forall|i: int|
                0 <= i < states.states@.len() ==> row_error(
                    #[trigger] states.states@[i],
                    *mem,
                ) is None,
            r matches Ok(t) ==> t.rows@.len() == states.states@.len() && forall|i: int|
                0 <= i < t.rows@.len() ==> row_matches(
                    #[trigger] t.rows@[i],
                    states.states@[i],
                    *mem,
                ),
            r matches Err(e) ==> exists|i: int|
                0 <= i < states.states@.len() && row_error(states.states@[i], *mem) == Some(e)
                    && forall|j: int|
                    0 <= j < i ==> row_error(#[trigger] states.states@[j], *mem) is None,
    {
        let mut rows: Vec<TraceRow> = Vec::new();
        let mut i: usize = 0;
        while i < states.states.len()
            invariant
                mem.wf(),
                i <= states.states@.len(),
                rows@.len() == i,
                forall|j: int|
                    0 <= j < i ==> row_error(#[trigger] states.states@[j], *mem) is None,
                forall|j: int|
                    0 <= j < i ==> row_matches(#[trigger] rows@[j], states.states@[j], *mem),
            decreases states.states@.len() - i,
        {
            match TraceRow::new(states.states[i], mem) {
                Ok(row) => rows.push(row),
                Err(e) => return Err(e),
            }
            i += 1;
        }
        Ok(ExecutionTrace { rows })
    }

    /// Number of rows.
    pub fn len(&self) -> (r: usize)
        ensures
            r == self.rows@.len(),
    {
        self.rows.len()
    }
}

} // verus!
