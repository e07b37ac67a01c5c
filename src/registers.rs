//! The register states of a run, one per executed step, decoded from a stream
//! of fixed-size records.

use vstd::prelude::*;
use crate::bytes::{le64, read_u64_le};
use crate::error::TraceError;

verus! {

/// Bytes of one register record: `ap`, `fp` and `pc`, each a 64-bit
/// little-endian integer.
pub const REGISTER_RECORD_LEN: usize = 24;

/// Register values at one step.
#[derive(Clone, Copy, Debug, PartialEq, Eq, Structural)]
pub struct RegisterState {
    pub ap: usize,
    pub fp: usize,
    pub pc: usize,
}

/// Number of records in a register stream.
pub open spec fn register_count(b: Seq<u8>) -> int {
    (b.len() / (REGISTER_RECORD_LEN as nat)) as int
}

/// Whether a register stream decodes: whole records only, each register an address.
pub open spec fn register_stream_ok(b: Seq<u8>) -> bool {
    &&& b.len() % (REGISTER_RECORD_LEN as nat) == 0
    &&& forall|i: int, k: int|
        0 <= i < register_count(b) && 0 <= k < 3 ==> #[trigger] le64(
            b,
            REGISTER_RECORD_LEN * i + 8 * k,
        ) <= usize::MAX
}

/// The register state of record `i`.
pub open spec fn register_record(b: Seq<u8>, i: int) -> RegisterState {
    let at = REGISTER_RECORD_LEN * i;
    RegisterState {
        ap: le64(b, at) as usize,
        fp: le64(b, at + 8) as usize,
        pc: le64(b, at + 16) as usize,
    }
}

/// Reads an address stored as a 64-bit little-endian integer.
fn read_address(bytes: &[u8], at: usize) -> (r: Result<usize, TraceError>)
    requires
        at + 8 <= bytes@.len(),
    ensures
        r is Ok <==> le64(bytes@, at as int) <= usize::MAX,
        r matches Ok(a) ==> a == le64(bytes@, at as int),
        r matches Err(e) ==> e == TraceError::MalformedInput,
{
    let v = read_u64_le(bytes, at);
    if v <= usize::MAX as u64 {
        Ok(v as usize)
    } else {
        Err(TraceError::MalformedInput)
    }
}

/// The register states of a run, in execution order.
#[derive(Debug)]
pub struct RegisterStates {
    pub states: Vec<RegisterState>,
}

impl RegisterStates {
    /// Decodes a stream of register records; fails on a truncated final record
    /// or a register that is not an address.
    pub fn from_bytes(bytes: &[u8]) -> (r: Result<RegisterStates, TraceError>)
        ensures
            r is Ok <==> register_stream_ok(bytes@),
            r matches Ok(s) ==> s.states@.len() == register_count(bytes@) && forall|i: int|
                0 <= i < register_count(bytes@) ==> #[trigger] s.states@[i] == register_record(
                    bytes@,
                    i,
                ),
            r matches Err(e) ==> e == TraceError::MalformedInput,
    {
        let len = bytes.len();
        if len % REGISTER_RECORD_LEN != 0 {
            return Err(TraceError::MalformedInput);
        }
        let n = len / REGISTER_RECORD_LEN;
        let mut states: Vec<RegisterState> = Vec::new();
        let mut i: usize = 0;
        while i < n
            invariant
                i <= n,
                n == register_count(bytes@),
                len == bytes@.len(),
                states@.len() == i,
                forall|j: int, k: int|
                    0 <= j < i && 0 <= k < 3 ==> #[trigger] le64(
                        bytes@,
                        REGISTER_RECORD_LEN * j + 8 * k,
                    ) <= usize::MAX,
                forall|j: int| 0 <= j < i ==> #[trigger] states@[j] == register_record(bytes@, j),
            decreases n - i,
        {
            proof {
                assert(24 * i + 24 <= len) by (nonlinear_arith)
                    requires
                        i < n,
                        n == len / 24,
                ;
            }
            let at = REGISTER_RECORD_LEN * i;
            let ap = match read_address(bytes, at) {
                Ok(a) => a,
                Err(e) => {
                    assert(le64(bytes@, REGISTER_RECORD_LEN * i + 8 * 0) > usize::MAX);
                    return Err(e);
                },
            };
            let fp = match read_address(bytes, at + 8) {
                Ok(a) => a,
                Err(e) => {
                    assert(le64(bytes@, REGISTER_RECORD_LEN * i + 8 * 1) > usize::MAX);
                    return Err(e);
                },
            };
            let pc = match read_address(bytes, at + 16) {
                Ok(a) => a,
                Err(e) => {
                    assert(le64(bytes@, REGISTER_RECORD_LEN * i + 8 * 2) > usize::MAX);
                    return Err(e);
                },
            };
            states.push(RegisterState { ap, fp, pc });
            proof {
                assert forall|j: int, k: int|
                    0 <= j < i + 1 && 0 <= k < 3 implies #[trigger] le64(
                        bytes@,
                        REGISTER_RECORD_LEN * j + 8 * k,
                    ) <= usize::MAX by {
                    if j == i {
                        if k == 0 {
                            assert(REGISTER_RECORD_LEN * j + 8 * k == at);
                        } else if k == 1 {
                            assert(REGISTER_RECORD_LEN * j + 8 * k == at + 8);
                        } else {
                            assert(REGISTER_RECORD_LEN * j + 8 * k == at + 16);
                        }
                    }
                }
            }
            i += 1;
        }
        Ok(RegisterStates { states })
    }

    /// Number of steps.
    pub fn len(&self) -> (r: usize)
        ensures
            r == self.states@.len(),
    {
        self.states.len()
    }
}

} // verus!
