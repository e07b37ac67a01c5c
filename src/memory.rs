//! Sparse memory recorded by a run: a dense table from address to an
//! optional word, decoded from a stream of (address, value) records.

use vstd::prelude::*;
use crate::bytes::{le64, lemma_le64_byte, limb_byte, read_u64_le};
use crate::error::TraceError;
use crate::field::{limbs_below_modulus, limbs_value, modulus};
use crate::word::Word;

verus! {

/// Bytes of one memory record: a 64-bit little-endian address, then a 32-byte
/// little-endian value.
pub const MEMORY_RECORD_LEN: usize = 40;

/// Number of records in a memory stream.
pub open spec fn record_count(b: Seq<u8>) -> int {
    (b.len() / (MEMORY_RECORD_LEN as nat)) as int
}

/// The address of record `i`.
pub open spec fn record_address(b: Seq<u8>, i: int) -> nat {
    le64(b, MEMORY_RECORD_LEN * i)
}

/// The limbs of the value of record `i`, lowest first.
pub open spec fn record_limbs(b: Seq<u8>, i: int) -> Seq<u64> {
    let at = MEMORY_RECORD_LEN * i + 8;
    seq![
        le64(b, at) as u64,
        le64(b, at + 8) as u64,
        le64(b, at + 16) as u64,
        le64(b, at + 24) as u64,
    ]
}

/// The value of record `i`.
pub open spec fn record_value(b: Seq<u8>, i: int) -> nat {
    let l = record_limbs(b, i);
    l[0] as nat + l[1] as nat * 0x1_0000_0000_0000_0000nat + l[2] as nat
        * 0x1_0000_0000_0000_0000_0000_0000_0000_0000nat + l[3] as nat
        * 0x1_0000_0000_0000_0000_0000_0000_0000_0000_0000_0000_0000_0000nat
}

/// The largest address among the first `n` records; zero where there are none.
pub open spec fn max_record_address(b: Seq<u8>, n: int) -> nat
    decreases n,
{
    if n <= 0 {
        0
    } else {
        let m = max_record_address(b, n - 1);
        let a = record_address(b, n - 1);
        if a > m {
            a
        } else {
            m
        }
    }
}

/// The 32 value bytes of record `i`.
pub open spec fn record_value_bytes(b: Seq<u8>, i: int) -> Seq<u8> {
    b.subrange(MEMORY_RECORD_LEN * i + 8, MEMORY_RECORD_LEN * i + 40)
}

/// Whether a memory stream decodes: whole records only, each address below `usize::MAX`,
/// each value below the field modulus, and no address twice.
pub open spec fn memory_stream_ok(b: Seq<u8>) -> bool {
    &&& b.len() % (MEMORY_RECORD_LEN as nat) == 0
    &&& forall|i: int|
        0 <= i < record_count(b) ==> #[trigger] record_address(b, i) < usize::MAX
    &&& forall|i: int|
        0 <= i < record_count(b) ==> #[trigger] record_value(b, i) < modulus()
    &&& forall|i: int, j: int|
        0 <= i < j < record_count(b) ==> #[trigger] record_address(b, i) != #[trigger] record_address(
            b,
            j,
        )
}


/// The 32 little-endian bytes of a word.
pub open spec fn word_bytes(w: Word) -> Seq<u8> {
    Seq::new(32, |t: int| limb_byte(w.limbs[t / 8], t % 8))
}

/// The (address, value bytes) pairs of the records of a stream.
pub open spec fn stream_records(b: Seq<u8>) -> Set<(nat, Seq<u8>)> {
    Set::new(
        |p: (nat, Seq<u8>)|
            exists|i: int|
                0 <= i < record_count(b) && p == (record_address(b, i), record_value_bytes(b, i)),
    )
}

/// The (address, value bytes) pairs of the present cells of a memory.
pub open spec fn encoded_cells(m: Memory) -> Set<(nat, Seq<u8>)> {
    Set::new(|p: (nat, Seq<u8>)| m.cell(p.0 as int) matches Some(w) && p.1 == word_bytes(w))
}

/// The (address, value bytes) pairs listed in a sequence.
pub open spec fn listed_cells(s: Seq<(usize, Vec<u8>)>) -> Set<(nat, Seq<u8>)> {
    Set::new(
        |p: (nat, Seq<u8>)| exists|j: int| 0 <= j < s.len() && p == (s[j].0 as nat, s[j].1@),
    )
}

/// Reads record `i`: its address, if it is below `usize::MAX`, and
/// the limbs of its value.
fn read_record(bytes: &[u8], i: usize) -> (r: Result<(usize, [u64; 4]), TraceError>)
    requires
        i < record_count(bytes@),
    ensures
        r is Ok <==> record_address(bytes@, i as int) < usize::MAX,
        r matches Ok(p) ==> p.0 == record_address(bytes@, i as int) && p.1@ == record_limbs(
            bytes@,
            i as int,
        ),
        r matches Err(e) ==> e == TraceError::MalformedInput,
{
    let len = bytes.len();
    proof {
        assert(40 * i + 40 <= len) by (nonlinear_arith)
            requires
                i < len / 40,
        ;
    }
    let at = MEMORY_RECORD_LEN * i;
    let address = read_u64_le(bytes, at);
    let limbs = [
        read_u64_le(bytes, at + 8),
        read_u64_le(bytes, at + 16),
        read_u64_le(bytes, at + 24),
        read_u64_le(bytes, at + 32),
    ];
    assert(limbs@ =~= record_limbs(bytes@, i as int));
    if address < usize::MAX as u64 {
        Ok((address as usize, limbs))
    } else {
        Err(TraceError::MalformedInput)
    }
}

/// The value bytes of a record are those of the word its limbs make.
proof fn lemma_word_bytes_of_record(b: Seq<u8>, i: int, w: Word)
    requires
        0 <= i < record_count(b),
        w.limbs@ == record_limbs(b, i),
    ensures
        word_bytes(w) == record_value_bytes(b, i),
{
    let at = MEMORY_RECORD_LEN * i + 8;
    assert forall|t: int| 0 <= t < 32 implies #[trigger] word_bytes(w)[t] == record_value_bytes(
        b,
        i,
    )[t] by {
        let j = t / 8;
        let k = t % 8;
        assert(at + 8 * j + k == at + t);
        assert(record_count(b) * 40 <= b.len());
        assert(40 * i + 40 <= b.len()) by (nonlinear_arith)
            requires
                i < record_count(b),
                record_count(b) == b.len() / 40,
        ;
        lemma_le64_byte(b, at + 8 * j, k);
        assert(w.limbs[j] == le64(b, at + 8 * j) as u64);
    }
    assert(word_bytes(w) =~= record_value_bytes(b, i));
}

/// Memory of a run: cell `a` holds the word written at address `a`, or nothing
/// where the run left the cell unconstrained.
#[derive(Debug)]
pub struct Memory {
    pub cells: Vec<Option<Word>>,
}

impl Memory {
    /// The word at address `a`, if present.
    pub open spec fn cell(&self, a: int) -> Option<Word> {
        if 0 <= a < self.cells@.len() {
            self.cells@[a]
        } else {
            None
        }
    }

    /// Every present word is below the field modulus.
    pub open spec fn wf(&self) -> bool {
        forall|a: int| #[trigger] self.cell(a) matches Some(w) ==> w.wf()
    }

    /// The memory holds exactly the records of stream `b`.
    pub open spec fn matches_stream(&self, b: Seq<u8>) -> bool {
        &&& forall|i: int|
            0 <= i < record_count(b) ==> (#[trigger] self.cell(record_address(b, i) as int) matches Some(
                w,
            ) && w.limbs@ == record_limbs(b, i))
        &&& forall|a: int|
            #[trigger] self.cell(a) is Some ==> exists|i: int|
                0 <= i < record_count(b) && record_address(b, i) == a
    }

    /// Decodes a stream of memory records; fails on a truncated record, an
    /// address too large, a value not below the field modulus, or an address
    /// given twice.
    pub fn from_bytes(bytes: &[u8]) -> (r: Result<Memory, TraceError>)
        ensures
            r is Ok <==> memory_stream_ok(bytes@),
            r matches Ok(m) ==> m.wf() && m.matches_stream(bytes@) && m.cells@.len() == 1
                + max_record_address(bytes@, record_count(bytes@)),
            r matches Err(e) ==> e == TraceError::MalformedInput,
    {
        if bytes.len() % MEMORY_RECORD_LEN != 0 {
            return Err(TraceError::MalformedInput);
        }
        let n = bytes.len() / MEMORY_RECORD_LEN;
        let mut max_address: usize = 0;
        let mut i: usize = 0;
        while i < n
            invariant
                i <= n,
                n == record_count(bytes@),
                bytes@.len() % (MEMORY_RECORD_LEN as nat) == 0,
                max_address < usize::MAX,
                max_address == max_record_address(bytes@, i as int),
                forall|j: int|
                    0 <= j < i ==> #[trigger] record_address(bytes@, j) <= max_address
                        && record_value(bytes@, j) < modulus(),
            decreases n - i,
        {
            let (address, limbs) = match read_record(bytes, i) {
                Ok(p) => p,
                Err(e) => return Err(e),
            };
            assert(limbs_value(limbs) == record_value(bytes@, i as int));
            if !limbs_below_modulus(limbs) {
                return Err(TraceError::MalformedInput);
            }
            if address > max_address {
                max_address = address;
            }
            i += 1;
        }
        let size = max_address + 1;
        let mut cells: Vec<Option<Word>> = Vec::new();
        while cells.len() < size
            invariant
                cells.len() <= size,
                forall|a: int| 0 <= a < cells@.len() ==> #[trigger] cells@[a] is None,
            decreases size - cells.len(),
        {
            cells.push(None);
        }
        let mut k: usize = 0;
        while k < n
            invariant
                k <= n,
                n == record_count(bytes@),
                bytes@.len() % (MEMORY_RECORD_LEN as nat) == 0,
                cells@.len() == size,
                size == max_address + 1,
                max_address == max_record_address(bytes@, n as int),
                forall|j: int|
                    0 <= j < n ==> #[trigger] record_address(bytes@, j) <= max_address
                        && record_value(bytes@, j) < modulus(),
                forall|j: int|
                    0 <= j < k ==> (#[trigger] cells@[record_address(bytes@, j) as int] matches Some(
                        w,
                    ) && w.limbs@ == record_limbs(bytes@, j)),
                forall|a: int|
                    0 <= a < cells@.len() && #[trigger] cells@[a] is Some ==> exists|j: int|
                        0 <= j < k && record_address(bytes@, j) == a,
                forall|a: int|
                    0 <= a < cells@.len() ==> (#[trigger] cells@[a] matches Some(w) ==> w.wf()),
                forall|j1: int, j2: int|
                    0 <= j1 < j2 < k ==> #[trigger] record_address(bytes@, j1)
                        != #[trigger] record_address(bytes@, j2),
            decreases n - k,
        {
            let (address, limbs) = match read_record(bytes, k) {
                Ok(p) => p,
                Err(e) => return Err(e),
            };
            let word = match Word::new(limbs) {
                Ok(w) => w,
                Err(e) => return Err(e),
            };
            if cells[address].is_some() {
                proof {
                    let j = choose|j: int| 0 <= j < k && record_address(bytes@, j) == address;
                    assert(record_address(bytes@, j) == record_address(bytes@, k as int));
                }
                return Err(TraceError::MalformedInput);
            }
            cells.set(address, Some(word));
            proof {
                assert forall|a: int|
                    0 <= a < cells@.len() && #[trigger] cells@[a] is Some implies exists|j: int|
                        0 <= j < k + 1 && record_address(bytes@, j) == a by {
                    if a != address {
                        let j = choose|j: int| 0 <= j < k && record_address(bytes@, j) == a;
                        assert(0 <= j < k + 1 && record_address(bytes@, j) == a);
                    } else {
                        assert(record_address(bytes@, k as int) == a);
                    }
                }
            }
            k += 1;
        }
        let m = Memory { cells };
        proof {
            assert forall|a: int| #[trigger] m.cell(a) is Some implies exists|i: int|
                0 <= i < record_count(bytes@) && record_address(bytes@, i) == a by {
                let j = choose|j: int| 0 <= j < k && record_address(bytes@, j) == a;
            }
            assert forall|i: int|
                0 <= i < record_count(bytes@) implies #[trigger] record_address(bytes@, i)
                < usize::MAX by {
                assert(record_address(bytes@, i) <= max_address);
            }
            assert forall|i: int|
                0 <= i < record_count(bytes@) implies #[trigger] record_value(bytes@, i)
                < modulus() by {
                assert(record_address(bytes@, i) <= max_address);
            }
        }
        Ok(m)
    }

    /// The word at `address`, if present.
    pub fn resolve(&self, address: usize) -> (r: Option<Word>)
        ensures
            r == self.cell(address as int),
    {
        if address < self.cells.len() {
            self.cells[address]
        } else {
            None
        }
    }

    /// Number of addresses the table covers: one more than the largest present
    /// address, or one where none is present.
    pub fn len(&self) -> (r: usize)
        ensures
            r == self.cells@.len(),
    {
        self.cells.len()
    }

    /// The present cells as (address, 32 little-endian value bytes), by address.
    pub fn present_cells(&self) -> (r: Vec<(usize, Vec<u8>)>)
        ensures
            listed_cells(r@) == encoded_cells(*self),
    {
        let mut r: Vec<(usize, Vec<u8>)> = Vec::new();
        let mut a: usize = 0;
        while a < self.cells.len()
            invariant
                a <= self.cells@.len(),
                forall|j: int|
                    0 <= j < r@.len() ==> (#[trigger] r@[j]).0 < a && (self.cell(
                        r@[j].0 as int,
                    ) matches Some(w) && r@[j].1@ == word_bytes(w)),
                forall|c: int|
                    0 <= c < a && #[trigger] self.cell(c) is Some ==> exists|j: int|
                        0 <= j < r@.len() && r@[j].0 == c,
            decreases self.cells@.len() - a,
        {
            let ghost r0 = r@;
            if let Some(w) = self.cells[a] {
                let bytes = w.to_le_bytes();
                r.push((a, bytes));
            }
            proof {
                assert forall|c: int|
                    0 <= c < a + 1 && #[trigger] self.cell(c) is Some implies exists|j: int|
                        0 <= j < r@.len() && r@[j].0 == c by {
                    if c < a {
                        let j = choose|j: int| 0 <= j < r0.len() && r0[j].0 == c;
                        assert(r@[j] == r0[j]);
                    } else {
                        assert(r@[r@.len() - 1].0 == c);
                    }
                }
            }
            a += 1;
        }
        proof {
            assert forall|p: (nat, Seq<u8>)| encoded_cells(*self).contains(p) implies listed_cells(
                r@,
            ).contains(p) by {
                let j = choose|j: int| 0 <= j < r@.len() && r@[j].0 == p.0;
                assert(p == (r@[j].0 as nat, r@[j].1@));
            }
            assert(listed_cells(r@) =~= encoded_cells(*self));
        }
        r
    }
}

impl Word {
    /// The 32 little-endian bytes of the word.
    pub fn to_le_bytes(&self) -> (r: Vec<u8>)
        ensures
            r@ == word_bytes(*self),
    {
        let mut r: Vec<u8> = Vec::new();
        let mut t: usize = 0;
        while t < 32
            invariant
                t <= 32,
                r@ =~= word_bytes(*self).take(t as int),
            decreases 32 - t,
        {
            let l = self.limbs[t / 8];
            let k = (t % 8) as u64;
            r.push(((l >> (8 * k)) & 0xff) as u8);
            t += 1;
        }
        r
    }
}

/// Re-encoding the present cells of a decoded memory stream gives back the
/// stream's (address, value bytes) records, as a set.
pub proof fn lemma_memory_round_trip(b: Seq<u8>, m: Memory)
    requires
        memory_stream_ok(b),
        m.matches_stream(b),
    ensures
        encoded_cells(m) == stream_records(b),
{
    assert forall|p: (nat, Seq<u8>)| encoded_cells(m).contains(p) implies stream_records(
        b,
    ).contains(p) by {
        let w = m.cell(p.0 as int)->0;
        let i = choose|i: int| 0 <= i < record_count(b) && record_address(b, i) == p.0 as int;
        lemma_word_bytes_of_record(b, i, w);
    }
    assert forall|p: (nat, Seq<u8>)| stream_records(b).contains(p) implies encoded_cells(
        m,
    ).contains(p) by {
        let i = choose|i: int|
            0 <= i < record_count(b) && p == (record_address(b, i), record_value_bytes(b, i));
        let w = m.cell(record_address(b, i) as int)->0;
        lemma_word_bytes_of_record(b, i, w);
    }
    assert(encoded_cells(m) =~= stream_records(b));
}

} // verus!
