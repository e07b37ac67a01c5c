//! The compiled program: its data words become the public memory, and its
//! declared modulus must be the field's.

use vstd::prelude::*;
use num_bigint::BigUint;
use ruint::aliases::U256;
use crate::error::TraceError;
use crate::field::{limbs_value, modulus, modulus_limbs, Felt};
use crate::word::Word;

verus! {

/// What ruint's `FromStr` for a 256-bit integer makes of a text: `0x`, `0o`
/// and `0b` select the radix, decimal otherwise.
pub uninterp spec fn u256_parse(s: Seq<char>) -> Option<nat>;

/// What `str::to_lowercase` makes of a text.
pub uninterp spec fn lower_of(s: Seq<char>) -> Seq<char>;

/// The lowercase hexadecimal digit of `d`.
pub open spec fn hex_digit(d: nat) -> char {
    if d == 0 {
        '0'
    } else if d == 1 {
        '1'
    } else if d == 2 {
        '2'
    } else if d == 3 {
        '3'
    } else if d == 4 {
        '4'
    } else if d == 5 {
        '5'
    } else if d == 6 {
        '6'
    } else if d == 7 {
        '7'
    } else if d == 8 {
        '8'
    } else if d == 9 {
        '9'
    } else if d == 10 {
        'a'
    } else if d == 11 {
        'b'
    } else if d == 12 {
        'c'
    } else if d == 13 {
        'd'
    } else if d == 14 {
        'e'
    } else {
        'f'
    }
}

/// The lowercase hexadecimal digits of `n`, most significant first, without
/// leading zeros (`0` for zero).
pub open spec fn hex_digits(n: nat) -> Seq<char>
    decreases n,
{
    if n < 16 {
        seq![hex_digit(n)]
    } else {
        hex_digits(n / 16).push(hex_digit(n % 16))
    }
}

/// `n` written as `0x` followed by its lowercase hexadecimal digits.
pub open spec fn lower_hex_text(n: nat) -> Seq<char> {
    seq!['0', 'x'] + hex_digits(n)
}

/// Relies on ruint's `FromStr` for `Uint<256, 4>`: the value as four limbs,
/// or `None` where the text is no 256-bit integer.
#[verifier::external_body]
fn parse_u256(s: &str) -> (r: Option<[u64; 4]>)
    ensures
        r is Some <==> u256_parse(s@) is Some,
        r matches Some(l) ==> limbs_value(l) == u256_parse(s@)->0,
{
    match <U256 as std::str::FromStr>::from_str(s) {
        Ok(v) => Some(v.into_limbs()),
        Err(_) => None,
    }
}

/// Relies on `str::to_lowercase`: the result depends on the characters alone.
#[verifier::external_body]
fn lowercase(s: &str) -> (r: String)
    ensures
        r@ == lower_of(s@),
{
    s.to_lowercase()
}

/// Relies on num-bigint's `LowerHex` for `BigUint`, in its alternate form:
/// `0x`, then the digits of `to_str_radix(16)`, which are lowercase, most
/// significant first, without leading zeros, and `0` for zero.
#[verifier::external_body]
fn lower_hex(l: [u64; 4]) -> (r: String)
    ensures
        r@ == lower_hex_text(limbs_value(l)),
{
    format!("{:#x}", BigUint::from(U256::from_limbs(l)))
}

/// Whether data item `s` is a word: a 256-bit integer below the field modulus.
pub open spec fn data_item_ok(s: Seq<char>) -> bool {
    u256_parse(s) matches Some(v) && v < modulus()
}

/// A compiled program: its data words and the modulus it was compiled for.
#[derive(Debug)]
pub struct CompiledProgram {
    pub data: Vec<String>,
    pub prime: String,
}

/// The public-memory entry of data item `index`, given what parsing it gave:
/// address `index + 1` (address zero is kept for padding accesses) and the
/// parsed value, which must be below the field modulus.
pub fn public_memory_entry(index: usize, parsed: Option<[u64; 4]>) -> (r: Result<
    (usize, Felt),
    TraceError,
>)
    requires
        index < usize::MAX,
    ensures
        r is Ok <==> (parsed matches Some(l) && limbs_value(l) < modulus()),
        r matches Ok(e) ==> e.0 == index + 1 && e.1.wf() && e.1.limbs == parsed->0,
        r matches Err(e) ==> e == TraceError::MalformedInput,
{
    match parsed {
        Some(limbs) => match Word::new(limbs) {
            Ok(w) => Ok((index + 1, w.into_felt())),
            Err(e) => Err(e),
        },
        None => Err(TraceError::MalformedInput),
    }
}

/// Whether a lowercased declared modulus is the field's, in lowercase hex.
pub fn check_modulus(lowered_prime: &String, modulus_hex: &String) -> (r: Result<(), TraceError>)
    ensures
        r is Ok <==> lowered_prime@ == modulus_hex@,
        r matches Err(e) ==> e == TraceError::ModulusMismatch,
{
    if *lowered_prime == *modulus_hex {
        Ok(())
    } else {
        Err(TraceError::ModulusMismatch)
    }
}

impl CompiledProgram {
    pub fn new(data: Vec<String>, prime: String) -> (r: CompiledProgram)
        ensures
            r.data@ == data@,
            r.prime@ == prime@,
    {
        CompiledProgram { data, prime }
    }

    /// Checks that the declared modulus is the field's, ignoring case.
    pub fn validate(&self) -> (r: Result<(), TraceError>)
        ensures
            r is Ok <==> lower_of(self.prime@) == lower_hex_text(modulus()),
            r matches Err(e) ==> e == TraceError::ModulusMismatch,
    {
        let expected = lower_hex(modulus_limbs());
        let lowered = lowercase(self.prime.as_str());
        check_modulus(&lowered, &expected)
    }

    /// The public memory: data item `i` at address `i + 1`, as a field element.
    pub fn get_public_memory(&self) -> (r: Result<Vec<(usize, Felt)>, TraceError>)
        ensures
            r is Ok <==> forall|i: int|
                0 <= i < self.data@.len() ==> data_item_ok(#[trigger] self.data@[i]@),
            r matches Ok(m) ==> m@.len() == self.data@.len() && forall|i: int|
                0 <= i < m@.len() ==> (#[trigger] m@[i]).0 == i + 1 && m@[i].1.wf()
                    && u256_parse(self.data@[i]@) == Some(m@[i].1.value()),
            r matches Err(e) ==> e == TraceError::MalformedInput,
    {
        let mut memory: Vec<(usize, Felt)> = Vec::new();
        let mut i: usize = 0;
        while i < self.data.len()
            invariant
                i <= self.data@.len(),
                memory@.len() == i,
                forall|j: int| 0 <= j < i ==> data_item_ok(#[trigger] self.data@[j]@),
                forall|j: int|
                    0 <= j < i ==> (#[trigger] memory@[j]).0 == j + 1 && memory@[j].1.wf()
                        && u256_parse(self.data@[j]@) == Some(memory@[j].1.value()),
            decreases self.data@.len() - i,
        {
            let parsed = parse_u256(self.data[i].as_str());
            match public_memory_entry(i, parsed) {
                Ok(entry) => memory.push(entry),
                Err(e) => return Err(e),
            }
            i += 1;
        }
        Ok(memory)
    }

    /// The padding entry: the address after the last public-memory address,
    /// holding that address as a field element.
    pub fn get_padding_address_and_value(&self) -> (r: (usize, Felt))
        requires
            self.data@.len() < usize::MAX,
        ensures
            r.0 == self.data@.len() + 1,
            r.1.wf(),
            r.1.value() == r.0,
    {
        let address = self.data.len() + 1;
        (address, Felt::from_u64(address as u64))
    }
}

} // verus!
