//! Elements of the Stark prime field, held as four little-endian 64-bit limbs.

use vstd::prelude::*;
use ruint::aliases::U256;

verus! {

/// The Stark prime `2^251 + 17 * 2^192 + 1`.
pub open spec fn modulus() -> nat {
    0x800000000000011000000000000000000000000000000000000000000000001nat
}

/// The integer held by four little-endian 64-bit limbs.
pub open spec fn limbs_value(l: [u64; 4]) -> nat {
    l[0] as nat + l[1] as nat * 0x1_0000_0000_0000_0000nat + l[2] as nat
        * 0x1_0000_0000_0000_0000_0000_0000_0000_0000nat + l[3] as nat
        * 0x1_0000_0000_0000_0000_0000_0000_0000_0000_0000_0000_0000_0000nat
}

/// Whether `x` has a multiplicative inverse modulo the field modulus.
pub open spec fn has_inverse(x: nat) -> bool {
    exists|y: nat| y < modulus() && #[trigger] ((x * y) % modulus()) == 1
}

/// The multiplicative inverse of `x`, or zero where none exists (the value
/// an unused cell takes).
pub open spec fn inverse_or_zero(x: nat) -> nat {
    if has_inverse(x) {
        choose|y: nat| y < modulus() && #[trigger] ((x * y) % modulus()) == 1
    } else {
        0
    }
}

/// The limbs of the field modulus.
pub fn modulus_limbs() -> (r: [u64; 4])
    ensures
        limbs_value(r) == modulus(),
{
    [1, 0, 0, 0x0800_0000_0000_0011]
}

/// Relies on ruint's `Uint::add_mod`: the sum of both values reduced by the
/// modulus, for a nonzero modulus.
#[verifier::external_body]
fn add_mod_limbs(a: [u64; 4], b: [u64; 4], m: [u64; 4]) -> (r: [u64; 4])
    requires
        limbs_value(m) > 0,
    ensures
        limbs_value(r) == (limbs_value(a) + limbs_value(b)) % limbs_value(m),
{
    U256::from_limbs(a).add_mod(U256::from_limbs(b), U256::from_limbs(m)).into_limbs()
}

/// Relies on ruint's `Uint::mul_mod`: the product of both values reduced by the
/// modulus, for a nonzero modulus.
#[verifier::external_body]
fn mul_mod_limbs(a: [u64; 4], b: [u64; 4], m: [u64; 4]) -> (r: [u64; 4])
    requires
        limbs_value(m) > 0,
    ensures
        limbs_value(r) == (limbs_value(a) * limbs_value(b)) % limbs_value(m),
{
    U256::from_limbs(a).mul_mod(U256::from_limbs(b), U256::from_limbs(m)).into_limbs()
}

/// Relies on ruint's `Uint::inv_mod`: the inverse in `[0, m)`, or `None` where
/// none exists, which is where the value and the modulus share a factor. The
/// modulus here is the Stark prime, so only multiples of it have none.
#[verifier::external_body]
fn inv_mod_limbs(a: [u64; 4], m: [u64; 4]) -> (r: Option<[u64; 4]>)
    requires
        limbs_value(m) == modulus(),
    ensures
        r is None <==> !has_inverse(limbs_value(a)),
        limbs_value(a) % modulus() != 0 ==> r is Some,
        r matches Some(x) ==> limbs_value(x) < modulus() && (limbs_value(a) * limbs_value(x))
            % modulus() == 1,
{
    match U256::from_limbs(a).inv_mod(U256::from_limbs(m)) {
        Some(x) => Some(x.into_limbs()),
        None => None,
    }
}

/// Two inverses of one value are the same element.
proof fn lemma_inverse_unique(x: nat, y: nat, z: nat)
    requires
        y < modulus(),
        z < modulus(),
        (x * y) % modulus() == 1,
        (x * z) % modulus() == 1,
    ensures
        y == z,
{
    let p = modulus() as int;
    assert(y * (x * z) == (y * x) * z) by (nonlinear_arith);
    assert(y * x == x * y) by (nonlinear_arith);
    vstd::arithmetic::div_mod::lemma_mul_mod_noop_right(y as int, (x * z) as int, p);
    vstd::arithmetic::div_mod::lemma_mul_mod_noop_left((x * y) as int, z as int, p);
    vstd::arithmetic::div_mod::lemma_small_mod(y, modulus());
    vstd::arithmetic::div_mod::lemma_small_mod(z, modulus());
}

/// An element of the prime field: limbs whose value is below the modulus.
#[derive(Clone, Copy, Debug)]
pub struct Felt {
    pub limbs: [u64; 4],
}

impl Felt {
    pub open spec fn value(&self) -> nat {
        limbs_value(self.limbs)
    }

    pub open spec fn wf(&self) -> bool {
        self.value() < modulus()
    }

    /// The element held by `limbs`, if their value is below the modulus.
    pub fn from_limbs(limbs: [u64; 4]) -> (r: Option<Felt>)
        ensures
            r is Some <==> limbs_value(limbs) < modulus(),
            r matches Some(f) ==> f.limbs == limbs && f.wf(),
    {
        if limbs_below_modulus(limbs) {
            Some(Felt { limbs })
        } else {
            None
        }
    }

    /// The additive identity.
    pub fn zero() -> (r: Felt)
        ensures
            r.wf(),
            r.value() == 0,
    {
        Felt { limbs: [0, 0, 0, 0] }
    }

    /// The element `n`.
    pub fn from_u64(n: u64) -> (r: Felt)
        ensures
            r.wf(),
            r.value() == n,
    {
        Felt { limbs: [n, 0, 0, 0] }
    }

    /// Field addition.
    pub fn add(&self, other: &Felt) -> (r: Felt)
        requires
            self.wf(),
            other.wf(),
        ensures
            r.wf(),
            r.value() == (self.value() + other.value()) % modulus(),
    {
        let limbs = add_mod_limbs(self.limbs, other.limbs, modulus_limbs());
        Felt { limbs }
    }

    /// Field multiplication.
    pub fn mul(&self, other: &Felt) -> (r: Felt)
        requires
            self.wf(),
            other.wf(),
        ensures
            r.wf(),
            r.value() == (self.value() * other.value()) % modulus(),
    {
        let limbs = mul_mod_limbs(self.limbs, other.limbs, modulus_limbs());
        Felt { limbs }
    }

    /// The multiplicative inverse, or zero where the element has none.
    pub fn inverse_or_zero(&self) -> (r: Felt)
        requires
            self.wf(),
        ensures
            r.wf(),
            r.value() == inverse_or_zero(self.value()),
            self.value() != 0 ==> (self.value() * r.value()) % modulus() == 1,
            r.value() == 0 <==> self.value() == 0,
    {
        match inv_mod_limbs(self.limbs, modulus_limbs()) {
            Some(limbs) => {
                let r = Felt { limbs };
                proof {
                    let x = self.value();
                    let y = choose|y: nat|
                        y < modulus() && #[trigger] ((x * y) % modulus()) == 1;
                    lemma_inverse_unique(x, y, r.value());
                    let v = r.value();
                    if v == 0 {
                        assert(x * v == 0) by (nonlinear_arith)
                            requires
                                v == 0,
                        ;
                    }
                    if x == 0 {
                        assert(x * v == 0) by (nonlinear_arith)
                            requires
                                x == 0,
                        ;
                    }
                }
                r
            },
            None => {
                proof {
                    vstd::arithmetic::div_mod::lemma_small_mod(self.value(), modulus());
                }
                Felt::zero()
            },
        }
    }
}

/// Whether the value of `l` is below the field modulus.
pub fn limbs_below_modulus(l: [u64; 4]) -> (r: bool)
    ensures
        r <==> limbs_value(l) < modulus(),
{
    if l[3] < 0x0800_0000_0000_0011 {
        true
    } else if l[3] > 0x0800_0000_0000_0011 {
        false
    } else {
        l[0] == 0 && l[1] == 0 && l[2] == 0
    }
}

} // verus!
