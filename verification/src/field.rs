//! The prime field that witness values are drawn from.
//!
//! Elements are canonical residues modulo the 64-bit prime
//! `2^64 - 2^32 + 1`, stored as a reduced `u64`.  The engine only needs a
//! ring with exact equality: addition, subtraction, negation,
//! multiplication, exponentiation, and a little-endian byte decomposition
//! for range- and comparison-style gates.

use vstd::prelude::*;

verus! {

/// The field modulus, a prime that fits in 64 bits.
pub const MODULUS: u64 = 0xffff_ffff_0000_0001;

/// An element of the prime field, kept as its canonical residue.
#[derive(Clone, Copy, PartialEq, Eq, Structural, Debug)]
pub struct Felt {
    v: u64,
}

/// `256^n`, the weight of the `n`-th byte of a little-endian number.
pub open spec fn pow256(n: nat) -> int
    decreases n,
{
    if n == 0 {
        1
    } else {
        256 * pow256((n - 1) as nat)
    }
}

/// The number a little-endian byte sequence stands for.
pub open spec fn le_bytes_val(s: Seq<u8>) -> int
    decreases s.len(),
{
    if s.len() == 0 {
        0
    } else {
        le_bytes_val(s.drop_last()) + s.last() * pow256((s.len() - 1) as nat)
    }
}

/// `a^e` reduced modulo the field modulus.
pub open spec fn pow_mod(a: int, e: nat) -> int
    decreases e,
{
    if e == 0 {
        1
    } else {
        (pow_mod(a, (e - 1) as nat) * a) % (MODULUS as int)
    }
}

impl View for Felt {
    type V = int;

    closed spec fn view(&self) -> int {
        self.v as int
    }
}

/// The element standing for an ordinary integer, at the level of
/// specifications.
pub closed spec fn spec_from_u64(x: u64) -> Felt {
    Felt { v: (x as int % (MODULUS as int)) as u64 }
}

/// What `spec_from_u64` stands for, as a canonical value.
pub broadcast proof fn lemma_spec_from_u64(x: u64)
    ensures
        (#[trigger] spec_from_u64(x))@ == x as int % (MODULUS as int),
{
}

/// The element standing for `a^e`, at the level of specifications.
pub closed spec fn spec_pow_felt(a: Felt, e: nat) -> Felt {
    Felt { v: pow_mod(a@, e) as u64 }
}

/// What `spec_pow_felt` stands for, as a canonical value.
pub broadcast proof fn lemma_spec_pow_felt(a: Felt, e: nat)
    ensures
        (#[trigger] spec_pow_felt(a, e))@ == pow_mod(a@, e),
{
    lemma_pow_mod_range(a@, e);
}

/// The additive inverse, at the level of specifications.
pub closed spec fn spec_neg_felt(a: Felt) -> Felt {
    Felt { v: ((0 - a@) % (MODULUS as int)) as u64 }
}

/// What `spec_neg_felt` stands for, as a canonical value.
pub broadcast proof fn lemma_spec_neg_felt(a: Felt)
    ensures
        (#[trigger] spec_neg_felt(a))@ == (0 - a@) % (MODULUS as int),
{
}

/// The canonical value determines the element.
pub broadcast proof fn lemma_eq_of_view(a: Felt, b: Felt)
    requires
        #[trigger] a@ == #[trigger] b@,
    ensures
        a == b,
{
}

impl Felt {
    #[verifier::type_invariant]
    pub closed spec fn inv(self) -> bool {
        self.v < MODULUS
    }

    /// The additive identity.
    pub fn zero() -> (r: Felt)
        ensures
            r@ == 0,
            r == spec_from_u64(0),
    {
        Felt { v: 0 }
    }

    /// The multiplicative identity.
    pub fn one() -> (r: Felt)
        ensures
            r@ == 1,
            r == spec_from_u64(1),
    {
        Felt { v: 1 }
    }

    /// The element standing for an ordinary integer.
    pub fn from_u64(x: u64) -> (r: Felt)
        ensures
            r@ == x as int % (MODULUS as int),
            r == spec_from_u64(x),
    {
        Felt { v: x % MODULUS }
    }

    /// The canonical value, as a machine integer.
    pub fn value(&self) -> (r: u64)
        ensures
            r == self@,
            r < MODULUS,
    {
        proof {
            use_type_invariant(self);
        }
        self.v
    }

    /// Whether this element is the additive identity.
    pub fn is_zero(&self) -> (r: bool)
        ensures
            r == (self@ == 0),
    {
        self.v == 0
    }

    /// Whether the two elements hold the same canonical value.
    pub fn eq_val(&self, other: &Felt) -> (r: bool)
        ensures
            r == (self@ == other@),
    {
        self.v == other.v
    }

    /// Field addition.
    pub fn add(self, other: Felt) -> (r: Felt)
        ensures
            r@ == (self@ + other@) % (MODULUS as int),
    {
        let s: u128 = self.v as u128 + other.v as u128;
        Felt { v: (s % (MODULUS as u128)) as u64 }
    }

    /// Field subtraction.
    pub fn sub(self, other: Felt) -> (r: Felt)
        ensures
            r@ == (self@ - other@) % (MODULUS as int),
    {
        proof {
            use_type_invariant(other);
            vstd::arithmetic::div_mod::lemma_mod_add_multiples_vanish(
                self.v as int - other.v as int,
                MODULUS as int,
            );
        }
        let d: u128 = self.v as u128 + MODULUS as u128 - other.v as u128;
        Felt { v: (d % (MODULUS as u128)) as u64 }
    }

    /// Additive inverse.
    pub fn neg(self) -> (r: Felt)
        ensures
            r@ == (0 - self@) % (MODULUS as int),
            r == spec_neg_felt(self),
    {
        let r = Felt::zero().sub(self);
        proof {
            lemma_spec_neg_felt(self);
            lemma_eq_of_view(r, spec_neg_felt(self));
        }
        r
    }

    /// Field multiplication.
    pub fn mul(self, other: Felt) -> (r: Felt)
        ensures
            r@ == (self@ * other@) % (MODULUS as int),
    {
        proof {
            assert(self.v as int * other.v as int <= (u64::MAX as int) * (u64::MAX as int))
                by (nonlinear_arith)
                requires
                    self.v <= u64::MAX,
                    other.v <= u64::MAX,
            ;
        }
        let m: u128 = self.v as u128 * other.v as u128;
        Felt { v: (m % (MODULUS as u128)) as u64 }
    }

    /// Exponentiation by a machine-integer exponent.
    pub fn pow(self, e: u64) -> (r: Felt)
        ensures
            r@ == pow_mod(self@, e as nat),
            r == spec_pow_felt(self, e as nat),
    {
        proof {
            lemma_pow_mod_range(self@, e as nat);
        }
        let mut acc = Felt::one();
        proof {
            use_type_invariant(self);
        }
        assert(acc@ == pow_mod(self@, 0));
        for i in 0..e
            invariant
                acc@ == pow_mod(self@, i as nat),
                self.inv(),
        {
            acc = acc.mul(self);
        }
        acc
    }

    /// Bitwise exclusive-or of the canonical values, reduced into the field.
    pub fn xor(self, other: Felt) -> (r: Felt)
        ensures
            r@ == ((self@ as u64) ^ (other@ as u64)) as int % (MODULUS as int),
    {
        Felt::from_u64(self.v ^ other.v)
    }

    /// Whether this element's canonical value is below the other's.
    pub fn lt(self, other: Felt) -> (r: bool)
        ensures
            r == (self@ < other@),
    {
        self.v < other.v
    }

    /// The canonical value in eight little-endian bytes.
    pub fn to_le_bytes(&self) -> (bytes: Vec<u8>)
        ensures
            bytes@.len() == 8,
            le_bytes_val(bytes@) == self@,
            forall|i: int| 0 <= i < 8 ==> 0 <= #[trigger] bytes@[i] < 256,
            forall|i: int|
                0 <= i < 8 ==> #[trigger] bytes@[i] == (self@ / pow256(i as nat)) % 256,
    {
        proof {
            use_type_invariant(self);
        }
        let mut bytes: Vec<u8> = Vec::new();
        let mut x: u64 = self.v;
        assert(le_bytes_val(bytes@) == 0);
        for i in 0..8usize
            invariant
                bytes@.len() == i,
                x == self.v as int / pow256(i as nat),
                le_bytes_val(bytes@) + pow256(i as nat) * (x as int) == self.v as int,
                pow256(i as nat) >= 1,
                forall|j: int|
                    0 <= j < i ==> #[trigger] bytes@[j] == (self.v as int / pow256(j as nat))
                        % 256,
        {
            proof {
                lemma_pow256_pos((i + 1) as nat);
            }
            let b: u8 = (x % 256) as u8;
            let ghost prev = bytes@;
            bytes.push(b);
            proof {
                assert(bytes@.drop_last() =~= prev);
                assert(le_bytes_val(bytes@) == le_bytes_val(prev) + b * pow256(i as nat));
                vstd::arithmetic::div_mod::lemma_fundamental_div_mod(x as int, 256);
                vstd::arithmetic::div_mod::lemma_div_denominator(
                    self.v as int,
                    pow256(i as nat),
                    256,
                );
                assert(pow256(i as nat) * 256 == pow256((i + 1) as nat)) by {
                    lemma_pow256_unfold((i + 1) as nat);
                }
                assert((x as int) / 256 == self.v as int / pow256((i + 1) as nat));
                assert(le_bytes_val(bytes@) + pow256((i + 1) as nat) * ((x as int) / 256)
                    == self.v as int) by (nonlinear_arith)
                    requires
                        le_bytes_val(bytes@) == le_bytes_val(prev) + (x % 256) * pow256(i as nat),
                        le_bytes_val(prev) + pow256(i as nat) * (x as int) == self.v as int,
                        x == (x as int / 256) * 256 + (x % 256),
                        pow256((i + 1) as nat) == pow256(i as nat) * 256,
                ;
            }
            x = x / 256;
        }
        proof {
            assert(pow256(8) == 0x1_0000_0000_0000_0000) by {
                reveal_with_fuel(pow256, 9);
            }
            assert(x == self.v as int / 0x1_0000_0000_0000_0000);
            assert(x == 0);
        }
        bytes
    }
}

/// Reduced exponents stay below the modulus.
proof fn lemma_pow_mod_range(a: int, e: nat)
    ensures
        e > 0 ==> 0 <= pow_mod(a, e) < MODULUS,
        pow_mod(a, 0) == 1,
{
    if e > 0 {
        vstd::arithmetic::div_mod::lemma_mod_bound(
            pow_mod(a, (e - 1) as nat) * a,
            MODULUS as int,
        );
    }
}

proof fn lemma_pow256_pos(n: nat)
    ensures
        pow256(n) >= 1,
    decreases n,
{
    if n > 0 {
        lemma_pow256_pos((n - 1) as nat);
    }
}

proof fn lemma_pow256_unfold(n: nat)
    requires
        n > 0,
    ensures
        pow256(n) == pow256((n - 1) as nat) * 256,
{
}

} // verus!
