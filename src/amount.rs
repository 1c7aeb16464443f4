//! 256-bit unsigned token amounts, held as four little-endian 64-bit limbs,
//! with the arithmetic and text forms done by the `uint` types that `ethers`
//! exports.
use vstd::prelude::*;

use ethers::types::U256;

verus! {

/// The value of one limb position: 2^64.
pub open spec fn limb_base() -> nat {
    0x1_0000_0000_0000_0000
}

/// One past the largest amount: 2^256.
pub open spec fn amount_bound() -> nat {
    limb_base() * limb_base() * limb_base() * limb_base()
}

/// The number that four little-endian limbs denote.
pub open spec fn limbs_value(l: Seq<u64>) -> nat
    recommends
        l.len() == 4,
{
    (l[0] + limb_base() * (l[1] + limb_base() * (l[2] + limb_base() * l[3]))) as nat
}

/// The number that a big-endian byte string denotes (any width).
pub open spec fn be_value(b: Seq<u8>) -> nat
    decreases b.len(),
{
    if b.len() == 0 {
        0
    } else {
        (be_value(b.drop_last()) * 256 + b.last()) as nat
    }
}

/// 256 to the power `n`.
pub open spec fn pow256(n: nat) -> nat
    decreases n,
{
    if n == 0 { 1 } else { 256 * pow256((n - 1) as nat) }
}

proof fn lemma_pow256_grows(m: nat, n: nat)
    requires
        m <= n,
    ensures
        pow256(m) <= pow256(n),
    decreases n,
{
    if m < n {
        lemma_pow256_grows(m, (n - 1) as nat);
    }
}

/// Big-endian bytes written one after the other.
proof fn lemma_be_concat(a: Seq<u8>, b: Seq<u8>)
    ensures
        be_value(a + b) == be_value(a) * pow256(b.len()) + be_value(b),
    decreases b.len(),
{
    if b.len() == 0 {
        assert(a + b =~= a);
        assert(be_value(b) == 0);
        assert(pow256(0) == 1);
    } else {
        lemma_be_concat(a, b.drop_last());
        assert((a + b).drop_last() =~= a + b.drop_last());
        let x = be_value(a);
        let p = pow256((b.len() - 1) as nat);
        let y = be_value(b.drop_last());
        assert((a + b).last() == b.last());
        assert(be_value(a + b) == be_value(a + b.drop_last()) * 256 + b.last());
        assert(be_value(b) == y * 256 + b.last());
        assert(pow256(b.len()) == 256 * p);
        assert((x * p + y) * 256 + b.last() == x * (256 * p) + (y * 256 + b.last())) by (nonlinear_arith);
    }
}

/// Zero bytes spell zero.
proof fn lemma_be_zeros(z: Seq<u8>)
    requires
        forall|j: int| 0 <= j < z.len() ==> z[j] == 0,
    ensures
        be_value(z) == 0,
    decreases z.len(),
{
    if z.len() > 0 {
        lemma_be_zeros(z.drop_last());
    }
}

/// More than 32 bytes with a non-zero first byte spell at least 2^256.
proof fn lemma_be_lower_bound(b: Seq<u8>)
    requires
        b.len() > 32,
        b[0] != 0,
    ensures
        be_value(b) >= amount_bound(),
{
    let head = b.take(1);
    let tail = b.skip(1);
    assert(b =~= head + tail);
    lemma_be_concat(head, tail);
    assert(head.drop_last() =~= Seq::<u8>::empty());
    assert(head.last() == b[0]);
    assert(be_value(Seq::<u8>::empty()) == 0);
    assert(be_value(head) == b[0]);
    lemma_pow256_grows(32, tail.len());
    reveal_with_fuel(pow256, 33);
    assert(pow256(32) == amount_bound());
    let p = pow256(tail.len());
    assert(be_value(head) * p >= p) by (nonlinear_arith)
        requires be_value(head) >= 1;
}

/// The character of a decimal digit.
pub open spec fn digit_char(d: nat) -> char {
    if d == 0 { '0' } else if d == 1 { '1' } else if d == 2 { '2' } else if d == 3 { '3' }
    else if d == 4 { '4' } else if d == 5 { '5' } else if d == 6 { '6' } else if d == 7 { '7' }
    else if d == 8 { '8' } else { '9' }
}

pub open spec fn is_digit_char(c: char) -> bool {
    '0' <= c && c <= '9'
}

pub open spec fn char_digit(c: char) -> nat {
    (c as u32 - '0' as u32) as nat
}

/// The canonical decimal text of `n`: no sign, no leading zeros, "0" for zero.
pub open spec fn decimal(n: nat) -> Seq<char>
    decreases n,
{
    if n < 10 {
        seq![digit_char(n)]
    } else {
        decimal(n / 10).push(digit_char(n % 10))
    }
}

/// Every character is a decimal digit.
pub open spec fn all_digits(s: Seq<char>) -> bool {
    forall|i: int| 0 <= i < s.len() ==> is_digit_char(#[trigger] s[i])
}

/// The number that a string of decimal digits denotes (leading zeros allowed).
pub open spec fn digits_value(s: Seq<char>) -> nat
    decreases s.len(),
{
    if s.len() == 0 {
        0
    } else {
        (digits_value(s.drop_last()) * 10 + char_digit(s.last())) as nat
    }
}

/// An unsigned token amount below 2^256.
#[derive(Clone, Copy, Debug, PartialEq, Eq)]
pub struct Amount {
    /// Little-endian 64-bit limbs.
    pub limbs: [u64; 4],
}

impl Amount {
    pub open spec fn value(self) -> nat {
        limbs_value(self.limbs@)
    }

    pub fn zero() -> (r: Amount)
        ensures
            r.value() == 0,
    {
        Amount { limbs: [0u64, 0u64, 0u64, 0u64] }
    }

    pub fn is_zero(&self) -> (r: bool)
        ensures
            r == (self.value() == 0),
    {
        self.limbs[0] == 0 && self.limbs[1] == 0 && self.limbs[2] == 0 && self.limbs[3] == 0
    }

    /// The amount that a big-endian byte string of any width spells, or
    /// `None` where it is not below 2^256.
    pub fn from_be_bytes(b: &[u8]) -> (r: Option<Amount>)
        ensures
            r.is_some() == (be_value(b@) < amount_bound()),
            r matches Some(a) ==> a.value() == be_value(b@),
    {
        let n = b.len();
        let mut start: usize = 0;
        while n - start > 32 && b[start] == 0
            invariant
                n == b@.len(),
                start <= n,
                forall|j: int| 0 <= j < start ==> b@[j] == 0,
            decreases n - start,
        {
            start = start + 1;
        }
        let rest = vstd::slice::slice_subrange(b, start, n);
        proof {
            assert(b@ =~= b@.take(start as int) + rest@);
            lemma_be_concat(b@.take(start as int), rest@);
            lemma_be_zeros(b@.take(start as int));
            let z = pow256(rest@.len());
            assert(0 * z == 0);
            assert(be_value(b@) == be_value(rest@));
        }
        if n - start > 32 {
            proof {
                lemma_be_lower_bound(rest@);
            }
            None
        } else {
            let a = u256_from_be(rest);
            proof {
                lemma_amount_bound(a);
            }
            Some(a)
        }
    }

    /// The canonical decimal text of the amount.
    pub fn to_decimal(&self) -> (r: String)
        ensures
            r@ == decimal(self.value()),
    {
        u256_to_decimal(*self)
    }

    /// Reads a non-empty run of decimal digits whose value is below 2^256.
    pub fn parse_decimal(s: &str) -> (r: Option<Amount>)
        ensures
            r.is_some() == (s@.len() > 0 && all_digits(s@) && digits_value(s@) < amount_bound()),
            r matches Some(a) ==> a.value() == digits_value(s@),
    {
        if s.unicode_len() == 0 {
            None
        } else {
            u256_from_dec_str(s)
        }
    }
}

/// Every amount is below 2^256.
pub proof fn lemma_amount_bound(a: Amount)
    ensures
        a.value() < amount_bound(),
{
    let b = limb_base();
    let x3 = a.limbs@[3] as nat;
    let x2 = a.limbs@[2] + b * x3;
    let x1 = a.limbs@[1] + b * x2;
    assert(x3 < b);
    assert(x2 < b * b) by (nonlinear_arith)
        requires x2 == a.limbs@[2] + b * x3, a.limbs@[2] < b, x3 < b, b > 0;
    assert(x1 < b * b * b) by (nonlinear_arith)
        requires x1 == a.limbs@[1] + b * x2, a.limbs@[1] < b, x2 < b * b, b > 0;
    assert(a.limbs@[0] + b * x1 < b * b * b * b) by (nonlinear_arith)
        requires a.limbs@[0] < b, x1 < b * b * b, b > 0;
}

/// Relies on `U256::from_big_endian`: reads at most 32 big-endian bytes, and
/// panics on more.
#[verifier::external_body]
pub(crate) fn u256_from_be(b: &[u8]) -> (r: Amount)
    requires
        b@.len() <= 32,
    ensures
        r.value() == be_value(b@),
{
    Amount { limbs: U256::from_big_endian(b).0 }
}

/// Relies on `U256::checked_add`: `None` exactly when the sum reaches 2^256.
#[verifier::external_body]
pub(crate) fn u256_checked_add(a: Amount, b: Amount) -> (r: Option<Amount>)
    ensures
        r.is_some() == (a.value() + b.value() < amount_bound()),
        r matches Some(s) ==> s.value() == a.value() + b.value(),
{
    U256(a.limbs).checked_add(U256(b.limbs)).map(|s| Amount { limbs: s.0 })
}

/// Relies on `U256::checked_sub`: `None` exactly when `b` exceeds `a`.
#[verifier::external_body]
pub(crate) fn u256_checked_sub(a: Amount, b: Amount) -> (r: Option<Amount>)
    ensures
        r.is_some() == (b.value() <= a.value()),
        r matches Some(s) ==> s.value() == a.value() - b.value(),
{
    U256(a.limbs).checked_sub(U256(b.limbs)).map(|s| Amount { limbs: s.0 })
}

/// Relies on `U256`'s `Display`: the decimal digits without leading zeros.
#[verifier::external_body]
pub(crate) fn u256_to_decimal(a: Amount) -> (r: String)
    ensures
        r@ == decimal(a.value()),
{
    U256(a.limbs).to_string()
}

/// Relies on `U256::from_dec_str`: accepts a string of decimal digits (the
/// empty one reads as zero) whose value is below 2^256.
#[verifier::external_body]
pub(crate) fn u256_from_dec_str(s: &str) -> (r: Option<Amount>)
    ensures
        r.is_some() == (all_digits(s@) && digits_value(s@) < amount_bound()),
        r matches Some(a) ==> a.value() == digits_value(s@),
{
    U256::from_dec_str(s).ok().map(|a| Amount { limbs: a.0 })
}

} // verus!
