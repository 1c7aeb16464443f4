//! Signed netflow values (inflow minus outflow) with their decimal text form.
use vstd::prelude::*;

use crate::amount::{
    all_digits, amount_bound, decimal, digits_value, lemma_amount_bound, u256_checked_add,
    u256_checked_sub, u256_from_dec_str, u256_to_decimal, Amount,
};

verus! {

pub open spec fn abs(x: int) -> nat {
    if x < 0 { (-x) as nat } else { x as nat }
}

/// The decimal text of a signed value: a leading '-' for negatives only.
pub open spec fn signed_decimal(v: int) -> Seq<char> {
    if v < 0 { seq!['-'] + decimal(abs(v)) } else { decimal(abs(v)) }
}

/// Whether `s` starts with a minus sign.
pub open spec fn has_minus(s: Seq<char>) -> bool {
    s.len() > 0 && s[0] == '-'
}

/// The digits of a signed decimal text, past its sign.
pub open spec fn unsigned_part(s: Seq<char>) -> Seq<char> {
    if has_minus(s) { s.drop_first() } else { s }
}

/// Whether `s` is an optional '-' and a non-empty run of digits whose value
/// is below 2^256.
pub open spec fn is_netflow_text(s: Seq<char>) -> bool {
    let d = unsigned_part(s);
    d.len() > 0 && all_digits(d) && digits_value(d) < amount_bound()
}

/// The value of a text that `is_netflow_text` accepts.
pub open spec fn netflow_text_value(s: Seq<char>) -> int {
    let m = digits_value(unsigned_part(s)) as int;
    if has_minus(s) { -m } else { m }
}

/// A signed netflow, as a sign and a 256-bit magnitude.
#[derive(Clone, Copy, Debug, PartialEq, Eq)]
pub struct Netflow {
    pub negative: bool,
    pub magnitude: Amount,
}

impl Netflow {
    pub open spec fn value(self) -> int {
        if self.negative { -(self.magnitude.value() as int) } else { self.magnitude.value() as int }
    }

    /// Zero is never negative, so each value has one form.
    pub open spec fn wf(self) -> bool {
        self.negative ==> self.magnitude.value() > 0
    }

    pub fn zero() -> (r: Netflow)
        ensures
            r.wf(),
            r.value() == 0,
    {
        Netflow { negative: false, magnitude: Amount::zero() }
    }

    /// `a - b` as a signed value.
    pub fn from_difference(a: Amount, b: Amount) -> (r: Netflow)
        ensures
            r.wf(),
            r.value() == a.value() - b.value(),
    {
        match u256_checked_sub(a, b) {
            Some(d) => Netflow { negative: false, magnitude: d },
            None => {
                let d = u256_checked_sub(b, a).unwrap();
                Netflow { negative: true, magnitude: d }
            },
        }
    }

    /// The sum of two netflows, or `None` where its magnitude reaches 2^256.
    pub fn checked_add(self, o: Netflow) -> (r: Option<Netflow>)
        requires
            self.wf(),
            o.wf(),
        ensures
            r.is_some() == (abs(self.value() + o.value()) < amount_bound()),
            r matches Some(n) ==> n.wf() && n.value() == self.value() + o.value(),
    {
        proof {
            lemma_amount_bound(self.magnitude);
            lemma_amount_bound(o.magnitude);
        }
        if self.negative == o.negative {
            match u256_checked_add(self.magnitude, o.magnitude) {
                Some(s) => Some(Netflow { negative: self.negative, magnitude: s }),
                None => None,
            }
        } else if self.negative {
            Some(Netflow::from_difference(o.magnitude, self.magnitude))
        } else {
            Some(Netflow::from_difference(self.magnitude, o.magnitude))
        }
    }

    /// The decimal text of the value, with a leading '-' when negative.
    pub fn to_decimal(&self) -> (r: String)
        requires
            self.wf(),
        ensures
            r@ == signed_decimal(self.value()),
    {
        let digits = u256_to_decimal(self.magnitude);
        if self.negative {
            let mut s = String::from_str("-");
            proof {
                reveal_strlit("-");
            }
            s.append(digits.as_str());
            s
        } else {
            digits
        }
    }

    /// Reads an optional '-' followed by decimal digits; `None` for any
    /// other text, or where the magnitude reaches 2^256. "-0" reads as zero.
    pub fn parse(s: &str) -> (r: Option<Netflow>)
        ensures
            r.is_some() == is_netflow_text(s@),
            r matches Some(n) ==> n.wf() && n.value() == netflow_text_value(s@),
    {
        let len = s.unicode_len();
        let negative = len > 0 && s.get_char(0) == '-';
        let digits = if negative { s.substring_char(1, len) } else { s };
        assert(digits@ == unsigned_part(s@));
        if digits.unicode_len() == 0 {
            return None;
        }
        match u256_from_dec_str(digits) {
            Some(m) => {
                let zero = m.is_zero();
                Some(Netflow { negative: negative && !zero, magnitude: m })
            },
            None => None,
        }
    }
}

/// A digit's character is a digit that reads back as the same number.
proof fn lemma_digit_char(d: nat)
    requires
        d < 10,
    ensures
        crate::amount::is_digit_char(crate::amount::digit_char(d)),
        crate::amount::char_digit(crate::amount::digit_char(d)) == d,
{
}

/// `decimal` yields a non-empty run of digits that denotes its argument.
pub proof fn lemma_decimal_digits(n: nat)
    ensures
        decimal(n).len() > 0,
        all_digits(decimal(n)),
        digits_value(decimal(n)) == n,
    decreases n,
{
    lemma_digit_char(n % 10);
    if n >= 10 {
        lemma_decimal_digits(n / 10);
        assert(n == (n / 10) * 10 + n % 10);
        let d = decimal(n);
        assert(d.drop_last() == decimal(n / 10));
        assert(d.last() == crate::amount::digit_char(n % 10));
        assert(digits_value(d) == digits_value(decimal(n / 10)) * 10 + n % 10);
        assert forall|i: int| 0 <= i < d.len() implies crate::amount::is_digit_char(#[trigger] d[i]) by {
            if i < d.len() - 1 {
                assert(d[i] == decimal(n / 10)[i]);
            }
        }
    } else {
        assert(decimal(n).drop_last() =~= Seq::<char>::empty());
        assert(digits_value(Seq::<char>::empty()) == 0);
    }
}

/// Reading back the decimal text of an amount gives the same amount.
pub proof fn lemma_amount_text_round_trip(a: Amount)
    ensures
        decimal(a.value()).len() > 0,
        all_digits(decimal(a.value())),
        digits_value(decimal(a.value())) == a.value(),
        a.value() < amount_bound(),
{
    lemma_amount_bound(a);
    lemma_decimal_digits(a.value());
}

/// Reading back the decimal text of a netflow gives the same value.
pub proof fn lemma_netflow_text_round_trip(n: Netflow)
    requires
        n.wf(),
    ensures
        is_netflow_text(signed_decimal(n.value())),
        netflow_text_value(signed_decimal(n.value())) == n.value(),
{
    lemma_amount_bound(n.magnitude);
    lemma_decimal_digits(n.magnitude.value());
    let t = signed_decimal(n.value());
    if n.negative {
        assert(t.drop_first() == decimal(n.magnitude.value()));
    } else {
        assert(decimal(n.magnitude.value())[0] != '-');
    }
}

} // verus!
