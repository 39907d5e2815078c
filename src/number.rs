use vstd::prelude::*;
use crate::text::{digit_char, digit_to_char, nat_text, push_char, push_nat};

verus! {

/// Most fractional digits that a rendering shows.
pub const FRACTION_DIGITS: u64 = 16;

/// A number of the language: the exact fraction `num / den`, with `den > 0`.
/// Two values are the same number when their fractions are equal.
#[derive(Clone, Copy, Debug)]
pub struct Num {
    num: i64,
    den: i64,
}

/// The number `n / d`, where both fit in an `i64` and `d` is positive.
pub closed spec fn make_num(n: int, d: int) -> Option<Num> {
    if i64::MIN <= n <= i64::MAX && 0 < d <= i64::MAX {
        Some(Num { num: n as i64, den: d as i64 })
    } else {
        None
    }
}

pub closed spec fn spec_add(a: Num, b: Num) -> Option<Num> {
    make_num(a.num * b.den + b.num * a.den, a.den * b.den)
}

pub closed spec fn spec_sub(a: Num, b: Num) -> Option<Num> {
    make_num(a.num * b.den - b.num * a.den, a.den * b.den)
}

pub closed spec fn spec_mul(a: Num, b: Num) -> Option<Num> {
    make_num(a.num * b.num, a.den * b.den)
}

/// The quotient; `None` for a zero divisor and where it does not fit.
pub closed spec fn spec_div(a: Num, b: Num) -> Option<Num> {
    if b.num == 0 {
        None
    } else if b.num > 0 {
        make_num(a.num * b.den, a.den * b.num)
    } else {
        make_num(-(a.num * b.den), -(a.den * b.num))
    }
}

pub closed spec fn spec_neg(a: Num) -> Option<Num> {
    make_num(-a.num, a.den as int)
}

/// `a` is the number zero.
pub closed spec fn spec_is_zero(a: Num) -> bool {
    a.num == 0
}

/// `a` and `b` are the same number.
pub closed spec fn spec_num_eq(a: Num, b: Num) -> bool {
    a.num * b.den == b.num * a.den
}

/// `a` is smaller than `b` (denominators are positive).
pub closed spec fn spec_num_lt(a: Num, b: Num) -> bool {
    a.num * b.den < b.num * a.den
}

/// The first `k` decimal digits of the fraction `r / d`, stopping early
/// where the remainder runs out.
pub open spec fn frac_digits(r: nat, d: nat, k: nat) -> Seq<char>
    decreases k,
{
    if k == 0 || r == 0 || d == 0 {
        Seq::empty()
    } else {
        seq![digit_char((r * 10) / d)] + frac_digits((r * 10) % d, d, (k - 1) as nat)
    }
}

pub open spec fn abs_int(x: int) -> nat {
    if x < 0 { (-x) as nat } else { x as nat }
}

/// How a number is printed: sign, integer part, and where the fraction is
/// not whole, a point followed by at most sixteen digits.
pub closed spec fn num_text(a: Num) -> Seq<char> {
    let m = abs_int(a.num as int);
    let d = a.den as nat;
    let sign = if a.num < 0 { seq!['-'] } else { Seq::empty() };
    let frac = if m % d == 0 {
        Seq::empty()
    } else {
        seq!['.'] + frac_digits(m % d, d, FRACTION_DIGITS as nat)
    };
    sign + nat_text(m / d) + frac
}

pub open spec fn is_digit_char(c: char) -> bool {
    '0' <= c && c <= '9'
}


/// Reading a number literal from the left: the digits read so far as one
/// integer, the power of ten that divides it (ten to the number of digits after
/// the point), and whether the point was seen. Characters other than digits and
/// the point are passed over. `None` once either integer leaves `i64`.
pub open spec fn literal_scan(t: Seq<char>) -> Option<(int, int, bool)>
    decreases t.len(),
{
    if t.len() == 0 {
        Some((0, 1, false))
    } else {
        match literal_scan(t.drop_last()) {
            None => None,
            Some((v, p, dot)) => {
                let c = t.last();
                if c == '.' {
                    Some((v, p, true))
                } else if is_digit_char(c) {
                    let next_v = v * 10 + (c as int - '0' as int);
                    let next_p = if dot { p * 10 } else { p };
                    if next_v <= i64::MAX && next_p <= i64::MAX { Some((next_v, next_p, dot)) } else { None }
                } else {
                    Some((v, p, dot))
                }
            },
        }
    }
}

/// The number that a literal stands for, where it fits.
pub closed spec fn literal_num(t: Seq<char>) -> Option<Num> {
    match literal_scan(t) {
        None => None,
        Some((v, p, _)) => make_num(v, p),
    }
}

proof fn lemma_literal_scan_range(t: Seq<char>)
    ensures
        literal_scan(t) matches Some((v, p, _)) ==> 0 <= v <= i64::MAX && 1 <= p <= i64::MAX,
    decreases t.len(),
{
    if t.len() > 0 {
        lemma_literal_scan_range(t.drop_last());
    }
}


proof fn lemma_literal_scan_none_extends(t: Seq<char>, i: int)
    requires
        0 <= i <= t.len(),
        literal_scan(t.subrange(0, i)) is None,
    ensures
        literal_scan(t) is None,
    decreases t.len() - i,
{
    if i < t.len() {
        assert(t.subrange(0, i + 1).drop_last() =~= t.subrange(0, i));
        lemma_literal_scan_none_extends(t, i + 1);
    } else {
        assert(t.subrange(0, i) =~= t);
    }
}

impl Num {
    #[verifier::type_invariant]
    spec fn wf(self) -> bool {
        self.den > 0
    }

    fn from_wide(n: i128, d: i128) -> (r: Option<Num>)
        ensures
            r == make_num(n as int, d as int),
    {
        if i64::MIN as i128 <= n && n <= i64::MAX as i128 && 0 < d && d <= i64::MAX as i128 {
            Some(Num { num: n as i64, den: d as i64 })
        } else {
            None
        }
    }

    /// The number that the literal `text` stands for; `None` where it does not
    /// fit.
    pub fn from_literal(text: &str) -> (r: Option<Num>)
        ensures
            r == literal_num(text@),
    {
        let n = text.unicode_len();
        let mut v: i64 = 0;
        let mut p: i64 = 1;
        let mut dot = false;
        let mut i: usize = 0;
        while i < n
            invariant
                n == text@.len(),
                i <= n,
                literal_scan(text@.subrange(0, i as int)) == Some((v as int, p as int, dot)),
            decreases n - i,
        {
            let c = text.get_char(i);
            let ghost prefix = text@.subrange(0, i as int);
            proof {
                lemma_literal_scan_range(prefix);
                assert(text@.subrange(0, i + 1).drop_last() =~= prefix);
            }
            if c == '.' {
                dot = true;
            } else if '0' <= c && c <= '9' {
                let next_v: i128 = v as i128 * 10 + (c as u32 - '0' as u32) as i128;
                let next_p: i128 = if dot { p as i128 * 10 } else { p as i128 };
                if next_v > i64::MAX as i128 || next_p > i64::MAX as i128 {
                    proof { lemma_literal_scan_none_extends(text@, i as int + 1); }
                    return None;
                }
                v = next_v as i64;
                p = next_p as i64;
            }
            i = i + 1;
        }
        assert(text@.subrange(0, n as int) =~= text@);
        proof { lemma_literal_scan_range(text@); }
        Some(Num { num: v, den: p })
    }

    /// The sum, or `None` where it does not fit.
    pub fn add(self, other: Num) -> (r: Option<Num>)
        ensures
            r == spec_add(self, other),
    {
        let a = self.num as i128;
        let b = self.den as i128;
        let c = other.num as i128;
        let d = other.den as i128;
        proof {
            use_type_invariant(&self);
            use_type_invariant(&other);
        }
        proof { lemma_wide_products(a as int, b as int, c as int, d as int); }
        Num::from_wide(a * d + c * b, b * d)
    }

    /// The difference, or `None` where it does not fit.
    pub fn sub(self, other: Num) -> (r: Option<Num>)
        ensures
            r == spec_sub(self, other),
    {
        let a = self.num as i128;
        let b = self.den as i128;
        let c = other.num as i128;
        let d = other.den as i128;
        proof {
            use_type_invariant(&self);
            use_type_invariant(&other);
        }
        proof { lemma_wide_products(a as int, b as int, c as int, d as int); }
        Num::from_wide(a * d - c * b, b * d)
    }

    /// The product, or `None` where it does not fit.
    pub fn mul(self, other: Num) -> (r: Option<Num>)
        ensures
            r == spec_mul(self, other),
    {
        let a = self.num as i128;
        let b = self.den as i128;
        let c = other.num as i128;
        let d = other.den as i128;
        proof {
            use_type_invariant(&self);
            use_type_invariant(&other);
        }
        proof { lemma_wide_products(a as int, b as int, c as int, d as int); }
        Num::from_wide(a * c, b * d)
    }

    pub fn is_zero(self) -> (r: bool)
        ensures
            r == spec_is_zero(self),
    {
        self.num == 0
    }

    /// The quotient, or `None` for a zero divisor or where it does not fit.
    pub fn div(self, other: Num) -> (r: Option<Num>)
        ensures
            r == spec_div(self, other),
    {
        let a = self.num as i128;
        let b = self.den as i128;
        let c = other.num as i128;
        let d = other.den as i128;
        proof {
            use_type_invariant(&self);
            use_type_invariant(&other);
        }
        proof { lemma_wide_products(a as int, b as int, c as int, d as int); }
        if c == 0 {
            None
        } else if c > 0 {
            Num::from_wide(a * d, b * c)
        } else {
            Num::from_wide(-(a * d), -(b * c))
        }
    }

    /// The negation, or `None` where it does not fit.
    pub fn neg(self) -> (r: Option<Num>)
        ensures
            r == spec_neg(self),
    {
        proof { use_type_invariant(&self); }
        Num::from_wide(-(self.num as i128), self.den as i128)
    }

    /// Whether both stand for the same number.
    pub fn num_eq(self, other: Num) -> (r: bool)
        ensures
            r == spec_num_eq(self, other),
    {
        let a = self.num as i128;
        let b = self.den as i128;
        let c = other.num as i128;
        let d = other.den as i128;
        proof {
            use_type_invariant(&self);
            use_type_invariant(&other);
        }
        proof { lemma_wide_products(a as int, b as int, c as int, d as int); }
        a * d == c * b
    }

    /// Whether `self` is smaller than `other`.
    pub fn num_lt(self, other: Num) -> (r: bool)
        ensures
            r == spec_num_lt(self, other),
    {
        let a = self.num as i128;
        let b = self.den as i128;
        let c = other.num as i128;
        let d = other.den as i128;
        proof {
            use_type_invariant(&self);
            use_type_invariant(&other);
        }
        proof { lemma_wide_products(a as int, b as int, c as int, d as int); }
        a * d < c * b
    }

    /// Appends how this number is printed.
    pub fn push_text(self, s: &mut String)
        ensures
            final(s)@ == old(s)@ + num_text(self),
    {
        proof { use_type_invariant(&self); }
        let ghost s0 = s@;
        let m: u64 = if self.num < 0 { (-(self.num as i128)) as u64 } else { self.num as u64 };
        let d: u64 = self.den as u64;
        assert(m as nat == abs_int(self.num as int));
        if self.num < 0 {
            push_char(s, '-');
        }
        let ghost s1 = s@;
        push_nat(s, m / d);
        let ghost s2 = s@;
        let rem: u64 = m % d;
        if rem != 0 {
            push_char(s, '.');
            let ghost s3 = s@;
            push_frac_digits(s, rem, d, FRACTION_DIGITS);
            assert(s@ =~= s2 + (seq!['.'] + frac_digits(rem as nat, d as nat, FRACTION_DIGITS as nat)));
        }
        assert(s@ =~= s0 + num_text(self));
    }
}

/// Appends `frac_digits(r, d, k)`.
fn push_frac_digits(s: &mut String, r: u64, d: u64, k: u64)
    requires
        r < d,
        d > 0,
    ensures
        final(s)@ == old(s)@ + frac_digits(r as nat, d as nat, k as nat),
    decreases k,
{
    if k == 0 || r == 0 {
        assert(final(s)@ =~= old(s)@ + frac_digits(r as nat, d as nat, k as nat));
        return;
    }
    let wide: u128 = r as u128 * 10;
    let qw: u128 = wide / d as u128;
    let nw: u128 = wide % d as u128;
    assert(qw < 10) by (nonlinear_arith)
        requires wide as int == r as int * 10, r < d, qw as int == wide as int / d as int, d > 0;
    assert(nw < d) by (nonlinear_arith)
        requires nw as int == wide as int % d as int, d > 0;
    let q: u64 = qw as u64;
    let next: u64 = nw as u64;
    assert(q as nat == (r as nat * 10) / d as nat);
    assert(next as nat == (r as nat * 10) % d as nat);
    let ghost s0 = s@;
    push_char(s, digit_to_char(q));
    push_frac_digits(s, next, d, k - 1);
    assert(s@ =~= s0 + frac_digits(r as nat, d as nat, k as nat));
}

proof fn lemma_wide_products(a: int, b: int, c: int, d: int)
    requires
        i64::MIN <= a <= i64::MAX,
        i64::MIN <= c <= i64::MAX,
        0 < b <= i64::MAX,
        0 < d <= i64::MAX,
    ensures
        -0x3fff_ffff_ffff_ffff_ffff_ffff_ffff_ffff <= a * d <= 0x3fff_ffff_ffff_ffff_ffff_ffff_ffff_ffff,
        -0x3fff_ffff_ffff_ffff_ffff_ffff_ffff_ffff <= c * b <= 0x3fff_ffff_ffff_ffff_ffff_ffff_ffff_ffff,
        -0x4000_0000_0000_0000_0000_0000_0000_0000 <= a * c <= 0x4000_0000_0000_0000_0000_0000_0000_0000,
        0 < b * d <= 0x3fff_ffff_ffff_ffff_ffff_ffff_ffff_ffff,
        -0x3fff_ffff_ffff_ffff_ffff_ffff_ffff_ffff <= b * c <= 0x3fff_ffff_ffff_ffff_ffff_ffff_ffff_ffff,
{
    assert(-0x3fff_ffff_ffff_ffff_ffff_ffff_ffff_ffff <= a * d <= 0x3fff_ffff_ffff_ffff_ffff_ffff_ffff_ffff) by (nonlinear_arith)
        requires i64::MIN <= a <= i64::MAX, 0 < d <= i64::MAX;
    assert(-0x3fff_ffff_ffff_ffff_ffff_ffff_ffff_ffff <= c * b <= 0x3fff_ffff_ffff_ffff_ffff_ffff_ffff_ffff) by (nonlinear_arith)
        requires i64::MIN <= c <= i64::MAX, 0 < b <= i64::MAX;
    assert(-0x4000_0000_0000_0000_0000_0000_0000_0000 <= a * c <= 0x4000_0000_0000_0000_0000_0000_0000_0000) by (nonlinear_arith)
        requires i64::MIN <= a <= i64::MAX, i64::MIN <= c <= i64::MAX;
    assert(0 < b * d <= 0x3fff_ffff_ffff_ffff_ffff_ffff_ffff_ffff) by (nonlinear_arith)
        requires 0 < b <= i64::MAX, 0 < d <= i64::MAX;
    assert(-0x3fff_ffff_ffff_ffff_ffff_ffff_ffff_ffff <= b * c <= 0x3fff_ffff_ffff_ffff_ffff_ffff_ffff_ffff) by (nonlinear_arith)
        requires i64::MIN <= c <= i64::MAX, 0 < b <= i64::MAX;
}

} // verus!
