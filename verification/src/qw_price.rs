//! Whether a price text denotes a floating-point number above zero, as
//! `str::parse::<f64>()` followed by `> 0.0` decides it: the grammar of
//! Rust's float syntax, and the rounding of tiny decimals to zero, decided
//! exactly with decimal digit vectors.
use vstd::prelude::*;
use crate::text::{lower, chars_of, lower_chars, slice_range, chars_eq, concat_chars};
use crate::numbers::{is_digit, all_digits, digits_value, lemma_digits_value_nonneg};

verus! {

/// 10 to the `e`.
pub open spec fn p10(e: nat) -> nat
    decreases e,
{
    if e == 0 {
        1
    } else {
        10 * p10((e - 1) as nat)
    }
}

/// 2 to the `e`.
pub open spec fn p2(e: nat) -> nat
    decreases e,
{
    if e == 0 {
        1
    } else {
        2 * p2((e - 1) as nat)
    }
}

/// The decimal `d × 10^k` rounds to a positive `f64`: it is above zero and,
/// when it is a fraction, above 2^-1075, half the least positive `f64`
/// (at most that much rounds, to even, to zero).
pub open spec fn decimal_above_zero(d: nat, k: int) -> bool {
    d > 0 && (k >= 0 || d * p2(1075) > p10((-k) as nat))
}

/// The sign, and the text after it.
pub open spec fn strip_sign(s: Seq<char>) -> (bool, Seq<char>) {
    if s.len() > 0 && s[0] == '-' {
        (true, s.drop_first())
    } else if s.len() > 0 && s[0] == '+' {
        (false, s.drop_first())
    } else {
        (false, s)
    }
}

/// Where the exponent marker (`e` or `E`) is, or the length.
pub open spec fn exp_marker(b: Seq<char>) -> int
    decreases b.len(),
{
    if b.len() == 0 {
        0
    } else if b[0] == 'e' || b[0] == 'E' {
        0
    } else {
        1 + exp_marker(b.drop_first())
    }
}

/// The first `.`, or the length.
pub open spec fn dot_at(b: Seq<char>) -> int
    decreases b.len(),
{
    if b.len() == 0 {
        0
    } else if b[0] == '.' {
        0
    } else {
        1 + dot_at(b.drop_first())
    }
}

/// An exponent: an optional sign and at least one digit.
pub open spec fn parse_exp(t: Seq<char>) -> Option<int> {
    let (neg, d) = strip_sign(t);
    if d.len() > 0 && all_digits(d) {
        Some(if neg { -digits_value(d) } else { digits_value(d) })
    } else {
        None
    }
}

/// A decimal: digits with at most one `.` (at least one digit in all), then
/// an optional exponent; as its digits `d` and scale `k`, the value being
/// `d × 10^k`.
pub open spec fn parse_decimal(b: Seq<char>) -> Option<(Seq<char>, int)> {
    let i = exp_marker(b);
    let mant = b.subrange(0, i);
    let e = if i >= b.len() {
        Some(0int)
    } else {
        parse_exp(b.subrange(i + 1, b.len() as int))
    };
    let dot = dot_at(mant);
    let int_part = mant.subrange(0, dot);
    let frac = if dot < mant.len() {
        mant.subrange(dot + 1, mant.len() as int)
    } else {
        Seq::<char>::empty()
    };
    if all_digits(int_part) && all_digits(frac) && int_part.len() + frac.len() > 0 && e is Some {
        Some((int_part + frac, e->0 - frac.len()))
    } else {
        None
    }
}

/// `s.parse::<f64>()` gives a number above zero: an unsigned or `+`
/// infinity, or a decimal (not negative) that rounds to a positive value.
/// Anything that does not parse, NaN and negative values are not.
pub open spec fn f64_text_positive(s: Seq<char>) -> bool {
    let (neg, b) = strip_sign(s);
    if lower(b) == "inf"@ || lower(b) == "infinity"@ {
        !neg
    } else if lower(b) == "nan"@ {
        false
    } else {
        match parse_decimal(b) {
            Some(p) => !neg && decimal_above_zero(digits_value(p.0) as nat, p.1),
            None => false,
        }
    }
}

// ----------------------------------------------------------------------------
// Little-endian decimal digit vectors.
/// The value of little-endian decimal digits.
pub open spec fn le_value(s: Seq<u8>) -> nat
    decreases s.len(),
{
    if s.len() == 0 {
        0
    } else {
        (s[0] as nat) + 10 * le_value(s.drop_first())
    }
}

pub open spec fn le_digits(s: Seq<u8>) -> bool {
    forall|i: int| 0 <= i < s.len() ==> #[trigger] s[i] < 10
}

pub proof fn lemma_p10_positive(e: nat)
    ensures
        p10(e) >= 1,
    decreases e,
{
    if e > 0 {
        lemma_p10_positive((e - 1) as nat);
    }
}

pub proof fn lemma_p10_add(a: nat, b: nat)
    ensures
        p10(a + b) == p10(a) * p10(b),
    decreases a,
{
    if a > 0 {
        let a1 = (a - 1) as nat;
        lemma_p10_add(a1, b);
        assert((a + b - 1) as nat == a1 + b);
        assert(p10(a + b) == 10 * p10(a1 + b));
        assert(p10(a) == 10 * p10(a1));
        assert(10 * p10(a1 + b) == p10(a) * p10(b)) by (nonlinear_arith)
            requires
                p10(a) == 10 * p10(a1),
                p10(a1 + b) == p10(a1) * p10(b),
        ;
    } else {
        assert(a + b == b);
        assert(p10(a) == 1);
    }
}

pub proof fn lemma_p10_mono(a: nat, b: nat)
    requires
        a < b,
    ensures
        p10(a) < p10(b),
    decreases b,
{
    lemma_p10_positive(a);
    if a + 1 < b {
        lemma_p10_mono(a, (b - 1) as nat);
    }
}

/// Digits appended at the high end.
pub proof fn lemma_le_append(a: Seq<u8>, b: Seq<u8>)
    ensures
        le_value(a + b) == le_value(a) + p10(a.len()) * le_value(b),
    decreases a.len(),
{
    if a.len() > 0 {
        lemma_le_append(a.drop_first(), b);
        assert((a + b).drop_first() =~= a.drop_first() + b);
        assert(le_value(a + b) == (a[0] as nat) + 10 * (le_value(a.drop_first()) + p10(a.drop_first().len())
            * le_value(b)));
        assert(p10(a.len()) == 10 * p10(a.drop_first().len()));
        assert(10 * (p10(a.drop_first().len()) * le_value(b)) == p10(a.len()) * le_value(b)) by (nonlinear_arith)
            requires
                p10(a.len()) == 10 * p10(a.drop_first().len()),
        ;
    } else {
        assert(a + b =~= b);
        assert(p10(a.len()) == 1);
        assert(le_value(a) == 0);
    }
}

pub proof fn lemma_le_single(x: u8)
    ensures
        le_value(seq![x]) == x as nat,
{
    assert(seq![x].drop_first() =~= Seq::<u8>::empty());
    assert(le_value(Seq::<u8>::empty()) == 0);
    assert(le_value(seq![x]) == (x as nat) + 10 * le_value(seq![x].drop_first()));
}

pub proof fn lemma_le_bound(s: Seq<u8>)
    requires
        le_digits(s),
    ensures
        le_value(s) < p10(s.len()),
    decreases s.len(),
{
    if s.len() > 0 {
        lemma_le_bound(s.drop_first());
        assert(s[0] < 10);
    }
}

pub proof fn lemma_le_zero(s: Seq<u8>)
    requires
        forall|i: int| 0 <= i < s.len() ==> #[trigger] s[i] == 0,
    ensures
        le_value(s) == 0,
    decreases s.len(),
{
    if s.len() > 0 {
        lemma_le_zero(s.drop_first());
        assert(s[0] == 0);
    }
}

pub proof fn lemma_le_nonzero(s: Seq<u8>, i: int)
    requires
        0 <= i < s.len(),
        s[i] != 0,
    ensures
        le_value(s) >= p10(i as nat),
    decreases s.len(),
{
    if i == 0 {
        lemma_p10_positive(0);
    } else {
        lemma_le_nonzero(s.drop_first(), i - 1);
    }
}

/// The digits of a big-endian digit text, little end first.
pub open spec fn le_of(d: Seq<char>) -> Seq<u8>
    decreases d.len(),
{
    if d.len() == 0 {
        seq![]
    } else {
        seq![((d.last() as int) - 48) as u8] + le_of(d.drop_last())
    }
}

pub proof fn lemma_le_of(d: Seq<char>)
    requires
        all_digits(d),
    ensures
        le_value(le_of(d)) == digits_value(d),
        le_digits(le_of(d)),
        le_of(d).len() == d.len(),
    decreases d.len(),
{
    if d.len() > 0 {
        let p = d.drop_last();
        assert forall|i: int| 0 <= i < p.len() implies is_digit(#[trigger] p[i]) by {
            assert(p[i] == d[i]);
        }
        lemma_le_of(p);
        lemma_digits_value_nonneg(p);
        assert(is_digit(d[d.len() - 1]));
        let s = le_of(d);
        assert(s.drop_first() =~= le_of(p));
        assert forall|i: int| 0 <= i < s.len() implies #[trigger] s[i] < 10 by {
            if i > 0 {
                assert(s[i] == le_of(p)[i - 1]);
            }
        }
    }
}

fn le_digits_of(d: &Vec<char>) -> (r: Vec<u8>)
    requires
        all_digits(d@),
    ensures
        r@ == le_of(d@),
{
    let mut out: Vec<u8> = Vec::new();
    let mut j: usize = d.len();
    proof {
        assert(d@.subrange(0, d@.len() as int) =~= d@);
    }
    while j > 0
        invariant
            j <= d@.len(),
            all_digits(d@),
            le_of(d@) == out@ + le_of(d@.subrange(0, j as int)),
        decreases j,
    {
        let c = d[j - 1];
        proof {
            assert(is_digit(d@[j - 1]));
            let p = d@.subrange(0, j as int);
            assert(p.drop_last() =~= d@.subrange(0, j - 1));
            assert(p.last() == c);
        }
        let digit: u8 = (c as u32 - 48) as u8;
        let ghost before = out@;
        out.push(digit);
        proof {
            assert(before + le_of(d@.subrange(0, j as int)) =~= out@ + le_of(d@.subrange(0, j - 1)));
        }
        j = j - 1;
    }
    proof {
        assert(le_of(d@.subrange(0, 0)) =~= Seq::<u8>::empty());
        assert(out@ + Seq::<u8>::empty() =~= out@);
    }
    out
}

/// Doubling little-endian digits.
fn double_le(s: &Vec<u8>) -> (r: Vec<u8>)
    requires
        le_digits(s@),
    ensures
        le_digits(r@),
        le_value(r@) == 2 * le_value(s@),
        r@.len() <= s@.len() + 1,
{
    let mut out: Vec<u8> = Vec::new();
    let mut carry: u8 = 0;
    let mut i: usize = 0;
    while i < s.len()
        invariant
            i <= s@.len(),
            le_digits(s@),
            le_digits(out@),
            out@.len() == i,
            carry <= 1,
            le_value(out@) + p10(i as nat) * carry == 2 * le_value(s@.subrange(0, i as int)),
        decreases s@.len() - i,
    {
        let x: u8 = s[i] * 2 + carry;
        let digit: u8 = x % 10;
        let next: u8 = x / 10;
        let ghost before = out@;
        out.push(digit);
        proof {
            assert(s@[i as int] < 10);
            lemma_le_append(before, seq![digit]);
            assert(out@ =~= before + seq![digit]);
            lemma_le_single(digit);
            lemma_le_append(s@.subrange(0, i as int), seq![s@[i as int]]);
            assert(s@.subrange(0, i + 1) =~= s@.subrange(0, i as int) + seq![s@[i as int]]);
            lemma_le_single(s@[i as int]);
            assert(p10((i + 1) as nat) == 10 * p10(i as nat));
            assert(x == digit + 10 * next);
            assert(p10(i as nat) * x == p10(i as nat) * digit + p10((i + 1) as nat) * next) by (nonlinear_arith)
                requires
                    x == digit + 10 * next,
                    p10((i + 1) as nat) == 10 * p10(i as nat),
            ;
            assert(p10(i as nat) * x == 2 * (p10(i as nat) * s@[i as int]) + p10(i as nat) * carry) by (nonlinear_arith)
                requires
                    x == s@[i as int] * 2 + carry,
            ;
            assert(le_value(out@) == le_value(before) + p10(i as nat) * digit);
            assert(le_value(s@.subrange(0, i + 1)) == le_value(s@.subrange(0, i as int)) + p10(i as nat) * s@[i as int]);
            assert forall|k: int| 0 <= k < out@.len() implies #[trigger] out@[k] < 10 by {
                if k < i {
                    assert(out@[k] == before[k]);
                }
            }
        }
        carry = next;
        i = i + 1;
    }
    proof {
        assert(s@.subrange(0, i as int) =~= s@);
    }
    if carry > 0 {
        let ghost before = out@;
        out.push(carry);
        proof {
            lemma_le_append(before, seq![carry]);
            assert(out@ =~= before + seq![carry]);
            lemma_le_single(carry);
            assert forall|k: int| 0 <= k < out@.len() implies #[trigger] out@[k] < 10 by {
                if k < before.len() {
                    assert(out@[k] == before[k]);
                }
            }
        }
    }
    out
}

/// Zero digits at the high end do not count.
proof fn lemma_le_high_zeros(w: Seq<u8>, h: int)
    requires
        0 <= h <= w.len(),
        forall|j: int| h <= j < w.len() ==> #[trigger] w[j] == 0,
    ensures
        le_value(w) == le_value(w.subrange(0, h)),
{
    let lo = w.subrange(0, h);
    let hi = w.subrange(h, w.len() as int);
    assert forall|q: int| 0 <= q < hi.len() implies #[trigger] hi[q] == 0 by {
        assert(hi[q] == w[h + q]);
    }
    lemma_le_zero(hi);
    lemma_le_append(lo, hi);
    assert(w =~= lo + hi);
    assert(p10(lo.len()) * le_value(hi) == 0) by (nonlinear_arith)
        requires
            le_value(hi) == 0,
    ;
}

/// Whether little-endian digits exceed 10^m.
fn le_exceeds_p10(w: &Vec<u8>, m: u128) -> (r: bool)
    requires
        le_digits(w@),
    ensures
        r == (le_value(w@) > p10(m as nat)),
{
    let mut h: usize = w.len();
    while h > 0 && w[h - 1] == 0
        invariant
            h <= w@.len(),
            forall|j: int| h <= j < w@.len() ==> #[trigger] w@[j] == 0,
        decreases h,
    {
        h = h - 1;
    }
    proof {
        lemma_le_high_zeros(w@, h as int);
        assert(le_digits(w@.subrange(0, h as int)));
        lemma_le_bound(w@.subrange(0, h as int));
    }
    if h == 0 {
        proof {
            assert(w@.subrange(0, 0) =~= Seq::<u8>::empty());
            lemma_p10_positive(m as nat);
        }
        return false;
    }
    let top = h - 1;
    let ghost low = w@.subrange(0, top as int);
    proof {
        assert(w@[top as int] != 0);
        lemma_le_nonzero(w@.subrange(0, h as int), top as int);
        assert(w@.subrange(0, h as int)[top as int] == w@[top as int]);
    }
    if (top as u128) < m {
        proof {
            if (h as nat) < (m as nat) {
                lemma_p10_mono(h as nat, m as nat);
            }
        }
        return false;
    }
    if (top as u128) > m {
        proof {
            lemma_p10_mono(m as nat, top as nat);
        }
        return true;
    }
    proof {
        assert(w@.subrange(0, h as int) =~= low + seq![w@[top as int]]);
        lemma_le_append(low, seq![w@[top as int]]);
        lemma_le_single(w@[top as int]);
        assert(low.len() == top);
        assert(le_value(w@) == le_value(low) + p10(top as nat) * w@[top as int]);
    }
    if w[top] > 1 {
        proof {
            assert(p10(top as nat) * w@[top as int] >= 2 * p10(top as nat)) by (nonlinear_arith)
                requires
                    w@[top as int] >= 2,
            ;
            assert(top as nat == m as nat);
            lemma_p10_positive(top as nat);
        }
        return true;
    }
    let mut j: usize = 0;
    while j < top
        invariant
            j <= top,
            top < w@.len(),
            low == w@.subrange(0, top as int),
            forall|q: int| 0 <= q < j ==> #[trigger] w@[q] == 0,
            le_value(w@) == le_value(low) + p10(top as nat) * w@[top as int],
            w@[top as int] == 1,
            top as nat == m as nat,
        decreases top - j,
    {
        if w[j] != 0 {
            proof {
                assert(low[j as int] == w@[j as int]);
                lemma_le_nonzero(low, j as int);
                lemma_p10_positive(j as nat);
                assert(le_value(low) >= 1);
                assert(p10(top as nat) * w@[top as int] == p10(top as nat)) by (nonlinear_arith)
                    requires
                        w@[top as int] == 1,
                ;
                assert(le_value(w@) > p10(top as nat));
            }
            return true;
        }
        j = j + 1;
    }
    proof {
        assert forall|q: int| 0 <= q < low.len() implies #[trigger] low[q] == 0 by {
            assert(low[q] == w@[q]);
        }
        lemma_le_zero(low);
        assert(p10(top as nat) * w@[top as int] == p10(top as nat)) by (nonlinear_arith)
            requires
                w@[top as int] == 1,
        ;
        assert(le_value(w@) == p10(top as nat));
    }
    false
}

/// Whether `digits_value(d) × 2^1075 > 10^m`.
fn scaled_exceeds(d: &Vec<char>, m: u128) -> (r: bool)
    requires
        all_digits(d@),
    ensures
        r == (digits_value(d@) * p2(1075) > p10(m as nat)),
{
    let mut w = le_digits_of(d);
    proof {
        lemma_le_of(d@);
        assert(p2(0) == 1);
        assert(digits_value(d@) * p2(0) == digits_value(d@)) by (nonlinear_arith)
            requires
                p2(0) == 1,
        ;
    }
    let mut i: usize = 0;
    while i < 1075
        invariant
            i <= 1075,
            le_digits(w@),
            le_value(w@) == digits_value(d@) * p2(i as nat),
            w@.len() <= d@.len() + i,
        decreases 1075 - i,
    {
        w = double_le(&w);
        proof {
            assert(p2((i + 1) as nat) == 2 * p2(i as nat));
            assert(2 * (digits_value(d@) * p2(i as nat)) == digits_value(d@) * p2((i + 1) as nat)) by (nonlinear_arith)
                requires
                    p2((i + 1) as nat) == 2 * p2(i as nat),
            ;
        }
        i = i + 1;
    }
    le_exceeds_p10(&w, m)
}


/// The cap at which exponents stop being counted: beyond any text length.
pub open spec fn exp_cap() -> int {
    0x10_0000_0000_0000_0000_0000_0000
}

pub open spec fn min_cap(v: int) -> int {
    if v < exp_cap() {
        v
    } else {
        exp_cap()
    }
}

fn marker_index(b: &Vec<char>) -> (i: usize)
    ensures
        i == exp_marker(b@),
        i <= b@.len(),
        i < b@.len() ==> (b@[i as int] == 'e' || b@[i as int] == 'E'),
{
    let mut j: usize = 0;
    proof {
        assert(b@.subrange(0, b@.len() as int) =~= b@);
    }
    while j < b.len() && b[j] != 'e' && b[j] != 'E'
        invariant
            j <= b@.len(),
            exp_marker(b@) == j + exp_marker(b@.subrange(j as int, b@.len() as int)),
        decreases b@.len() - j,
    {
        proof {
            let t = b@.subrange(j as int, b@.len() as int);
            assert(t.drop_first() =~= b@.subrange(j + 1, b@.len() as int));
            assert(t[0] == b@[j as int]);
        }
        j = j + 1;
    }
    proof {
        let t = b@.subrange(j as int, b@.len() as int);
        if j < b@.len() {
            assert(t[0] == b@[j as int]);
        }
    }
    j
}

fn dot_index(b: &Vec<char>) -> (i: usize)
    ensures
        i == dot_at(b@),
        i <= b@.len(),
{
    let mut j: usize = 0;
    proof {
        assert(b@.subrange(0, b@.len() as int) =~= b@);
    }
    while j < b.len() && b[j] != '.'
        invariant
            j <= b@.len(),
            dot_at(b@) == j + dot_at(b@.subrange(j as int, b@.len() as int)),
        decreases b@.len() - j,
    {
        proof {
            let t = b@.subrange(j as int, b@.len() as int);
            assert(t.drop_first() =~= b@.subrange(j + 1, b@.len() as int));
            assert(t[0] == b@[j as int]);
        }
        j = j + 1;
    }
    proof {
        let t = b@.subrange(j as int, b@.len() as int);
        if j < b@.len() {
            assert(t[0] == b@[j as int]);
        }
    }
    j
}

fn all_digit_chars(v: &Vec<char>) -> (r: bool)
    ensures
        r == all_digits(v@),
{
    let mut k: usize = 0;
    while k < v.len()
        invariant
            k <= v@.len(),
            forall|q: int| 0 <= q < k ==> is_digit(#[trigger] v@[q]),
        decreases v@.len() - k,
    {
        if v[k] < '0' || v[k] > '9' {
            return false;
        }
        k = k + 1;
    }
    true
}

proof fn lemma_digits_positive(d: Seq<char>)
    requires
        all_digits(d),
    ensures
        digits_value(d) > 0 <==> exists|q: int| 0 <= q < d.len() && #[trigger] d[q] != '0',
        digits_value(d) >= 0,
    decreases d.len(),
{
    if d.len() > 0 {
        let p = d.drop_last();
        assert forall|i: int| 0 <= i < p.len() implies is_digit(#[trigger] p[i]) by {
            assert(p[i] == d[i]);
        }
        lemma_digits_positive(p);
        assert(is_digit(d[d.len() - 1]));
        if exists|q: int| 0 <= q < p.len() && #[trigger] p[q] != '0' {
            let q = choose|q: int| 0 <= q < p.len() && #[trigger] p[q] != '0';
            assert(d[q] == p[q]);
        }
        if exists|q: int| 0 <= q < d.len() && #[trigger] d[q] != '0' {
            let q = choose|q: int| 0 <= q < d.len() && #[trigger] d[q] != '0';
            if q < d.len() - 1 {
                assert(p[q] == d[q]);
            }
        }
    }
}

fn any_nonzero_digit(d: &Vec<char>) -> (r: bool)
    requires
        all_digits(d@),
    ensures
        r == (digits_value(d@) > 0),
{
    let mut k: usize = 0;
    while k < d.len()
        invariant
            k <= d@.len(),
            all_digits(d@),
            forall|q: int| 0 <= q < k ==> #[trigger] d@[q] == '0',
        decreases d@.len() - k,
    {
        if d[k] != '0' {
            proof {
                lemma_digits_positive(d@);
                assert(d@[k as int] != '0');
            }
            return true;
        }
        k = k + 1;
    }
    proof {
        lemma_digits_positive(d@);
    }
    false
}

/// The value of decimal digits, or the cap when it is larger.
fn digits_capped(d: &Vec<char>) -> (r: u128)
    requires
        all_digits(d@),
    ensures
        r == min_cap(digits_value(d@)),
{
    let cap: u128 = 0x10_0000_0000_0000_0000_0000_0000;
    let mut acc: u128 = 0;
    let mut k: usize = 0;
    while k < d.len()
        invariant
            k <= d@.len(),
            all_digits(d@),
            cap == exp_cap(),
            acc == min_cap(digits_value(d@.subrange(0, k as int))),
        decreases d@.len() - k,
    {
        let ghost pre = d@.subrange(0, k as int);
        proof {
            let nx = d@.subrange(0, k + 1);
            assert(nx.drop_last() =~= pre);
            assert(nx.last() == d@[k as int]);
            assert(is_digit(d@[k as int]));
            lemma_digits_value_nonneg(pre);
        }
        let digit: u128 = (d[k] as u32 - 48) as u128;
        if acc < cap {
            let next: u128 = acc * 10 + digit;
            acc = if next < cap { next } else { cap };
        }
        k = k + 1;
    }
    proof {
        assert(d@.subrange(0, d@.len() as int) =~= d@);
    }
    acc
}


pub proof fn lemma_p2_le_p10(e: nat)
    ensures
        p2(e) <= p10(e),
    decreases e,
{
    if e > 0 {
        lemma_p2_le_p10((e - 1) as nat);
    }
}

/// A digit text of length `n` stands for less than 10^n.
pub proof fn lemma_digits_bound(d: Seq<char>)
    requires
        all_digits(d),
    ensures
        digits_value(d) < p10(d.len()),
{
    lemma_le_of(d);
    lemma_le_bound(le_of(d));
}

/// When the scale is `-m` with `m` at least the cap, nothing rounds above zero.
proof fn lemma_capped_scale_rounds_to_zero(d: Seq<char>, m: int)
    requires
        all_digits(d),
        d.len() <= usize::MAX,
        m >= exp_cap(),
    ensures
        !(digits_value(d) * p2(1075) > p10(m as nat)),
{
    let n = d.len();
    lemma_digits_bound(d);
    lemma_digits_value_nonneg(d);
    lemma_p2_le_p10(1075);
    lemma_p10_add(n, 1075);
    lemma_p10_positive(1075);
    lemma_p10_mono(n + 1075, m as nat);
    let dv = digits_value(d);
    assert(dv * p2(1075) <= dv * p10(1075)) by (nonlinear_arith)
        requires
            dv >= 0,
            p2(1075) <= p10(1075),
    ;
    assert(dv * p10(1075) < p10(n) * p10(1075)) by (nonlinear_arith)
        requires
            dv < p10(n),
            p10(1075) >= 1,
    ;
}

/// The sign of a text, and the text after it.
fn sign_split(v: &Vec<char>) -> (r: (bool, Vec<char>))
    ensures
        (r.0, r.1@) == strip_sign(v@),
{
    let n = v.len();
    if n > 0 && (v[0] == '-' || v[0] == '+') {
        let rest = slice_range(v.as_slice(), 1, n);
        proof {
            assert(rest@ =~= v@.drop_first());
        }
        (v[0] == '-', rest)
    } else {
        let rest = slice_range(v.as_slice(), 0, n);
        proof {
            assert(rest@ =~= v@);
        }
        (false, rest)
    }
}

/// The exponent after the marker: its sign and its digits' value, capped.
fn exponent_of(t: &Vec<char>) -> (r: Option<(bool, u128)>)
    ensures
        match r {
            None => parse_exp(t@) is None,
            Some(x) => {
                let (ng, d) = strip_sign(t@);
                &&& parse_exp(t@) is Some
                &&& all_digits(d)
                &&& x.0 == ng
                &&& x.1 == min_cap(digits_value(d))
            },
        },
{
    let (ng, d) = sign_split(t);
    if d.len() == 0 || !all_digit_chars(&d) {
        return None;
    }
    let c = digits_capped(&d);
    Some((ng, c))
}

/// Whether `digits × 10^(±e − f)` rounds to a positive `f64`, given the
/// exponent `e` capped.
fn decide_decimal(d: &Vec<char>, f: usize, e_neg: bool, e_cap: u128, Ghost(e): Ghost<int>) -> (r: bool)
    requires
        all_digits(d@),
        f <= d@.len(),
        e >= 0,
        e_cap == min_cap(e),
    ensures
        r == decimal_above_zero(digits_value(d@) as nat, (if e_neg { -e } else { e }) - f),
{
    proof {
        lemma_digits_value_nonneg(d@);
    }
    if !any_nonzero_digit(d) {
        return false;
    }
    let cap: u128 = 0x10_0000_0000_0000_0000_0000_0000;
    let fl = f as u128;
    if !e_neg {
        if e_cap >= fl {
            return true;
        }
        let m = fl - e_cap;
        let r = scaled_exceeds(d, m);
        proof {
            assert(e == e_cap);
            let k = e - f;
            assert(k < 0);
            assert((-k) as nat == m as nat);
            assert((digits_value(d@) as nat) == digits_value(d@));
            assert(digits_value(d@) > 0);
            assert(r == (digits_value(d@) * p2(1075) > p10(m as nat)));
            assert(r == decimal_above_zero(digits_value(d@) as nat, k));
        }
        r
    } else {
        if e_cap >= cap {
            let n: usize = d.len();
            proof {
                assert(d@.len() == n);
                lemma_capped_scale_rounds_to_zero(d@, e + f);
                assert((-((-e) - f)) as nat == (e + f) as nat);
            }
            return false;
        }
        let m = fl + e_cap;
        if m == 0 {
            return true;
        }
        let r = scaled_exceeds(d, m);
        proof {
            assert(e == e_cap);
            let k = -e - f;
            assert((-k) as nat == m as nat);
            assert((digits_value(d@) as nat) == digits_value(d@));
            assert(digits_value(d@) > 0);
            assert(r == (digits_value(d@) * p2(1075) > p10(m as nat)));
            assert(r == decimal_above_zero(digits_value(d@) as nat, k));
        }
        r
    }
}

/// `s.parse::<f64>()` gives a number above zero (Rust's float grammar:
/// sign, `inf`/`infinity`/`nan` in any case, or digits with an optional
/// `.` and exponent), decided without floating point.
pub fn text_is_positive_f64(s: &str) -> (r: bool)
    ensures
        r == f64_text_positive(s@),
{
    let all = chars_of(s);
    let (neg, b) = sign_split(&all);
    let lb = lower_chars(b.as_slice());
    let inf = chars_of("inf");
    let infinity = chars_of("infinity");
    let nan = chars_of("nan");
    if chars_eq(lb.as_slice(), inf.as_slice()) || chars_eq(lb.as_slice(), infinity.as_slice()) {
        return !neg;
    }
    if chars_eq(lb.as_slice(), nan.as_slice()) {
        return false;
    }
    if neg {
        return false;
    }
    let i = marker_index(&b);
    let mant = slice_range(b.as_slice(), 0, i);
    let mut e_neg = false;
    let mut e_cap: u128 = 0;
    let ghost mut e: int = 0;
    if i < b.len() {
        let t = slice_range(b.as_slice(), i + 1, b.len());
        match exponent_of(&t) {
            None => {
                return false;
            },
            Some(x) => {
                e_neg = x.0;
                e_cap = x.1;
                proof {
                    e = digits_value(strip_sign(t@).1);
                    lemma_digits_value_nonneg(strip_sign(t@).1);
                }
            },
        }
    }
    let dot = dot_index(&mant);
    let int_part = slice_range(mant.as_slice(), 0, dot);
    let frac = if dot < mant.len() {
        slice_range(mant.as_slice(), dot + 1, mant.len())
    } else {
        Vec::new()
    };
    if !all_digit_chars(&int_part) || !all_digit_chars(&frac) || (int_part.len() == 0 && frac.len() == 0) {
        return false;
    }
    let digits = concat_chars(int_part.as_slice(), frac.as_slice());
    decide_decimal(&digits, frac.len(), e_neg, e_cap, Ghost(e))
}

} // verus!
