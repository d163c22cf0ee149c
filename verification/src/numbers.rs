//! Decimal numbers as text: parsing (`u64`/`i64` `FromStr`), printing
//! (`Display`).
use vstd::prelude::*;
use crate::text::{chars_of, string_from_chars};

verus! {

pub open spec fn is_digit(c: char) -> bool {
    '0' <= c && c <= '9'
}

pub open spec fn digit_value(c: char) -> int {
    (c as int) - 48
}

pub open spec fn all_digits(d: Seq<char>) -> bool {
    forall|i: int| 0 <= i < d.len() ==> is_digit(#[trigger] d[i])
}

/// The number that a string of decimal digits stands for.
pub open spec fn digits_value(d: Seq<char>) -> int
    decreases d.len(),
{
    if d.len() == 0 {
        0
    } else {
        digits_value(d.drop_last()) * 10 + digit_value(d.last())
    }
}

/// The digits after an optional leading `+`.
pub open spec fn unsigned_digits(s: Seq<char>) -> Seq<char> {
    if s.len() > 0 && s[0] == '+' {
        s.drop_first()
    } else {
        s
    }
}

/// What `str::parse::<u64>` gives.
pub open spec fn parse_u64(s: Seq<char>) -> Option<u64> {
    let d = unsigned_digits(s);
    if d.len() > 0 && all_digits(d) && digits_value(d) <= u64::MAX {
        Some(digits_value(d) as u64)
    } else {
        None
    }
}

/// What `str::parse::<i64>` gives.
pub open spec fn parse_i64(s: Seq<char>) -> Option<i64> {
    if s.len() > 0 && s[0] == '-' {
        let d = s.drop_first();
        if d.len() > 0 && all_digits(d) && digits_value(d) <= 0x8000_0000_0000_0000 {
            Some((-digits_value(d)) as i64)
        } else {
            None
        }
    } else {
        let d = unsigned_digits(s);
        if d.len() > 0 && all_digits(d) && digits_value(d) <= i64::MAX {
            Some(digits_value(d) as i64)
        } else {
            None
        }
    }
}

pub open spec fn digit_char(n: int) -> char {
    ((48 + n) as u8) as char
}

/// Decimal digits of a natural number, without leading zeros.
pub open spec fn nat_text(n: nat) -> Seq<char>
    decreases n,
{
    if n < 10 {
        seq![digit_char(n as int)]
    } else {
        nat_text((n / 10) as nat).push(digit_char((n % 10) as int))
    }
}

/// What `Display` prints for an integer.
pub open spec fn int_text(n: int) -> Seq<char> {
    if n < 0 {
        seq!['-'] + nat_text((-n) as nat)
    } else {
        nat_text(n as nat)
    }
}

pub proof fn lemma_digits_value_prefix(d: Seq<char>, k: int)
    requires
        all_digits(d),
        0 <= k <= d.len(),
    ensures
        digits_value(d) >= digits_value(d.subrange(0, k)),
        digits_value(d.subrange(0, k)) >= 0,
    decreases d.len(),
{
    if d.len() == 0 {
        assert(d.subrange(0, k) =~= d);
    } else if k == d.len() {
        assert(d.subrange(0, k) =~= d);
        lemma_digits_value_nonneg(d);
    } else {
        let p = d.drop_last();
        assert(all_digits(p)) by {
            assert forall|i: int| 0 <= i < p.len() implies is_digit(#[trigger] p[i]) by {
                assert(p[i] == d[i]);
            }
        }
        lemma_digits_value_prefix(p, k);
        assert(p.subrange(0, k) =~= d.subrange(0, k));
        lemma_digits_value_nonneg(p);
        assert(is_digit(d[d.len() - 1]));
    }
}

pub proof fn lemma_digits_value_nonneg(d: Seq<char>)
    requires
        all_digits(d),
    ensures
        digits_value(d) >= 0,
    decreases d.len(),
{
    if d.len() > 0 {
        let p = d.drop_last();
        assert forall|i: int| 0 <= i < p.len() implies is_digit(#[trigger] p[i]) by {
            assert(p[i] == d[i]);
        }
        lemma_digits_value_nonneg(p);
        assert(is_digit(d[d.len() - 1]));
    }
}

/// Value of the decimal digits `d[from..]`, or `None` when one is not a digit
/// or the value exceeds `limit`.
pub fn digits_up_to(d: &[char], from: usize, limit: u64) -> (r: Option<u64>)
    requires
        from <= d@.len(),
    ensures
        ({
            let t = d@.subrange(from as int, d@.len() as int);
            match r {
                Some(v) => all_digits(t) && digits_value(t) <= limit && v == digits_value(t),
                None => !all_digits(t) || digits_value(t) > limit,
            }
        }),
{
    let ghost t = d@.subrange(from as int, d@.len() as int);
    let mut acc: u64 = 0;
    let mut i: usize = from;
    while i < d.len()
        invariant
            from <= i <= d@.len(),
            t == d@.subrange(from as int, d@.len() as int),
            all_digits(t.subrange(0, i - from)),
            acc == digits_value(t.subrange(0, i - from)),
            acc <= limit,
        decreases d@.len() - i,
    {
        let c = d[i];
        proof {
            assert(t[i - from] == c);
        }
        if !('0' <= c && c <= '9') {
            assert(!is_digit(t[i - from]));
            return None;
        }
        let dv = (c as u32 - 48) as u64;
        let ghost p = t.subrange(0, i - from + 1);
        proof {
            assert(p.drop_last() =~= t.subrange(0, i - from));
            assert(p.last() == c);
            assert(all_digits(p)) by {
                assert forall|k: int| 0 <= k < p.len() implies is_digit(#[trigger] p[k]) by {
                    if k < p.len() - 1 {
                        assert(p[k] == t.subrange(0, i - from)[k]);
                    }
                }
            }
        }
        match acc.checked_mul(10) {
            Some(m) => match m.checked_add(dv) {
                Some(n) => {
                    if n > limit {
                        proof {
                            if all_digits(t) {
                                lemma_digits_value_prefix(t, i - from + 1);
                            }
                        }
                        return None;
                    }
                    acc = n;
                },
                None => {
                    proof {
                        if all_digits(t) {
                            lemma_digits_value_prefix(t, i - from + 1);
                        }
                    }
                    return None;
                },
            },
            None => {
                proof {
                    if all_digits(t) {
                        lemma_digits_value_prefix(t, i - from + 1);
                    }
                }
                return None;
            },
        }
        i = i + 1;
    }
    proof {
        assert(t.subrange(0, i - from) =~= t);
    }
    Some(acc)
}

/// `str::parse::<u64>`.
pub fn parse_u64_str(s: &str) -> (r: Option<u64>)
    ensures
        r == parse_u64(s@),
{
    let d = chars_of(s);
    let from: usize = if d.len() > 0 && d[0] == '+' { 1 } else { 0 };
    proof {
        assert(d@.subrange(from as int, d@.len() as int) =~= unsigned_digits(s@));
    }
    if from >= d.len() {
        return None;
    }
    digits_up_to(d.as_slice(), from, u64::MAX)
}

/// `str::parse::<i64>`.
pub fn parse_i64_str(s: &str) -> (r: Option<i64>)
    ensures
        r == parse_i64(s@),
{
    let d = chars_of(s);
    if d.len() > 0 && d[0] == '-' {
        proof {
            assert(d@.subrange(1, d@.len() as int) =~= s@.drop_first());
        }
        if d.len() < 2 {
            return None;
        }
        match digits_up_to(d.as_slice(), 1, 0x8000_0000_0000_0000) {
            Some(m) => {
                if m == 0x8000_0000_0000_0000 {
                    Some(i64::MIN)
                } else {
                    Some(-(m as i64))
                }
            },
            None => None,
        }
    } else {
        let from: usize = if d.len() > 0 && d[0] == '+' { 1 } else { 0 };
        proof {
            assert(d@.subrange(from as int, d@.len() as int) =~= unsigned_digits(s@));
        }
        if from >= d.len() {
            return None;
        }
        match digits_up_to(d.as_slice(), from, 0x7fff_ffff_ffff_ffff) {
            Some(m) => Some(m as i64),
            None => None,
        }
    }
}

fn nat_digits(n: u128) -> (r: Vec<char>)
    ensures
        r@ == nat_text(n as nat),
    decreases n,
{
    let d = ((n % 10) as u8 + 48u8) as char;
    if n < 10 {
        let mut v: Vec<char> = Vec::new();
        v.push(d);
        proof {
            assert(v@ =~= seq![digit_char(n as int)]);
        }
        v
    } else {
        let mut v = nat_digits(n / 10);
        v.push(d);
        v
    }
}

/// `u64` printed in decimal.
pub fn u64_to_text(n: u64) -> (r: String)
    ensures
        r@ == nat_text(n as nat),
{
    let v = nat_digits(n as u128);
    string_from_chars(v.as_slice())
}

/// `u128` printed in decimal.
pub fn u128_to_text(n: u128) -> (r: String)
    ensures
        r@ == nat_text(n as nat),
{
    let v = nat_digits(n);
    string_from_chars(v.as_slice())
}

/// `i64` printed in decimal.
pub fn i64_to_text(n: i64) -> (r: String)
    ensures
        r@ == int_text(n as int),
{
    if n < 0 {
        let m: u64 = (0i128 - (n as i128)) as u64;
        let v = nat_digits(m as u128);
        let mut out: Vec<char> = Vec::new();
        out.push('-');
        let mut k: usize = 0;
        while k < v.len()
            invariant
                k <= v@.len(),
                out@ == seq!['-'] + v@.subrange(0, k as int),
            decreases v@.len() - k,
        {
            out.push(v[k]);
            proof {
                assert(seq!['-'] + v@.subrange(0, k + 1) =~= (seq!['-'] + v@.subrange(0, k as int)).push(v@[k as int]));
            }
            k = k + 1;
        }
        proof {
            assert(v@.subrange(0, v@.len() as int) =~= v@);
        }
        string_from_chars(out.as_slice())
    } else {
        u64_to_text(n as u64)
    }
}

} // verus!
