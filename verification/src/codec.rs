//! Byte and text encodings: hexadecimal, URL percent-encoding, MD5 and Base64.
use vstd::prelude::*;
use vstd::string::*;
use vstd::utf8::*;
use crate::text::{trim, trim_str, string_from_chars};

verus! {

/// Upper-case hexadecimal digit for `n < 16`.
pub open spec fn hex_digit_upper(n: u8) -> char {
    if n < 10 {
        ((48 + n) as u8) as char
    } else {
        ((55 + n) as u8) as char
    }
}

/// Lower-case hexadecimal digit for `n < 16`.
pub open spec fn hex_digit_lower(n: u8) -> char {
    if n < 10 {
        ((48 + n) as u8) as char
    } else {
        ((87 + n) as u8) as char
    }
}

/// Each byte as two upper-case hexadecimal digits (`{:02X}`).
pub open spec fn upper_hex(b: Seq<u8>) -> Seq<char>
    decreases b.len(),
{
    if b.len() == 0 {
        seq![]
    } else {
        seq![hex_digit_upper(b[0] / 16), hex_digit_upper(b[0] % 16)] + upper_hex(b.drop_first())
    }
}

/// Each byte as two lower-case hexadecimal digits (`{:02x}`).
pub open spec fn lower_hex(b: Seq<u8>) -> Seq<char>
    decreases b.len(),
{
    if b.len() == 0 {
        seq![]
    } else {
        seq![hex_digit_lower(b[0] / 16), hex_digit_lower(b[0] % 16)] + lower_hex(b.drop_first())
    }
}

/// The value of an ASCII hexadecimal digit (`char::to_digit(16)`).
pub open spec fn hex_value(c: u8) -> Option<u8> {
    if 48 <= c && c <= 57 {
        Some((c - 48) as u8)
    } else if 97 <= c && c <= 102 {
        Some((c - 87) as u8)
    } else if 65 <= c && c <= 70 {
        Some((c - 55) as u8)
    } else {
        None
    }
}

/// The byte that two hexadecimal digits stand for.
pub open spec fn hex_pair(hi: u8, lo: u8) -> Option<u8> {
    match (hex_value(hi), hex_value(lo)) {
        (Some(h), Some(l)) => Some((h * 16 + l) as u8),
        _ => None,
    }
}

/// Hexadecimal digit pairs decoded from the front.
pub open spec fn hex_decode(b: Seq<u8>) -> Option<Seq<u8>>
    decreases b.len(),
{
    if b.len() == 0 {
        Some(seq![])
    } else if b.len() == 1 {
        None
    } else {
        match (hex_pair(b[0], b[1]), hex_decode(b.skip(2))) {
            (Some(v), Some(rest)) => Some(seq![v] + rest),
            _ => None,
        }
    }
}

/// What `hex_string_to_bytes` gives for a text.
pub open spec fn hex_text_bytes(s: Seq<char>) -> Option<Seq<u8>> {
    let t = encode_utf8(trim(s));
    if t.len() == 0 || t.len() % 2 != 0 {
        None
    } else {
        hex_decode(t)
    }
}

pub open spec fn is_unreserved(b: u8) -> bool {
    (65 <= b && b <= 90) || (97 <= b && b <= 122) || (48 <= b && b <= 57) || b == 45 || b == 95
        || b == 46 || b == 126
}

/// The percent-encoding of one byte.
pub open spec fn url_encode_byte(b: u8) -> Seq<char> {
    if is_unreserved(b) {
        seq![b as char]
    } else if b == 32 {
        seq!['%', '2', '0']
    } else {
        seq!['%', hex_digit_upper(b / 16), hex_digit_upper(b % 16)]
    }
}

/// The percent-encoding of a byte string.
pub open spec fn url_encoded(b: Seq<u8>) -> Seq<char>
    decreases b.len(),
{
    if b.len() == 0 {
        seq![]
    } else {
        url_encode_byte(b[0]) + url_encoded(b.drop_first())
    }
}

/// Percent-decoding of a byte string; each resulting byte becomes the `char`
/// with that code (`byte as char`).
pub open spec fn pct_decode(b: Seq<u8>) -> Seq<char>
    decreases b.len(),
{
    if b.len() == 0 {
        seq![]
    } else if b[0] == 37 && 2 < b.len() {
        let c = match hex_pair(b[1], b[2]) {
            Some(v) => v as char,
            None => '%',
        };
        seq![c] + pct_decode(b.skip(3))
    } else if b[0] == 43 {
        seq![' '] + pct_decode(b.skip(1))
    } else {
        seq![b[0] as char] + pct_decode(b.skip(1))
    }
}

/// The MD5 digest of a byte string.
pub uninterp spec fn md5_digest(data: Seq<u8>) -> Seq<u8>;

/// The character of a 6-bit value in the standard Base64 alphabet
/// (`A-Z`, `a-z`, `0-9`, `+`, `/`).
pub open spec fn base64_digit(n: int) -> char {
    if n < 26 {
        (65 + n) as char
    } else if n < 52 {
        (71 + n) as char
    } else if n < 62 {
        (n - 4) as char
    } else if n == 62 {
        '+'
    } else {
        '/'
    }
}

/// The standard-alphabet, padded Base64 text of a byte string (RFC 4648):
/// each group of three bytes becomes four characters; a last group of one
/// or two bytes is padded with `=`.
pub open spec fn base64_standard(data: Seq<u8>) -> Seq<char>
    decreases data.len(),
{
    if data.len() == 0 {
        seq![]
    } else if data.len() == 1 {
        let a = data[0] as int;
        seq![base64_digit(a / 4), base64_digit((a % 4) * 16), '=', '=']
    } else if data.len() == 2 {
        let a = data[0] as int;
        let b = data[1] as int;
        seq![base64_digit(a / 4), base64_digit((a % 4) * 16 + b / 16), base64_digit((b % 16) * 4), '=']
    } else {
        let a = data[0] as int;
        let b = data[1] as int;
        let c = data[2] as int;
        seq![
            base64_digit(a / 4),
            base64_digit((a % 4) * 16 + b / 16),
            base64_digit((b % 16) * 4 + c / 64),
            base64_digit(c % 64),
        ] + base64_standard(data.skip(3))
    }
}

/// What standard, padded Base64 decoding makes of a text.
pub uninterp spec fn base64_standard_decode(text: Seq<char>) -> Option<Seq<u8>>;

/// A character of the standard Base64 alphabet, or the `=` of padding.
pub open spec fn is_base64_char(c: char) -> bool {
    ('A' <= c && c <= 'Z') || ('a' <= c && c <= 'z') || ('0' <= c && c <= '9') || c == '+' || c == '/'
        || c == '='
}

/// `md5::compute`: the 16 digest bytes of `data`. What the digest is is not
/// stated; the contract names it `md5_digest` of the input bytes.
#[verifier::external_body]
pub(crate) fn md5_compute(data: &[u8]) -> (r: [u8; 16])
    ensures
        r@ == md5_digest(data@),
{
    md5::compute(data).0
}

/// `base64::engine::general_purpose::STANDARD.encode`: the standard,
/// padded Base64 text of the bytes (`base64_standard`), made of the
/// standard alphabet and `=` padding, which the same engine decodes back to
/// the bytes.
#[verifier::external_body]
pub(crate) fn base64_encode(data: &[u8]) -> (s: String)
    ensures
        s@ == base64_standard(data@),
        forall|i: int| 0 <= i < s@.len() ==> is_base64_char(#[trigger] s@[i]),
        base64_standard_decode(s@) == Some(data@),
{
    base64::Engine::encode(&base64::engine::general_purpose::STANDARD, data)
}

pub fn upper_digit(n: u8) -> (c: char)
    requires
        n < 16,
    ensures
        c == hex_digit_upper(n),
{
    if n < 10 {
        (48u8 + n) as char
    } else {
        (55u8 + n) as char
    }
}

pub fn lower_digit(n: u8) -> (c: char)
    requires
        n < 16,
    ensures
        c == hex_digit_lower(n),
{
    if n < 10 {
        (48u8 + n) as char
    } else {
        (87u8 + n) as char
    }
}

/// Bytes as upper-case hexadecimal text.
pub fn bytes_to_upper_hex(input: &[u8]) -> (r: String)
    ensures
        r@ == upper_hex(input@),
{
    let mut out: Vec<char> = Vec::new();
    let mut i: usize = 0;
    proof {
        assert(input@.skip(0) =~= input@);
    }
    while i < input.len()
        invariant
            i <= input@.len(),
            upper_hex(input@) == out@ + upper_hex(input@.skip(i as int)),
        decreases input@.len() - i,
    {
        let b = input[i];
        proof {
            let rest = input@.skip(i as int);
            assert(rest[0] == b);
            assert(rest.drop_first() =~= input@.skip(i + 1));
        }
        out.push(upper_digit(b / 16));
        out.push(upper_digit(b % 16));
        i = i + 1;
    }
    proof {
        assert(input@.skip(i as int) =~= Seq::<u8>::empty());
        assert(out@ + Seq::<char>::empty() =~= out@);
    }
    string_from_chars(out.as_slice())
}

/// Bytes as lower-case hexadecimal text.
pub fn bytes_to_lower_hex(input: &[u8]) -> (r: String)
    ensures
        r@ == lower_hex(input@),
{
    let mut out: Vec<char> = Vec::new();
    let mut i: usize = 0;
    proof {
        assert(input@.skip(0) =~= input@);
    }
    while i < input.len()
        invariant
            i <= input@.len(),
            lower_hex(input@) == out@ + lower_hex(input@.skip(i as int)),
        decreases input@.len() - i,
    {
        let b = input[i];
        proof {
            let rest = input@.skip(i as int);
            assert(rest[0] == b);
            assert(rest.drop_first() =~= input@.skip(i + 1));
        }
        out.push(lower_digit(b / 16));
        out.push(lower_digit(b % 16));
        i = i + 1;
    }
    proof {
        assert(input@.skip(i as int) =~= Seq::<u8>::empty());
        assert(out@ + Seq::<char>::empty() =~= out@);
    }
    string_from_chars(out.as_slice())
}

pub fn hex_digit_value(c: u8) -> (r: Option<u8>)
    ensures
        r == hex_value(c),
{
    if 48 <= c && c <= 57 {
        Some(c - 48)
    } else if 97 <= c && c <= 102 {
        Some(c - 87)
    } else if 65 <= c && c <= 70 {
        Some(c - 55)
    } else {
        None
    }
}

/// The byte that two ASCII hexadecimal digits stand for.
pub fn decode_hex_pair(hi: u8, lo: u8) -> (r: Option<u8>)
    ensures
        r == hex_pair(hi, lo),
{
    match (hex_digit_value(hi), hex_digit_value(lo)) {
        (Some(h), Some(l)) => Some(h * 16 + l),
        _ => None,
    }
}

/// Text of hexadecimal digit pairs (surrounding white space ignored) to bytes;
/// `None` when empty, of odd length or not hexadecimal.
pub fn hex_string_to_bytes(input: &str) -> (r: Option<Vec<u8>>)
    ensures
        match r {
            Some(v) => hex_text_bytes(input@) == Some(v@),
            None => hex_text_bytes(input@) is None,
        },
{
    let trimmed = trim_str(input);
    let raw = trimmed.as_str().as_bytes();
    if raw.len() == 0 || raw.len() % 2 != 0 {
        return None;
    }
    let mut bytes: Vec<u8> = Vec::new();
    let mut index: usize = 0;
    proof {
        assert(raw@.skip(0) =~= raw@);
        assert(Seq::<u8>::empty() + raw@ =~= raw@);
    }
    while index < raw.len()
        invariant
            index <= raw@.len(),
            raw@.len() % 2 == 0,
            index % 2 == 0,
            raw@ == encode_utf8(trim(input@)),
            hex_decode(raw@) == match hex_decode(raw@.skip(index as int)) {
                Some(rest) => Some(bytes@ + rest),
                None => None::<Seq<u8>>,
            },
        decreases raw@.len() - index,
    {
        let rest = Ghost(raw@.skip(index as int));
        proof {
            assert(rest@.len() >= 2);
            assert(rest@.skip(2) =~= raw@.skip(index + 2));
            assert(rest@[0] == raw@[index as int]);
            assert(rest@[1] == raw@[index + 1]);
        }
        match decode_hex_pair(raw[index], raw[index + 1]) {
            Some(v) => {
                proof {
                    match hex_decode(raw@.skip(index + 2)) {
                        Some(r2) => {
                            assert(bytes@ + (seq![v] + r2) =~= bytes@.push(v) + r2);
                        },
                        None => {},
                    }
                }
                bytes.push(v);
            },
            None => {
                return None;
            },
        }
        index = index + 2;
    }
    proof {
        assert(raw@.skip(index as int) =~= Seq::<u8>::empty());
        assert(bytes@ + Seq::<u8>::empty() =~= bytes@);
    }
    Some(bytes)
}

pub fn is_unreserved_byte(b: u8) -> (r: bool)
    ensures
        r == is_unreserved(b),
{
    (65 <= b && b <= 90) || (97 <= b && b <= 122) || (48 <= b && b <= 57) || b == 45 || b == 95
        || b == 46 || b == 126
}

/// Percent-encoding of the UTF-8 bytes of `input`, keeping `A-Z a-z 0-9 - _ . ~`.
pub fn url_encode(input: &str) -> (r: String)
    ensures
        r@ == url_encoded(encode_utf8(input@)),
{
    let bytes = input.as_bytes();
    let mut out: Vec<char> = Vec::new();
    let mut i: usize = 0;
    proof {
        assert(bytes@.skip(0) =~= bytes@);
    }
    while i < bytes.len()
        invariant
            i <= bytes@.len(),
            bytes@ == encode_utf8(input@),
            url_encoded(bytes@) == out@ + url_encoded(bytes@.skip(i as int)),
        decreases bytes@.len() - i,
    {
        let b = bytes[i];
        let ghost before = out@;
        proof {
            let rest = bytes@.skip(i as int);
            assert(rest[0] == b);
            assert(rest.drop_first() =~= bytes@.skip(i + 1));
        }
        if is_unreserved_byte(b) {
            out.push(b as char);
        } else if b == 32 {
            out.push('%');
            out.push('2');
            out.push('0');
        } else {
            out.push('%');
            out.push(upper_digit(b / 16));
            out.push(upper_digit(b % 16));
        }
        proof {
            assert(out@ =~= before + url_encode_byte(b));
            assert(before + (url_encode_byte(b) + url_encoded(bytes@.skip(i + 1))) =~= out@
                + url_encoded(bytes@.skip(i + 1)));
        }
        i = i + 1;
    }
    proof {
        assert(bytes@.skip(i as int) =~= Seq::<u8>::empty());
        assert(out@ + Seq::<char>::empty() =~= out@);
    }
    string_from_chars(out.as_slice())
}

/// Percent-decoding: `%XX` to the byte's character (a malformed `%XX` keeps
/// the `%` and drops the two following bytes), `+` to a space, any other byte
/// to the character with that code.
pub fn percent_decode(input: &str) -> (r: String)
    ensures
        r@ == pct_decode(encode_utf8(input@)),
{
    let bytes = input.as_bytes();
    let mut out: Vec<char> = Vec::new();
    let mut index: usize = 0;
    proof {
        assert(bytes@.skip(0) =~= bytes@);
    }
    while index < bytes.len()
        invariant
            index <= bytes@.len(),
            bytes@ == encode_utf8(input@),
            pct_decode(bytes@) == out@ + pct_decode(bytes@.skip(index as int)),
        decreases bytes@.len() - index,
    {
        let b = bytes[index];
        let ghost before = out@;
        let ghost rest = bytes@.skip(index as int);
        proof {
            assert(rest[0] == b);
        }
        if b == 37 && bytes.len() - index > 2 {
            let hi = bytes[index + 1];
            let lo = bytes[index + 2];
            proof {
                assert(rest[1] == hi);
                assert(rest[2] == lo);
                assert(rest.skip(3) =~= bytes@.skip(index + 3));
            }
            let decoded = match decode_hex_pair(hi, lo) {
                Some(v) => v as char,
                None => '%',
            };
            out.push(decoded);
            proof {
                assert(before + (seq![decoded] + pct_decode(bytes@.skip(index + 3))) =~= out@
                    + pct_decode(bytes@.skip(index + 3)));
            }
            index = index + 3;
        } else if b == 43 {
            out.push(' ');
            proof {
                assert(rest.skip(1) =~= bytes@.skip(index + 1));
                assert(before + (seq![' '] + pct_decode(bytes@.skip(index + 1))) =~= out@
                    + pct_decode(bytes@.skip(index + 1)));
            }
            index = index + 1;
        } else {
            out.push(b as char);
            proof {
                assert(rest.skip(1) =~= bytes@.skip(index + 1));
                assert(before + (seq![b as char] + pct_decode(bytes@.skip(index + 1))) =~= out@
                    + pct_decode(bytes@.skip(index + 1)));
            }
            index = index + 1;
        }
    }
    proof {
        assert(bytes@.skip(index as int) =~= Seq::<u8>::empty());
        assert(out@ + Seq::<char>::empty() =~= out@);
    }
    string_from_chars(out.as_slice())
}

/// The codes of characters taken as bytes.
pub open spec fn char_codes(cs: Seq<char>) -> Seq<u8> {
    cs.map_values(|c: char| c as u8)
}

/// The characters with the codes of bytes.
pub open spec fn byte_chars(b: Seq<u8>) -> Seq<char> {
    b.map_values(|x: u8| x as char)
}

proof fn lemma_url_encoded_ascii(b: Seq<u8>)
    ensures
        is_ascii_chars(url_encoded(b)),
    decreases b.len(),
{
    if b.len() > 0 {
        lemma_url_encoded_ascii(b.drop_first());
        let e = url_encode_byte(b[0]);
        let r = url_encoded(b.drop_first());
        let t = url_encoded(b);
        assert(t =~= e + r);
        assert forall|i: int| 0 <= i < t.len() implies '\0' <= #[trigger] t[i] <= '\u{7f}' by {
            if i >= e.len() {
                assert(t[i] == r[i - e.len()]);
            }
        }
    }
}

proof fn lemma_upper_digit_value(n: u8)
    requires
        n < 16,
    ensures
        hex_value(hex_digit_upper(n) as u8) == Some(n),
{
}

/// Percent-decoding the codes of a percent-encoding gives back each byte,
/// as the character with that code.
proof fn lemma_pct_decode_of_encoded(b: Seq<u8>)
    ensures
        pct_decode(char_codes(url_encoded(b))) == byte_chars(b),
    decreases b.len(),
{
    if b.len() > 0 {
        let b0 = b[0];
        let rest = b.drop_first();
        lemma_pct_decode_of_encoded(rest);
        let e = url_encode_byte(b0);
        let tail = char_codes(url_encoded(rest));
        let x = char_codes(url_encoded(b));
        assert(url_encoded(b) =~= e + url_encoded(rest));
        assert(x =~= char_codes(e) + tail);
        assert(byte_chars(b) =~= seq![b0 as char] + byte_chars(rest));
        if is_unreserved(b0) {
            assert(char_codes(e) =~= seq![b0]);
            assert(x.skip(1) =~= tail);
            assert(x[0] == b0);
        } else if b0 == 32 {
            assert(char_codes(e) =~= seq![37u8, 50u8, 48u8]);
            assert(x.skip(3) =~= tail);
            assert(x[0] == 37 && x[1] == 50 && x[2] == 48);
            assert(hex_pair(50, 48) == Some(32u8));
        } else {
            let hi = b0 / 16;
            let lo = b0 % 16;
            lemma_upper_digit_value(hi);
            lemma_upper_digit_value(lo);
            assert(char_codes(e) =~= seq![37u8, hex_digit_upper(hi) as u8, hex_digit_upper(lo) as u8]);
            assert(x.skip(3) =~= tail);
            assert(x[0] == 37);
            assert(x[1] == hex_digit_upper(hi) as u8);
            assert(x[2] == hex_digit_upper(lo) as u8);
            assert(hex_pair(x[1], x[2]) == Some(b0));
        }
    } else {
        assert(char_codes(url_encoded(b)) =~= Seq::<u8>::empty());
        assert(byte_chars(b) =~= Seq::<char>::empty());
    }
}

/// Percent-decoding undoes percent-encoding on ASCII text:
/// `percent_decode(&url_encode(s)) == s`.
pub proof fn law_percent_round_trip(s: Seq<char>)
    requires
        is_ascii_chars(s),
    ensures
        pct_decode(encode_utf8(url_encoded(encode_utf8(s)))) == s,
{
    let b = encode_utf8(s);
    let t = url_encoded(b);
    lemma_url_encoded_ascii(b);
    is_ascii_chars_encode_utf8(t);
    assert(encode_utf8(t) =~= char_codes(t));
    lemma_pct_decode_of_encoded(b);
    is_ascii_chars_encode_utf8(s);
    assert forall|i: int| 0 <= i < s.len() implies byte_chars(b)[i] == s[i] by {
        assert(s[i] as u8 == b[i]);
        assert('\0' <= s[i] <= '\u{7f}');
    }
    assert(byte_chars(b) =~= s);
}

/// Lower-case hexadecimal MD5 digest of the UTF-8 bytes of `value` (`format!("{:x}", md5::compute(..))`).
pub fn md5_hex(value: &str) -> (r: String)
    ensures
        r@ == lower_hex(md5_digest(encode_utf8(value@))),
{
    let digest = md5_compute(value.as_bytes());
    bytes_to_lower_hex(&digest)
}


/// A 32-byte seed: the MD5 digests of two texts, one after the other.
pub open spec fn md5_seed(a: Seq<char>, b: Seq<char>) -> Seq<u8> {
    md5_digest(encode_utf8(a)) + md5_digest(encode_utf8(b))
}

pub fn seed_of(a: &str, b: &str) -> (r: Vec<u8>)
    ensures
        r@ == md5_seed(a@, b@),
        r@.len() == 32,
{
    let left = md5_compute(a.as_bytes());
    let right = md5_compute(b.as_bytes());
    let mut seed: Vec<u8> = Vec::new();
    let mut i: usize = 0;
    while i < 16
        invariant
            i <= 16,
            left@.len() == 16,
            seed@ == left@.take(i as int),
        decreases 16 - i,
    {
        seed.push(left[i]);
        proof {
            assert(left@.take(i + 1) =~= left@.take(i as int).push(left@[i as int]));
        }
        i = i + 1;
    }
    let mut j: usize = 0;
    while j < 16
        invariant
            j <= 16,
            left@.len() == 16,
            right@.len() == 16,
            seed@ == left@ + right@.take(j as int),
        decreases 16 - j,
    {
        seed.push(right[j]);
        proof {
            assert(left@ + right@.take(j + 1) =~= (left@ + right@.take(j as int)).push(right@[j as int]));
        }
        j = j + 1;
    }
    proof {
        assert(left@.take(16) =~= left@);
        assert(right@.take(16) =~= right@);
    }
    seed
}

} // verus!
