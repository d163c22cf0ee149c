//! The QingWear encrypted gateway: a request is an envelope `{p,m,b,t,n}`
//! encrypted with AES-256-CBC (PKCS#7) under a fixed key and sent as
//! `{"d": base64(IV ‖ ciphertext)}`; a reply comes back the same way and
//! carries `{code,message,data,success}`.
use vstd::prelude::*;
use vstd::utf8::{encode_utf8, valid_utf8, decode_utf8, encode_utf8_valid_utf8, encode_utf8_decode_utf8};
use cbc::cipher::{KeyIvInit, BlockEncryptMut, BlockDecryptMut};
use rand_core::{RngCore, SeedableRng};
use crate::text::{trim, upper, trim_str, upper_str, concat_str};
use crate::numbers::{nat_text, int_text, u64_to_text, u128_to_text, i64_to_text};
use crate::codec::{md5_digest, md5_seed, seed_of, base64_standard, base64_standard_decode, is_base64_char, base64_encode,
    lower_hex, bytes_to_lower_hex};
use crate::json::{JsonValue, Jv, jv, jv_entries, json_get, json_as_i64, json_as_str, json_as_bool, put, j_str,
    j_object, take_member};

verus! {

// ----------------------------------------------------------------------------
// Outside computations.
/// AES-256-CBC encryption with PKCS#7 padding of `data` under `key` and `iv`.
pub uninterp spec fn aes256_cbc_encrypt(key: Seq<u8>, iv: Seq<u8>, data: Seq<u8>) -> Seq<u8>;

/// AES-256-CBC decryption with PKCS#7 unpadding; `None` when the input is
/// not whole blocks or the padding is malformed.
pub uninterp spec fn aes256_cbc_decrypt(key: Seq<u8>, iv: Seq<u8>, data: Seq<u8>) -> Option<Seq<u8>>;

/// The first 16 bytes a ChaCha20 generator seeded with `seed` gives.
pub uninterp spec fn chacha20_first16(seed: Seq<u8>) -> Seq<u8>;

/// `cbc::Encryptor::<aes::Aes256>::new_from_slices` followed by
/// `encrypt_padded_vec_mut::<Pkcs7>`. The key and IV lengths make the
/// construction succeed; the ciphertext is named, and what is stated of it
/// is its length (PKCS#7 always pads to the next whole 16-byte block) and
/// that decrypting it with the same key and IV (and unpadding) gives the
/// input back.
#[verifier::external_body]
fn aes_cbc_encrypt(key: &[u8], iv: &[u8], data: &[u8]) -> (r: Vec<u8>)
    requires
        key@.len() == 32,
        iv@.len() == 16,
    ensures
        r@ == aes256_cbc_encrypt(key@, iv@, data@),
        r@.len() == 16 * (data@.len() / 16 + 1),
        aes256_cbc_decrypt(key@, iv@, r@) == Some(data@),
{
    match cbc::Encryptor::<aes::Aes256>::new_from_slices(key, iv) {
        Ok(c) => c.encrypt_padded_vec_mut::<cbc::cipher::block_padding::Pkcs7>(data),
        Err(_) => Vec::new(),
    }
}

/// `cbc::Decryptor::<aes::Aes256>::new_from_slices` followed by
/// `decrypt_padded_vec_mut::<Pkcs7>`; an unpadding error becomes `None`.
/// The plaintext is named, not stated.
#[verifier::external_body]
fn aes_cbc_decrypt(key: &[u8], iv: &[u8], data: &[u8]) -> (r: Option<Vec<u8>>)
    requires
        key@.len() == 32,
        iv@.len() == 16,
    ensures
        match r {
            Some(p) => aes256_cbc_decrypt(key@, iv@, data@) == Some(p@),
            None => aes256_cbc_decrypt(key@, iv@, data@) is None,
        },
{
    match cbc::Decryptor::<aes::Aes256>::new_from_slices(key, iv) {
        Ok(c) => match c.decrypt_padded_vec_mut::<cbc::cipher::block_padding::Pkcs7>(data) {
            Ok(p) => Some(p),
            Err(_) => None,
        },
        Err(_) => None,
    }
}

/// `base64::engine::general_purpose::STANDARD.decode`; a decode error
/// becomes `None`. The bytes are named, not stated.
#[verifier::external_body]
fn base64_decode(text: &str) -> (r: Option<Vec<u8>>)
    ensures
        match r {
            Some(b) => base64_standard_decode(text@) == Some(b@),
            None => base64_standard_decode(text@) is None,
        },
{
    match base64::Engine::decode(&base64::engine::general_purpose::STANDARD, text) {
        Ok(b) => Some(b),
        Err(_) => None,
    }
}

/// `rand_chacha::ChaCha20Rng::from_seed` followed by `fill_bytes` on 16
/// bytes: the bytes are named by the seed, not stated.
#[verifier::external_body]
fn chacha20_fill16(seed: &[u8]) -> (r: [u8; 16])
    requires
        seed@.len() == 32,
    ensures
        r@ == chacha20_first16(seed@),
{
    let mut s = [0u8; 32];
    s.copy_from_slice(seed);
    let mut rng = rand_chacha::ChaCha20Rng::from_seed(s);
    let mut out = [0u8; 16];
    rng.fill_bytes(&mut out);
    out
}

/// `String::from_utf8`: the text the bytes encode, when they are valid
/// UTF-8.
#[verifier::external_body]
fn utf8_string(bytes: Vec<u8>) -> (r: Option<String>)
    ensures
        r is Some <==> valid_utf8(bytes@),
        match r {
            Some(s) => s@ == decode_utf8(bytes@),
            None => true,
        },
{
    match String::from_utf8(bytes) {
        Ok(s) => Some(s),
        Err(_) => None,
    }
}

// ----------------------------------------------------------------------------
// Keys, seeds and nonces.
/// The gateway's fixed key, `qwov2024-api-encrypt-secret-key!`.
pub open spec fn gateway_key() -> Seq<u8> {
    seq![
        113u8, 119u8, 111u8, 118u8, 50u8, 48u8, 50u8, 52u8, 45u8, 97u8, 112u8, 105u8, 45u8, 101u8, 110u8, 99u8,
        114u8, 121u8, 112u8, 116u8, 45u8, 115u8, 101u8, 99u8, 114u8, 101u8, 116u8, 45u8, 107u8, 101u8, 121u8, 33u8,
    ]
}

fn gateway_key_bytes() -> (r: Vec<u8>)
    ensures
        r@ == gateway_key(),
        r@.len() == 32,
{
    let r: Vec<u8> = vec![
        113u8, 119u8, 111u8, 118u8, 50u8, 48u8, 50u8, 52u8, 45u8, 97u8, 112u8, 105u8, 45u8, 101u8, 110u8, 99u8,
        114u8, 121u8, 112u8, 116u8, 45u8, 115u8, 101u8, 99u8, 114u8, 101u8, 116u8, 45u8, 107u8, 101u8, 121u8, 33u8,
    ];
    proof {
        assert(r@ =~= gateway_key());
    }
    r
}

/// `"{a}-{b}-{tag}"`.
pub open spec fn dashed(a: Seq<char>, b: Seq<char>, tag: Seq<char>) -> Seq<char> {
    a + "-"@ + b + "-"@ + tag
}

fn dashed_text(a: &str, b: &str, tag: &str) -> (r: String)
    ensures
        r@ == dashed(a@, b@, tag@),
{
    let x = concat_str(a, "-");
    let y = concat_str(x.as_str(), b);
    let z = concat_str(y.as_str(), "-");
    concat_str(z.as_str(), tag)
}

/// The seed of an envelope's IV: from the time in nanoseconds and a counter.
pub open spec fn iv_seed(nanos: nat, counter: nat) -> Seq<u8> {
    md5_seed(
        dashed(nat_text(nanos), nat_text(counter), "iv"@),
        dashed(nat_text(counter), nat_text(nanos), "qw"@),
    )
}

/// An envelope's IV: 16 bytes from ChaCha20 seeded by the time and the counter
/// (the caller reads both; the counter is then advanced).
pub fn envelope_iv(nanos: u128, counter: u64) -> (r: Vec<u8>)
    ensures
        r@ == chacha20_first16(iv_seed(nanos as nat, counter as nat)),
        r@.len() == 16,
{
    let n = u128_to_text(nanos);
    let c = u64_to_text(counter);
    let a = dashed_text(n.as_str(), c.as_str(), "iv");
    let b = dashed_text(c.as_str(), n.as_str(), "qw");
    let seed = seed_of(a.as_str(), b.as_str());
    let iv = chacha20_fill16(seed.as_slice());
    let mut out: Vec<u8> = Vec::new();
    let mut i: usize = 0;
    while i < 16
        invariant
            i <= 16,
            iv@.len() == 16,
            out@ == iv@.take(i as int),
        decreases 16 - i,
    {
        out.push(iv[i]);
        proof {
            assert(iv@.take(i + 1) =~= iv@.take(i as int).push(iv@[i as int]));
        }
        i = i + 1;
    }
    proof {
        assert(iv@.take(16) =~= iv@);
    }
    out
}

/// The seed of a request nonce: from the time in milliseconds and a counter.
pub open spec fn uuid_seed(ms: nat, counter: nat) -> Seq<u8> {
    md5_seed(dashed(nat_text(ms), nat_text(counter), "uuid"@), dashed(nat_text(counter), nat_text(ms), "n"@))
}

/// Version 4 and the RFC 4122 variant set in 16 random bytes.
pub open spec fn uuid_bits(b: Seq<u8>) -> Seq<u8> {
    b.update(6, (b[6] & 0x0f) | 0x40).update(8, (b[8] & 0x3f) | 0x80)
}

/// The hyphenated lower-case form of 16 bytes (8-4-4-4-12 digits).
pub open spec fn uuid_text(b: Seq<u8>) -> Seq<char> {
    lower_hex(b.subrange(0, 4)) + "-"@ + lower_hex(b.subrange(4, 6)) + "-"@ + lower_hex(b.subrange(6, 8)) + "-"@
        + lower_hex(b.subrange(8, 10)) + "-"@ + lower_hex(b.subrange(10, 16))
}

/// A lower-case hexadecimal digit.
pub open spec fn is_lower_hex_digit(c: char) -> bool {
    ('0' <= c && c <= '9') || ('a' <= c && c <= 'f')
}

/// The hyphenated text of a version 4, RFC 4122 variant UUID:
/// `xxxxxxxx-xxxx-4xxx-Vxxx-xxxxxxxxxxxx` in lower-case hexadecimal, with
/// `V` one of `8`, `9`, `a`, `b`.
pub open spec fn is_uuid_v4_text(t: Seq<char>) -> bool {
    &&& t.len() == 36
    &&& forall|i: int|
        0 <= i < 36 ==> if i == 8 || i == 13 || i == 18 || i == 23 {
            t[i] == '-'
        } else {
            is_lower_hex_digit(#[trigger] t[i])
        }
    &&& t[14] == '4'
    &&& (t[19] == '8' || t[19] == '9' || t[19] == 'a' || t[19] == 'b')
}

/// A version 4 UUID from ChaCha20 seeded by the time and the counter (the
/// caller reads both; the counter is then advanced).
pub fn uuid4(ms: u128, counter: u64) -> (r: String)
    ensures
        r@ == uuid_text(uuid_bits(chacha20_first16(uuid_seed(ms as nat, counter as nat)))),
        is_uuid_v4_text(r@),
{
    let m = u128_to_text(ms);
    let c = u64_to_text(counter);
    let a = dashed_text(m.as_str(), c.as_str(), "uuid");
    let b = dashed_text(c.as_str(), m.as_str(), "n");
    let seed = seed_of(a.as_str(), b.as_str());
    let raw = chacha20_fill16(seed.as_slice());
    let mut bytes = raw;
    bytes[6] = (bytes[6] & 0x0f) | 0x40;
    bytes[8] = (bytes[8] & 0x3f) | 0x80;
    proof {
        assert(bytes@ =~= uuid_bits(raw@));
    }
    let p1 = bytes_to_lower_hex(&bytes[0..4]);
    let p2 = bytes_to_lower_hex(&bytes[4..6]);
    let p3 = bytes_to_lower_hex(&bytes[6..8]);
    let p4 = bytes_to_lower_hex(&bytes[8..10]);
    let p5 = bytes_to_lower_hex(&bytes[10..16]);
    let s1 = concat_str(p1.as_str(), "-");
    let s2 = concat_str(s1.as_str(), p2.as_str());
    let s3 = concat_str(s2.as_str(), "-");
    let s4 = concat_str(s3.as_str(), p3.as_str());
    let s5 = concat_str(s4.as_str(), "-");
    let s6 = concat_str(s5.as_str(), p4.as_str());
    let s7 = concat_str(s6.as_str(), "-");
    let r = concat_str(s7.as_str(), p5.as_str());
    proof {
        law_uuid_shape(raw@);
    }
    r
}


/// Every nonce is a version 4, RFC 4122 variant UUID: 36 characters, dashes
/// at 8, 13, 18 and 23, lower-case hexadecimal digits elsewhere, a `4` at 14
/// and one of `8`, `9`, `a`, `b` at 19.
pub proof fn law_uuid_shape(b: Seq<u8>)
    requires
        b.len() == 16,
    ensures
        is_uuid_v4_text(uuid_text(uuid_bits(b))),
{
    let u = uuid_bits(b);
    let x6 = b[6];
    let x8 = b[8];
    assert(((x6 & 0x0f) | 0x40) / 16 == 4) by (bit_vector);
    assert(8 <= ((x8 & 0x3f) | 0x80) / 16 <= 11) by (bit_vector);
    lemma_lower_hex_len(u.subrange(0, 4));
    lemma_lower_hex_len(u.subrange(4, 6));
    lemma_lower_hex_len(u.subrange(6, 8));
    lemma_lower_hex_len(u.subrange(8, 10));
    lemma_lower_hex_len(u.subrange(10, 16));
    let h3 = lower_hex(u.subrange(6, 8));
    let h4 = lower_hex(u.subrange(8, 10));
    assert(u.subrange(6, 8)[0] == u[6]);
    assert(u.subrange(8, 10)[0] == u[8]);
    assert(h3[0] == crate::codec::hex_digit_lower(u[6] / 16));
    assert(h4[0] == crate::codec::hex_digit_lower(u[8] / 16));
    reveal_strlit("-");
    let h1 = lower_hex(u.subrange(0, 4));
    let h2 = lower_hex(u.subrange(4, 6));
    let h5 = lower_hex(u.subrange(10, 16));
    lemma_lower_hex_digits(u.subrange(0, 4));
    lemma_lower_hex_digits(u.subrange(4, 6));
    lemma_lower_hex_digits(u.subrange(6, 8));
    lemma_lower_hex_digits(u.subrange(8, 10));
    lemma_lower_hex_digits(u.subrange(10, 16));
    let t = uuid_text(u);
    assert(t =~= h1 + seq!['-'] + h2 + seq!['-'] + h3 + seq!['-'] + h4 + seq!['-'] + h5);
    assert forall|i: int| 0 <= i < 36 implies if i == 8 || i == 13 || i == 18 || i == 23 {
        t[i] == '-'
    } else {
        is_lower_hex_digit(#[trigger] t[i])
    } by {
        if i < 8 {
            assert(t[i] == h1[i]);
        } else if 8 < i < 13 {
            assert(t[i] == h2[i - 9]);
        } else if 13 < i < 18 {
            assert(t[i] == h3[i - 14]);
        } else if 18 < i < 23 {
            assert(t[i] == h4[i - 19]);
        } else if 23 < i {
            assert(t[i] == h5[i - 24]);
        }
    }
}

proof fn lemma_lower_hex_len(b: Seq<u8>)
    ensures
        lower_hex(b).len() == 2 * b.len(),
    decreases b.len(),
{
    if b.len() > 0 {
        lemma_lower_hex_len(b.drop_first());
    }
}

proof fn lemma_lower_hex_digits(b: Seq<u8>)
    ensures
        forall|i: int| 0 <= i < lower_hex(b).len() ==> is_lower_hex_digit(#[trigger] lower_hex(b)[i]),
    decreases b.len(),
{
    if b.len() > 0 {
        lemma_lower_hex_digits(b.drop_first());
        let hi = b[0] / 16;
        let lo = b[0] % 16;
        assert(is_lower_hex_digit(crate::codec::hex_digit_lower(hi)));
        assert(is_lower_hex_digit(crate::codec::hex_digit_lower(lo)));
        let h = lower_hex(b);
        let r = lower_hex(b.drop_first());
        assert(h =~= seq![crate::codec::hex_digit_lower(hi), crate::codec::hex_digit_lower(lo)] + r);
        assert forall|i: int| 0 <= i < h.len() implies is_lower_hex_digit(#[trigger] h[i]) by {
            if i >= 2 {
                assert(h[i] == r[i - 2]);
            }
        }
    }
}


// ----------------------------------------------------------------------------
// Requests.
/// The envelope of a request: path, method in upper case, body (null when
/// none), time in milliseconds and nonce.
pub open spec fn envelope_doc(path: Seq<char>, method: Seq<char>, body: Option<Jv>, t_ms: nat, nonce: Seq<char>) -> Jv {
    Jv::Obj(
        seq![
            ("p"@, Jv::Str(path)),
            ("m"@, Jv::Str(upper(method))),
            ("b"@, match body {
                Some(b) => b,
                None => Jv::Null,
            }),
            ("t"@, Jv::Num(nat_text(t_ms))),
            ("n"@, Jv::Str(nonce)),
        ],
    )
}

pub fn build_envelope(path: &str, method: &str, body: Option<JsonValue>, t_ms: u128, nonce: String) -> (r: JsonValue)
    ensures
        jv(r) == envelope_doc(path@, method@, match body { Some(b) => Some(jv(b)), None => None }, t_ms as nat, nonce@),
{
    let mut e: Vec<(String, JsonValue)> = Vec::new();
    put(&mut e, "p", j_str(path));
    put(&mut e, "m", JsonValue::Str(upper_str(method)));
    put(&mut e, "b", match body {
        Some(b) => b,
        None => JsonValue::Null,
    });
    put(&mut e, "t", JsonValue::Number(u128_to_text(t_ms)));
    put(&mut e, "n", JsonValue::Str(nonce));
    let r = j_object(e);
    proof {
        assert(jv_entries(e@) =~= match envelope_doc(
            path@,
            method@,
            match body { Some(b) => Some(jv(b)), None => None },
            t_ms as nat,
            nonce@,
        ) {
            Jv::Obj(s) => s,
            _ => jv_entries(e@),
        });
    }
    r
}

/// `encrypt_envelope`: Base64 of the IV followed by the AES-256-CBC
/// ciphertext of the text's UTF-8 bytes.
pub open spec fn sealed(plaintext: Seq<char>, iv: Seq<u8>) -> Seq<char> {
    base64_standard(iv + aes256_cbc_encrypt(gateway_key(), iv, encode_utf8(plaintext)))
}

/// A text made only of Base64 characters has no white space to trim.
proof fn lemma_base64_text_untrimmed(t: Seq<char>)
    requires
        forall|i: int| 0 <= i < t.len() ==> is_base64_char(#[trigger] t[i]),
    ensures
        trim(t) == t,
{
    if t.len() > 0 {
        assert(is_base64_char(t[0]));
        assert(is_base64_char(t[t.len() - 1]));
    }
}

/// Seals a text under an IV. A sealed envelope opens (`decrypt_envelope`)
/// to exactly the text that was sealed.
pub fn encrypt_envelope(plaintext: &str, iv: &[u8]) -> (r: String)
    requires
        iv@.len() == 16,
    ensures
        r@ == sealed(plaintext@, iv@),
        opened(r@) == Ok::<Seq<char>, Seq<char>>(plaintext@),
        base64_standard_decode(r@) matches Some(b) && b == iv@ + aes256_cbc_encrypt(
            gateway_key(),
            iv@,
            encode_utf8(plaintext@),
        ) && b.len() == 16 + 16 * (encode_utf8(plaintext@).len() / 16 + 1),
{
    let key = gateway_key_bytes();
    let ct = aes_cbc_encrypt(key.as_slice(), iv, plaintext.as_bytes());
    let mut combined: Vec<u8> = Vec::new();
    let mut i: usize = 0;
    while i < iv.len()
        invariant
            i <= iv@.len(),
            combined@ == iv@.take(i as int),
        decreases iv@.len() - i,
    {
        combined.push(iv[i]);
        proof {
            assert(iv@.take(i + 1) =~= iv@.take(i as int).push(iv@[i as int]));
        }
        i = i + 1;
    }
    let mut j: usize = 0;
    while j < ct.len()
        invariant
            j <= ct@.len(),
            i == iv@.len(),
            combined@ == iv@.take(i as int) + ct@.take(j as int),
        decreases ct@.len() - j,
    {
        combined.push(ct[j]);
        proof {
            assert(iv@.take(i as int) + ct@.take(j + 1) =~= (iv@.take(i as int) + ct@.take(j as int)).push(ct@[j as int]));
        }
        j = j + 1;
    }
    proof {
        assert(iv@.take(i as int) =~= iv@);
        assert(ct@.take(j as int) =~= ct@);
    }
    let r = base64_encode(combined.as_slice());
    proof {
        lemma_base64_text_untrimmed(r@);
        let buf = combined@;
        assert(buf.subrange(0, 16) =~= iv@);
        assert(buf.subrange(16, buf.len() as int) =~= ct@);
        encode_utf8_valid_utf8(plaintext@);
        encode_utf8_decode_utf8(plaintext@);
    }
    r
}

/// The body a request is sent with: `{"d": <sealed envelope>}`.
pub fn gateway_request_body(sealed_text: String) -> (r: JsonValue)
    ensures
        jv(r) == Jv::Obj(seq![("d"@, Jv::Str(sealed_text@))]),
{
    let mut e: Vec<(String, JsonValue)> = Vec::new();
    put(&mut e, "d", JsonValue::Str(sealed_text));
    proof {
        assert(jv_entries(e@) =~= seq![("d"@, Jv::Str(sealed_text@))]);
    }
    j_object(e)
}

pub open spec fn gateway_url_text() -> Seq<char> {
    "https://qingwear.top/api/v2/x"@
}

/// Where requests go.
pub fn gateway_url() -> (r: &'static str)
    ensures
        r@ == gateway_url_text(),
{
    "https://qingwear.top/api/v2/x"
}

pub open spec fn gateway_header_list() -> Seq<(Seq<char>, Seq<char>)> {
    seq![
        ("Content-Type"@, "application/json"@),
        ("X-App-Variant-Supported"@, "1"@),
        ("X-Client-App"@, "qingwear_web"@),
        ("Origin"@, "https://qingwear.top"@),
        ("Referer"@, "https://qingwear.top/explore"@),
        ("User-Agent"@, "Mozilla/5.0 (Windows NT 10.0; Win64; x64) AppleWebKit/537.36 (KHTML, like Gecko) Chrome/126.0 Safari/537.36"@),
    ]
}

/// The headers every request carries.
pub fn gateway_headers() -> (r: Vec<(&'static str, &'static str)>)
    ensures
        r@.map_values(|h: (&str, &str)| (h.0@, h.1@)) == gateway_header_list(),
{
    let r: Vec<(&'static str, &'static str)> = vec![
        ("Content-Type", "application/json"),
        ("X-App-Variant-Supported", "1"),
        ("X-Client-App", "qingwear_web"),
        ("Origin", "https://qingwear.top"),
        ("Referer", "https://qingwear.top/explore"),
        ("User-Agent", "Mozilla/5.0 (Windows NT 10.0; Win64; x64) AppleWebKit/537.36 (KHTML, like Gecko) Chrome/126.0 Safari/537.36"),
    ];
    proof {
        assert(r@.map_values(|h: (&str, &str)| (h.0@, h.1@)) =~= gateway_header_list());
    }
    r
}

// ----------------------------------------------------------------------------
// Replies.
/// A reply with status 400 or more is an error that quotes the body.
pub fn check_gateway_status(status: u16, raw: &str) -> (r: Result<(), String>)
    ensures
        match r {
            Ok(()) => status < 400,
            Err(e) => status >= 400 && e@ == "gateway http "@ + nat_text(status as nat) + ": "@ + raw@,
        },
{
    if status >= 400 {
        let a = concat_str("gateway http ", u64_to_text(status as u64).as_str());
        let b = concat_str(a.as_str(), ": ");
        return Err(concat_str(b.as_str(), raw));
    }
    Ok(())
}

/// The sealed payload of a reply: its `d` member, when that is a string.
pub fn gateway_cipher_text(outer: &JsonValue) -> (r: Option<String>)
    ensures
        match r {
            Some(d) => json_get(*outer, "d"@) matches Some(x) && json_as_str(x) == Some(d@),
            None => !(json_get(*outer, "d"@) matches Some(x) && json_as_str(x) is Some),
        },
{
    match outer.get("d") {
        Some(x) => match x.as_str() {
            Some(s) => Some(String::from_str(s)),
            None => None,
        },
        None => None,
    }
}

fn bytes_between(b: &[u8], from: usize, to: usize) -> (r: Vec<u8>)
    requires
        from <= to <= b@.len(),
    ensures
        r@ == b@.subrange(from as int, to as int),
{
    let mut out: Vec<u8> = Vec::new();
    let mut k = from;
    while k < to
        invariant
            from <= k <= to,
            to <= b@.len(),
            out@ == b@.subrange(from as int, k as int),
        decreases to - k,
    {
        out.push(b[k]);
        proof {
            assert(b@.subrange(from as int, k + 1) =~= b@.subrange(from as int, k as int).push(b@[k as int]));
        }
        k = k + 1;
    }
    out
}

/// `decrypt_envelope`: the trimmed text is Base64-decoded; its first 16
/// bytes are the IV, the rest the ciphertext; the plaintext must be UTF-8.
pub open spec fn opened(b64: Seq<char>) -> Result<Seq<char>, Seq<char>> {
    match base64_standard_decode(trim(b64)) {
        None => Err("failed to base64-decode gateway payload"@),
        Some(buf) => if buf.len() < 16 {
            Err("gateway payload too short: "@ + nat_text(buf.len()) + " bytes"@)
        } else {
            match aes256_cbc_decrypt(gateway_key(), buf.subrange(0, 16), buf.subrange(16, buf.len() as int)) {
                None => Err("aes-cbc decrypt/unpad failed: Unpad Error"@),
                Some(pt) => if valid_utf8(pt) {
                    Ok(decode_utf8(pt))
                } else {
                    Err("decrypted payload is not valid utf-8"@)
                },
            }
        },
    }
}

pub fn decrypt_envelope(b64: &str) -> (r: Result<String, String>)
    ensures
        match r {
            Ok(t) => opened(b64@) == Ok::<Seq<char>, Seq<char>>(t@),
            Err(e) => opened(b64@) == Err::<Seq<char>, Seq<char>>(e@),
        },
{
    let t = trim_str(b64);
    let buf = match base64_decode(t.as_str()) {
        Some(b) => b,
        None => {
            return Err(String::from_str("failed to base64-decode gateway payload"));
        },
    };
    if buf.len() < 16 {
        let a = concat_str("gateway payload too short: ", u64_to_text(buf.len() as u64).as_str());
        return Err(concat_str(a.as_str(), " bytes"));
    }
    let key = gateway_key_bytes();
    let iv = bytes_between(buf.as_slice(), 0, 16);
    let ct = bytes_between(buf.as_slice(), 16, buf.len());
    let pt = match aes_cbc_decrypt(key.as_slice(), iv.as_slice(), ct.as_slice()) {
        Some(p) => p,
        None => {
            return Err(String::from_str("aes-cbc decrypt/unpad failed: Unpad Error"));
        },
    };
    match utf8_string(pt) {
        Some(s) => Ok(s),
        None => Err(String::from_str("decrypted payload is not valid utf-8")),
    }
}

/// `api_data`'s check of a decoded reply: a `code` other than 200 or 0 is a
/// business error, `success: false` a failure (each with the reply's
/// message, or a default); otherwise the reply's `data` (null when absent).
pub open spec fn reply_data(response: JsonValue) -> Result<Option<JsonValue>, Seq<char>> {
    let code = match json_get(response, "code"@) {
        Some(x) => json_as_i64(x),
        None => None,
    };
    let message = match json_get(response, "message"@) {
        Some(x) => json_as_str(x),
        None => None,
    };
    let success = match json_get(response, "success"@) {
        Some(x) => json_as_bool(x),
        None => None,
    };
    if code is Some && code->0 != 200 && code->0 != 0 {
        Err("gateway business error "@ + int_text(code->0 as int) + ": "@ + match message {
            Some(m) => m,
            None => "unknown gateway error"@,
        })
    } else if success == Some(false) {
        Err("gateway returned success=false: "@ + match message {
            Some(m) => m,
            None => "request not successful"@,
        })
    } else {
        Ok(json_get(response, "data"@))
    }
}

/// The `data` of a decoded gateway reply, or the error it reports.
pub fn api_data(response: JsonValue) -> (r: Result<JsonValue, String>)
    ensures
        match r {
            Ok(d) => reply_data(response) matches Ok(x) && match x {
                Some(v) => d == v,
                None => d is Null,
            },
            Err(e) => reply_data(response) == Err::<Option<JsonValue>, Seq<char>>(e@),
        },
{
    let code = match response.get("code") {
        Some(x) => x.as_i64(),
        None => None,
    };
    let message: Option<String> = match response.get("message") {
        Some(x) => match x.as_str() {
            Some(m) => Some(String::from_str(m)),
            None => None,
        },
        None => None,
    };
    match code {
        Some(c) => if c != 200 && c != 0 {
            let a = concat_str("gateway business error ", i64_to_text(c).as_str());
            let b = concat_str(a.as_str(), ": ");
            let m = match &message {
                Some(m) => m.as_str(),
                None => "unknown gateway error",
            };
            return Err(concat_str(b.as_str(), m));
        },
        None => {},
    }
    let success = match response.get("success") {
        Some(x) => x.as_bool(),
        None => None,
    };
    if success == Some(false) {
        let m = match &message {
            Some(m) => m.as_str(),
            None => "request not successful",
        };
        return Err(concat_str("gateway returned success=false: ", m));
    }
    match take_member(response, "data") {
        Some(d) => Ok(d),
        None => Ok(JsonValue::Null),
    }
}

} // verus!
