//! The identity the community client presents: a model name and an
//! Android id derived from what the host says about itself, and the device
//! id sealed with the community's RSA key.
use vstd::prelude::*;
use vstd::utf8::encode_utf8;
use rsa::{Pkcs1v15Encrypt, RsaPublicKey};
use rsa::pkcs8::DecodePublicKey;
use rand_core::SeedableRng;
use crate::text::{trim, upper, trim_chars, trim_str, upper_str, string_from_chars, concat_str};
use crate::codec::{md5_digest, md5_seed, seed_of, lower_hex, upper_hex, md5_hex, hex_text_bytes, hex_string_to_bytes,
    bytes_to_upper_hex};
use crate::config::{ClientIdentity, nonblank, has_astrobox, contains_astrobox, ov};

verus! {

/// PKCS#1 v1.5 encryption of `msg` under the RSA public key whose DER form
/// is `key_der`, with randomness from ChaCha20 seeded by `seed`; `None` when
/// the key does not parse or the message does not fit.
pub uninterp spec fn rsa_pkcs1v15_seeded(key_der: Seq<u8>, seed: Seq<u8>, msg: Seq<u8>) -> Option<Seq<u8>>;

/// `RsaPublicKey::from_public_key_der`, then `RsaPublicKey::encrypt` with
/// `Pkcs1v15Encrypt` and a `ChaCha20Rng::from_seed(seed)`: the ciphertext is
/// named by key, seed and message, not stated.
#[verifier::external_body]
fn rsa_encrypt_seeded(key_der: &[u8], seed: &[u8], msg: &[u8]) -> (r: Option<Vec<u8>>)
    requires
        seed@.len() == 32,
    ensures
        match r {
            Some(c) => rsa_pkcs1v15_seeded(key_der@, seed@, msg@) == Some(c@),
            None => rsa_pkcs1v15_seeded(key_der@, seed@, msg@) is None,
        },
{
    let key = match RsaPublicKey::from_public_key_der(key_der) {
        Ok(k) => k,
        Err(_) => return None,
    };
    let mut s = [0u8; 32];
    s.copy_from_slice(seed);
    let mut rng = rand_chacha::ChaCha20Rng::from_seed(s);
    match key.encrypt(&mut rng, Pkcs1v15Encrypt, msg) {
        Ok(c) => Some(c),
        Err(_) => None,
    }
}

pub open spec fn default_model() -> Seq<char> {
    "Xiaomi"@
}

pub open spec fn signature_sha1() -> Seq<char> {
    "34aa96a18157f401eced9e045749ba63b0caf6b0"@
}

pub open spec fn model2_crc32() -> Seq<char> {
    "2249322543"@
}

pub open spec fn fallback_android_id() -> Seq<char> {
    "62b36b9268c53666"@
}

pub open spec fn public_key_hex() -> Seq<char> {
    "305C300D06092A864886F70D0101010500034B003048024100ADB8FA1B53DE4FB503463266CB78AC0D9C8565BE8A6A00223B89172B03D88F2404811A0191B044A4DD4A0BDA4A186826D1F10888AEDFF388A1DEE2A998CBA6110203010001"@
}

/// `derive_default_model`: the first of the host's name, platform and
/// architecture that is not blank and does not mention AstroBox, trimmed;
/// `Xiaomi` when none is.
pub open spec fn model_from(values: Seq<Seq<char>>) -> Seq<char>
    decreases values.len(),
{
    if values.len() == 0 {
        default_model()
    } else {
        match nonblank(Some(values[0])) {
            Some(v) => if !has_astrobox(Some(v)) {
                v
            } else {
                model_from(values.drop_first())
            },
            None => model_from(values.drop_first()),
        }
    }
}

pub open spec fn svs(s: Seq<String>) -> Seq<Seq<char>> {
    s.map_values(|x: String| x@)
}

pub fn derive_default_model(values: &[String]) -> (r: String)
    ensures
        r@ == model_from(svs(values@)),
{
    let ghost vs = svs(values@);
    let mut i: usize = 0;
    proof {
        assert(vs.skip(0) =~= vs);
    }
    while i < values.len()
        invariant
            i <= values@.len(),
            vs == svs(values@),
            model_from(vs) == model_from(vs.skip(i as int)),
        decreases values@.len() - i,
    {
        proof {
            let rest = vs.skip(i as int);
            assert(rest[0] == values@[i as int]@);
            assert(rest.drop_first() =~= vs.skip(i + 1));
        }
        let t = trim_str(values[i].as_str());
        if !t.as_str().is_empty() {
            let candidate = Some(t);
            if !contains_astrobox(&candidate) {
                match candidate {
                    Some(v) => {
                        return v;
                    },
                    None => {},
                }
            }
        }
        i = i + 1;
    }
    proof {
        assert(vs.skip(i as int) =~= Seq::<Seq<char>>::empty());
    }
    String::from_str("Xiaomi")
}

/// The trimmed, non-blank values, in order.
pub open spec fn nonblank_parts(values: Seq<Seq<char>>) -> Seq<Seq<char>>
    decreases values.len(),
{
    if values.len() == 0 {
        seq![]
    } else {
        let r = nonblank_parts(values.drop_last());
        match nonblank(Some(values.last())) {
            Some(v) => r.push(v),
            None => r,
        }
    }
}

/// The parts joined by `sep`.
pub open spec fn joined(parts: Seq<Seq<char>>, sep: Seq<char>) -> Seq<char>
    decreases parts.len(),
{
    if parts.len() == 0 {
        seq![]
    } else if parts.len() == 1 {
        parts[0]
    } else {
        joined(parts.drop_last(), sep) + sep + parts.last()
    }
}

/// `derive_android_id_plaintext`: the first 16 hexadecimal digits of the
/// MD5 of the host's non-blank name, platform, version and architecture
/// joined by `|`; a fixed id when the host says nothing.
pub open spec fn android_id_from(values: Seq<Seq<char>>) -> Seq<char> {
    let parts = nonblank_parts(values);
    if parts.len() == 0 {
        fallback_android_id()
    } else {
        lower_hex(md5_digest(encode_utf8(joined(parts, "|"@)))).take(16)
    }
}

pub fn derive_android_id_plaintext(values: &[String]) -> (r: String)
    ensures
        r@ == android_id_from(svs(values@)),
{
    let ghost vs = svs(values@);
    let mut joined_text: Vec<char> = Vec::new();
    let mut count: usize = 0;
    let mut i: usize = 0;
    while i < values.len()
        invariant
            i <= values@.len(),
            vs == svs(values@),
            count == nonblank_parts(vs.take(i as int)).len(),
            joined_text@ == joined(nonblank_parts(vs.take(i as int)), "|"@),
            count <= i,
        decreases values@.len() - i,
    {
        proof {
            assert(vs.take(i + 1).drop_last() =~= vs.take(i as int));
            assert(vs.take(i + 1).last() == values@[i as int]@);
        }
        let t = trim_chars(values[i].as_str());
        proof {
            let p = nonblank_parts(vs.take(i as int));
            let p2 = nonblank_parts(vs.take(i + 1));
            if t@.len() > 0 {
                assert(p2 == p.push(t@));
                assert(p2.drop_last() =~= p);
                if p.len() == 0 {
                    assert(joined(p2, "|"@) == t@);
                } else {
                    assert(joined(p2, "|"@) == joined(p, "|"@) + "|"@ + t@);
                }
            } else {
                assert(p2 == p);
            }
        }
        if t.len() > 0 {
            let next = if count == 0 {
                t
            } else {
                let with_sep = concat_chars_sep(joined_text.as_slice(), t.as_slice());
                with_sep
            };
            joined_text = next;
            count = count + 1;
        }
        i = i + 1;
    }
    proof {
        assert(vs.take(i as int) =~= vs);
    }
    if count == 0 {
        return String::from_str("62b36b9268c53666");
    }
    let source = string_from_chars(joined_text.as_slice());
    let digest = crate::codec::md5_compute(source.as_str().as_bytes());
    let hex = crate::codec::bytes_to_lower_hex(&digest);
    let hv = crate::text::chars_of(hex.as_str());
    proof {
        lemma_lower_hex_len(md5_digest(encode_utf8(source@)));
    }
    let first = crate::text::slice_range(hv.as_slice(), 0, 16);
    proof {
        assert(first@ =~= hv@.take(16));
    }
    string_from_chars(first.as_slice())
}

fn concat_chars_sep(a: &[char], b: &[char]) -> (r: Vec<char>)
    ensures
        r@ == a@ + "|"@ + b@,
{
    let bar = crate::text::chars_of("|");
    let ab = crate::text::concat_chars(a, bar.as_slice());
    crate::text::concat_chars(ab.as_slice(), b)
}

proof fn lemma_lower_hex_len(b: Seq<u8>)
    ensures
        lower_hex(b).len() == 2 * b.len(),
    decreases b.len(),
{
    if b.len() > 0 {
        lemma_lower_hex_len(b.drop_first());
    }
}

/// The seed of the device id's encryption: the MD5 of the Android id, then
/// that of the id followed by the signature digest.
pub open spec fn did_seed(raw: Seq<char>) -> Seq<u8> {
    md5_seed(raw, raw + signature_sha1())
}

/// `build_default_client_did`: the Android id encrypted under the
/// community's public key (seeded by `did_seed`), in upper-case hex.
pub open spec fn client_did_from(raw: Seq<char>) -> Option<Seq<char>> {
    match hex_text_bytes(public_key_hex()) {
        Some(der) => match rsa_pkcs1v15_seeded(der, did_seed(raw), encode_utf8(raw)) {
            Some(c) => Some(upper_hex(c)),
            None => None,
        },
        None => None,
    }
}

pub fn build_default_client_did(raw_android_id: &str) -> (r: Option<String>)
    ensures
        ov(r) == client_did_from(raw_android_id@),
{
    let der = match hex_string_to_bytes(
        "305C300D06092A864886F70D0101010500034B003048024100ADB8FA1B53DE4FB503463266CB78AC0D9C8565BE8A6A00223B89172B03D88F2404811A0191B044A4DD4A0BDA4A186826D1F10888AEDFF388A1DEE2A998CBA6110203010001",
    ) {
        Some(d) => d,
        None => {
            return None;
        },
    };
    let with_sig = concat_str(raw_android_id, "34aa96a18157f401eced9e045749ba63b0caf6b0");
    let seed = seed_of(raw_android_id, with_sig.as_str());
    match rsa_encrypt_seeded(der.as_slice(), seed.as_slice(), raw_android_id.as_bytes()) {
        Some(c) => Some(bytes_to_upper_hex(c.as_slice())),
        None => None,
    }
}

/// `build_client_identity` from what the host says: `host` holds its name,
/// platform, version and architecture. The model comes from the name,
/// platform and architecture; the device id is the sealed Android id, or
/// the Android id in upper case when sealing fails.
pub open spec fn identity_of(host: Seq<Seq<char>>, i: ClientIdentity) -> bool {
    let raw = android_id_from(host);
    &&& i.model@ == model_from(seq![host[0], host[1], host[3]])
    &&& i.did@ == match client_did_from(raw) {
        Some(d) => d,
        None => upper(raw),
    }
    &&& i.model2@ == model2_crc32()
    &&& i.model3@ == lower_hex(md5_digest(encode_utf8(signature_sha1() + "VVV"@)))
    &&& i.app_signature_sha1@ == signature_sha1()
}

pub fn build_client_identity(hostname: &str, platform: &str, version: &str, arch: &str) -> (r: ClientIdentity)
    ensures
        identity_of(seq![hostname@, platform@, version@, arch@], r),
{
    let mut model_sources: Vec<String> = Vec::new();
    model_sources.push(String::from_str(hostname));
    model_sources.push(String::from_str(platform));
    model_sources.push(String::from_str(arch));
    let mut id_sources: Vec<String> = Vec::new();
    id_sources.push(String::from_str(hostname));
    id_sources.push(String::from_str(platform));
    id_sources.push(String::from_str(version));
    id_sources.push(String::from_str(arch));
    proof {
        assert(svs(model_sources@) =~= seq![hostname@, platform@, arch@]);
        assert(svs(id_sources@) =~= seq![hostname@, platform@, version@, arch@]);
    }
    let model = derive_default_model(model_sources.as_slice());
    let raw = derive_android_id_plaintext(id_sources.as_slice());
    let did = match build_default_client_did(raw.as_str()) {
        Some(d) => d,
        None => upper_str(raw.as_str()),
    };
    let sig = String::from_str("34aa96a18157f401eced9e045749ba63b0caf6b0");
    let model3 = md5_hex(concat_str(sig.as_str(), "VVV").as_str());
    ClientIdentity { did, model, model2: String::from_str("2249322543"), model3, app_signature_sha1: sig }
}

} // verus!
