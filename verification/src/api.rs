//! Requests to the mibandtool community API: addresses, signed headers and
//! how a reply is read.
use vstd::prelude::*;
use vstd::utf8::encode_utf8;
use crate::codec::{md5_digest, lower_hex, url_encoded, md5_hex, url_encode};
use crate::config::{AuthContext, ClientIdentity, ProviderConfig, ov, default_lang, pair_views};
use crate::json::{JsonValue, json_get, json_as_i64, json_get_str, entry_lookup, take_member};
use crate::numbers::{nat_text, int_text, u64_to_text, i64_to_text};
use crate::text::{chars_of, slice_range, string_from_chars, concat_str, str_eq};

verus! {

#[derive(Clone, Copy, Debug, PartialEq, Eq)]
pub enum HttpMethod {
    Get,
    Post,
}

/// A request for the app to send: method, address, headers and form fields.
#[derive(Clone, Debug)]
pub struct ApiRequest {
    pub method: HttpMethod,
    pub url: String,
    pub headers: Vec<(String, String)>,
    pub form: Vec<(String, String)>,
}

pub open spec fn api_base() -> Seq<char> {
    "https://www.mibandtool.club:9073/"@
}

pub open spec fn api_json_base() -> Seq<char> {
    "https://res.mibandtool.club:9073/"@
}

pub open spec fn client_version() -> Seq<char> {
    "3082"@
}

/// The text without its leading `/` characters.
pub open spec fn strip_slashes(s: Seq<char>) -> Seq<char>
    decreases s.len(),
{
    if s.len() > 0 && s[0] == '/' {
        strip_slashes(s.drop_first())
    } else {
        s
    }
}

/// `api_url`.
pub open spec fn api_url_of(path: Seq<char>) -> Seq<char> {
    api_base() + strip_slashes(path)
}

/// `api_json_url`.
pub open spec fn api_json_url_of(path: Seq<char>) -> Seq<char> {
    api_json_base() + strip_slashes(path)
}

/// Lower-case hexadecimal MD5 of a text's UTF-8 bytes.
pub open spec fn md5_text(s: Seq<char>) -> Seq<char> {
    lower_hex(md5_digest(encode_utf8(s)))
}

pub open spec fn salt1() -> Seq<char> {
    "Aa90_89123jn!jkna90+ak90Aa113asgj"@
}

pub open spec fn salt2() -> Seq<char> {
    "Aa901123_89123jn!jkna90+ak90Aa113asgj"@
}

/// The headers every request carries, then, for a session, its signed ones.
pub open spec fn base_headers_spec(
    config: ProviderConfig,
    id: ClientIdentity,
    device_type: Seq<char>,
    auth: Option<AuthContext>,
    now_ms: u64,
) -> Seq<(Seq<char>, Seq<char>)> {
    let did = match config.did { Some(d) => d@, None => id.did@ };
    let model = match config.model { Some(d) => d@, None => id.model@ };
    let model2 = match config.model2 { Some(d) => d@, None => id.model2@ };
    let model3 = match config.model3 { Some(d) => d@, None => id.model3@ };
    let lang = match config.lang { Some(d) => d@, None => default_lang() };
    let common = seq![
        ("version"@, client_version()),
        ("did"@, did),
        ("model"@, model),
        ("model2"@, model2),
        ("model3"@, model3),
        ("lang"@, lang),
        ("type"@, device_type),
        ("plat"@, "normal"@),
    ];
    match auth {
        None => common,
        Some(a) => {
            let ts = nat_text(now_ms as nat);
            let nick = match a.nickname { Some(n) => n@, None => seq![] };
            let signed = ts + salt2() + a.openid@ + "_"@ + a.donation@ + "_"@ + a.valid_token@;
            common + seq![
                ("openId"@, a.openid@),
                ("nickName"@, url_encoded(encode_utf8(nick))),
                ("validtoken"@, a.valid_token@),
                ("isDonation"@, a.donation@),
                ("token"@, md5_text(ts + salt1())),
                ("time_stamp"@, ts),
                ("token2"@, md5_text(signed)),
                ("time_stamp2"@, ts),
                ("token3"@, md5_text(signed + "_"@ + client_version() + "_"@ + model2)),
            ]
        },
    }
}

fn pair(k: &str, v: String) -> (r: (String, String))
    ensures
        r.0@ == k@,
        r.1 == v,
{
    (String::from_str(k), v)
}

/// Concatenation of several texts.
pub fn join(parts: &[&str]) -> (r: String)
    ensures
        r@ == parts@.map_values(|p: &str| p@).fold_left(Seq::<char>::empty(), |acc: Seq<char>, p: Seq<char>| acc + p),
{
    let ghost all = parts@.map_values(|p: &str| p@);
    let mut out = String::new();
    let mut i: usize = 0;
    while i < parts.len()
        invariant
            i <= parts@.len(),
            all == parts@.map_values(|p: &str| p@),
            out@ == all.subrange(0, i as int).fold_left(Seq::<char>::empty(), |acc: Seq<char>, p: Seq<char>| acc + p),
        decreases parts@.len() - i,
    {
        proof {
            let f = |acc: Seq<char>, p: Seq<char>| acc + p;
            assert(all.subrange(0, i + 1).drop_last() =~= all.subrange(0, i as int));
            assert(all.subrange(0, i + 1).last() == parts@[i as int]@);
        }
        out = concat_str(out.as_str(), parts[i]);
        i = i + 1;
    }
    proof {
        assert(all.subrange(0, parts@.len() as int) =~= all);
    }
    out
}

/// `base_headers_for_type`: the common headers, and for a session the
/// signed ones, stamped with `now_ms` (milliseconds since the Unix epoch).
pub fn base_headers_for_type(
    config: &ProviderConfig,
    identity: &ClientIdentity,
    device_type: &str,
    auth: Option<&AuthContext>,
    now_ms: u64,
) -> (r: Vec<(String, String)>)
    ensures
        pair_views(r@) == base_headers_spec(
            *config,
            *identity,
            device_type@,
            match auth { Some(a) => Some(*a), None => None },
            now_ms,
        ),
{
    let model2 = config.model2(identity);
    let mut headers: Vec<(String, String)> = Vec::new();
    headers.push(pair("version", String::from_str("3082")));
    headers.push(pair("did", config.did(identity)));
    headers.push(pair("model", config.model(identity)));
    headers.push(pair("model2", model2.clone()));
    headers.push(pair("model3", config.model3(identity)));
    headers.push(pair("lang", config.lang()));
    headers.push(pair("type", String::from_str(device_type)));
    headers.push(pair("plat", String::from_str("normal")));
    let ghost common = pair_views(headers@);
    proof {
        let spec_common = base_headers_spec(*config, *identity, device_type@, None, now_ms);
        assert(common =~= spec_common);
    }
    match auth {
        None => {},
        Some(a) => {
            let ts = u64_to_text(now_ms);
            let nick = match &a.nickname {
                Some(n) => n.clone(),
                None => String::new(),
            };
            let signed = join(
                &[
                    ts.as_str(),
                    "Aa901123_89123jn!jkna90+ak90Aa113asgj",
                    a.openid.as_str(),
                    "_",
                    a.donation.as_str(),
                    "_",
                    a.valid_token.as_str(),
                ],
            );
            let salted = concat_str(ts.as_str(), "Aa90_89123jn!jkna90+ak90Aa113asgj");
            let third = join(&[signed.as_str(), "_", "3082", "_", model2.as_str()]);
            proof {
                reveal_with_fuel(Seq::fold_left, 8);
            }
            headers.push(pair("openId", a.openid.clone()));
            headers.push(pair("nickName", url_encode(nick.as_str())));
            headers.push(pair("validtoken", a.valid_token.clone()));
            headers.push(pair("isDonation", a.donation.clone()));
            headers.push(pair("token", md5_hex(salted.as_str())));
            headers.push(pair("time_stamp", ts.clone()));
            headers.push(pair("token2", md5_hex(signed.as_str())));
            headers.push(pair("time_stamp2", ts.clone()));
            headers.push(pair("token3", md5_hex(third.as_str())));
            proof {
                let spec_all = base_headers_spec(*config, *identity, device_type@, Some(*a), now_ms);
                assert(signed@ =~= ts@ + salt2() + a.openid@ + "_"@ + a.donation@ + "_"@
                    + a.valid_token@);
                assert(third@ =~= signed@ + "_"@ + client_version() + "_"@ + model2@);
                assert(pair_views(headers@) =~= spec_all);
            }
        },
    }
    headers
}

/// Text without its leading `/` characters.
pub fn strip_leading_slashes(path: &str) -> (r: Vec<char>)
    ensures
        r@ == strip_slashes(path@),
{
    let p = chars_of(path);
    let mut i: usize = 0;
    proof {
        assert(p@.subrange(0, p@.len() as int) =~= p@);
    }
    while i < p.len() && p[i] == '/'
        invariant
            i <= p@.len(),
            strip_slashes(path@) == strip_slashes(p@.subrange(i as int, p@.len() as int)),
            p@ == path@,
        decreases p@.len() - i,
    {
        proof {
            let t = p@.subrange(i as int, p@.len() as int);
            assert(t.drop_first() =~= p@.subrange(i + 1, p@.len() as int));
        }
        i = i + 1;
    }
    let r = slice_range(p.as_slice(), i, p.len());
    proof {
        let t = p@.subrange(i as int, p@.len() as int);
        if t.len() > 0 {
            assert(t[0] == p@[i as int]);
        }
    }
    r
}

/// `api_url`.
pub fn api_url(path: &str) -> (r: String)
    ensures
        r@ == api_url_of(path@),
{
    let rest = string_from_chars(strip_leading_slashes(path).as_slice());
    concat_str("https://www.mibandtool.club:9073/", rest.as_str())
}

/// `api_json_url`.
pub fn api_json_url(path: &str) -> (r: String)
    ensures
        r@ == api_json_url_of(path@),
{
    let rest = string_from_chars(strip_leading_slashes(path).as_slice());
    concat_str("https://res.mibandtool.club:9073/", rest.as_str())
}

/// What a reply of the community API means: `status` is the HTTP status,
/// `body` the JSON reading of the reply (`None` when it is not JSON) and
/// `body_text` its text.
pub open spec fn api_reply(status: u16, body: Option<JsonValue>, body_text: Seq<char>) -> Result<JsonValue, Seq<char>> {
    if status >= 400 {
        Err("http "@ + nat_text(status as nat) + ": "@ + body_text)
    } else {
        match body {
            None => Err("failed to decode response body as JSON: "@ + body_text),
            Some(v) => match json_get(v, "code"@) {
                Some(c) => match json_as_i64(c) {
                    Some(code) => {
                        let msg = match json_get_str(v, "msg"@) {
                            Some(m) => m,
                            None => "unknown api error"@,
                        };
                        if code == 0 {
                            Ok(match json_get(v, "data"@) { Some(d) => d, None => JsonValue::Null })
                        } else if code == -1 || code == 9991 || code == 9999 {
                            Err(msg)
                        } else {
                            Err("api error "@ + int_text(code as int) + ": "@ + msg)
                        }
                    },
                    None => Ok(v),
                },
                None => Ok(v),
            },
        }
    }
}

pub open spec fn reply_view(r: Result<JsonValue, String>) -> Result<JsonValue, Seq<char>> {
    match r {
        Ok(v) => Ok(v),
        Err(e) => Err(e@),
    }
}

/// How a reply of the community API is read.
pub fn interpret_api_reply(status: u16, body: Option<JsonValue>, body_text: &str) -> (r: Result<JsonValue, String>)
    ensures
        reply_view(r) == api_reply(status, body, body_text@),
{
    proof {
        reveal_with_fuel(Seq::fold_left, 5);
    }
    if status >= 400 {
        let s = u64_to_text(status as u64);
        return Err(join(&["http ", s.as_str(), ": ", body_text]));
    }
    match body {
        None => Err(concat_str("failed to decode response body as JSON: ", body_text)),
        Some(v) => {
            let code = match v.get("code") {
                Some(c) => c.as_i64(),
                None => None,
            };
            match code {
                None => Ok(v),
                Some(code) => {
                    if code == 0 {
                        match take_member(v, "data") {
                            Some(d) => Ok(d),
                            None => Ok(JsonValue::Null),
                        }
                    } else {
                        let msg = match v.get("msg") {
                            Some(m) => match m.as_str() {
                                Some(t) => String::from_str(t),
                                None => String::from_str("unknown api error"),
                            },
                            None => String::from_str("unknown api error"),
                        };
                        if code == -1 || code == 9991 || code == 9999 {
                            Err(msg)
                        } else {
                            let c = i64_to_text(code);
                            Err(join(&["api error ", c.as_str(), ": ", msg.as_str()]))
                        }
                    }
                },
            }
        },
    }
}

} // verus!
