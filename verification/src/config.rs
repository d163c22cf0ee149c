//! Provider configuration: merging host-supplied settings, defaults and the
//! credentials derived from them.
use vstd::prelude::*;
use crate::json::{JsonValue, Scalar, json_get, scalar_of};
use crate::numbers::parse_i64;
use crate::text::{
    trim, lower, contains_text, trim_str, trim_chars, lower_chars, chars_contain, chars_of,
    str_eq, string_from_chars, slice_range,
};

verus! {

/// Settings of this client towards the community servers.
#[derive(Clone, Debug)]
pub struct ClientIdentity {
    pub did: String,
    pub model: String,
    pub model2: String,
    pub model3: String,
    pub app_signature_sha1: String,
}

/// A logged-in community session.
#[derive(Clone, Debug)]
pub struct AuthContext {
    pub openid: String,
    pub valid_token: String,
    pub nickname: Option<String>,
    pub donation: String,
}

/// Everything the host may configure, each setting optional.
#[derive(Clone, Debug, Default)]
pub struct ProviderConfig {
    pub device_type: Option<String>,
    pub username: Option<String>,
    pub password: Option<String>,
    pub mitan_code: Option<String>,
    pub openid: Option<String>,
    pub valid_token: Option<String>,
    pub nickname: Option<String>,
    pub donation: Option<String>,
    pub limit_mac: Option<String>,
    pub use_donor_download: Option<bool>,
    pub did: Option<String>,
    pub model: Option<String>,
    pub model2: Option<String>,
    pub model3: Option<String>,
    pub lang: Option<String>,
    pub app_signature_sha1: Option<String>,
}

#[derive(Clone, Copy, Debug, PartialEq, Eq)]
pub enum LoginKind {
    UsernamePassword,
    OauthCode,
}

/// What a community login request sends.
#[derive(Clone, Debug)]
pub struct LoginPayload {
    pub kind: LoginKind,
    pub name: Option<String>,
    pub password: Option<String>,
    pub code: Option<String>,
}

/// The text of an optional string.
pub open spec fn ov(o: Option<String>) -> Option<Seq<char>> {
    match o {
        Some(s) => Some(s@),
        None => None,
    }
}

/// Absent, or white space only.
pub open spec fn blank(o: Option<Seq<char>>) -> bool {
    match o {
        Some(t) => trim(t).len() == 0,
        None => true,
    }
}

/// The trimmed text, when it is not empty.
pub open spec fn nonblank(o: Option<Seq<char>>) -> Option<Seq<char>> {
    match o {
        Some(t) => if trim(t).len() > 0 { Some(trim(t)) } else { None },
        None => None,
    }
}

/// The value mentions "astrobox" in any letter case.
pub open spec fn has_astrobox(o: Option<Seq<char>>) -> bool {
    match o {
        Some(t) => contains_text(lower(trim(t)), "astrobox"@),
        None => false,
    }
}

pub open spec fn or_text(a: Option<Seq<char>>, b: Option<Seq<char>>) -> Option<Seq<char>> {
    match a {
        Some(_) => a,
        None => b,
    }
}

pub open spec fn or_flag(a: Option<bool>, b: Option<bool>) -> Option<bool> {
    match a {
        Some(_) => a,
        None => b,
    }
}

pub open spec fn default_device_type() -> Seq<char> {
    "mi7"@
}

pub open spec fn default_lang() -> Seq<char> {
    "zh"@
}

/// `normalize`: fills each unset (or blank) setting from the defaults and the
/// client identity; a `did` or `model` that mentions "astrobox" is replaced too.
pub open spec fn normalized(new: ProviderConfig, old: ProviderConfig, id: ClientIdentity) -> bool {
    &&& ov(new.device_type) == (if blank(ov(old.device_type)) {
        Some(default_device_type())
    } else {
        ov(old.device_type)
    })
    &&& ov(new.did) == (if blank(ov(old.did)) || has_astrobox(ov(old.did)) {
        Some(id.did@)
    } else {
        ov(old.did)
    })
    &&& ov(new.model) == (if blank(ov(old.model)) || has_astrobox(ov(old.model)) {
        Some(id.model@)
    } else {
        ov(old.model)
    })
    &&& ov(new.lang) == (if blank(ov(old.lang)) {
        Some(default_lang())
    } else {
        ov(old.lang)
    })
    &&& ov(new.model2) == (if blank(ov(old.model2)) {
        Some(id.model2@)
    } else {
        ov(old.model2)
    })
    &&& ov(new.app_signature_sha1) == (if blank(ov(old.app_signature_sha1)) {
        Some(id.app_signature_sha1@)
    } else {
        ov(old.app_signature_sha1)
    })
    &&& ov(new.model3) == (if blank(ov(old.model3)) {
        Some(id.model3@)
    } else {
        ov(old.model3)
    })
    &&& new.username == old.username
    &&& new.password == old.password
    &&& new.mitan_code == old.mitan_code
    &&& new.openid == old.openid
    &&& new.valid_token == old.valid_token
    &&& new.nickname == old.nickname
    &&& new.donation == old.donation
    &&& new.limit_mac == old.limit_mac
    &&& new.use_donor_download == old.use_donor_download
}

/// Two configurations hold the same settings.
pub open spec fn same_settings(a: ProviderConfig, b: ProviderConfig) -> bool {
    &&& ov(a.device_type) == ov(b.device_type)
    &&& ov(a.username) == ov(b.username)
    &&& ov(a.password) == ov(b.password)
    &&& ov(a.mitan_code) == ov(b.mitan_code)
    &&& ov(a.openid) == ov(b.openid)
    &&& ov(a.valid_token) == ov(b.valid_token)
    &&& ov(a.nickname) == ov(b.nickname)
    &&& ov(a.donation) == ov(b.donation)
    &&& ov(a.limit_mac) == ov(b.limit_mac)
    &&& a.use_donor_download == b.use_donor_download
    &&& ov(a.did) == ov(b.did)
    &&& ov(a.model) == ov(b.model)
    &&& ov(a.model2) == ov(b.model2)
    &&& ov(a.model3) == ov(b.model3)
    &&& ov(a.lang) == ov(b.lang)
    &&& ov(a.app_signature_sha1) == ov(b.app_signature_sha1)
}

/// `normalize` is idempotent: normalizing a normalized configuration again,
/// with the same client identity, gives every setting the same value.
pub proof fn law_normalize_idempotent(c: ProviderConfig, once: ProviderConfig, twice: ProviderConfig, id: ClientIdentity)
    requires
        normalized(once, c, id),
        normalized(twice, once, id),
    ensures
        same_settings(twice, once),
{
    reveal_strlit("mi7");
    reveal_strlit("zh");
    assert(crate::text::trim_left(default_device_type()) == default_device_type());
    assert(crate::text::trim_right(default_device_type()) == default_device_type());
    assert(crate::text::trim_left(default_lang()) == default_lang());
    assert(crate::text::trim_right(default_lang()) == default_lang());
}

/// After `normalize`, with an identity whose own settings are present (and,
/// for the device id and model, free of `astrobox`), every setting it fills
/// is present and not blank, and the device id and model are free of
/// `astrobox`.
pub proof fn law_normalized_settings_present(c: ProviderConfig, once: ProviderConfig, id: ClientIdentity)
    requires
        normalized(once, c, id),
        !blank(Some(id.did@)) && !has_astrobox(Some(id.did@)),
        !blank(Some(id.model@)) && !has_astrobox(Some(id.model@)),
        !blank(Some(id.model2@)),
        !blank(Some(id.model3@)),
        !blank(Some(id.app_signature_sha1@)),
    ensures
        !blank(ov(once.device_type)),
        !blank(ov(once.did)) && !has_astrobox(ov(once.did)),
        !blank(ov(once.model)) && !has_astrobox(ov(once.model)),
        !blank(ov(once.lang)),
        !blank(ov(once.model2)),
        !blank(ov(once.model3)),
        !blank(ov(once.app_signature_sha1)),
{
    reveal_strlit("mi7");
    reveal_strlit("zh");
    assert(crate::text::trim_left(default_device_type()) == default_device_type());
    assert(crate::text::trim_right(default_device_type()) == default_device_type());
    assert(crate::text::trim_left(default_lang()) == default_lang());
    assert(crate::text::trim_right(default_lang()) == default_lang());
}


// ----------------------------------------------------------------------------
// Reading settings out of a JSON object or of `key=value` lines.
/// Where the settings are read from: a key to the scalar stored under it.
pub type Source = spec_fn(Seq<char>) -> Option<Scalar>;

pub open spec fn json_source(obj: JsonValue) -> Source {
    |k: Seq<char>|
        match json_get(obj, k) {
            Some(v) => Some(scalar_of(v)),
            None => None,
        }
}

/// The value of the last pair with key `k`.
pub open spec fn last_value(p: Seq<(Seq<char>, Seq<char>)>, k: Seq<char>) -> Option<Seq<char>>
    decreases p.len(),
{
    if p.len() == 0 {
        None
    } else if p.last().0 == k {
        Some(p.last().1)
    } else {
        last_value(p.drop_last(), k)
    }
}

pub open spec fn pairs_source(p: Seq<(Seq<char>, Seq<char>)>) -> Source {
    |k: Seq<char>|
        match last_value(p, k) {
            Some(v) => Some(Scalar::Text(v)),
            None => None,
        }
}

/// The scalar under the first of the keys that is present.
pub open spec fn first_present(src: Source, keys: Seq<Seq<char>>) -> Option<Scalar>
    decreases keys.len(),
{
    if keys.len() == 0 {
        None
    } else {
        match src(keys[0]) {
            Some(v) => Some(v),
            None => first_present(src, keys.drop_first()),
        }
    }
}

/// The text of a found setting: a string as it is, a number or flag as text.
pub open spec fn scalar_text(s: Scalar) -> Option<Seq<char>> {
    match s {
        Scalar::Bool(b) => Some(if b { "1"@ } else { "0"@ }),
        Scalar::Num(t) => Some(t),
        Scalar::Text(t) => Some(t),
        _ => None,
    }
}

/// The flag of a found setting: a boolean, or a text or number that reads as one.
pub open spec fn scalar_flag(s: Scalar) -> Option<bool> {
    match s {
        Scalar::Bool(b) => Some(b),
        Scalar::Text(t) => {
            let l = lower(trim(t));
            if l == "1"@ || l == "true"@ || l == "yes"@ || l == "on"@ {
                Some(true)
            } else if l == "0"@ || l == "false"@ || l == "no"@ || l == "off"@ {
                Some(false)
            } else {
                None
            }
        },
        Scalar::Num(t) => match parse_i64(t) {
            Some(v) => Some(v != 0),
            None => None,
        },
        _ => None,
    }
}

/// `pick_string`: the trimmed text of the first present key, if not empty.
pub open spec fn pick_text(src: Source, keys: Seq<Seq<char>>) -> Option<Seq<char>> {
    match first_present(src, keys) {
        Some(s) => nonblank(scalar_text(s)),
        None => None,
    }
}

/// `pick_bool`.
pub open spec fn pick_flag(src: Source, keys: Seq<Seq<char>>) -> Option<bool> {
    match first_present(src, keys) {
        Some(s) => scalar_flag(s),
        None => None,
    }
}

pub open spec fn keys_device_type() -> Seq<Seq<char>> {
    seq!["deviceType"@, "device_type"@, "type"@, "device"@]
}

pub open spec fn keys_username() -> Seq<Seq<char>> {
    seq!["username"@, "name"@, "account"@, "mitanUsername"@]
}

pub open spec fn keys_password() -> Seq<Seq<char>> {
    seq!["password"@, "passwd"@, "mitanPassword"@]
}

pub open spec fn keys_code() -> Seq<Seq<char>> {
    seq!["mitanCode"@, "code"@, "oauthCode"@]
}

pub open spec fn keys_openid() -> Seq<Seq<char>> {
    seq!["openid"@, "openId"@, "mitanOpenid"@]
}

pub open spec fn keys_token() -> Seq<Seq<char>> {
    seq!["validToken"@, "valid_token"@, "token"@]
}

pub open spec fn keys_nickname() -> Seq<Seq<char>> {
    seq!["nickname"@, "nickName"@]
}

pub open spec fn keys_donation() -> Seq<Seq<char>> {
    seq!["donation"@, "isDonation"@]
}

pub open spec fn keys_limit_mac() -> Seq<Seq<char>> {
    seq!["limitMac"@, "limit_mac"@]
}

pub open spec fn keys_donor() -> Seq<Seq<char>> {
    seq!["useDonorDownload"@, "use_donor_download"@]
}

pub open spec fn keys_did() -> Seq<Seq<char>> {
    seq!["did"@]
}

pub open spec fn keys_model() -> Seq<Seq<char>> {
    seq!["androidModel"@, "model"@]
}

pub open spec fn keys_model2() -> Seq<Seq<char>> {
    seq!["model2"@]
}

pub open spec fn keys_model3() -> Seq<Seq<char>> {
    seq!["model3"@]
}

pub open spec fn keys_lang() -> Seq<Seq<char>> {
    seq!["lang"@, "language"@]
}

pub open spec fn keys_signature() -> Seq<Seq<char>> {
    seq!["appSignatureSha1"@, "signatureSha1"@]
}

/// Each setting found in `src` replaces the old one; the others stay.
pub open spec fn merged(new: ProviderConfig, old: ProviderConfig, src: Source) -> bool {
    &&& ov(new.device_type) == or_text(pick_text(src, keys_device_type()), ov(old.device_type))
    &&& ov(new.username) == or_text(pick_text(src, keys_username()), ov(old.username))
    &&& ov(new.password) == or_text(pick_text(src, keys_password()), ov(old.password))
    &&& ov(new.mitan_code) == or_text(pick_text(src, keys_code()), ov(old.mitan_code))
    &&& ov(new.openid) == or_text(pick_text(src, keys_openid()), ov(old.openid))
    &&& ov(new.valid_token) == or_text(pick_text(src, keys_token()), ov(old.valid_token))
    &&& ov(new.nickname) == or_text(pick_text(src, keys_nickname()), ov(old.nickname))
    &&& ov(new.donation) == or_text(pick_text(src, keys_donation()), ov(old.donation))
    &&& ov(new.limit_mac) == or_text(pick_text(src, keys_limit_mac()), ov(old.limit_mac))
    &&& new.use_donor_download == or_flag(pick_flag(src, keys_donor()), old.use_donor_download)
    &&& ov(new.did) == or_text(pick_text(src, keys_did()), ov(old.did))
    &&& ov(new.model) == or_text(pick_text(src, keys_model()), ov(old.model))
    &&& ov(new.model2) == or_text(pick_text(src, keys_model2()), ov(old.model2))
    &&& ov(new.model3) == or_text(pick_text(src, keys_model3()), ov(old.model3))
    &&& ov(new.lang) == or_text(pick_text(src, keys_lang()), ov(old.lang))
    &&& ov(new.app_signature_sha1) == or_text(
        pick_text(src, keys_signature()),
        ov(old.app_signature_sha1),
    )
}

/// Index of the first `c` in `s`, or `s.len()`.
pub open spec fn find_char(s: Seq<char>, c: char) -> int
    decreases s.len(),
{
    if s.len() == 0 {
        0
    } else if s[0] == c {
        0
    } else {
        1 + find_char(s.drop_first(), c)
    }
}

pub proof fn lemma_find_char(s: Seq<char>, c: char)
    ensures
        0 <= find_char(s, c) <= s.len(),
        find_char(s, c) < s.len() ==> s[find_char(s, c)] == c,
        forall|k: int| 0 <= k < find_char(s, c) ==> s[k] != c,
    decreases s.len(),
{
    if s.len() > 0 && s[0] != c {
        lemma_find_char(s.drop_first(), c);
        assert forall|k: int| 0 <= k < find_char(s, c) implies s[k] != c by {
            if k > 0 {
                assert(s[k] == s.drop_first()[k - 1]);
            }
        }
    }
}

/// `split` on a character.
pub open spec fn split_on(s: Seq<char>, c: char) -> Seq<Seq<char>>
    decreases s.len(),
{
    let i = find_char(s, c);
    proof {
        lemma_find_char(s, c);
    }
    if i >= s.len() {
        seq![s]
    } else {
        seq![s.subrange(0, i)] + split_on(s.subrange(i + 1, s.len() as int), c)
    }
}

/// A `key=value` (or else `key:value`) line, both sides trimmed.
pub open spec fn line_pair(line: Seq<char>) -> Option<(Seq<char>, Seq<char>)> {
    let l = trim(line);
    let e = find_char(l, '=');
    let c = find_char(l, ':');
    if l.len() == 0 {
        None
    } else if e < l.len() {
        Some((trim(l.subrange(0, e)), trim(l.subrange(e + 1, l.len() as int))))
    } else if c < l.len() {
        Some((trim(l.subrange(0, c)), trim(l.subrange(c + 1, l.len() as int))))
    } else {
        None
    }
}

/// The first `c` in `s` is at `k`.
proof fn lemma_find_char_at(s: Seq<char>, c: char, k: int)
    requires
        0 <= k < s.len(),
        s[k] == c,
        forall|j: int| 0 <= j < k ==> s[j] != c,
    ensures
        find_char(s, c) == k,
{
    lemma_find_char(s, c);
}

/// A line with `=` in it is split at its first `=`: the key is the trimmed
/// text before it, the value the trimmed text after it (a `:` anywhere
/// plays no part).
pub proof fn law_line_pair_at_equals(line: Seq<char>, e: int)
    requires
        0 <= e < trim(line).len(),
        trim(line)[e] == '=',
        forall|j: int| 0 <= j < e ==> trim(line)[j] != '=',
    ensures
        line_pair(line) == Some(
            (trim(trim(line).subrange(0, e)), trim(trim(line).subrange(e + 1, trim(line).len() as int))),
        ),
{
    lemma_find_char_at(trim(line), '=', e);
}

/// A line with no `=` but a `:` is split at its first `:`, so `key: value`
/// reads like `key=value`: the key is the trimmed text before the `:`, the
/// value the trimmed text after it.
pub proof fn law_line_pair_at_colon(line: Seq<char>, c: int)
    requires
        0 <= c < trim(line).len(),
        trim(line)[c] == ':',
        forall|j: int| 0 <= j < c ==> trim(line)[j] != ':',
        forall|j: int| 0 <= j < trim(line).len() ==> trim(line)[j] != '=',
    ensures
        line_pair(line) == Some(
            (trim(trim(line).subrange(0, c)), trim(trim(line).subrange(c + 1, trim(line).len() as int))),
        ),
{
    lemma_find_char_at(trim(line), ':', c);
    lemma_find_char(trim(line), '=');
}

/// A line with neither `=` nor `:` holds no pair.
pub proof fn law_line_pair_none(line: Seq<char>)
    requires
        forall|j: int| 0 <= j < trim(line).len() ==> trim(line)[j] != '=' && trim(line)[j] != ':',
    ensures
        line_pair(line) is None,
{
    lemma_find_char(trim(line), '=');
    lemma_find_char(trim(line), ':');
}

/// The pairs of the lines that hold one, in order.
pub open spec fn pairs_of_lines(lines: Seq<Seq<char>>) -> Seq<(Seq<char>, Seq<char>)>
    decreases lines.len(),
{
    if lines.len() == 0 {
        seq![]
    } else {
        let rest = pairs_of_lines(lines.drop_last());
        match line_pair(lines.last()) {
            Some(p) => rest.push(p),
            None => rest,
        }
    }
}

pub open spec fn config_pairs(t: Seq<char>) -> Seq<(Seq<char>, Seq<char>)> {
    pairs_of_lines(split_on(t, '\n'))
}

/// What `merge_raw` does with the text `raw`, given `parsed`, the JSON
/// reading of the trimmed text (`None` when it is not JSON).
pub open spec fn raw_merged(
    new: ProviderConfig,
    old: ProviderConfig,
    raw: Seq<char>,
    parsed: Option<JsonValue>,
    ok: bool,
) -> bool {
    let t = trim(raw);
    if t.len() == 0 {
        ok && new == old
    } else {
        match parsed {
            Some(v) => if v is Object {
                ok && merged(new, old, json_source(v))
            } else {
                !ok && new == old
            },
            None => {
                let p = config_pairs(t);
                if (contains_text(t, "="@) || contains_text(t, ":"@)) && p.len() > 0 {
                    ok && merged(new, old, pairs_source(p))
                } else {
                    ok && ov(new.device_type) == Some(t) && new == (ProviderConfig {
                        device_type: new.device_type,
                        ..old
                    })
                }
            },
        }
    }
}

/// A found setting: a JSON member, or the text of a `key=value` line.
pub enum Found<'a> {
    Member(&'a JsonValue),
    Text(&'a String),
}

pub open spec fn found_scalar(f: Found) -> Scalar {
    match f {
        Found::Member(v) => scalar_of(*v),
        Found::Text(s) => Scalar::Text(s@),
    }
}

/// Where `merge` reads the settings from.
pub enum SettingSource<'a> {
    Json(&'a JsonValue),
    Pairs(&'a [(String, String)]),
}

pub open spec fn pair_views(p: Seq<(String, String)>) -> Seq<(Seq<char>, Seq<char>)> {
    p.map_values(|x: (String, String)| (x.0@, x.1@))
}

pub open spec fn setting_source(s: SettingSource) -> Source {
    match s {
        SettingSource::Json(v) => json_source(*v),
        SettingSource::Pairs(p) => pairs_source(pair_views(p@)),
    }
}

/// The value of the last pair with the given key.
pub fn last_pair_value<'a>(p: &'a [(String, String)], key: &str) -> (r: Option<&'a String>)
    ensures
        match r {
            Some(v) => last_value(pair_views(p@), key@) == Some(v@),
            None => last_value(pair_views(p@), key@) is None,
        },
{
    let mut j: usize = p.len();
    proof {
        assert(p@.subrange(0, p@.len() as int) =~= p@);
    }
    while j > 0
        invariant
            j <= p@.len(),
            last_value(pair_views(p@), key@) == last_value(pair_views(p@.subrange(0, j as int)), key@),
        decreases j,
    {
        let ghost q = pair_views(p@.subrange(0, j as int));
        proof {
            assert(q.last() == (p@[j - 1].0@, p@[j - 1].1@));
            assert(q.drop_last() =~= pair_views(p@.subrange(0, j - 1)));
        }
        if str_eq(p[j - 1].0.as_str(), key) {
            return Some(&p[j - 1].1);
        }
        j = j - 1;
    }
    proof {
        assert(pair_views(p@.subrange(0, 0)) =~= Seq::<(Seq<char>, Seq<char>)>::empty());
    }
    None
}

impl<'a> SettingSource<'a> {
    pub fn lookup(&self, key: &str) -> (r: Option<Found<'a>>)
        ensures
            match r {
                Some(f) => (setting_source(*self))(key@) == Some(found_scalar(f)),
                None => (setting_source(*self))(key@) is None,
            },
    {
        match self {
            SettingSource::Json(v) => match v.get(key) {
                Some(m) => Some(Found::Member(m)),
                None => None,
            },
            SettingSource::Pairs(p) => match last_pair_value(p, key) {
                Some(t) => Some(Found::Text(t)),
                None => None,
            },
        }
    }

    /// The setting under the first present key.
    pub fn first_present(&self, keys: &[&str]) -> (r: Option<Found<'a>>)
        ensures
            match r {
                Some(f) => first_present(setting_source(*self), keys@.map_values(|k: &str| k@))
                    == Some(found_scalar(f)),
                None => first_present(setting_source(*self), keys@.map_values(|k: &str| k@)) is None,
            },
    {
        let ghost all = keys@.map_values(|k: &str| k@);
        let mut i: usize = 0;
        proof {
            assert(all.skip(0) =~= all);
        }
        while i < keys.len()
            invariant
                i <= keys@.len(),
                all == keys@.map_values(|k: &str| k@),
                first_present(setting_source(*self), all) == first_present(
                    setting_source(*self),
                    all.skip(i as int),
                ),
            decreases keys@.len() - i,
        {
            let ghost rest = all.skip(i as int);
            proof {
                assert(rest[0] == keys@[i as int]@);
                assert(rest.drop_first() =~= all.skip(i + 1));
            }
            match self.lookup(keys[i]) {
                Some(f) => {
                    return Some(f);
                },
                None => {},
            }
            i = i + 1;
        }
        None
    }

    /// `pick_string`.
    pub fn pick_string(&self, keys: &[&str]) -> (r: Option<String>)
        ensures
            ov(r) == pick_text(setting_source(*self), keys@.map_values(|k: &str| k@)),
    {
        match self.first_present(keys) {
            Some(f) => match found_text(&f) {
                Some(t) => {
                    let v = trim_str(t.as_str());
                    if v.as_str().is_empty() {
                        None
                    } else {
                        Some(v)
                    }
                },
                None => None,
            },
            None => None,
        }
    }

    /// `pick_bool`.
    pub fn pick_bool(&self, keys: &[&str]) -> (r: Option<bool>)
        ensures
            r == pick_flag(setting_source(*self), keys@.map_values(|k: &str| k@)),
    {
        match self.first_present(keys) {
            Some(f) => found_flag(&f),
            None => None,
        }
    }
}

/// The text of a found setting: a string as it is, a number or flag as text.
pub fn found_text(f: &Found) -> (r: Option<String>)
    ensures
        ov(r) == scalar_text(found_scalar(*f)),
{
    match f {
        Found::Text(s) => Some((*s).clone()),
        Found::Member(v) => match v {
            JsonValue::Bool(b) => Some(if *b {
                String::from_str("1")
            } else {
                String::from_str("0")
            }),
            JsonValue::Number(t) => Some(t.clone()),
            JsonValue::Str(s) => Some(s.clone()),
            _ => None,
        },
    }
}

/// Reading of a text as a yes/no flag (`1 true yes on` / `0 false no off`, any case).
pub fn text_flag(t: &str) -> (r: Option<bool>)
    ensures
        r == scalar_flag(Scalar::Text(t@)),
{
    let tr = trim_chars(t);
    let l = lower_chars(tr.as_slice());
    let s = string_from_chars(l.as_slice());
    let s = s.as_str();
    if str_eq(s, "1") || str_eq(s, "true") || str_eq(s, "yes") || str_eq(s, "on") {
        Some(true)
    } else if str_eq(s, "0") || str_eq(s, "false") || str_eq(s, "no") || str_eq(s, "off") {
        Some(false)
    } else {
        None
    }
}

/// The flag of a found setting: a boolean, or a text or number that reads as one.
pub fn found_flag(f: &Found) -> (r: Option<bool>)
    ensures
        r == scalar_flag(found_scalar(*f)),
{
    match f {
        Found::Text(s) => text_flag(s.as_str()),
        Found::Member(v) => match v {
            JsonValue::Bool(b) => Some(*b),
            JsonValue::Str(s) => text_flag(s.as_str()),
            JsonValue::Number(_) => match v.as_i64() {
                Some(n) => Some(n != 0),
                None => None,
            },
            _ => None,
        },
    }
}


/// Index of the first `c` in `s[start..]`, counted from `start`.
pub fn find_char_from(s: &[char], start: usize, c: char) -> (r: usize)
    requires
        start <= s@.len(),
    ensures
        r == find_char(s@.subrange(start as int, s@.len() as int), c),
        r <= s@.len() - start,
{
    let ghost t = s@.subrange(start as int, s@.len() as int);
    let mut i = start;
    while i < s.len() && s[i] != c
        invariant
            start <= i <= s@.len(),
            t == s@.subrange(start as int, s@.len() as int),
            forall|k: int| 0 <= k < i - start ==> t[k] != c,
        decreases s@.len() - i,
    {
        i = i + 1;
    }
    proof {
        lemma_find_char(t, c);
        let f = find_char(t, c);
        if f < i - start {
            assert(t[f] == c);
        }
        if f > i - start {
            assert(t[i - start] == s@[i as int]);
        }
    }
    i - start
}

/// The pair of one configuration line.
pub fn line_pair_exec(line: &[char]) -> (r: Option<(String, String)>)
    ensures
        match r {
            Some(p) => line_pair(line@) == Some((p.0@, p.1@)),
            None => line_pair(line@) is None,
        },
{
    let l_str = string_from_chars(line);
    let l = trim_chars(l_str.as_str());
    if l.len() == 0 {
        return None;
    }
    let e = find_char_from(l.as_slice(), 0, '=');
    let c = find_char_from(l.as_slice(), 0, ':');
    proof {
        assert(l@.subrange(0, l@.len() as int) =~= l@);
    }
    let cut = if e < l.len() {
        e
    } else if c < l.len() {
        c
    } else {
        return None;
    };
    let k = string_from_chars(slice_range(l.as_slice(), 0, cut).as_slice());
    let v = string_from_chars(slice_range(l.as_slice(), cut + 1, l.len()).as_slice());
    Some((trim_str(k.as_str()), trim_str(v.as_str())))
}

pub proof fn lemma_pairs_of_lines_push(a: Seq<Seq<char>>, line: Seq<char>)
    ensures
        pairs_of_lines(a.push(line)) == match line_pair(line) {
            Some(p) => pairs_of_lines(a).push(p),
            None => pairs_of_lines(a),
        },
{
    assert(a.push(line).drop_last() =~= a);
}

/// The `key=value` pairs of a configuration text.
pub fn config_pairs_exec(t: &[char]) -> (r: Vec<(String, String)>)
    ensures
        pair_views(r@) == config_pairs(t@),
{
    let mut out: Vec<(String, String)> = Vec::new();
    let mut start: usize = 0;
    let ghost mut done: Seq<Seq<char>> = seq![];
    proof {
        assert(t@.subrange(0, t@.len() as int) =~= t@);
        assert(done + split_on(t@, '\n') =~= split_on(t@, '\n'));
        assert(pair_views(out@) =~= pairs_of_lines(done));
    }
    loop
        invariant
            start <= t@.len(),
            split_on(t@, '\n') == done + split_on(t@.subrange(start as int, t@.len() as int), '\n'),
            pair_views(out@) == pairs_of_lines(done),
        decreases t@.len() - start,
    {
        let ghost rest = t@.subrange(start as int, t@.len() as int);
        let i = find_char_from(t, start, '\n');
        proof {
            lemma_find_char(rest, '\n');
        }
        let n = t.len();
        assert(i <= n - start);
        let line = slice_range(t, start, start + i);
        proof {
            assert(line@ =~= rest.subrange(0, i as int));
        }
        let lp = line_pair_exec(line.as_slice());
        let ghost old_out = out@;
        match lp {
            Some(p) => {
                out.push(p);
            },
            None => {},
        }
        proof {
            lemma_pairs_of_lines_push(done, line@);
            assert(pair_views(out@) =~= pairs_of_lines(done.push(line@)));
        }
        if start + i >= t.len() {
            proof {
                assert(split_on(rest, '\n') == seq![rest]);
                assert(rest =~= line@);
                assert(done + seq![rest] =~= done.push(line@));
            }
            return out;
        }
        proof {
            assert(split_on(rest, '\n') == seq![rest.subrange(0, i as int)] + split_on(
                rest.subrange(i + 1, rest.len() as int),
                '\n',
            ));
            assert(rest.subrange(i + 1, rest.len() as int) =~= t@.subrange(
                start + i + 1,
                t@.len() as int,
            ));
            assert(done + (seq![line@] + split_on(t@.subrange(start + i + 1, t@.len() as int), '\n'))
                =~= done.push(line@) + split_on(t@.subrange(start + i + 1, t@.len() as int), '\n'));
            done = done.push(line@);
        }
        start = start + i + 1;
    }
}

/// Whether the trimmed value mentions "astrobox" in any letter case.
pub fn contains_astrobox(value: &Option<String>) -> (r: bool)
    ensures
        r == has_astrobox(ov(*value)),
{
    match value {
        Some(v) => {
            let t = trim_chars(v.as_str());
            let l = lower_chars(t.as_slice());
            let needle = chars_of("astrobox");
            chars_contain(l.as_slice(), needle.as_slice())
        },
        None => false,
    }
}

/// Whether an optional text is absent or white space only.
pub fn is_blank(value: &Option<String>) -> (r: bool)
    ensures
        r == blank(ov(*value)),
{
    match value {
        Some(v) => trim_chars(v.as_str()).len() == 0,
        None => true,
    }
}

/// The trimmed text of an optional string, when not empty.
pub fn nonblank_text(value: Option<&str>) -> (r: Option<String>)
    ensures
        ov(r) == nonblank(match value { Some(v) => Some(v@), None => None }),
{
    match value {
        Some(v) => {
            let t = trim_str(v);
            if t.as_str().is_empty() {
                None
            } else {
                Some(t)
            }
        },
        None => None,
    }
}

pub fn clone_opt(o: &Option<String>) -> (r: Option<String>)
    ensures
        r == *o,
{
    match o {
        Some(s) => Some(s.clone()),
        None => None,
    }
}

impl AuthContext {
    pub fn duplicate(&self) -> (r: AuthContext)
        ensures
            r == *self,
    {
        AuthContext {
            openid: self.openid.clone(),
            valid_token: self.valid_token.clone(),
            nickname: clone_opt(&self.nickname),
            donation: self.donation.clone(),
        }
    }
}

/// The first text when present, else the second.
pub fn or_keep(new: Option<String>, old: &Option<String>) -> (r: Option<String>)
    ensures
        ov(r) == or_text(ov(new), ov(*old)),
{
    match new {
        Some(v) => Some(v),
        None => clone_opt(old),
    }
}

impl ProviderConfig {
    /// A copy of the configuration.
    pub fn duplicate(&self) -> (r: ProviderConfig)
        ensures
            r == *self,
    {
        ProviderConfig {
            device_type: clone_opt(&self.device_type),
            username: clone_opt(&self.username),
            password: clone_opt(&self.password),
            mitan_code: clone_opt(&self.mitan_code),
            openid: clone_opt(&self.openid),
            valid_token: clone_opt(&self.valid_token),
            nickname: clone_opt(&self.nickname),
            donation: clone_opt(&self.donation),
            limit_mac: clone_opt(&self.limit_mac),
            use_donor_download: self.use_donor_download,
            did: clone_opt(&self.did),
            model: clone_opt(&self.model),
            model2: clone_opt(&self.model2),
            model3: clone_opt(&self.model3),
            lang: clone_opt(&self.lang),
            app_signature_sha1: clone_opt(&self.app_signature_sha1),
        }
    }

    /// Replaces each setting that the source holds.
    pub fn merge(&mut self, src: &SettingSource)
        ensures
            merged(*final(self), *old(self), setting_source(*src)),
    {
        let device_type = {
            let keys: &[&str] = &["deviceType", "device_type", "type", "device"];
            proof {
                assert(keys@.map_values(|k: &str| k@) =~= keys_device_type());
            }
            or_keep(src.pick_string(keys), &self.device_type)
        };
        let username = {
            let keys: &[&str] = &["username", "name", "account", "mitanUsername"];
            proof {
                assert(keys@.map_values(|k: &str| k@) =~= keys_username());
            }
            or_keep(src.pick_string(keys), &self.username)
        };
        let password = {
            let keys: &[&str] = &["password", "passwd", "mitanPassword"];
            proof {
                assert(keys@.map_values(|k: &str| k@) =~= keys_password());
            }
            or_keep(src.pick_string(keys), &self.password)
        };
        let mitan_code = {
            let keys: &[&str] = &["mitanCode", "code", "oauthCode"];
            proof {
                assert(keys@.map_values(|k: &str| k@) =~= keys_code());
            }
            or_keep(src.pick_string(keys), &self.mitan_code)
        };
        let openid = {
            let keys: &[&str] = &["openid", "openId", "mitanOpenid"];
            proof {
                assert(keys@.map_values(|k: &str| k@) =~= keys_openid());
            }
            or_keep(src.pick_string(keys), &self.openid)
        };
        let valid_token = {
            let keys: &[&str] = &["validToken", "valid_token", "token"];
            proof {
                assert(keys@.map_values(|k: &str| k@) =~= keys_token());
            }
            or_keep(src.pick_string(keys), &self.valid_token)
        };
        let nickname = {
            let keys: &[&str] = &["nickname", "nickName"];
            proof {
                assert(keys@.map_values(|k: &str| k@) =~= keys_nickname());
            }
            or_keep(src.pick_string(keys), &self.nickname)
        };
        let donation = {
            let keys: &[&str] = &["donation", "isDonation"];
            proof {
                assert(keys@.map_values(|k: &str| k@) =~= keys_donation());
            }
            or_keep(src.pick_string(keys), &self.donation)
        };
        let limit_mac = {
            let keys: &[&str] = &["limitMac", "limit_mac"];
            proof {
                assert(keys@.map_values(|k: &str| k@) =~= keys_limit_mac());
            }
            or_keep(src.pick_string(keys), &self.limit_mac)
        };
        let did = {
            let keys: &[&str] = &["did"];
            proof {
                assert(keys@.map_values(|k: &str| k@) =~= keys_did());
            }
            or_keep(src.pick_string(keys), &self.did)
        };
        let model = {
            let keys: &[&str] = &["androidModel", "model"];
            proof {
                assert(keys@.map_values(|k: &str| k@) =~= keys_model());
            }
            or_keep(src.pick_string(keys), &self.model)
        };
        let model2 = {
            let keys: &[&str] = &["model2"];
            proof {
                assert(keys@.map_values(|k: &str| k@) =~= keys_model2());
            }
            or_keep(src.pick_string(keys), &self.model2)
        };
        let model3 = {
            let keys: &[&str] = &["model3"];
            proof {
                assert(keys@.map_values(|k: &str| k@) =~= keys_model3());
            }
            or_keep(src.pick_string(keys), &self.model3)
        };
        let lang = {
            let keys: &[&str] = &["lang", "language"];
            proof {
                assert(keys@.map_values(|k: &str| k@) =~= keys_lang());
            }
            or_keep(src.pick_string(keys), &self.lang)
        };
        let app_signature_sha1 = {
            let keys: &[&str] = &["appSignatureSha1", "signatureSha1"];
            proof {
                assert(keys@.map_values(|k: &str| k@) =~= keys_signature());
            }
            or_keep(src.pick_string(keys), &self.app_signature_sha1)
        };
        let use_donor_download = {
            let keys: &[&str] = &["useDonorDownload", "use_donor_download"];
            proof {
                assert(keys@.map_values(|k: &str| k@) =~= keys_donor());
            }
            match src.pick_bool(keys) {
                Some(b) => Some(b),
                None => self.use_donor_download,
            }
        };
        *self = ProviderConfig {
            device_type,
            username,
            password,
            mitan_code,
            openid,
            valid_token,
            nickname,
            donation,
            limit_mac,
            did,
            model,
            model2,
            model3,
            lang,
            app_signature_sha1,
            use_donor_download,
        };
    }

    /// `merge_json`: the settings of a JSON object; anything else is refused
    /// and leaves the configuration as it was.
    pub fn merge_json(&mut self, value: &JsonValue) -> (r: Result<(), String>)
        ensures
            match r {
                Ok(()) => value is Object && merged(*final(self), *old(self), json_source(*value)),
                Err(e) => !(value is Object) && *final(self) == *old(self)
                    && e@ == "provider config must be a JSON object"@,
            },
    {
        match value {
            JsonValue::Object(_) => {
                self.merge(&SettingSource::Json(value));
                Ok(())
            },
            _ => Err(String::from_str("provider config must be a JSON object")),
        }
    }

    /// `merge_raw`: the text is, once trimmed, a JSON object (`parsed` is its
    /// JSON reading, `None` when it is not JSON), else `key=value`/`key:value`
    /// lines, else a device type; an empty text changes nothing.
    pub fn merge_raw(&mut self, raw: &str, parsed: &Option<JsonValue>) -> (r: Result<(), String>)
        ensures
            raw_merged(*final(self), *old(self), raw@, *parsed, r is Ok),
            r is Err ==> r->Err_0@ == "provider config must be a JSON object"@,
    {
        let t = trim_chars(raw);
        if t.len() == 0 {
            return Ok(());
        }
        match parsed {
            Some(v) => {
                return self.merge_json(v);
            },
            None => {},
        }
        let has_eq = chars_contain(t.as_slice(), chars_of("=").as_slice());
        let has_colon = chars_contain(t.as_slice(), chars_of(":").as_slice());
        if has_eq || has_colon {
            let pairs = config_pairs_exec(t.as_slice());
            if pairs.len() > 0 {
                self.merge(&SettingSource::Pairs(pairs.as_slice()));
                return Ok(());
            }
        }
        self.device_type = Some(string_from_chars(t.as_slice()));
        Ok(())
    }

    /// `normalize`.
    pub fn normalize(&mut self, identity: &ClientIdentity)
        ensures
            normalized(*final(self), *old(self), *identity),
    {
        if is_blank(&self.device_type) {
            self.device_type = Some(String::from_str("mi7"));
        }
        if is_blank(&self.did) || contains_astrobox(&self.did) {
            self.did = Some(identity.did.clone());
        }
        if is_blank(&self.model) || contains_astrobox(&self.model) {
            self.model = Some(identity.model.clone());
        }
        if is_blank(&self.lang) {
            self.lang = Some(String::from_str("zh"));
        }
        if is_blank(&self.model2) {
            self.model2 = Some(identity.model2.clone());
        }
        if is_blank(&self.app_signature_sha1) {
            self.app_signature_sha1 = Some(identity.app_signature_sha1.clone());
        }
        if is_blank(&self.model3) {
            self.model3 = Some(identity.model3.clone());
        }
    }

    /// The device type, `mi7` when unset.
    pub fn device_type(&self) -> (r: String)
        ensures
            r@ == match self.device_type { Some(d) => d@, None => default_device_type() },
    {
        match &self.device_type {
            Some(d) => d.clone(),
            None => String::from_str("mi7"),
        }
    }

    pub fn did(&self, identity: &ClientIdentity) -> (r: String)
        ensures
            r == match self.did { Some(d) => d, None => identity.did },
    {
        match &self.did {
            Some(d) => d.clone(),
            None => identity.did.clone(),
        }
    }

    pub fn model(&self, identity: &ClientIdentity) -> (r: String)
        ensures
            r == match self.model { Some(d) => d, None => identity.model },
    {
        match &self.model {
            Some(d) => d.clone(),
            None => identity.model.clone(),
        }
    }

    pub fn model2(&self, identity: &ClientIdentity) -> (r: String)
        ensures
            r == match self.model2 { Some(d) => d, None => identity.model2 },
    {
        match &self.model2 {
            Some(d) => d.clone(),
            None => identity.model2.clone(),
        }
    }

    pub fn model3(&self, identity: &ClientIdentity) -> (r: String)
        ensures
            r == match self.model3 { Some(d) => d, None => identity.model3 },
    {
        match &self.model3 {
            Some(d) => d.clone(),
            None => identity.model3.clone(),
        }
    }

    /// The language, `zh` when unset.
    pub fn lang(&self) -> (r: String)
        ensures
            r@ == match self.lang { Some(d) => d@, None => default_lang() },
    {
        match &self.lang {
            Some(d) => d.clone(),
            None => String::from_str("zh"),
        }
    }

    /// The session that the settings name outright: openid and token both set.
    pub fn explicit_auth(&self) -> (r: Option<AuthContext>)
        ensures
            match r {
                Some(a) => self.openid == Some(a.openid) && self.valid_token == Some(a.valid_token)
                    && a.nickname == self.nickname && a.donation@ == match self.donation {
                    Some(d) => d@,
                    None => "0"@,
                },
                None => self.openid is None || self.valid_token is None,
            },
    {
        match (&self.openid, &self.valid_token) {
            (Some(o), Some(t)) => Some(
                AuthContext {
                    openid: o.clone(),
                    valid_token: t.clone(),
                    nickname: clone_opt(&self.nickname),
                    donation: match &self.donation {
                        Some(d) => d.clone(),
                        None => String::from_str("0"),
                    },
                },
            ),
            _ => None,
        }
    }

    /// The login the settings ask for: an OAuth code first, else a user name
    /// with a password (all trimmed and not empty).
    pub fn login_payload(&self) -> (r: Option<LoginPayload>)
        ensures
            match r {
                Some(p) => if nonblank(ov(self.mitan_code)) is Some {
                    p.kind == LoginKind::OauthCode && p.name is None && p.password is None
                        && ov(p.code) == nonblank(ov(self.mitan_code))
                } else {
                    p.kind == LoginKind::UsernamePassword && p.code is None && ov(p.name)
                        == nonblank(ov(self.username)) && ov(p.password) == nonblank(
                        ov(self.password),
                    ) && p.name is Some && p.password is Some
                },
                None => nonblank(ov(self.mitan_code)) is None && (nonblank(ov(self.username)) is None
                    || nonblank(ov(self.password)) is None),
            },
    {
        let code = nonblank_text(match &self.mitan_code { Some(c) => Some(c.as_str()), None => None });
        if code.is_some() {
            return Some(LoginPayload { kind: LoginKind::OauthCode, name: None, password: None, code });
        }
        let name = nonblank_text(match &self.username { Some(c) => Some(c.as_str()), None => None });
        let password = nonblank_text(match &self.password { Some(c) => Some(c.as_str()), None => None });
        if name.is_none() || password.is_none() {
            return None;
        }
        Some(LoginPayload { kind: LoginKind::UsernamePassword, name, password, code: None })
    }
}
} // verus!
