//! The provider's session state: logging in and out, the persisted session
//! and the account summary shown to the user.
use vstd::prelude::*;
use vstd::utf8::encode_utf8;
use crate::api::{ApiRequest, HttpMethod, api_url_of, base_headers_spec, base_headers_for_type, api_url, md5_text, join};
use crate::codec::{pct_decode, url_encoded, url_encode, md5_hex, percent_decode};
use crate::config::{
    AuthContext, ClientIdentity, ProviderConfig, LoginKind, LoginPayload, SettingSource, ov,
    normalized, nonblank, pick_text, json_source, clone_opt, nonblank_text, pair_views,
};
use crate::devices::{DeviceInfo, dvs, ui_device_type, normalize_ui_device_type, has_model};
use crate::json::JsonValue;
use crate::numbers::nat_text;
use crate::text::{
    trim, eq_ignore_case, starts_with, occurs_at, trim_chars, chars_of, chars_eq_ignore_case,
    chars_occur_at, slice_range, string_from_chars, chars_starts_with, trim_str,
};
use crate::config::{find_char, split_on, lemma_find_char, find_char_from};

verus! {

/// One device choice of the user interface.
#[derive(Clone, Debug)]
pub struct UiDeviceChoice {
    pub model: String,
    pub name: String,
}

/// The account summary shown to the user.
#[derive(Clone, Debug)]
pub struct UiAccountSnapshot {
    pub logged_in: bool,
    pub device_type: String,
    pub device_name: String,
    pub nickname: Option<String>,
    pub openid_masked: Option<String>,
    pub donation: String,
    pub last_error: Option<String>,
}

/// What the provider holds between calls.
#[derive(Clone, Debug, Default)]
pub struct ProviderState {
    pub config: ProviderConfig,
    pub auth: Option<AuthContext>,
    pub last_login_error: Option<String>,
}

/// The part of the state kept across plugin reloads.
#[derive(Clone, Debug, Default)]
pub struct PersistedSession {
    pub device_type: Option<String>,
    pub openid: Option<String>,
    pub valid_token: Option<String>,
    pub nickname: Option<String>,
    pub donation: Option<String>,
    pub use_donor_download: Option<bool>,
}

// ----------------------------------------------------------------------------
// Masking an openid.
/// Length of a character's UTF-8 encoding.
pub open spec fn utf8_len(c: char) -> int {
    if (c as u32) < 0x80 {
        1
    } else if (c as u32) < 0x800 {
        2
    } else if (c as u32) < 0x10000 {
        3
    } else {
        4
    }
}

/// Length of a text's UTF-8 encoding.
pub open spec fn utf8_width(s: Seq<char>) -> int
    decreases s.len(),
{
    if s.len() == 0 {
        0
    } else {
        utf8_width(s.drop_last()) + utf8_len(s.last())
    }
}

/// The number of leading characters that take exactly `b` bytes.
pub open spec fn chars_in_bytes(s: Seq<char>, b: int) -> Option<int> {
    if exists|k: int| 0 <= k <= s.len() && utf8_width(s.subrange(0, k)) == b {
        Some(choose|k: int| 0 <= k <= s.len() && utf8_width(s.subrange(0, k)) == b)
    } else {
        None
    }
}

/// `mask_openid` does not panic: a trimmed openid over 8 bytes is cut at
/// character boundaries 4 bytes from each end.
pub open spec fn maskable(openid: Seq<char>) -> bool {
    let t = trim(openid);
    utf8_width(t) <= 8 || (chars_in_bytes(t, 4) is Some && chars_in_bytes(t, utf8_width(t) - 4) is Some)
}

/// `mask_openid`: the trimmed openid when at most 8 bytes long, else its
/// first and last 4 bytes around an ellipsis.
pub open spec fn masked(openid: Seq<char>) -> Seq<char> {
    let t = trim(openid);
    if utf8_width(t) <= 8 {
        t
    } else {
        let p = chars_in_bytes(t, 4)->Some_0;
        let q = chars_in_bytes(t, utf8_width(t) - 4)->Some_0;
        t.subrange(0, p) + "…"@ + t.subrange(q, t.len() as int)
    }
}

pub fn char_utf8_len(c: char) -> (r: usize)
    ensures
        r == utf8_len(c),
{
    let v = c as u32;
    if v < 0x80 {
        1
    } else if v < 0x800 {
        2
    } else if v < 0x10000 {
        3
    } else {
        4
    }
}

pub proof fn lemma_utf8_width_mono(s: Seq<char>, a: int, b: int)
    requires
        0 <= a <= b <= s.len(),
    ensures
        utf8_width(s.subrange(0, a)) + (b - a) <= utf8_width(s.subrange(0, b)),
    decreases b - a,
{
    if a < b {
        lemma_utf8_width_mono(s, a, b - 1);
        assert(s.subrange(0, b).drop_last() =~= s.subrange(0, b - 1));
    }
}

/// Character position where the first `b` bytes end, if a boundary is there.
pub fn boundary_at(t: &[char], b: u128) -> (r: Option<usize>)
    ensures
        match r {
            Some(k) => chars_in_bytes(t@, b as int) is Some && k <= t@.len() && utf8_width(t@.subrange(0, k as int)) == b,
            None => chars_in_bytes(t@, b as int) is None,
        },
{
    let mut k: usize = 0;
    let mut w: u128 = 0;
    proof {
        assert(t@.subrange(0, 0) =~= Seq::<char>::empty());
    }
    while k < t.len() && w < b
        invariant
            k <= t@.len(),
            w == utf8_width(t@.subrange(0, k as int)),
            w <= 4 * k,
            forall|j: int| 0 <= j < k ==> utf8_width(t@.subrange(0, j)) < b,
        decreases t@.len() - k,
    {
        proof {
            assert(t@.subrange(0, k + 1).drop_last() =~= t@.subrange(0, k as int));
        }
        w = w + char_utf8_len(t[k]) as u128;
        k = k + 1;
    }
    if w == b {
        return Some(k);
    }
    proof {
        assert forall|j: int| 0 <= j <= t@.len() implies utf8_width(t@.subrange(0, j)) != b by {
            if j < k {
            } else if j > k {
                lemma_utf8_width_mono(t@, k as int, j);
            }
        }
    }
    None
}

/// `mask_openid`.
pub fn mask_openid(openid: &str) -> (r: String)
    requires
        maskable(openid@),
    ensures
        r@ == masked(openid@),
{
    proof {
        reveal_with_fuel(Seq::fold_left, 4);
    }
    let t = trim_chars(openid);
    let mut total: u128 = 0;
    let mut k: usize = 0;
    while k < t.len()
        invariant
            k <= t@.len(),
            total == utf8_width(t@.subrange(0, k as int)),
            total <= 4 * k,
        decreases t@.len() - k,
    {
        proof {
            assert(t@.subrange(0, k + 1).drop_last() =~= t@.subrange(0, k as int));
        }
        total = total + char_utf8_len(t[k]) as u128;
        k = k + 1;
    }
    proof {
        assert(t@.subrange(0, t@.len() as int) =~= t@);
    }
    if total <= 8 {
        return string_from_chars(t.as_slice());
    }
    let p = boundary_at(t.as_slice(), 4);
    let q = boundary_at(t.as_slice(), total - 4);
    match (p, q) {
        (Some(p), Some(q)) => {
            proof {
                let cp = chars_in_bytes(t@, 4)->Some_0;
                let cq = chars_in_bytes(t@, total - 4)->Some_0;
                lemma_width_injective(t@, p as int, cp);
                lemma_width_injective(t@, q as int, cq);
            }
            let head = slice_range(t.as_slice(), 0, p);
            let tail = slice_range(t.as_slice(), q, t.len());
            join(&[string_from_chars(head.as_slice()).as_str(), "…", string_from_chars(tail.as_slice()).as_str()])
        },
        _ => {
            proof {
                assert(false);
            }
            String::new()
        },
    }
}

pub proof fn lemma_width_injective(s: Seq<char>, a: int, b: int)
    requires
        0 <= a <= s.len(),
        0 <= b <= s.len(),
        utf8_width(s.subrange(0, a)) == utf8_width(s.subrange(0, b)),
    ensures
        a == b,
{
    if a < b {
        lemma_utf8_width_mono(s, a, b);
    } else if b < a {
        lemma_utf8_width_mono(s, b, a);
    }
}


// ----------------------------------------------------------------------------
// Persisted session.
/// The session saved for a state.
pub open spec fn saved(st: ProviderState) -> PersistedSession {
    PersistedSession {
        device_type: st.config.device_type,
        openid: match st.auth { Some(a) => Some(a.openid), None => None },
        valid_token: match st.auth { Some(a) => Some(a.valid_token), None => None },
        nickname: match st.auth { Some(a) => a.nickname, None => None },
        donation: match st.auth { Some(a) => Some(a.donation), None => None },
        use_donor_download: st.config.use_donor_download,
    }
}

/// `apply_persisted_session`: the saved device type (when set) and donor
/// preference; a saved openid with its token restores the login.
pub open spec fn restored(new: ProviderState, old: ProviderState, ses: PersistedSession) -> bool {
    &&& new.config.device_type == match ses.device_type { Some(d) => Some(d), None => old.config.device_type }
    &&& new.config.use_donor_download == ses.use_donor_download
    &&& new.last_login_error == old.last_login_error
    &&& match (ses.openid, ses.valid_token) {
        (Some(o), Some(t)) => {
            &&& new.auth matches Some(a) && a.openid == o && a.valid_token == t && a.nickname == ses.nickname
                && match ses.donation { Some(d) => a.donation == d, None => a.donation@ == "0"@ }
            &&& new.config.openid == Some(o)
            &&& new.config.valid_token == Some(t)
            &&& new.config.nickname == ses.nickname
            &&& new.config.donation == Some(new.auth->Some_0.donation)
            &&& new.config == (ProviderConfig {
                device_type: new.config.device_type,
                use_donor_download: new.config.use_donor_download,
                openid: new.config.openid,
                valid_token: new.config.valid_token,
                nickname: new.config.nickname,
                donation: new.config.donation,
                ..old.config
            })
        },
        _ => {
            &&& new.auth == old.auth
            &&& new.config == (ProviderConfig {
                device_type: new.config.device_type,
                use_donor_download: new.config.use_donor_download,
                ..old.config
            })
        },
    }
}

/// What to persist of a state.
pub fn session_of(state: &ProviderState) -> (r: PersistedSession)
    ensures
        r == saved(*state),
{
    match &state.auth {
        Some(a) => PersistedSession {
            device_type: clone_opt(&state.config.device_type),
            openid: Some(a.openid.clone()),
            valid_token: Some(a.valid_token.clone()),
            nickname: clone_opt(&a.nickname),
            donation: Some(a.donation.clone()),
            use_donor_download: state.config.use_donor_download,
        },
        None => PersistedSession {
            device_type: clone_opt(&state.config.device_type),
            openid: None,
            valid_token: None,
            nickname: None,
            donation: None,
            use_donor_download: state.config.use_donor_download,
        },
    }
}

/// `apply_persisted_session`.
pub fn apply_persisted_session(state: &mut ProviderState, session: PersistedSession)
    ensures
        restored(*final(state), *old(state), session),
{
    let ghost ses = session;
    let PersistedSession { device_type, openid, valid_token, nickname, donation, use_donor_download } = session;
    match device_type {
        Some(d) => state.config.device_type = Some(d),
        None => {},
    }
    state.config.use_donor_download = use_donor_download;
    match (openid, valid_token) {
        (Some(o), Some(t)) => {
            let donation = match donation {
                Some(d) => d,
                None => String::from_str("0"),
            };
            state.config.openid = Some(o.clone());
            state.config.valid_token = Some(t.clone());
            state.config.nickname = clone_opt(&nickname);
            state.config.donation = Some(donation.clone());
            state.auth = Some(AuthContext { openid: o, valid_token: t, nickname, donation });
        },
        _ => {},
    }
}

/// `build_initial_state`: the persisted session (if any) applied to an empty
/// state, then the configuration normalized.
pub fn build_initial_state(identity: &ClientIdentity, session: Option<PersistedSession>) -> (r: ProviderState)
    ensures
        exists|mid: ProviderState| {
            &&& match session {
                Some(ses) => restored(mid, ProviderState::default_spec(), ses),
                None => mid == ProviderState::default_spec(),
            }
            &&& normalized(r.config, mid.config, *identity)
            &&& r.auth == mid.auth
            &&& r.last_login_error == mid.last_login_error
        },
{
    let mut state = ProviderState::empty();
    match session {
        Some(ses) => apply_persisted_session(&mut state, ses),
        None => {},
    }
    let ghost mid = state;
    state.config.normalize(identity);
    assert(normalized(state.config, mid.config, *identity));
    state
}

impl ProviderState {
    /// The state of a fresh provider: nothing configured, not logged in.
    pub open spec fn default_spec() -> ProviderState {
        ProviderState {
            config: ProviderConfig {
                device_type: None,
                username: None,
                password: None,
                mitan_code: None,
                openid: None,
                valid_token: None,
                nickname: None,
                donation: None,
                limit_mac: None,
                use_donor_download: None,
                did: None,
                model: None,
                model2: None,
                model3: None,
                lang: None,
                app_signature_sha1: None,
            },
            auth: None,
            last_login_error: None,
        }
    }

    pub fn empty() -> (r: ProviderState)
        ensures
            r == ProviderState::default_spec(),
    {
        ProviderState {
            config: ProviderConfig {
                device_type: None,
                username: None,
                password: None,
                mitan_code: None,
                openid: None,
                valid_token: None,
                nickname: None,
                donation: None,
                limit_mac: None,
                use_donor_download: None,
                did: None,
                model: None,
                model2: None,
                model3: None,
                lang: None,
                app_signature_sha1: None,
            },
            auth: None,
            last_login_error: None,
        }
    }
}

// ----------------------------------------------------------------------------
// Account summary.
/// The openids the account summary masks can be masked.
pub open spec fn state_maskable(st: ProviderState) -> bool {
    match st.auth {
        Some(a) => maskable(a.openid@),
        None => match st.config.openid {
            Some(o) => maskable(o@),
            None => true,
        },
    }
}

/// The name of the first device with the model (without case), else the model.
pub open spec fn device_name_of(d: Seq<(Seq<char>, Seq<char>)>, model: Seq<char>) -> Seq<char>
    decreases d.len(),
{
    if d.len() == 0 {
        model
    } else if eq_ignore_case(d[0].0, model) {
        d[0].1
    } else {
        device_name_of(d.drop_first(), model)
    }
}

/// `get_account_snapshot_for_ui`.
pub open spec fn snapshot_of(r: UiAccountSnapshot, st: ProviderState, d: Seq<(Seq<char>, Seq<char>)>) -> bool {
    &&& r.logged_in == st.auth is Some
    &&& r.device_type@ == ui_device_type(ov(st.config.device_type), d)
    &&& r.device_name@ == device_name_of(d, r.device_type@)
    &&& ov(r.nickname) == match st.auth {
        Some(a) => match a.nickname {
            Some(n) => Some(n@),
            None => ov(st.config.nickname),
        },
        None => ov(st.config.nickname),
    }
    &&& ov(r.openid_masked) == match st.auth {
        Some(a) => Some(masked(a.openid@)),
        None => match st.config.openid {
            Some(o) => Some(masked(o@)),
            None => None,
        },
    }
    &&& r.donation@ == match st.auth {
        Some(a) => a.donation@,
        None => match st.config.donation {
            Some(dn) => dn@,
            None => "0"@,
        },
    }
    &&& r.last_error == st.last_login_error
}

/// The name of the first device with the model, else the model.
pub fn device_name_for(devices: &[DeviceInfo], model: &str) -> (r: String)
    ensures
        r@ == device_name_of(dvs(devices@), model@),
{
    let m = chars_of(model);
    let mut i: usize = 0;
    proof {
        assert(dvs(devices@).skip(0) =~= dvs(devices@));
    }
    while i < devices.len()
        invariant
            i <= devices@.len(),
            m@ == model@,
            device_name_of(dvs(devices@), model@) == device_name_of(dvs(devices@).skip(i as int), model@),
        decreases devices@.len() - i,
    {
        proof {
            let rest = dvs(devices@).skip(i as int);
            assert(rest[0] == (devices@[i as int].model@, devices@[i as int].name@));
            assert(rest.drop_first() =~= dvs(devices@).skip(i + 1));
        }
        let dm = chars_of(devices[i].model.as_str());
        if chars_eq_ignore_case(dm.as_slice(), m.as_slice()) {
            return devices[i].name.clone();
        }
        i = i + 1;
    }
    String::from_str(model)
}

/// `list_supported_devices_for_ui`: the device list as user-interface choices.
pub fn list_supported_devices_for_ui(devices: &[DeviceInfo]) -> (r: Vec<UiDeviceChoice>)
    ensures
        r@.len() == devices@.len(),
        forall|i: int| 0 <= i < devices@.len() ==> r@[i].model == #[trigger] devices@[i].model && r@[i].name
            == devices@[i].name,
{
    let mut out: Vec<UiDeviceChoice> = Vec::new();
    let mut i: usize = 0;
    while i < devices.len()
        invariant
            i <= devices@.len(),
            out@.len() == i,
            forall|k: int| 0 <= k < i ==> out@[k].model == #[trigger] devices@[k].model && out@[k].name
                == devices@[k].name,
        decreases devices@.len() - i,
    {
        let ghost before = out@;
        out.push(UiDeviceChoice { model: devices[i].model.clone(), name: devices[i].name.clone() });
        proof {
            assert forall|k: int| 0 <= k < i + 1 implies out@[k].model == #[trigger] devices@[k].model
                && out@[k].name == devices@[k].name by {
                if k < i {
                    assert(out@[k] == before[k]);
                }
            }
        }
        i = i + 1;
    }
    out
}

/// `get_account_snapshot_for_ui`: the account summary of a state, for the
/// current device list.
pub fn get_account_snapshot_for_ui(state: &ProviderState, devices: &[DeviceInfo]) -> (r: UiAccountSnapshot)
    requires
        state_maskable(*state),
    ensures
        snapshot_of(r, *state, dvs(devices@)),
{
    let selected = normalize_ui_device_type(
        match &state.config.device_type {
            Some(d) => Some(d.as_str()),
            None => None,
        },
        devices,
    );
    let device_name = device_name_for(devices, selected.as_str());
    let nickname = match &state.auth {
        Some(a) => match &a.nickname {
            Some(n) => Some(n.clone()),
            None => clone_opt(&state.config.nickname),
        },
        None => clone_opt(&state.config.nickname),
    };
    let openid_masked = match &state.auth {
        Some(a) => Some(mask_openid(a.openid.as_str())),
        None => match &state.config.openid {
            Some(o) => Some(mask_openid(o.as_str())),
            None => None,
        },
    };
    let donation = match &state.auth {
        Some(a) => a.donation.clone(),
        None => match &state.config.donation {
            Some(d) => d.clone(),
            None => String::from_str("0"),
        },
    };
    UiAccountSnapshot {
        logged_in: state.auth.is_some(),
        device_type: selected,
        device_name,
        nickname,
        openid_masked,
        donation,
        last_error: clone_opt(&state.last_login_error),
    }
}

/// `set_selected_device_for_ui`: selects the device (normalized against the
/// device list) and normalizes the configuration; gives the session to persist.
pub fn set_selected_device_for_ui(
    state: &mut ProviderState,
    identity: &ClientIdentity,
    devices: &[DeviceInfo],
    device_type: &str,
) -> (r: PersistedSession)
    ensures
        exists|mid: ProviderConfig| {
            &&& ov(mid.device_type) == Some(ui_device_type(Some(device_type@), dvs(devices@)))
            &&& mid == (ProviderConfig { device_type: mid.device_type, ..old(state).config })
            &&& normalized(final(state).config, mid, *identity)
        },
        final(state).auth == old(state).auth,
        final(state).last_login_error == old(state).last_login_error,
        r == saved(*final(state)),
{
    let normalized_type = normalize_ui_device_type(Some(device_type), devices);
    state.config.device_type = Some(normalized_type);
    let ghost mid = state.config;
    state.config.normalize(identity);
    assert(normalized(state.config, mid, *identity));
    session_of(state)
}

/// `logout_for_ui`: forgets the session and the credentials; gives the session to persist.
pub fn logout_for_ui(state: &mut ProviderState) -> (r: PersistedSession)
    ensures
        final(state).auth is None,
        final(state).last_login_error is None,
        final(state).config == (ProviderConfig {
            openid: None,
            valid_token: None,
            mitan_code: None,
            password: None,
            nickname: None,
            ..old(state).config
        }),
        r == saved(*final(state)),
{
    state.auth = None;
    state.last_login_error = None;
    state.config.openid = None;
    state.config.valid_token = None;
    state.config.mitan_code = None;
    state.config.password = None;
    state.config.nickname = None;
    session_of(state)
}

/// A saved login comes back after a reload: restoring the session that a
/// logged-in state saves gives back the same session and device type.
pub proof fn law_persisted_login_survives_reload(st: ProviderState, fresh: ProviderState)
    requires
        st.auth is Some,
    ensures
        forall|r: ProviderState| #[trigger] restored(r, fresh, saved(st)) ==> r.auth == st.auth
            && (st.config.device_type is Some ==> r.config.device_type == st.config.device_type),
{
    assert forall|r: ProviderState| #[trigger] restored(r, fresh, saved(st)) implies r.auth == st.auth
        && (st.config.device_type is Some ==> r.config.device_type == st.config.device_type) by {
        let a = st.auth->Some_0;
        let b = r.auth->Some_0;
        assert(b.openid == a.openid);
        assert(b.valid_token == a.valid_token);
        assert(b.nickname == a.nickname);
        assert(b.donation == a.donation);
    }
}

// ----------------------------------------------------------------------------
// Logging in.
/// Index of the first occurrence of `n` in `s`, or `s.len()`.
pub open spec fn find_text(s: Seq<char>, n: Seq<char>) -> int
    decreases s.len(),
{
    if starts_with(s, n) || s.len() == 0 {
        0
    } else {
        1 + find_text(s.drop_first(), n)
    }
}

pub proof fn lemma_find_text(s: Seq<char>, n: Seq<char>)
    ensures
        0 <= find_text(s, n) <= s.len(),
        find_text(s, n) < s.len() ==> starts_with(s.subrange(find_text(s, n), s.len() as int), n),
        forall|k: int| 0 <= k < find_text(s, n) ==> !starts_with(#[trigger] s.subrange(k, s.len() as int), n),
    decreases s.len(),
{
    if !(starts_with(s, n) || s.len() == 0) {
        let t = s.drop_first();
        lemma_find_text(t, n);
        let f = find_text(t, n);
        if f < t.len() {
            assert(t.subrange(f, t.len() as int) =~= s.subrange(f + 1, s.len() as int));
        }
        assert forall|k: int| 0 <= k < find_text(s, n) implies !starts_with(#[trigger] s.subrange(k, s.len() as int), n) by {
            if k == 0 {
                assert(s.subrange(0, s.len() as int) =~= s);
            } else {
                assert(t.subrange(k - 1, t.len() as int) =~= s.subrange(k, s.len() as int));
            }
        }
    } else if s.len() > 0 {
        assert(s.subrange(0, s.len() as int) =~= s);
    }
}

/// The code of an OAuth callback: the `code=` parameter of the query, else
/// the text after the first `code=` up to the next `&`, percent-decoded;
/// otherwise the trimmed input (empty when the input is blank).
pub open spec fn oauth_code(raw: Seq<char>) -> Seq<char> {
    let t = trim(raw);
    let segs = split_on(t, '?');
    let from_query = if segs.len() >= 2 { query_code(split_on(segs[1], '&')) } else { None };
    let k = find_text(t, "code="@);
    if t.len() == 0 {
        seq![]
    } else if from_query is Some {
        from_query->Some_0
    } else if k < t.len() {
        let rest = t.subrange(k + 5, t.len() as int);
        let seg = rest.subrange(0, find_text(rest, "code="@));
        pct_decode(encode_utf8(seg.subrange(0, find_char(seg, '&'))))
    } else {
        t
    }
}

/// The decoded value of the first `code=` pair.
pub open spec fn query_code(pairs: Seq<Seq<char>>) -> Option<Seq<char>>
    decreases pairs.len(),
{
    if pairs.len() == 0 {
        None
    } else if starts_with(pairs[0], "code="@) {
        Some(pct_decode(encode_utf8(pairs[0].subrange(5, pairs[0].len() as int))))
    } else {
        query_code(pairs.drop_first())
    }
}

/// First occurrence of `n` in `s` at or after `from`, counted from `from`.
pub fn find_text_from(s: &[char], from: usize, n: &[char]) -> (r: usize)
    requires
        from <= s@.len(),
    ensures
        r == find_text(s@.subrange(from as int, s@.len() as int), n@),
        r <= s@.len() - from,
{
    let ghost t = s@.subrange(from as int, s@.len() as int);
    let mut i = from;
    proof {
        lemma_find_text(t, n@);
    }
    while i < s.len()
        invariant
            from <= i <= s@.len(),
            t == s@.subrange(from as int, s@.len() as int),
            forall|k: int| 0 <= k < i - from ==> !starts_with(#[trigger] t.subrange(k, t.len() as int), n@),
        decreases s@.len() - i,
    {
        let rest = slice_range(s, i, s.len());
        proof {
            assert(rest@ =~= t.subrange(i - from, t.len() as int));
        }
        if chars_starts_with(rest.as_slice(), n) {
            proof {
                lemma_find_text(t, n@);
                let f = find_text(t, n@);
                let j = i - from;
                if f < j {
                    assert(starts_with(t.subrange(f, t.len() as int), n@));
                }
                if f > j {
                    assert(!starts_with(t.subrange(j, t.len() as int), n@));
                }
            }
            return i - from;
        }
        i = i + 1;
    }
    proof {
        lemma_find_text(t, n@);
        let f = find_text(t, n@);
        if f < t.len() {
            assert(starts_with(t.subrange(f, t.len() as int), n@));
        }
    }
    i - from
}

/// The pieces of `s` between the separators `c`.
pub fn split_chars(s: &[char], c: char) -> (r: Vec<Vec<char>>)
    ensures
        r@.map_values(|v: Vec<char>| v@) == split_on(s@, c),
{
    let mut out: Vec<Vec<char>> = Vec::new();
    let mut start: usize = 0;
    let ghost mut done: Seq<Seq<char>> = seq![];
    proof {
        assert(s@.subrange(0, s@.len() as int) =~= s@);
        assert(done + split_on(s@, c) =~= split_on(s@, c));
        assert(out@.map_values(|v: Vec<char>| v@) =~= done);
    }
    loop
        invariant
            start <= s@.len(),
            split_on(s@, c) == done + split_on(s@.subrange(start as int, s@.len() as int), c),
            out@.map_values(|v: Vec<char>| v@) == done,
        decreases s@.len() - start,
    {
        let ghost rest = s@.subrange(start as int, s@.len() as int);
        let i = find_char_from(s, start, c);
        proof {
            lemma_find_char(rest, c);
        }
        let n = s.len();
        assert(i <= n - start);
        let piece = slice_range(s, start, start + i);
        proof {
            assert(piece@ =~= rest.subrange(0, i as int));
        }
        let ghost pv = piece@;
        out.push(piece);
        proof {
            assert(out@.map_values(|v: Vec<char>| v@) =~= done.push(pv));
        }
        if start + i >= s.len() {
            proof {
                assert(split_on(rest, c) == seq![rest]);
                assert(rest =~= pv);
                assert(done + seq![rest] =~= done.push(pv));
            }
            return out;
        }
        proof {
            assert(rest.subrange(i + 1, rest.len() as int) =~= s@.subrange(start + i + 1, s@.len() as int));
            assert(done + (seq![pv] + split_on(s@.subrange(start + i + 1, s@.len() as int), c)) =~= done.push(pv)
                + split_on(s@.subrange(start + i + 1, s@.len() as int), c));
            done = done.push(pv);
        }
        start = start + i + 1;
    }
}

fn decode_chars(v: &[char]) -> (r: String)
    ensures
        r@ == pct_decode(encode_utf8(v@)),
{
    let s = string_from_chars(v);
    percent_decode(s.as_str())
}

/// `extract_oauth_code`.
pub fn extract_oauth_code(raw_code: &str) -> (r: String)
    ensures
        r@ == oauth_code(raw_code@),
{
    proof {
        reveal_strlit("code=");
    }
    let t = trim_chars(raw_code);
    if t.len() == 0 {
        return String::new();
    }
    let segs = split_chars(t.as_slice(), '?');
    let ghost segv = segs@.map_values(|v: Vec<char>| v@);
    let code_key = chars_of("code=");
    if segs.len() >= 2 {
        let pairs = split_chars(segs[1].as_slice(), '&');
        let ghost pairv = pairs@.map_values(|v: Vec<char>| v@);
        proof {
            assert(segv[1] == segs@[1]@);
            assert(pairv.skip(0) =~= pairv);
        }
        let mut j: usize = 0;
        while j < pairs.len()
            invariant
                j <= pairs@.len(),
                pairv == pairs@.map_values(|v: Vec<char>| v@),
                code_key@ == "code="@,
                code_key@.len() == 5,
                t@ == trim(raw_code@),
                t@.len() > 0,
                segv == split_on(t@, '?'),
                segv.len() >= 2,
                pairv == split_on(segv[1], '&'),
                query_code(pairv) == query_code(pairv.skip(j as int)),
            decreases pairs@.len() - j,
        {
            proof {
                let rest = pairv.skip(j as int);
                assert(rest[0] == pairs@[j as int]@);
                assert(rest.drop_first() =~= pairv.skip(j + 1));
            }
            if chars_starts_with(pairs[j].as_slice(), code_key.as_slice()) {
                let value = slice_range(pairs[j].as_slice(), 5, pairs[j].len());
                return decode_chars(value.as_slice());
            }
            j = j + 1;
        }
    }
    let k = find_text_from(t.as_slice(), 0, code_key.as_slice());
    proof {
        assert(t@.subrange(0, t@.len() as int) =~= t@);
        lemma_find_text(t@, code_key@);
    }
    if k < t.len() {
        proof {
            assert(t@.subrange(k as int, t@.len() as int).len() >= 5);
        }
        let rest = slice_range(t.as_slice(), k + 5, t.len());
        let m = find_text_from(rest.as_slice(), 0, code_key.as_slice());
        proof {
            assert(rest@.subrange(0, rest@.len() as int) =~= rest@);
        }
        let seg = slice_range(rest.as_slice(), 0, m);
        let a = find_char_from(seg.as_slice(), 0, '&');
        proof {
            assert(seg@.subrange(0, seg@.len() as int) =~= seg@);
        }
        let value = slice_range(seg.as_slice(), 0, a);
        return decode_chars(value.as_slice());
    }
    string_from_chars(t.as_slice())
}

/// What a login reply names: openid, token and nickname.
pub struct LoginResponse {
    pub openid: String,
    pub valid_token: String,
    pub nickname: Option<String>,
}

pub open spec fn nested_login_keys() -> Seq<Seq<char>> {
    seq!["user"@, "userinfo"@, "account"@, "profile"@, "result"@]
}

/// `pick_login_string` in the objects nested under the given keys.
pub open spec fn pick_nested(v: JsonValue, keys: Seq<Seq<char>>, nk: Seq<Seq<char>>) -> Option<Seq<char>>
    decreases nk.len(),
{
    if nk.len() == 0 {
        None
    } else {
        match crate::json::json_get(v, nk[0]) {
            Some(o) => if o is Object {
                match pick_text(json_source(o), keys) {
                    Some(t) => Some(t),
                    None => pick_nested(v, keys, nk.drop_first()),
                }
            } else {
                pick_nested(v, keys, nk.drop_first())
            },
            None => pick_nested(v, keys, nk.drop_first()),
        }
    }
}

/// `pick_login_string`: a key of the reply object, else of its nested
/// `user`/`userinfo`/`account`/`profile`/`result` objects.
pub open spec fn pick_login(v: JsonValue, keys: Seq<Seq<char>>) -> Option<Seq<char>> {
    if !(v is Object) {
        None
    } else {
        match pick_text(json_source(v), keys) {
            Some(t) => Some(t),
            None => pick_nested(v, keys, nested_login_keys()),
        }
    }
}

pub open spec fn login_openid_keys() -> Seq<Seq<char>> {
    seq!["openid"@, "openId"@]
}

pub open spec fn login_token_keys() -> Seq<Seq<char>> {
    seq!["valid_token"@, "validToken"@, "validtoken"@, "token"@]
}

pub open spec fn login_nickname_keys() -> Seq<Seq<char>> {
    seq!["nickname"@, "nickName"@, "username"@, "name"@]
}

/// `pick_login_string`.
pub fn pick_login_string(value: &JsonValue, keys: &[&str]) -> (r: Option<String>)
    ensures
        ov(r) == pick_login(*value, keys@.map_values(|k: &str| k@)),
{
    match value {
        JsonValue::Object(_) => {},
        _ => {
            return None;
        },
    }
    let root = SettingSource::Json(value);
    match root.pick_string(keys) {
        Some(found) => {
            return Some(found);
        },
        None => {},
    }
    let nested: &[&str] = &["user", "userinfo", "account", "profile", "result"];
    let ghost nk = nested@.map_values(|k: &str| k@);
    proof {
        assert(nk =~= nested_login_keys());
        assert(nk.skip(0) =~= nk);
    }
    let mut i: usize = 0;
    while i < nested.len()
        invariant
            i <= nested@.len(),
            *value is Object,
            nk == nested_login_keys(),
            pick_text(json_source(*value), keys@.map_values(|k: &str| k@)) is None,
            nk == nested@.map_values(|k: &str| k@),
            pick_nested(*value, keys@.map_values(|k: &str| k@), nk) == pick_nested(
                *value,
                keys@.map_values(|k: &str| k@),
                nk.skip(i as int),
            ),
        decreases nested@.len() - i,
    {
        proof {
            let rest = nk.skip(i as int);
            assert(rest[0] == nested@[i as int]@);
            assert(rest.drop_first() =~= nk.skip(i + 1));
        }
        match value.get(nested[i]) {
            Some(o) => match o {
                JsonValue::Object(_) => {
                    let src = SettingSource::Json(o);
                    match src.pick_string(keys) {
                        Some(found) => {
                            proof {
                                let kk = keys@.map_values(|k: &str| k@);
                                let rest = nk.skip(i as int);
                                assert(crate::json::json_get(*value, rest[0]) == Some(*o));
                                assert(pick_text(json_source(*o), kk) == Some(found@));
                                assert(pick_nested(*value, kk, rest) == Some(found@));
                            }
                            return Some(found);
                        },
                        None => {},
                    }
                },
                _ => {},
            },
            None => {},
        }
        i = i + 1;
    }
    None
}

/// `parse_login_response`.
pub open spec fn login_reply(v: JsonValue) -> Result<(Seq<char>, Seq<char>, Option<Seq<char>>), Seq<char>> {
    match pick_login(v, login_openid_keys()) {
        None => Err("login response missing openid"@),
        Some(o) => match pick_login(v, login_token_keys()) {
            None => Err("login response missing valid_token"@),
            Some(t) => Ok((o, t, pick_login(v, login_nickname_keys()))),
        },
    }
}

/// `parse_login_response`.
pub fn parse_login_response(value: &JsonValue) -> (r: Result<LoginResponse, String>)
    ensures
        match r {
            Ok(l) => login_reply(*value) == Ok::<_, Seq<char>>((l.openid@, l.valid_token@, ov(l.nickname))),
            Err(e) => login_reply(*value) == Err::<(Seq<char>, Seq<char>, Option<Seq<char>>), _>(e@),
        },
{
    let k1: &[&str] = &["openid", "openId"];
    let k2: &[&str] = &["valid_token", "validToken", "validtoken", "token"];
    let k3: &[&str] = &["nickname", "nickName", "username", "name"];
    proof {
        assert(k1@.map_values(|k: &str| k@) =~= login_openid_keys());
        assert(k2@.map_values(|k: &str| k@) =~= login_token_keys());
        assert(k3@.map_values(|k: &str| k@) =~= login_nickname_keys());
    }
    let openid = match pick_login_string(value, k1) {
        Some(o) => o,
        None => {
            return Err(String::from_str("login response missing openid"));
        },
    };
    let valid_token = match pick_login_string(value, k2) {
        Some(t) => t,
        None => {
            return Err(String::from_str("login response missing valid_token"));
        },
    };
    let nickname = pick_login_string(value, k3);
    Ok(LoginResponse { openid, valid_token, nickname })
}

/// The text of an optional string, empty when absent.
pub fn text_or_empty(o: &Option<String>) -> (r: String)
    ensures
        r@ == match *o { Some(n) => n@, None => seq![] },
{
    match o {
        Some(n) => n.clone(),
        None => String::new(),
    }
}

/// The login request sent for a payload.
pub fn login_request(config: &ProviderConfig, identity: &ClientIdentity, payload: &LoginPayload) -> (r: ApiRequest)
    ensures
        r.method == HttpMethod::Post,
        r.url@ == api_url_of(match payload.kind {
            LoginKind::UsernamePassword => "watchface/my/loginMitan"@,
            LoginKind::OauthCode => "watchface/my/loginByMitanTokenNew2"@,
        }),
        pair_views(r.headers@) == base_headers_spec(
            *config,
            *identity,
            match config.device_type { Some(d) => d@, None => "mi7"@ },
            None,
            0,
        ),
        pair_views(r.form@) == match payload.kind {
            LoginKind::UsernamePassword => seq![
                ("name"@, match payload.name { Some(n) => n@, None => seq![] }),
                ("password"@, match payload.password { Some(n) => n@, None => seq![] }),
            ],
            LoginKind::OauthCode => seq![
                ("name"@, seq![]),
                ("password"@, seq![]),
                ("code"@, match payload.code { Some(n) => n@, None => seq![] }),
            ],
        },
{
    let path = match payload.kind {
        LoginKind::UsernamePassword => "watchface/my/loginMitan",
        LoginKind::OauthCode => "watchface/my/loginByMitanTokenNew2",
    };
    let device_type = config.device_type();
    let headers = base_headers_for_type(config, identity, device_type.as_str(), None, 0);
    let mut form: Vec<(String, String)> = Vec::new();
    match payload.kind {
        LoginKind::UsernamePassword => {
            form.push((String::from_str("name"), text_or_empty(&payload.name)));
            form.push((String::from_str("password"), text_or_empty(&payload.password)));
        },
        LoginKind::OauthCode => {
            form.push((String::from_str("name"), String::new()));
            form.push((String::from_str("password"), String::new()));
            form.push((String::from_str("code"), text_or_empty(&payload.code)));
        },
    }
    proof {
        assert(pair_views(form@) =~= match payload.kind {
            LoginKind::UsernamePassword => seq![
                ("name"@, match payload.name { Some(n) => n@, None => seq![] }),
                ("password"@, match payload.password { Some(n) => n@, None => seq![] }),
            ],
            LoginKind::OauthCode => seq![
                ("name"@, seq![]),
                ("password"@, seq![]),
                ("code"@, match payload.code { Some(n) => n@, None => seq![] }),
            ],
        });
    }
    ApiRequest { method: HttpMethod::Post, url: api_url(path), headers, form }
}

/// A login attempt under way: the configuration it will store and what it sends.
pub struct PendingLogin {
    pub config: ProviderConfig,
    pub payload: LoginPayload,
    pub request: ApiRequest,
}

/// The first half of `login_with_password_for_ui`: the configuration with
/// the selected device (normalized against the list), the trimmed user name
/// and the password, normalized; and the login request.
pub fn prepare_password_login(
    state: &ProviderState,
    identity: &ClientIdentity,
    devices: &[DeviceInfo],
    device_type: &str,
    username: &str,
    password: &str,
) -> (r: PendingLogin)
    ensures
        exists|mid: ProviderConfig| {
            &&& ov(mid.device_type) == Some(ui_device_type(Some(device_type@), dvs(devices@)))
            &&& ov(mid.username) == Some(trim(username@))
            &&& ov(mid.password) == Some(password@)
            &&& mid == (ProviderConfig {
                device_type: mid.device_type,
                username: mid.username,
                password: mid.password,
                ..state.config
            })
            &&& normalized(r.config, mid, *identity)
        },
        r.payload.kind == LoginKind::UsernamePassword,
        ov(r.payload.name) == Some(trim(username@)),
        ov(r.payload.password) == Some(password@),
        r.payload.code is None,
{
    let mut config = state.config.duplicate();
    let normalized_device = normalize_ui_device_type(Some(device_type), devices);
    config.device_type = Some(normalized_device);
    config.username = Some(trim_str(username));
    config.password = Some(String::from_str(password));
    let ghost mid = config;
    config.normalize(identity);
    assert(normalized(config, mid, *identity));
    let payload = LoginPayload {
        kind: LoginKind::UsernamePassword,
        name: Some(trim_str(username)),
        password: Some(String::from_str(password)),
        code: None,
    };
    let request = login_request(&config, identity, &payload);
    PendingLogin { config, payload, request }
}

/// The first half of `login_with_oauth_code_for_ui`: refuses an empty code;
/// else the configuration with the selected device and the code extracted from
/// the input, normalized; and the login request.
pub fn prepare_oauth_login(
    state: &ProviderState,
    identity: &ClientIdentity,
    devices: &[DeviceInfo],
    device_type: &str,
    raw_code: &str,
) -> (r: Result<PendingLogin, String>)
    ensures
        match r {
            Ok(p) => {
                &&& oauth_code(raw_code@).len() > 0
                &&& exists|mid: ProviderConfig| {
                    &&& ov(mid.device_type) == Some(ui_device_type(Some(device_type@), dvs(devices@)))
                    &&& ov(mid.mitan_code) == Some(oauth_code(raw_code@))
                    &&& mid == (ProviderConfig {
                        device_type: mid.device_type,
                        mitan_code: mid.mitan_code,
                        ..state.config
                    })
                    &&& normalized(p.config, mid, *identity)
                }
                &&& p.payload.kind == LoginKind::OauthCode
                &&& p.payload.name is None && p.payload.password is None
                &&& ov(p.payload.code) == Some(oauth_code(raw_code@))
            },
            Err(e) => oauth_code(raw_code@).len() == 0 && e@ == "请输入授权完成后的 code 或回调链接"@,
        },
{
    let code = extract_oauth_code(raw_code);
    if code.as_str().is_empty() {
        return Err(String::from_str("请输入授权完成后的 code 或回调链接"));
    }
    let mut config = state.config.duplicate();
    let normalized_device = normalize_ui_device_type(Some(device_type), devices);
    config.device_type = Some(normalized_device);
    config.mitan_code = Some(code.clone());
    let ghost mid = config;
    config.normalize(identity);
    assert(normalized(config, mid, *identity));
    let payload = LoginPayload { kind: LoginKind::OauthCode, name: None, password: None, code: Some(code) };
    let request = login_request(&config, identity, &payload);
    Ok(PendingLogin { config, payload, request })
}

/// The openid a login reply would store.
pub open spec fn reply_openid_maskable(reply: Result<JsonValue, String>) -> bool {
    match reply {
        Ok(v) => match login_reply(v) {
            Ok(l) => maskable(l.0),
            Err(_) => true,
        },
        Err(_) => true,
    }
}

/// What completing a login did: on success the prepared configuration and the
/// session from the reply are stored and the error cleared; on failure the
/// state is unchanged and the error is the reply's.
pub open spec fn login_completed(
    r: Result<(UiAccountSnapshot, PersistedSession), String>,
    new: ProviderState,
    old: ProviderState,
    config: ProviderConfig,
    reply: Result<JsonValue, String>,
    d: Seq<(Seq<char>, Seq<char>)>,
) -> bool {
    match r {
        Ok((snap, ses)) => {
            &&& reply matches Ok(v) && login_reply(v) matches Ok(l) && new.auth matches Some(a)
                && a.openid@ == l.0 && a.valid_token@ == l.1 && ov(a.nickname) == l.2
                && a.donation@ == match config.donation { Some(dn) => dn@, None => "0"@ }
            &&& new.config == config
            &&& new.last_login_error is None
            &&& ses == saved(new)
            &&& snapshot_of(snap, new, d)
        },
        Err(e) => {
            &&& new == old
            &&& match reply {
                Err(e0) => e@ == e0@,
                Ok(v) => login_reply(v) matches Err(m) && e@ == m,
            }
        },
    }
}

fn complete_login(
    state: &mut ProviderState,
    devices: &[DeviceInfo],
    config: ProviderConfig,
    reply: Result<JsonValue, String>,
) -> (r: Result<(UiAccountSnapshot, PersistedSession), String>)
    requires
        reply_openid_maskable(reply),
    ensures
        login_completed(r, *final(state), *old(state), config, reply, dvs(devices@)),
{
    let value = match reply {
        Err(e) => {
            return Err(e);
        },
        Ok(v) => v,
    };
    let login = match parse_login_response(&value) {
        Err(e) => {
            return Err(e);
        },
        Ok(l) => l,
    };
    let donation = match &config.donation {
        Some(d) => d.clone(),
        None => String::from_str("0"),
    };
    state.config = config;
    state.auth = Some(AuthContext {
        openid: login.openid,
        valid_token: login.valid_token,
        nickname: login.nickname,
        donation,
    });
    state.last_login_error = None;
    let session = session_of(state);
    let snapshot = get_account_snapshot_for_ui(state, devices);
    Ok((snapshot, session))
}

/// `login_with_password_for_ui`, completed with the reply to the prepared
/// login request (`Err` with the request's error when it failed).
pub fn login_with_password_for_ui(
    state: &mut ProviderState,
    devices: &[DeviceInfo],
    prepared: PendingLogin,
    reply: Result<JsonValue, String>,
) -> (r: Result<(UiAccountSnapshot, PersistedSession), String>)
    requires
        reply_openid_maskable(reply),
    ensures
        login_completed(r, *final(state), *old(state), prepared.config, reply, dvs(devices@)),
{
    complete_login(state, devices, prepared.config, reply)
}

/// `login_with_oauth_code_for_ui`, completed with the reply to the prepared
/// login request.
pub fn login_with_oauth_code_for_ui(
    state: &mut ProviderState,
    devices: &[DeviceInfo],
    prepared: PendingLogin,
    reply: Result<JsonValue, String>,
) -> (r: Result<(UiAccountSnapshot, PersistedSession), String>)
    requires
        reply_openid_maskable(reply),
    ensures
        login_completed(r, *final(state), *old(state), prepared.config, reply, dvs(devices@)),
{
    complete_login(state, devices, prepared.config, reply)
}

/// Whether `mask_openid` can mask the openid.
pub fn openid_maskable(openid: &str) -> (r: bool)
    ensures
        r == maskable(openid@),
{
    let t = trim_chars(openid);
    let mut total: u128 = 0;
    let mut k: usize = 0;
    while k < t.len()
        invariant
            k <= t@.len(),
            total == utf8_width(t@.subrange(0, k as int)),
            total <= 4 * k,
        decreases t@.len() - k,
    {
        proof {
            assert(t@.subrange(0, k + 1).drop_last() =~= t@.subrange(0, k as int));
        }
        total = total + char_utf8_len(t[k]) as u128;
        k = k + 1;
    }
    proof {
        assert(t@.subrange(0, t@.len() as int) =~= t@);
    }
    if total <= 8 {
        return true;
    }
    boundary_at(t.as_slice(), 4).is_some() && boundary_at(t.as_slice(), total - 4).is_some()
}

/// `apply_manual_session_for_ui`: stores a session given outright (openid and
/// token trimmed, both required; a blank nickname counts as none).
pub fn apply_manual_session_for_ui(
    state: &mut ProviderState,
    identity: &ClientIdentity,
    devices: &[DeviceInfo],
    device_type: &str,
    openid: &str,
    valid_token: &str,
    nickname: Option<&str>,
) -> (r: Result<(UiAccountSnapshot, PersistedSession), String>)
    requires
        maskable(trim(openid@)),
    ensures
        match r {
            Ok((snap, ses)) => {
                &&& trim(openid@).len() > 0 && trim(valid_token@).len() > 0
                &&& exists|mid: ProviderConfig| {
                    &&& ov(mid.device_type) == Some(ui_device_type(Some(device_type@), dvs(devices@)))
                    &&& ov(mid.openid) == Some(trim(openid@))
                    &&& ov(mid.valid_token) == Some(trim(valid_token@))
                    &&& ov(mid.nickname) == nonblank(match nickname { Some(n) => Some(n@), None => None })
                    &&& mid == (ProviderConfig {
                        device_type: mid.device_type,
                        openid: mid.openid,
                        valid_token: mid.valid_token,
                        nickname: mid.nickname,
                        ..old(state).config
                    })
                    &&& normalized(final(state).config, mid, *identity)
                }
                &&& final(state).auth matches Some(a) && a.openid@ == trim(openid@) && a.valid_token@
                    == trim(valid_token@) && ov(a.nickname) == nonblank(match nickname { Some(n) => Some(n@), None => None })
                    && a.donation@ == match old(state).config.donation { Some(dn) => dn@, None => "0"@ }
                &&& final(state).last_login_error is None
                &&& ses == saved(*final(state))
                &&& snapshot_of(snap, *final(state), dvs(devices@))
            },
            Err(e) => {
                &&& trim(openid@).len() == 0 || trim(valid_token@).len() == 0
                &&& *final(state) == *old(state)
                &&& e@ == "openid 和 valid_token 不能为空"@
            },
        },
{
    let openid = trim_str(openid);
    let valid_token = trim_str(valid_token);
    if openid.as_str().is_empty() || valid_token.as_str().is_empty() {
        return Err(String::from_str("openid 和 valid_token 不能为空"));
    }
    let normalized_device = normalize_ui_device_type(Some(device_type), devices);
    let nickname = nonblank_text(nickname);
    let mut config = state.config.duplicate();
    config.device_type = Some(normalized_device);
    config.openid = Some(openid.clone());
    config.valid_token = Some(valid_token.clone());
    config.nickname = clone_opt(&nickname);
    let ghost mid = config;
    config.normalize(identity);
    assert(normalized(config, mid, *identity));
    let auth = AuthContext {
        openid,
        valid_token,
        nickname,
        donation: match &config.donation {
            Some(d) => d.clone(),
            None => String::from_str("0"),
        },
    };
    state.config = config;
    state.auth = Some(auth);
    state.last_login_error = None;
    let session = session_of(state);
    let snapshot = get_account_snapshot_for_ui(state, devices);
    Ok((snapshot, session))
}

pub open spec fn oauth_redirect() -> Seq<char> {
    "https://api.bandbbs.cn/wftools/bandbbs.html"@
}

pub open spec fn oauth_scope() -> Seq<char> {
    "user:read user:write resource_check:read resource:read"@
}

/// `build_oauth_login_url_for_ui`, with the current time in milliseconds.
pub fn build_oauth_login_url_for_ui(now_ms: u64) -> (r: String)
    ensures
        r@ == "https://www.bandbbs.cn/oauth2/authorize?type=authorization_code&client_id=6253518017122039&redirect_uri="@
            + url_encoded(encode_utf8(oauth_redirect())) + "&response_type=code&scope="@
            + url_encoded(encode_utf8(oauth_scope())) + "&state="@
            + md5_text(nat_text(now_ms as nat) + "givemefive-community"@),
{
    proof {
        reveal_with_fuel(Seq::fold_left, 7);
    }
    let ts = crate::numbers::u64_to_text(now_ms);
    let seed = crate::text::concat_str(ts.as_str(), "givemefive-community");
    let state = md5_hex(seed.as_str());
    let redirect = url_encode("https://api.bandbbs.cn/wftools/bandbbs.html");
    let scope = url_encode("user:read user:write resource_check:read resource:read");
    join(
        &[
            "https://www.bandbbs.cn/oauth2/authorize?type=authorization_code&client_id=6253518017122039&redirect_uri=",
            redirect.as_str(),
            "&response_type=code&scope=",
            scope.as_str(),
            "&state=",
            state.as_str(),
        ],
    )
}

/// `require_auth_context_for_ui`: the stored session, else the one the
/// settings name outright; refused when there is neither.
pub fn require_auth_context_for_ui(state: &ProviderState) -> (r: Result<(ProviderConfig, AuthContext), String>)
    ensures
        match r {
            Ok((c, a)) => c == state.config && match state.auth {
                Some(s) => a == s,
                None => state.config.openid == Some(a.openid) && state.config.valid_token == Some(a.valid_token)
                    && a.nickname == state.config.nickname && a.donation@ == match state.config.donation {
                        Some(d) => d@,
                        None => "0"@,
                    },
            },
            Err(e) => state.auth is None && (state.config.openid is None || state.config.valid_token is None)
                && e@ == "请先登录米坛账号"@,
        },
{
    let auth = match &state.auth {
        Some(a) => a.duplicate(),
        None => match state.config.explicit_auth() {
            Some(a) => a,
            None => {
                return Err(String::from_str("请先登录米坛账号"));
            },
        },
    };
    Ok((state.config.duplicate(), auth))
}
} // verus!
