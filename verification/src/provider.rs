//! The community provider's side of the host protocol: which actions it
//! answers, the answer when an action fails, and how a refresh rebuilds the
//! configuration and the session.
use vstd::prelude::*;
use crate::text::{str_eq, concat_str};
use crate::numbers::{nat_text, u64_to_text};
use crate::json::{JsonValue, Jv, jv, jv_entries, jv_items, j_str, put, j_object, j_array};
use crate::config::{
    ProviderConfig, ClientIdentity, AuthContext, LoginPayload, LoginKind, ov, nonblank, merged,
    json_source, raw_merged, normalized, clone_opt,
};
use crate::api::join;
use crate::session::{ProviderState, parse_login_response, login_reply};
use crate::manifest::{provider_name, empty_text, lemma_empty_literal};

verus! {

/// The actions the provider answers.
#[derive(Clone, Copy, Debug)]
pub enum ProviderAction {
    Refresh,
    GetCategories,
    GetIndex,
    GetManifest,
    GetTotal,
    Download,
}

pub open spec fn action_named(name: Seq<char>) -> Option<ProviderAction> {
    if name == "refresh"@ {
        Some(ProviderAction::Refresh)
    } else if name == "get_categories"@ {
        Some(ProviderAction::GetCategories)
    } else if name == "get_index"@ {
        Some(ProviderAction::GetIndex)
    } else if name == "get_manifest"@ {
        Some(ProviderAction::GetManifest)
    } else if name == "get_total"@ {
        Some(ProviderAction::GetTotal)
    } else if name == "download"@ {
        Some(ProviderAction::Download)
    } else {
        None
    }
}

/// The checks of an action's envelope: version 1, this provider.
pub fn check_envelope(version: u64, provider: &str) -> (r: Result<(), String>)
    ensures
        match r {
            Ok(()) => version == 1 && provider@ == provider_name(),
            Err(e) => if version != 1 {
                e@ == "unsupported provider payload version: "@ + nat_text(version as nat)
            } else {
                provider@ != provider_name() && e@ == "provider mismatch: expected "@ + provider_name()
                    + ", got "@ + provider@
            },
        },
{
    if version != 1 {
        let v = u64_to_text(version);
        return Err(concat_str("unsupported provider payload version: ", v.as_str()));
    }
    if !str_eq(provider, "givemefive-community") {
        let r = join(&["provider mismatch: expected ", "givemefive-community", ", got ", provider]);
        proof {
            reveal_with_fuel(Seq::fold_left, 5);
        }
        return Err(r);
    }
    Ok(())
}

/// The action an envelope names.
pub fn provider_action_of(action: &str) -> (r: Result<ProviderAction, String>)
    ensures
        match r {
            Ok(a) => action_named(action@) == Some(a),
            Err(e) => action_named(action@) is None && e@ == "unsupported provider action: "@ + action@,
        },
{
    if str_eq(action, "refresh") {
        Ok(ProviderAction::Refresh)
    } else if str_eq(action, "get_categories") {
        Ok(ProviderAction::GetCategories)
    } else if str_eq(action, "get_index") {
        Ok(ProviderAction::GetIndex)
    } else if str_eq(action, "get_manifest") {
        Ok(ProviderAction::GetManifest)
    } else if str_eq(action, "get_total") {
        Ok(ProviderAction::GetTotal)
    } else if str_eq(action, "download") {
        Ok(ProviderAction::Download)
    } else {
        Err(concat_str("unsupported provider action: ", action))
    }
}

/// The answer to a failed action (`action` is the name the payload gave,
/// empty when it could not be read): an empty list, a manifest that shows the
/// error, zero, nothing for a download (`None`), or an empty object.
pub open spec fn fallback_doc(action: Seq<char>, error: Seq<char>) -> Option<Jv> {
    if action == "get_categories"@ || action == "get_index"@ {
        Some(Jv::Arr(seq![]))
    } else if action == "get_manifest"@ {
        Some(
            Jv::Obj(
                seq![
                    (
                        "item"@,
                        Jv::Obj(
                            seq![
                                ("id"@, Jv::Str(empty_text())),
                                ("restype"@, Jv::Str("watchface"@)),
                                ("name"@, Jv::Str("请求失败"@)),
                                ("description"@, Jv::Str(error)),
                                ("preview"@, Jv::Arr(seq![])),
                                ("icon"@, Jv::Str(empty_text())),
                                ("cover"@, Jv::Str(empty_text())),
                                ("author"@, Jv::Arr(seq![])),
                            ],
                        ),
                    ),
                ],
            ),
        )
    } else if action == "get_total"@ {
        Some(Jv::Num("0"@))
    } else if action == "download"@ {
        None
    } else {
        Some(Jv::Obj(seq![]))
    }
}

pub fn fallback_response(action: &str, error: &str) -> (r: Option<JsonValue>)
    ensures
        match r {
            Some(v) => fallback_doc(action@, error@) == Some(jv(v)),
            None => fallback_doc(action@, error@) is None,
        },
{
    proof {
        lemma_empty_literal();
    }
    if str_eq(action, "get_categories") || str_eq(action, "get_index") {
        let r = j_array(Vec::new());
        proof {
            assert(jv_items(Seq::<JsonValue>::empty()) =~= Seq::<Jv>::empty());
        }
        Some(r)
    } else if str_eq(action, "get_manifest") {
        let mut item: Vec<(String, JsonValue)> = Vec::new();
        put(&mut item, "id", j_str(""));
        put(&mut item, "restype", j_str("watchface"));
        put(&mut item, "name", j_str("请求失败"));
        put(&mut item, "description", j_str(error));
        put(&mut item, "preview", j_array(Vec::new()));
        put(&mut item, "icon", j_str(""));
        put(&mut item, "cover", j_str(""));
        put(&mut item, "author", j_array(Vec::new()));
        let ghost inner = jv_entries(item@);
        proof {
            assert(jv_items(Seq::<JsonValue>::empty()) =~= Seq::<Jv>::empty());
            assert(inner =~= seq![
                ("id"@, Jv::Str(empty_text())),
                ("restype"@, Jv::Str("watchface"@)),
                ("name"@, Jv::Str("请求失败"@)),
                ("description"@, Jv::Str(error@)),
                ("preview"@, Jv::Arr(seq![])),
                ("icon"@, Jv::Str(empty_text())),
                ("cover"@, Jv::Str(empty_text())),
                ("author"@, Jv::Arr(seq![])),
            ]);
        }
        let mut e: Vec<(String, JsonValue)> = Vec::new();
        put(&mut e, "item", j_object(item));
        proof {
            assert(jv_entries(e@) =~= seq![("item"@, Jv::Obj(inner))]);
        }
        Some(j_object(e))
    } else if str_eq(action, "get_total") {
        Some(JsonValue::Number(String::from_str("0")))
    } else if str_eq(action, "download") {
        None
    } else {
        let r = j_object(Vec::new());
        proof {
            assert(jv_entries(Seq::<(String, JsonValue)>::empty()) =~= Seq::<(Seq<char>, Jv)>::empty());
        }
        Some(r)
    }
}

// ----------------------------------------------------------------------------
// Refresh.
/// A refresh starts from an empty configuration that keeps only the selected
/// device type and the donor preference.
pub open spec fn refresh_base(existing: ProviderState) -> ProviderConfig {
    ProviderConfig {
        device_type: existing.config.device_type,
        use_donor_download: existing.config.use_donor_download,
        ..ProviderState::default_spec().config
    }
}

/// The steps of a refresh's configuration, through `m1` (the settings
/// object merged) and `m2` (the raw text merged).
pub open spec fn refresh_steps(
    base: ProviderConfig,
    json: Option<JsonValue>,
    raw: Option<Seq<char>>,
    parsed: Option<JsonValue>,
    id: ClientIdentity,
    out: Result<ProviderConfig, Seq<char>>,
    m1: ProviderConfig,
    m2: ProviderConfig,
) -> bool {
    let has_json = match json {
        Some(v) => !(v is Null),
        None => false,
    };
    &&& if has_json {
        merged(m1, base, json_source(json->0))
    } else {
        m1 == base
    }
    &&& match raw {
        Some(t) => if raw_merged(m2, m1, t, parsed, true) {
            out matches Ok(c) && normalized(c, m2, id)
        } else {
            raw_merged(m2, m1, t, parsed, false) && out == Err::<ProviderConfig, Seq<char>>(
                "provider config must be a JSON object"@,
            )
        },
        None => m2 == m1 && (out matches Ok(c) && normalized(c, m2, id)),
    }
}

/// The configuration a refresh builds: the settings object (when given and not
/// null), then the raw settings text, merged into the base, then normalized;
/// a settings value that is not an object is refused.
pub open spec fn refresh_config_ok(
    existing: ProviderState,
    json: Option<JsonValue>,
    raw: Option<Seq<char>>,
    parsed: Option<JsonValue>,
    id: ClientIdentity,
    out: Result<ProviderConfig, Seq<char>>,
) -> bool {
    let has_json = match json {
        Some(v) => !(v is Null),
        None => false,
    };
    if has_json && !(json->0 is Object) {
        out == Err::<ProviderConfig, Seq<char>>("provider config must be a JSON object"@)
    } else {
        exists|m1: ProviderConfig, m2: ProviderConfig|
            #[trigger] refresh_steps(refresh_base(existing), json, raw, parsed, id, out, m1, m2)
    }
}

pub open spec fn result_view(r: Result<ProviderConfig, String>) -> Result<ProviderConfig, Seq<char>> {
    match r {
        Ok(c) => Ok(c),
        Err(e) => Err(e@),
    }
}

/// The configuration a refresh builds.
pub fn refresh_config(
    existing: &ProviderState,
    identity: &ClientIdentity,
    json: Option<&JsonValue>,
    raw: Option<&str>,
    parsed: &Option<JsonValue>,
) -> (r: Result<ProviderConfig, String>)
    ensures
        refresh_config_ok(
            *existing,
            match json { Some(v) => Some(*v), None => None },
            match raw { Some(t) => Some(t@), None => None },
            *parsed,
            *identity,
            result_view(r),
        ),
{
    let mut config = ProviderState::empty().config;
    config.device_type = clone_opt(&existing.config.device_type);
    config.use_donor_download = existing.config.use_donor_download;
    let ghost base = config;
    assert(base == refresh_base(*existing));
    match json {
        Some(v) => {
            if !v.is_null() {
                match config.merge_json(v) {
                    Ok(()) => {},
                    Err(e) => {
                        return Err(e);
                    },
                }
            }
        },
        None => {},
    }
    let ghost m1 = config;
    match raw {
        Some(t) => {
            match config.merge_raw(t, parsed) {
                Ok(()) => {},
                Err(e) => {
                    proof {
                        let m2 = config;
                        assert(raw_merged(m2, m1, t@, *parsed, false));
                        assert(refresh_steps(
                            base,
                            match json { Some(v) => Some(*v), None => None },
                            Some(t@),
                            *parsed,
                            *identity,
                            result_view(Err(e)),
                            m1,
                            m2,
                        ));
                    }
                    return Err(e);
                },
            }
        },
        None => {},
    }
    let ghost m2 = config;
    config.normalize(identity);
    proof {
        if raw is Some {
            assert(raw_merged(m2, m1, raw->0@, *parsed, true));
        }
        assert(refresh_steps(
            base,
            match json { Some(v) => Some(*v), None => None },
            match raw { Some(t) => Some(t@), None => None },
            *parsed,
            *identity,
            result_view(Ok(config)),
            m1,
            m2,
        ));
    }
    Ok(config)
}

/// What a refresh comes to: a state to store (and whether to save the
/// session), or a login to make first (its request is `login_request` of
/// the configuration and payload).
pub enum RefreshStep {
    Store { state: ProviderState, save: bool },
    Login { config: ProviderConfig, payload: LoginPayload },
}

/// The settings name a session outright: openid and token both set.
pub open spec fn names_session(c: ProviderConfig) -> bool {
    c.openid is Some && c.valid_token is Some
}

/// The settings ask for a login: an OAuth code, or a user name with a password.
pub open spec fn asks_login(c: ProviderConfig) -> bool {
    nonblank(ov(c.mitan_code)) is Some || (nonblank(ov(c.username)) is Some && nonblank(ov(c.password)) is Some)
}

/// The login a configuration asks for.
pub open spec fn login_payload_of(c: ProviderConfig, p: LoginPayload) -> bool {
    if nonblank(ov(c.mitan_code)) is Some {
        p.kind == LoginKind::OauthCode && p.name is None && p.password is None && ov(p.code) == nonblank(
            ov(c.mitan_code),
        )
    } else {
        p.kind == LoginKind::UsernamePassword && p.code is None && ov(p.name) == nonblank(ov(c.username))
            && ov(p.password) == nonblank(ov(c.password))
    }
}

/// A refresh up to its login: the session the settings name outright;
/// else the login they ask for; else the session held before.
pub fn begin_refresh(existing: &ProviderState, config: ProviderConfig) -> (r: RefreshStep)
    ensures
        match r {
            RefreshStep::Store { state, save } => {
                &&& save
                &&& state.config == config
                &&& state.last_login_error is None
                &&& if names_session(config) {
                    state.auth matches Some(a) && config.openid == Some(a.openid) && config.valid_token
                        == Some(a.valid_token) && a.nickname == config.nickname && a.donation@
                        == match config.donation {
                        Some(d) => d@,
                        None => "0"@,
                    }
                } else {
                    !asks_login(config) && state.auth == existing.auth
                }
            },
            RefreshStep::Login { config: c, payload } => {
                &&& c == config
                &&& !names_session(config)
                &&& asks_login(config)
                &&& login_payload_of(config, payload)
            },
        },
{
    match config.explicit_auth() {
        Some(a) => RefreshStep::Store {
            state: ProviderState { config, auth: Some(a), last_login_error: None },
            save: true,
        },
        None => match config.login_payload() {
            Some(payload) => RefreshStep::Login { config, payload },
            None => RefreshStep::Store {
                state: ProviderState {
                    config,
                    auth: match &existing.auth {
                        Some(a) => Some(a.duplicate()),
                        None => None,
                    },
                    last_login_error: None,
                },
                save: true,
            },
        },
    }
}

/// A refresh after its login: on success the session from the reply
/// (with the configured donation) is stored and saved; on failure the error
/// is kept, the session dropped, and nothing saved.
pub fn finish_refresh(config: ProviderConfig, reply: Result<JsonValue, String>) -> (r: (ProviderState, bool))
    ensures
        r.0.config == config,
        match reply {
            Ok(v) => match login_reply(v) {
                Ok(l) => r.1 && r.0.last_login_error is None && (r.0.auth matches Some(a) && a.openid@ == l.0
                    && a.valid_token@ == l.1 && ov(a.nickname) == l.2 && a.donation@ == match config.donation {
                    Some(d) => d@,
                    None => "0"@,
                }),
                Err(m) => !r.1 && r.0.auth is None && ov(r.0.last_login_error) == Some(m),
            },
            Err(e) => !r.1 && r.0.auth is None && r.0.last_login_error == Some(e),
        },
{
    let value = match reply {
        Err(e) => {
            return (ProviderState { config, auth: None, last_login_error: Some(e) }, false);
        },
        Ok(v) => v,
    };
    match parse_login_response(&value) {
        Err(e) => (ProviderState { config, auth: None, last_login_error: Some(e) }, false),
        Ok(l) => {
            let donation = match &config.donation {
                Some(d) => d.clone(),
                None => String::from_str("0"),
            };
            (
                ProviderState {
                    config,
                    auth: Some(
                        AuthContext {
                            openid: l.openid,
                            valid_token: l.valid_token,
                            nickname: l.nickname,
                            donation,
                        },
                    ),
                    last_login_error: None,
                },
                true,
            )
        },
    }
}

} // verus!
