use community_provider::config::{AuthContext, ClientIdentity, ProviderConfig};
use community_provider::devices::DeviceInfo;
use community_provider::json::JsonValue;
use community_provider::provider::{
    begin_refresh, check_envelope, fallback_response, finish_refresh, provider_action_of, refresh_config,
    ProviderAction, RefreshStep,
};
use community_provider::session::{
    apply_manual_session_for_ui, apply_persisted_session, build_initial_state, build_oauth_login_url_for_ui,
    extract_oauth_code, get_account_snapshot_for_ui, logout_for_ui, mask_openid, parse_login_response,
    require_auth_context_for_ui, session_of, PersistedSession, ProviderState,
};

fn num(t: &str) -> JsonValue {
    JsonValue::Number(t.to_string())
}

fn s(t: &str) -> JsonValue {
    JsonValue::Str(t.to_string())
}

fn obj(entries: Vec<(&str, JsonValue)>) -> JsonValue {
    JsonValue::Object(entries.into_iter().map(|(k, v)| (k.to_string(), v)).collect())
}

fn identity() -> ClientIdentity {
    ClientIdentity {
        did: "DID".to_string(),
        model: "Xiaomi".to_string(),
        model2: "crc".to_string(),
        model3: "m3".to_string(),
        app_signature_sha1: "sha".to_string(),
    }
}

fn devices() -> Vec<DeviceInfo> {
    vec![
        DeviceInfo { model: "N66".to_string(), name: "小米手环9".to_string() },
        DeviceInfo { model: "O62".to_string(), name: "小米手表S4".to_string() },
    ]
}

fn logged_in() -> ProviderState {
    ProviderState {
        config: ProviderConfig { device_type: Some("O62".to_string()), ..Default::default() },
        auth: Some(AuthContext {
            openid: "openid-123456789".to_string(),
            valid_token: "tok".to_string(),
            nickname: Some("nick".to_string()),
            donation: "1".to_string(),
        }),
        last_login_error: None,
    }
}

#[test]
fn openids_are_masked_in_the_middle() {
    assert_eq!(mask_openid(" abcdefgh "), "abcdefgh");
    assert_eq!(mask_openid("abcdefghij"), "abcd…ghij");
}

#[test]
fn oauth_codes_are_taken_from_callbacks() {
    assert_eq!(extract_oauth_code("  "), "");
    assert_eq!(extract_oauth_code("https://x/cb?state=1&code=a%2Bb&z=2"), "a+b");
    assert_eq!(extract_oauth_code("foo code=xy&more"), "xy");
    assert_eq!(extract_oauth_code(" plain "), "plain");
}

#[test]
fn login_replies_name_the_session() {
    let direct = obj(vec![("openId", s("o1")), ("token", s("t1")), ("name", s("N"))]);
    let l = parse_login_response(&direct).unwrap();
    assert_eq!((l.openid.as_str(), l.valid_token.as_str(), l.nickname.as_deref()), ("o1", "t1", Some("N")));
    let nested = obj(vec![("user", obj(vec![("openid", s("o2")), ("validToken", s("t2"))]))]);
    let l2 = parse_login_response(&nested).unwrap();
    assert_eq!((l2.openid.as_str(), l2.nickname), ("o2", None));
    assert_eq!(parse_login_response(&obj(vec![])).err(), Some("login response missing openid".to_string()));
    assert_eq!(
        parse_login_response(&obj(vec![("openid", s("o"))])).err(),
        Some("login response missing valid_token".to_string())
    );
}

#[test]
fn a_saved_login_comes_back_after_a_reload() {
    let st = logged_in();
    let saved = session_of(&st);
    let mut fresh = ProviderState::default();
    apply_persisted_session(&mut fresh, saved.clone());
    let again = session_of(&fresh);
    assert_eq!(again.openid, saved.openid);
    assert_eq!(again.valid_token, saved.valid_token);
    assert_eq!(again.nickname, saved.nickname);
    assert_eq!(again.donation, saved.donation);
    assert_eq!(again.device_type, saved.device_type);
    assert_eq!(fresh.config.openid.as_deref(), Some("openid-123456789"));

    let restored = build_initial_state(&identity(), Some(saved));
    assert_eq!(restored.auth.map(|a| a.valid_token), Some("tok".to_string()));
    let empty = build_initial_state(&identity(), None);
    assert!(empty.auth.is_none());
    assert_eq!(empty.config.device_type.as_deref(), Some("mi7"));
}

#[test]
fn session_without_a_token_restores_no_login() {
    let mut st = ProviderState::default();
    let ses = PersistedSession { openid: Some("o".to_string()), ..Default::default() };
    apply_persisted_session(&mut st, ses);
    assert!(st.auth.is_none());
}

#[test]
fn account_snapshot_and_logout() {
    let mut st = logged_in();
    let snap = get_account_snapshot_for_ui(&st, &devices());
    assert!(snap.logged_in);
    assert_eq!(snap.device_name, "小米手表S4");
    assert_eq!(snap.openid_masked.as_deref(), Some("open…6789"));
    assert_eq!(snap.donation, "1");
    let ses = logout_for_ui(&mut st);
    assert!(st.auth.is_none());
    assert!(ses.openid.is_none());
    assert_eq!(ses.device_type.as_deref(), Some("O62"));
}

#[test]
fn manual_session_needs_openid_and_token() {
    let mut st = ProviderState::default();
    let err = apply_manual_session_for_ui(&mut st, &identity(), &devices(), "N66", "  ", "t", None);
    assert_eq!(err.err(), Some("openid 和 valid_token 不能为空".to_string()));
    let (snap, ses) = apply_manual_session_for_ui(&mut st, &identity(), &devices(), "zz", " o1 ", " t1 ", Some(" ")).unwrap();
    assert!(snap.logged_in);
    assert_eq!(ses.openid.as_deref(), Some("o1"));
    assert_eq!(ses.nickname, None);
    assert_eq!(ses.device_type.as_deref(), Some("N66"));
    assert_eq!(st.auth.as_ref().map(|a| a.donation.as_str()), Some("0"));
}

#[test]
fn actions_need_a_session() {
    let st = ProviderState::default();
    assert_eq!(require_auth_context_for_ui(&st).err(), Some("请先登录米坛账号".to_string()));
    let named = ProviderState {
        config: ProviderConfig { openid: Some("o".to_string()), valid_token: Some("t".to_string()), ..Default::default() },
        ..Default::default()
    };
    let (_, auth) = require_auth_context_for_ui(&named).unwrap();
    assert_eq!((auth.openid.as_str(), auth.donation.as_str()), ("o", "0"));
    let (_, held) = require_auth_context_for_ui(&logged_in()).unwrap();
    assert_eq!(held.donation, "1");
}

#[test]
fn oauth_login_address() {
    let url = build_oauth_login_url_for_ui(5);
    assert!(url.starts_with(
        "https://www.bandbbs.cn/oauth2/authorize?type=authorization_code&client_id=6253518017122039&redirect_uri=https%3A%2F%2Fapi.bandbbs.cn%2Fwftools%2Fbandbbs.html&response_type=code&scope=user%3Aread%20user%3Awrite"
    ));
    assert!(url.ends_with("&state=a81e654eeb2337b3fee301cd4dcaa202"));
}

#[test]
fn provider_envelope_and_fallbacks() {
    assert!(check_envelope(1, "givemefive-community").is_ok());
    assert_eq!(check_envelope(3, "x"), Err("unsupported provider payload version: 3".to_string()));
    assert_eq!(
        check_envelope(1, "x"),
        Err("provider mismatch: expected givemefive-community, got x".to_string())
    );
    assert!(matches!(provider_action_of("get_index"), Ok(ProviderAction::GetIndex)));
    assert_eq!(provider_action_of("nope").err(), Some("unsupported provider action: nope".to_string()));
    assert!(matches!(fallback_response("get_categories", "e"), Some(JsonValue::Array(a)) if a.is_empty()));
    let manifest = fallback_response("get_manifest", "boom").unwrap();
    let item = manifest.get("item").unwrap();
    assert_eq!(item.get("name").and_then(|v| v.as_str()), Some("请求失败"));
    assert_eq!(item.get("description").and_then(|v| v.as_str()), Some("boom"));
    assert!(matches!(fallback_response("get_total", "e"), Some(JsonValue::Number(t)) if t == "0"));
    assert!(fallback_response("download", "e").is_none());
    assert!(matches!(fallback_response("", "e"), Some(JsonValue::Object(o)) if o.is_empty()));
}

#[test]
fn refresh_keeps_device_and_logs_in_when_asked() {
    let existing = logged_in();
    let cfg = refresh_config(&existing, &identity(), Some(&JsonValue::Null), None, &None).unwrap();
    assert_eq!(cfg.device_type.as_deref(), Some("O62"));
    assert!(cfg.openid.is_none());
    assert_eq!(
        refresh_config(&existing, &identity(), Some(&s("x")), None, &None).err(),
        Some("provider config must be a JSON object".to_string())
    );
    match begin_refresh(&existing, cfg) {
        RefreshStep::Store { state, save } => {
            assert!(save);
            assert!(state.auth.is_some());
        },
        _ => panic!("store expected"),
    }
    let asks = refresh_config(
        &existing,
        &identity(),
        Some(&obj(vec![("username", s("u")), ("password", s("p"))])),
        None,
        &None,
    )
    .unwrap();
    let (config, payload) = match begin_refresh(&existing, asks) {
        RefreshStep::Login { config, payload } => (config, payload),
        _ => panic!("login expected"),
    };
    assert_eq!(payload.name.as_deref(), Some("u"));
    let (ok, save) = finish_refresh(config.clone(), Ok(obj(vec![("openid", s("o")), ("token", s("t"))])));
    assert!(save);
    assert_eq!(ok.auth.map(|a| a.openid), Some("o".to_string()));
    let (failed, save2) = finish_refresh(config, Err("offline".to_string()));
    assert!(!save2);
    assert_eq!(failed.last_login_error.as_deref(), Some("offline"));
    let _ = num("0");
}
