use base64::Engine;
use community_provider::json::JsonValue;
use community_provider::qw_gateway::{
    api_data, build_envelope, check_gateway_status, decrypt_envelope, encrypt_envelope, envelope_iv,
    gateway_cipher_text, gateway_headers, gateway_request_body, gateway_url, uuid4,
};

fn num(t: &str) -> JsonValue {
    JsonValue::Number(t.to_string())
}

fn s(t: &str) -> JsonValue {
    JsonValue::Str(t.to_string())
}

fn obj(entries: Vec<(&str, JsonValue)>) -> JsonValue {
    JsonValue::Object(entries.into_iter().map(|(k, v)| (k.to_string(), v)).collect())
}

#[test]
fn nonces_are_version_four_uuids() {
    let a = uuid4(1_700_000_000_000, 3);
    let b = uuid4(1_700_000_000_000, 3);
    let c = uuid4(1_700_000_000_000, 4);
    assert_eq!(a, b);
    assert_ne!(a, c);
    for u in [a, c] {
        let chars: Vec<char> = u.chars().collect();
        assert_eq!(chars.len(), 36);
        assert_eq!(chars[8], '-');
        assert_eq!(chars[13], '-');
        assert_eq!(chars[18], '-');
        assert_eq!(chars[23], '-');
        assert_eq!(chars[14], '4');
        assert!(matches!(chars[19], '8' | '9' | 'a' | 'b'));
        assert!(chars.iter().all(|ch| *ch == '-' || ch.is_ascii_hexdigit() && !ch.is_ascii_uppercase()));
    }
}

#[test]
fn iv_depends_on_time_and_counter() {
    let a = envelope_iv(123, 0);
    assert_eq!(a.len(), 16);
    assert_eq!(a, envelope_iv(123, 0));
    assert_ne!(a, envelope_iv(123, 1));
    assert_ne!(a, envelope_iv(124, 0));
}

#[test]
fn sealed_envelope_opens_again() {
    let iv = envelope_iv(42, 7);
    let text = "{\"p\":\"/api/v1/apps/list\",\"m\":\"POST\"}";
    let sealed = encrypt_envelope(text, &iv);
    let raw = base64::engine::general_purpose::STANDARD.decode(sealed.as_bytes()).unwrap();
    assert_eq!(&raw[..16], &iv[..]);
    assert_eq!((raw.len() - 16) % 16, 0);
    assert!(raw.len() - 16 > text.len());
    assert_ne!(&raw[16..16 + text.len()], text.as_bytes());
    assert_eq!(decrypt_envelope(&format!("  {sealed} ")), Ok(text.to_string()));
}

#[test]
fn opening_reports_each_failure() {
    assert_eq!(decrypt_envelope("!!!"), Err("failed to base64-decode gateway payload".to_string()));
    assert_eq!(decrypt_envelope("AAAAAA=="), Err("gateway payload too short: 4 bytes".to_string()));
    let bad = base64::engine::general_purpose::STANDARD.encode([0u8; 21]);
    assert_eq!(decrypt_envelope(&bad), Err("aes-cbc decrypt/unpad failed: Unpad Error".to_string()));
}

#[test]
fn envelope_and_request_body() {
    let env = build_envelope("/api/v1/devices", "get", None, 1234, "n-1".to_string());
    assert_eq!(env.get("p").and_then(|v| v.as_str()), Some("/api/v1/devices"));
    assert_eq!(env.get("m").and_then(|v| v.as_str()), Some("GET"));
    assert!(env.get("b").map_or(false, |v| v.is_null()));
    assert_eq!(env.get("t").and_then(|v| v.as_u64()), Some(1234));
    assert_eq!(env.get("n").and_then(|v| v.as_str()), Some("n-1"));
    let with_body = build_envelope("/x", "Post", Some(obj(vec![("current", num("1"))])), 0, String::new());
    assert_eq!(with_body.get("b").and_then(|b| b.get("current")).and_then(|v| v.as_u64()), Some(1));
    let body = gateway_request_body("abc".to_string());
    assert_eq!(body.get("d").and_then(|v| v.as_str()), Some("abc"));
    assert_eq!(gateway_url(), "https://qingwear.top/api/v2/x");
    let headers = gateway_headers();
    assert_eq!(headers.len(), 6);
    assert_eq!(headers[0], ("Content-Type", "application/json"));
    assert_eq!(headers[2], ("X-Client-App", "qingwear_web"));
}

#[test]
fn replies_are_checked_before_use() {
    assert_eq!(check_gateway_status(200, "ok"), Ok(()));
    assert_eq!(check_gateway_status(404, "nope"), Err("gateway http 404: nope".to_string()));
    assert_eq!(gateway_cipher_text(&obj(vec![("d", s("xyz"))])), Some("xyz".to_string()));
    assert_eq!(gateway_cipher_text(&obj(vec![("d", num("1"))])), None);
    assert_eq!(gateway_cipher_text(&JsonValue::Null), None);
}

#[test]
fn reply_data_or_the_reported_error() {
    let ok = obj(vec![("code", num("200")), ("data", obj(vec![("x", num("1"))]))]);
    assert_eq!(api_data(ok).ok().and_then(|d| d.get("x").and_then(|v| v.as_u64())), Some(1));
    let zero = obj(vec![("code", num("0"))]);
    assert!(api_data(zero).map_or(false, |d| d.is_null()));
    let failed = obj(vec![("code", num("500")), ("message", s("boom"))]);
    assert_eq!(api_data(failed).err(), Some("gateway business error 500: boom".to_string()));
    let unnamed = obj(vec![("code", num("-1"))]);
    assert_eq!(api_data(unnamed).err(), Some("gateway business error -1: unknown gateway error".to_string()));
    let refused = obj(vec![("success", JsonValue::Bool(false))]);
    assert_eq!(api_data(refused).err(), Some("gateway returned success=false: request not successful".to_string()));
    let refused2 = obj(vec![("success", JsonValue::Bool(false)), ("message", s("denied"))]);
    assert_eq!(api_data(refused2).err(), Some("gateway returned success=false: denied".to_string()));
}
