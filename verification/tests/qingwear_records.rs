use community_provider::json::JsonValue;
use community_provider::qw_docs::build_visible_manifest_items;
use community_provider::qw_price::text_is_positive_f64;
use community_provider::qw_records::{
    check_qw_envelope, first_member_of, is_paid_resource, qw_refresh_config, record_id, record_string, record_u64,
    resolve_paid_type, take_first_member, QwConfig,
};

fn num(t: &str) -> JsonValue {
    JsonValue::Number(t.to_string())
}

fn s(t: &str) -> JsonValue {
    JsonValue::Str(t.to_string())
}

fn obj(entries: Vec<(&str, JsonValue)>) -> JsonValue {
    JsonValue::Object(entries.into_iter().map(|(k, v)| (k.to_string(), v)).collect())
}

fn text_of(v: Option<&JsonValue>) -> Option<String> {
    v.and_then(|x| x.as_str()).map(|x| x.to_string())
}

#[test]
fn paid_detection_handles_price_type_and_decimal_price() {
    assert!(is_paid_resource(&obj(vec![("priceType", num("1")), ("price", num("0"))])));
    assert!(is_paid_resource(&obj(vec![("priceType", num("2")), ("price", num("0"))])));
    assert!(is_paid_resource(&obj(vec![("priceType", num("0")), ("price", num("2.15"))])));
    assert!(is_paid_resource(&obj(vec![("priceType", num("0")), ("price", s("0.5"))])));
    assert!(!is_paid_resource(&obj(vec![("priceType", num("0")), ("price", num("0"))])));
}

#[test]
fn visible_manifest_items_filter_paid_records() {
    let records = vec![
        obj(vec![("id", s("free")), ("name", s("Free")), ("priceType", num("0")), ("price", num("0"))]),
        obj(vec![("id", s("paid-type")), ("name", s("Paid Type")), ("priceType", num("1")), ("price", num("0"))]),
        obj(vec![("id", s("paid-price")), ("name", s("Paid Price")), ("priceType", num("0")), ("price", num("1.25"))]),
        obj(vec![("id", s("force-paid")), ("name", s("Force Paid")), ("priceType", num("2")), ("price", num("0"))]),
    ];

    let items = build_visible_manifest_items(&records, &QwConfig::new());
    let ids = items
        .iter()
        .map(|item| item.get("id").and_then(|v| v.as_str()).unwrap_or_default())
        .collect::<Vec<_>>();

    assert_eq!(ids, vec!["free"]);
    assert!(items[0].get("paid_type").map_or(true, |v| v.is_null()));
}

#[test]
fn paid_type_levels() {
    assert_eq!(resolve_paid_type(&obj(vec![("priceType", num("3"))])), Some("force_paid"));
    assert_eq!(resolve_paid_type(&obj(vec![("priceType", s(" 1 "))])), Some("paid"));
    assert_eq!(resolve_paid_type(&obj(vec![("coin", num("5"))])), Some("paid"));
    assert_eq!(resolve_paid_type(&obj(vec![("cost", s(" 0.01 "))])), Some("paid"));
    assert_eq!(resolve_paid_type(&obj(vec![("price", s("free"))])), None);
    assert_eq!(resolve_paid_type(&obj(vec![("price", num("-3"))])), None);
    assert_eq!(resolve_paid_type(&JsonValue::Null), None);
}

#[test]
fn price_text_positivity_follows_float_parsing() {
    assert!(text_is_positive_f64("0.5"));
    assert!(text_is_positive_f64("2.15"));
    assert!(text_is_positive_f64("+3"));
    assert!(text_is_positive_f64("1."));
    assert!(text_is_positive_f64(".5"));
    assert!(text_is_positive_f64("1e+5"));
    assert!(text_is_positive_f64("1E400"));
    assert!(text_is_positive_f64("inf"));
    assert!(text_is_positive_f64("+Infinity"));
    assert!(text_is_positive_f64("4e-324"));
    assert!(text_is_positive_f64("2.5e-324"));
    assert!(!text_is_positive_f64("2e-324"));
    assert!(!text_is_positive_f64("1e-400"));
    assert!(!text_is_positive_f64("0"));
    assert!(!text_is_positive_f64("0.000"));
    assert!(!text_is_positive_f64("-1"));
    assert!(!text_is_positive_f64("-inf"));
    assert!(!text_is_positive_f64("NaN"));
    assert!(!text_is_positive_f64(""));
    assert!(!text_is_positive_f64("."));
    assert!(!text_is_positive_f64("1e"));
    assert!(!text_is_positive_f64("1.2.3"));
    assert!(!text_is_positive_f64("0x10"));
    assert!(!text_is_positive_f64(" 1"));
    assert!(!text_is_positive_f64("abc"));
}

#[test]
fn record_readers_take_the_first_key_present() {
    let r = obj(vec![
        ("title", s("  Clock  ")),
        ("name", s("   ")),
        ("count", s(" 12 ")),
        ("n", num("7")),
        ("appId", num("99")),
    ]);
    assert_eq!(record_string(&r, &["name", "title"]), None);
    assert_eq!(record_string(&r, &["missing", "title"]), Some("Clock".to_string()));
    assert_eq!(record_string(&r, &["n"]), Some("7".to_string()));
    assert_eq!(record_u64(&r, &["count"]), Some(12));
    assert_eq!(record_u64(&r, &["n"]), Some(7));
    assert_eq!(record_u64(&r, &["title"]), None);
    assert_eq!(record_id(&r), Some("99".to_string()));
    assert_eq!(record_id(&obj(vec![("id", s("  ")), ("uuid", s("u-1"))])), Some("u-1".to_string()));
    assert_eq!(record_id(&s("x")), None);
    assert_eq!(text_of(first_member_of(&r, &["zz", "title"])), Some("  Clock  ".to_string()));
    assert_eq!(text_of(take_first_member(r, &["title"]).as_ref()), Some("  Clock  ".to_string()));
}

#[test]
fn settings_merge_and_default_device() {
    let mut c = QwConfig::new();
    assert_eq!(c.device_type(), "watch-square");
    c.merge_json(&obj(vec![("type", s("  band  ")), ("device", s("other"))]));
    assert_eq!(c.device_type(), "band");
    c.merge_json(&obj(vec![("deviceType", num("5"))]));
    assert_eq!(c.device_type(), "band");
    c.merge_raw("   ", &None);
    assert_eq!(c.device_type(), "band");
    c.merge_raw("  watch-round ", &None);
    assert_eq!(c.device_type(), "watch-round");
    let parsed = Some(obj(vec![("device_type", s("x"))]));
    c.merge_raw("{\"device_type\":\"x\"}", &parsed);
    assert_eq!(c.device_type(), "x");

    let cfg = qw_refresh_config(Some(&JsonValue::Null), Some("plain"), &None);
    assert_eq!(cfg.device_type(), "plain");
    let cfg2 = qw_refresh_config(Some(&obj(vec![("deviceType", s("a"))])), None, &None);
    assert_eq!(cfg2.device_type(), "a");
}

#[test]
fn provider_envelope_checks() {
    assert!(check_qw_envelope(1, "轻腕社区").is_ok());
    assert_eq!(check_qw_envelope(2, "轻腕社区"), Err("unsupported provider payload version: 2".to_string()));
    assert_eq!(
        check_qw_envelope(1, "other"),
        Err("provider mismatch: expected 轻腕社区, got other".to_string())
    );
}
