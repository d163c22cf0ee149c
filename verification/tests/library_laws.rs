use base64::Engine;
use community_provider::catalog::{ListMode, WatchfaceItem};
use community_provider::codec::{percent_decode, url_encode};
use community_provider::config::{ClientIdentity, ProviderConfig};
use community_provider::listing::AggregateIndexState;
use community_provider::json::JsonValue;
use community_provider::qw_catalog::{
    after_detail, device_index_or_empty, settle_category_index, settle_device_index, DetailStep, FetchOnce, QwDevice,
};
use community_provider::qw_gateway::{encrypt_envelope, envelope_iv, uuid4};
use community_provider::session::UiAccountSnapshot;
use community_provider::ui::{initialize, UiState};
use community_provider::uploads::UiMyShareItem;

fn item(id: i64, model: &str) -> WatchfaceItem {
    WatchfaceItem {
        id,
        nickname: None,
        name: format!("face {id}"),
        desc: None,
        download_times: None,
        preview: None,
        preview_aod: None,
        created_at: Some(id),
        updated_at: None,
        device_type: Some(model.to_string()),
        views: None,
        is_recommend: None,
        donation: None,
        is_tag: None,
        filesize: None,
        mitantid: None,
        mitantype: None,
    }
}

fn identity() -> ClientIdentity {
    ClientIdentity {
        did: "DID".to_string(),
        model: "Xiaomi".to_string(),
        model2: "crc".to_string(),
        model3: "m3".to_string(),
        app_signature_sha1: "sha".to_string(),
    }
}

fn account(logged_in: bool) -> UiAccountSnapshot {
    UiAccountSnapshot {
        logged_in,
        device_type: "N66".to_string(),
        device_name: "手环".to_string(),
        nickname: None,
        openid_masked: None,
        donation: "0".to_string(),
        last_error: None,
    }
}

fn upload(id: i64) -> UiMyShareItem {
    UiMyShareItem {
        id,
        display_name: format!("u{id}"),
        name: format!("u{id}"),
        description: String::new(),
        device_type: "N66".to_string(),
        device_name: "手环".to_string(),
        preview_url: String::new(),
        preview_aod_url: None,
        preview_aod2_url: None,
        preview_aod3_url: None,
        is_share: false,
        is_review: 1,
        download_times: 0,
        updated_at: None,
        created_at: None,
        mitantid: None,
        mitantype: None,
    }
}

#[test]
fn percent_decoding_undoes_url_encoding_of_ascii() {
    for text in ["a b+c/~%25", "plain", "", "100% sure & ok=1?x#y"] {
        assert_eq!(percent_decode(&url_encode(text)), text);
    }
}

#[test]
fn normalizing_twice_changes_nothing() {
    let id = identity();
    let mut once = ProviderConfig {
        device_type: Some("  ".to_string()),
        did: Some("AstroBox-1".to_string()),
        model: Some("Pixel".to_string()),
        ..Default::default()
    };
    once.normalize(&id);
    assert_eq!(once.device_type.as_deref(), Some("mi7"));
    assert_eq!(once.did.as_deref(), Some("DID"));
    assert_eq!(once.model.as_deref(), Some("Pixel"));
    assert_eq!(once.lang.as_deref(), Some("zh"));
    let mut twice = once.clone();
    twice.normalize(&id);
    assert_eq!(format!("{twice:?}"), format!("{once:?}"));
}

#[test]
fn a_merged_round_takes_every_page_then_sorts_and_dedupes() {
    let mut st = AggregateIndexState::new(3);
    st.exhausted[2] = true;
    let full: Vec<WatchfaceItem> = (1..=12).map(|id| item(id, "a")).collect();
    let short = vec![item(5, "a"), item(30, "b")];
    assert!(st.apply_round(vec![Some(full), Some(short), None], false, ListMode::Latest));
    assert_eq!(st.next_pages, vec![2, 2, 1]);
    assert_eq!(st.exhausted, vec![false, true, true]);
    assert_eq!(st.items.len(), 13);
    assert_eq!(st.items[0].id, 30);
    let mut next = AggregateIndexState::new(1);
    assert!(!next.apply_round(vec![Some(vec![])], true, ListMode::Hot));
    assert_eq!(next.exhausted, vec![true]);
    assert_eq!(next.next_pages, vec![1]);
}

#[test]
fn a_failed_device_index_offers_no_filter() {
    assert!(device_index_or_empty(Err("devices response had no usable entries".to_string())).is_empty());
    let kept = device_index_or_empty(Ok(vec![QwDevice {
        id: "7".to_string(),
        name: "Band".to_string(),
        model: "b1".to_string(),
    }]));
    assert_eq!(kept.len(), 1);
    assert_eq!(kept[0].id, "7");
}

#[test]
fn a_signed_out_work_bench_starts_with_no_uploads() {
    let mut st = UiState::new();
    initialize(&mut st, vec![], account(false), "tips".to_string(), vec![upload(1)]);
    assert!(st.initialized);
    assert!(st.uploads.is_empty());
    assert_eq!(st.uploads_page, 1);
    assert!(!st.uploads_has_more);
    let mut signed_in = UiState::new();
    initialize(&mut signed_in, vec![], account(true), String::new(), (0..18).map(upload).collect());
    assert_eq!(signed_in.uploads.len(), 18);
    assert!(signed_in.uploads_has_more);
}

#[test]
fn a_sealed_envelope_has_the_padded_length() {
    for text in ["", "abc", "0123456789abcdef", "é"] {
        let sealed = encrypt_envelope(text, &envelope_iv(9, 3));
        let raw = base64::engine::general_purpose::STANDARD.decode(sealed.as_bytes()).unwrap();
        assert_eq!(raw.len(), 16 + 16 * (text.len() / 16 + 1));
    }
}

#[test]
fn nonces_match_the_version_four_pattern() {
    let u = uuid4(1_700_000_000_000, 5);
    assert_eq!(u.len(), 36);
    for (i, c) in u.chars().enumerate() {
        if [8, 13, 18, 23].contains(&i) {
            assert_eq!(c, '-');
        } else {
            assert!(c.is_ascii_digit() || ('a'..='f').contains(&c));
        }
    }
    assert_eq!(u.as_bytes()[14], b'4');
    assert!(b"89ab".contains(&u.as_bytes()[19]));
}

#[test]
fn fetched_indexes_are_kept_once() {
    let mut categories: FetchOnce<Vec<(i64, String)>> = FetchOnce::new();
    assert!(categories.cached().is_none());
    settle_category_index(&mut categories, Err("down".to_string()));
    assert_eq!(categories.cached().map(|v| v.len()), Some(5));
    assert_eq!(categories.cached().unwrap()[0], (1, "表盘".to_string()));
    settle_category_index(&mut categories, Ok(vec![(9, "其他".to_string())]));
    assert_eq!(categories.cached().map(|v| v.len()), Some(5));

    let mut devices: FetchOnce<Vec<QwDevice>> = FetchOnce::new();
    settle_device_index(&mut devices, Err("devices response had no usable entries".to_string()));
    assert_eq!(devices.cached().map(|v| v.len()), Some(0));
    settle_device_index(
        &mut devices,
        Ok(vec![QwDevice { id: "1".to_string(), name: "Band".to_string(), model: "b".to_string() }]),
    );
    assert_eq!(devices.cached().map(|v| v.len()), Some(0));
}

#[test]
fn a_missing_detail_falls_back_to_the_list() {
    let record = JsonValue::Object(vec![("id".to_string(), JsonValue::Str("a1".to_string()))]);
    match after_detail(Ok(record)) {
        DetailStep::Found(JsonValue::Object(members)) => assert_eq!(members[0].0, "id"),
        other => panic!("unexpected step: {other:?}"),
    }
    match after_detail(Err("gateway business error 404: missing".to_string())) {
        DetailStep::SearchList(JsonValue::Object(members)) => {
            let keys: Vec<&str> = members.iter().map(|(k, _)| k.as_str()).collect();
            assert_eq!(keys, vec!["current", "size", "sort"]);
            assert!(matches!(&members[1].1, JsonValue::Number(n) if n == "24"));
            assert!(matches!(&members[2].1, JsonValue::Str(t) if t == "latest"));
        }
        other => panic!("unexpected step: {other:?}"),
    }
}

#[test]
fn a_round_that_adds_nothing_ends_the_gathering() {
    let mut st = AggregateIndexState::new(1);
    assert!(st.apply_round(vec![Some(vec![item(1, "a")])], false, ListMode::Latest));
    assert!(st.grew_since(0));
    assert!(!st.grew_since(1));
}
