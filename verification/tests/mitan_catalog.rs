use community_provider::api::{api_json_url, api_url, base_headers_for_type, interpret_api_reply, join, HttpMethod};
use community_provider::catalog::{ListMode, WatchfaceItem};
use community_provider::config::{AuthContext, ClientIdentity, ProviderConfig};
use community_provider::devices::DeviceInfo;
use community_provider::faces::{
    build_device_name_map, build_display_name, build_download_file_name, build_mitan_url,
    ensure_supported_watchface_item, guess_extension, guess_image_mime, is_supported_watchface_item,
    normalize_preview_option, normalize_preview_reference, resolve_paid_type, sanitize_ascii,
};
use community_provider::json::JsonValue;
use community_provider::listing::{
    aggregate_target_count, build_watchface_page_path, cache_expiry, collect_search_page, is_cache_entry_fresh,
    plan_search, take_window, AggregateIndexState,
};
use community_provider::manifest::{build_download_payload, build_index_items, build_manifest};
use community_provider::requests::{
    download_url_request, plan_index_fetch, read_aod_preview, read_download_url, read_total, resolve_index_target,
    search_page_request, upload_tips_request, watchface_page_request, IndexFetch, IndexQuery,
};
use community_provider::tags::TagInfo;

fn item(id: i64) -> WatchfaceItem {
    WatchfaceItem {
        id,
        nickname: None,
        name: format!(" face {id} "),
        desc: None,
        download_times: None,
        preview: None,
        preview_aod: None,
        created_at: None,
        updated_at: None,
        device_type: None,
        views: None,
        is_recommend: None,
        donation: None,
        is_tag: None,
        filesize: None,
        mitantid: None,
        mitantype: None,
    }
}

fn device(model: &str, name: &str) -> DeviceInfo {
    DeviceInfo { model: model.to_string(), name: name.to_string() }
}

fn identity() -> ClientIdentity {
    ClientIdentity {
        did: "DID".to_string(),
        model: "Xiaomi".to_string(),
        model2: "crc".to_string(),
        model3: "m3".to_string(),
        app_signature_sha1: "sha".to_string(),
    }
}

fn header<'a>(h: &'a [(String, String)], k: &str) -> Option<&'a str> {
    h.iter().find(|(key, _)| key == k).map(|(_, v)| v.as_str())
}

fn num(t: &str) -> JsonValue {
    JsonValue::Number(t.to_string())
}

fn s(t: &str) -> JsonValue {
    JsonValue::Str(t.to_string())
}

fn obj(entries: Vec<(&str, JsonValue)>) -> JsonValue {
    JsonValue::Object(entries.into_iter().map(|(k, v)| (k.to_string(), v)).collect())
}

#[test]
fn face_names_and_support() {
    let names = build_device_name_map(&[device(" N66 ", " Band 9 "), device("x", " ")]);
    assert!(names.iter().any(|(k, v)| k == "n66" && v == "Band 9"));
    assert!(names.iter().any(|(k, v)| k == "o62" && v == "小米手表S4"));
    assert!(!names.iter().any(|(k, _)| k == "mi7"));
    let mut it = item(3);
    it.device_type = Some(" n66 ".to_string());
    assert_eq!(build_display_name(&it, &names), "face 3（Band 9）");
    it.device_type = Some("zz".to_string());
    assert_eq!(build_display_name(&it, &names), "face 3（zz）");
    assert!(is_supported_watchface_item(&it));
    it.device_type = Some("MI8".to_string());
    assert!(!is_supported_watchface_item(&it));
    assert_eq!(
        ensure_supported_watchface_item(&it),
        Err("unsupported device resource filtered: MI8".to_string())
    );
    assert!(ensure_supported_watchface_item(&item(1)).is_ok());
}

#[test]
fn face_links_previews_and_paid_type() {
    let mut it = item(7);
    assert_eq!(build_mitan_url(&it), None);
    it.mitantid = Some(" 123 ".to_string());
    assert_eq!(build_mitan_url(&it), Some("https://www.bandbbs.cn/threads/123/".to_string()));
    it.mitantype = Some("resource".to_string());
    assert_eq!(build_mitan_url(&it), Some("https://www.bandbbs.cn/resources/123/".to_string()));
    assert_eq!(normalize_preview_reference(Some(" https://x/y.png ")), "https://x/y.png");
    assert_eq!(
        normalize_preview_reference(Some("watchface/a.png")),
        "https://www.mibandtool.club:9073/watchface/a.png"
    );
    assert_eq!(
        normalize_preview_reference(Some("a.png")),
        "https://www.mibandtool.club:9073/watchface/getPreviewImgMi7/a.png"
    );
    assert_eq!(normalize_preview_reference(Some("  ")), "");
    assert_eq!(normalize_preview_option(None), None);
    it.donation = Some("2".to_string());
    assert_eq!(resolve_paid_type(&it), Some("force_paid"));
    it.donation = Some("1".to_string());
    assert_eq!(resolve_paid_type(&it), Some("paid"));
    it.donation = Some("0".to_string());
    assert_eq!(resolve_paid_type(&it), None);
}

#[test]
fn face_file_names() {
    assert_eq!(guess_extension("https://h/a%2Eb/face.BIN?x=1"), Some("BIN".to_string()));
    assert_eq!(guess_extension("https://h/face"), Some("face".to_string()));
    assert_eq!(guess_extension("https://h/f.toolong12"), None);
    assert_eq!(sanitize_ascii("a b/é-_."), "a_b__-_.");
    let mut it = item(42);
    assert_eq!(build_download_file_name(&it, "https://h/x.bin"), "givemefive-42-mi7.bin");
    it.device_type = Some("N 66".to_string());
    assert_eq!(build_download_file_name(&it, "https://h/x"), "givemefive-42-N_66.x");
    assert_eq!(build_download_file_name(&it, "https://h/x."), "givemefive-42-N_66.bin");
    assert_eq!(guess_image_mime("A.PNG"), "image/png");
    assert_eq!(guess_image_mime("b.jpeg"), "image/jpeg");
    assert_eq!(guess_image_mime("c.webp"), "image/webp");
    assert_eq!(guess_image_mime("noext"), "application/octet-stream");
}

#[test]
fn index_entries_skip_hidden_models() {
    let mut hidden = item(1);
    hidden.device_type = Some("mi4".to_string());
    let mut shown = item(2);
    shown.preview = Some("p.png".to_string());
    shown.is_tag = Some(5);
    let tags = vec![TagInfo { id: 5, name: "精选".to_string() }];
    let items = build_index_items(&[hidden, shown], &tags, &[]);
    assert_eq!(items.len(), 1);
    let entry = &items[0];
    assert_eq!(entry.get("id").and_then(|v| v.as_str()), Some("2"));
    assert_eq!(entry.get("name").and_then(|v| v.as_str()), Some("face 2（mi7）"));
    assert_eq!(entry.get("icon").and_then(|v| v.as_str()), Some("p.png"));
    let ext = entry.get("ext").unwrap();
    assert_eq!(ext.get("tagName").and_then(|v| v.as_str()), Some("精选"));
    assert_eq!(ext.get("provider").and_then(|v| v.as_str()), Some("givemefive-community"));
}

#[test]
fn manifest_of_a_face() {
    let mut it = item(9);
    it.preview = Some("a.png".to_string());
    it.preview_aod = Some("a.png".to_string());
    it.updated_at = Some(77);
    it.mitantid = Some("5".to_string());
    let m = build_manifest(&it, &[], &[], Some("aod.png".to_string()));
    let preview = m.get("item").and_then(|i| i.get("preview"));
    match preview {
        Some(JsonValue::Array(p)) => assert_eq!(p.len(), 2),
        _ => panic!("preview"),
    }
    let dl = m.get("downloads").and_then(|d| d.get("mi7")).unwrap();
    assert_eq!(dl.get("version").and_then(|v| v.as_str()), Some("77"));
    assert_eq!(dl.get("file_name").and_then(|v| v.as_str()), Some("givemefive-9-mi7.bin"));
    let tag_name = m.get("ext").and_then(|e| e.get("community")).and_then(|c| c.get("tagName"));
    assert_eq!(tag_name.and_then(|v| v.as_str()), Some("全部"));
    let payload = build_download_payload(&it, "https://h/w.bin", b"ok");
    assert_eq!(payload.get("data").and_then(|v| v.as_str()), Some("b2s="));
    assert_eq!(payload.get("fileName").and_then(|v| v.as_str()), Some("givemefive-9-mi7.bin"));
}

#[test]
fn listing_paths_cache_and_windows() {
    assert_eq!(build_watchface_page_path(ListMode::Latest, 2, 12, 9999), "watchface/listbytag/0/2/12/9999");
    assert_eq!(build_watchface_page_path(ListMode::Hot, 1, 5, -1), "watchface/listbytag/1/1/5/-1");
    assert_eq!(
        build_watchface_page_path(ListMode::Recommend, 3, 4, 6),
        "watchface/list/recommendsbytag/3/4/6"
    );
    assert!(is_cache_entry_fresh(10, 9));
    assert!(!is_cache_entry_fresh(10, 10));
    assert_eq!(cache_expiry(1000), 301000);
    assert_eq!(cache_expiry(u128::MAX - 5), u128::MAX);
    let plan = plan_search(2, 12);
    assert_eq!((plan.offset, plan.start_page, plan.end_page, plan.slice_start), (24, 3, 4, 4));
    let first = plan_search(0, 5);
    assert_eq!((first.offset, first.start_page, first.end_page, first.slice_start), (0, 1, 1, 0));
    let items: Vec<WatchfaceItem> = (0..5).map(item).collect();
    assert_eq!(take_window(&items, 3, 10).iter().map(|i| i.id).collect::<Vec<_>>(), vec![3, 4]);
    assert!(take_window(&items, 9, 1).is_empty());
    let mut all = vec![item(1)];
    assert!(collect_search_page(&mut all, vec![item(2)]));
    assert_eq!(all.len(), 2);
    assert_eq!(aggregate_target_count(2, 10), 30);
    assert_eq!(aggregate_target_count(usize::MAX, 2), usize::MAX);
}

#[test]
fn merged_index_rounds() {
    let mut st = AggregateIndexState::new(2);
    assert_eq!(st.device_page_request(0), Some(1));
    let full: Vec<WatchfaceItem> = (0..12).map(item).collect();
    assert!(st.apply_device_page(0, 1, full, false));
    assert_eq!(st.device_page_request(0), Some(2));
    assert!(!st.apply_device_page(1, 1, vec![], false));
    assert_eq!(st.device_page_request(1), None);
    assert!(st.needs_more(20));
    assert!(st.apply_device_page(0, 2, vec![item(0), item(50)], false));
    assert_eq!(st.device_page_request(0), None);
    st.finish_round(true, ListMode::Latest);
    assert_eq!(st.items.len(), 13);
    assert_eq!(st.items[0].id, 50);
    assert!(!st.needs_more(100));
    assert_eq!(st.page_items(1, 5).iter().map(|i| i.id).collect::<Vec<_>>(), vec![7, 6, 5, 4, 3]);
}

#[test]
fn requests_and_headers() {
    let config = ProviderConfig { device_type: Some("N66".to_string()), ..Default::default() };
    let id = identity();
    let plain = base_headers_for_type(&config, &id, "N66", None, 0);
    assert_eq!(plain.len(), 8);
    assert_eq!(header(&plain, "version"), Some("3082"));
    assert_eq!(header(&plain, "did"), Some("DID"));
    assert_eq!(header(&plain, "lang"), Some("zh"));
    assert_eq!(header(&plain, "type"), Some("N66"));
    let auth = AuthContext {
        openid: "oid".to_string(),
        valid_token: "tok".to_string(),
        nickname: Some("小 明".to_string()),
        donation: "1".to_string(),
    };
    let signed = base_headers_for_type(&config, &id, "N66", Some(&auth), 1000);
    assert_eq!(signed.len(), 17);
    assert_eq!(header(&signed, "nickName"), Some("%E5%B0%8F%20%E6%98%8E"));
    assert_eq!(header(&signed, "token"), Some("a27bd9613a2e40d76a03db2914eb585a"));
    assert_eq!(header(&signed, "token2"), Some("ad0fa007638b475aa1b22a0f2b8c8952"));
    assert_eq!(header(&signed, "token3"), Some("c87cca24025c17b65438d4acedf3fccd"));
    assert_eq!(header(&signed, "time_stamp2"), Some("1000"));

    assert_eq!(api_url("//watchface/x"), "https://www.mibandtool.club:9073/watchface/x");
    assert_eq!(api_json_url("config/a"), "https://res.mibandtool.club:9073/config/a");
    assert_eq!(join(&["a", "", "bc"]), "abc");
    let page = watchface_page_request(&config, &id, ListMode::Hot, 4, 1, 12, "N66");
    assert_eq!(page.method, HttpMethod::Get);
    assert_eq!(page.url, "https://www.mibandtool.club:9073/watchface/listbytag/1/1/12/4");
    let search = search_page_request(&config, &id, "clock", 2, "N66");
    assert_eq!(search.form, vec![("keyword".to_string(), "clock".to_string()), ("page".to_string(), "2".to_string())]);
    let dl = download_url_request(&config, &id, Some(&auth), 7, 1000);
    assert!(dl.url.ends_with("watchface/downloadUsr"));
    let dl2 = download_url_request(&config, &id, None, 7, 1000);
    assert!(dl2.url.ends_with("watchface/downloadCom"));
    let tips = upload_tips_request(&config, &id);
    assert_eq!(tips.method, HttpMethod::Get);
    assert_eq!(tips.url, "https://res.mibandtool.club:9073/config/json/uploadtips");
    assert_eq!(header(&tips.headers, "type"), Some("N66"));
    assert!(tips.form.is_empty());
}

#[test]
fn api_replies() {
    let ok = obj(vec![("code", num("0")), ("data", s("x"))]);
    assert_eq!(interpret_api_reply(200, Some(ok), "").ok().and_then(|v| v.as_str().map(|s| s.to_string())), Some("x".to_string()));
    assert_eq!(interpret_api_reply(500, None, "down").err(), Some("http 500: down".to_string()));
    assert_eq!(
        interpret_api_reply(200, None, "<html>").err(),
        Some("failed to decode response body as JSON: <html>".to_string())
    );
    let bad = obj(vec![("code", num("3")), ("msg", s("nope"))]);
    assert_eq!(interpret_api_reply(200, Some(bad), "").err(), Some("api error 3: nope".to_string()));
    let expired = obj(vec![("code", num("9991"))]);
    assert_eq!(interpret_api_reply(200, Some(expired), "").err(), Some("unknown api error".to_string()));
    let plain = interpret_api_reply(200, Some(s("raw")), "").unwrap();
    assert_eq!(plain.as_str(), Some("raw"));
}

#[test]
fn reply_readings() {
    assert_eq!(read_aod_preview(&s(" a.png ")), Some("a.png".to_string()));
    assert_eq!(read_aod_preview(&s("  ")), None);
    assert_eq!(read_total(&s("12")), Some(12));
    assert_eq!(read_total(&num("7")), Some(7));
    assert_eq!(read_total(&num("-7")), None);
    assert_eq!(read_download_url(&s("https://d")), Ok("https://d".to_string()));
    assert_eq!(read_download_url(&num("1")), Err("download endpoint did not return a string".to_string()));
}

#[test]
fn index_target_and_fetch_plan() {
    let config = ProviderConfig { device_type: Some("O62".to_string()), ..Default::default() };
    let devices = vec![device("N66", "小米手环9"), device("O62", "小米手表S4")];
    let q = IndexQuery {
        page: 0,
        limit: 0,
        filter: Some("  ".to_string()),
        sort: Some("hot".to_string()),
        category: Some(vec!["设备:小米手环9".to_string()]),
    };
    let target = resolve_index_target(&q, &config, &devices);
    assert_eq!(target.selected.as_deref(), Some("N66"));
    assert_eq!(target.device_type, "N66");
    match plan_index_fetch(&q, true, 9999) {
        IndexFetch::Page { mode, tag_id, page, limit } => {
            assert_eq!(mode, ListMode::Hot);
            assert_eq!((tag_id, page, limit), (9999, 1, 1));
        },
        _ => panic!("page expected"),
    }
    let q2 = IndexQuery { page: 3, limit: 10, filter: Some(" dial ".to_string()), sort: None, category: None };
    let t2 = resolve_index_target(&q2, &config, &devices);
    assert_eq!(t2.selected, None);
    assert_eq!(t2.device_type, "O62");
    match plan_index_fetch(&q2, true, 1) {
        IndexFetch::Search { keyword, page, limit } => assert_eq!((keyword.as_str(), page, limit), ("dial", 3, 10)),
        _ => panic!("search expected"),
    }
    match plan_index_fetch(&q2, false, 1) {
        IndexFetch::Merged { filter, page, .. } => assert_eq!((filter.as_deref(), page), (Some("dial"), 3)),
        _ => panic!("merged expected"),
    }
}
