use community_provider::json::JsonValue;
use community_provider::qw_docs::{
    build_authors, build_download_file_name, build_download_payload, build_downloads, build_ext, build_links,
    build_manifest, build_manifest_item, download_url_from_detail, download_url_from_versions, guess_extension,
    normalize_image_url, pick_variant_file_url, preview_urls, resolve_primary_version, resolve_restype,
    variant_display_name, variant_matches_device, version_file_url,
};
use community_provider::qw_records::QwConfig;

fn num(t: &str) -> JsonValue {
    JsonValue::Number(t.to_string())
}

fn s(t: &str) -> JsonValue {
    JsonValue::Str(t.to_string())
}

fn obj(entries: Vec<(&str, JsonValue)>) -> JsonValue {
    JsonValue::Object(entries.into_iter().map(|(k, v)| (k.to_string(), v)).collect())
}

fn arr(items: Vec<JsonValue>) -> JsonValue {
    JsonValue::Array(items)
}

fn text(v: &JsonValue, key: &str) -> Option<String> {
    v.get(key).and_then(|x| x.as_str()).map(|x| x.to_string())
}

fn keys(v: &JsonValue) -> Vec<String> {
    match v {
        JsonValue::Object(e) => e.iter().map(|(k, _)| k.clone()).collect(),
        _ => vec![],
    }
}

fn version(url: &str, name: &str) -> JsonValue {
    obj(vec![("fileUrl", s(url)), ("versionName", s(name))])
}

#[test]
fn image_addresses_are_made_absolute() {
    assert_eq!(normalize_image_url("  "), "");
    assert_eq!(normalize_image_url(" https://cdn/x.png "), "https://cdn/x.png");
    assert_eq!(normalize_image_url("http://cdn/y"), "http://cdn/y");
    assert_eq!(normalize_image_url("//img/a.png"), "https://voss.omoi.online/img/a.png");
    assert_eq!(normalize_image_url("b.png"), "https://voss.omoi.online/b.png");
}

#[test]
fn previews_are_listed_once_each() {
    let record = obj(vec![
        ("cover", s("/a.png")),
        ("poster", s("https://voss.omoi.online/a.png")),
        ("images", arr(vec![s("b.png"), num("3"), s(" "), s("/b.png")])),
        ("screenshots", arr(vec![s("c.png")])),
        ("previews", s("not-an-array")),
    ]);
    assert_eq!(
        preview_urls(&record),
        vec![
            "https://voss.omoi.online/a.png".to_string(),
            "https://voss.omoi.online/b.png".to_string(),
            "https://voss.omoi.online/c.png".to_string(),
        ]
    );
    assert!(preview_urls(&JsonValue::Null).is_empty());
}

#[test]
fn authors_links_and_restype() {
    let record = obj(vec![
        ("developer", obj(vec![("nickname", s(" Dev ")), ("avatar", s("av.png"))])),
        ("afdianUrl", s("https://afdian.net/a")),
        ("categoryName", s("表盘")),
    ]);
    match build_authors(&record) {
        JsonValue::Array(items) => {
            assert_eq!(items.len(), 1);
            assert_eq!(text(&items[0], "name"), Some("Dev".to_string()));
            assert_eq!(text(&items[0], "avatar"), Some("av.png".to_string()));
            assert_eq!(items[0].get("bindABAccount").and_then(|v| v.as_bool()), Some(false));
        },
        _ => panic!("authors"),
    }
    match build_authors(&obj(vec![])) {
        JsonValue::Array(items) => assert!(items.is_empty()),
        _ => panic!("authors"),
    }
    match build_links(&record) {
        JsonValue::Array(items) => {
            assert_eq!(items.len(), 1);
            assert_eq!(text(&items[0], "title"), Some("作者/赞助链接".to_string()));
            assert_eq!(text(&items[0], "icon"), Some("link".to_string()));
        },
        _ => panic!("links"),
    }
    match build_links(&obj(vec![("afdianUrl", s("ftp://x"))])) {
        JsonValue::Array(items) => assert!(items.is_empty()),
        _ => panic!("links"),
    }
    assert_eq!(resolve_restype(&record), "watchface");
    assert_eq!(resolve_restype(&obj(vec![("category", s("1"))])), "watchface");
    assert_eq!(resolve_restype(&obj(vec![("category", num("2"))])), "quick_app");
}

#[test]
fn extra_fields_of_a_record() {
    let record = obj(vec![
        ("id", s("app-1")),
        ("category", num("3")),
        ("likes", num("4")),
        ("ratingScore", num("4.5")),
        ("isFeatured", JsonValue::Bool(true)),
        ("createdAt", s("2024")),
    ]);
    let ext = build_ext(&record, &QwConfig::new());
    assert_eq!(text(&ext, "provider"), Some("轻腕社区".to_string()));
    assert_eq!(text(&ext, "sourceId"), Some("app-1".to_string()));
    assert_eq!(text(&ext, "deviceType"), Some("watch-square".to_string()));
    assert_eq!(ext.get("category").and_then(|v| v.as_u64()), Some(3));
    assert!(ext.get("categoryName").map_or(false, |v| v.is_null()));
    assert_eq!(ext.get("downloads").and_then(|v| v.as_u64()), Some(0));
    assert_eq!(ext.get("starglow").and_then(|v| v.as_u64()), Some(4));
    assert!(matches!(ext.get("rating"), Some(JsonValue::Number(t)) if t == "4.5"));
    assert_eq!(ext.get("isFeatured").and_then(|v| v.as_bool()), Some(true));
    assert_eq!(text(&ext, "createdAt"), Some("2024".to_string()));
    assert!(ext.get("updatedAt").map_or(false, |v| v.is_null()));
    assert_eq!(keys(&ext).len(), 13);
}

#[test]
fn index_entry_of_a_record() {
    let record = obj(vec![
        ("appId", num("5")),
        ("title", s(" Clock ")),
        ("summary", s("desc")),
        ("coverImage", s("c.png")),
        ("price", num("0")),
    ]);
    let item = build_manifest_item(&record, &QwConfig::new());
    assert_eq!(text(&item, "id"), Some("5".to_string()));
    assert_eq!(text(&item, "name"), Some("Clock".to_string()));
    assert_eq!(text(&item, "description"), Some("desc".to_string()));
    assert_eq!(text(&item, "icon"), Some("https://voss.omoi.online/c.png".to_string()));
    assert_eq!(text(&item, "cover"), Some("https://voss.omoi.online/c.png".to_string()));
    assert!(item.get("paid_type").map_or(false, |v| v.is_null()));
    assert_eq!(text(&item, "restype"), Some("quick_app".to_string()));
    assert_eq!(
        keys(&item),
        vec!["id", "name", "description", "preview", "icon", "cover", "paid_type", "restype", "category", "author", "ext"]
    );
}

#[test]
fn file_names_and_versions() {
    assert_eq!(guess_extension("https://h/f.rpk?x=1.zip"), Some("rpk".to_string()));
    assert_eq!(guess_extension("https://h/file"), Some("file".to_string()));
    assert_eq!(guess_extension("https://h/a.toolongext"), None);
    assert_eq!(guess_extension("https://h/a.b-c"), None);
    assert_eq!(build_download_file_name("a b/c", "https://h/x.APK"), "qingwear-a_b_c.APK");
    assert_eq!(build_download_file_name("id", "https://h/x."), "qingwear-id.rpk");
    assert_eq!(version_file_url(&version("https://h/x.rpk", "1")), Some("https://h/x.rpk".to_string()));
    assert_eq!(version_file_url(&version("ftp://h/x.rpk", "1")), None);
    assert_eq!(version_file_url(&obj(vec![("downloadUrl", s(" http://d "))])), Some("http://d".to_string()));
}

#[test]
fn download_payload_is_base64_of_the_bytes() {
    let p = build_download_payload("7", "https://h/f.rpk", b"hi");
    assert_eq!(text(&p, "kind"), Some("base64".to_string()));
    assert_eq!(text(&p, "fileName"), Some("qingwear-7.rpk".to_string()));
    assert_eq!(text(&p, "data"), Some("aGk=".to_string()));
}

fn variants() -> Vec<JsonValue> {
    vec![
        obj(vec![
            ("id", s("v1")),
            ("variantLabel", s("Round")),
            ("latestVersion", version("https://h/v1.rpk", "1.0")),
            ("compatibleDevices", arr(vec![obj(vec![("id", num("70")), ("name", s("Watch 7")), ("model", s("W7"))])])),
        ]),
        obj(vec![
            ("id", s("v2")),
            ("recommended", JsonValue::Bool(true)),
            ("latestVersion", version("https://h/v2.rpk", "2.0")),
        ]),
        obj(vec![("id", s("v3")), ("latestVersion", version("ftp://h/v3", "3"))]),
    ]
}

#[test]
fn variants_match_download_keys() {
    let vs = variants();
    assert!(variant_matches_device(&vs[0], "v1"));
    assert!(variant_matches_device(&vs[0], "Round"));
    assert!(variant_matches_device(&vs[0], "70"));
    assert!(variant_matches_device(&vs[0], "Watch 7"));
    assert!(variant_matches_device(&vs[0], "w7"));
    assert!(!variant_matches_device(&vs[0], "v2"));
    assert_eq!(variant_display_name(&vs[0]), "Round");
    assert_eq!(variant_display_name(&vs[1]), "v2");
    let by_device = obj(vec![("compatibleDevices", arr(vec![obj(vec![("model", s("M9"))])]))]);
    assert_eq!(variant_display_name(&by_device), "M9");
}

#[test]
fn variant_file_is_picked_by_key_then_selection_then_recommendation() {
    let vs = variants();
    let detail = obj(vec![("selectedVariantId", s("v1"))]);
    assert_eq!(pick_variant_file_url(&detail, &vs, Some(" w7 ")), Some("https://h/v1.rpk".to_string()));
    assert_eq!(pick_variant_file_url(&obj(vec![]), &vs, Some("zzz")), Some("https://h/v2.rpk".to_string()));
    assert_eq!(pick_variant_file_url(&detail, &vs, None), Some("https://h/v1.rpk".to_string()));
    assert_eq!(pick_variant_file_url(&obj(vec![]), &vs[2..], None), None);
    let only_plain = vec![vs[2].duplicate(), vs[0].duplicate()];
    assert_eq!(pick_variant_file_url(&obj(vec![]), &only_plain, None), Some("https://h/v1.rpk".to_string()));

    let full = obj(vec![("variants", arr(variants())), ("latestVersion", version("https://h/top.rpk", "t"))]);
    assert_eq!(download_url_from_detail(&full, Some("Round")), Some("https://h/v1.rpk".to_string()));
    let leaf = obj(vec![("latestVersion", version("https://h/top.rpk", "t"))]);
    assert_eq!(download_url_from_detail(&leaf, None), Some("https://h/top.rpk".to_string()));
    assert_eq!(download_url_from_detail(&obj(vec![]), None), None);
    assert_eq!(download_url_from_versions(&[version("https://h/l.rpk", "1")], "9"), Ok("https://h/l.rpk".to_string()));
    assert_eq!(
        download_url_from_versions(&[], "9"),
        Err("no downloadable file resolved for app 9".to_string())
    );
}

#[test]
fn primary_version_prefers_the_records_own_file() {
    let own = obj(vec![("latestVersion", version("https://h/own.rpk", "o")), ("variants", arr(variants()))]);
    assert_eq!(resolve_primary_version(&own).and_then(|v| text(v, "versionName")), Some("o".to_string()));
    let selected = obj(vec![("variants", arr(variants())), ("selectedVariantId", s("v1"))]);
    assert_eq!(resolve_primary_version(&selected).and_then(|v| text(v, "versionName")), Some("1.0".to_string()));
    let recommended = obj(vec![("variants", arr(variants())), ("latestVersion", obj(vec![("fileUrl", s("no"))]))]);
    assert_eq!(resolve_primary_version(&recommended).and_then(|v| text(v, "versionName")), Some("2.0".to_string()));
    assert!(resolve_primary_version(&obj(vec![])).is_none());
}

#[test]
fn downloads_per_variant_or_one_for_the_device() {
    let record = obj(vec![("id", s("app")), ("variants", arr(variants()))]);
    let d = build_downloads(&record, &[], &QwConfig::new());
    assert_eq!(keys(&d), vec!["v1", "v2"]);
    let v1 = d.get("v1").unwrap();
    assert_eq!(text(v1, "version"), Some("1.0".to_string()));
    assert_eq!(text(v1, "file_name"), Some("qingwear-v1.rpk".to_string()));
    assert_eq!(text(v1, "display_name"), Some("Round".to_string()));

    let same_id = obj(vec![(
        "variants",
        arr(vec![
            obj(vec![("id", s("v")), ("latestVersion", version("https://h/a.rpk", "a"))]),
            obj(vec![("id", s("v")), ("latestVersion", version("https://h/b.zip", "b"))]),
        ]),
    )]);
    let d2 = build_downloads(&same_id, &[], &QwConfig::new());
    assert_eq!(keys(&d2), vec!["v"]);
    assert_eq!(text(d2.get("v").unwrap(), "file_name"), Some("qingwear-v.zip".to_string()));

    let bare = obj(vec![("id", s("solo")), ("updateTime", s("2025-01-01"))]);
    let versions = vec![version("https://h/s.apk", "")];
    let d3 = build_downloads(&bare, &versions, &QwConfig::new());
    assert_eq!(keys(&d3), vec!["watch-square"]);
    let entry = d3.get("watch-square").unwrap();
    assert_eq!(text(entry, "version"), Some("2025-01-01".to_string()));
    assert_eq!(text(entry, "file_name"), Some("qingwear-solo.apk".to_string()));
}

#[test]
fn manifest_has_item_downloads_links_and_ext() {
    let record = obj(vec![("id", s("m1")), ("name", s("Face")), ("priceType", num("1"))]);
    let m = build_manifest(&record, &[], &QwConfig::new());
    assert_eq!(keys(&m), vec!["item", "downloads", "links", "ext"]);
    let item = m.get("item").unwrap();
    assert_eq!(
        keys(item),
        vec!["id", "restype", "name", "description", "preview", "icon", "cover", "paid_type", "category", "author"]
    );
    assert_eq!(text(item, "paid_type"), Some("paid".to_string()));
    assert_eq!(text(item, "name"), Some("Face".to_string()));
}
