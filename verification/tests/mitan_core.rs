use community_provider::catalog::{
    dedupe_watchface_items, resolve_list_mode, sort_watchface_items, ListMode, WatchfaceItem,
};
use community_provider::codec::{
    bytes_to_lower_hex, bytes_to_upper_hex, decode_hex_pair, hex_string_to_bytes, md5_hex,
    percent_decode, url_encode,
};
use community_provider::devices::{
    fallback_device_list, filter_supported_devices, is_hidden_device_model, is_hidden_device_name,
    match_device_category, normalize_ui_device_type, resolve_device_list, resolve_requested_device_type,
    supported_device_types, DeviceInfo,
};
use community_provider::numbers::{i64_to_text, parse_i64_str, parse_u64_str, u128_to_text, u64_to_text};
use community_provider::tags::{
    category_labels_for, fallback_tag_list, find_tag_id_named, resolve_category_id, resolve_tag_list, tag_name_for,
    TagInfo,
};
use community_provider::text::{lower_str, str_eq_ignore_case, trim_str, upper_str};

fn item(id: i64) -> WatchfaceItem {
    WatchfaceItem {
        id,
        nickname: None,
        name: format!("face {id}"),
        desc: None,
        download_times: None,
        preview: None,
        preview_aod: None,
        created_at: None,
        updated_at: None,
        device_type: None,
        views: None,
        is_recommend: None,
        donation: None,
        is_tag: None,
        filesize: None,
        mitantid: None,
        mitantype: None,
    }
}

fn device(model: &str, name: &str) -> DeviceInfo {
    DeviceInfo { model: model.to_string(), name: name.to_string() }
}

fn strings(v: &[&str]) -> Vec<String> {
    v.iter().map(|x| x.to_string()).collect()
}

#[test]
fn text_helpers() {
    assert_eq!(trim_str(" \t a b \n"), "a b");
    assert_eq!(lower_str("AbC-Ü"), "abc-Ü");
    assert_eq!(upper_str("get"), "GET");
    assert!(str_eq_ignore_case("MiBand", "miband"));
    assert!(!str_eq_ignore_case("mi", "mi7"));
}

#[test]
fn numbers_parse_and_print() {
    assert_eq!(parse_u64_str("+42"), Some(42));
    assert_eq!(parse_u64_str("18446744073709551615"), Some(u64::MAX));
    assert_eq!(parse_u64_str("18446744073709551616"), None);
    assert_eq!(parse_u64_str(""), None);
    assert_eq!(parse_u64_str("-1"), None);
    assert_eq!(parse_i64_str("-9223372036854775808"), Some(i64::MIN));
    assert_eq!(parse_i64_str("9223372036854775808"), None);
    assert_eq!(parse_i64_str(" 1"), None);
    assert_eq!(u64_to_text(0), "0");
    assert_eq!(i64_to_text(-305), "-305");
    assert_eq!(u128_to_text(u128::MAX), "340282366920938463463374607431768211455");
}

#[test]
fn codec_formulas() {
    assert_eq!(bytes_to_upper_hex(&[0, 171, 255]), "00ABFF");
    assert_eq!(bytes_to_lower_hex(&[0, 171, 255]), "00abff");
    assert_eq!(decode_hex_pair(b'a', b'F'), Some(0xaf));
    assert_eq!(decode_hex_pair(b'g', b'0'), None);
    assert_eq!(hex_string_to_bytes(" 00ff10 "), Some(vec![0, 255, 16]));
    assert_eq!(hex_string_to_bytes("abc"), None);
    assert_eq!(hex_string_to_bytes(""), None);
    assert_eq!(hex_string_to_bytes("zz"), None);
    assert_eq!(url_encode("a b/é~"), "a%20b%2F%C3%A9~");
    assert_eq!(percent_decode("a%41+b%zz1%4"), "aA b%1%4");
    assert_eq!(md5_hex("abc"), "900150983cd24fb0d6963f7d28e17f72");
    let picked = community_provider::ui::accept_picked_image("a.png".to_string(), b"hello".to_vec(), "5 B".to_string());
    match picked {
        Ok(Some(asset)) => assert_eq!(asset.preview_url.as_deref(), Some("data:image/png;base64,aGVsbG8=")),
        other => panic!("unexpected pick result: {other:?}"),
    }
}

#[test]
fn hidden_and_supported_devices() {
    assert!(is_hidden_device_model(" MI7 "));
    assert!(!is_hidden_device_model("N66"));
    assert!(is_hidden_device_name(" 小米手环8 "));
    assert!(!is_hidden_device_name("小米手环9"));
    let fallback = fallback_device_list();
    assert_eq!(fallback.len(), 18);
    let supported = filter_supported_devices(&fallback);
    let models: Vec<&str> = supported.iter().map(|d| d.model.as_str()).collect();
    assert_eq!(models, vec!["ws3", "N66", "N67", "O62", "o65", "o66", "o67", "p65", "P62"]);
}

#[test]
fn device_list_tops_up_the_server_list() {
    let list = resolve_device_list(Some(vec![device("n66", "Band 9 (server)"), device("x1", "New"), device("mi4", "old")]));
    let models: Vec<&str> = list.iter().map(|d| d.model.as_str()).collect();
    assert_eq!(models, vec!["n66", "x1", "ws3", "N67", "O62", "o65", "o66", "o67", "p65", "P62"]);
    let fallback_only = resolve_device_list(None);
    assert_eq!(fallback_only.len(), 9);
    assert_eq!(resolve_device_list(Some(vec![])).len(), 9);
    assert_eq!(supported_device_types(&[device(" a ", "1"), device("A", "2"), device("b", "3")]), strings(&["a", "b"]));
}

#[test]
fn device_categories_and_requested_type() {
    let devices = vec![device("N66", "小米手环9"), device("O62", "小米手表S4")];
    assert_eq!(match_device_category("设备: n66 ", &devices), Some("N66".to_string()));
    assert_eq!(match_device_category("小米手表S4", &devices), Some("O62".to_string()));
    assert_eq!(match_device_category("unknown", &devices), None);
    assert_eq!(normalize_ui_device_type(Some(" O62 "), &devices), "O62");
    assert_eq!(normalize_ui_device_type(Some("zz"), &devices), "N66");
    assert_eq!(normalize_ui_device_type(None, &[]), "mi7");
    assert_eq!(resolve_requested_device_type("O62", &strings(&["设备:小米手环9"]), &devices), "N66");
    assert_eq!(resolve_requested_device_type("O62", &strings(&["工具"]), &devices), "O62");
    assert_eq!(resolve_requested_device_type("zz", &[], &devices), "N66");
    assert_eq!(resolve_requested_device_type("zz", &[], &[]), "zz");
}

#[test]
fn list_modes_and_their_names() {
    assert_eq!(resolve_list_mode(None), ListMode::Latest);
    assert_eq!(resolve_list_mode(Some("HOT")), ListMode::Hot);
    assert_eq!(resolve_list_mode(Some("download")), ListMode::Hot);
    assert_eq!(resolve_list_mode(Some("Recommended")), ListMode::Recommend);
    assert_eq!(resolve_list_mode(Some("featured")), ListMode::Latest);
    for mode in [ListMode::Latest, ListMode::Hot, ListMode::Recommend] {
        assert_eq!(resolve_list_mode(Some(mode.as_str())), mode);
    }
}

#[test]
fn hot_sort_orders_by_downloads_then_views_then_update_then_id() {
    let mut a = item(1);
    a.download_times = Some(5);
    let mut b = item(2);
    b.download_times = Some(9);
    let mut c = item(3);
    c.download_times = Some(5);
    c.views = Some(1);
    let mut d = item(4);
    d.download_times = Some(5);
    let mut items = vec![a, b, c, d];
    sort_watchface_items(&mut items, Some("hot"));
    let ids: Vec<i64> = items.iter().map(|i| i.id).collect();
    assert_eq!(ids, vec![2, 3, 4, 1]);
}

#[test]
fn latest_and_recommended_sorts() {
    let mut a = item(1);
    a.updated_at = Some(10);
    let mut b = item(2);
    b.updated_at = Some(10);
    b.created_at = Some(5);
    let mut c = item(3);
    c.updated_at = Some(20);
    c.is_recommend = Some(0);
    let mut items = vec![a.duplicate(), b.duplicate(), c.duplicate()];
    sort_watchface_items(&mut items, None);
    assert_eq!(items.iter().map(|i| i.id).collect::<Vec<_>>(), vec![3, 2, 1]);
    a.is_recommend = Some(1);
    let mut rec = vec![c, b, a];
    sort_watchface_items(&mut rec, Some("recommend"));
    assert_eq!(rec.iter().map(|i| i.id).collect::<Vec<_>>(), vec![1, 3, 2]);
}

#[test]
fn dedupe_keeps_the_first_face_per_id_and_model() {
    let mut a = item(1);
    a.name = "first".to_string();
    let mut b = item(1);
    b.device_type = Some("mi7".to_string());
    let mut c = item(1);
    c.device_type = Some("N66".to_string());
    let mut items = vec![a, b, c, item(2)];
    dedupe_watchface_items(&mut items);
    assert_eq!(items.len(), 3);
    assert_eq!(items[0].name, "first");
    assert_eq!(items[1].device_type.as_deref(), Some("N66"));
}

#[test]
fn tags_and_category_labels() {
    let fallback = fallback_tag_list();
    assert_eq!(fallback.len(), 9);
    assert_eq!(fallback[0].id, 9999);
    assert_eq!(resolve_tag_list(Some(vec![])).len(), 9);
    let tags = vec![
        TagInfo { id: 3, name: "工具".to_string() },
        TagInfo { id: 4, name: "表盘".to_string() },
        TagInfo { id: 3, name: "工具箱".to_string() },
    ];
    assert_eq!(tag_name_for(&tags, 3), Some("工具箱".to_string()));
    assert_eq!(tag_name_for(&tags, 5), None);
    assert_eq!(find_tag_id_named(&tags, "表盘"), Some(4));
    assert_eq!(find_tag_id_named(&tags, "工具"), None);
    let labels = category_labels_for(
        &[device("N66", " 小米手环9 "), device("x", " "), device("N67", "小米手环9")],
        &[TagInfo { id: 1, name: " 游戏 ".to_string() }, TagInfo { id: 2, name: "游戏".to_string() }],
    );
    assert_eq!(labels, strings(&["设备:小米手环9", "游戏"]));
}

#[test]
fn requested_category_becomes_a_tag_id() {
    let tags = vec![TagInfo { id: 4, name: "表盘".to_string() }];
    assert_eq!(resolve_category_id(&tags, &strings(&["", "设备:x", " 表盘 "])), 4);
    assert_eq!(resolve_category_id(&tags, &strings(&["17"])), 17);
    assert_eq!(resolve_category_id(&tags, &strings(&["nope"])), 9999);
    assert_eq!(resolve_category_id(&tags, &[]), 9999);
}
