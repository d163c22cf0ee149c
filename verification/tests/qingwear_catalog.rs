use community_provider::json::JsonValue;
use community_provider::qw_catalog::{
    apps_list_body, category_index_from, category_index_or_fallback, device_index_from, extract_records,
    fallback_category_index, find_record_by_id, index_limit, page_window, plan_qw_index, qw_category_labels_for,
    resolve_category_id, resolve_device_ids, resolve_sort, single_record, CountScan, QwDevice, VisibleScan,
};

fn num(t: &str) -> JsonValue {
    JsonValue::Number(t.to_string())
}

fn s(t: &str) -> JsonValue {
    JsonValue::Str(t.to_string())
}

fn obj(entries: Vec<(&str, JsonValue)>) -> JsonValue {
    JsonValue::Object(entries.into_iter().map(|(k, v)| (k.to_string(), v)).collect())
}

fn arr(items: Vec<JsonValue>) -> JsonValue {
    JsonValue::Array(items)
}

fn id_of(v: &JsonValue) -> String {
    v.get("id").and_then(|x| x.as_str()).unwrap_or_default().to_string()
}

fn ids(v: &[JsonValue]) -> Vec<String> {
    v.iter().map(id_of).collect()
}

fn app(id: &str, paid: bool) -> JsonValue {
    obj(vec![("id", s(id)), ("priceType", num(if paid { "1" } else { "0" }))])
}

fn device(id: &str, name: &str, model: &str) -> QwDevice {
    QwDevice { id: id.to_string(), name: name.to_string(), model: model.to_string() }
}

fn strings(v: &[&str]) -> Vec<String> {
    v.iter().map(|x| x.to_string()).collect()
}

#[test]
fn records_come_from_arrays_and_record_lists() {
    assert_eq!(ids(&extract_records(arr(vec![app("a", false)]))), vec!["a"]);
    assert_eq!(ids(&extract_records(obj(vec![("list", arr(vec![app("b", false)]))]))), vec!["b"]);
    assert_eq!(
        ids(&extract_records(obj(vec![("items", arr(vec![app("c", false)])), ("records", arr(vec![]))]))).len(),
        0
    );
    assert_eq!(extract_records(obj(vec![("records", s("x")), ("list", arr(vec![app("d", false)]))])).len(), 0);
    assert_eq!(extract_records(JsonValue::Null).len(), 0);
}

#[test]
fn single_record_is_the_object_or_its_first_record() {
    let plain = obj(vec![("id", s("x"))]);
    assert_eq!(single_record(plain).map(|r| id_of(&r)), Some("x".to_string()));
    let listed = obj(vec![("records", arr(vec![app("y", false), app("z", false)]))]);
    assert_eq!(single_record(listed).map(|r| id_of(&r)), Some("y".to_string()));
    assert!(single_record(obj(vec![("list", arr(vec![]))])).is_none());
    assert!(single_record(JsonValue::Null).is_none());
}

#[test]
fn category_and_device_indexes() {
    let reply = arr(vec![
        obj(vec![("id", num("1")), ("name", s(" 表盘 "))]),
        obj(vec![("id", s("2")), ("name", s("工具"))]),
        obj(vec![("name", s("无编号"))]),
    ]);
    let index = category_index_from(reply).unwrap();
    assert_eq!(index, vec![(1, "表盘".to_string()), (2, "工具".to_string())]);
    assert_eq!(
        category_index_from(obj(vec![("records", arr(vec![]))])),
        Err("categories response had no usable entries".to_string())
    );
    let fallback = fallback_category_index();
    assert_eq!(fallback.len(), 5);
    assert_eq!(fallback[4], (5, "运动健康".to_string()));
    assert_eq!(category_index_or_fallback(Err("down".to_string())), fallback);
    assert_eq!(category_index_or_fallback(Ok(vec![(9, "x".to_string())])), vec![(9, "x".to_string())]);

    let devices = device_index_from(arr(vec![
        obj(vec![("id", num("7")), ("name", s("Watch 5")), ("model", s("W5"))]),
        obj(vec![("id", s("8")), ("name", s("Band"))]),
        obj(vec![("id", s("9"))]),
    ]))
    .unwrap();
    assert_eq!(devices.len(), 2);
    assert_eq!(devices[0].model, "W5");
    assert_eq!(devices[1].model, "");
    assert_eq!(
        device_index_from(arr(vec![])).err(),
        Some("devices response had no usable entries".to_string())
    );
}

#[test]
fn category_labels_start_with_all_and_repeat_nothing() {
    let index = vec![(1, "表盘".to_string()), (2, " 工具 ".to_string()), (3, "表盘".to_string()), (4, "  ".to_string())];
    let devices = vec![device("7", "Watch 5", "W5"), device("8", " Watch 5 ", "W5b"), device("9", " ", "x")];
    let labels = qw_category_labels_for(&index, &devices);
    assert_eq!(labels, strings(&["全部", "表盘", "工具", "设备:Watch 5"]));
    assert_eq!(qw_category_labels_for(&[], &[]), strings(&["全部"]));
}

#[test]
fn category_filter_skips_all_blank_and_devices() {
    let index = vec![(1, "表盘".to_string()), (2, "工具".to_string())];
    let chosen = strings(&["全部", "设备:x", "  ", " 工具 "]);
    assert_eq!(resolve_category_id(Some(&chosen), &index), Some(2));
    assert_eq!(resolve_category_id(Some(&strings(&["42"])), &index), Some(42));
    assert_eq!(resolve_category_id(Some(&strings(&["nothing"])), &index), None);
    assert_eq!(resolve_category_id(None, &index), None);
}

#[test]
fn device_filter_names_each_device_once() {
    let devices = vec![device("7", "Watch 5", "W5"), device(" 8 ", "Band", "B1"), device("x", "Odd", "O")];
    let chosen = strings(&["设备:Watch 5", "设备: w5 ", "设备:7", "设备:Band", "表盘", "设备:Odd", "设备: "]);
    assert_eq!(resolve_device_ids(Some(&chosen), &devices), Some(vec![7, 8]));
    assert_eq!(resolve_device_ids(Some(&strings(&["设备:none"])), &devices), None);
    assert_eq!(resolve_device_ids(None, &devices), None);
}

#[test]
fn sort_and_limit() {
    assert_eq!(resolve_sort(None), "latest");
    assert_eq!(resolve_sort(Some("POPULAR")), "hot");
    assert_eq!(resolve_sort(Some("download")), "hot");
    assert_eq!(resolve_sort(Some("Recommended")), "featured");
    assert_eq!(resolve_sort(Some("newest")), "latest");
    assert_eq!(index_limit(0), 1);
    assert_eq!(index_limit(24), 24);
    assert_eq!(index_limit(500), 100);
}

#[test]
fn index_plan_combines_the_filters() {
    let index = vec![(1, "表盘".to_string())];
    let devices = vec![device("7", "Watch 5", "W5")];
    let chosen = strings(&["表盘", "设备:Watch 5"]);
    let plan = plan_qw_index(2, 0, Some("  face "), Some("hot"), Some(&chosen), &index, &devices);
    assert_eq!(plan.limit, 1);
    assert_eq!(plan.page_start, 2);
    assert_eq!(plan.required, 3);
    assert_eq!(plan.sort, "hot");
    assert_eq!(plan.filter, Some("face".to_string()));
    assert_eq!(plan.category_id, Some(1));
    assert_eq!(plan.device_ids, Some(vec![7]));
    let wide = plan_qw_index(usize::MAX, 50, Some("   "), None, None, &index, &devices);
    assert_eq!(wide.page_start, usize::MAX);
    assert_eq!(wide.required, usize::MAX);
    assert_eq!(wide.filter, None);
}

#[test]
fn list_body_carries_only_given_filters() {
    let body = apps_list_body(3, 100, "latest", Some("k"), Some(4), Some(&[7, 8]));
    assert_eq!(body.get("current").and_then(|v| v.as_u64()), Some(3));
    assert_eq!(body.get("size").and_then(|v| v.as_u64()), Some(100));
    assert_eq!(body.get("sort").and_then(|v| v.as_str()), Some("latest"));
    assert_eq!(body.get("keyword").and_then(|v| v.as_str()), Some("k"));
    assert_eq!(body.get("category").and_then(|v| v.as_i64()), Some(4));
    match body.get("deviceIds") {
        Some(JsonValue::Array(items)) => assert_eq!(items.len(), 2),
        _ => panic!("deviceIds missing"),
    }
    let bare = apps_list_body(1, 24, "hot", None, None, Some(&[]));
    assert!(bare.get("keyword").is_none());
    assert!(bare.get("category").is_none());
    assert!(bare.get("deviceIds").is_none());
}

fn page(records: Vec<JsonValue>, pages: Option<&str>) -> JsonValue {
    let mut e = vec![("records", arr(records))];
    if let Some(p) = pages {
        e.push(("pages", num(p)));
    }
    obj(e)
}

#[test]
fn visible_scan_gathers_free_records_only() {
    let mut scan = VisibleScan::new(3);
    assert_eq!(scan.next_page(), Some(1));
    let full: Vec<JsonValue> = (0..100).map(|i| app(&format!("r{i}"), i % 2 == 0)).collect();
    scan.apply_page(page(full, Some("5")));
    assert_eq!(ids(&scan.visible), vec!["r1", "r3", "r5"]);
    assert!(!scan.done);
    assert_eq!(scan.current, 2);
    assert_eq!(scan.next_page(), None);

    let mut short = VisibleScan::new(10);
    short.apply_page(page(vec![app("a", false), app("b", true)], None));
    assert!(short.done);
    assert_eq!(ids(&short.visible), vec!["a"]);
    assert_eq!(short.next_page(), None);

    let mut last = VisibleScan::new(500);
    let full2: Vec<JsonValue> = (0..100).map(|i| app(&format!("q{i}"), false)).collect();
    last.apply_page(page(full2, Some("1")));
    assert!(last.done);
    assert_eq!(last.visible.len(), 100);

    let none = VisibleScan::new(0);
    assert!(none.done);
    assert_eq!(none.next_page(), None);
}

#[test]
fn count_scan_counts_free_records_until_the_list_ends() {
    let mut scan = CountScan::new();
    assert_eq!(scan.next_page(), Some(1));
    let full: Vec<JsonValue> = (0..100).map(|i| app(&format!("r{i}"), i < 10)).collect();
    scan.apply_page(page(full, None));
    assert_eq!(scan.total, 90);
    assert_eq!(scan.next_page(), Some(2));
    scan.apply_page(page(vec![app("x", false), app("y", true)], None));
    assert_eq!(scan.total, 91);
    assert!(scan.done);
    assert_eq!(scan.next_page(), None);
}

#[test]
fn page_window_skips_then_takes() {
    let records: Vec<JsonValue> = (0..5).map(|i| app(&format!("w{i}"), false)).collect();
    let dup = |v: &Vec<JsonValue>| v.iter().map(|r| r.duplicate()).collect::<Vec<_>>();
    assert_eq!(ids(&page_window(dup(&records), 1, 2)), vec!["w1", "w2"]);
    assert_eq!(ids(&page_window(dup(&records), 4, 10)), vec!["w4"]);
    assert!(page_window(records, 5, 1).is_empty());
}

#[test]
fn listed_record_is_found_by_id() {
    let records = vec![app("a", false), obj(vec![("appId", num("12"))]), app("a", true)];
    let found = find_record_by_id(records, "12").unwrap();
    assert!(found.get("appId").is_some());
    let again = vec![app("a", false), app("a", true)];
    assert_eq!(find_record_by_id(again, "a").map(|r| r.get("priceType").and_then(|v| v.as_u64())), Ok(Some(0)));
    assert_eq!(
        find_record_by_id(vec![app("b", false)], "zz").err(),
        Some("app zz not found".to_string())
    );
}
