use community_provider::config::{AuthContext, ClientIdentity, ProviderConfig};
use community_provider::devices::DeviceInfo;
use community_provider::json::JsonValue;
use community_provider::session::ProviderState;
use community_provider::ui::{
    accept_picked_file, accept_picked_image, begin_submit_upload, find_upload_by_id, render_main_ui, set_text_field,
    toggle_aod_slot, ui_event_processor, ui_event_processor_v3, ActivePanel, TextField, UiCommand, UiState,
};
use community_provider::ui_view::build_main_ui;
use community_provider::uploads::{
    delete_my_upload_for_ui, map_my_share_record, my_share_items, my_uploads_request, preview_upload_request,
    read_preview_token, read_upload_reason, read_upload_tips, submit_upload_for_ui, MyShareItemRecord, UiBinaryAsset,
    UiMyShareItem, UiUploadRequest,
};

fn s(t: &str) -> JsonValue {
    JsonValue::Str(t.to_string())
}

fn obj(entries: Vec<(&str, JsonValue)>) -> JsonValue {
    JsonValue::Object(entries.into_iter().map(|(k, v)| (k.to_string(), v)).collect())
}

fn identity() -> ClientIdentity {
    ClientIdentity {
        did: "DID".to_string(),
        model: "Xiaomi".to_string(),
        model2: "crc".to_string(),
        model3: "m3".to_string(),
        app_signature_sha1: "sha".to_string(),
    }
}

fn logged_in() -> ProviderState {
    ProviderState {
        config: ProviderConfig { device_type: Some("N66".to_string()), ..Default::default() },
        auth: Some(AuthContext {
            openid: "oid".to_string(),
            valid_token: "tok".to_string(),
            nickname: None,
            donation: "0".to_string(),
        }),
        last_login_error: None,
    }
}

fn record(id: i64, model: Option<&str>) -> MyShareItemRecord {
    MyShareItemRecord {
        id,
        name: " Dial ".to_string(),
        desc: "d".to_string(),
        device_type: model.map(|m| m.to_string()),
        preview: Some("p.png".to_string()),
        preview_aod: None,
        preview_aod2: None,
        preview_aod3: None,
        download_times: None,
        updated_at: Some(3),
        created_at: None,
        is_share: Some(1),
        is_review: None,
        mitantid: None,
        mitantype: None,
    }
}

fn upload_request(with_file: bool) -> UiUploadRequest {
    UiUploadRequest {
        device_type: "zz".to_string(),
        name: "n".to_string(),
        description: String::new(),
        static_png: true,
        update_id: None,
        mitantid: None,
        mitantype: "t".to_string(),
        preview_main: None,
        preview_aod: None,
        preview_aod2: None,
        preview_aod3: None,
        watchface_file: if with_file { Some(UiBinaryAsset { name: "f.bin".to_string(), data: vec![1] }) } else { None },
    }
}

#[test]
fn uploads_are_listed_without_hidden_models() {
    let names = vec![("n66".to_string(), "小米手环9".to_string())];
    let item = map_my_share_record(record(5, Some(" N66 ")), &names);
    assert_eq!(item.device_type, "N66");
    assert_eq!(item.device_name, "小米手环9");
    assert_eq!(item.display_name, "Dial（小米手环9）");
    assert!(item.is_share);
    assert_eq!(item.preview_url, "https://www.mibandtool.club:9073/watchface/getPreviewImgMi7/p.png");
    let listed = my_share_items(vec![record(1, Some("mi8")), record(2, None), record(3, Some("O62"))], &names);
    assert_eq!(listed.iter().map(|i| i.id).collect::<Vec<_>>(), vec![2, 3]);
}

#[test]
fn user_requests_need_a_session() {
    let out = ProviderState::default();
    assert_eq!(delete_my_upload_for_ui(&out, &identity(), 4, 0).err(), Some("请先登录米坛账号".to_string()));
    let req = delete_my_upload_for_ui(&logged_in(), &identity(), 4, 1000).unwrap();
    assert!(req.form.iter().any(|(k, v)| k == "id" && v == "4"));
    assert!(req.headers.iter().any(|(k, v)| k == "openId" && v == "oid"));
    assert!(my_uploads_request(&out, &identity(), 0, 10, 0).is_err());
    let page = my_uploads_request(&logged_in(), &identity(), 0, 10, 0).unwrap();
    assert!(page.url.ends_with("watchface/my/share/list/1/10"));
}

#[test]
fn upload_replies() {
    let reasons = JsonValue::Array(vec![obj(vec![("tag", s("  blurry "))]), obj(vec![("tag", s("x"))])]);
    assert_eq!(read_upload_reason(&reasons), Some("blurry".to_string()));
    assert_eq!(read_upload_reason(&JsonValue::Array(vec![])), None);
    assert_eq!(read_upload_tips(&obj(vec![("msg", s(" tip "))])), Some("tip".to_string()));
    assert_eq!(read_upload_tips(&s(" plain ")), Some("plain".to_string()));
    assert_eq!(read_upload_tips(&obj(vec![("msg", s(" "))])), None);
    assert_eq!(read_preview_token(&s(" tok ")), Ok("tok".to_string()));
    assert_eq!(
        read_preview_token(&JsonValue::Null),
        Err("上传预览图成功，但服务端没有返回预览标识".to_string())
    );
}

#[test]
fn submitting_needs_a_file_then_a_session() {
    let devices = vec![DeviceInfo { model: "N66".to_string(), name: "小米手环9".to_string() }];
    assert_eq!(
        submit_upload_for_ui(&logged_in(), &upload_request(false), &devices).err(),
        Some("请选择要上传的资源文件".to_string())
    );
    assert_eq!(
        submit_upload_for_ui(&ProviderState::default(), &upload_request(true), &devices).err(),
        Some("请先登录米坛账号".to_string())
    );
    let plan = submit_upload_for_ui(&logged_in(), &upload_request(true), &devices).unwrap();
    assert_eq!(plan.device_type, "N66");
    let preview = preview_upload_request("N66", &UiBinaryAsset { name: "a.JPG".to_string(), data: vec![1, 2] });
    assert_eq!(preview.file.mime, "image/jpeg");
    assert_eq!(preview.url, "https://www.mibandtool.club:9073/watchface/uploadPreviewImgMi7");
}

#[test]
fn events_become_commands() {
    assert!(matches!(
        ui_event_processor(false, "tab:upload", None, None),
        UiCommand::ShowPanel(ActivePanel::Upload)
    ));
    assert!(matches!(
        ui_event_processor(false, "field:login.username", Some("bob".to_string()), None),
        UiCommand::SetText(TextField::LoginUsername, ref v) if v == "bob"
    ));
    assert!(matches!(ui_event_processor(false, "toggle:upload.aod2", None, Some(true)), UiCommand::ToggleAod(2, true)));
    assert!(matches!(
        ui_event_processor(false, "action:manage.delete:42", None, None),
        UiCommand::DeleteUpload(ref id) if id == "42"
    ));
    assert!(matches!(ui_event_processor(true, "action:logout", None, None), UiCommand::Nothing));
    assert!(matches!(ui_event_processor(true, "tab:manage", None, None), UiCommand::ShowPanel(ActivePanel::Manage)));
    assert!(matches!(ui_event_processor(false, "unknown", None, None), UiCommand::Nothing));
    assert!(matches!(ui_event_processor_v3(false, "action:manage.load-more", "click", None, None), UiCommand::LoadUploads(false)));
}

#[test]
fn work_bench_state_changes() {
    let mut st = UiState::new();
    assert!(!st.initialized);
    assert!(render_main_ui(&mut st, "root"));
    assert_eq!(st.root_element_id.as_deref(), Some("root"));
    set_text_field(&mut st, TextField::UploadName, "it's".to_string());
    assert_eq!(st.upload_name, "it's");
    toggle_aod_slot(&mut st, 1, true);
    assert!(st.upload_enable_aod1);
    assert!(begin_submit_upload(&mut st).is_none());
    assert_eq!(st.notice.as_ref().map(|n| n.message.as_str()), Some("请先登录米坛账号，再执行上传。"));
    st.account.logged_in = true;
    assert!(begin_submit_upload(&mut st).is_none());
    assert_eq!(st.notice.as_ref().map(|n| n.message.as_str()), Some("资源名称不能包含单引号。"));
    let ui = build_main_ui(&st);
    let _ = ui;
}

#[test]
fn picked_files() {
    assert!(matches!(accept_picked_file("  ".to_string(), vec![], String::new()), Ok(None)));
    assert_eq!(
        accept_picked_file("a.bin".to_string(), vec![], String::new()).err(),
        Some("已选择文件“a.bin”，但插件既没有从宿主拿到文件数据，也没有从插件缓存目录读到副本。".to_string())
    );
    let img = accept_picked_image("p.png".to_string(), b"hi".to_vec(), "2 B".to_string()).unwrap().unwrap();
    assert_eq!(img.preview_url.as_deref(), Some("data:image/png;base64,aGk="));
}

#[test]
fn uploads_are_found_by_id() {
    let mut st = UiState::new();
    let names: Vec<(String, String)> = vec![];
    let item: UiMyShareItem = map_my_share_record(record(8, Some("N66")), &names);
    st.uploads.push(item);
    assert_eq!(find_upload_by_id(&st, "8").map(|i| i.id), Some(8));
    assert!(find_upload_by_id(&st, "x").is_none());
    assert!(find_upload_by_id(&st, "9").is_none());
}
