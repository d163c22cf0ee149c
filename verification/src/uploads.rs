//! The signed-in user's own uploads: listing them, sharing, deleting,
//! pinning, asking why one was refused, and uploading a new face.
use vstd::prelude::*;
use crate::text::{trim, lower, trim_chars, lower_chars, chars_of, string_from_chars, concat_str};
use crate::numbers::{int_text, nat_text, i64_to_text, u64_to_text};
use crate::json::{JsonValue, json_as_str, json_get_str};
use crate::config::{ProviderConfig, ClientIdentity, AuthContext, ov, nonblank, last_value, last_pair_value, pair_views};
use crate::api::{ApiRequest, HttpMethod, api_url_of, base_headers_spec, base_headers_for_type, api_url, join};
use crate::devices::{DeviceInfo, dvs, hidden_model, ui_device_type, is_hidden_device_model, normalize_ui_device_type};
use crate::faces::{preview_reference, image_mime, normalize_preview_reference, normalize_preview_option, guess_image_mime};
use crate::catalog::i_or_zero;
use crate::session::{ProviderState, require_auth_context_for_ui};
use crate::requests::config_type;

verus! {

/// One of the user's uploads as the server lists it; `device_type` is the
/// server's `type` field.
#[derive(Debug)]
pub struct MyShareItemRecord {
    pub id: i64,
    pub name: String,
    pub desc: String,
    pub device_type: Option<String>,
    pub preview: Option<String>,
    pub preview_aod: Option<String>,
    pub preview_aod2: Option<String>,
    pub preview_aod3: Option<String>,
    pub download_times: Option<u64>,
    pub updated_at: Option<i64>,
    pub created_at: Option<i64>,
    pub is_share: Option<i64>,
    pub is_review: Option<i64>,
    pub mitantid: Option<String>,
    pub mitantype: Option<String>,
}

/// One of the user's uploads as the work-bench shows it.
#[derive(Clone, Debug)]
pub struct UiMyShareItem {
    pub id: i64,
    pub display_name: String,
    pub name: String,
    pub description: String,
    pub device_type: String,
    pub device_name: String,
    pub preview_url: String,
    pub preview_aod_url: Option<String>,
    pub preview_aod2_url: Option<String>,
    pub preview_aod3_url: Option<String>,
    pub is_share: bool,
    pub is_review: i64,
    pub download_times: u64,
    pub updated_at: Option<i64>,
    pub created_at: Option<i64>,
    pub mitantid: Option<String>,
    pub mitantype: Option<String>,
}

/// A file picked in the work-bench.
#[derive(Clone, Debug)]
pub struct UiBinaryAsset {
    pub name: String,
    pub data: Vec<u8>,
}

/// What the upload form submits.
#[derive(Clone, Debug)]
pub struct UiUploadRequest {
    pub device_type: String,
    pub name: String,
    pub description: String,
    pub static_png: bool,
    pub update_id: Option<String>,
    pub mitantid: Option<String>,
    pub mitantype: String,
    pub preview_main: Option<UiBinaryAsset>,
    pub preview_aod: Option<UiBinaryAsset>,
    pub preview_aod2: Option<UiBinaryAsset>,
    pub preview_aod3: Option<UiBinaryAsset>,
    pub watchface_file: Option<UiBinaryAsset>,
}

// ----------------------------------------------------------------------------
// Listing.
/// The model of an upload: its trimmed model, `mi7` when none.
pub open spec fn share_model(r: MyShareItemRecord) -> Seq<char> {
    match r.device_type {
        Some(t) => if trim(t@).len() > 0 {
            trim(t@)
        } else {
            "mi7"@
        },
        None => "mi7"@,
    }
}

pub open spec fn share_device_name(r: MyShareItemRecord, names: Seq<(Seq<char>, Seq<char>)>) -> Seq<char> {
    match last_value(names, lower(share_model(r))) {
        Some(n) => n,
        None => share_model(r),
    }
}

pub open spec fn preview_option_ok(o: Option<String>, v: Option<String>) -> bool {
    match o {
        Some(s) => s@ == preview_reference(ov(v)) && s@.len() > 0,
        None => preview_reference(ov(v)).len() == 0,
    }
}

/// `map_my_share_record`.
pub open spec fn share_item_ok(r: MyShareItemRecord, names: Seq<(Seq<char>, Seq<char>)>, u: UiMyShareItem) -> bool {
    &&& u.id == r.id
    &&& u.display_name@ == trim(r.name@) + "（"@ + share_device_name(r, names) + "）"@
    &&& u.name == r.name
    &&& u.description == r.desc
    &&& u.device_type@ == share_model(r)
    &&& u.device_name@ == share_device_name(r, names)
    &&& u.preview_url@ == preview_reference(ov(r.preview))
    &&& preview_option_ok(u.preview_aod_url, r.preview_aod)
    &&& preview_option_ok(u.preview_aod2_url, r.preview_aod2)
    &&& preview_option_ok(u.preview_aod3_url, r.preview_aod3)
    &&& u.is_share == (i_or_zero(r.is_share) == 1)
    &&& u.is_review == match r.is_review { Some(v) => v, None => 2 }
    &&& u.download_times == match r.download_times { Some(v) => v, None => 0 }
    &&& u.updated_at == r.updated_at
    &&& u.created_at == r.created_at
    &&& u.mitantid == r.mitantid
    &&& u.mitantype == r.mitantype
}

fn opt_ref(o: &Option<String>) -> (r: Option<&str>)
    ensures
        match r { Some(s) => Some(s@), None => None } == ov(*o),
{
    match o {
        Some(s) => Some(s.as_str()),
        None => None,
    }
}

pub fn map_my_share_record(item: MyShareItemRecord, names: &[(String, String)]) -> (r: UiMyShareItem)
    ensures
        share_item_ok(item, pair_views(names@), r),
{
    let ghost rec = item;
    let model = match &item.device_type {
        Some(t) => {
            let tc = trim_chars(t.as_str());
            if tc.len() > 0 {
                string_from_chars(tc.as_slice())
            } else {
                String::from_str("mi7")
            }
        },
        None => String::from_str("mi7"),
    };
    let key = string_from_chars(lower_chars(chars_of(model.as_str()).as_slice()).as_slice());
    let device_name = match last_pair_value(names, key.as_str()) {
        Some(n) => n.clone(),
        None => model.clone(),
    };
    let trimmed = string_from_chars(trim_chars(item.name.as_str()).as_slice());
    let a = concat_str(trimmed.as_str(), "（");
    let b = concat_str(a.as_str(), device_name.as_str());
    let display_name = concat_str(b.as_str(), "）");
    proof {
        assert(display_name@ =~= trim(rec.name@) + "（"@ + share_device_name(rec, pair_views(names@)) + "）"@);
    }
    let preview_url = normalize_preview_reference(opt_ref(&item.preview));
    let preview_aod_url = normalize_preview_option(opt_ref(&item.preview_aod));
    let preview_aod2_url = normalize_preview_option(opt_ref(&item.preview_aod2));
    let preview_aod3_url = normalize_preview_option(opt_ref(&item.preview_aod3));
    UiMyShareItem {
        id: item.id,
        display_name,
        name: item.name,
        description: item.desc,
        device_type: model,
        device_name,
        preview_url,
        preview_aod_url,
        preview_aod2_url,
        preview_aod3_url,
        is_share: match item.is_share {
            Some(v) => v == 1,
            None => false,
        },
        is_review: match item.is_review {
            Some(v) => v,
            None => 2,
        },
        download_times: match item.download_times {
            Some(v) => v,
            None => 0,
        },
        updated_at: item.updated_at,
        created_at: item.created_at,
        mitantid: item.mitantid,
        mitantype: item.mitantype,
    }
}

/// The uploads that are shown: those not for a hidden model.
pub open spec fn shown_records(s: Seq<MyShareItemRecord>) -> Seq<MyShareItemRecord>
    decreases s.len(),
{
    if s.len() == 0 {
        seq![]
    } else {
        let r = shown_records(s.drop_last());
        let t = match s.last().device_type {
            Some(t) => t@,
            None => Seq::<char>::empty(),
        };
        if hidden_model(t) {
            r
        } else {
            r.push(s.last())
        }
    }
}

/// The user's listed uploads as the work-bench shows them.
pub fn my_share_items(records: Vec<MyShareItemRecord>, names: &[(String, String)]) -> (r: Vec<UiMyShareItem>)
    ensures
        r@.len() == shown_records(records@).len(),
        forall|i: int|
            0 <= i < r@.len() ==> share_item_ok(shown_records(records@)[i], pair_views(names@), #[trigger] r@[i]),
{
    let ghost orig = records@;
    let total = records.len();
    let mut input = records;
    let mut out: Vec<UiMyShareItem> = Vec::new();
    let mut k: usize = 0;
    proof {
        assert(orig.skip(0) =~= orig);
        assert(orig.take(0) =~= Seq::<MyShareItemRecord>::empty());
    }
    while input.len() > 0
        invariant
            k <= orig.len(),
            orig.len() == total,
            input@ == orig.skip(k as int),
            out@.len() == shown_records(orig.take(k as int)).len(),
            forall|i: int|
                0 <= i < out@.len() ==> share_item_ok(
                    shown_records(orig.take(k as int))[i],
                    pair_views(names@),
                    #[trigger] out@[i],
                ),
        decreases input@.len(),
    {
        let x = input.remove(0);
        proof {
            assert(orig.skip(k as int)[0] == x);
            assert(orig.skip(k as int).remove(0) =~= orig.skip(k + 1));
            let t = orig.take(k + 1);
            assert(t.drop_last() =~= orig.take(k as int));
            assert(t.last() == x);
        }
        let hidden = match &x.device_type {
            Some(t) => is_hidden_device_model(t.as_str()),
            None => {
                proof {
                    reveal_strlit("");
                    assert(""@ =~= Seq::<char>::empty());
                }
                is_hidden_device_model("")
            },
        };
        if !hidden {
            let ghost prev = shown_records(orig.take(k as int));
            let u = map_my_share_record(x, names);
            out.push(u);
            proof {
                assert forall|i: int| 0 <= i < out@.len() implies share_item_ok(
                    shown_records(orig.take(k + 1))[i],
                    pair_views(names@),
                    #[trigger] out@[i],
                ) by {
                    if i < prev.len() {
                        assert(shown_records(orig.take(k + 1))[i] == prev[i]);
                    }
                }
            }
        }
        k = k + 1;
    }
    proof {
        assert(orig.take(k as int) =~= orig);
    }
    out
}

// ----------------------------------------------------------------------------
// Requests of the signed-in user.
/// `a` is the session a request is signed with: the state's, or else the one
/// its settings name.
pub open spec fn auth_of(state: ProviderState, a: AuthContext) -> bool {
    match state.auth {
        Some(s) => a == s,
        None => state.config.openid == Some(a.openid) && state.config.valid_token == Some(a.valid_token)
            && a.nickname == state.config.nickname && a.donation@ == match state.config.donation {
            Some(d) => d@,
            None => "0"@,
        },
    }
}

/// No session: neither a login nor one named by the settings.
pub open spec fn signed_out(state: ProviderState) -> bool {
    state.auth is None && (state.config.openid is None || state.config.valid_token is None)
}

/// A request of the signed-in user: refused with the sign-in message when
/// signed out; else sent to `path` with `form`, signed for the session.
pub open spec fn user_request_ok(
    state: ProviderState,
    id: ClientIdentity,
    now_ms: u64,
    method: HttpMethod,
    path: Seq<char>,
    form: Seq<(Seq<char>, Seq<char>)>,
    r: Result<ApiRequest, String>,
) -> bool {
    match r {
        Ok(req) => {
            &&& !signed_out(state)
            &&& req.method == method
            &&& req.url@ == api_url_of(path)
            &&& pair_views(req.form@) == form
            &&& exists|a: AuthContext|
                #[trigger] auth_of(state, a) && pair_views(req.headers@) == base_headers_spec(
                    state.config,
                    id,
                    config_type(state.config),
                    Some(a),
                    now_ms,
                )
        },
        Err(e) => signed_out(state) && e@ == "请先登录米坛账号"@,
    }
}

fn user_request(
    state: &ProviderState,
    identity: &ClientIdentity,
    now_ms: u64,
    method: HttpMethod,
    path: &str,
    form: Vec<(String, String)>,
) -> (r: Result<ApiRequest, String>)
    ensures
        user_request_ok(*state, *identity, now_ms, method, path@, pair_views(form@), r),
{
    let (config, auth) = match require_auth_context_for_ui(state) {
        Ok(p) => p,
        Err(e) => {
            return Err(e);
        },
    };
    let t = config.device_type();
    let headers = base_headers_for_type(&config, identity, t.as_str(), Some(&auth), now_ms);
    proof {
        assert(auth_of(*state, auth));
    }
    Ok(ApiRequest { method, url: api_url(path), headers, form })
}

fn form_pair(k: &str, v: String) -> (r: (String, String))
    ensures
        r.0@ == k@,
        r.1 == v,
{
    (String::from_str(k), v)
}

/// The request for a page (at least the first) of the
/// user's uploads.
pub fn my_uploads_request(
    state: &ProviderState,
    identity: &ClientIdentity,
    page: usize,
    page_size: usize,
    now_ms: u64,
) -> (r: Result<ApiRequest, String>)
    ensures
        user_request_ok(
            *state,
            *identity,
            now_ms,
            HttpMethod::Get,
            "watchface/my/share/list/"@ + nat_text(if page < 1 { 1 } else { page as nat }) + "/"@ + nat_text(
                page_size as nat,
            ),
            seq![],
            r,
        ),
{
    let p: usize = if page < 1 {
        1
    } else {
        page
    };
    let ps = u64_to_text(p as u64);
    let ss = u64_to_text(page_size as u64);
    let path = join(&["watchface/my/share/list/", ps.as_str(), "/", ss.as_str()]);
    proof {
        reveal_with_fuel(Seq::fold_left, 5);
    }
    let form: Vec<(String, String)> = Vec::new();
    proof {
        assert(pair_views(form@) =~= seq![]);
    }
    user_request(state, identity, now_ms, HttpMethod::Get, path.as_str(), form)
}

/// `toggle_my_upload_share_for_ui`: the share request, which sends the id
/// and the current share flag.
pub fn toggle_my_upload_share_for_ui(
    state: &ProviderState,
    identity: &ClientIdentity,
    id: i64,
    current_is_share: bool,
    now_ms: u64,
) -> (r: Result<ApiRequest, String>)
    ensures
        user_request_ok(
            *state,
            *identity,
            now_ms,
            HttpMethod::Post,
            "watchface/my/share/set"@,
            seq![("id"@, int_text(id as int)), ("isShare"@, if current_is_share { "1"@ } else { "0"@ })],
            r,
        ),
{
    let mut form: Vec<(String, String)> = Vec::new();
    form.push(form_pair("id", i64_to_text(id)));
    form.push(form_pair("isShare", String::from_str(if current_is_share { "1" } else { "0" })));
    proof {
        assert(pair_views(form@) =~= seq![("id"@, int_text(id as int)), ("isShare"@, if current_is_share { "1"@ } else { "0"@ })]);
    }
    user_request(state, identity, now_ms, HttpMethod::Post, "watchface/my/share/set", form)
}

fn id_form(id: i64) -> (r: Vec<(String, String)>)
    ensures
        pair_views(r@) == seq![("id"@, int_text(id as int))],
{
    let mut form: Vec<(String, String)> = Vec::new();
    form.push(form_pair("id", i64_to_text(id)));
    proof {
        assert(pair_views(form@) =~= seq![("id"@, int_text(id as int))]);
    }
    form
}

/// `delete_my_upload_for_ui`: the delete request.
pub fn delete_my_upload_for_ui(state: &ProviderState, identity: &ClientIdentity, id: i64, now_ms: u64) -> (r: Result<ApiRequest, String>)
    ensures
        user_request_ok(
            *state,
            *identity,
            now_ms,
            HttpMethod::Post,
            "watchface/my/share/delete"@,
            seq![("id"@, int_text(id as int))],
            r,
        ),
{
    user_request(state, identity, now_ms, HttpMethod::Post, "watchface/my/share/delete", id_form(id))
}

/// `top_my_upload_for_ui`: the pin request.
pub fn top_my_upload_for_ui(state: &ProviderState, identity: &ClientIdentity, id: i64, now_ms: u64) -> (r: Result<ApiRequest, String>)
    ensures
        user_request_ok(
            *state,
            *identity,
            now_ms,
            HttpMethod::Post,
            "watchface/my/share/top"@,
            seq![("id"@, int_text(id as int))],
            r,
        ),
{
    user_request(state, identity, now_ms, HttpMethod::Post, "watchface/my/share/top", id_form(id))
}

/// `query_my_upload_reason_for_ui`: the request for the review's reasons.
pub fn query_my_upload_reason_for_ui(state: &ProviderState, identity: &ClientIdentity, id: i64, now_ms: u64) -> (r: Result<ApiRequest, String>)
    ensures
        user_request_ok(
            *state,
            *identity,
            now_ms,
            HttpMethod::Get,
            "watchface/work/queryreason/"@ + int_text(id as int),
            seq![],
            r,
        ),
{
    let t = i64_to_text(id);
    let path = concat_str("watchface/work/queryreason/", t.as_str());
    let form: Vec<(String, String)> = Vec::new();
    proof {
        assert(pair_views(form@) =~= seq![]);
    }
    user_request(state, identity, now_ms, HttpMethod::Get, path.as_str(), form)
}

/// The reason of a refused upload: the trimmed `tag` of the first reason
/// listed, when it is not blank.
pub open spec fn upload_reason(v: JsonValue) -> Option<Seq<char>> {
    match v {
        JsonValue::Array(items) => if items@.len() > 0 {
            match json_get_str(items@[0], "tag"@) {
                Some(t) => nonblank(Some(t)),
                None => None,
            }
        } else {
            None
        },
        _ => None,
    }
}

pub fn read_upload_reason(v: &JsonValue) -> (r: Option<String>)
    ensures
        ov(r) == upload_reason(*v),
{
    match v {
        JsonValue::Array(items) => {
            if items.len() == 0 {
                return None;
            }
            let tag = match items[0].get("tag") {
                Some(t) => t.as_str(),
                None => None,
            };
            crate::config::nonblank_text(tag)
        },
        _ => None,
    }
}

/// The upload notes read from a reply: the message, else the reply's own
/// text, each trimmed and not blank; `None` when the reply is to be shown
/// as pretty-printed JSON.
pub open spec fn upload_tips(v: JsonValue) -> Option<Seq<char>> {
    let from_msg = match json_get_str(v, "msg"@) {
        Some(m) => nonblank(Some(m)),
        None => None,
    };
    match from_msg {
        Some(m) => Some(m),
        None => match json_as_str(v) {
            Some(t) => nonblank(Some(t)),
            None => None,
        },
    }
}

pub fn read_upload_tips(v: &JsonValue) -> (r: Option<String>)
    ensures
        ov(r) == upload_tips(*v),
{
    let msg = match v.get("msg") {
        Some(m) => m.as_str(),
        None => None,
    };
    match crate::config::nonblank_text(msg) {
        Some(m) => Some(m),
        None => crate::config::nonblank_text(v.as_str()),
    }
}

// ----------------------------------------------------------------------------
// Uploading a face.
/// A file part of a multipart form.
pub struct UploadFile {
    pub field: String,
    pub file_name: String,
    pub mime: String,
    pub data: Vec<u8>,
}

/// A multipart request for the app to send.
pub struct MultipartRequest {
    pub url: String,
    pub headers: Vec<(String, String)>,
    pub fields: Vec<(String, String)>,
    pub file: UploadFile,
}

/// What an accepted upload is made with: the session and the model.
pub struct UploadPlan {
    pub config: ProviderConfig,
    pub auth: AuthContext,
    pub device_type: String,
}

/// `submit_upload_for_ui` up to its requests: a face file is required, then
/// a session; the model is the requested one resolved against the device
/// list.
pub fn submit_upload_for_ui(
    state: &ProviderState,
    request: &UiUploadRequest,
    devices: &[DeviceInfo],
) -> (r: Result<UploadPlan, String>)
    ensures
        match r {
            Ok(p) => {
                &&& request.watchface_file is Some
                &&& !signed_out(*state)
                &&& p.config == state.config
                &&& auth_of(*state, p.auth)
                &&& p.device_type@ == ui_device_type(Some(request.device_type@), dvs(devices@))
            },
            Err(e) => if request.watchface_file is None {
                e@ == "请选择要上传的资源文件"@
            } else {
                signed_out(*state) && e@ == "请先登录米坛账号"@
            },
        },
{
    if request.watchface_file.is_none() {
        return Err(String::from_str("请选择要上传的资源文件"));
    }
    let (config, auth) = match require_auth_context_for_ui(state) {
        Ok(p) => p,
        Err(e) => {
            return Err(e);
        },
    };
    let device_type = normalize_ui_device_type(Some(request.device_type.as_str()), devices);
    Ok(UploadPlan { config, auth, device_type })
}

fn copy_bytes(v: &Vec<u8>) -> (r: Vec<u8>)
    ensures
        r@ == v@,
{
    let mut out: Vec<u8> = Vec::new();
    let mut i: usize = 0;
    while i < v.len()
        invariant
            i <= v@.len(),
            out@ == v@.subrange(0, i as int),
        decreases v@.len() - i,
    {
        out.push(v[i]);
        proof {
            assert(out@ =~= v@.subrange(0, i + 1));
        }
        i = i + 1;
    }
    proof {
        assert(v@.subrange(0, v@.len() as int) =~= v@);
    }
    out
}

/// The request uploading a preview image: the image, typed by its file
/// name, for the model.
pub fn preview_upload_request(device_type: &str, asset: &UiBinaryAsset) -> (r: MultipartRequest)
    ensures
        r.url@ == api_url_of("watchface/uploadPreviewImgMi7"@),
        pair_views(r.headers@) == seq![("Accept"@, "application/json"@), ("type"@, device_type@)],
        r.fields@.len() == 0,
        r.file.field@ == "file"@,
        r.file.file_name == asset.name,
        r.file.mime@ == image_mime(asset.name@),
        r.file.data@ == asset.data@,
{
    let mut headers: Vec<(String, String)> = Vec::new();
    headers.push(form_pair("Accept", String::from_str("application/json")));
    headers.push(form_pair("type", String::from_str(device_type)));
    proof {
        assert(pair_views(headers@) =~= seq![("Accept"@, "application/json"@), ("type"@, device_type@)]);
    }
    MultipartRequest {
        url: api_url("watchface/uploadPreviewImgMi7"),
        headers,
        fields: Vec::new(),
        file: UploadFile {
            field: String::from_str("file"),
            file_name: asset.name.clone(),
            mime: String::from_str(guess_image_mime(asset.name.as_str())),
            data: copy_bytes(&asset.data),
        },
    }
}

/// The preview's token in the upload reply: its trimmed text, which must not be blank.
pub fn read_preview_token(v: &JsonValue) -> (r: Result<String, String>)
    ensures
        match r {
            Ok(t) => match json_as_str(*v) {
                Some(s) => nonblank(Some(s)) == Some(t@),
                None => false,
            },
            Err(e) => (match json_as_str(*v) {
                Some(s) => nonblank(Some(s)) is None,
                None => true,
            }) && e@ == "上传预览图成功，但服务端没有返回预览标识"@,
        },
{
    match crate::config::nonblank_text(v.as_str()) {
        Some(t) => Ok(t),
        None => Err(String::from_str("上传预览图成功，但服务端没有返回预览标识")),
    }
}

/// `build_upload_headers`: the session's headers for the model, then
/// `Accept` and the token.
pub open spec fn upload_headers_spec(
    config: ProviderConfig,
    id: ClientIdentity,
    auth: AuthContext,
    device_type: Seq<char>,
    now_ms: u64,
) -> Seq<(Seq<char>, Seq<char>)> {
    base_headers_spec(config, id, device_type, Some(auth), now_ms) + seq![
        ("Accept"@, "application/json"@),
        ("token"@, auth.valid_token@),
    ]
}

pub fn build_upload_headers(
    config: &ProviderConfig,
    identity: &ClientIdentity,
    auth: &AuthContext,
    device_type: &str,
    now_ms: u64,
) -> (r: Vec<(String, String)>)
    ensures
        pair_views(r@) == upload_headers_spec(*config, *identity, *auth, device_type@, now_ms),
{
    let mut headers = base_headers_for_type(config, identity, device_type, Some(auth), now_ms);
    let ghost base = pair_views(headers@);
    headers.push(form_pair("Accept", String::from_str("application/json")));
    headers.push(form_pair("token", auth.valid_token.clone()));
    proof {
        assert(pair_views(headers@) =~= base + seq![("Accept"@, "application/json"@), ("token"@, auth.valid_token@)]);
    }
    headers
}

pub open spec fn token_or_empty(o: Option<String>) -> Seq<char> {
    match o {
        Some(t) => t@,
        None => Seq::<char>::empty(),
    }
}

/// The fields of the face upload: the trimmed name and description, the
/// model, the static-image flag, the four preview tokens (empty when none),
/// and the trimmed forum id and type and id of the face it updates.
pub open spec fn upload_fields_spec(
    request: UiUploadRequest,
    device_type: Seq<char>,
    tokens: Seq<Option<String>>,
) -> Seq<(Seq<char>, Seq<char>)> {
    seq![
        ("name"@, trim(request.name@)),
        ("desc"@, trim(request.description@)),
        ("type"@, device_type),
        ("staticPng"@, if request.static_png { "true"@ } else { "false"@ }),
        ("previewImg"@, token_or_empty(tokens[0])),
        ("previewImgAod"@, token_or_empty(tokens[1])),
        ("previewImgAod2"@, token_or_empty(tokens[2])),
        ("previewImgAod3"@, token_or_empty(tokens[3])),
        ("mitantid"@, trim(token_or_empty(request.mitantid))),
        ("mitantype"@, trim(request.mitantype@)),
        ("updateId"@, trim(token_or_empty(request.update_id))),
    ]
}

fn text_or_empty(o: &Option<String>) -> (r: String)
    ensures
        r@ == token_or_empty(*o),
{
    match o {
        Some(t) => t.clone(),
        None => {
            proof {
                reveal_strlit("");
                assert(""@ =~= Seq::<char>::empty());
            }
            String::from_str("")
        },
    }
}

fn trimmed(s: &str) -> (r: String)
    ensures
        r@ == trim(s@),
{
    string_from_chars(trim_chars(s).as_slice())
}

/// The face upload itself (`submit_upload_for_ui`'s last request), given the
/// plan and the tokens of the previews uploaded before it (main, then the
/// three always-on-display ones).
pub fn watchface_upload_request(
    plan: &UploadPlan,
    identity: &ClientIdentity,
    request: &UiUploadRequest,
    tokens: &[Option<String>],
    now_ms: u64,
) -> (r: MultipartRequest)
    requires
        request.watchface_file is Some,
        tokens@.len() == 4,
    ensures
        r.url@ == api_url_of("watchface/uploadBinSelfMi7"@),
        pair_views(r.headers@) == upload_headers_spec(plan.config, *identity, plan.auth, plan.device_type@, now_ms),
        pair_views(r.fields@) == upload_fields_spec(*request, plan.device_type@, tokens@),
        r.file.field@ == "file"@,
        r.file.file_name == request.watchface_file->0.name,
        r.file.mime@ == "application/octet-stream"@,
        r.file.data@ == request.watchface_file->0.data@,
{
    let mut fields: Vec<(String, String)> = Vec::new();
    fields.push(form_pair("name", trimmed(request.name.as_str())));
    fields.push(form_pair("desc", trimmed(request.description.as_str())));
    fields.push(form_pair("type", plan.device_type.clone()));
    fields.push(form_pair("staticPng", String::from_str(if request.static_png { "true" } else { "false" })));
    fields.push(form_pair("previewImg", text_or_empty(&tokens[0])));
    fields.push(form_pair("previewImgAod", text_or_empty(&tokens[1])));
    fields.push(form_pair("previewImgAod2", text_or_empty(&tokens[2])));
    fields.push(form_pair("previewImgAod3", text_or_empty(&tokens[3])));
    let mid = text_or_empty(&request.mitantid);
    fields.push(form_pair("mitantid", trimmed(mid.as_str())));
    fields.push(form_pair("mitantype", trimmed(request.mitantype.as_str())));
    let upd = text_or_empty(&request.update_id);
    fields.push(form_pair("updateId", trimmed(upd.as_str())));
    proof {
        assert(pair_views(fields@) =~= upload_fields_spec(*request, plan.device_type@, tokens@));
    }
    let file = match &request.watchface_file {
        Some(f) => UploadFile {
            field: String::from_str("file"),
            file_name: f.name.clone(),
            mime: String::from_str("application/octet-stream"),
            data: copy_bytes(&f.data),
        },
        None => {
            proof {
                assert(false);
            }
            UploadFile { field: String::new(), file_name: String::new(), mime: String::new(), data: Vec::new() }
        },
    };
    MultipartRequest {
        url: api_url("watchface/uploadBinSelfMi7"),
        headers: build_upload_headers(&plan.config, identity, &plan.auth, plan.device_type.as_str(), now_ms),
        fields,
        file,
    }
}

} // verus!
