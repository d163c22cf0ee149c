//! The community catalog's requests and the readings of their replies, and
//! how an index request is resolved into what to fetch.
use vstd::prelude::*;
use crate::text::{trim, trim_chars, string_from_chars, concat_str};
use crate::numbers::{int_text, nat_text, parse_u64, i64_to_text, u64_to_text};
use crate::json::{JsonValue, json_as_str, json_as_u64, json_get};
use crate::config::{ProviderConfig, ClientIdentity, AuthContext, ov, nonblank, nonblank_text, pair_views};
use crate::api::{
    ApiRequest, HttpMethod, api_url_of, api_json_url_of, base_headers_spec,
    base_headers_for_type, api_url, api_json_url,
};
use crate::devices::{
    DeviceInfo, dvs, first_category_model, requested_device_type, first_category_device,
    resolve_requested_device_type,
};
use crate::catalog::{ListMode, list_mode_of, opt_text, resolve_list_mode};
use crate::listing::{watchface_page_path, build_watchface_page_path};

verus! {

/// The device type of the configuration, `mi7` when unset.
pub open spec fn config_type(c: ProviderConfig) -> Seq<char> {
    match c.device_type {
        Some(d) => d@,
        None => "mi7"@,
    }
}

fn form_pair(k: &str, v: String) -> (r: (String, String))
    ensures
        r.0@ == k@,
        r.1 == v,
{
    (String::from_str(k), v)
}

/// The request for a listing page.
pub fn watchface_page_request(
    config: &ProviderConfig,
    identity: &ClientIdentity,
    mode: ListMode,
    tag_id: i64,
    page: usize,
    limit: usize,
    device_type: &str,
) -> (r: ApiRequest)
    ensures
        r.method == HttpMethod::Get,
        r.url@ == api_url_of(watchface_page_path(mode, page as nat, limit as nat, tag_id)),
        pair_views(r.headers@) == base_headers_spec(*config, *identity, device_type@, None, 0),
        r.form@.len() == 0,
{
    let path = build_watchface_page_path(mode, page, limit, tag_id);
    ApiRequest {
        method: HttpMethod::Get,
        url: api_url(path.as_str()),
        headers: base_headers_for_type(config, identity, device_type, None, 0),
        form: Vec::new(),
    }
}

/// The request for a page of search results: the keyword and the server page.
pub fn search_page_request(
    config: &ProviderConfig,
    identity: &ClientIdentity,
    keyword: &str,
    server_page: usize,
    device_type: &str,
) -> (r: ApiRequest)
    ensures
        r.method == HttpMethod::Post,
        r.url@ == api_url_of("watchface/searchForPage"@),
        pair_views(r.headers@) == base_headers_spec(*config, *identity, device_type@, None, 0),
        pair_views(r.form@) == seq![("keyword"@, keyword@), ("page"@, nat_text(server_page as nat))],
{
    let mut form: Vec<(String, String)> = Vec::new();
    form.push(form_pair("keyword", String::from_str(keyword)));
    form.push(form_pair("page", u64_to_text(server_page as u64)));
    proof {
        assert(pair_views(form@) =~= seq![("keyword"@, keyword@), ("page"@, nat_text(server_page as nat))]);
    }
    ApiRequest {
        method: HttpMethod::Post,
        url: api_url("watchface/searchForPage"),
        headers: base_headers_for_type(config, identity, device_type, None, 0),
        form,
    }
}

/// The request for a face's detail.
pub fn detail_request(config: &ProviderConfig, identity: &ClientIdentity, item_id: &str) -> (r: ApiRequest)
    ensures
        r.method == HttpMethod::Post,
        r.url@ == api_url_of("watchface/get/by/id"@),
        pair_views(r.headers@) == base_headers_spec(*config, *identity, config_type(*config), None, 0),
        pair_views(r.form@) == seq![("id"@, item_id@)],
{
    let mut form: Vec<(String, String)> = Vec::new();
    form.push(form_pair("id", String::from_str(item_id)));
    proof {
        assert(pair_views(form@) =~= seq![("id"@, item_id@)]);
    }
    let t = config.device_type();
    ApiRequest {
        method: HttpMethod::Post,
        url: api_url("watchface/get/by/id"),
        headers: base_headers_for_type(config, identity, t.as_str(), None, 0),
        form,
    }
}

/// The request for a face's always-on-display preview.
pub fn aod_preview_request(config: &ProviderConfig, identity: &ClientIdentity, item_id: i64) -> (r: ApiRequest)
    ensures
        r.method == HttpMethod::Get,
        r.url@ == api_url_of("watchface/work/getAodImgPath/"@ + int_text(item_id as int)),
        pair_views(r.headers@) == base_headers_spec(*config, *identity, config_type(*config), None, 0),
        r.form@.len() == 0,
{
    let id = i64_to_text(item_id);
    let path = concat_str("watchface/work/getAodImgPath/", id.as_str());
    let t = config.device_type();
    ApiRequest {
        method: HttpMethod::Get,
        url: api_url(path.as_str()),
        headers: base_headers_for_type(config, identity, t.as_str(), None, 0),
        form: Vec::new(),
    }
}

/// The request for the community configuration of a model.
pub fn community_config_request(config: &ProviderConfig, identity: &ClientIdentity, device_type: &str) -> (r: ApiRequest)
    ensures
        r.method == HttpMethod::Get,
        r.url@ == api_json_url_of("config/json/configs_"@ + device_type@),
        pair_views(r.headers@) == base_headers_spec(*config, *identity, device_type@, None, 0),
        r.form@.len() == 0,
{
    let path = concat_str("config/json/configs_", device_type);
    ApiRequest {
        method: HttpMethod::Get,
        url: api_json_url(path.as_str()),
        headers: base_headers_for_type(config, identity, device_type, None, 0),
        form: Vec::new(),
    }
}

/// The request for the number of faces.
pub fn total_request(config: &ProviderConfig, identity: &ClientIdentity) -> (r: ApiRequest)
    ensures
        r.method == HttpMethod::Post,
        r.url@ == api_url_of("watchface/total/genrated"@),
        pair_views(r.headers@) == base_headers_spec(*config, *identity, config_type(*config), None, 0),
        r.form@.len() == 0,
{
    let t = config.device_type();
    ApiRequest {
        method: HttpMethod::Post,
        url: api_url("watchface/total/genrated"),
        headers: base_headers_for_type(config, identity, t.as_str(), None, 0),
        form: Vec::new(),
    }
}

/// The request for the community's upload notes.
pub fn upload_tips_request(config: &ProviderConfig, identity: &ClientIdentity) -> (r: ApiRequest)
    ensures
        r.method == HttpMethod::Get,
        r.url@ == api_json_url_of("config/json/uploadtips"@),
        pair_views(r.headers@) == base_headers_spec(*config, *identity, config_type(*config), None, 0),
        r.form@.len() == 0,
{
    let t = config.device_type();
    ApiRequest {
        method: HttpMethod::Get,
        url: api_json_url("config/json/uploadtips"),
        headers: base_headers_for_type(config, identity, t.as_str(), None, 0),
        form: Vec::new(),
    }
}

/// Downloads go through the donor endpoint when the configuration says so,
/// or, when it says nothing, for a donor session.
pub open spec fn donor_download(config: ProviderConfig, auth: Option<AuthContext>) -> bool {
    match config.use_donor_download {
        Some(b) => b,
        None => match auth {
            Some(a) => a.donation@ == "1"@,
            None => false,
        },
    }
}

pub open spec fn download_endpoint(config: ProviderConfig, auth: Option<AuthContext>) -> Seq<char> {
    if donor_download(config, auth) {
        "watchface/downloadUsr"@
    } else {
        "watchface/downloadCom"@
    }
}

/// The request for a face's download address, signed
/// for the session when there is one, at `now_ms`.
pub fn download_url_request(
    config: &ProviderConfig,
    identity: &ClientIdentity,
    auth: Option<&AuthContext>,
    item_id: i64,
    now_ms: u64,
) -> (r: ApiRequest)
    ensures
        r.method == HttpMethod::Post,
        r.url@ == api_url_of(download_endpoint(*config, match auth { Some(a) => Some(*a), None => None })),
        pair_views(r.headers@) == base_headers_spec(
            *config,
            *identity,
            config_type(*config),
            match auth { Some(a) => Some(*a), None => None },
            now_ms,
        ),
        pair_views(r.form@) == seq![("id"@, int_text(item_id as int))],
{
    let donor = match config.use_donor_download {
        Some(b) => b,
        None => match auth {
            Some(a) => crate::text::str_eq(a.donation.as_str(), "1"),
            None => false,
        },
    };
    let endpoint = if donor {
        "watchface/downloadUsr"
    } else {
        "watchface/downloadCom"
    };
    let mut form: Vec<(String, String)> = Vec::new();
    form.push(form_pair("id", i64_to_text(item_id)));
    proof {
        assert(pair_views(form@) =~= seq![("id"@, int_text(item_id as int))]);
    }
    let t = config.device_type();
    ApiRequest {
        method: HttpMethod::Post,
        url: api_url(endpoint),
        headers: base_headers_for_type(config, identity, t.as_str(), auth, now_ms),
        form,
    }
}

// ----------------------------------------------------------------------------
// Readings of replies.
/// The always-on-display preview read from a reply: the trimmed text, when the reply is a
/// non-blank string.
pub fn read_aod_preview(v: &JsonValue) -> (r: Option<String>)
    ensures
        ov(r) == match json_as_str(*v) {
            Some(s) => nonblank(Some(s)),
            None => None,
        },
{
    nonblank_text(v.as_str())
}

/// A reply's `u64`: a string that parses as `u64`, or a number that is one.
pub open spec fn value_u64(v: JsonValue) -> Option<u64> {
    match v {
        JsonValue::Str(s) => parse_u64(s@),
        JsonValue::Number(_) => json_as_u64(v),
        _ => None,
    }
}

/// The number of faces read from the reply; `None` is an unexpected payload,
/// which the caller reports as an error.
pub fn read_total(v: &JsonValue) -> (r: Option<u64>)
    ensures
        r == value_u64(*v),
{
    match v {
        JsonValue::Str(s) => crate::numbers::parse_u64_str(s.as_str()),
        JsonValue::Number(_) => v.as_u64(),
        _ => None,
    }
}

/// The download endpoint's reply must be the file's address.
pub fn read_download_url(v: &JsonValue) -> (r: Result<String, String>)
    ensures
        match r {
            Ok(u) => json_as_str(*v) == Some(u@),
            Err(e) => json_as_str(*v) is None && e@ == "download endpoint did not return a string"@,
        },
{
    match v.as_str() {
        Some(u) => Ok(String::from_str(u)),
        None => Err(String::from_str("download endpoint did not return a string")),
    }
}

// ----------------------------------------------------------------------------
// Index requests.
/// What the host asks of the index: a page, its size, a search text, an
/// order and categories.
pub struct IndexQuery {
    pub page: usize,
    pub limit: usize,
    pub filter: Option<String>,
    pub sort: Option<String>,
    pub category: Option<Vec<String>>,
}

pub open spec fn query_categories(q: IndexQuery) -> Seq<Seq<char>> {
    match q.category {
        Some(c) => c@.map_values(|s: String| s@),
        None => seq![],
    }
}

/// The model an index request is for: the model the categories name (then
/// the index lists that model alone), or else the configured one resolved
/// against the device list.
pub struct IndexTarget {
    pub selected: Option<String>,
    pub device_type: String,
}

pub fn resolve_index_target(q: &IndexQuery, config: &ProviderConfig, devices: &[DeviceInfo]) -> (r: IndexTarget)
    ensures
        ov(r.selected) == first_category_model(query_categories(*q), dvs(devices@)),
        r.device_type@ == match first_category_model(query_categories(*q), dvs(devices@)) {
            Some(m) => m,
            None => requested_device_type(config_type(*config), query_categories(*q), dvs(devices@)),
        },
{
    let empty: Vec<String> = Vec::new();
    let cats: &Vec<String> = match &q.category {
        Some(c) => c,
        None => &empty,
    };
    proof {
        assert(cats@.map_values(|s: String| s@) =~= query_categories(*q));
    }
    let selected = first_category_device(cats.as_slice(), devices);
    let device_type = match &selected {
        Some(m) => m.clone(),
        None => {
            let t = config.device_type();
            resolve_requested_device_type(t.as_str(), cats.as_slice(), devices)
        },
    };
    IndexTarget { selected, device_type }
}

/// What an index page is fetched as.
pub enum IndexFetch {
    /// A keyword search on the model's listings.
    Search { keyword: String, page: usize, limit: usize },
    /// A page of the model's listing (pages counted from 1).
    Page { mode: ListMode, tag_id: i64, page: usize, limit: usize },
    /// The merged listing of all supported models.
    Merged { mode: ListMode, tag_id: i64, filter: Option<String>, page: usize, limit: usize },
}

pub open spec fn index_limit(limit: usize) -> usize {
    if limit < 1 {
        1
    } else {
        limit
    }
}

/// What an index page fetches: with a model named, its search when a search text
/// is given, else its listing page (the host counts pages from 0, the server
/// from 1); without one, the merged listing. The page size is at least 1.
pub open spec fn index_fetch_ok(q: IndexQuery, selected: bool, tag_id: i64, r: IndexFetch) -> bool {
    let filter = nonblank(ov(q.filter));
    let mode = list_mode_of(ov(q.sort));
    let limit = index_limit(q.limit);
    if selected {
        match filter {
            Some(k) => r matches IndexFetch::Search { keyword, page, limit: l } && keyword@ == k
                && page == q.page && l == limit,
            None => r matches IndexFetch::Page { mode: m, tag_id: t, page, limit: l } && m == mode
                && t == tag_id && page == q.page + 1 && l == limit,
        }
    } else {
        r matches IndexFetch::Merged { mode: m, tag_id: t, filter: f, page, limit: l } && m == mode
            && t == tag_id && ov(f) == filter && page == q.page && l == limit
    }
}

fn opt_as_str(o: &Option<String>) -> (r: Option<&str>)
    ensures
        opt_text(r) == ov(*o),
{
    match o {
        Some(s) => Some(s.as_str()),
        None => None,
    }
}

/// 1 is added to the page of a model's listing unchecked, so the
/// last `usize` page is left out there.
pub fn plan_index_fetch(q: &IndexQuery, selected: bool, tag_id: i64) -> (r: IndexFetch)
    requires
        selected && nonblank(ov(q.filter)) is None ==> q.page < usize::MAX,
    ensures
        index_fetch_ok(*q, selected, tag_id, r),
{
    let limit = if q.limit < 1 {
        1
    } else {
        q.limit
    };
    let filter = nonblank_text(opt_as_str(&q.filter));
    let mode = resolve_list_mode(opt_as_str(&q.sort));
    if selected {
        match filter {
            Some(k) => IndexFetch::Search { keyword: k, page: q.page, limit },
            None => IndexFetch::Page { mode, tag_id, page: q.page + 1, limit },
        }
    } else {
        IndexFetch::Merged { mode, tag_id, filter, page: q.page, limit }
    }
}

} // verus!
