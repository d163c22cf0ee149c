//! The documents the QingWear provider answers with: index entries and
//! manifests built from gateway records, where an app's files are, and the
//! name a downloaded file gets.
use vstd::prelude::*;
use crate::text::{trim, starts_with, is_ascii_alnum, eq_ignore_case, trim_chars, chars_of, string_from_chars, str_starts_with, concat_str, str_eq, str_eq_ignore_case};
use crate::json::{JsonValue, Jv, jv, jv_items, jv_entries, jnum, jopt_text, json_get, json_as_str, json_as_bool,
    put, push_item, j_str, j_u64, j_opt_str, j_object, j_array};
use crate::config::{ov, nonblank};
use crate::manifest::{empty_text, lemma_empty_literal};
use crate::qw_records::{QwConfig, qw_device_of, key_seq, record_text, record_string, record_number, record_u64,
    record_id_of, record_id, qw_paid_type, resolve_paid_type, is_paid, is_paid_resource};
use crate::qw_catalog::{unpaid, record_with_id};
use crate::faces::{after_last, before_first, after_last_char, before_first_char, sanitized, sanitize_ascii};
use crate::codec::{base64_standard, base64_encode};

verus! {

pub open spec fn qw_provider_name() -> Seq<char> {
    "轻腕社区"@
}

pub open spec fn image_base() -> Seq<char> {
    "https://voss.omoi.online/"@
}

pub open spec fn or_empty(o: Option<Seq<char>>) -> Seq<char> {
    match o {
        Some(t) => t,
        None => empty_text(),
    }
}

pub open spec fn is_http(t: Seq<char>) -> bool {
    starts_with(t, "http://"@) || starts_with(t, "https://"@)
}

/// The text without its leading `/` characters (`trim_start_matches('/')`).
pub open spec fn without_leading_slashes(t: Seq<char>) -> Seq<char>
    decreases t.len(),
{
    if t.len() > 0 && t[0] == '/' {
        without_leading_slashes(t.drop_first())
    } else {
        t
    }
}

/// `normalize_image_url`: a trimmed address; an absolute one as it is,
/// another one under the image host.
pub open spec fn image_url(v: Seq<char>) -> Seq<char> {
    let t = trim(v);
    if t.len() == 0 {
        empty_text()
    } else if is_http(t) {
        t
    } else {
        image_base() + without_leading_slashes(t)
    }
}

pub fn normalize_image_url(value: &str) -> (r: String)
    ensures
        r@ == image_url(value@),
{
    proof {
        lemma_empty_literal();
    }
    let t = trim_chars(value);
    if t.len() == 0 {
        return String::from_str("");
    }
    let text = string_from_chars(t.as_slice());
    if str_starts_with(text.as_str(), "http://") || str_starts_with(text.as_str(), "https://") {
        return text;
    }
    let mut k: usize = 0;
    proof {
        assert(t@.skip(0) =~= t@);
    }
    while k < t.len() && t[k] == '/'
        invariant
            k <= t@.len(),
            without_leading_slashes(t@) == without_leading_slashes(t@.skip(k as int)),
        decreases t@.len() - k,
    {
        proof {
            let rest = t@.skip(k as int);
            assert(rest[0] == t@[k as int]);
            assert(rest.drop_first() =~= t@.skip(k + 1));
        }
        k = k + 1;
    }
    proof {
        let rest = t@.skip(k as int);
        if k < t@.len() {
            assert(rest[0] == t@[k as int]);
        }
    }
    let tail = crate::text::slice_range(t.as_slice(), k, t.len());
    proof {
        assert(tail@ =~= t@.skip(k as int));
    }
    let tail_text = string_from_chars(tail.as_slice());
    concat_str("https://voss.omoi.online/", tail_text.as_str())
}

// ----------------------------------------------------------------------------
// Previews.
/// An address is added when it is not empty and not listed yet.
pub open spec fn add_url(list: Seq<Seq<char>>, o: Option<Seq<char>>) -> Seq<Seq<char>> {
    match o {
        Some(v) => if image_url(v).len() > 0 && !list.contains(image_url(v)) {
            list.push(image_url(v))
        } else {
            list
        },
        None => list,
    }
}

pub open spec fn add_urls(list: Seq<Seq<char>>, items: Seq<JsonValue>) -> Seq<Seq<char>>
    decreases items.len(),
{
    if items.len() == 0 {
        list
    } else {
        add_url(add_urls(list, items.drop_last()), json_as_str(items.last()))
    }
}

/// The strings of an array member are added in turn.
pub open spec fn add_array(list: Seq<Seq<char>>, o: Option<JsonValue>) -> Seq<Seq<char>> {
    match o {
        Some(JsonValue::Array(items)) => add_urls(list, items@),
        _ => list,
    }
}

pub open spec fn cover_keys() -> Seq<Seq<char>> {
    seq!["coverImage"@, "cover"@, "previewImage"@, "preview"@]
}

pub open spec fn poster_keys() -> Seq<Seq<char>> {
    seq!["posterImage"@, "poster"@]
}

/// `preview_urls`: the cover, the poster, then the strings of `images`,
/// `previews`, `previewImages` and `screenshots`, as image addresses, each
/// once and none empty.
pub open spec fn previews_of(record: JsonValue) -> Seq<Seq<char>> {
    let l1 = add_url(seq![], record_text(record, cover_keys()));
    let l2 = add_url(l1, record_text(record, poster_keys()));
    let l3 = add_array(l2, json_get(record, "images"@));
    let l4 = add_array(l3, json_get(record, "previews"@));
    let l5 = add_array(l4, json_get(record, "previewImages"@));
    add_array(l5, json_get(record, "screenshots"@))
}

pub open spec fn svs(s: Seq<String>) -> Seq<Seq<char>> {
    s.map_values(|x: String| x@)
}

fn push_url(urls: &mut Vec<String>, value: Option<&str>)
    ensures
        svs(final(urls)@) == add_url(svs(old(urls)@), match value { Some(v) => Some(v@), None => None }),
{
    let v = match value {
        Some(v) => v,
        None => {
            return;
        },
    };
    let u = normalize_image_url(v);
    if u.as_str().is_empty() {
        return;
    }
    let ghost acc = svs(urls@);
    let uc = chars_of(u.as_str());
    let mut j: usize = 0;
    while j < urls.len()
        invariant
            j <= urls@.len(),
            acc == svs(urls@),
            acc == svs(old(urls)@),
            uc@ == u@,
            u@ == image_url(v@),
            u@.len() > 0,
            value == Some(v),
            forall|k: int| 0 <= k < j ==> acc[k] != u@,
        decreases urls@.len() - j,
    {
        let c = chars_of(urls[j].as_str());
        if crate::text::chars_eq(c.as_slice(), uc.as_slice()) {
            proof {
                assert(acc[j as int] == u@);
                assert(acc.contains(u@));
            }
            return;
        }
        j = j + 1;
    }
    urls.push(u);
    proof {
        assert(svs(urls@) =~= acc.push(image_url(v@)));
    }
}

fn push_array_urls(urls: &mut Vec<String>, member: Option<&JsonValue>)
    ensures
        svs(final(urls)@) == add_array(svs(old(urls)@), match member { Some(m) => Some(*m), None => None }),
{
    match member {
        Some(JsonValue::Array(items)) => {
            let ghost start = svs(urls@);
            let mut i: usize = 0;
            while i < items.len()
                invariant
                    i <= items@.len(),
                    svs(urls@) == add_urls(start, items@.take(i as int)),
                decreases items@.len() - i,
            {
                proof {
                    assert(items@.take(i + 1).drop_last() =~= items@.take(i as int));
                    assert(items@.take(i + 1).last() == items@[i as int]);
                }
                push_url(urls, items[i].as_str());
                i = i + 1;
            }
            proof {
                assert(items@.take(i as int) =~= items@);
            }
        },
        _ => {},
    }
}

pub fn preview_urls(record: &JsonValue) -> (r: Vec<String>)
    ensures
        svs(r@) == previews_of(*record),
{
    let ck: &[&str] = &["coverImage", "cover", "previewImage", "preview"];
    let pk: &[&str] = &["posterImage", "poster"];
    proof {
        assert(key_seq(ck@) =~= cover_keys());
        assert(key_seq(pk@) =~= poster_keys());
    }
    let mut urls: Vec<String> = Vec::new();
    proof {
        assert(svs(urls@) =~= Seq::<Seq<char>>::empty());
    }
    let cover = record_string(record, ck);
    push_url(&mut urls, match &cover { Some(c) => Some(c.as_str()), None => None });
    let poster = record_string(record, pk);
    push_url(&mut urls, match &poster { Some(c) => Some(c.as_str()), None => None });
    push_array_urls(&mut urls, record.get("images"));
    push_array_urls(&mut urls, record.get("previews"));
    push_array_urls(&mut urls, record.get("previewImages"));
    push_array_urls(&mut urls, record.get("screenshots"));
    urls
}


// ----------------------------------------------------------------------------
// Index entries.
pub open spec fn name_keys() -> Seq<Seq<char>> {
    seq!["name"@, "title"@, "appName"@]
}

pub open spec fn description_keys() -> Seq<Seq<char>> {
    seq!["description"@, "desc"@, "summary"@, "intro"@]
}

pub open spec fn author_name(record: JsonValue) -> Option<Seq<char>> {
    match record_text(record, seq!["authorName"@, "nickname"@, "username"@]) {
        Some(n) => Some(n),
        None => match (match json_get(record, "developer"@) {
            Some(d) => record_text(d, seq!["username"@, "nickname"@, "name"@]),
            None => None,
        }) {
            Some(n) => Some(n),
            None => match json_get(record, "author"@) {
                Some(a) => record_text(a, seq!["nickname"@, "username"@, "name"@]),
                None => None,
            },
        },
    }
}

pub open spec fn author_avatar(record: JsonValue) -> Option<Seq<char>> {
    match json_get(record, "developer"@) {
        Some(d) => record_text(d, seq!["avatar"@]),
        None => None,
    }
}

/// `build_authors`: one author (the name from the record, its developer or
/// its author; the developer's avatar), when there is a name.
pub open spec fn qw_authors_doc(record: JsonValue) -> Jv {
    match author_name(record) {
        Some(n) => if trim(n).len() > 0 {
            Jv::Arr(
                seq![
                    Jv::Obj(
                        seq![
                            ("name"@, Jv::Str(trim(n))),
                            ("avatar"@, jopt_text(author_avatar(record))),
                            ("bindABAccount"@, Jv::Bool(false)),
                        ],
                    ),
                ],
            )
        } else {
            Jv::Arr(seq![])
        },
        None => Jv::Arr(seq![]),
    }
}

fn member_text(v: &JsonValue, member: &str, keys: &[&str]) -> (r: Option<String>)
    ensures
        ov(r) == match json_get(*v, member@) {
            Some(m) => record_text(m, key_seq(keys@)),
            None => None,
        },
{
    match v.get(member) {
        Some(m) => record_string(m, keys),
        None => None,
    }
}

pub fn build_authors(record: &JsonValue) -> (r: JsonValue)
    ensures
        jv(r) == qw_authors_doc(*record),
{
    let k1: &[&str] = &["authorName", "nickname", "username"];
    let k2: &[&str] = &["username", "nickname", "name"];
    let k3: &[&str] = &["nickname", "username", "name"];
    let k4: &[&str] = &["avatar"];
    proof {
        assert(key_seq(k1@) =~= seq!["authorName"@, "nickname"@, "username"@]);
        assert(key_seq(k2@) =~= seq!["username"@, "nickname"@, "name"@]);
        assert(key_seq(k3@) =~= seq!["nickname"@, "username"@, "name"@]);
        assert(key_seq(k4@) =~= seq!["avatar"@]);
    }
    let name = match record_string(record, k1) {
        Some(n) => Some(n),
        None => match member_text(record, "developer", k2) {
            Some(n) => Some(n),
            None => member_text(record, "author", k3),
        },
    };
    let avatar = member_text(record, "developer", k4);
    assert(ov(name) == author_name(*record));
    assert(ov(avatar) == author_avatar(*record));
    let mut items: Vec<JsonValue> = Vec::new();
    match name {
        Some(n) => {
            let t = trim_chars(n.as_str());
            if t.len() > 0 {
                let mut e: Vec<(String, JsonValue)> = Vec::new();
                put(&mut e, "name", JsonValue::Str(string_from_chars(t.as_slice())));
                put(&mut e, "avatar", j_opt_str(match &avatar { Some(a) => Some(a.as_str()), None => None }));
                put(&mut e, "bindABAccount", JsonValue::Bool(false));
                let ghost es = jv_entries(e@);
                let obj = j_object(e);
                push_item(&mut items, obj);
                proof {
                    assert(es =~= seq![
                        ("name"@, Jv::Str(trim(n@))),
                        ("avatar"@, jopt_text(author_avatar(*record))),
                        ("bindABAccount"@, Jv::Bool(false)),
                    ]);
                    assert(jv_items(items@) =~= seq![Jv::Obj(es)]);
                }
            } else {
                assert(jv_items(items@) =~= Seq::<Jv>::empty());
            }
        },
        None => {
            assert(jv_items(items@) =~= Seq::<Jv>::empty());
        },
    }
    j_array(items)
}

pub open spec fn jopt_u64(o: Option<u64>) -> Jv {
    match o {
        Some(v) => jnum(v as int),
        None => Jv::Null,
    }
}

pub open spec fn num_or_zero(o: Option<u64>) -> u64 {
    match o {
        Some(v) => v,
        None => 0,
    }
}

pub open spec fn download_count_keys() -> Seq<Seq<char>> {
    seq!["downloadCount"@, "downloads"@, "downloadTimes"@]
}

pub open spec fn starglow_keys() -> Seq<Seq<char>> {
    seq!["starglowCount"@, "likeCount"@, "likes"@]
}

/// `build_ext`: the provider's extra fields for a record.
pub open spec fn qw_ext_doc(record: JsonValue, device: Option<Seq<char>>) -> Jv {
    Jv::Obj(
        seq![
            ("provider"@, Jv::Str(qw_provider_name())),
            ("sourceId"@, jopt_text(record_id_of(record))),
            ("deviceType"@, Jv::Str(qw_device_of(device))),
            ("category"@, jopt_u64(record_number(record, seq!["category"@]))),
            ("categoryName"@, jopt_text(record_text(record, seq!["categoryName"@]))),
            ("downloads"@, jnum(num_or_zero(record_number(record, download_count_keys())) as int)),
            ("starglow"@, jnum(num_or_zero(record_number(record, starglow_keys())) as int)),
            ("rating"@, match json_get(record, "ratingScore"@) {
                Some(x) => jv(x),
                None => Jv::Null,
            }),
            ("ratingCount"@, jnum(num_or_zero(record_number(record, seq!["ratingCount"@])) as int)),
            ("price"@, jnum(num_or_zero(record_number(record, seq!["price"@])) as int)),
            ("isFeatured"@, Jv::Bool(match json_get(record, "isFeatured"@) {
                Some(x) => match json_as_bool(x) {
                    Some(b) => b,
                    None => false,
                },
                None => false,
            })),
            ("createdAt"@, jopt_text(record_text(record, seq!["createTime"@, "createdAt"@]))),
            ("updatedAt"@, jopt_text(record_text(record, seq!["updateTime"@, "updatedAt"@]))),
        ],
    )
}

fn u64_or_zero(o: Option<u64>) -> (r: u64)
    ensures
        r == num_or_zero(o),
{
    match o {
        Some(v) => v,
        None => 0,
    }
}

fn opt_string_doc(o: Option<String>) -> (r: JsonValue)
    ensures
        jv(r) == jopt_text(ov(o)),
{
    match o {
        Some(s) => JsonValue::Str(s),
        None => JsonValue::Null,
    }
}

pub fn build_ext(record: &JsonValue, config: &QwConfig) -> (r: JsonValue)
    ensures
        jv(r) == qw_ext_doc(*record, config@),
{
    let kc: &[&str] = &["category"];
    let kn: &[&str] = &["categoryName"];
    let kd: &[&str] = &["downloadCount", "downloads", "downloadTimes"];
    let ks: &[&str] = &["starglowCount", "likeCount", "likes"];
    let kr: &[&str] = &["ratingCount"];
    let kp: &[&str] = &["price"];
    let k1: &[&str] = &["createTime", "createdAt"];
    let k2: &[&str] = &["updateTime", "updatedAt"];
    proof {
        assert(key_seq(kc@) =~= seq!["category"@]);
        assert(key_seq(kn@) =~= seq!["categoryName"@]);
        assert(key_seq(kd@) =~= download_count_keys());
        assert(key_seq(ks@) =~= starglow_keys());
        assert(key_seq(kr@) =~= seq!["ratingCount"@]);
        assert(key_seq(kp@) =~= seq!["price"@]);
        assert(key_seq(k1@) =~= seq!["createTime"@, "createdAt"@]);
        assert(key_seq(k2@) =~= seq!["updateTime"@, "updatedAt"@]);
    }
    let mut e: Vec<(String, JsonValue)> = Vec::new();
    put(&mut e, "provider", j_str("轻腕社区"));
    put(&mut e, "sourceId", opt_string_doc(record_id(record)));
    put(&mut e, "deviceType", JsonValue::Str(config.device_type()));
    put(&mut e, "category", match record_u64(record, kc) {
        Some(c) => j_u64(c),
        None => JsonValue::Null,
    });
    put(&mut e, "categoryName", opt_string_doc(record_string(record, kn)));
    put(&mut e, "downloads", j_u64(u64_or_zero(record_u64(record, kd))));
    put(&mut e, "starglow", j_u64(u64_or_zero(record_u64(record, ks))));
    put(&mut e, "rating", match record.get("ratingScore") {
        Some(x) => x.duplicate(),
        None => JsonValue::Null,
    });
    put(&mut e, "ratingCount", j_u64(u64_or_zero(record_u64(record, kr))));
    put(&mut e, "price", j_u64(u64_or_zero(record_u64(record, kp))));
    let featured = match record.get("isFeatured") {
        Some(x) => match x.as_bool() {
            Some(b) => b,
            None => false,
        },
        None => false,
    };
    put(&mut e, "isFeatured", JsonValue::Bool(featured));
    put(&mut e, "createdAt", opt_string_doc(record_string(record, k1)));
    put(&mut e, "updatedAt", opt_string_doc(record_string(record, k2)));
    let r = j_object(e);
    proof {
        assert(jv_entries(e@) =~= match qw_ext_doc(*record, config@) {
            Jv::Obj(s) => s,
            _ => jv_entries(e@),
        });
    }
    r
}

/// `build_links`: the author's sponsor page, when it is an http(s) address.
pub open spec fn qw_links_doc(record: JsonValue) -> Jv {
    match record_text(record, seq!["afdianUrl"@]) {
        Some(u) => if is_http(u) {
            Jv::Arr(
                seq![
                    Jv::Obj(
                        seq![
                            ("title"@, Jv::Str("作者/赞助链接"@)),
                            ("url"@, Jv::Str(u)),
                            ("icon"@, Jv::Str("link"@)),
                        ],
                    ),
                ],
            )
        } else {
            Jv::Arr(seq![])
        },
        None => Jv::Arr(seq![]),
    }
}

pub fn build_links(record: &JsonValue) -> (r: JsonValue)
    ensures
        jv(r) == qw_links_doc(*record),
{
    let k: &[&str] = &["afdianUrl"];
    proof {
        assert(key_seq(k@) =~= seq!["afdianUrl"@]);
    }
    let mut items: Vec<JsonValue> = Vec::new();
    match record_string(record, k) {
        Some(u) => {
            if str_starts_with(u.as_str(), "http://") || str_starts_with(u.as_str(), "https://") {
                let ghost uv = u@;
                let mut e: Vec<(String, JsonValue)> = Vec::new();
                put(&mut e, "title", j_str("作者/赞助链接"));
                put(&mut e, "url", JsonValue::Str(u));
                put(&mut e, "icon", j_str("link"));
                let ghost es = jv_entries(e@);
                push_item(&mut items, j_object(e));
                proof {
                    assert(es =~= seq![
                        ("title"@, Jv::Str("作者/赞助链接"@)),
                        ("url"@, Jv::Str(uv)),
                        ("icon"@, Jv::Str("link"@)),
                    ]);
                    assert(jv_items(items@) =~= seq![Jv::Obj(es)]);
                }
            } else {
                assert(jv_items(items@) =~= Seq::<Jv>::empty());
            }
        },
        None => {
            assert(jv_items(items@) =~= Seq::<Jv>::empty());
        },
    }
    j_array(items)
}

/// `resolve_restype`: watch faces (category 1, or named `表盘`) and quick
/// apps.
pub open spec fn restype_of(record: JsonValue) -> Seq<char> {
    if record_number(record, seq!["category"@]) == Some(1u64) || record_text(record, seq!["categoryName"@]) == Some(
        "表盘"@,
    ) {
        "watchface"@
    } else {
        "quick_app"@
    }
}

pub fn resolve_restype(record: &JsonValue) -> (r: &'static str)
    ensures
        r@ == restype_of(*record),
{
    let kc: &[&str] = &["category"];
    let kn: &[&str] = &["categoryName"];
    proof {
        assert(key_seq(kc@) =~= seq!["category"@]);
        assert(key_seq(kn@) =~= seq!["categoryName"@]);
    }
    let by_id = match record_u64(record, kc) {
        Some(c) => c == 1,
        None => false,
    };
    let by_name = match record_string(record, kn) {
        Some(n) => crate::text::str_eq(n.as_str(), "表盘"),
        None => false,
    };
    if by_id || by_name {
        "watchface"
    } else {
        "quick_app"
    }
}

pub open spec fn first_or_empty(s: Seq<Seq<char>>) -> Seq<char> {
    if s.len() > 0 {
        s[0]
    } else {
        empty_text()
    }
}

pub open spec fn url_docs(s: Seq<Seq<char>>) -> Seq<Jv> {
    s.map_values(|u: Seq<char>| Jv::Str(u))
}

/// `build_manifest_item`: an index entry for a record.
pub open spec fn qw_item_doc(record: JsonValue, device: Option<Seq<char>>) -> Jv {
    let p = previews_of(record);
    Jv::Obj(
        seq![
            ("id"@, Jv::Str(or_empty(record_id_of(record)))),
            ("name"@, Jv::Str(or_empty(record_text(record, name_keys())))),
            ("description"@, Jv::Str(or_empty(record_text(record, description_keys())))),
            ("preview"@, Jv::Arr(url_docs(p))),
            ("icon"@, Jv::Str(first_or_empty(p))),
            ("cover"@, Jv::Str(first_or_empty(p))),
            ("paid_type"@, jopt_text(qw_paid_type(record))),
            ("restype"@, Jv::Str(restype_of(record))),
            ("category"@, jopt_text(record_text(record, seq!["categoryName"@]))),
            ("author"@, qw_authors_doc(record)),
            ("ext"@, qw_ext_doc(record, device)),
        ],
    )
}

fn string_or_empty(o: Option<String>) -> (r: String)
    ensures
        r@ == or_empty(ov(o)),
{
    proof {
        lemma_empty_literal();
    }
    match o {
        Some(s) => s,
        None => String::from_str(""),
    }
}

/// The preview addresses as a JSON array, and the first of them (or empty).
fn preview_docs(urls: &Vec<String>) -> (r: (JsonValue, String))
    ensures
        jv(r.0) == Jv::Arr(url_docs(svs(urls@))),
        r.1@ == first_or_empty(svs(urls@)),
{
    proof {
        lemma_empty_literal();
    }
    let mut items: Vec<JsonValue> = Vec::new();
    let mut i: usize = 0;
    while i < urls.len()
        invariant
            i <= urls@.len(),
            jv_items(items@) == url_docs(svs(urls@.take(i as int))),
        decreases urls@.len() - i,
    {
        push_item(&mut items, JsonValue::Str(urls[i].clone()));
        proof {
            assert(url_docs(svs(urls@.take(i + 1))) =~= url_docs(svs(urls@.take(i as int))).push(
                Jv::Str(urls@[i as int]@),
            ));
        }
        i = i + 1;
    }
    proof {
        assert(urls@.take(i as int) =~= urls@);
    }
    let first = if urls.len() > 0 {
        urls[0].clone()
    } else {
        String::from_str("")
    };
    (j_array(items), first)
}

fn paid_type_doc(record: &JsonValue) -> (r: JsonValue)
    ensures
        jv(r) == jopt_text(qw_paid_type(*record)),
{
    j_opt_str(resolve_paid_type(record))
}

pub fn build_manifest_item(record: &JsonValue, config: &QwConfig) -> (r: JsonValue)
    ensures
        jv(r) == qw_item_doc(*record, config@),
{
    let kname: &[&str] = &["name", "title", "appName"];
    let kdesc: &[&str] = &["description", "desc", "summary", "intro"];
    let kcat: &[&str] = &["categoryName"];
    proof {
        assert(key_seq(kname@) =~= name_keys());
        assert(key_seq(kdesc@) =~= description_keys());
        assert(key_seq(kcat@) =~= seq!["categoryName"@]);
    }
    let urls = preview_urls(record);
    let (preview, cover) = preview_docs(&urls);
    let mut e: Vec<(String, JsonValue)> = Vec::new();
    put(&mut e, "id", JsonValue::Str(string_or_empty(record_id(record))));
    put(&mut e, "name", JsonValue::Str(string_or_empty(record_string(record, kname))));
    put(&mut e, "description", JsonValue::Str(string_or_empty(record_string(record, kdesc))));
    put(&mut e, "preview", preview);
    put(&mut e, "icon", JsonValue::Str(cover.clone()));
    put(&mut e, "cover", JsonValue::Str(cover));
    put(&mut e, "paid_type", paid_type_doc(record));
    put(&mut e, "restype", j_str(resolve_restype(record)));
    put(&mut e, "category", opt_string_doc(record_string(record, kcat)));
    put(&mut e, "author", build_authors(record));
    put(&mut e, "ext", build_ext(record, config));
    let r = j_object(e);
    proof {
        assert(jv_entries(e@) =~= match qw_item_doc(*record, config@) {
            Jv::Obj(s) => s,
            _ => jv_entries(e@),
        });
    }
    r
}

/// `build_visible_manifest_items`: an entry for each record that is not
/// paid, in order.
pub open spec fn visible_items_doc(records: Seq<JsonValue>, device: Option<Seq<char>>) -> Seq<Jv> {
    unpaid(records).map_values(|r: JsonValue| qw_item_doc(r, device))
}

pub fn build_visible_manifest_items(records: &[JsonValue], config: &QwConfig) -> (r: Vec<JsonValue>)
    ensures
        jv_items(r@) == visible_items_doc(records@, config@),
{
    let mut out: Vec<JsonValue> = Vec::new();
    let mut i: usize = 0;
    while i < records.len()
        invariant
            i <= records@.len(),
            jv_items(out@) == visible_items_doc(records@.take(i as int), config@),
        decreases records@.len() - i,
    {
        proof {
            assert(records@.take(i + 1).drop_last() =~= records@.take(i as int));
            assert(records@.take(i + 1).last() == records@[i as int]);
        }
        if !is_paid_resource(&records[i]) {
            push_item(&mut out, build_manifest_item(&records[i], config));
            proof {
                assert(visible_items_doc(records@.take(i + 1), config@) =~= visible_items_doc(
                    records@.take(i as int),
                    config@,
                ).push(qw_item_doc(records@[i as int], config@)));
            }
        } else {
            proof {
                assert(visible_items_doc(records@.take(i + 1), config@) =~= visible_items_doc(
                    records@.take(i as int),
                    config@,
                ));
            }
        }
        i = i + 1;
    }
    proof {
        assert(records@.take(i as int) =~= records@);
    }
    out
}

/// No paid record is offered: every index entry is that of a free record,
/// and its `paid_type` is null.
pub proof fn law_visible_items_free(records: Seq<JsonValue>, device: Option<Seq<char>>)
    ensures
        visible_items_doc(records, device).len() == unpaid(records).len(),
        forall|i: int|
            0 <= i < unpaid(records).len() ==> {
                &&& !is_paid(#[trigger] unpaid(records)[i])
                &&& qw_paid_type(unpaid(records)[i]) is None
                &&& visible_items_doc(records, device)[i] == qw_item_doc(unpaid(records)[i], device)
                &&& jopt_text(qw_paid_type(unpaid(records)[i])) == Jv::Null
            },
{
    crate::qw_catalog::lemma_unpaid(records);
}


// ----------------------------------------------------------------------------
// Files and versions.
pub open spec fn file_url_keys() -> Seq<Seq<char>> {
    seq!["fileUrl"@, "url"@, "downloadUrl"@]
}

pub open spec fn version_keys() -> Seq<Seq<char>> {
    seq!["versionName"@, "versionId"@, "version"@, "id"@]
}

pub open spec fn time_keys() -> Seq<Seq<char>> {
    seq!["updateTime"@, "createTime"@]
}

/// `version_file_url`: a version's file address, when it is http(s).
pub open spec fn version_url(version: JsonValue) -> Option<Seq<char>> {
    match record_text(version, file_url_keys()) {
        Some(u) => if is_http(u) {
            Some(u)
        } else {
            None
        },
        None => None,
    }
}

pub fn version_file_url(version: &JsonValue) -> (r: Option<String>)
    ensures
        ov(r) == version_url(*version),
{
    let k: &[&str] = &["fileUrl", "url", "downloadUrl"];
    proof {
        assert(key_seq(k@) =~= file_url_keys());
    }
    match record_string(version, k) {
        Some(u) => if str_starts_with(u.as_str(), "http://") || str_starts_with(u.as_str(), "https://") {
            Some(u)
        } else {
            None
        },
        None => None,
    }
}

/// The file address of a variant's latest version.
pub open spec fn latest_url(v: JsonValue) -> Option<Seq<char>> {
    match json_get(v, "latestVersion"@) {
        Some(l) => version_url(l),
        None => None,
    }
}

pub fn latest_file_url(v: &JsonValue) -> (r: Option<String>)
    ensures
        ov(r) == latest_url(*v),
{
    match v.get("latestVersion") {
        Some(l) => version_file_url(l),
        None => None,
    }
}

/// The extension of a file address: after the last `.` of the last path
/// segment (query removed), when that is 1 to 8 ASCII letters or digits.
/// (The limit is on the length in bytes; for ASCII letters and digits
/// that is the length in characters, and other characters are refused.)
pub open spec fn qw_extension(url: Seq<char>) -> Option<Seq<char>> {
    let cand = after_last(after_last(before_first(url, '?'), '/'), '.');
    if cand.len() == 0 || cand.len() > 8 || !(forall|i: int| 0 <= i < cand.len() ==> is_ascii_alnum(#[trigger] cand[i])) {
        None
    } else {
        Some(cand)
    }
}

pub fn guess_extension(url: &str) -> (r: Option<String>)
    ensures
        ov(r) == qw_extension(url@),
{
    let path = before_first_char(chars_of(url).as_slice(), '?');
    let seg = after_last_char(path.as_slice(), '/');
    let cand = after_last_char(seg.as_slice(), '.');
    if cand.len() == 0 || cand.len() > 8 {
        return None;
    }
    let mut i: usize = 0;
    while i < cand.len()
        invariant
            i <= cand@.len(),
            cand@ == after_last(after_last(before_first(url@, '?'), '/'), '.'),
            forall|k: int| 0 <= k < i ==> is_ascii_alnum(#[trigger] cand@[k]),
        decreases cand@.len() - i,
    {
        let ch = cand[i];
        if !(('0' <= ch && ch <= '9') || ('a' <= ch && ch <= 'z') || ('A' <= ch && ch <= 'Z')) {
            proof {
                assert(!is_ascii_alnum(cand@[i as int]));
            }
            return None;
        }
        i = i + 1;
    }
    Some(string_from_chars(cand.as_slice()))
}

/// `build_download_file_name`: `qingwear-{id}.{extension}`, the id made
/// file-safe, the extension guessed from the address or else `rpk`.
pub open spec fn qw_file_name(id: Seq<char>, url: Seq<char>) -> Seq<char> {
    let ext = match qw_extension(url) {
        Some(e) => e,
        None => "rpk"@,
    };
    "qingwear-"@ + sanitized(id) + "."@ + ext
}

pub fn build_download_file_name(item_id: &str, file_url: &str) -> (r: String)
    ensures
        r@ == qw_file_name(item_id@, file_url@),
{
    let ext = match guess_extension(file_url) {
        Some(e) => e,
        None => String::from_str("rpk"),
    };
    let a = concat_str("qingwear-", sanitize_ascii(item_id).as_str());
    let b = concat_str(a.as_str(), ".");
    concat_str(b.as_str(), ext.as_str())
}

/// What a download answers with: the file name and the Base64 of the bytes.
pub open spec fn qw_payload_doc(item_id: Seq<char>, url: Seq<char>, bytes: Seq<u8>) -> Jv {
    Jv::Obj(
        seq![
            ("kind"@, Jv::Str("base64"@)),
            ("fileName"@, Jv::Str(qw_file_name(item_id, url))),
            ("data"@, Jv::Str(base64_standard(bytes))),
        ],
    )
}

pub fn build_download_payload(item_id: &str, file_url: &str, bytes: &[u8]) -> (r: JsonValue)
    ensures
        jv(r) == qw_payload_doc(item_id@, file_url@, bytes@),
{
    let mut e: Vec<(String, JsonValue)> = Vec::new();
    put(&mut e, "kind", j_str("base64"));
    put(&mut e, "fileName", JsonValue::Str(build_download_file_name(item_id, file_url)));
    put(&mut e, "data", JsonValue::Str(base64_encode(bytes)));
    let r = j_object(e);
    proof {
        assert(jv_entries(e@) =~= match qw_payload_doc(item_id@, file_url@, bytes@) {
            Jv::Obj(s) => s,
            _ => jv_entries(e@),
        });
    }
    r
}


// ----------------------------------------------------------------------------
// Variants.
/// A compatible device answers to the key by id, by name, or by model
/// without case.
pub open spec fn device_answers(d: JsonValue, want: Seq<char>) -> bool {
    record_id_of(d) == Some(want) || record_text(d, seq!["name"@]) == Some(want) || match record_text(
        d,
        seq!["model"@],
    ) {
        Some(m) => eq_ignore_case(m, want),
        None => false,
    }
}

/// `variant_matches_device`: the key names the variant (its id or label)
/// or one of its compatible devices.
pub open spec fn matches_device(v: JsonValue, want: Seq<char>) -> bool {
    ||| record_id_of(v) == Some(want)
    ||| record_text(v, seq!["variantLabel"@]) == Some(want)
    ||| exists|i: int| 0 <= i < array_items(json_get(v, "compatibleDevices"@)).len() && device_answers(
        #[trigger] array_items(json_get(v, "compatibleDevices"@))[i],
        want,
    )
}

/// The elements of a member that is an array (none otherwise).
pub open spec fn array_items(o: Option<JsonValue>) -> Seq<JsonValue> {
    match o {
        Some(x) => match x {
            JsonValue::Array(items) => items@,
            _ => Seq::<JsonValue>::empty(),
        },
        None => Seq::<JsonValue>::empty(),
    }
}

fn device_answers_exec(d: &JsonValue, want: &str) -> (r: bool)
    ensures
        r == device_answers(*d, want@),
{
    let kn: &[&str] = &["name"];
    let km: &[&str] = &["model"];
    proof {
        assert(key_seq(kn@) =~= seq!["name"@]);
        assert(key_seq(km@) =~= seq!["model"@]);
    }
    let by_id = match record_id(d) {
        Some(i) => str_eq(i.as_str(), want),
        None => false,
    };
    let by_name = match record_string(d, kn) {
        Some(n) => str_eq(n.as_str(), want),
        None => false,
    };
    let by_model = match record_string(d, km) {
        Some(m) => str_eq_ignore_case(m.as_str(), want),
        None => false,
    };
    by_id || by_name || by_model
}

pub fn variant_matches_device(v: &JsonValue, want: &str) -> (r: bool)
    ensures
        r == matches_device(*v, want@),
{
    let kl: &[&str] = &["variantLabel"];
    proof {
        assert(key_seq(kl@) =~= seq!["variantLabel"@]);
    }
    match record_id(v) {
        Some(i) => if str_eq(i.as_str(), want) {
            return true;
        },
        None => {},
    }
    match record_string(v, kl) {
        Some(l) => if str_eq(l.as_str(), want) {
            return true;
        },
        None => {},
    }
    let ghost before_devices = record_id_of(*v) != Some(want@) && record_text(*v, seq!["variantLabel"@]) != Some(want@);
    assert(before_devices);
    match v.get("compatibleDevices") {
        Some(JsonValue::Array(devs)) => {
            let mut i: usize = 0;
            while i < devs.len()
                invariant
                    i <= devs@.len(),
                    before_devices == (record_id_of(*v) != Some(want@) && record_text(*v, seq!["variantLabel"@]) != Some(want@)),
                    before_devices,
                    json_get(*v, "compatibleDevices"@) == Some(JsonValue::Array(*devs)),
                    forall|k: int| 0 <= k < i ==> !device_answers(#[trigger] devs@[k], want@),
                decreases devs@.len() - i,
            {
                if device_answers_exec(&devs[i], want) {
                    proof {
                        assert(array_items(json_get(*v, "compatibleDevices"@)) == devs@);
                        assert(device_answers(array_items(json_get(*v, "compatibleDevices"@))[i as int], want@));
                    }
                    return true;
                }
                i = i + 1;
            }
            false
        },
        _ => false,
    }
}

/// The first variant the key names.
pub open spec fn first_matching(vs: Seq<JsonValue>, want: Seq<char>) -> Option<JsonValue>
    decreases vs.len(),
{
    if vs.len() == 0 {
        None
    } else if matches_device(vs[0], want) {
        Some(vs[0])
    } else {
        first_matching(vs.drop_first(), want)
    }
}

/// Whether a variant is marked recommended.
pub open spec fn recommended(v: JsonValue) -> bool {
    match json_get(v, "recommended"@) {
        Some(x) => json_as_bool(x) == Some(true),
        None => false,
    }
}

pub open spec fn first_recommended(vs: Seq<JsonValue>) -> Option<JsonValue>
    decreases vs.len(),
{
    if vs.len() == 0 {
        None
    } else if recommended(vs[0]) {
        Some(vs[0])
    } else {
        first_recommended(vs.drop_first())
    }
}

/// The first file address among the variants' latest versions.
pub open spec fn first_latest_url(vs: Seq<JsonValue>) -> Option<Seq<char>>
    decreases vs.len(),
{
    if vs.len() == 0 {
        None
    } else if latest_url(vs[0]) is Some {
        latest_url(vs[0])
    } else {
        first_latest_url(vs.drop_first())
    }
}

pub open spec fn url_of(v: Option<JsonValue>) -> Option<Seq<char>> {
    match v {
        Some(x) => latest_url(x),
        None => None,
    }
}

/// `pick_variant_file_url`: the file of the variant the download key names,
/// else of the selected variant, else of the recommended one, else the
/// first file any variant has.
pub open spec fn picked_url(detail: JsonValue, vs: Seq<JsonValue>, device: Option<Seq<char>>) -> Option<Seq<char>> {
    let a = match device {
        Some(d) => if trim(d).len() > 0 {
            url_of(first_matching(vs, trim(d)))
        } else {
            None
        },
        None => None,
    };
    let b = match record_text(detail, seq!["selectedVariantId"@]) {
        Some(sel) => url_of(record_with_id(vs, sel)),
        None => None,
    };
    let c = url_of(first_recommended(vs));
    if a is Some {
        a
    } else if b is Some {
        b
    } else if c is Some {
        c
    } else {
        first_latest_url(vs)
    }
}

fn first_matching_index(vs: &[JsonValue], want: &str) -> (r: Option<usize>)
    ensures
        match r {
            Some(k) => k < vs@.len() && first_matching(vs@, want@) == Some(vs@[k as int]),
            None => first_matching(vs@, want@) is None,
        },
{
    let mut i: usize = 0;
    proof {
        assert(vs@.skip(0) =~= vs@);
    }
    while i < vs.len()
        invariant
            i <= vs@.len(),
            first_matching(vs@, want@) == first_matching(vs@.skip(i as int), want@),
        decreases vs@.len() - i,
    {
        proof {
            assert(vs@.skip(i as int)[0] == vs@[i as int]);
            assert(vs@.skip(i as int).drop_first() =~= vs@.skip(i + 1));
        }
        if variant_matches_device(&vs[i], want) {
            return Some(i);
        }
        i = i + 1;
    }
    proof {
        assert(vs@.skip(i as int) =~= Seq::<JsonValue>::empty());
    }
    None
}

fn id_index(vs: &[JsonValue], id: &str) -> (r: Option<usize>)
    ensures
        match r {
            Some(k) => k < vs@.len() && record_with_id(vs@, id@) == Some(vs@[k as int]),
            None => record_with_id(vs@, id@) is None,
        },
{
    let mut i: usize = 0;
    proof {
        assert(vs@.skip(0) =~= vs@);
    }
    while i < vs.len()
        invariant
            i <= vs@.len(),
            record_with_id(vs@, id@) == record_with_id(vs@.skip(i as int), id@),
        decreases vs@.len() - i,
    {
        proof {
            assert(vs@.skip(i as int)[0] == vs@[i as int]);
            assert(vs@.skip(i as int).drop_first() =~= vs@.skip(i + 1));
        }
        let hit = match record_id(&vs[i]) {
            Some(x) => str_eq(x.as_str(), id),
            None => false,
        };
        if hit {
            return Some(i);
        }
        i = i + 1;
    }
    proof {
        assert(vs@.skip(i as int) =~= Seq::<JsonValue>::empty());
    }
    None
}

fn is_recommended(v: &JsonValue) -> (r: bool)
    ensures
        r == recommended(*v),
{
    match v.get("recommended") {
        Some(x) => match x.as_bool() {
            Some(b) => b,
            None => false,
        },
        None => false,
    }
}

fn recommended_index(vs: &[JsonValue]) -> (r: Option<usize>)
    ensures
        match r {
            Some(k) => k < vs@.len() && first_recommended(vs@) == Some(vs@[k as int]),
            None => first_recommended(vs@) is None,
        },
{
    let mut i: usize = 0;
    proof {
        assert(vs@.skip(0) =~= vs@);
    }
    while i < vs.len()
        invariant
            i <= vs@.len(),
            first_recommended(vs@) == first_recommended(vs@.skip(i as int)),
        decreases vs@.len() - i,
    {
        proof {
            assert(vs@.skip(i as int)[0] == vs@[i as int]);
            assert(vs@.skip(i as int).drop_first() =~= vs@.skip(i + 1));
        }
        if is_recommended(&vs[i]) {
            return Some(i);
        }
        i = i + 1;
    }
    proof {
        assert(vs@.skip(i as int) =~= Seq::<JsonValue>::empty());
    }
    None
}

fn url_at(vs: &[JsonValue], k: Option<usize>) -> (r: Option<String>)
    requires
        match k {
            Some(i) => i < vs@.len(),
            None => true,
        },
    ensures
        ov(r) == match k {
            Some(i) => latest_url(vs@[i as int]),
            None => None,
        },
{
    match k {
        Some(i) => latest_file_url(&vs[i]),
        None => None,
    }
}

proof fn lemma_first_matching_at(vs: Seq<JsonValue>, want: Seq<char>, k: int)
    requires
        0 <= k < vs.len(),
        matches_device(vs[k], want),
        forall|j: int| 0 <= j < k ==> !matches_device(#[trigger] vs[j], want),
    ensures
        first_matching(vs, want) == Some(vs[k]),
    decreases k,
{
    if k > 0 {
        assert(!matches_device(vs[0], want));
        assert forall|j: int| 0 <= j < k - 1 implies !matches_device(#[trigger] vs.drop_first()[j], want) by {
            assert(vs.drop_first()[j] == vs[j + 1]);
        }
        lemma_first_matching_at(vs.drop_first(), want, k - 1);
    }
}

proof fn lemma_record_with_id_at(vs: Seq<JsonValue>, id: Seq<char>, k: int)
    requires
        0 <= k < vs.len(),
        record_id_of(vs[k]) == Some(id),
        forall|j: int| 0 <= j < k ==> record_id_of(#[trigger] vs[j]) != Some(id),
    ensures
        record_with_id(vs, id) == Some(vs[k]),
    decreases k,
{
    if k > 0 {
        assert(record_id_of(vs[0]) != Some(id));
        assert forall|j: int| 0 <= j < k - 1 implies record_id_of(#[trigger] vs.drop_first()[j]) != Some(id) by {
            assert(vs.drop_first()[j] == vs[j + 1]);
        }
        lemma_record_with_id_at(vs.drop_first(), id, k - 1);
    }
}

proof fn lemma_first_recommended_at(vs: Seq<JsonValue>, k: int)
    requires
        0 <= k < vs.len(),
        recommended(vs[k]),
        forall|j: int| 0 <= j < k ==> !recommended(#[trigger] vs[j]),
    ensures
        first_recommended(vs) == Some(vs[k]),
    decreases k,
{
    if k > 0 {
        assert(!recommended(vs[0]));
        assert forall|j: int| 0 <= j < k - 1 implies !recommended(#[trigger] vs.drop_first()[j]) by {
            assert(vs.drop_first()[j] == vs[j + 1]);
        }
        lemma_first_recommended_at(vs.drop_first(), k - 1);
    }
}

/// The variant that matches the download key comes first: when a non-blank
/// key is given and the first variant matching it has a file, that file is
/// picked, whatever variant the app marks as selected or recommended.
pub proof fn law_device_variant_picked_first(detail: JsonValue, vs: Seq<JsonValue>, d: Seq<char>, k: int)
    requires
        trim(d).len() > 0,
        0 <= k < vs.len(),
        matches_device(vs[k], trim(d)),
        forall|j: int| 0 <= j < k ==> !matches_device(#[trigger] vs[j], trim(d)),
        latest_url(vs[k]) is Some,
    ensures
        picked_url(detail, vs, Some(d)) == latest_url(vs[k]),
{
    lemma_first_matching_at(vs, trim(d), k);
}

/// With no download key, the app's selected variant comes next: when the
/// first variant with the selected id has a file, that file is picked,
/// whatever variant is marked recommended.
pub proof fn law_selected_variant_picked_next(detail: JsonValue, vs: Seq<JsonValue>, sel: Seq<char>, k: int)
    requires
        record_text(detail, seq!["selectedVariantId"@]) == Some(sel),
        0 <= k < vs.len(),
        record_id_of(vs[k]) == Some(sel),
        forall|j: int| 0 <= j < k ==> record_id_of(#[trigger] vs[j]) != Some(sel),
        latest_url(vs[k]) is Some,
    ensures
        picked_url(detail, vs, None) == latest_url(vs[k]),
{
    lemma_record_with_id_at(vs, sel, k);
}

/// With no download key and no selected variant, the first recommended
/// variant with a file comes before the first variant that merely has one.
pub proof fn law_recommended_variant_picked_next(detail: JsonValue, vs: Seq<JsonValue>, k: int)
    requires
        record_text(detail, seq!["selectedVariantId"@]) is None,
        0 <= k < vs.len(),
        recommended(vs[k]),
        forall|j: int| 0 <= j < k ==> !recommended(#[trigger] vs[j]),
        latest_url(vs[k]) is Some,
    ensures
        picked_url(detail, vs, None) == latest_url(vs[k]),
{
    lemma_first_recommended_at(vs, k);
}

pub fn pick_variant_file_url(detail: &JsonValue, vs: &[JsonValue], device: Option<&str>) -> (r: Option<String>)
    ensures
        ov(r) == picked_url(*detail, vs@, match device { Some(d) => Some(d@), None => None }),
{
    let ks: &[&str] = &["selectedVariantId"];
    proof {
        assert(key_seq(ks@) =~= seq!["selectedVariantId"@]);
    }
    match device {
        Some(d) => {
            let t = crate::text::trim_str(d);
            if !t.as_str().is_empty() {
                let u = url_at(vs, first_matching_index(vs, t.as_str()));
                if u.is_some() {
                    return u;
                }
            }
        },
        None => {},
    }
    match record_string(detail, ks) {
        Some(sel) => {
            let u = url_at(vs, id_index(vs, sel.as_str()));
            if u.is_some() {
                return u;
            }
        },
        None => {},
    }
    let u = url_at(vs, recommended_index(vs));
    if u.is_some() {
        return u;
    }
    let ghost dv = match device { Some(d) => Some(d@), None => None };
    assert(picked_url(*detail, vs@, dv) == first_latest_url(vs@));
    let mut i: usize = 0;
    proof {
        assert(vs@.skip(0) =~= vs@);
    }
    while i < vs.len()
        invariant
            i <= vs@.len(),
            dv == match device { Some(d) => Some(d@), None => None },
            picked_url(*detail, vs@, dv) == first_latest_url(vs@),
            first_latest_url(vs@) == first_latest_url(vs@.skip(i as int)),
        decreases vs@.len() - i,
    {
        proof {
            assert(vs@.skip(i as int)[0] == vs@[i as int]);
            assert(vs@.skip(i as int).drop_first() =~= vs@.skip(i + 1));
        }
        let u = latest_file_url(&vs[i]);
        if u.is_some() {
            return u;
        }
        i = i + 1;
    }
    proof {
        assert(vs@.skip(i as int) =~= Seq::<JsonValue>::empty());
    }
    None
}

/// The file a detail record offers: one of its variants' (as picked), else
/// that of its own latest version.
pub open spec fn detail_url(detail: JsonValue, device: Option<Seq<char>>) -> Option<Seq<char>> {
    let picked = match json_get(detail, "variants"@) {
        Some(JsonValue::Array(vs)) => picked_url(detail, vs@, device),
        _ => None,
    };
    if picked is Some {
        picked
    } else {
        latest_url(detail)
    }
}

/// The file to download once the app's detail is in.
pub fn download_url_from_detail(detail: &JsonValue, device: Option<&str>) -> (r: Option<String>)
    ensures
        ov(r) == detail_url(*detail, match device { Some(d) => Some(d@), None => None }),
{
    match detail.get("variants") {
        Some(JsonValue::Array(vs)) => {
            let u = pick_variant_file_url(detail, vs.as_slice(), device);
            if u.is_some() {
                return u;
            }
        },
        _ => {},
    }
    latest_file_url(detail)
}

/// The file to download from the versions list: the first version's
/// file, or the error that none is known.
pub open spec fn versions_url(versions: Seq<JsonValue>, item_id: Seq<char>) -> Result<Seq<char>, Seq<char>> {
    let u = if versions.len() > 0 {
        version_url(versions[0])
    } else {
        None
    };
    match u {
        Some(x) => Ok(x),
        None => Err("no downloadable file resolved for app "@ + item_id),
    }
}

pub fn download_url_from_versions(versions: &[JsonValue], item_id: &str) -> (r: Result<String, String>)
    ensures
        match r {
            Ok(u) => versions_url(versions@, item_id@) == Ok::<Seq<char>, Seq<char>>(u@),
            Err(e) => versions_url(versions@, item_id@) == Err::<Seq<char>, Seq<char>>(e@),
        },
{
    if versions.len() > 0 {
        match version_file_url(&versions[0]) {
            Some(u) => {
                return Ok(u);
            },
            None => {},
        }
    }
    Err(concat_str("no downloadable file resolved for app ", item_id))
}


/// `resolve_primary_version`: the record's own latest version when it is
/// an object with a file; else the latest version of the selected variant,
/// or the recommended one, or the first.
pub open spec fn primary_version(record: JsonValue) -> Option<JsonValue> {
    let own = json_get(record, "latestVersion"@);
    if own is Some && own->0 is Object && version_url(own->0) is Some {
        own
    } else {
        match json_get(record, "variants"@) {
            Some(x) => match x {
                JsonValue::Array(vs) => {
                    let by_sel = match record_text(record, seq!["selectedVariantId"@]) {
                        Some(sel) => record_with_id(vs@, sel),
                        None => None,
                    };
                    let pick = if by_sel is Some {
                        by_sel
                    } else if first_recommended(vs@) is Some {
                        first_recommended(vs@)
                    } else if vs@.len() > 0 {
                        Some(vs@[0])
                    } else {
                        None
                    };
                    match pick {
                        Some(p) => json_get(p, "latestVersion"@),
                        None => None,
                    }
                },
                _ => None,
            },
            None => None,
        }
    }
}

pub fn resolve_primary_version(record: &JsonValue) -> (r: Option<&JsonValue>)
    ensures
        match r {
            Some(x) => primary_version(*record) == Some(*x),
            None => primary_version(*record) is None,
        },
{
    let ks: &[&str] = &["selectedVariantId"];
    proof {
        assert(key_seq(ks@) =~= seq!["selectedVariantId"@]);
    }
    match record.get("latestVersion") {
        Some(l) => {
            let is_object = match l {
                JsonValue::Object(_) => true,
                _ => false,
            };
            if is_object && version_file_url(l).is_some() {
                return Some(l);
            }
        },
        None => {},
    }
    match record.get("variants") {
        Some(JsonValue::Array(vs)) => {
            let by_sel = match record_string(record, ks) {
                Some(sel) => id_index(vs.as_slice(), sel.as_str()),
                None => None,
            };
            let pick = match by_sel {
                Some(k) => Some(k),
                None => match recommended_index(vs.as_slice()) {
                    Some(k) => Some(k),
                    None => if vs.len() > 0 {
                        Some(0)
                    } else {
                        None
                    },
                },
            };
            match pick {
                Some(k) => vs[k].get("latestVersion"),
                None => None,
            }
        },
        _ => None,
    }
}

/// `variant_display_name`: the variant's label or name, else the first
/// compatible device's name or model, else the variant's id (or empty).
pub open spec fn variant_display(v: JsonValue) -> Seq<char> {
    match record_text(v, seq!["variantLabel"@, "name"@]) {
        Some(l) => l,
        None => match first_device_name(array_items(json_get(v, "compatibleDevices"@))) {
            Some(n) => n,
            None => or_empty(record_id_of(v)),
        },
    }
}

pub open spec fn first_device_name(devs: Seq<JsonValue>) -> Option<Seq<char>>
    decreases devs.len(),
{
    if devs.len() == 0 {
        None
    } else if record_text(devs[0], seq!["name"@, "model"@]) is Some {
        record_text(devs[0], seq!["name"@, "model"@])
    } else {
        first_device_name(devs.drop_first())
    }
}

pub fn variant_display_name(v: &JsonValue) -> (r: String)
    ensures
        r@ == variant_display(*v),
{
    let kl: &[&str] = &["variantLabel", "name"];
    let kd: &[&str] = &["name", "model"];
    proof {
        assert(key_seq(kl@) =~= seq!["variantLabel"@, "name"@]);
        assert(key_seq(kd@) =~= seq!["name"@, "model"@]);
    }
    match record_string(v, kl) {
        Some(l) => {
            return l;
        },
        None => {},
    }
    match v.get("compatibleDevices") {
        Some(JsonValue::Array(devs)) => {
            let mut i: usize = 0;
            proof {
                assert(devs@.skip(0) =~= devs@);
            }
            while i < devs.len()
                invariant
                    i <= devs@.len(),
                    key_seq(kd@) == seq!["name"@, "model"@],
                    first_device_name(devs@) == first_device_name(devs@.skip(i as int)),
                    array_items(json_get(*v, "compatibleDevices"@)) == devs@,
                    record_text(*v, seq!["variantLabel"@, "name"@]) is None,
                decreases devs@.len() - i,
            {
                proof {
                    assert(devs@.skip(i as int)[0] == devs@[i as int]);
                    assert(devs@.skip(i as int).drop_first() =~= devs@.skip(i + 1));
                }
                match record_string(&devs[i], kd) {
                    Some(n) => {
                        return n;
                    },
                    None => {},
                }
                i = i + 1;
            }
            proof {
                assert(devs@.skip(i as int) =~= Seq::<JsonValue>::empty());
            }
        },
        _ => {},
    }
    string_or_empty(record_id(v))
}

// ----------------------------------------------------------------------------
// Manifests.
/// A member set in a map: replaced where the key is, else added at the end.
pub open spec fn map_put(m: Seq<(Seq<char>, Jv)>, k: Seq<char>, v: Jv) -> Seq<(Seq<char>, Jv)>
    decreases m.len(),
{
    if m.len() == 0 {
        seq![(k, v)]
    } else if m[0].0 == k {
        seq![(k, v)] + m.drop_first()
    } else {
        seq![m[0]] + map_put(m.drop_first(), k, v)
    }
}

/// A version's name: from the version, else the variant's times, else empty.
pub open spec fn version_label(version: Option<JsonValue>, holder: JsonValue) -> Seq<char> {
    match (match version {
        Some(l) => record_text(l, version_keys()),
        None => None,
    }) {
        Some(t) => t,
        None => or_empty(record_text(holder, time_keys())),
    }
}

/// The download entry of a variant with an id and a file.
pub open spec fn variant_entry(v: JsonValue) -> Option<(Seq<char>, Jv)> {
    match record_id_of(v) {
        Some(id) => match latest_url(v) {
            Some(url) => Some(
                (
                    id,
                    Jv::Obj(
                        seq![
                            ("version"@, Jv::Str(version_label(json_get(v, "latestVersion"@), v))),
                            ("file_name"@, Jv::Str(qw_file_name(id, url))),
                            ("display_name"@, Jv::Str(variant_display(v))),
                        ],
                    ),
                ),
            ),
            None => None,
        },
        None => None,
    }
}

pub open spec fn variant_map(vs: Seq<JsonValue>) -> Seq<(Seq<char>, Jv)>
    decreases vs.len(),
{
    if vs.len() == 0 {
        seq![]
    } else {
        let m = variant_map(vs.drop_last());
        match variant_entry(vs.last()) {
            Some(e) => map_put(m, e.0, e.1),
            None => m,
        }
    }
}

/// `build_downloads`: an entry per variant with a file (by variant id);
/// without any, one entry under the configured device type, from the
/// primary version (or the first listed version).
pub open spec fn downloads_doc(record: JsonValue, versions: Seq<JsonValue>, device: Option<Seq<char>>) -> Jv {
    let m = variant_map(array_items(json_get(record, "variants"@)));
    if m.len() > 0 {
        Jv::Obj(m)
    } else {
        let primary = if primary_version(record) is Some {
            primary_version(record)
        } else if versions.len() > 0 {
            Some(versions[0])
        } else {
            None
        };
        let url = or_empty(
            match primary {
                Some(p) => version_url(p),
                None => None,
            },
        );
        Jv::Obj(
            seq![
                (
                    qw_device_of(device),
                    Jv::Obj(
                        seq![
                            ("version"@, Jv::Str(version_label(primary, record))),
                            ("file_name"@, Jv::Str(qw_file_name(or_empty(record_id_of(record)), url))),
                        ],
                    ),
                ),
            ],
        )
    }
}

fn map_put_exec(m: &mut Vec<(String, JsonValue)>, k: String, v: JsonValue)
    ensures
        jv_entries(final(m)@) == map_put(jv_entries(old(m)@), k@, jv(v)),
{
    let ghost orig = jv_entries(m@);
    let mut i: usize = 0;
    proof {
        assert(orig.take(0) =~= Seq::<(Seq<char>, Jv)>::empty());
        assert(orig.skip(0) =~= orig);
        assert(Seq::<(Seq<char>, Jv)>::empty() + map_put(orig, k@, jv(v)) =~= map_put(orig, k@, jv(v)));
    }
    while i < m.len()
        invariant
            i <= m@.len(),
            orig == jv_entries(old(m)@),
            m@ == old(m)@,
            map_put(orig, k@, jv(v)) == orig.take(i as int) + map_put(orig.skip(i as int), k@, jv(v)),
            forall|q: int| 0 <= q < i ==> #[trigger] orig[q].0 != k@,
        decreases m@.len() - i,
    {
        proof {
            lemma_jv_entries_len(m@);
            lemma_jv_entries_index(m@, i as int);
        }
        if str_eq(m[i].0.as_str(), k.as_str()) {
            let ghost before = m@;
            m.set(i, (k, v));
            proof {
                lemma_jv_entries_update(before, i as int, (k, v));
                let rest = orig.skip(i as int);
                assert(rest[0].0 == k@);
                assert(map_put(rest, k@, jv(v)) == seq![(k@, jv(v))] + rest.drop_first());
                assert(jv_entries(m@) =~= orig.take(i as int) + (seq![(k@, jv(v))] + rest.drop_first()));
            }
            return;
        }
        proof {
            let rest = orig.skip(i as int);
            assert(rest[0] == orig[i as int]);
            assert(rest.drop_first() =~= orig.skip(i + 1));
            assert(orig.take(i + 1) =~= orig.take(i as int).push(orig[i as int]));
            assert(orig.take(i as int) + (seq![rest[0]] + map_put(rest.drop_first(), k@, jv(v))) =~= orig.take(
                i + 1,
            ) + map_put(orig.skip(i + 1), k@, jv(v)));
        }
        i = i + 1;
    }
    let ghost before = m@;
    m.push((k, v));
    proof {
        lemma_jv_entries_len(before);
        assert(orig.skip(i as int) =~= Seq::<(Seq<char>, Jv)>::empty());
        assert(orig.take(i as int) =~= orig);
        assert(m@.drop_last() =~= before);
    }
}

proof fn lemma_jv_entries_len(s: Seq<(String, JsonValue)>)
    ensures
        jv_entries(s).len() == s.len(),
    decreases s.len(),
{
    if s.len() > 0 {
        lemma_jv_entries_len(s.drop_last());
    }
}

proof fn lemma_jv_entries_index(s: Seq<(String, JsonValue)>, i: int)
    requires
        0 <= i < s.len(),
    ensures
        jv_entries(s)[i] == (s[i].0@, jv(s[i].1)),
    decreases s.len(),
{
    lemma_jv_entries_len(s.drop_last());
    if i < s.len() - 1 {
        lemma_jv_entries_index(s.drop_last(), i);
    }
}

proof fn lemma_jv_entries_update(s: Seq<(String, JsonValue)>, i: int, e: (String, JsonValue))
    requires
        0 <= i < s.len(),
    ensures
        jv_entries(s.update(i, e)) == jv_entries(s).update(i, (e.0@, jv(e.1))),
    decreases s.len(),
{
    lemma_jv_entries_len(s);
    lemma_jv_entries_len(s.update(i, e));
    if i == s.len() - 1 {
        assert(s.update(i, e).drop_last() =~= s.drop_last());
    } else {
        lemma_jv_entries_update(s.drop_last(), i, e);
        assert(s.update(i, e).drop_last() =~= s.drop_last().update(i, e));
    }
    assert(jv_entries(s.update(i, e)) =~= jv_entries(s).update(i, (e.0@, jv(e.1))));
}


fn version_text(version: Option<&JsonValue>, holder: &JsonValue) -> (r: String)
    ensures
        r@ == version_label(match version { Some(x) => Some(*x), None => None }, *holder),
{
    let kv: &[&str] = &["versionName", "versionId", "version", "id"];
    let kt: &[&str] = &["updateTime", "createTime"];
    proof {
        assert(key_seq(kv@) =~= version_keys());
        assert(key_seq(kt@) =~= time_keys());
    }
    let named = match version {
        Some(l) => record_string(l, kv),
        None => None,
    };
    match named {
        Some(t) => t,
        None => string_or_empty(record_string(holder, kt)),
    }
}

fn variant_entry_exec(v: &JsonValue) -> (r: Option<(String, JsonValue)>)
    ensures
        match r {
            Some(e) => variant_entry(*v) == Some((e.0@, jv(e.1))),
            None => variant_entry(*v) is None,
        },
{
    let vid = match record_id(v) {
        Some(x) => x,
        None => {
            return None;
        },
    };
    let url = match latest_file_url(v) {
        Some(u) => u,
        None => {
            return None;
        },
    };
    let mut e: Vec<(String, JsonValue)> = Vec::new();
    put(&mut e, "version", JsonValue::Str(version_text(v.get("latestVersion"), v)));
    put(&mut e, "file_name", JsonValue::Str(build_download_file_name(vid.as_str(), url.as_str())));
    put(&mut e, "display_name", JsonValue::Str(variant_display_name(v)));
    let ghost es = jv_entries(e@);
    let obj = j_object(e);
    proof {
        assert(es =~= seq![
            ("version"@, Jv::Str(version_label(json_get(*v, "latestVersion"@), *v))),
            ("file_name"@, Jv::Str(qw_file_name(vid@, url@))),
            ("display_name"@, Jv::Str(variant_display(*v))),
        ]);
    }
    Some((vid, obj))
}

pub fn build_downloads(record: &JsonValue, versions: &[JsonValue], config: &QwConfig) -> (r: JsonValue)
    ensures
        jv(r) == downloads_doc(*record, versions@, config@),
{
    let ghost vs_all = array_items(json_get(*record, "variants"@));
    let mut map: Vec<(String, JsonValue)> = Vec::new();
    match record.get("variants") {
        Some(JsonValue::Array(vs)) => {
            let mut i: usize = 0;
            while i < vs.len()
                invariant
                    i <= vs@.len(),
                    vs_all == vs@,
                    jv_entries(map@) == variant_map(vs@.take(i as int)),
                decreases vs@.len() - i,
            {
                proof {
                    assert(vs@.take(i + 1).drop_last() =~= vs@.take(i as int));
                    assert(vs@.take(i + 1).last() == vs@[i as int]);
                }
                match variant_entry_exec(&vs[i]) {
                    Some(entry) => {
                        let (k, v) = entry;
                        map_put_exec(&mut map, k, v);
                    },
                    None => {},
                }
                i = i + 1;
            }
            proof {
                assert(vs@.take(i as int) =~= vs@);
            }
        },
        _ => {
            assert(vs_all =~= Seq::<JsonValue>::empty());
        },
    }
    proof {
        lemma_jv_entries_len(map@);
    }
    if map.len() > 0 {
        return j_object(map);
    }
    let kt: &[&str] = &["updateTime", "createTime"];
    let primary = match resolve_primary_version(record) {
        Some(p) => Some(p),
        None => if versions.len() > 0 {
            Some(&versions[0])
        } else {
            None
        },
    };
    let version = version_text(primary, record);
    let url = match primary {
        Some(p) => string_or_empty(version_file_url(p)),
        None => string_or_empty(None),
    };
    let id = string_or_empty(record_id(record));
    let mut inner: Vec<(String, JsonValue)> = Vec::new();
    put(&mut inner, "version", JsonValue::Str(version));
    put(&mut inner, "file_name", JsonValue::Str(build_download_file_name(id.as_str(), url.as_str())));
    let ghost ie = jv_entries(inner@);
    let mut outer: Vec<(String, JsonValue)> = Vec::new();
    let dt = config.device_type();
    let ghost dtv = dt@;
    outer.push((dt, j_object(inner)));
    proof {
        assert(outer@.drop_last() =~= Seq::<(String, JsonValue)>::empty());
        assert(jv_entries(outer@) =~= seq![(dtv, Jv::Obj(ie))]);
        let primary_spec = if primary_version(*record) is Some {
            primary_version(*record)
        } else if versions@.len() > 0 {
            Some(versions@[0])
        } else {
            None
        };
        assert(primary_spec == match primary { Some(p) => Some(*p), None => None });
        assert(ie =~= seq![
            ("version"@, Jv::Str(version_label(primary_spec, *record))),
            ("file_name"@, Jv::Str(qw_file_name(or_empty(record_id_of(*record)), or_empty(match primary_spec {
                Some(p) => version_url(p),
                None => None,
            })))),
        ]);
        assert(variant_map(vs_all).len() == 0);
        assert(dtv == qw_device_of(config@));
        let inner_doc = seq![
            ("version"@, Jv::Str(version_label(primary_spec, *record))),
            ("file_name"@, Jv::Str(qw_file_name(or_empty(record_id_of(*record)), or_empty(match primary_spec {
                Some(p) => version_url(p),
                None => None,
            })))),
        ];
        let d = downloads_doc(*record, versions@, config@);
        assert(!(variant_map(array_items(json_get(*record, "variants"@))).len() > 0));
        assert(d is Obj);
        assert(d->Obj_0.len() == 1);
        assert(d->Obj_0[0].0 == qw_device_of(config@));
        assert(d->Obj_0[0].1 is Obj);
        assert(d->Obj_0[0].1->Obj_0.len() == 2);
        assert(d->Obj_0[0].1->Obj_0[0] == inner_doc[0]);
        assert(d->Obj_0[0].1->Obj_0[1] == inner_doc[1]);
        assert(d->Obj_0[0].1->Obj_0 =~= inner_doc);
        assert(d->Obj_0[0].1 == Jv::Obj(inner_doc));
        assert(jv_entries(outer@) =~= match downloads_doc(*record, versions@, config@) {
            Jv::Obj(s) => s,
            _ => jv_entries(outer@),
        });
    }
    j_object(outer)
}

/// `build_manifest`: the item (as in the index, without `ext`), the
/// downloads, the links and the extra fields.
pub open spec fn qw_manifest_doc(record: JsonValue, versions: Seq<JsonValue>, device: Option<Seq<char>>) -> Jv {
    let p = previews_of(record);
    Jv::Obj(
        seq![
            (
                "item"@,
                Jv::Obj(
                    seq![
                        ("id"@, Jv::Str(or_empty(record_id_of(record)))),
                        ("restype"@, Jv::Str(restype_of(record))),
                        ("name"@, Jv::Str(or_empty(record_text(record, name_keys())))),
                        ("description"@, Jv::Str(or_empty(record_text(record, description_keys())))),
                        ("preview"@, Jv::Arr(url_docs(p))),
                        ("icon"@, Jv::Str(first_or_empty(p))),
                        ("cover"@, Jv::Str(first_or_empty(p))),
                        ("paid_type"@, jopt_text(qw_paid_type(record))),
                        ("category"@, jopt_text(record_text(record, seq!["categoryName"@]))),
                        ("author"@, qw_authors_doc(record)),
                    ],
                ),
            ),
            ("downloads"@, downloads_doc(record, versions, device)),
            ("links"@, qw_links_doc(record)),
            ("ext"@, qw_ext_doc(record, device)),
        ],
    )
}

pub fn build_manifest(record: &JsonValue, versions: &[JsonValue], config: &QwConfig) -> (r: JsonValue)
    ensures
        jv(r) == qw_manifest_doc(*record, versions@, config@),
{
    let kname: &[&str] = &["name", "title", "appName"];
    let kdesc: &[&str] = &["description", "desc", "summary", "intro"];
    let kcat: &[&str] = &["categoryName"];
    proof {
        assert(key_seq(kname@) =~= name_keys());
        assert(key_seq(kdesc@) =~= description_keys());
        assert(key_seq(kcat@) =~= seq!["categoryName"@]);
    }
    let urls = preview_urls(record);
    let (preview, cover) = preview_docs(&urls);
    let mut item: Vec<(String, JsonValue)> = Vec::new();
    put(&mut item, "id", JsonValue::Str(string_or_empty(record_id(record))));
    put(&mut item, "restype", j_str(resolve_restype(record)));
    put(&mut item, "name", JsonValue::Str(string_or_empty(record_string(record, kname))));
    put(&mut item, "description", JsonValue::Str(string_or_empty(record_string(record, kdesc))));
    put(&mut item, "preview", preview);
    put(&mut item, "icon", JsonValue::Str(cover.clone()));
    put(&mut item, "cover", JsonValue::Str(cover));
    put(&mut item, "paid_type", paid_type_doc(record));
    put(&mut item, "category", opt_string_doc(record_string(record, kcat)));
    put(&mut item, "author", build_authors(record));
    let ghost ie = jv_entries(item@);
    let mut e: Vec<(String, JsonValue)> = Vec::new();
    put(&mut e, "item", j_object(item));
    put(&mut e, "downloads", build_downloads(record, versions, config));
    put(&mut e, "links", build_links(record));
    put(&mut e, "ext", build_ext(record, config));
    let r = j_object(e);
    proof {
        let p = previews_of(*record);
        assert(ie =~= seq![
            ("id"@, Jv::Str(or_empty(record_id_of(*record)))),
            ("restype"@, Jv::Str(restype_of(*record))),
            ("name"@, Jv::Str(or_empty(record_text(*record, name_keys())))),
            ("description"@, Jv::Str(or_empty(record_text(*record, description_keys())))),
            ("preview"@, Jv::Arr(url_docs(p))),
            ("icon"@, Jv::Str(first_or_empty(p))),
            ("cover"@, Jv::Str(first_or_empty(p))),
            ("paid_type"@, jopt_text(qw_paid_type(*record))),
            ("category"@, jopt_text(record_text(*record, seq!["categoryName"@]))),
            ("author"@, qw_authors_doc(*record)),
        ]);
        assert(jv_entries(e@) =~= match qw_manifest_doc(*record, versions@, config@) {
            Jv::Obj(s) => s,
            _ => jv_entries(e@),
        });
    }
    r
}

} // verus!
