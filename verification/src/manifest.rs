//! The JSON documents the community provider hands to the host: index
//! entries, full manifests and download payloads.
use vstd::prelude::*;
use crate::text::{trim, trim_chars, string_from_chars, chars_of, chars_eq};
use crate::numbers::{int_text, i64_to_text};
use crate::json::{
    JsonValue, Jv, jv, jv_items, jv_entries, jnum, jopt_int, jopt_text, j_str, j_i64, j_u64,
    j_opt_i64, j_opt_str, put, push_item, j_object, j_array,
};
use crate::config::{ov, pair_views};
use crate::codec::{base64_standard, base64_encode};
use crate::catalog::{WatchfaceItem, u_or_zero, i_or_zero};
use crate::tags::{TagInfo, tvs, tag_name, tag_name_for};
use crate::faces::{
    display_name, paid_type, supported_item, mitan_url, download_file_name, build_display_name,
    resolve_paid_type, is_supported_watchface_item, build_mitan_url, build_download_file_name,
};

verus! {

pub open spec fn provider_name() -> Seq<char> {
    "givemefive-community"@
}

pub open spec fn empty_text() -> Seq<char> {
    Seq::<char>::empty()
}

pub proof fn lemma_empty_literal()
    ensures
        ""@ == empty_text(),
{
    reveal_strlit("");
    assert(""@ =~= empty_text());
}

pub open spec fn text_or_empty(o: Option<String>) -> Seq<char> {
    match o {
        Some(s) => s@,
        None => empty_text(),
    }
}

/// `build_authors`: one author, the trimmed nickname, when it is not blank.
pub open spec fn authors_doc(nick: Option<Seq<char>>) -> Jv {
    match nick {
        Some(n) => if trim(n).len() > 0 {
            Jv::Arr(seq![Jv::Obj(seq![("name"@, Jv::Str(trim(n))), ("bindABAccount"@, Jv::Bool(false))])])
        } else {
            Jv::Arr(seq![])
        },
        None => Jv::Arr(seq![]),
    }
}

pub fn build_authors(nickname: Option<&str>) -> (r: JsonValue)
    ensures
        jv(r) == authors_doc(match nickname { Some(s) => Some(s@), None => None }),
{
    let mut items: Vec<JsonValue> = Vec::new();
    match nickname {
        Some(n) => {
            let t = trim_chars(n);
            if t.len() > 0 {
                let mut e: Vec<(String, JsonValue)> = Vec::new();
                put(&mut e, "name", JsonValue::Str(string_from_chars(t.as_slice())));
                put(&mut e, "bindABAccount", JsonValue::Bool(false));
                let ghost inner = jv_entries(e@);
                proof {
                    assert(inner =~= seq![("name"@, Jv::Str(trim(n@))), ("bindABAccount"@, Jv::Bool(false))]);
                }
                push_item(&mut items, j_object(e));
                proof {
                    assert(jv_items(items@) =~= seq![Jv::Obj(inner)]);
                }
            }
        },
        None => {},
    }
    proof {
        assert(jv_items(items@) =~= match authors_doc(match nickname { Some(s) => Some(s@), None => None }) {
            Jv::Arr(t) => t,
            _ => jv_items(items@),
        });
    }
    j_array(items)
}

/// The name of the face's tag, `全部` when the map has none.
pub open spec fn tag_name_or_all(tags: Seq<(i64, Seq<char>)>, id: i64) -> Seq<char> {
    match tag_name(tags, id) {
        Some(n) => n,
        None => "全部"@,
    }
}

fn tag_name_or_all_text(tags: &[TagInfo], id: i64) -> (r: String)
    ensures
        r@ == tag_name_or_all(tvs(tags@), id),
{
    match tag_name_for(tags, id) {
        Some(n) => n,
        None => String::from_str("全部"),
    }
}

/// `build_index_ext`.
pub open spec fn index_ext_doc(it: WatchfaceItem, tags: Seq<(i64, Seq<char>)>) -> Jv {
    Jv::Obj(
        seq![
            ("provider"@, Jv::Str(provider_name())),
            ("sourceId"@, jnum(it.id as int)),
            ("deviceType"@, jopt_text(ov(it.device_type))),
            ("tagId"@, jopt_int(it.is_tag)),
            ("tagName"@, Jv::Str(tag_name_or_all(tags, match it.is_tag { Some(t) => t, None => 9999 }))),
            ("downloads"@, jnum(u_or_zero(it.download_times))),
            ("views"@, jnum(u_or_zero(it.views))),
            ("filesize"@, jnum(u_or_zero(it.filesize))),
            ("rawUpdatedAt"@, jopt_int(it.updated_at)),
            ("rawCreatedAt"@, jopt_int(it.created_at)),
        ],
    )
}

fn opt_str_ref(o: &Option<String>) -> (r: Option<&str>)
    ensures
        match r { Some(s) => Some(s@), None => None } == ov(*o),
{
    match o {
        Some(s) => Some(s.as_str()),
        None => None,
    }
}

pub fn build_index_ext(it: &WatchfaceItem, tags: &[TagInfo]) -> (r: JsonValue)
    ensures
        jv(r) == index_ext_doc(*it, tvs(tags@)),
{
    let tag = match it.is_tag {
        Some(t) => t,
        None => 9999,
    };
    let mut e: Vec<(String, JsonValue)> = Vec::new();
    put(&mut e, "provider", j_str("givemefive-community"));
    put(&mut e, "sourceId", j_i64(it.id));
    put(&mut e, "deviceType", j_opt_str(opt_str_ref(&it.device_type)));
    put(&mut e, "tagId", j_opt_i64(it.is_tag));
    put(&mut e, "tagName", JsonValue::Str(tag_name_or_all_text(tags, tag)));
    put(&mut e, "downloads", j_u64(match it.download_times { Some(v) => v, None => 0 }));
    put(&mut e, "views", j_u64(match it.views { Some(v) => v, None => 0 }));
    put(&mut e, "filesize", j_u64(match it.filesize { Some(v) => v, None => 0 }));
    put(&mut e, "rawUpdatedAt", j_opt_i64(it.updated_at));
    put(&mut e, "rawCreatedAt", j_opt_i64(it.created_at));
    let r = j_object(e);
    proof {
        assert(jv_entries(e@) =~= match index_ext_doc(*it, tvs(tags@)) {
            Jv::Obj(s) => s,
            _ => jv_entries(e@),
        });
    }
    r
}

/// The listed preview address, or empty.
pub open spec fn preview_text(it: WatchfaceItem) -> Seq<char> {
    text_or_empty(it.preview)
}

/// `build_manifest_item`: an index entry.
pub open spec fn index_item_doc(
    it: WatchfaceItem,
    tags: Seq<(i64, Seq<char>)>,
    names: Seq<(Seq<char>, Seq<char>)>,
) -> Jv {
    let p = preview_text(it);
    Jv::Obj(
        seq![
            ("id"@, Jv::Str(int_text(it.id as int))),
            ("name"@, Jv::Str(display_name(it, names))),
            ("description"@, Jv::Str(empty_text())),
            ("preview"@, Jv::Arr(if trim(p).len() == 0 { seq![] } else { seq![Jv::Str(p)] })),
            ("icon"@, Jv::Str(p)),
            ("cover"@, Jv::Str(p)),
            ("paid_type"@, jopt_text(paid_type(it))),
            ("restype"@, Jv::Str("watchface"@)),
            ("author"@, authors_doc(ov(it.nickname))),
            ("ext"@, index_ext_doc(it, tags)),
        ],
    )
}

fn preview_string(it: &WatchfaceItem) -> (r: String)
    ensures
        r@ == preview_text(*it),
{
    proof {
        lemma_empty_literal();
    }
    match &it.preview {
        Some(p) => p.clone(),
        None => String::from_str(""),
    }
}

pub fn build_manifest_item(it: &WatchfaceItem, tags: &[TagInfo], names: &[(String, String)]) -> (r: JsonValue)
    ensures
        jv(r) == index_item_doc(*it, tvs(tags@), pair_views(names@)),
{
    proof {
        lemma_empty_literal();
    }
    let p = preview_string(it);
    let mut previews: Vec<JsonValue> = Vec::new();
    if trim_chars(p.as_str()).len() > 0 {
        push_item(&mut previews, JsonValue::Str(p.clone()));
    }
    let mut e: Vec<(String, JsonValue)> = Vec::new();
    put(&mut e, "id", JsonValue::Str(i64_to_text(it.id)));
    put(&mut e, "name", JsonValue::Str(build_display_name(it, names)));
    put(&mut e, "description", j_str(""));
    put(&mut e, "preview", j_array(previews));
    put(&mut e, "icon", JsonValue::Str(p.clone()));
    put(&mut e, "cover", JsonValue::Str(p));
    put(&mut e, "paid_type", j_opt_str(resolve_paid_type(it)));
    put(&mut e, "restype", j_str("watchface"));
    put(&mut e, "author", build_authors(opt_str_ref(&it.nickname)));
    put(&mut e, "ext", build_index_ext(it, tags));
    let r = j_object(e);
    proof {
        let doc = index_item_doc(*it, tvs(tags@), pair_views(names@));
        assert(jv_items(previews@) =~= (if trim(preview_text(*it)).len() == 0 {
            seq![]
        } else {
            seq![Jv::Str(preview_text(*it))]
        }));
        assert(jv_entries(e@) =~= match doc {
            Jv::Obj(s) => s,
            _ => jv_entries(e@),
        });
    }
    r
}

/// The index entries of the faces that are offered, in order.
pub open spec fn index_items_doc(
    items: Seq<WatchfaceItem>,
    tags: Seq<(i64, Seq<char>)>,
    names: Seq<(Seq<char>, Seq<char>)>,
) -> Seq<Jv>
    decreases items.len(),
{
    if items.len() == 0 {
        seq![]
    } else {
        let r = index_items_doc(items.drop_last(), tags, names);
        if supported_item(items.last()) {
            r.push(index_item_doc(items.last(), tags, names))
        } else {
            r
        }
    }
}

/// The index entries of fetched faces: an entry for each face of a
/// supported model.
pub fn build_index_items(items: &[WatchfaceItem], tags: &[TagInfo], names: &[(String, String)]) -> (r: Vec<JsonValue>)
    ensures
        jv_items(r@) == index_items_doc(items@, tvs(tags@), pair_views(names@)),
{
    let mut out: Vec<JsonValue> = Vec::new();
    let mut i: usize = 0;
    while i < items.len()
        invariant
            i <= items@.len(),
            jv_items(out@) == index_items_doc(items@.subrange(0, i as int), tvs(tags@), pair_views(names@)),
        decreases items@.len() - i,
    {
        proof {
            let s = items@.subrange(0, i + 1);
            assert(s.drop_last() =~= items@.subrange(0, i as int));
            assert(s.last() == items@[i as int]);
        }
        if is_supported_watchface_item(&items[i]) {
            push_item(&mut out, build_manifest_item(&items[i], tags, names));
        }
        i = i + 1;
    }
    proof {
        assert(items@.subrange(0, items@.len() as int) =~= items@);
    }
    out
}

// ----------------------------------------------------------------------------
// The full manifest.
/// A preview kept when it is not blank and not yet listed.
pub open spec fn add_preview(list: Seq<Seq<char>>, p: Option<Seq<char>>) -> Seq<Seq<char>> {
    match p {
        Some(v) => if trim(v).len() > 0 && !list.contains(v) {
            list.push(v)
        } else {
            list
        },
        None => list,
    }
}

/// The manifest's previews: the main one, the always-on-display one, and the
/// separately fetched always-on-display one, each when present, not blank
/// and new.
pub open spec fn manifest_previews(it: WatchfaceItem, aod: Option<Seq<char>>) -> Seq<Seq<char>> {
    add_preview(add_preview(add_preview(seq![], ov(it.preview)), ov(it.preview_aod)), aod)
}

pub open spec fn str_docs(s: Seq<Seq<char>>) -> Seq<Jv> {
    s.map_values(|t: Seq<char>| Jv::Str(t))
}

pub open spec fn first_or_empty(s: Seq<Seq<char>>) -> Seq<char> {
    if s.len() > 0 {
        s[0]
    } else {
        empty_text()
    }
}

/// The `item` part of a manifest.
pub open spec fn manifest_item_doc(
    it: WatchfaceItem,
    names: Seq<(Seq<char>, Seq<char>)>,
    previews: Seq<Seq<char>>,
) -> Jv {
    Jv::Obj(
        seq![
            ("id"@, Jv::Str(int_text(it.id as int))),
            ("restype"@, Jv::Str("watchface"@)),
            ("name"@, Jv::Str(display_name(it, names))),
            ("description"@, Jv::Str(text_or_empty(it.desc))),
            ("preview"@, Jv::Arr(str_docs(previews))),
            ("icon"@, Jv::Str(first_or_empty(previews))),
            ("cover"@, Jv::Str(first_or_empty(previews))),
            ("paid_type"@, jopt_text(paid_type(it))),
            ("author"@, authors_doc(ov(it.nickname))),
        ],
    )
}

/// The model the download is for: the face's model, `mi7` when none.
pub open spec fn download_model(it: WatchfaceItem) -> Seq<char> {
    match it.device_type {
        Some(t) => t@,
        None => "mi7"@,
    }
}

/// The `downloads` part: one entry, under the model.
pub open spec fn manifest_downloads_doc(it: WatchfaceItem) -> Jv {
    Jv::Obj(
        seq![
            (
                download_model(it),
                Jv::Obj(
                    seq![
                        ("version"@, Jv::Str(int_text(i_or_zero(it.updated_at)))),
                        ("file_name"@, Jv::Str(download_file_name(it, empty_text()))),
                    ],
                ),
            ),
        ],
    )
}

/// The `links` part: the forum page, when there is one.
pub open spec fn manifest_links_doc(it: WatchfaceItem) -> Jv {
    match mitan_url(it) {
        Some(u) => Jv::Arr(
            seq![Jv::Obj(seq![("title"@, Jv::Str("米坛帖子"@)), ("url"@, Jv::Str(u)), ("icon"@, Jv::Str("forum"@))])],
        ),
        None => Jv::Arr(seq![]),
    }
}

/// The tag name of a full manifest: the map's name of the face's tag, `全部`
/// when the face has none or the map does not know it.
pub open spec fn manifest_tag_name(it: WatchfaceItem, tags: Seq<(i64, Seq<char>)>) -> Seq<char> {
    match it.is_tag {
        Some(t) => tag_name_or_all(tags, t),
        None => "全部"@,
    }
}

/// The `ext` part of a manifest.
pub open spec fn manifest_ext_doc(it: WatchfaceItem, tags: Seq<(i64, Seq<char>)>) -> Jv {
    Jv::Obj(
        seq![
            ("provider"@, Jv::Str(provider_name())),
            (
                "community"@,
                Jv::Obj(
                    seq![
                        ("id"@, jnum(it.id as int)),
                        ("deviceType"@, jopt_text(ov(it.device_type))),
                        ("tagId"@, jopt_int(it.is_tag)),
                        ("tagName"@, Jv::Str(manifest_tag_name(it, tags))),
                        ("downloads"@, jnum(u_or_zero(it.download_times))),
                        ("views"@, jnum(u_or_zero(it.views))),
                        ("filesize"@, jnum(u_or_zero(it.filesize))),
                        ("createdAt"@, jopt_int(it.created_at)),
                        ("updatedAt"@, jopt_int(it.updated_at)),
                        ("isRecommend"@, Jv::Bool(i_or_zero(it.is_recommend) == 1)),
                        ("donation"@, Jv::Str(text_or_empty(it.donation))),
                    ],
                ),
            ),
        ],
    )
}

/// `build_manifest`: the full manifest of a face.
pub open spec fn manifest_doc(
    it: WatchfaceItem,
    tags: Seq<(i64, Seq<char>)>,
    names: Seq<(Seq<char>, Seq<char>)>,
    aod: Option<Seq<char>>,
) -> Jv {
    Jv::Obj(
        seq![
            ("item"@, manifest_item_doc(it, names, manifest_previews(it, aod))),
            ("downloads"@, manifest_downloads_doc(it)),
            ("links"@, manifest_links_doc(it)),
            ("ext"@, manifest_ext_doc(it, tags)),
        ],
    )
}

fn add_preview_exec(list: &mut Vec<String>, p: Option<&str>)
    ensures
        final(list)@.map_values(|s: String| s@) == add_preview(
            old(list)@.map_values(|s: String| s@),
            match p { Some(s) => Some(s@), None => None },
        ),
{
    match p {
        Some(v) => {
            if trim_chars(v).len() == 0 {
                return;
            }
            let ghost acc = list@.map_values(|s: String| s@);
            let vc = chars_of(v);
            let mut j: usize = 0;
            while j < list.len()
                invariant
                    j <= list@.len(),
                    acc == list@.map_values(|s: String| s@),
                    vc@ == v@,
                    trim(v@).len() > 0,
                    match p { Some(x) => x@ == v@, None => false },
                    forall|k: int| 0 <= k < j ==> acc[k] != v@,
                decreases list@.len() - j,
            {
                let c = chars_of(list[j].as_str());
                if chars_eq(c.as_slice(), vc.as_slice()) {
                    proof {
                        assert(acc[j as int] == v@);
                    }
                    return;
                }
                j = j + 1;
            }
            list.push(String::from_str(v));
            proof {
                assert(list@.map_values(|s: String| s@) =~= acc.push(v@));
            }
        },
        None => {},
    }
}

fn str_items(list: &Vec<String>) -> (r: Vec<JsonValue>)
    ensures
        jv_items(r@) == str_docs(list@.map_values(|s: String| s@)),
{
    let mut out: Vec<JsonValue> = Vec::new();
    let mut i: usize = 0;
    while i < list.len()
        invariant
            i <= list@.len(),
            jv_items(out@) == str_docs(list@.subrange(0, i as int).map_values(|s: String| s@)),
        decreases list@.len() - i,
    {
        push_item(&mut out, JsonValue::Str(list[i].clone()));
        proof {
            assert(str_docs(list@.subrange(0, i + 1).map_values(|s: String| s@)) =~= str_docs(
                list@.subrange(0, i as int).map_values(|s: String| s@),
            ).push(Jv::Str(list@[i as int]@)));
        }
        i = i + 1;
    }
    proof {
        assert(list@.subrange(0, list@.len() as int) =~= list@);
    }
    out
}

fn build_manifest_item_part(
    it: &WatchfaceItem,
    names: &[(String, String)],
    previews: &Vec<String>,
) -> (r: JsonValue)
    ensures
        jv(r) == manifest_item_doc(*it, pair_views(names@), previews@.map_values(|s: String| s@)),
{
    let ghost pv = previews@.map_values(|s: String| s@);
    let first = if previews.len() > 0 {
        previews[0].clone()
    } else {
        String::from_str("")
    };
    proof {
        lemma_empty_literal();
        assert(first@ == first_or_empty(pv));
    }
    let desc = match &it.desc {
        Some(d) => d.clone(),
        None => String::from_str(""),
    };
    let mut e: Vec<(String, JsonValue)> = Vec::new();
    put(&mut e, "id", JsonValue::Str(i64_to_text(it.id)));
    put(&mut e, "restype", j_str("watchface"));
    put(&mut e, "name", JsonValue::Str(build_display_name(it, names)));
    put(&mut e, "description", JsonValue::Str(desc));
    put(&mut e, "preview", j_array(str_items(previews)));
    put(&mut e, "icon", JsonValue::Str(first.clone()));
    put(&mut e, "cover", JsonValue::Str(first));
    put(&mut e, "paid_type", j_opt_str(resolve_paid_type(it)));
    put(&mut e, "author", build_authors(opt_str_ref(&it.nickname)));
    let r = j_object(e);
    proof {
        assert(jv_entries(e@) =~= match manifest_item_doc(*it, pair_views(names@), pv) {
            Jv::Obj(s) => s,
            _ => jv_entries(e@),
        });
    }
    r
}

fn build_manifest_downloads(it: &WatchfaceItem) -> (r: JsonValue)
    ensures
        jv(r) == manifest_downloads_doc(*it),
{
    proof {
        lemma_empty_literal();
    }
    let model = match &it.device_type {
        Some(t) => t.as_str(),
        None => "mi7",
    };
    let mut inner: Vec<(String, JsonValue)> = Vec::new();
    put(&mut inner, "version", JsonValue::Str(i64_to_text(match it.updated_at { Some(v) => v, None => 0 })));
    put(&mut inner, "file_name", JsonValue::Str(build_download_file_name(it, "")));
    let ghost iv = jv_entries(inner@);
    proof {
        assert(iv =~= seq![
            ("version"@, Jv::Str(int_text(i_or_zero(it.updated_at)))),
            ("file_name"@, Jv::Str(download_file_name(*it, empty_text()))),
        ]);
    }
    let mut e: Vec<(String, JsonValue)> = Vec::new();
    put(&mut e, model, j_object(inner));
    let r = j_object(e);
    proof {
        assert(jv_entries(e@) =~= match manifest_downloads_doc(*it) {
            Jv::Obj(s) => s,
            _ => jv_entries(e@),
        });
    }
    r
}

fn build_manifest_links(it: &WatchfaceItem) -> (r: JsonValue)
    ensures
        jv(r) == manifest_links_doc(*it),
{
    let mut items: Vec<JsonValue> = Vec::new();
    match build_mitan_url(it) {
        Some(u) => {
            let mut e: Vec<(String, JsonValue)> = Vec::new();
            put(&mut e, "title", j_str("米坛帖子"));
            put(&mut e, "url", JsonValue::Str(u));
            put(&mut e, "icon", j_str("forum"));
            let ghost inner = jv_entries(e@);
            proof {
                assert(inner =~= seq![("title"@, Jv::Str("米坛帖子"@)), ("url"@, Jv::Str(mitan_url(*it)->0)), ("icon"@, Jv::Str("forum"@))]);
            }
            push_item(&mut items, j_object(e));
            proof {
                assert(jv_items(items@) =~= seq![Jv::Obj(inner)]);
            }
        },
        None => {},
    }
    let r = j_array(items);
    proof {
        assert(jv_items(items@) =~= match manifest_links_doc(*it) {
            Jv::Arr(s) => s,
            _ => jv_items(items@),
        });
    }
    r
}

fn build_manifest_ext(it: &WatchfaceItem, tags: &[TagInfo]) -> (r: JsonValue)
    ensures
        jv(r) == manifest_ext_doc(*it, tvs(tags@)),
{
    proof {
        lemma_empty_literal();
    }
    let tag_name = match it.is_tag {
        Some(t) => tag_name_or_all_text(tags, t),
        None => String::from_str("全部"),
    };
    let donation = match &it.donation {
        Some(d) => d.clone(),
        None => String::from_str(""),
    };
    let recommend = match it.is_recommend {
        Some(v) => v == 1,
        None => false,
    };
    let mut c: Vec<(String, JsonValue)> = Vec::new();
    put(&mut c, "id", j_i64(it.id));
    put(&mut c, "deviceType", j_opt_str(opt_str_ref(&it.device_type)));
    put(&mut c, "tagId", j_opt_i64(it.is_tag));
    put(&mut c, "tagName", JsonValue::Str(tag_name));
    put(&mut c, "downloads", j_u64(match it.download_times { Some(v) => v, None => 0 }));
    put(&mut c, "views", j_u64(match it.views { Some(v) => v, None => 0 }));
    put(&mut c, "filesize", j_u64(match it.filesize { Some(v) => v, None => 0 }));
    put(&mut c, "createdAt", j_opt_i64(it.created_at));
    put(&mut c, "updatedAt", j_opt_i64(it.updated_at));
    put(&mut c, "isRecommend", JsonValue::Bool(recommend));
    put(&mut c, "donation", JsonValue::Str(donation));
    let ghost cs = jv_entries(c@);
    let mut e: Vec<(String, JsonValue)> = Vec::new();
    put(&mut e, "provider", j_str("givemefive-community"));
    put(&mut e, "community", j_object(c));
    let r = j_object(e);
    proof {
        let doc = manifest_ext_doc(*it, tvs(tags@));
        match doc {
            Jv::Obj(s) => {
                match s[1].1 {
                    Jv::Obj(inner) => {
                        assert(cs =~= inner);
                    },
                    _ => {},
                }
                assert(jv_entries(e@) =~= s);
            },
            _ => {},
        }
    }
    r
}

/// `build_manifest`: the full manifest of a face; `aod_preview` is the
/// always-on-display preview fetched on its own, if any.
pub fn build_manifest(
    it: &WatchfaceItem,
    tags: &[TagInfo],
    names: &[(String, String)],
    aod_preview: Option<String>,
) -> (r: JsonValue)
    ensures
        jv(r) == manifest_doc(*it, tvs(tags@), pair_views(names@), ov(aod_preview)),
{
    let mut previews: Vec<String> = Vec::new();
    proof {
        assert(previews@.map_values(|s: String| s@) =~= Seq::<Seq<char>>::empty());
    }
    add_preview_exec(&mut previews, opt_str_ref(&it.preview));
    add_preview_exec(&mut previews, opt_str_ref(&it.preview_aod));
    add_preview_exec(&mut previews, opt_str_ref(&aod_preview));
    let mut e: Vec<(String, JsonValue)> = Vec::new();
    put(&mut e, "item", build_manifest_item_part(it, names, &previews));
    put(&mut e, "downloads", build_manifest_downloads(it));
    put(&mut e, "links", build_manifest_links(it));
    put(&mut e, "ext", build_manifest_ext(it, tags));
    let r = j_object(e);
    proof {
        assert(jv_entries(e@) =~= match manifest_doc(*it, tvs(tags@), pair_views(names@), ov(aod_preview)) {
            Jv::Obj(s) => s,
            _ => jv_entries(e@),
        });
    }
    r
}

/// The payload a download answers with: the file name and the Base64 of the bytes.
pub open spec fn download_payload_doc(it: WatchfaceItem, url: Seq<char>, bytes: Seq<u8>) -> Jv {
    Jv::Obj(
        seq![
            ("kind"@, Jv::Str("base64"@)),
            ("fileName"@, Jv::Str(download_file_name(it, url))),
            ("data"@, Jv::Str(base64_standard(bytes))),
        ],
    )
}

/// The payload of a face's download once the file's bytes are in.
pub fn build_download_payload(it: &WatchfaceItem, download_url: &str, bytes: &[u8]) -> (r: JsonValue)
    ensures
        jv(r) == download_payload_doc(*it, download_url@, bytes@),
{
    let mut e: Vec<(String, JsonValue)> = Vec::new();
    put(&mut e, "kind", j_str("base64"));
    put(&mut e, "fileName", JsonValue::Str(build_download_file_name(it, download_url)));
    put(&mut e, "data", JsonValue::Str(base64_encode(bytes)));
    let r = j_object(e);
    proof {
        assert(jv_entries(e@) =~= match download_payload_doc(*it, download_url@, bytes@) {
            Jv::Obj(s) => s,
            _ => jv_entries(e@),
        });
    }
    r
}

} // verus!
