//! How a watch face is named and linked: the model-name map, display names,
//! forum links, paid marks, preview addresses and download file names.
use vstd::prelude::*;
use vstd::utf8::encode_utf8;
use crate::text::{
    trim, lower, starts_with, is_ascii_alnum, chars_of, chars_eq, trim_chars, lower_chars,
    string_from_chars, str_eq, str_starts_with, concat_str, concat_chars,
};
use crate::numbers::{int_text, i64_to_text};
use crate::codec::{pct_decode, percent_decode};
use crate::config::{last_value, last_pair_value, pair_views};
use crate::devices::{
    DeviceInfo, dvs, fallback_devices, hidden_model, hidden_name, fallback_device_list,
    is_hidden_device_model, is_hidden_device_name,
};
use crate::catalog::WatchfaceItem;
use crate::api::api_base;

verus! {

// ----------------------------------------------------------------------------
// Model names.
/// (lower-case model, name) for each listed device whose trimmed model and
/// name are both non-empty, in order.
pub open spec fn listed_names(d: Seq<(Seq<char>, Seq<char>)>) -> Seq<(Seq<char>, Seq<char>)>
    decreases d.len(),
{
    if d.len() == 0 {
        seq![]
    } else {
        let r = listed_names(d.drop_last());
        let m = trim(d.last().0);
        let n = trim(d.last().1);
        if m.len() > 0 && n.len() > 0 {
            r.push((lower(m), n))
        } else {
            r
        }
    }
}

/// Each supported fallback device added when its model has no name yet.
pub open spec fn with_fallback_names(
    p: Seq<(Seq<char>, Seq<char>)>,
    f: Seq<(Seq<char>, Seq<char>)>,
) -> Seq<(Seq<char>, Seq<char>)>
    decreases f.len(),
{
    if f.len() == 0 {
        p
    } else {
        let r = with_fallback_names(p, f.drop_last());
        let m = f.last().0;
        let n = f.last().1;
        if !hidden_model(m) && !hidden_name(n) && last_value(r, lower(m)) is None {
            r.push((lower(m), n))
        } else {
            r
        }
    }
}

/// `build_device_name_map` as (key, name) pairs: a later pair with the same
/// key overrides an earlier one, as inserting into the map does.
pub open spec fn device_name_pairs(d: Seq<(Seq<char>, Seq<char>)>) -> Seq<(Seq<char>, Seq<char>)> {
    with_fallback_names(listed_names(d), fallback_devices())
}

/// The model-name map of a device list, as (lower-case model, name) pairs
/// read last-wins.
pub fn build_device_name_map(devices: &[DeviceInfo]) -> (r: Vec<(String, String)>)
    ensures
        pair_views(r@) == device_name_pairs(dvs(devices@)),
{
    let mut out: Vec<(String, String)> = Vec::new();
    let mut i: usize = 0;
    while i < devices.len()
        invariant
            i <= devices@.len(),
            pair_views(out@) == listed_names(dvs(devices@.subrange(0, i as int))),
        decreases devices@.len() - i,
    {
        proof {
            let s = dvs(devices@.subrange(0, i + 1));
            assert(s.drop_last() =~= dvs(devices@.subrange(0, i as int)));
            assert(s.last() == (devices@[i as int].model@, devices@[i as int].name@));
        }
        let m = trim_chars(devices[i].model.as_str());
        let n = trim_chars(devices[i].name.as_str());
        if m.len() > 0 && n.len() > 0 {
            let ghost before = pair_views(out@);
            let key = lower_chars(m.as_slice());
            out.push((string_from_chars(key.as_slice()), string_from_chars(n.as_slice())));
            proof {
                assert(pair_views(out@) =~= before.push((lower(m@), n@)));
            }
        }
        i = i + 1;
    }
    proof {
        assert(devices@.subrange(0, devices@.len() as int) =~= devices@);
    }
    let ghost listed = pair_views(out@);
    let fallback = fallback_device_list();
    let mut k: usize = 0;
    while k < fallback.len()
        invariant
            k <= fallback@.len(),
            dvs(fallback@) == fallback_devices(),
            pair_views(out@) == with_fallback_names(listed, fallback_devices().subrange(0, k as int)),
        decreases fallback@.len() - k,
    {
        proof {
            let f = fallback_devices().subrange(0, k + 1);
            assert(f.drop_last() =~= fallback_devices().subrange(0, k as int));
            assert(f.last() == (fallback@[k as int].model@, fallback@[k as int].name@));
        }
        let m = fallback[k].model.as_str();
        let n = fallback[k].name.as_str();
        if !is_hidden_device_model(m) && !is_hidden_device_name(n) {
            let key = string_from_chars(lower_chars(chars_of(m).as_slice()).as_slice());
            if last_pair_value(out.as_slice(), key.as_str()).is_none() {
                let ghost before = pair_views(out@);
                out.push((key, String::from_str(n)));
                proof {
                    assert(pair_views(out@) =~= before.push((lower(m@), n@)));
                }
            }
        }
        k = k + 1;
    }
    proof {
        assert(fallback_devices().subrange(0, fallback@.len() as int) =~= fallback_devices());
    }
    out
}

/// The model a face is for: its trimmed model, `mi7` when it names none.
pub open spec fn item_model(it: WatchfaceItem) -> Seq<char> {
    match it.device_type {
        Some(s) => if trim(s@).len() > 0 {
            trim(s@)
        } else {
            "mi7"@
        },
        None => "mi7"@,
    }
}

/// `resolve_device_display_name`: the name the map gives the model, or the model itself.
pub open spec fn device_display_name(it: WatchfaceItem, names: Seq<(Seq<char>, Seq<char>)>) -> Seq<char> {
    match last_value(names, lower(item_model(it))) {
        Some(n) => n,
        None => item_model(it),
    }
}

/// `build_display_name`: the trimmed name with the device name in full-width brackets.
pub open spec fn display_name(it: WatchfaceItem, names: Seq<(Seq<char>, Seq<char>)>) -> Seq<char> {
    trim(it.name@) + "（"@ + device_display_name(it, names) + "）"@
}

pub fn item_model_text(it: &WatchfaceItem) -> (r: String)
    ensures
        r@ == item_model(*it),
{
    match &it.device_type {
        Some(s) => {
            let t = trim_chars(s.as_str());
            if t.len() > 0 {
                string_from_chars(t.as_slice())
            } else {
                String::from_str("mi7")
            }
        },
        None => String::from_str("mi7"),
    }
}

pub fn resolve_device_display_name(it: &WatchfaceItem, names: &[(String, String)]) -> (r: String)
    ensures
        r@ == device_display_name(*it, pair_views(names@)),
{
    let model = item_model_text(it);
    let key = string_from_chars(lower_chars(chars_of(model.as_str()).as_slice()).as_slice());
    match last_pair_value(names, key.as_str()) {
        Some(n) => n.clone(),
        None => model,
    }
}

pub fn build_display_name(it: &WatchfaceItem, names: &[(String, String)]) -> (r: String)
    ensures
        r@ == display_name(*it, pair_views(names@)),
{
    let name = string_from_chars(trim_chars(it.name.as_str()).as_slice());
    let device = resolve_device_display_name(it, names);
    let a = concat_str(name.as_str(), "（");
    let b = concat_str(a.as_str(), device.as_str());
    let r = concat_str(b.as_str(), "）");
    proof {
        assert(r@ =~= display_name(*it, pair_views(names@)));
    }
    r
}

// ----------------------------------------------------------------------------
// Marks and links.
/// `resolve_paid_type`: donation `2` is force-paid, `1` paid, anything else free.
pub open spec fn paid_type(it: WatchfaceItem) -> Option<Seq<char>> {
    match it.donation {
        Some(d) => if d@ == "2"@ {
            Some("force_paid"@)
        } else if d@ == "1"@ {
            Some("paid"@)
        } else {
            None
        },
        None => None,
    }
}

pub fn resolve_paid_type(it: &WatchfaceItem) -> (r: Option<&'static str>)
    ensures
        match r {
            Some(s) => paid_type(*it) == Some(s@),
            None => paid_type(*it) is None,
        },
{
    match &it.donation {
        Some(d) => if str_eq(d.as_str(), "2") {
            Some("force_paid")
        } else if str_eq(d.as_str(), "1") {
            Some("paid")
        } else {
            None
        },
        None => None,
    }
}

/// A face is offered unless it is for a hidden model.
pub open spec fn supported_item(it: WatchfaceItem) -> bool {
    match it.device_type {
        Some(t) => !hidden_model(t@),
        None => true,
    }
}

pub fn is_supported_watchface_item(it: &WatchfaceItem) -> (r: bool)
    ensures
        r == supported_item(*it),
{
    match &it.device_type {
        Some(t) => !is_hidden_device_model(t.as_str()),
        None => true,
    }
}

/// `ensure_supported_watchface_item`: the error names the face's model.
pub fn ensure_supported_watchface_item(it: &WatchfaceItem) -> (r: Result<(), String>)
    ensures
        r is Ok <==> supported_item(*it),
        r matches Err(e) ==> e@ == "unsupported device resource filtered: "@ + match it.device_type {
            Some(t) => t@,
            None => Seq::<char>::empty(),
        },
{
    if is_supported_watchface_item(it) {
        Ok(())
    } else {
        let t = match &it.device_type {
            Some(t) => t.as_str(),
            None => "",
        };
        proof {
            reveal_strlit("");
        }
        Err(concat_str("unsupported device resource filtered: ", t))
    }
}

/// `build_mitan_url`: the forum page of the face, a resource page when the
/// forum type starts with `r`, else a thread.
pub open spec fn mitan_url(it: WatchfaceItem) -> Option<Seq<char>> {
    match it.mitantid {
        Some(tid) => if trim(tid@).len() > 0 {
            let kind = match it.mitantype {
                Some(k) => k@,
                None => Seq::<char>::empty(),
            };
            if kind.len() > 0 && kind[0] == 'r' {
                Some("https://www.bandbbs.cn/resources/"@ + trim(tid@) + "/"@)
            } else {
                Some("https://www.bandbbs.cn/threads/"@ + trim(tid@) + "/"@)
            }
        } else {
            None
        },
        None => None,
    }
}

pub fn build_mitan_url(it: &WatchfaceItem) -> (r: Option<String>)
    ensures
        match r {
            Some(u) => mitan_url(*it) == Some(u@),
            None => mitan_url(*it) is None,
        },
{
    match &it.mitantid {
        Some(tid) => {
            let t = trim_chars(tid.as_str());
            if t.len() == 0 {
                return None;
            }
            let ts = string_from_chars(t.as_slice());
            let resource = match &it.mitantype {
                Some(k) => str_starts_with(k.as_str(), "r"),
                None => false,
            };
            proof {
                reveal_strlit("r");
                if it.mitantype is Some {
                    let k = it.mitantype->0;
                    if k@.len() > 0 && k@[0] == 'r' {
                        assert(k@.subrange(0, 1) =~= "r"@);
                    }
                    if starts_with(k@, "r"@) {
                        assert(k@.subrange(0, 1)[0] == k@[0]);
                    }
                }
            }
            let base = if resource {
                "https://www.bandbbs.cn/resources/"
            } else {
                "https://www.bandbbs.cn/threads/"
            };
            let a = concat_str(base, ts.as_str());
            Some(concat_str(a.as_str(), "/"))
        },
        None => None,
    }
}

// ----------------------------------------------------------------------------
// Previews.
/// `normalize_preview_reference`: an absolute address is kept, a
/// `watchface/` path is put under the API base, and a bare file name under
/// the preview-image path; blank is empty.
pub open spec fn preview_reference(value: Option<Seq<char>>) -> Seq<char> {
    match value {
        Some(v) => {
            let t = trim(v);
            if t.len() == 0 {
                Seq::<char>::empty()
            } else if starts_with(t, "http://"@) || starts_with(t, "https://"@) {
                t
            } else if starts_with(t, "watchface/"@) {
                api_base() + t
            } else {
                api_base() + "watchface/getPreviewImgMi7/"@ + t
            }
        },
        None => Seq::<char>::empty(),
    }
}

pub fn normalize_preview_reference(value: Option<&str>) -> (r: String)
    ensures
        r@ == preview_reference(match value { Some(s) => Some(s@), None => None }),
{
    proof {
        reveal_strlit("");
    }
    match value {
        Some(v) => {
            let tc = trim_chars(v);
            let t = string_from_chars(tc.as_slice());
            if tc.len() == 0 {
                String::from_str("")
            } else if str_starts_with(t.as_str(), "http://") || str_starts_with(
                t.as_str(),
                "https://",
            ) {
                t
            } else if str_starts_with(t.as_str(), "watchface/") {
                concat_str("https://www.mibandtool.club:9073/", t.as_str())
            } else {
                let r = concat_str(
                    "https://www.mibandtool.club:9073/watchface/getPreviewImgMi7/",
                    t.as_str(),
                );
                proof {
                    reveal_strlit("https://www.mibandtool.club:9073/watchface/getPreviewImgMi7/");
                    reveal_strlit("https://www.mibandtool.club:9073/");
                    reveal_strlit("watchface/getPreviewImgMi7/");
                    assert(r@ =~= api_base() + "watchface/getPreviewImgMi7/"@ + t@);
                }
                r
            }
        },
        None => String::from_str(""),
    }
}

/// `normalize_preview_option`: the normalized address, `None` when blank.
pub fn normalize_preview_option(value: Option<&str>) -> (r: Option<String>)
    ensures
        match r {
            Some(s) => s@ == preview_reference(match value { Some(v) => Some(v@), None => None })
                && s@.len() > 0,
            None => preview_reference(match value { Some(v) => Some(v@), None => None }).len() == 0,
        },
{
    let n = normalize_preview_reference(value);
    if n.unicode_len() == 0 {
        None
    } else {
        Some(n)
    }
}

// ----------------------------------------------------------------------------
// File names.
/// The text after the last `c` (all of it when there is none).
pub open spec fn after_last(s: Seq<char>, c: char) -> Seq<char>
    decreases s.len(),
{
    if s.len() == 0 {
        s
    } else if s.last() == c {
        Seq::<char>::empty()
    } else {
        after_last(s.drop_last(), c).push(s.last())
    }
}

/// The text before the first `c` (all of it when there is none).
pub open spec fn before_first(s: Seq<char>, c: char) -> Seq<char>
    decreases s.len(),
{
    if s.len() == 0 {
        s
    } else if s[0] == c {
        Seq::<char>::empty()
    } else {
        seq![s[0]] + before_first(s.drop_first(), c)
    }
}

pub fn after_last_char(s: &[char], c: char) -> (r: Vec<char>)
    ensures
        r@ == after_last(s@, c),
{
    let mut j: usize = s.len();
    proof {
        assert(s@.subrange(0, s@.len() as int) =~= s@);
        assert(s@ + s@.subrange(s@.len() as int, s@.len() as int) =~= s@);
    }
    while j > 0
        invariant
            j <= s@.len(),
            after_last(s@, c) == after_last(s@.subrange(0, j as int), c) + s@.subrange(
                j as int,
                s@.len() as int,
            ),
        decreases j,
    {
        let ghost p = s@.subrange(0, j as int);
        proof {
            assert(p.drop_last() =~= s@.subrange(0, j - 1));
            assert(p.last() == s@[j - 1]);
        }
        if s[j - 1] == c {
            let r = crate::text::slice_range(s, j, s.len());
            proof {
                assert(after_last(s@, c) =~= r@);
            }
            return r;
        }
        proof {
            assert(after_last(s@.subrange(0, j - 1), c).push(s@[j - 1]) + s@.subrange(
                j as int,
                s@.len() as int,
            ) =~= after_last(s@.subrange(0, j - 1), c) + s@.subrange(j - 1, s@.len() as int));
        }
        j = j - 1;
    }
    proof {
        assert(s@.subrange(0, 0) =~= Seq::<char>::empty());
        assert(after_last(s@, c) =~= s@);
    }
    crate::text::slice_range(s, 0, s.len())
}

pub fn before_first_char(s: &[char], c: char) -> (r: Vec<char>)
    ensures
        r@ == before_first(s@, c),
{
    let mut j: usize = 0;
    proof {
        assert(s@.skip(0) =~= s@);
    }
    while j < s.len()
        invariant
            j <= s@.len(),
            forall|k: int| 0 <= k < j ==> s@[k] != c,
            before_first(s@, c) == s@.subrange(0, j as int) + before_first(s@.skip(j as int), c),
        decreases s@.len() - j,
    {
        let ghost rest = s@.skip(j as int);
        proof {
            assert(rest[0] == s@[j as int]);
            assert(rest.drop_first() =~= s@.skip(j + 1));
        }
        if s[j] == c {
            let r = crate::text::slice_range(s, 0, j);
            proof {
                assert(before_first(s@, c) =~= r@);
            }
            return r;
        }
        proof {
            assert(s@.subrange(0, j as int) + (seq![s@[j as int]] + before_first(s@.skip(j + 1), c))
                =~= s@.subrange(0, j + 1) + before_first(s@.skip(j + 1), c));
        }
        j = j + 1;
    }
    proof {
        assert(s@.skip(j as int) =~= Seq::<char>::empty());
        assert(s@.subrange(0, j as int) =~= s@);
    }
    crate::text::slice_range(s, 0, s.len())
}

/// `guess_extension`: the part after the last `.` of the last path segment
/// of the percent-decoded address (query removed), if it is 1 to 8 ASCII
/// letters or digits. (The limit is on the length in bytes; for ASCII
/// letters and digits that is the length in characters, and any other
/// character is refused anyway.)
pub open spec fn guessed_extension(url: Seq<char>) -> Option<Seq<char>> {
    let decoded = pct_decode(encode_utf8(before_first(url, '?')));
    let cand = after_last(after_last(decoded, '/'), '.');
    if cand.len() == 0 || cand.len() > 8 || !(forall|i: int| 0 <= i < cand.len() ==> is_ascii_alnum(#[trigger] cand[i])) {
        None
    } else {
        Some(cand)
    }
}

pub fn guess_extension(url: &str) -> (r: Option<String>)
    ensures
        match r {
            Some(e) => guessed_extension(url@) == Some(e@),
            None => guessed_extension(url@) is None,
        },
{
    let path = string_from_chars(before_first_char(chars_of(url).as_slice(), '?').as_slice());
    let decoded = chars_of(percent_decode(path.as_str()).as_str());
    let seg = after_last_char(decoded.as_slice(), '/');
    let cand = after_last_char(seg.as_slice(), '.');
    assert(cand@ == after_last(after_last(pct_decode(encode_utf8(before_first(url@, '?'))), '/'), '.'));
    if cand.len() == 0 || cand.len() > 8 {
        return None;
    }
    let mut i: usize = 0;
    while i < cand.len()
        invariant
            i <= cand@.len(),
            cand@ == after_last(after_last(pct_decode(encode_utf8(before_first(url@, '?'))), '/'), '.'),
            forall|k: int| 0 <= k < i ==> is_ascii_alnum(#[trigger] cand@[k]),
        decreases cand@.len() - i,
    {
        let ch = cand[i];
        if !(('0' <= ch && ch <= '9') || ('a' <= ch && ch <= 'z') || ('A' <= ch && ch <= 'Z')) {
            proof {
                assert(!is_ascii_alnum(cand@[i as int]));
            }
            return None;
        }
        i = i + 1;
    }
    Some(string_from_chars(cand.as_slice()))
}

pub open spec fn sanitize_char(c: char) -> char {
    if is_ascii_alnum(c) || c == '-' || c == '_' || c == '.' {
        c
    } else {
        '_'
    }
}

/// `sanitize_ascii`: every character but ASCII letters, digits, `-`, `_`
/// and `.` becomes `_`.
pub open spec fn sanitized(s: Seq<char>) -> Seq<char> {
    s.map_values(|c: char| sanitize_char(c))
}

pub fn sanitize_ascii(value: &str) -> (r: String)
    ensures
        r@ == sanitized(value@),
{
    let v = chars_of(value);
    let mut out: Vec<char> = Vec::new();
    let mut i: usize = 0;
    while i < v.len()
        invariant
            i <= v@.len(),
            out@ == sanitized(v@.subrange(0, i as int)),
        decreases v@.len() - i,
    {
        let ch = v[i];
        let keep = ('0' <= ch && ch <= '9') || ('a' <= ch && ch <= 'z') || ('A' <= ch && ch <= 'Z')
            || ch == '-' || ch == '_' || ch == '.';
        out.push(if keep { ch } else { '_' });
        proof {
            assert(out@ =~= sanitized(v@.subrange(0, i + 1)));
        }
        i = i + 1;
    }
    proof {
        assert(v@.subrange(0, v@.len() as int) =~= v@);
    }
    string_from_chars(out.as_slice())
}

/// `build_download_file_name`: `givemefive-{id}-{model}.{extension}`, the
/// model as the face names it (`mi7` when none) made file-safe, the
/// extension guessed from the address or else `bin`.
pub open spec fn download_file_name(it: WatchfaceItem, url: Seq<char>) -> Seq<char> {
    let model = match it.device_type {
        Some(t) => t@,
        None => "mi7"@,
    };
    let ext = match guessed_extension(url) {
        Some(e) => e,
        None => "bin"@,
    };
    "givemefive-"@ + int_text(it.id as int) + "-"@ + sanitized(model) + "."@ + ext
}

pub fn build_download_file_name(it: &WatchfaceItem, url: &str) -> (r: String)
    ensures
        r@ == download_file_name(*it, url@),
{
    let ext = match guess_extension(url) {
        Some(e) => e,
        None => String::from_str("bin"),
    };
    let model = match &it.device_type {
        Some(t) => t.as_str(),
        None => "mi7",
    };
    let id = i64_to_text(it.id);
    let a = concat_str("givemefive-", id.as_str());
    let b = concat_str(a.as_str(), "-");
    let s = sanitize_ascii(model);
    let c = concat_str(b.as_str(), s.as_str());
    let d = concat_str(c.as_str(), ".");
    let r = concat_str(d.as_str(), ext.as_str());
    proof {
        assert(r@ =~= download_file_name(*it, url@));
    }
    r
}

/// `guess_image_mime`: the image type named by the file's extension, without case.
pub open spec fn image_mime(file_name: Seq<char>) -> Seq<char> {
    let e = lower(after_last(file_name, '.'));
    if e == "png"@ {
        "image/png"@
    } else if e == "jpg"@ || e == "jpeg"@ {
        "image/jpeg"@
    } else if e == "bmp"@ {
        "image/bmp"@
    } else if e == "webp"@ {
        "image/webp"@
    } else {
        "application/octet-stream"@
    }
}

fn chars_are(s: &[char], lit: &str) -> (r: bool)
    ensures
        r == (s@ == lit@),
{
    let l = chars_of(lit);
    chars_eq(s, l.as_slice())
}

pub fn guess_image_mime(file_name: &str) -> (r: &'static str)
    ensures
        r@ == image_mime(file_name@),
{
    let e = lower_chars(after_last_char(chars_of(file_name).as_slice(), '.').as_slice());
    if chars_are(e.as_slice(), "png") {
        "image/png"
    } else if chars_are(e.as_slice(), "jpg") || chars_are(e.as_slice(), "jpeg") {
        "image/jpeg"
    } else if chars_are(e.as_slice(), "bmp") {
        "image/bmp"
    } else if chars_are(e.as_slice(), "webp") {
        "image/webp"
    } else {
        "application/octet-stream"
    }
}

} // verus!
