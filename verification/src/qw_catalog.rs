//! The QingWear catalogue: the records a gateway reply carries, the
//! resource categories and devices offered for filtering, and how the
//! filters a user picks become the parameters of an app list request.
use vstd::prelude::*;
use crate::text::{trim, starts_with, eq_ignore_case, lower, trim_chars, chars_of, chars_eq, chars_eq_ignore_case,
    chars_starts_with, string_from_chars, slice_range, concat_chars, concat_str, lower_str, str_eq};
use crate::numbers::{parse_i64, parse_i64_str};
use crate::json::{JsonValue, Jv, jv, jv_items, jv_entries, jnum, json_get, put, push_item, j_str, j_i64, j_u64, j_object, j_array};
use crate::config::{ov, nonblank, nonblank_text};
use crate::listing::{sat_mul, sat_add, saturating_mul};
use crate::devices::category_prefix;
use crate::tags::{labels_of, with_label, tag_label, device_label, push_label, lemma_labels_of};
use crate::qw_records::{first_member, key_seq, record_number, record_text, record_u64, record_string, take_first_member, is_paid, is_paid_resource, record_id, record_id_of};

verus! {

// ----------------------------------------------------------------------------
// Records of a reply.
pub open spec fn record_list_keys() -> Seq<Seq<char>> {
    seq!["records"@, "list"@, "items"@]
}

/// `extract_records`: an array's elements; for an object, the elements of
/// the array under its first key present among `records`, `list` and
/// `items`; nothing otherwise.
pub open spec fn records_of(data: JsonValue) -> Seq<JsonValue> {
    match data {
        JsonValue::Array(items) => items@,
        JsonValue::Object(_) => match first_member(data, record_list_keys()) {
            Some(JsonValue::Array(items)) => items@,
            _ => Seq::<JsonValue>::empty(),
        },
        _ => Seq::<JsonValue>::empty(),
    }
}

pub fn extract_records(data: JsonValue) -> (r: Vec<JsonValue>)
    ensures
        r@ == records_of(data),
{
    let keys: &[&str] = &["records", "list", "items"];
    proof {
        assert(key_seq(keys@) =~= record_list_keys());
    }
    let ghost d = data;
    match data {
        JsonValue::Array(items) => items,
        JsonValue::Object(entries) => {
            let whole = JsonValue::Object(entries);
            assert(whole == d);
            match take_first_member(whole, keys) {
                Some(JsonValue::Array(items)) => items,
                _ => Vec::new(),
            }
        },
        _ => Vec::new(),
    }
}

/// `single_record`: an object without `records` or `list` is the record
/// itself; otherwise the first of its records, if any.
pub open spec fn single_record_of(data: JsonValue) -> Option<JsonValue> {
    if data is Object && json_get(data, "records"@) is None && json_get(data, "list"@) is None {
        Some(data)
    } else if records_of(data).len() > 0 {
        Some(records_of(data)[0])
    } else {
        None
    }
}

pub fn single_record(data: JsonValue) -> (r: Option<JsonValue>)
    ensures
        r == single_record_of(data),
{
    let is_object = match &data {
        JsonValue::Object(_) => true,
        _ => false,
    };
    if is_object && data.get("records").is_none() && data.get("list").is_none() {
        return Some(data);
    }
    let mut records = extract_records(data);
    if records.len() > 0 {
        Some(records.remove(0))
    } else {
        None
    }
}

// ----------------------------------------------------------------------------
// Categories and devices.
pub open spec fn cv(e: (i64, String)) -> (i64, Seq<char>) {
    (e.0, e.1@)
}

pub open spec fn cvs(s: Seq<(i64, String)>) -> Seq<(i64, Seq<char>)> {
    s.map_values(|e: (i64, String)| cv(e))
}

/// The built-in resource categories, used when the gateway gives none.
pub open spec fn qw_fallback_categories() -> Seq<(i64, Seq<char>)> {
    seq![(1i64, "表盘"@), (2i64, "工具"@), (3i64, "娱乐"@), (4i64, "游戏"@), (5i64, "运动健康"@)]
}

pub fn fallback_category_index() -> (r: Vec<(i64, String)>)
    ensures
        cvs(r@) == qw_fallback_categories(),
{
    let mut out: Vec<(i64, String)> = Vec::new();
    out.push((1, String::from_str("表盘")));
    out.push((2, String::from_str("工具")));
    out.push((3, String::from_str("娱乐")));
    out.push((4, String::from_str("游戏")));
    out.push((5, String::from_str("运动健康")));
    proof {
        assert(cvs(out@) =~= qw_fallback_categories());
    }
    out
}

/// The usable categories among records: each with a numeric `id` and a
/// `name`, the id taken as `i64` (as `as` converts it).
pub open spec fn category_entries(records: Seq<JsonValue>) -> Seq<(i64, Seq<char>)>
    decreases records.len(),
{
    if records.len() == 0 {
        seq![]
    } else {
        let r = category_entries(records.drop_last());
        let it = records.last();
        match (record_number(it, seq!["id"@]), record_text(it, seq!["name"@])) {
            (Some(id), Some(name)) => r.push((id as i64, name)),
            _ => r,
        }
    }
}

/// The category index read from the categories reply.
pub open spec fn category_index_reply(data: JsonValue) -> Result<Seq<(i64, Seq<char>)>, Seq<char>> {
    let e = category_entries(records_of(data));
    if e.len() == 0 {
        Err("categories response had no usable entries"@)
    } else {
        Ok(e)
    }
}

pub fn category_index_from(data: JsonValue) -> (r: Result<Vec<(i64, String)>, String>)
    ensures
        match r {
            Ok(v) => category_index_reply(data) == Ok::<Seq<(i64, Seq<char>)>, Seq<char>>(cvs(v@)),
            Err(e) => category_index_reply(data) == Err::<Seq<(i64, Seq<char>)>, Seq<char>>(e@),
        },
{
    let records = extract_records(data);
    let id_key: &[&str] = &["id"];
    let name_key: &[&str] = &["name"];
    proof {
        assert(key_seq(id_key@) =~= seq!["id"@]);
        assert(key_seq(name_key@) =~= seq!["name"@]);
    }
    let mut out: Vec<(i64, String)> = Vec::new();
    let mut i: usize = 0;
    while i < records.len()
        invariant
            i <= records@.len(),
            key_seq(id_key@) == seq!["id"@],
            key_seq(name_key@) == seq!["name"@],
            cvs(out@) == category_entries(records@.subrange(0, i as int)),
        decreases records@.len() - i,
    {
        proof {
            let s = records@.subrange(0, i + 1);
            assert(s.drop_last() =~= records@.subrange(0, i as int));
            assert(s.last() == records@[i as int]);
        }
        let id = record_u64(&records[i], id_key);
        let name = record_string(&records[i], name_key);
        match (id, name) {
            (Some(id), Some(name)) => {
                let ghost before = out@;
                out.push((id as i64, name));
                proof {
                    assert(cvs(out@) =~= cvs(before).push((id as i64, out@.last().1@)));
                }
            },
            _ => {},
        }
        i = i + 1;
    }
    proof {
        assert(records@.subrange(0, records@.len() as int) =~= records@);
    }
    if out.len() == 0 {
        return Err(String::from_str("categories response had no usable entries"));
    }
    Ok(out)
}

/// A device offered for filtering: its id, name and model.
#[derive(Debug)]
pub struct QwDevice {
    pub id: String,
    pub name: String,
    pub model: String,
}

pub open spec fn qdv(d: QwDevice) -> (Seq<char>, Seq<char>, Seq<char>) {
    (d.id@, d.name@, d.model@)
}

pub open spec fn qdvs(s: Seq<QwDevice>) -> Seq<(Seq<char>, Seq<char>, Seq<char>)> {
    s.map_values(|d: QwDevice| qdv(d))
}

/// The usable devices among records: each with an `id` and a `name`, the
/// model empty when there is none.
pub open spec fn device_entries(records: Seq<JsonValue>) -> Seq<(Seq<char>, Seq<char>, Seq<char>)>
    decreases records.len(),
{
    if records.len() == 0 {
        seq![]
    } else {
        let r = device_entries(records.drop_last());
        let it = records.last();
        match (record_text(it, seq!["id"@]), record_text(it, seq!["name"@])) {
            (Some(id), Some(name)) => r.push(
                (
                    id,
                    name,
                    match record_text(it, seq!["model"@]) {
                        Some(m) => m,
                        None => Seq::<char>::empty(),
                    },
                ),
            ),
            _ => r,
        }
    }
}

/// The device index read from the devices reply.
pub open spec fn device_index_reply(data: JsonValue) -> Result<Seq<(Seq<char>, Seq<char>, Seq<char>)>, Seq<char>> {
    let e = device_entries(records_of(data));
    if e.len() == 0 {
        Err("devices response had no usable entries"@)
    } else {
        Ok(e)
    }
}

pub fn device_index_from(data: JsonValue) -> (r: Result<Vec<QwDevice>, String>)
    ensures
        match r {
            Ok(v) => device_index_reply(data) == Ok::<Seq<(Seq<char>, Seq<char>, Seq<char>)>, Seq<char>>(qdvs(v@)),
            Err(e) => device_index_reply(data) == Err::<Seq<(Seq<char>, Seq<char>, Seq<char>)>, Seq<char>>(e@),
        },
{
    let records = extract_records(data);
    let id_key: &[&str] = &["id"];
    let name_key: &[&str] = &["name"];
    let model_key: &[&str] = &["model"];
    proof {
        assert(key_seq(id_key@) =~= seq!["id"@]);
        assert(key_seq(name_key@) =~= seq!["name"@]);
        assert(key_seq(model_key@) =~= seq!["model"@]);
        crate::manifest::lemma_empty_literal();
    }
    let mut out: Vec<QwDevice> = Vec::new();
    let mut i: usize = 0;
    while i < records.len()
        invariant
            i <= records@.len(),
            key_seq(id_key@) == seq!["id"@],
            key_seq(name_key@) == seq!["name"@],
            key_seq(model_key@) == seq!["model"@],
            ""@ == Seq::<char>::empty(),
            qdvs(out@) == device_entries(records@.subrange(0, i as int)),
        decreases records@.len() - i,
    {
        proof {
            let s = records@.subrange(0, i + 1);
            assert(s.drop_last() =~= records@.subrange(0, i as int));
            assert(s.last() == records@[i as int]);
        }
        let id = record_string(&records[i], id_key);
        let name = record_string(&records[i], name_key);
        match (id, name) {
            (Some(id), Some(name)) => {
                let model = match record_string(&records[i], model_key) {
                    Some(m) => m,
                    None => String::from_str(""),
                };
                let ghost before = out@;
                out.push(QwDevice { id, name, model });
                proof {
                    assert(qdvs(out@) =~= qdvs(before).push(qdv(out@.last())));
                }
            },
            _ => {},
        }
        i = i + 1;
    }
    proof {
        assert(records@.subrange(0, records@.len() as int) =~= records@);
    }
    if out.len() == 0 {
        return Err(String::from_str("devices response had no usable entries"));
    }
    Ok(out)
}

// ----------------------------------------------------------------------------
// The categories offered.
pub open spec fn all_label() -> Seq<char> {
    "全部"@
}

pub open spec fn qw_candidate_labels(
    index: Seq<(i64, Seq<char>)>,
    devices: Seq<(Seq<char>, Seq<char>, Seq<char>)>,
) -> Seq<Option<Seq<char>>> {
    seq![Some(all_label())] + index.map_values(|e: (i64, Seq<char>)| tag_label(e.1)) + devices.map_values(
        |d: (Seq<char>, Seq<char>, Seq<char>)| device_label(d.1),
    )
}

/// The categories offered: `全部`, then each category name (trimmed), then each
/// device as the device prefix and its trimmed name; blank names are left
/// out and each label is kept the first time it comes.
pub open spec fn qw_category_labels(
    index: Seq<(i64, Seq<char>)>,
    devices: Seq<(Seq<char>, Seq<char>, Seq<char>)>,
) -> Seq<Seq<char>> {
    labels_of(qw_candidate_labels(index, devices))
}

pub fn qw_category_labels_for(index: &[(i64, String)], devices: &[QwDevice]) -> (r: Vec<String>)
    ensures
        r@.map_values(|s: String| s@) == qw_category_labels(cvs(index@), qdvs(devices@)),
{
    let ghost cands = qw_candidate_labels(cvs(index@), qdvs(devices@));
    let ghost ni = index@.len();
    let mut out: Vec<String> = Vec::new();
    push_label(&mut out, chars_of("全部"));
    proof {
        assert(cands.take(1).drop_last() =~= Seq::<Option<Seq<char>>>::empty());
        assert(cands.take(1).last() == Some(all_label()));
        assert(labels_of(Seq::<Option<Seq<char>>>::empty()) == Seq::<Seq<char>>::empty());
        assert(Seq::<String>::empty().map_values(|s: String| s@) =~= Seq::<Seq<char>>::empty());
    }
    let mut i: usize = 0;
    while i < index.len()
        invariant
            i <= index@.len(),
            ni == index@.len(),
            cands == qw_candidate_labels(cvs(index@), qdvs(devices@)),
            cands.len() == 1 + ni + devices@.len(),
            out@.map_values(|s: String| s@) == labels_of(cands.take(1 + i)),
        decreases index@.len() - i,
    {
        proof {
            assert(cands.take(1 + i + 1).drop_last() =~= cands.take(1 + i));
            assert(cands[1 + i] == tag_label(index@[i as int].1@));
        }
        let n = trim_chars(index[i].1.as_str());
        if n.len() > 0 {
            push_label(&mut out, n);
        }
        i = i + 1;
    }
    let mut k: usize = 0;
    while k < devices.len()
        invariant
            k <= devices@.len(),
            ni == index@.len(),
            cands == qw_candidate_labels(cvs(index@), qdvs(devices@)),
            cands.len() == 1 + ni + devices@.len(),
            out@.map_values(|s: String| s@) == labels_of(cands.take(1 + ni + k)),
        decreases devices@.len() - k,
    {
        proof {
            assert(cands.take(1 + ni + k + 1).drop_last() =~= cands.take(1 + ni + k));
            assert(cands[1 + ni + k] == device_label(devices@[k as int].name@));
        }
        let n = trim_chars(devices[k].name.as_str());
        if n.len() > 0 {
            let label = concat_chars(chars_of("设备:").as_slice(), n.as_slice());
            push_label(&mut out, label);
        }
        k = k + 1;
    }
    proof {
        assert(cands.take(1 + ni + k) =~= cands);
    }
    out
}

/// The categories offered start with `全部`, name no label twice, and
/// include every named category and device.
pub proof fn law_qw_category_labels(
    index: Seq<(i64, Seq<char>)>,
    devices: Seq<(Seq<char>, Seq<char>, Seq<char>)>,
)
    ensures
        qw_category_labels(index, devices).no_duplicates(),
        qw_category_labels(index, devices).len() > 0,
        qw_category_labels(index, devices)[0] == all_label(),
        forall|i: int|
            0 <= i < index.len() && trim(#[trigger] index[i].1).len() > 0 ==> qw_category_labels(
                index,
                devices,
            ).contains(trim(index[i].1)),
        forall|k: int|
            0 <= k < devices.len() && trim(#[trigger] devices[k].1).len() > 0 ==> qw_category_labels(
                index,
                devices,
            ).contains(category_prefix() + trim(devices[k].1)),
{
    let c = qw_candidate_labels(index, devices);
    lemma_labels_of(c);
    lemma_labels_first(c);
    assert forall|i: int| 0 <= i < index.len() && trim(#[trigger] index[i].1).len() > 0 implies qw_category_labels(
        index,
        devices,
    ).contains(trim(index[i].1)) by {
        assert(c[1 + i] == tag_label(index[i].1));
    }
    assert forall|k: int| 0 <= k < devices.len() && trim(#[trigger] devices[k].1).len() > 0 implies qw_category_labels(
        index,
        devices,
    ).contains(category_prefix() + trim(devices[k].1)) by {
        assert(c[1 + index.len() + k] == device_label(devices[k].1));
    }
}

/// The first candidate, when it is a label, is the first label.
proof fn lemma_labels_first(c: Seq<Option<Seq<char>>>)
    requires
        c.len() > 0,
        c[0] is Some,
    ensures
        labels_of(c).len() > 0,
        labels_of(c)[0] == c[0]->0,
    decreases c.len(),
{
    if c.len() == 1 {
        assert(c.drop_last() =~= Seq::<Option<Seq<char>>>::empty());
    } else {
        let p = c.drop_last();
        lemma_labels_first(p);
    }
}


// ----------------------------------------------------------------------------
// Filters.
/// The id of the first category named `v`.
pub open spec fn first_named(index: Seq<(i64, Seq<char>)>, v: Seq<char>) -> Option<i64>
    decreases index.len(),
{
    if index.len() == 0 {
        None
    } else if index[0].1 == v {
        Some(index[0].0)
    } else {
        first_named(index.drop_first(), v)
    }
}

/// `resolve_category_id` over the chosen categories: blank entries, `全部`
/// and device entries are passed over; the first other entry that is a
/// number, or the name of a category, gives the id.
pub open spec fn category_choice(index: Seq<(i64, Seq<char>)>, cats: Seq<Seq<char>>) -> Option<i64>
    decreases cats.len(),
{
    if cats.len() == 0 {
        None
    } else {
        let v = trim(cats[0]);
        if v.len() == 0 || v == all_label() || starts_with(v, category_prefix()) {
            category_choice(index, cats.drop_first())
        } else {
            match parse_i64(v) {
                Some(id) => Some(id),
                None => match first_named(index, v) {
                    Some(id) => Some(id),
                    None => category_choice(index, cats.drop_first()),
                },
            }
        }
    }
}

pub open spec fn svs(s: Seq<String>) -> Seq<Seq<char>> {
    s.map_values(|x: String| x@)
}

fn first_named_id(index: &[(i64, String)], v: &[char]) -> (r: Option<i64>)
    ensures
        r == first_named(cvs(index@), v@),
{
    let ghost ix = cvs(index@);
    let mut i: usize = 0;
    proof {
        assert(ix.skip(0) =~= ix);
    }
    while i < index.len()
        invariant
            i <= index@.len(),
            ix == cvs(index@),
            first_named(ix, v@) == first_named(ix.skip(i as int), v@),
        decreases index@.len() - i,
    {
        proof {
            let rest = ix.skip(i as int);
            assert(rest[0] == cv(index@[i as int]));
            assert(rest.drop_first() =~= ix.skip(i + 1));
        }
        let name = chars_of(index[i].1.as_str());
        if chars_eq(name.as_slice(), v) {
            return Some(index[i].0);
        }
        i = i + 1;
    }
    proof {
        assert(ix.skip(i as int) =~= Seq::<(i64, Seq<char>)>::empty());
    }
    None
}

pub fn resolve_category_id(categories: Option<&[String]>, index: &[(i64, String)]) -> (r: Option<i64>)
    ensures
        r == match categories {
            Some(c) => category_choice(cvs(index@), svs(c@)),
            None => None,
        },
{
    let list = match categories {
        Some(c) => c,
        None => {
            return None;
        },
    };
    let ghost cs = svs(list@);
    let mut i: usize = 0;
    proof {
        assert(cs.skip(0) =~= cs);
    }
    while i < list.len()
        invariant
            i <= list@.len(),
            cs == svs(list@),
            categories == Some(list),
            category_choice(cvs(index@), cs) == category_choice(cvs(index@), cs.skip(i as int)),
        decreases list@.len() - i,
    {
        proof {
            let rest = cs.skip(i as int);
            assert(rest[0] == list@[i as int]@);
            assert(rest.drop_first() =~= cs.skip(i + 1));
        }
        let v = trim_chars(list[i].as_str());
        let skip = v.len() == 0 || chars_eq(v.as_slice(), chars_of("全部").as_slice())
            || chars_starts_with(v.as_slice(), chars_of("设备:").as_slice());
        if !skip {
            let text = string_from_chars(v.as_slice());
            match parse_i64_str(text.as_str()) {
                Some(id) => {
                    return Some(id);
                },
                None => {},
            }
            match first_named_id(index, v.as_slice()) {
                Some(id) => {
                    return Some(id);
                },
                None => {},
            }
        }
        i = i + 1;
    }
    proof {
        assert(cs.skip(i as int) =~= Seq::<Seq<char>>::empty());
    }
    None
}

/// The first device a filter names: by trimmed name, by model without case,
/// or by id.
pub open spec fn device_named(d: Seq<(Seq<char>, Seq<char>, Seq<char>)>, c: Seq<char>) -> Option<(Seq<char>, Seq<char>, Seq<char>)>
    decreases d.len(),
{
    if d.len() == 0 {
        None
    } else if trim(d[0].1) == c || eq_ignore_case(d[0].2, c) || d[0].0 == c {
        Some(d[0])
    } else {
        device_named(d.drop_first(), c)
    }
}

/// The device id a chosen category gives: for a device entry (the prefix,
/// then a non-blank name), the numeric id of the device it names.
pub open spec fn device_id_of_label(d: Seq<(Seq<char>, Seq<char>, Seq<char>)>, raw: Seq<char>) -> Option<i64> {
    let v = trim(raw);
    if starts_with(v, category_prefix()) {
        let c = trim(v.subrange(category_prefix().len() as int, v.len() as int));
        if c.len() > 0 {
            match device_named(d, c) {
                Some(dev) => parse_i64(trim(dev.0)),
                None => None,
            }
        } else {
            None
        }
    } else {
        None
    }
}

/// The device ids the chosen categories give, each once, in order.
pub open spec fn device_ids_of(d: Seq<(Seq<char>, Seq<char>, Seq<char>)>, cats: Seq<Seq<char>>) -> Seq<i64>
    decreases cats.len(),
{
    if cats.len() == 0 {
        seq![]
    } else {
        let r = device_ids_of(d, cats.drop_last());
        match device_id_of_label(d, cats.last()) {
            Some(id) => if r.contains(id) {
                r
            } else {
                r.push(id)
            },
            None => r,
        }
    }
}

/// `resolve_device_ids`: the ids, or `None` when there are none.
pub open spec fn device_filter(d: Seq<(Seq<char>, Seq<char>, Seq<char>)>, cats: Option<Seq<Seq<char>>>) -> Option<Seq<i64>> {
    match cats {
        Some(c) => if device_ids_of(d, c).len() == 0 {
            None
        } else {
            Some(device_ids_of(d, c))
        },
        None => None,
    }
}

fn device_named_index(devices: &[QwDevice], c: &[char]) -> (r: Option<usize>)
    ensures
        match r {
            Some(k) => k < devices@.len() && device_named(qdvs(devices@), c@) == Some(qdv(devices@[k as int])),
            None => device_named(qdvs(devices@), c@) is None,
        },
{
    let ghost ds = qdvs(devices@);
    let mut i: usize = 0;
    proof {
        assert(ds.skip(0) =~= ds);
    }
    while i < devices.len()
        invariant
            i <= devices@.len(),
            ds == qdvs(devices@),
            device_named(ds, c@) == device_named(ds.skip(i as int), c@),
        decreases devices@.len() - i,
    {
        proof {
            let rest = ds.skip(i as int);
            assert(rest[0] == qdv(devices@[i as int]));
            assert(rest.drop_first() =~= ds.skip(i + 1));
        }
        let name = trim_chars(devices[i].name.as_str());
        let model = chars_of(devices[i].model.as_str());
        let id = chars_of(devices[i].id.as_str());
        if chars_eq(name.as_slice(), c) || chars_eq_ignore_case(model.as_slice(), c) || chars_eq(id.as_slice(), c) {
            return Some(i);
        }
        i = i + 1;
    }
    proof {
        assert(ds.skip(i as int) =~= Seq::<(Seq<char>, Seq<char>, Seq<char>)>::empty());
    }
    None
}

fn device_id_for(devices: &[QwDevice], raw: &str) -> (r: Option<i64>)
    ensures
        r == device_id_of_label(qdvs(devices@), raw@),
{
    let v = trim_chars(raw);
    let prefix = chars_of("设备:");
    if !chars_starts_with(v.as_slice(), prefix.as_slice()) {
        return None;
    }
    let rest = slice_range(v.as_slice(), prefix.len(), v.len());
    let rest_text = string_from_chars(rest.as_slice());
    let c = trim_chars(rest_text.as_str());
    if c.len() == 0 {
        return None;
    }
    match device_named_index(devices, c.as_slice()) {
        Some(k) => {
            let t = trim_chars(devices[k].id.as_str());
            let text = string_from_chars(t.as_slice());
            parse_i64_str(text.as_str())
        },
        None => None,
    }
}

fn contains_id(ids: &Vec<i64>, id: i64) -> (r: bool)
    ensures
        r == ids@.contains(id),
{
    let mut i: usize = 0;
    while i < ids.len()
        invariant
            i <= ids@.len(),
            forall|k: int| 0 <= k < i ==> ids@[k] != id,
        decreases ids@.len() - i,
    {
        if ids[i] == id {
            return true;
        }
        i = i + 1;
    }
    false
}

pub fn resolve_device_ids(categories: Option<&[String]>, devices: &[QwDevice]) -> (r: Option<Vec<i64>>)
    ensures
        match r {
            Some(v) => device_filter(qdvs(devices@), match categories { Some(c) => Some(svs(c@)), None => None }) == Some(v@),
            None => device_filter(qdvs(devices@), match categories { Some(c) => Some(svs(c@)), None => None }) is None,
        },
{
    let list = match categories {
        Some(c) => c,
        None => {
            return None;
        },
    };
    let ghost cs = svs(list@);
    let mut ids: Vec<i64> = Vec::new();
    let mut i: usize = 0;
    while i < list.len()
        invariant
            i <= list@.len(),
            cs == svs(list@),
            ids@ == device_ids_of(qdvs(devices@), cs.take(i as int)),
        decreases list@.len() - i,
    {
        proof {
            assert(cs.take(i + 1).drop_last() =~= cs.take(i as int));
            assert(cs.take(i + 1).last() == list@[i as int]@);
        }
        match device_id_for(devices, list[i].as_str()) {
            Some(id) => {
                if !contains_id(&ids, id) {
                    ids.push(id);
                }
            },
            None => {},
        }
        i = i + 1;
    }
    proof {
        assert(cs.take(i as int) =~= cs);
    }
    if ids.len() == 0 {
        None
    } else {
        Some(ids)
    }
}

/// No device id is sent twice.
pub proof fn law_device_ids_distinct(d: Seq<(Seq<char>, Seq<char>, Seq<char>)>, cats: Seq<Seq<char>>)
    ensures
        device_ids_of(d, cats).no_duplicates(),
    decreases cats.len(),
{
    if cats.len() > 0 {
        law_device_ids_distinct(d, cats.drop_last());
        let r = device_ids_of(d, cats.drop_last());
        match device_id_of_label(d, cats.last()) {
            Some(id) => {
                if !r.contains(id) {
                    assert forall|i: int, j: int| 0 <= i < j < r.push(id).len() implies r.push(id)[i] != r.push(id)[j] by {
                        if j == r.len() {
                            assert(r[i] != id);
                        }
                    }
                }
            },
            None => {},
        }
    }
}

/// `resolve_sort`: the sort asked for (`latest` when none), in lower case:
/// `hot`, `popular` and `download` sort by heat; `recommend`,
/// `recommended` and `featured` show featured apps; anything else the latest.
pub open spec fn sort_of(sort: Option<Seq<char>>) -> Seq<char> {
    let s = lower(
        match sort {
            Some(t) => t,
            None => "latest"@,
        },
    );
    if s == "hot"@ || s == "popular"@ || s == "download"@ {
        "hot"@
    } else if s == "recommend"@ || s == "recommended"@ || s == "featured"@ {
        "featured"@
    } else {
        "latest"@
    }
}

pub fn resolve_sort(sort: Option<&str>) -> (r: &'static str)
    ensures
        r@ == sort_of(match sort { Some(t) => Some(t@), None => None }),
{
    let s = match sort {
        Some(t) => lower_str(t),
        None => lower_str("latest"),
    };
    if str_eq(s.as_str(), "hot") || str_eq(s.as_str(), "popular") || str_eq(s.as_str(), "download") {
        "hot"
    } else if str_eq(s.as_str(), "recommend") || str_eq(s.as_str(), "recommended") || str_eq(s.as_str(), "featured") {
        "featured"
    } else {
        "latest"
    }
}

/// The page size asked for, kept between 1 and 100.
pub fn index_limit(limit: usize) -> (r: usize)
    ensures
        r == (if limit < 1 { 1 } else if limit > 100 { 100 } else { limit as int }),
{
    if limit < 1 {
        1
    } else if limit > 100 {
        100
    } else {
        limit
    }
}


// ----------------------------------------------------------------------------
// App list requests.
/// The body of an app list request: page, size and sort, then the keyword,
/// category and device ids that are given (device ids only when there are
/// some).
pub open spec fn apps_list_body_doc(
    current: nat,
    size: nat,
    sort: Seq<char>,
    filter: Option<Seq<char>>,
    category: Option<i64>,
    device_ids: Option<Seq<i64>>,
) -> Jv {
    let base = seq![("current"@, jnum(current as int)), ("size"@, jnum(size as int)), ("sort"@, Jv::Str(sort))];
    let k = match filter {
        Some(f) => seq![("keyword"@, Jv::Str(f))],
        None => seq![],
    };
    let c = match category {
        Some(id) => seq![("category"@, jnum(id as int))],
        None => seq![],
    };
    let d = match device_ids {
        Some(ids) => if ids.len() > 0 {
            seq![("deviceIds"@, Jv::Arr(ids.map_values(|i: i64| jnum(i as int))))]
        } else {
            seq![]
        },
        None => seq![],
    };
    Jv::Obj(base + k + c + d)
}

pub fn apps_list_body(
    current: usize,
    size: usize,
    sort: &str,
    filter: Option<&str>,
    category: Option<i64>,
    device_ids: Option<&[i64]>,
) -> (r: JsonValue)
    ensures
        jv(r) == apps_list_body_doc(
            current as nat,
            size as nat,
            sort@,
            match filter { Some(f) => Some(f@), None => None },
            category,
            match device_ids { Some(d) => Some(d@), None => None },
        ),
{
    let mut e: Vec<(String, JsonValue)> = Vec::new();
    put(&mut e, "current", j_u64(current as u64));
    put(&mut e, "size", j_u64(size as u64));
    put(&mut e, "sort", j_str(sort));
    let ghost base = jv_entries(e@);
    match filter {
        Some(f) => {
            put(&mut e, "keyword", j_str(f));
        },
        None => {},
    }
    let ghost with_k = jv_entries(e@);
    match category {
        Some(id) => {
            put(&mut e, "category", j_i64(id));
        },
        None => {},
    }
    let ghost with_c = jv_entries(e@);
    match device_ids {
        Some(ids) => {
            if ids.len() > 0 {
                let mut items: Vec<JsonValue> = Vec::new();
                let mut i: usize = 0;
                while i < ids.len()
                    invariant
                        i <= ids@.len(),
                        jv_items(items@) == ids@.take(i as int).map_values(|x: i64| jnum(x as int)),
                    decreases ids@.len() - i,
                {
                    push_item(&mut items, j_i64(ids[i]));
                    proof {
                        assert(ids@.take(i + 1).map_values(|x: i64| jnum(x as int)) =~= ids@.take(
                            i as int,
                        ).map_values(|x: i64| jnum(x as int)).push(jnum(ids@[i as int] as int)));
                    }
                    i = i + 1;
                }
                proof {
                    assert(ids@.take(i as int) =~= ids@);
                }
                put(&mut e, "deviceIds", j_array(items));
            }
        },
        None => {},
    }
    let r = j_object(e);
    proof {
        let doc = apps_list_body_doc(
            current as nat,
            size as nat,
            sort@,
            match filter { Some(f) => Some(f@), None => None },
            category,
            match device_ids { Some(d) => Some(d@), None => None },
        );
        assert(jv_entries(e@) =~= match doc {
            Jv::Obj(s) => s,
            _ => jv_entries(e@),
        });
    }
    r
}

/// The largest page of the app list.
pub open spec fn list_page_size() -> nat {
    100
}

/// The most pages a scan reads.
pub open spec fn max_scan_pages() -> nat {
    100
}

/// The records that are not paid, in order.
pub open spec fn unpaid(s: Seq<JsonValue>) -> Seq<JsonValue>
    decreases s.len(),
{
    if s.len() == 0 {
        seq![]
    } else if is_paid(s.last()) {
        unpaid(s.drop_last())
    } else {
        unpaid(s.drop_last()).push(s.last())
    }
}

pub proof fn lemma_unpaid(s: Seq<JsonValue>)
    ensures
        forall|i: int| 0 <= i < unpaid(s).len() ==> !is_paid(#[trigger] unpaid(s)[i]),
        unpaid(s).len() <= s.len(),
    decreases s.len(),
{
    if s.len() > 0 {
        lemma_unpaid(s.drop_last());
        let p = unpaid(s.drop_last());
        if !is_paid(s.last()) {
            assert forall|i: int| 0 <= i < unpaid(s).len() implies !is_paid(#[trigger] unpaid(s)[i]) by {
                if i < p.len() {
                    assert(unpaid(s)[i] == p[i]);
                }
            }
        }
    }
}

/// The unpaid records of a list are those of its head, then those of its rest.
pub proof fn lemma_unpaid_split(a: Seq<JsonValue>, i: int)
    requires
        0 <= i <= a.len(),
    ensures
        unpaid(a) == unpaid(a.take(i)) + unpaid(a.skip(i)),
    decreases a.len(),
{
    if i == a.len() {
        assert(a.take(i) =~= a);
        assert(a.skip(i) =~= Seq::<JsonValue>::empty());
        assert(unpaid(a) + Seq::<JsonValue>::empty() =~= unpaid(a));
    } else {
        let p = a.drop_last();
        lemma_unpaid_split(p, i);
        assert(p.take(i) =~= a.take(i));
        assert(a.skip(i).drop_last() =~= p.skip(i));
        assert(a.skip(i).last() == a.last());
        if is_paid(a.last()) {
        } else {
            assert(unpaid(p.take(i)) + unpaid(p.skip(i)).push(a.last()) =~= (unpaid(p.take(i)) + unpaid(p.skip(i))).push(a.last()));
        }
    }
}

/// Whether a page ends the scan: it was empty or short, or it was the last
/// page the reply counts.
pub open spec fn page_ends_scan(current: nat, fetched: nat, pages: Option<u64>) -> bool {
    fetched == 0 || fetched < list_page_size() || match pages {
        Some(last) => current >= (last as usize),
        None => false,
    }
}

pub open spec fn page_keys() -> Seq<Seq<char>> {
    seq!["pages"@, "totalPages"@]
}

fn page_count(data: &JsonValue) -> (r: Option<u64>)
    ensures
        r == record_number(*data, page_keys()),
{
    let keys: &[&str] = &["pages", "totalPages"];
    proof {
        assert(key_seq(keys@) =~= page_keys());
    }
    record_u64(data, keys)
}

/// Gathering the free apps a page of the index needs: list pages are read
/// in turn (at most 100 of 100 records), paid records passed over, until
/// enough are gathered or the list ends.
pub struct VisibleScan {
    pub required: usize,
    pub visible: Vec<JsonValue>,
    pub current: usize,
    pub done: bool,
}

impl VisibleScan {
    /// What every scan keeps: no paid record among those gathered, never
    /// more than needed, and a page number within the scan's bounds.
    pub open spec fn wf(&self) -> bool {
        &&& self.visible@.len() <= self.required
        &&& forall|i: int| 0 <= i < self.visible@.len() ==> !is_paid(#[trigger] self.visible@[i])
        &&& 1 <= self.current <= max_scan_pages() + 1
    }

    pub fn new(required: usize) -> (r: VisibleScan)
        ensures
            r.wf(),
            r.required == required,
            r.visible@.len() == 0,
            r.current == 1,
            r.done == (required == 0),
    {
        VisibleScan { required, visible: Vec::new(), current: 1, done: required == 0 }
    }

    /// The page to read next, if the scan goes on.
    pub open spec fn next_page_spec(&self) -> Option<usize> {
        if !self.done && self.visible@.len() < self.required && self.current <= max_scan_pages() {
            Some(self.current)
        } else {
            None
        }
    }

    pub fn next_page(&self) -> (r: Option<usize>)
        ensures
            r == self.next_page_spec(),
    {
        if !self.done && self.visible.len() < self.required && self.current <= 100 {
            Some(self.current)
        } else {
            None
        }
    }

    /// Takes in the reply for the page `next_page` named.
    pub fn apply_page(&mut self, data: JsonValue)
        requires
            old(self).wf(),
            old(self).next_page_spec() is Some,
        ensures
            final(self).wf(),
            final(self).required == old(self).required,
            final(self).visible@ == old(self).visible@ + unpaid(records_of(data)).take(
                if unpaid(records_of(data)).len() <= old(self).required - old(self).visible@.len() {
                    unpaid(records_of(data)).len() as int
                } else {
                    old(self).required - old(self).visible@.len()
                },
            ),
            final(self).done == page_ends_scan(
                old(self).current as nat,
                records_of(data).len(),
                record_number(data, page_keys()),
            ),
            final(self).current == (if final(self).done { old(self).current as int } else { old(self).current + 1 }),
    {
        let pages = page_count(&data);
        let ghost all = records_of(data);
        let mut rest = extract_records(data);
        let fetched = rest.len();
        let ghost start = self.visible@;
        let ghost room: int = self.required - start.len();
        let ghost mut i: int = 0;
        proof {
            assert(all.skip(0) =~= all);
            assert(all.take(0) =~= Seq::<JsonValue>::empty());
            assert(start + unpaid(Seq::<JsonValue>::empty()) =~= start);
        }
        while rest.len() > 0 && self.visible.len() < self.required
            invariant
                0 <= i <= all.len(),
                rest@ == all.skip(i),
                room == self.required - start.len(),
                self.required == old(self).required,
                self.current == old(self).current,
                1 <= self.current <= max_scan_pages(),
                start == old(self).visible@,
                self.visible@ == start + unpaid(all.take(i)),
                self.visible@.len() <= self.required,
                forall|k: int| 0 <= k < start.len() ==> !is_paid(#[trigger] start[k]),
            decreases rest@.len(),
        {
            let rec = rest.remove(0);
            proof {
                assert(rec == all[i]);
                assert(all.take(i + 1).drop_last() =~= all.take(i));
                assert(all.take(i + 1).last() == all[i]);
                assert(rest@ =~= all.skip(i + 1));
            }
            if !is_paid_resource(&rec) {
                self.visible.push(rec);
            }
            proof {
                i = i + 1;
            }
        }
        proof {
            lemma_unpaid(all);
            lemma_unpaid_split(all, i);
            lemma_unpaid(all.take(i));
            if rest@.len() == 0 {
                assert(all.skip(i).len() == 0);
                assert(all.take(i) =~= all);
                assert(unpaid(all).take(unpaid(all).len() as int) =~= unpaid(all));
            } else {
                assert(unpaid(all).take(room) =~= unpaid(all.take(i)));
            }
            assert forall|k: int| 0 <= k < self.visible@.len() implies !is_paid(#[trigger] self.visible@[k]) by {
                if k >= start.len() {
                    assert(self.visible@[k] == unpaid(all.take(i))[k - start.len()]);
                }
            }
        }
        self.done = fetched == 0 || fetched < 100 || match pages {
            Some(last) => self.current >= (last as usize),
            None => false,
        };
        if !self.done {
            self.current = self.current + 1;
        }
    }
}


/// Counting the free apps: list pages are read in turn (at most 100 of 100
/// records) until the list ends, paid records not counted.
pub struct CountScan {
    pub total: u64,
    pub current: usize,
    pub done: bool,
}

impl CountScan {
    pub open spec fn wf(&self) -> bool {
        1 <= self.current <= max_scan_pages() + 1
    }

    pub fn new() -> (r: CountScan)
        ensures
            r.wf(),
            r.total == 0,
            r.current == 1,
            !r.done,
    {
        CountScan { total: 0, current: 1, done: false }
    }

    pub open spec fn next_page_spec(&self) -> Option<usize> {
        if !self.done && self.current <= max_scan_pages() {
            Some(self.current)
        } else {
            None
        }
    }

    pub fn next_page(&self) -> (r: Option<usize>)
        ensures
            r == self.next_page_spec(),
    {
        if !self.done && self.current <= 100 {
            Some(self.current)
        } else {
            None
        }
    }

    /// Takes in the reply for the page `next_page` named (the count must
    /// stay within `u64`).
    pub fn apply_page(&mut self, data: JsonValue)
        requires
            old(self).wf(),
            old(self).next_page_spec() is Some,
            old(self).total + records_of(data).len() <= u64::MAX,
        ensures
            final(self).wf(),
            final(self).total == old(self).total + unpaid(records_of(data)).len(),
            final(self).done == page_ends_scan(
                old(self).current as nat,
                records_of(data).len(),
                record_number(data, page_keys()),
            ),
            final(self).current == (if final(self).done { old(self).current as int } else { old(self).current + 1 }),
    {
        let pages = page_count(&data);
        let ghost all = records_of(data);
        let records = extract_records(data);
        let fetched = records.len();
        let mut free: u64 = 0;
        let mut i: usize = 0;
        while i < records.len()
            invariant
                i <= records@.len(),
                records@ == all,
                free == unpaid(all.take(i as int)).len(),
                free <= i,
                i <= u64::MAX,
            decreases records@.len() - i,
        {
            proof {
                assert(all.take(i + 1).drop_last() =~= all.take(i as int));
                assert(all.take(i + 1).last() == all[i as int]);
            }
            if !is_paid_resource(&records[i]) {
                free = free + 1;
            }
            i = i + 1;
        }
        proof {
            assert(all.take(i as int) =~= all);
        }
        self.total = self.total + free;
        self.done = fetched == 0 || fetched < 100 || match pages {
            Some(last) => self.current >= (last as usize),
            None => false,
        };
        if !self.done {
            self.current = self.current + 1;
        }
    }
}

/// `skip(from).take(count)`.
pub open spec fn skip_take<T>(s: Seq<T>, from: int, count: int) -> Seq<T> {
    if from >= s.len() {
        Seq::<T>::empty()
    } else if from + count >= s.len() {
        s.subrange(from, s.len() as int)
    } else {
        s.subrange(from, from + count)
    }
}

/// The records of one index page among those gathered.
pub fn page_window(records: Vec<JsonValue>, from: usize, count: usize) -> (r: Vec<JsonValue>)
    ensures
        r@ == skip_take(records@, from as int, count as int),
{
    let mut all = records;
    if from >= all.len() {
        return Vec::new();
    }
    let mut tail = all.split_off(from);
    tail.truncate(count);
    tail
}

/// The first record whose id is `id`.
pub open spec fn record_with_id(records: Seq<JsonValue>, id: Seq<char>) -> Option<JsonValue>
    decreases records.len(),
{
    if records.len() == 0 {
        None
    } else if record_id_of(records[0]) == Some(id) {
        Some(records[0])
    } else {
        record_with_id(records.drop_first(), id)
    }
}

/// An app's record when the detail endpoint gave nothing: the listed
/// record with the id, or `app {id} not found`.
pub fn find_record_by_id(records: Vec<JsonValue>, item_id: &str) -> (r: Result<JsonValue, String>)
    ensures
        match r {
            Ok(v) => record_with_id(records@, item_id@) == Some(v),
            Err(e) => record_with_id(records@, item_id@) is None && e@ == "app "@ + item_id@ + " not found"@,
        },
{
    let ghost orig = records@;
    let mut rest = records;
    let ghost mut i: int = 0;
    proof {
        assert(orig.skip(0) =~= orig);
    }
    while rest.len() > 0
        invariant
            0 <= i <= orig.len(),
            rest@ == orig.skip(i),
            orig == records@,
            record_with_id(orig, item_id@) == record_with_id(orig.skip(i), item_id@),
        decreases rest@.len(),
    {
        let rec = rest.remove(0);
        proof {
            let t = orig.skip(i);
            assert(t[0] == rec);
            assert(t.drop_first() =~= orig.skip(i + 1));
            assert(rest@ =~= orig.skip(i + 1));
        }
        let matches = match record_id(&rec) {
            Some(id) => str_eq(id.as_str(), item_id),
            None => false,
        };
        if matches {
            proof {
                let t = orig.skip(i);
                assert(record_id_of(t[0]) == Some(item_id@));
                assert(record_with_id(t, item_id@) == Some(rec));
            }
            return Ok(rec);
        }
        proof {
            i = i + 1;
        }
    }
    let a = concat_str("app ", item_id);
    Err(concat_str(a.as_str(), " not found"))
}


/// The category index: the categories the gateway gave, or the built-in ones
/// when it gave none.
pub fn category_index_or_fallback(remote: Result<Vec<(i64, String)>, String>) -> (r: Vec<(i64, String)>)
    ensures
        match remote {
            Ok(v) => r@ == v@,
            Err(_) => cvs(r@) == qw_fallback_categories(),
        },
{
    match remote {
        Ok(v) => v,
        Err(_) => fallback_category_index(),
    }
}

/// The device index: the devices the gateway gave, or none (no device
/// filter is offered) when it gave none.
pub fn device_index_or_empty(remote: Result<Vec<QwDevice>, String>) -> (r: Vec<QwDevice>)
    ensures
        match remote {
            Ok(v) => r@ == v@,
            Err(_) => r@.len() == 0,
        },
{
    match remote {
        Ok(v) => v,
        Err(_) => Vec::new(),
    }
}

// ----------------------------------------------------------------------------
// Indexes fetched once.
/// A value fetched once and then reused: empty until the first value is
/// kept, and never replaced afterwards.
pub struct FetchOnce<T> {
    stored: Option<T>,
}

impl<T> View for FetchOnce<T> {
    type V = Option<T>;

    closed spec fn view(&self) -> Option<T> {
        self.stored
    }
}

impl<T> FetchOnce<T> {
    /// Nothing fetched yet.
    pub fn new() -> (r: FetchOnce<T>)
        ensures
            r@ is None,
    {
        FetchOnce { stored: None }
    }

    /// The value kept, if one is: every call after the first `keep` gives it.
    pub fn cached(&self) -> (r: Option<&T>)
        ensures
            match r {
                Some(v) => self@ == Some(*v),
                None => self@ is None,
            },
    {
        match &self.stored {
            Some(v) => Some(v),
            None => None,
        }
    }

    /// Keeps the value when none is kept yet; a value kept before stays.
    pub fn keep(&mut self, value: T)
        ensures
            final(self)@ == match old(self)@ {
                Some(x) => Some(x),
                None => Some(value),
            },
    {
        if self.stored.is_none() {
            self.stored = Some(value);
        }
    }
}

/// The category index, settled the first time it is needed: what the
/// gateway gave, or the built-in categories when it gave none; once
/// settled it stays.
pub fn settle_category_index(cache: &mut FetchOnce<Vec<(i64, String)>>, remote: Result<Vec<(i64, String)>, String>)
    ensures
        match old(cache)@ {
            Some(x) => final(cache)@ == Some(x),
            None => final(cache)@ matches Some(v) && match remote {
                Ok(w) => v@ == w@,
                Err(_) => cvs(v@) == qw_fallback_categories(),
            },
        },
{
    let index = category_index_or_fallback(remote);
    cache.keep(index);
}

/// The device index, settled the first time it is needed: what the gateway
/// gave, or none (no device filter is offered) when it gave none; once
/// settled it stays.
pub fn settle_device_index(cache: &mut FetchOnce<Vec<QwDevice>>, remote: Result<Vec<QwDevice>, String>)
    ensures
        match old(cache)@ {
            Some(x) => final(cache)@ == Some(x),
            None => final(cache)@ matches Some(v) && match remote {
                Ok(w) => v@ == w@,
                Err(_) => v@.len() == 0,
            },
        },
{
    let index = device_index_or_empty(remote);
    cache.keep(index);
}

// ----------------------------------------------------------------------------
// An app's record.
/// What to do for an app's record once the detail endpoint has answered.
#[derive(Debug)]
pub enum DetailStep {
    /// The detail endpoint gave the record.
    Found(JsonValue),
    /// It gave none: the record is looked for in the app list requested
    /// with this body.
    SearchList(JsonValue),
}

/// The record the detail endpoint's reply holds, if it holds one.
pub open spec fn detail_reply_record(reply: Result<JsonValue, String>) -> Option<JsonValue> {
    match reply {
        Ok(d) => single_record_of(d),
        Err(_) => None,
    }
}

/// The record the detail endpoint gave; else a search of the list's first
/// page of 24, latest first.
pub fn after_detail(reply: Result<JsonValue, String>) -> (r: DetailStep)
    ensures
        match detail_reply_record(reply) {
            Some(rec) => r == DetailStep::Found(rec),
            None => r matches DetailStep::SearchList(b) && jv(b) == apps_list_body_doc(
                1,
                24,
                "latest"@,
                None,
                None,
                None,
            ),
        },
{
    let found = match reply {
        Ok(d) => single_record(d),
        Err(_) => None,
    };
    match found {
        Some(rec) => DetailStep::Found(rec),
        None => DetailStep::SearchList(apps_list_body(1, 24, "latest", None, None, None)),
    }
}

/// What an index page asks the gateway for and which of the gathered records
/// it shows.
pub struct QwIndexPlan {
    pub limit: usize,
    pub page_start: usize,
    pub required: usize,
    pub sort: &'static str,
    pub filter: Option<String>,
    pub category_id: Option<i64>,
    pub device_ids: Option<Vec<i64>>,
}

/// An index page's plan: the page size kept between 1 and 100, the offset of
/// the page and how many free records to gather (both saturating), the
/// sort, the trimmed keyword when not blank, and the category and device
/// filters the chosen categories give.
pub fn plan_qw_index(
    page: usize,
    limit: usize,
    filter: Option<&str>,
    sort: Option<&str>,
    categories: Option<&[String]>,
    index: &[(i64, String)],
    devices: &[QwDevice],
) -> (r: QwIndexPlan)
    ensures
        r.limit == (if limit < 1 { 1 } else if limit > 100 { 100 } else { limit as int }),
        r.page_start == sat_mul(page as int, r.limit as int),
        r.required == sat_add(r.page_start as int, r.limit as int),
        r.sort@ == sort_of(match sort { Some(t) => Some(t@), None => None }),
        ov(r.filter) == nonblank(match filter { Some(f) => Some(f@), None => None }),
        r.category_id == match categories {
            Some(c) => category_choice(cvs(index@), svs(c@)),
            None => None,
        },
        match r.device_ids {
            Some(v) => device_filter(qdvs(devices@), match categories { Some(c) => Some(svs(c@)), None => None }) == Some(v@),
            None => device_filter(qdvs(devices@), match categories { Some(c) => Some(svs(c@)), None => None }) is None,
        },
{
    let lim = index_limit(limit);
    let page_start = saturating_mul(page, lim);
    let required = page_start.saturating_add(lim);
    QwIndexPlan {
        limit: lim,
        page_start,
        required,
        sort: resolve_sort(sort),
        filter: nonblank_text(filter),
        category_id: resolve_category_id(categories, index),
        device_ids: resolve_device_ids(categories, devices),
    }
}

} // verus!
