//! Tags of the community (its categories), the category labels offered for
//! filtering, and how a requested category becomes a tag id.
use vstd::prelude::*;
use crate::text::{trim, starts_with, trim_chars, chars_of, chars_starts_with, string_from_chars, str_eq, concat_chars};
use crate::numbers::{parse_i64, parse_i64_str};
use crate::devices::{DeviceInfo, dvs, category_prefix};

verus! {

/// A tag: its id and name.
#[derive(Debug)]
pub struct TagInfo {
    pub id: i64,
    pub name: String,
}

impl TagInfo {
    pub fn duplicate(&self) -> (r: TagInfo)
        ensures
            r == *self,
    {
        TagInfo { id: self.id, name: self.name.clone() }
    }
}

pub open spec fn tv(t: TagInfo) -> (i64, Seq<char>) {
    (t.id, t.name@)
}

pub open spec fn tvs(t: Seq<TagInfo>) -> Seq<(i64, Seq<char>)> {
    t.map_values(|x: TagInfo| tv(x))
}

/// The built-in tag list.
pub open spec fn fallback_tags() -> Seq<(i64, Seq<char>)> {
    seq![
        (9999i64, "全部"@),
        (1i64, "游戏"@),
        (2i64, "软件"@),
        (3i64, "工具"@),
        (4i64, "动态表盘"@),
        (5i64, "精选表盘"@),
        (6i64, "表盘"@),
        (7i64, "电子书"@),
        (0i64, "未分类"@),
    ]
}

/// The id under which listings of all tags are asked for.
pub open spec fn default_category_id() -> i64 {
    9999
}

/// The built-in tag list.
pub fn fallback_tag_list() -> (r: Vec<TagInfo>)
    ensures
        tvs(r@) == fallback_tags(),
{
    let table: &[(i64, &str)] = &[
        (9999, "全部"),
        (1, "游戏"),
        (2, "软件"),
        (3, "工具"),
        (4, "动态表盘"),
        (5, "精选表盘"),
        (6, "表盘"),
        (7, "电子书"),
        (0, "未分类"),
    ];
    proof {
        assert(table@.map_values(|p: (i64, &str)| (p.0, p.1@)) =~= fallback_tags());
    }
    let mut out: Vec<TagInfo> = Vec::new();
    let mut i: usize = 0;
    while i < table.len()
        invariant
            i <= table@.len(),
            table@.map_values(|p: (i64, &str)| (p.0, p.1@)) == fallback_tags(),
            tvs(out@) == fallback_tags().subrange(0, i as int),
        decreases table@.len() - i,
    {
        let id = table[i].0;
        let n = table[i].1;
        let ghost before = tvs(out@);
        out.push(TagInfo { id, name: String::from_str(n) });
        proof {
            assert(table@.map_values(|p: (i64, &str)| (p.0, p.1@))[i as int] == (id, n@));
            assert(tvs(out@) =~= before.push((id, n@)));
            assert(tvs(out@) =~= fallback_tags().subrange(0, i + 1));
        }
        i = i + 1;
    }
    proof {
        assert(fallback_tags().subrange(0, table@.len() as int) =~= fallback_tags());
    }
    out
}

/// The tag list, given the tags the server sent (`None` when the
/// request failed): those tags when there are any, else the built-in list.
pub fn resolve_tag_list(remote: Option<Vec<TagInfo>>) -> (r: Vec<TagInfo>)
    ensures
        tvs(r@) == match remote {
            Some(t) => if t@.len() > 0 { tvs(t@) } else { fallback_tags() },
            None => fallback_tags(),
        },
{
    match remote {
        Some(t) => if t.len() > 0 {
            t
        } else {
            fallback_tag_list()
        },
        None => fallback_tag_list(),
    }
}

/// The name a tag id maps to: the last tag with that id wins (the tags are
/// collected into a map in order).
pub open spec fn tag_name(tags: Seq<(i64, Seq<char>)>, id: i64) -> Option<Seq<char>>
    decreases tags.len(),
{
    if tags.len() == 0 {
        None
    } else if tags.last().0 == id {
        Some(tags.last().1)
    } else {
        tag_name(tags.drop_last(), id)
    }
}

/// Some tag id maps to this name.
pub open spec fn names_tag(tags: Seq<(i64, Seq<char>)>, name: Seq<char>) -> bool {
    exists|id: i64| tag_name(tags, id) == Some(name)
}

/// The name the tag id maps to.
pub fn tag_name_for(tags: &[TagInfo], id: i64) -> (r: Option<String>)
    ensures
        match r {
            Some(n) => tag_name(tvs(tags@), id) == Some(n@),
            None => tag_name(tvs(tags@), id) is None,
        },
{
    let mut j: usize = tags.len();
    proof {
        assert(tags@.subrange(0, tags@.len() as int) =~= tags@);
    }
    while j > 0
        invariant
            j <= tags@.len(),
            tag_name(tvs(tags@), id) == tag_name(tvs(tags@.subrange(0, j as int)), id),
        decreases j,
    {
        let ghost q = tvs(tags@.subrange(0, j as int));
        proof {
            assert(q.last() == tv(tags@[j - 1]));
            assert(q.drop_last() =~= tvs(tags@.subrange(0, j - 1)));
        }
        if tags[j - 1].id == id {
            return Some(tags[j - 1].name.clone());
        }
        j = j - 1;
    }
    None
}

pub proof fn lemma_tag_name_last_occurrence(t: Seq<(i64, Seq<char>)>, j: int)
    requires
        0 <= j < t.len(),
        forall|k: int| j < k < t.len() ==> (#[trigger] t[k]).0 != t[j].0,
    ensures
        tag_name(t, t[j].0) == Some(t[j].1),
    decreases t.len(),
{
    if j < t.len() - 1 {
        assert(t.last() == t[t.len() - 1]);
        lemma_tag_name_last_occurrence(t.drop_last(), j);
        assert(t.drop_last()[j] == t[j]);
        assert forall|k: int| j < k < t.drop_last().len() implies (#[trigger] t.drop_last()[k]).0 != t.drop_last()[j].0 by {
            assert(t.drop_last()[k] == t[k]);
        }
    }
}

pub proof fn lemma_tag_name_found(t: Seq<(i64, Seq<char>)>, id: i64)
    requires
        tag_name(t, id) is Some,
    ensures
        exists|j: int|
            0 <= j < t.len() && t[j].0 == id && Some(t[j].1) == tag_name(t, id) && (forall|k: int|
                j < k < t.len() ==> (#[trigger] t[k]).0 != id),
    decreases t.len(),
{
    if t.last().0 == id {
        assert(t[t.len() - 1] == t.last());
    } else {
        lemma_tag_name_found(t.drop_last(), id);
        let j = choose|j: int|
            0 <= j < t.drop_last().len() && t.drop_last()[j].0 == id && Some(t.drop_last()[j].1)
                == tag_name(t.drop_last(), id) && (forall|k: int|
                j < k < t.drop_last().len() ==> (#[trigger] t.drop_last()[k]).0 != id);
        assert(t[j] == t.drop_last()[j]);
        assert forall|k: int| j < k < t.len() implies (#[trigger] t[k]).0 != id by {
            if k < t.len() - 1 {
                assert(t[k] == t.drop_last()[k]);
            }
        }
    }
}

fn id_reappears_after(tags: &[TagInfo], j: usize) -> (r: bool)
    requires
        j < tags@.len(),
    ensures
        r == exists|k: int| j < k < tags@.len() && (#[trigger] tags@[k]).id == tags@[j as int].id,
{
    let n = tags.len();
    let mut k: usize = j + 1;
    while k < n
        invariant
            j < k <= tags@.len(),
            n == tags@.len(),
            forall|m: int| j < m < k ==> (#[trigger] tags@[m]).id != tags@[j as int].id,
        decreases tags@.len() - k,
    {
        if tags[k].id == tags[j].id {
            return true;
        }
        k = k + 1;
    }
    false
}

/// An id that maps to the name, if any does. Which one, when several do, is
/// left open, as a walk of a hash map of the tags would leave it.
pub fn find_tag_id_named(tags: &[TagInfo], name: &str) -> (r: Option<i64>)
    ensures
        match r {
            Some(id) => tag_name(tvs(tags@), id) == Some(name@),
            None => !names_tag(tvs(tags@), name@),
        },
{
    let ghost t = tvs(tags@);
    let mut j: usize = tags.len();
    while j > 0
        invariant
            j <= tags@.len(),
            t == tvs(tags@),
            forall|m: int|
                j <= m < tags@.len() && #[trigger] t[m].1 == name@ ==> exists|k: int|
                    m < k < t.len() && (#[trigger] t[k]).0 == t[m].0,
        decreases j,
    {
        let i = j - 1;
        if str_eq(tags[i].name.as_str(), name) && !id_reappears_after(tags, i) {
            proof {
                assert(t[i as int] == tv(tags@[i as int]));
                assert forall|k: int| i < k < t.len() implies (#[trigger] t[k]).0 != t[i as int].0 by {
                    assert(t[k] == tv(tags@[k]));
                }
                lemma_tag_name_last_occurrence(t, i as int);
            }
            return Some(tags[i].id);
        }
        proof {
            assert(t[i as int] == tv(tags@[i as int]));
            if t[i as int].1 == name@ {
                let k = choose|k: int| i < k < tags@.len() && (#[trigger] tags@[k]).id == tags@[i as int].id;
                assert(t[k] == tv(tags@[k]));
            }
        }
        j = i;
    }
    proof {
        if names_tag(t, name@) {
            let id = choose|id: i64| tag_name(t, id) == Some(name@);
            lemma_tag_name_found(t, id);
            let m = choose|m: int|
                0 <= m < t.len() && t[m].0 == id && Some(t[m].1) == tag_name(t, id) && (forall|k: int|
                    m < k < t.len() ==> (#[trigger] t[k]).0 != id);
            assert(t[m].1 == name@);
        }
    }
    None
}

// ----------------------------------------------------------------------------
// Category labels.
/// The label of a device: the device prefix and its trimmed name, when that is not empty.
pub open spec fn device_label(name: Seq<char>) -> Option<Seq<char>> {
    if trim(name).len() > 0 {
        Some(category_prefix() + trim(name))
    } else {
        None
    }
}

/// The label of a tag: its trimmed name, when that is not empty.
pub open spec fn tag_label(name: Seq<char>) -> Option<Seq<char>> {
    if trim(name).len() > 0 {
        Some(trim(name))
    } else {
        None
    }
}

pub open spec fn with_label(acc: Seq<Seq<char>>, l: Option<Seq<char>>) -> Seq<Seq<char>> {
    match l {
        Some(x) => if acc.contains(x) {
            acc
        } else {
            acc.push(x)
        },
        None => acc,
    }
}

/// The labels in order, each kept the first time it comes.
pub open spec fn labels_of(labels: Seq<Option<Seq<char>>>) -> Seq<Seq<char>>
    decreases labels.len(),
{
    if labels.len() == 0 {
        seq![]
    } else {
        with_label(labels_of(labels.drop_last()), labels.last())
    }
}

pub open spec fn candidate_labels(
    devices: Seq<(Seq<char>, Seq<char>)>,
    tags: Seq<(i64, Seq<char>)>,
) -> Seq<Option<Seq<char>>> {
    devices.map_values(|d: (Seq<char>, Seq<char>)| device_label(d.1)) + tags.map_values(
        |t: (i64, Seq<char>)| tag_label(t.1),
    )
}

/// The categories offered: the device labels, then the tag names.
pub open spec fn category_labels(
    devices: Seq<(Seq<char>, Seq<char>)>,
    tags: Seq<(i64, Seq<char>)>,
) -> Seq<Seq<char>> {
    labels_of(candidate_labels(devices, tags))
}

pub fn push_label(out: &mut Vec<String>, label: Vec<char>)
    ensures
        final(out)@.map_values(|s: String| s@) == with_label(
            old(out)@.map_values(|s: String| s@),
            Some(label@),
        ),
{
    let ghost acc = out@.map_values(|s: String| s@);
    let mut j: usize = 0;
    while j < out.len()
        invariant
            j <= out@.len(),
            acc == out@.map_values(|s: String| s@),
            forall|k: int| 0 <= k < j ==> acc[k] != label@,
        decreases out@.len() - j,
    {
        let c = chars_of(out[j].as_str());
        if crate::text::chars_eq(c.as_slice(), label.as_slice()) {
            proof {
                assert(acc[j as int] == label@);
            }
            return;
        }
        j = j + 1;
    }
    out.push(string_from_chars(label.as_slice()));
    proof {
        assert(out@.map_values(|s: String| s@) =~= acc.push(label@));
    }
}

/// The category labels: one per named device (the device prefix and the
/// name), then one per named tag, each label kept once, in first-seen order.
pub fn category_labels_for(devices: &[DeviceInfo], tags: &[TagInfo]) -> (r: Vec<String>)
    ensures
        r@.map_values(|s: String| s@) == category_labels(dvs(devices@), tvs(tags@)),
{
    let ghost cands = candidate_labels(dvs(devices@), tvs(tags@));
    let ghost nd = devices@.len();
    let mut out: Vec<String> = Vec::new();
    let mut i: usize = 0;
    while i < devices.len()
        invariant
            i <= devices@.len(),
            nd == devices@.len(),
            cands == candidate_labels(dvs(devices@), tvs(tags@)),
            out@.map_values(|s: String| s@) == labels_of(cands.take(i as int)),
        decreases devices@.len() - i,
    {
        proof {
            assert(cands.take(i + 1).drop_last() =~= cands.take(i as int));
            assert(cands[i as int] == device_label(devices@[i as int].name@));
        }
        let n = trim_chars(devices[i].name.as_str());
        if n.len() > 0 {
            let label = concat_chars(chars_of("设备:").as_slice(), n.as_slice());
            push_label(&mut out, label);
        }
        i = i + 1;
    }
    let mut k: usize = 0;
    while k < tags.len()
        invariant
            k <= tags@.len(),
            nd == devices@.len(),
            cands.len() == nd + tags@.len(),
            cands == candidate_labels(dvs(devices@), tvs(tags@)),
            out@.map_values(|s: String| s@) == labels_of(cands.take(nd + k)),
        decreases tags@.len() - k,
    {
        proof {
            assert(cands.take(nd + k + 1).drop_last() =~= cands.take(nd + k));
            assert(cands[nd + k] == tag_label(tags@[k as int].name@));
        }
        let n = trim_chars(tags[k].name.as_str());
        if n.len() > 0 {
            push_label(&mut out, n);
        }
        k = k + 1;
    }
    proof {
        assert(cands.take(nd + k) =~= cands);
    }
    out
}

/// No category label is offered twice, and every device or tag with a name
/// has its label among them.
pub proof fn law_category_labels_distinct(
    devices: Seq<(Seq<char>, Seq<char>)>,
    tags: Seq<(i64, Seq<char>)>,
)
    ensures
        category_labels(devices, tags).no_duplicates(),
        forall|i: int|
            0 <= i < candidate_labels(devices, tags).len() && (#[trigger] candidate_labels(
                devices,
                tags,
            )[i]) is Some ==> category_labels(devices, tags).contains(
                candidate_labels(devices, tags)[i]->0,
            ),
{
    lemma_labels_of(candidate_labels(devices, tags));
}

pub proof fn lemma_labels_of(c: Seq<Option<Seq<char>>>)
    ensures
        labels_of(c).no_duplicates(),
        forall|i: int| 0 <= i < c.len() && (#[trigger] c[i]) is Some ==> labels_of(c).contains(c[i]->0),
    decreases c.len(),
{
    if c.len() > 0 {
        let p = c.drop_last();
        lemma_labels_of(p);
        let r = labels_of(p);
        assert forall|i: int| 0 <= i < c.len() && (#[trigger] c[i]) is Some implies labels_of(c).contains(
            c[i]->0,
        ) by {
            if i < c.len() - 1 {
                assert(c[i] == p[i]);
                let m = choose|m: int| 0 <= m < r.len() && r[m] == c[i]->0;
                if !r.contains(c.last()->0) && c.last() is Some {
                    assert(r.push(c.last()->0)[m] == r[m]);
                }
            } else {
                if !r.contains(c.last()->0) {
                    assert(r.push(c.last()->0)[r.len() as int] == c.last()->0);
                }
            }
        }
    }
}

// ----------------------------------------------------------------------------
// Tag ids of categories.
/// `resolve_category_id` holds of `r`: the first category that is neither
/// blank nor a device label decides, by its number, or else by a tag of that
/// name when there is one (any id that maps to the name); with none, the
/// all-tags id.
pub open spec fn category_id_ok(tags: Seq<(i64, Seq<char>)>, cats: Seq<Seq<char>>, r: i64) -> bool
    decreases cats.len(),
{
    if cats.len() == 0 {
        r == default_category_id()
    } else {
        let t = trim(cats[0]);
        if t.len() == 0 || starts_with(t, category_prefix()) {
            category_id_ok(tags, cats.drop_first(), r)
        } else {
            match parse_i64(t) {
                Some(v) => r == v,
                None => if names_tag(tags, t) {
                    tag_name(tags, r) == Some(t)
                } else {
                    category_id_ok(tags, cats.drop_first(), r)
                },
            }
        }
    }
}

/// `resolve_category_id`: the tag id a list of requested categories asks for.
pub fn resolve_category_id(tags: &[TagInfo], categories: &[String]) -> (r: i64)
    ensures
        category_id_ok(tvs(tags@), categories@.map_values(|s: String| s@), r),
{
    let ghost cats = categories@.map_values(|s: String| s@);
    let mut i: usize = 0;
    proof {
        assert(cats.skip(0) =~= cats);
    }
    while i < categories.len()
        invariant
            i <= categories@.len(),
            cats == categories@.map_values(|s: String| s@),
            forall|r: i64|
                category_id_ok(tvs(tags@), cats.skip(i as int), r) ==> category_id_ok(
                    tvs(tags@),
                    cats,
                    r,
                ),
        decreases categories@.len() - i,
    {
        let ghost rest = cats.skip(i as int);
        proof {
            assert(rest[0] == categories@[i as int]@);
            assert(rest.drop_first() =~= cats.skip(i + 1));
        }
        let t = trim_chars(categories[i].as_str());
        let prefix = chars_of("设备:");
        if t.len() > 0 && !chars_starts_with(t.as_slice(), prefix.as_slice()) {
            let ts = string_from_chars(t.as_slice());
            match parse_i64_str(ts.as_str()) {
                Some(v) => {
                    return v;
                },
                None => {},
            }
            match find_tag_id_named(tags, ts.as_str()) {
                Some(id) => {
                    return id;
                },
                None => {},
            }
        }
        i = i + 1;
    }
    proof {
        assert(cats.skip(i as int) =~= Seq::<Seq<char>>::empty());
    }
    9999
}

} // verus!
