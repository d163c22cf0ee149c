//! Watch faces of the mibandtool community: the listing order, duplicate
//! removal, tags, display names and links.
use vstd::prelude::*;
use crate::text::{
    trim, lower, starts_with, is_ascii_alnum, chars_of, chars_eq, trim_chars, lower_chars,
    string_from_chars, str_eq, str_starts_with, concat_str,
};
use crate::config::{clone_opt, ov};

verus! {

/// A watch face as the community server describes it. `device_type` is the
/// model code the face was made for (the server's `type` field).
#[derive(Debug)]
pub struct WatchfaceItem {
    pub id: i64,
    pub nickname: Option<String>,
    pub name: String,
    pub desc: Option<String>,
    pub download_times: Option<u64>,
    pub preview: Option<String>,
    pub preview_aod: Option<String>,
    pub created_at: Option<i64>,
    pub updated_at: Option<i64>,
    pub device_type: Option<String>,
    pub views: Option<u64>,
    pub is_recommend: Option<i64>,
    pub donation: Option<String>,
    pub is_tag: Option<i64>,
    pub filesize: Option<u64>,
    pub mitantid: Option<String>,
    pub mitantype: Option<String>,
}

impl WatchfaceItem {
    pub fn duplicate(&self) -> (r: WatchfaceItem)
        ensures
            r == *self,
    {
        WatchfaceItem {
            id: self.id,
            nickname: clone_opt(&self.nickname),
            name: self.name.clone(),
            desc: clone_opt(&self.desc),
            download_times: self.download_times,
            preview: clone_opt(&self.preview),
            preview_aod: clone_opt(&self.preview_aod),
            created_at: self.created_at,
            updated_at: self.updated_at,
            device_type: clone_opt(&self.device_type),
            views: self.views,
            is_recommend: self.is_recommend,
            donation: clone_opt(&self.donation),
            is_tag: self.is_tag,
            filesize: self.filesize,
            mitantid: clone_opt(&self.mitantid),
            mitantype: clone_opt(&self.mitantype),
        }
    }
}

/// How a listing is ordered.
#[derive(Clone, Copy, Debug, PartialEq, Eq, Structural)]
pub enum ListMode {
    Latest,
    Hot,
    Recommend,
}

pub open spec fn opt_text(o: Option<&str>) -> Option<Seq<char>> {
    match o {
        Some(s) => Some(s@),
        None => None,
    }
}

/// `resolve_list_mode`: the sort name, without case, `time` when absent.
pub open spec fn list_mode_of(sort: Option<Seq<char>>) -> ListMode {
    let l = match sort {
        Some(s) => lower(s),
        None => "time"@,
    };
    if l == "hot"@ || l == "popular"@ || l == "download"@ {
        ListMode::Hot
    } else if l == "recommend"@ || l == "recommended"@ {
        ListMode::Recommend
    } else {
        ListMode::Latest
    }
}

/// The name a mode is known by.
pub open spec fn mode_name(m: ListMode) -> Seq<char> {
    match m {
        ListMode::Latest => "time"@,
        ListMode::Hot => "hot"@,
        ListMode::Recommend => "recommend"@,
    }
}

impl ListMode {
    pub fn as_str(self) -> (r: &'static str)
        ensures
            r@ == mode_name(self),
    {
        match self {
            ListMode::Latest => "time",
            ListMode::Hot => "hot",
            ListMode::Recommend => "recommend",
        }
    }
}

fn text_is(s: &[char], lit: &str) -> (r: bool)
    ensures
        r == (s@ == lit@),
{
    let l = chars_of(lit);
    chars_eq(s, l.as_slice())
}

pub fn resolve_list_mode(sort: Option<&str>) -> (r: ListMode)
    ensures
        r == list_mode_of(opt_text(sort)),
{
    let l = match sort {
        Some(s) => lower_chars(chars_of(s).as_slice()),
        None => chars_of("time"),
    };
    proof {
        if sort is None {
            assert(l@ == "time"@);
        }
    }
    if text_is(l.as_slice(), "hot") || text_is(l.as_slice(), "popular") || text_is(
        l.as_slice(),
        "download",
    ) {
        ListMode::Hot
    } else if text_is(l.as_slice(), "recommend") || text_is(l.as_slice(), "recommended") {
        ListMode::Recommend
    } else {
        ListMode::Latest
    }
}

/// The name of a mode resolves back to the mode.
pub proof fn law_mode_name_round_trip(m: ListMode)
    ensures
        list_mode_of(Some(mode_name(m))) == m,
{
    reveal_strlit("time");
    reveal_strlit("hot");
    reveal_strlit("recommend");
    reveal_strlit("popular");
    reveal_strlit("download");
    reveal_strlit("recommended");
    match m {
        ListMode::Latest => {
            assert(lower("time"@) =~= "time"@);
        },
        ListMode::Hot => {
            assert(lower("hot"@) =~= "hot"@);
        },
        ListMode::Recommend => {
            assert(lower("recommend"@) =~= "recommend"@);
        },
    }
}

// ----------------------------------------------------------------------------
// Listing order.
pub open spec fn u_or_zero(o: Option<u64>) -> int {
    match o {
        Some(v) => v as int,
        None => 0,
    }
}

pub open spec fn i_or_zero(o: Option<i64>) -> int {
    match o {
        Some(v) => v as int,
        None => 0,
    }
}

/// The key a listing is ordered by, largest first: downloads, views, update
/// time and id for `Hot`; the recommendation flag, update time and id for
/// `Recommend`; update time, creation time and id for `Latest`.
pub open spec fn sort_key(it: WatchfaceItem, mode: ListMode) -> (int, int, int, int) {
    match mode {
        ListMode::Hot => (u_or_zero(it.download_times), u_or_zero(it.views), i_or_zero(it.updated_at), it.id as int),
        ListMode::Recommend => (i_or_zero(it.is_recommend), i_or_zero(it.updated_at), it.id as int, 0),
        ListMode::Latest => (i_or_zero(it.updated_at), i_or_zero(it.created_at), it.id as int, 0),
    }
}

/// Lexicographic `<` on keys.
pub open spec fn key_less(a: (int, int, int, int), b: (int, int, int, int)) -> bool {
    a.0 < b.0 || (a.0 == b.0 && (a.1 < b.1 || (a.1 == b.1 && (a.2 < b.2 || (a.2 == b.2 && a.3 < b.3)))))
}

/// `a` belongs strictly after `b` in the listing.
pub open spec fn ranks_below(a: WatchfaceItem, b: WatchfaceItem, mode: ListMode) -> bool {
    key_less(sort_key(a, mode), sort_key(b, mode))
}

/// Where `x` goes into an ordered listing: before the first item that ranks below it.
pub open spec fn insert_pos(s: Seq<WatchfaceItem>, x: WatchfaceItem, mode: ListMode) -> int
    decreases s.len(),
{
    if s.len() == 0 {
        0
    } else if ranks_below(s[0], x, mode) {
        0
    } else {
        1 + insert_pos(s.drop_first(), x, mode)
    }
}

/// The stable sort of a listing by its key, largest first (what `sort_by`
/// with the reversed key comparison gives): each item in turn goes before the
/// first already placed item that ranks below it.
pub open spec fn sorted_items(s: Seq<WatchfaceItem>, mode: ListMode) -> Seq<WatchfaceItem>
    decreases s.len(),
{
    if s.len() == 0 {
        seq![]
    } else {
        let r = sorted_items(s.drop_last(), mode);
        r.insert(insert_pos(r, s.last(), mode), s.last())
    }
}

/// No item ranks above an item before it.
pub open spec fn is_ranked(s: Seq<WatchfaceItem>, mode: ListMode) -> bool {
    forall|i: int, j: int| 0 <= i < j < s.len() ==> !ranks_below(#[trigger] s[i], #[trigger] s[j], mode)
}

fn rank_key(it: &WatchfaceItem, mode: ListMode) -> (k: (i128, i128, i128, i128))
    ensures
        k.0 == sort_key(*it, mode).0,
        k.1 == sort_key(*it, mode).1,
        k.2 == sort_key(*it, mode).2,
        k.3 == sort_key(*it, mode).3,
{
    let downloads: i128 = match it.download_times {
        Some(v) => v as i128,
        None => 0,
    };
    let views: i128 = match it.views {
        Some(v) => v as i128,
        None => 0,
    };
    let updated: i128 = match it.updated_at {
        Some(v) => v as i128,
        None => 0,
    };
    let created: i128 = match it.created_at {
        Some(v) => v as i128,
        None => 0,
    };
    let recommend: i128 = match it.is_recommend {
        Some(v) => v as i128,
        None => 0,
    };
    let id = it.id as i128;
    match mode {
        ListMode::Hot => (downloads, views, updated, id),
        ListMode::Recommend => (recommend, updated, id, 0),
        ListMode::Latest => (updated, created, id, 0),
    }
}

pub fn item_ranks_below(a: &WatchfaceItem, b: &WatchfaceItem, mode: ListMode) -> (r: bool)
    ensures
        r == ranks_below(*a, *b, mode),
{
    let ka = rank_key(a, mode);
    let kb = rank_key(b, mode);
    ka.0 < kb.0 || (ka.0 == kb.0 && (ka.1 < kb.1 || (ka.1 == kb.1 && (ka.2 < kb.2 || (ka.2 == kb.2
        && ka.3 < kb.3)))))
}

fn insert_position(s: &Vec<WatchfaceItem>, x: &WatchfaceItem, mode: ListMode) -> (p: usize)
    ensures
        p == insert_pos(s@, *x, mode),
{
    let mut j: usize = 0;
    proof {
        assert(s@.skip(0) =~= s@);
    }
    while j < s.len()
        invariant
            j <= s@.len(),
            insert_pos(s@, *x, mode) == j + insert_pos(s@.skip(j as int), *x, mode),
        decreases s@.len() - j,
    {
        proof {
            let rest = s@.skip(j as int);
            assert(rest[0] == s@[j as int]);
            assert(rest.drop_first() =~= s@.skip(j + 1));
        }
        if item_ranks_below(&s[j], x, mode) {
            return j;
        }
        j = j + 1;
    }
    proof {
        assert(s@.skip(j as int) =~= Seq::<WatchfaceItem>::empty());
    }
    j
}

/// `sort_watchface_items`: the stable sort of the listing by the key of the
/// named mode, largest first.
pub fn sort_watchface_items(items: &mut Vec<WatchfaceItem>, sort: Option<&str>)
    ensures
        final(items)@ == sorted_items(old(items)@, list_mode_of(opt_text(sort))),
{
    let mode = resolve_list_mode(sort);
    let mut input: Vec<WatchfaceItem> = Vec::new();
    std::mem::swap(items, &mut input);
    let ghost orig = input@;
    let total = input.len();
    let mut out: Vec<WatchfaceItem> = Vec::new();
    let mut k: usize = 0;
    proof {
        assert(orig.skip(0) =~= orig);
        assert(orig.take(0) =~= Seq::<WatchfaceItem>::empty());
    }
    while input.len() > 0
        invariant
            k <= orig.len(),
            orig.len() == total,
            input@ == orig.skip(k as int),
            out@ == sorted_items(orig.take(k as int), mode),
        decreases input@.len(),
    {
        let x = input.remove(0);
        let p = insert_position(&out, &x, mode);
        proof {
            lemma_insert_pos(out@, x, mode);
        }
        out.insert(p, x);
        proof {
            assert(orig.skip(k as int)[0] == x);
            assert(orig.skip(k as int).remove(0) =~= orig.skip(k + 1));
            let t = orig.take(k + 1);
            assert(t.drop_last() =~= orig.take(k as int));
            assert(t.last() == x);
        }
        k = k + 1;
    }
    proof {
        assert(orig.take(k as int) =~= orig);
    }
    *items = out;
}

pub proof fn lemma_insert_pos(s: Seq<WatchfaceItem>, x: WatchfaceItem, mode: ListMode)
    ensures
        0 <= insert_pos(s, x, mode) <= s.len(),
        forall|k: int| 0 <= k < insert_pos(s, x, mode) ==> !ranks_below(#[trigger] s[k], x, mode),
        insert_pos(s, x, mode) < s.len() ==> ranks_below(s[insert_pos(s, x, mode)], x, mode),
    decreases s.len(),
{
    if s.len() > 0 && !ranks_below(s[0], x, mode) {
        lemma_insert_pos(s.drop_first(), x, mode);
        assert forall|k: int| 0 <= k < insert_pos(s, x, mode) implies !ranks_below(
            #[trigger] s[k],
            x,
            mode,
        ) by {
            if k > 0 {
                assert(s[k] == s.drop_first()[k - 1]);
            }
        }
    }
}

pub proof fn lemma_insert_multiset<A>(s: Seq<A>, p: int, x: A)
    requires
        0 <= p <= s.len(),
    ensures
        s.insert(p, x).to_multiset() =~= s.to_multiset().insert(x),
{
    broadcast use vstd::seq_lib::group_to_multiset_ensures;
    broadcast use vstd::multiset::group_multiset_axioms;
    let t = s.insert(p, x);
    assert(t.remove(p) =~= s);
    assert(t[p] == x);
    assert(t.contains(x));
    assert(t.to_multiset().remove(x) =~= s.to_multiset());
    assert(t.to_multiset() =~= t.to_multiset().remove(x).insert(x));
}

/// The listing order is a sort: the result holds exactly the items given,
/// and no item in it ranks above an item before it.
pub proof fn law_sorted_items_ranked_permutation(s: Seq<WatchfaceItem>, mode: ListMode)
    ensures
        is_ranked(sorted_items(s, mode), mode),
        sorted_items(s, mode).to_multiset() == s.to_multiset(),
    decreases s.len(),
{
    broadcast use vstd::seq_lib::group_to_multiset_ensures;
    if s.len() > 0 {
        let r = sorted_items(s.drop_last(), mode);
        let x = s.last();
        law_sorted_items_ranked_permutation(s.drop_last(), mode);
        lemma_insert_pos(r, x, mode);
        let p = insert_pos(r, x, mode);
        let t = r.insert(p, x);
        lemma_insert_multiset(r, p, x);
        assert(s.drop_last().push(x) =~= s);
        assert forall|i: int, j: int| 0 <= i < j < t.len() implies !ranks_below(
            #[trigger] t[i],
            #[trigger] t[j],
            mode,
        ) by {
            if j < p {
                assert(t[i] == r[i] && t[j] == r[j]);
            } else if j == p {
                assert(t[i] == r[i]);
            } else if i < p {
                assert(t[i] == r[i] && t[j] == r[j - 1]);
            } else if i == p {
                assert(t[j] == r[j - 1]);
                assert(!ranks_below(r[p], r[j - 1], mode) || p == j - 1);
            } else {
                assert(t[i] == r[i - 1] && t[j] == r[j - 1]);
            }
        }
    }
}

// ----------------------------------------------------------------------------
// Duplicate removal.
/// The model a face is for, `mi7` when it names none.
pub open spec fn type_or_default(o: Option<String>) -> Seq<char> {
    match o {
        Some(s) => s@,
        None => "mi7"@,
    }
}

/// What makes two faces the same: their id and model. (Joined
/// into `"{id}:{model}"`, the decimal id holds no `:`, so two such texts
/// are equal exactly when the ids and the models are.)
pub open spec fn dedupe_key(it: WatchfaceItem) -> (i64, Seq<char>) {
    (it.id, type_or_default(it.device_type))
}

pub open spec fn has_key(s: Seq<WatchfaceItem>, k: (i64, Seq<char>)) -> bool {
    exists|i: int| 0 <= i < s.len() && dedupe_key(s[i]) == k
}

/// The first face of each key, in order.
pub open spec fn deduped(s: Seq<WatchfaceItem>) -> Seq<WatchfaceItem>
    decreases s.len(),
{
    if s.len() == 0 {
        seq![]
    } else {
        let r = deduped(s.drop_last());
        if has_key(r, dedupe_key(s.last())) {
            r
        } else {
            r.push(s.last())
        }
    }
}

pub open spec fn keys_distinct(s: Seq<WatchfaceItem>) -> bool {
    forall|i: int, j: int| 0 <= i < j < s.len() ==> dedupe_key(#[trigger] s[i]) != dedupe_key(#[trigger] s[j])
}

fn type_text(it: &WatchfaceItem) -> (r: &str)
    ensures
        r@ == type_or_default(it.device_type),
{
    match &it.device_type {
        Some(s) => s.as_str(),
        None => "mi7",
    }
}

fn same_key(a: &WatchfaceItem, b: &WatchfaceItem) -> (r: bool)
    ensures
        r == (dedupe_key(*a) == dedupe_key(*b)),
{
    a.id == b.id && str_eq(type_text(a), type_text(b))
}

/// `dedupe_watchface_items`: keeps the first face of each (id, model).
pub fn dedupe_watchface_items(items: &mut Vec<WatchfaceItem>)
    ensures
        final(items)@ == deduped(old(items)@),
{
    let mut input: Vec<WatchfaceItem> = Vec::new();
    std::mem::swap(items, &mut input);
    let ghost orig = input@;
    let total = input.len();
    let mut out: Vec<WatchfaceItem> = Vec::new();
    let mut k: usize = 0;
    proof {
        assert(orig.skip(0) =~= orig);
        assert(orig.take(0) =~= Seq::<WatchfaceItem>::empty());
    }
    while input.len() > 0
        invariant
            k <= orig.len(),
            orig.len() == total,
            input@ == orig.skip(k as int),
            out@ == deduped(orig.take(k as int)),
        decreases input@.len(),
    {
        let x = input.remove(0);
        proof {
            assert(orig.skip(k as int)[0] == x);
            assert(orig.skip(k as int).remove(0) =~= orig.skip(k + 1));
            let t = orig.take(k + 1);
            assert(t.drop_last() =~= orig.take(k as int));
            assert(t.last() == x);
        }
        let mut seen = false;
        let mut j: usize = 0;
        while j < out.len()
            invariant
                j <= out@.len(),
                seen == exists|i: int| 0 <= i < j && dedupe_key(out@[i]) == dedupe_key(x),
            decreases out@.len() - j,
        {
            if same_key(&out[j], &x) {
                seen = true;
            }
            j = j + 1;
        }
        if !seen {
            out.push(x);
        }
        k = k + 1;
    }
    proof {
        assert(orig.take(k as int) =~= orig);
    }
    *items = out;
}

/// The hot listing: more downloads first; at equal downloads, more views
/// first, whatever the update times; then the later update; then the larger
/// id (a missing count or time counts as 0).
pub proof fn law_hot_order(s: Seq<WatchfaceItem>)
    ensures
        forall|i: int, j: int|
            0 <= i < j < sorted_items(s, ListMode::Hot).len() ==> {
                let a = #[trigger] sorted_items(s, ListMode::Hot)[i];
                let b = #[trigger] sorted_items(s, ListMode::Hot)[j];
                let (da, db) = (u_or_zero(a.download_times), u_or_zero(b.download_times));
                let (va, vb) = (u_or_zero(a.views), u_or_zero(b.views));
                let (ua, ub) = (i_or_zero(a.updated_at), i_or_zero(b.updated_at));
                &&& da >= db
                &&& da == db ==> va >= vb
                &&& da == db && va == vb ==> ua >= ub
                &&& da == db && va == vb && ua == ub ==> a.id >= b.id
            },
{
    law_sorted_items_ranked_permutation(s, ListMode::Hot);
}

/// The recommended listing: recommended faces (by their flag, largest
/// first); at an equal flag the later update; then the larger id.
pub proof fn law_recommend_order(s: Seq<WatchfaceItem>)
    ensures
        forall|i: int, j: int|
            0 <= i < j < sorted_items(s, ListMode::Recommend).len() ==> {
                let a = #[trigger] sorted_items(s, ListMode::Recommend)[i];
                let b = #[trigger] sorted_items(s, ListMode::Recommend)[j];
                let (ra, rb) = (i_or_zero(a.is_recommend), i_or_zero(b.is_recommend));
                let (ua, ub) = (i_or_zero(a.updated_at), i_or_zero(b.updated_at));
                &&& ra >= rb
                &&& ra == rb ==> ua >= ub
                &&& ra == rb && ua == ub ==> a.id >= b.id
            },
{
    law_sorted_items_ranked_permutation(s, ListMode::Recommend);
}

/// The latest listing: the later update first; at an equal update time the
/// later creation; then the larger id.
pub proof fn law_latest_order(s: Seq<WatchfaceItem>)
    ensures
        forall|i: int, j: int|
            0 <= i < j < sorted_items(s, ListMode::Latest).len() ==> {
                let a = #[trigger] sorted_items(s, ListMode::Latest)[i];
                let b = #[trigger] sorted_items(s, ListMode::Latest)[j];
                let (ua, ub) = (i_or_zero(a.updated_at), i_or_zero(b.updated_at));
                let (ca, cb) = (i_or_zero(a.created_at), i_or_zero(b.created_at));
                &&& ua >= ub
                &&& ua == ub ==> ca >= cb
                &&& ua == ub && ca == cb ==> a.id >= b.id
            },
{
    law_sorted_items_ranked_permutation(s, ListMode::Latest);
}

/// After duplicate removal no two faces share a key, every key of the input
/// is still there, and each face kept is one of the input.
pub proof fn law_dedupe_distinct_keys(s: Seq<WatchfaceItem>)
    ensures
        keys_distinct(deduped(s)),
        forall|k: (i64, Seq<char>)| has_key(deduped(s), k) <==> has_key(s, k),
        forall|i: int| 0 <= i < deduped(s).len() ==> s.contains(#[trigger] deduped(s)[i]),
    decreases s.len(),
{
    if s.len() > 0 {
        let p = s.drop_last();
        let r = deduped(p);
        law_dedupe_distinct_keys(p);
        let x = s.last();
        assert forall|k: (i64, Seq<char>)| has_key(deduped(s), k) <==> has_key(s, k) by {
            if has_key(s, k) {
                let i = choose|i: int| 0 <= i < s.len() && dedupe_key(s[i]) == k;
                if i < s.len() - 1 {
                    assert(p[i] == s[i]);
                    assert(has_key(p, k));
                    assert(has_key(r, k));
                    let j = choose|j: int| 0 <= j < r.len() && dedupe_key(r[j]) == k;
                    if !has_key(r, dedupe_key(x)) {
                        assert(r.push(x)[j] == r[j]);
                    }
                } else {
                    if !has_key(r, dedupe_key(x)) {
                        assert(r.push(x)[r.len() as int] == x);
                    }
                }
            }
            if has_key(deduped(s), k) {
                let j = choose|j: int| 0 <= j < deduped(s).len() && dedupe_key(deduped(s)[j]) == k;
                if has_key(r, dedupe_key(x)) {
                    assert(has_key(r, k));
                    let i = choose|i: int| 0 <= i < p.len() && dedupe_key(p[i]) == k;
                    assert(s[i] == p[i]);
                } else if j < r.len() {
                    assert(r.push(x)[j] == r[j]);
                    assert(has_key(r, k));
                    let i = choose|i: int| 0 <= i < p.len() && dedupe_key(p[i]) == k;
                    assert(s[i] == p[i]);
                } else {
                    assert(dedupe_key(s[s.len() - 1]) == k);
                }
            }
        }
        assert forall|i: int| 0 <= i < deduped(s).len() implies s.contains(#[trigger] deduped(s)[i]) by {
            if i < r.len() {
                if !has_key(r, dedupe_key(x)) {
                    assert(r.push(x)[i] == r[i]);
                }
                assert(p.contains(r[i]));
                let m = choose|m: int| 0 <= m < p.len() && p[m] == r[i];
                assert(s[m] == p[m]);
            } else {
                assert(s[s.len() - 1] == x);
            }
        }
        if !has_key(r, dedupe_key(x)) {
            let t = r.push(x);
            assert forall|i: int, j: int| 0 <= i < j < t.len() implies dedupe_key(#[trigger] t[i])
                != dedupe_key(#[trigger] t[j]) by {
                if j == r.len() {
                    assert(t[i] == r[i]);
                } else {
                    assert(t[i] == r[i] && t[j] == r[j]);
                }
            }
        }
    }
}

} // verus!
