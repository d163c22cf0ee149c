//! Paging of the community listings: the listing address of a page, how a
//! search is spread over the server's fixed-size pages, the index listing
//! that merges every supported model, and the freshness of cached answers.
use vstd::prelude::*;
use crate::numbers::{nat_text, int_text, u64_to_text, i64_to_text};
use crate::text::concat_str;
use crate::config::{nonblank, nonblank_text};
use crate::api::join;
use crate::catalog::{
    WatchfaceItem, ListMode, sorted_items, deduped, is_ranked, keys_distinct, mode_name,
    list_mode_of, opt_text, law_mode_name_round_trip, law_sorted_items_ranked_permutation,
    law_dedupe_distinct_keys, dedupe_watchface_items, sort_watchface_items,
};

verus! {

/// The server's search page size.
pub open spec fn search_page_size() -> int {
    10
}

/// The page size asked of each model when listings are merged.
pub open spec fn merged_page_size() -> int {
    12
}

/// How long a cached answer stays fresh, in milliseconds.
pub open spec fn cache_ttl_ms() -> int {
    300000
}

/// `a * b`, or `usize::MAX` when that does not fit (`saturating_mul`).
pub open spec fn sat_mul(a: int, b: int) -> int {
    if a * b > usize::MAX {
        usize::MAX as int
    } else {
        a * b
    }
}

/// `a + b`, or `usize::MAX` when that does not fit (`saturating_add`).
pub open spec fn sat_add(a: int, b: int) -> int {
    if a + b > usize::MAX {
        usize::MAX as int
    } else {
        a + b
    }
}

pub fn saturating_mul(a: usize, b: usize) -> (r: usize)
    ensures
        r == sat_mul(a as int, b as int),
{
    match a.checked_mul(b) {
        Some(v) => v,
        None => usize::MAX,
    }
}

/// A cached answer is fresh while its expiry lies ahead.
pub fn is_cache_entry_fresh(expires_at_ms: u128, now_ms: u128) -> (r: bool)
    ensures
        r == (expires_at_ms > now_ms),
{
    expires_at_ms > now_ms
}

/// When an answer cached now expires.
pub fn cache_expiry(now_ms: u128) -> (r: u128)
    ensures
        r == if now_ms + cache_ttl_ms() > u128::MAX { u128::MAX as int } else { now_ms + cache_ttl_ms() },
{
    now_ms.saturating_add(300000)
}

// ----------------------------------------------------------------------------
// Listing pages.
/// The path of a listing page: the latest or the most downloaded faces of
/// a tag, or the recommended ones.
pub open spec fn watchface_page_path(mode: ListMode, page: nat, limit: nat, tag_id: i64) -> Seq<char> {
    let tail = nat_text(page) + "/"@ + nat_text(limit) + "/"@ + int_text(tag_id as int);
    match mode {
        ListMode::Latest => "watchface/listbytag/0/"@ + tail,
        ListMode::Hot => "watchface/listbytag/1/"@ + tail,
        ListMode::Recommend => "watchface/list/recommendsbytag/"@ + tail,
    }
}

pub fn build_watchface_page_path(mode: ListMode, page: usize, limit: usize, tag_id: i64) -> (r: String)
    ensures
        r@ == watchface_page_path(mode, page as nat, limit as nat, tag_id),
{
    let p = u64_to_text(page as u64);
    let l = u64_to_text(limit as u64);
    let t = i64_to_text(tag_id);
    let head = match mode {
        ListMode::Latest => "watchface/listbytag/0/",
        ListMode::Hot => "watchface/listbytag/1/",
        ListMode::Recommend => "watchface/list/recommendsbytag/",
    };
    let r = join(&[head, p.as_str(), "/", l.as_str(), "/", t.as_str()]);
    proof {
        reveal_with_fuel(Seq::fold_left, 7);
        assert(r@ =~= watchface_page_path(mode, page as nat, limit as nat, tag_id));
    }
    r
}

// ----------------------------------------------------------------------------
// Searching.
/// Which server pages a search for a page of results reads, and where in
/// what they return the page starts.
pub struct SearchPlan {
    pub offset: usize,
    pub start_page: usize,
    pub end_page: usize,
    pub slice_start: usize,
}

/// A search's arithmetic: the results before the page, the first
/// and last server page that hold the page (at least the first), and where
/// the page starts in the first server page.
pub open spec fn search_plan(page: int, limit: int) -> (int, int, int, int) {
    let offset = sat_mul(page, limit);
    let start = offset / search_page_size() + 1;
    let needed = offset + limit;
    let end_raw = (needed + search_page_size() - 1) / search_page_size();
    let end = if end_raw < start { start } else { end_raw };
    (offset, start, end, offset % search_page_size())
}

/// The plan of a search; the limit is added to the offset unchecked,
/// so a sum beyond `usize` is left out.
pub fn plan_search(page: usize, limit: usize) -> (r: SearchPlan)
    requires
        sat_mul(page as int, limit as int) + limit <= usize::MAX,
    ensures
        (r.offset as int, r.start_page as int, r.end_page as int, r.slice_start as int) == search_plan(
            page as int,
            limit as int,
        ),
{
    let offset = saturating_mul(page, limit);
    let start = offset / 10 + 1;
    let needed = offset + limit;
    let end_raw = if needed % 10 == 0 {
        needed / 10
    } else {
        needed / 10 + 1
    };
    let end = if end_raw < start {
        start
    } else {
        end_raw
    };
    proof {
        assert((needed + 9) / 10 == end_raw) by (nonlinear_arith)
            requires
                end_raw as int == (if needed % 10 == 0 { (needed / 10) as int } else { needed / 10 + 1 }),
                needed >= 0,
        ;
    }
    SearchPlan { offset, start_page: start, end_page: end, slice_start: offset % 10 }
}

/// The results of one server page are added; the search stops at a short page.
pub fn collect_search_page(all: &mut Vec<WatchfaceItem>, page_items: Vec<WatchfaceItem>) -> (reached_end: bool)
    ensures
        final(all)@ == old(all)@ + page_items@,
        reached_end == (page_items@.len() < search_page_size()),
{
    let n = page_items.len();
    let mut rest = page_items;
    all.append(&mut rest);
    n < 10
}

/// `skip(from).take(count)` of a listing.
pub open spec fn window(s: Seq<WatchfaceItem>, from: int, count: int) -> Seq<WatchfaceItem> {
    let a = if from < s.len() { from } else { s.len() as int };
    let b = if a + count < s.len() { a + count } else { s.len() as int };
    s.subrange(a, b)
}

pub fn take_window(items: &Vec<WatchfaceItem>, from: usize, count: usize) -> (r: Vec<WatchfaceItem>)
    ensures
        r@ == window(items@, from as int, count as int),
{
    let n = items.len();
    let a = if from < n {
        from
    } else {
        n
    };
    let b = if count < n - a {
        a + count
    } else {
        n
    };
    let mut out: Vec<WatchfaceItem> = Vec::new();
    let mut i: usize = a;
    while i < b
        invariant
            a <= i <= b,
            b <= items@.len(),
            out@ == items@.subrange(a as int, i as int),
        decreases b - i,
    {
        out.push(items[i].duplicate());
        proof {
            assert(out@ =~= items@.subrange(a as int, i + 1));
        }
        i = i + 1;
    }
    out
}

/// The page of a search once its server pages are in.
pub fn finish_search(all: &Vec<WatchfaceItem>, plan: &SearchPlan, limit: usize) -> (r: Vec<WatchfaceItem>)
    ensures
        r@ == window(all@, plan.slice_start as int, limit as int),
{
    take_window(all, plan.slice_start, limit)
}

// ----------------------------------------------------------------------------
// The merged index of all supported models.
/// What the merged index has gathered: the faces so far and, for each model
/// in the order of the model list, the next page to ask for and whether the
/// model has run out.
pub struct AggregateIndexState {
    pub items: Vec<WatchfaceItem>,
    pub next_pages: Vec<usize>,
    pub exhausted: Vec<bool>,
}

/// The number of models that have run out.
pub open spec fn exhausted_count(s: Seq<bool>) -> int
    decreases s.len(),
{
    if s.len() == 0 {
        0
    } else {
        exhausted_count(s.drop_last()) + if s.last() { 1int } else { 0 }
    }
}

pub proof fn lemma_exhausted_count_bound(s: Seq<bool>)
    ensures
        0 <= exhausted_count(s) <= s.len(),
    decreases s.len(),
{
    if s.len() > 0 {
        lemma_exhausted_count_bound(s.drop_last());
    }
}

/// The faces of the pages of a round, in order.
pub open spec fn round_items(f: Seq<Option<Vec<WatchfaceItem>>>) -> Seq<WatchfaceItem>
    decreases f.len(),
{
    if f.len() == 0 {
        Seq::<WatchfaceItem>::empty()
    } else {
        round_items(f.drop_last()) + match f.last() {
            Some(v) => v@,
            None => Seq::<WatchfaceItem>::empty(),
        }
    }
}

/// What a round does to one model: not asked, it is left as it was; an
/// empty page marks it run out; otherwise it moves on a page, and a short
/// page (under 10 results for a search, under 12 otherwise) marks it run out.
pub open spec fn device_after(
    old_next: usize,
    old_exhausted: bool,
    f: Option<Vec<WatchfaceItem>>,
    searching: bool,
    new_next: usize,
    new_exhausted: bool,
) -> bool {
    match f {
        None => new_next == old_next && new_exhausted == old_exhausted,
        Some(v) => if v@.len() == 0 {
            new_next == old_next && new_exhausted
        } else {
            let expected = if searching { search_page_size() } else { merged_page_size() };
            new_next == sat_add(old_next as int, 1) && new_exhausted == (old_exhausted || v@.len() < expected)
        },
    }
}

impl AggregateIndexState {
    /// One entry per model in both tables.
    pub open spec fn wf(&self) -> bool {
        self.next_pages@.len() == self.exhausted@.len()
    }

    /// A fresh merged index: nothing gathered, every model at page 1.
    pub fn new(device_count: usize) -> (r: AggregateIndexState)
        ensures
            r.wf(),
            r.items@.len() == 0,
            r.next_pages@ == Seq::new(device_count as nat, |i: int| 1usize),
            r.exhausted@ == Seq::new(device_count as nat, |i: int| false),
    {
        let mut next_pages: Vec<usize> = Vec::new();
        let mut exhausted: Vec<bool> = Vec::new();
        let mut i: usize = 0;
        while i < device_count
            invariant
                i <= device_count,
                next_pages@ == Seq::new(i as nat, |k: int| 1usize),
                exhausted@ == Seq::new(i as nat, |k: int| false),
            decreases device_count - i,
        {
            next_pages.push(1);
            exhausted.push(false);
            proof {
                assert(next_pages@ =~= Seq::new((i + 1) as nat, |k: int| 1usize));
                assert(exhausted@ =~= Seq::new((i + 1) as nat, |k: int| false));
            }
            i = i + 1;
        }
        AggregateIndexState { items: Vec::new(), next_pages, exhausted }
    }

    /// The page to ask the model at `index` for, `None` once it has run out.
    pub fn device_page_request(&self, index: usize) -> (r: Option<usize>)
        requires
            self.wf(),
            index < self.exhausted@.len(),
        ensures
            r == if self.exhausted@[index as int] { None } else { Some(self.next_pages@[index as int]) },
    {
        if self.exhausted[index] {
            None
        } else {
            Some(self.next_pages[index])
        }
    }

    /// What one model's page does to the state: an empty page marks the
    /// model run out; otherwise its faces are added, the model moves on a
    /// page, and a short page (under 10 results for a search, under 12
    /// otherwise) marks it run out. Answers whether faces were added.
    pub fn apply_device_page(
        &mut self,
        index: usize,
        page: usize,
        fetched: Vec<WatchfaceItem>,
        searching: bool,
    ) -> (appended: bool)
        requires
            old(self).wf(),
            index < old(self).exhausted@.len(),
        ensures
            final(self).wf(),
            appended == (fetched@.len() > 0),
            forall|j: int|
                0 <= j < old(self).exhausted@.len() && old(self).exhausted@[j] ==> #[trigger] final(self).exhausted@[j],
            fetched@.len() == 0 ==> {
                &&& final(self).items@ == old(self).items@
                &&& final(self).next_pages@ == old(self).next_pages@
                &&& final(self).exhausted@ == old(self).exhausted@.update(index as int, true)
            },
            fetched@.len() > 0 ==> {
                let expected = if searching { search_page_size() } else { merged_page_size() };
                &&& final(self).items@ == old(self).items@ + fetched@
                &&& final(self).next_pages@ == old(self).next_pages@.update(
                    index as int,
                    sat_add(page as int, 1) as usize,
                )
                &&& final(self).exhausted@ == old(self).exhausted@.update(
                    index as int,
                    old(self).exhausted@[index as int] || fetched@.len() < expected,
                )
            },
    {
        let n = fetched.len();
        if n == 0 {
            self.exhausted.set(index, true);
            return false;
        }
        let expected: usize = if searching {
            10
        } else {
            12
        };
        if n < expected {
            self.exhausted.set(index, true);
        }
        self.next_pages.set(index, page.saturating_add(1));
        let mut rest = fetched;
        self.items.append(&mut rest);
        true
    }

    /// The end of a round over the models: when any faces were added, the
    /// list loses its duplicates and is put in the listing order.
    pub fn finish_round(&mut self, appended: bool, mode: ListMode)
        ensures
            final(self).next_pages == old(self).next_pages,
            final(self).exhausted == old(self).exhausted,
            appended ==> final(self).items@ == sorted_items(deduped(old(self).items@), mode),
            appended ==> is_ranked(final(self).items@, mode),
            !appended ==> final(self).items@ == old(self).items@,
    {
        if appended {
            dedupe_watchface_items(&mut self.items);
            sort_watchface_items(&mut self.items, Some(mode.as_str()));
            proof {
                law_mode_name_round_trip(mode);
                law_sorted_items_ranked_permutation(deduped(old(self).items@), mode);
            }
        }
    }

    /// One round over the models: `fetched` holds, for each model in order,
    /// the page fetched for it (its next page), or `None` for a model that
    /// has run out and was not asked. Every page is taken in as
    /// `apply_device_page` does, then the round is finished as `finish_round`
    /// does: the faces gathered become the old ones and every page's, without
    /// duplicates and in the listing order. Answers whether faces were added.
    pub fn apply_round(&mut self, fetched: Vec<Option<Vec<WatchfaceItem>>>, searching: bool, mode: ListMode) -> (appended: bool)
        requires
            old(self).wf(),
            fetched@.len() == old(self).exhausted@.len(),
            forall|j: int| 0 <= j < fetched@.len() ==> (#[trigger] fetched@[j] is Some <==> !old(self).exhausted@[j]),
        ensures
            final(self).wf(),
            final(self).exhausted@.len() == old(self).exhausted@.len(),
            appended == (round_items(fetched@).len() > 0),
            appended ==> final(self).items@ == sorted_items(deduped(old(self).items@ + round_items(fetched@)), mode),
            appended ==> is_ranked(final(self).items@, mode),
            !appended ==> final(self).items@ == old(self).items@,
            forall|j: int|
                0 <= j < fetched@.len() ==> device_after(
                    old(self).next_pages@[j],
                    old(self).exhausted@[j],
                    #[trigger] fetched@[j],
                    searching,
                    final(self).next_pages@[j],
                    final(self).exhausted@[j],
                ),
    {
        let ghost s0 = *self;
        let ghost all = fetched@;
        let n = fetched.len();
        let mut rest = fetched;
        let mut appended = false;
        let mut i: usize = 0;
        proof {
            assert(all.skip(0) =~= all);
            assert(all.take(0) =~= Seq::<Option<Vec<WatchfaceItem>>>::empty());
            assert(s0.items@ + round_items(all.take(0)) =~= s0.items@);
        }
        while i < n
            invariant
                self.wf(),
                n == all.len(),
                self.exhausted@.len() == n,
                s0.exhausted@.len() == n,
                s0.next_pages@.len() == n,
                i <= n,
                rest@ == all.skip(i as int),
                self.items@ == s0.items@ + round_items(all.take(i as int)),
                appended == (round_items(all.take(i as int)).len() > 0),
                forall|j: int| 0 <= j < n ==> (#[trigger] all[j] is Some <==> !s0.exhausted@[j]),
                forall|j: int|
                    0 <= j < i ==> device_after(
                        s0.next_pages@[j],
                        s0.exhausted@[j],
                        #[trigger] all[j],
                        searching,
                        self.next_pages@[j],
                        self.exhausted@[j],
                    ),
                forall|j: int| i <= j < n ==> #[trigger] self.next_pages@[j] == s0.next_pages@[j],
                forall|j: int| i <= j < n ==> #[trigger] self.exhausted@[j] == s0.exhausted@[j],
            decreases n - i,
        {
            let f = rest.remove(0);
            let ghost before = *self;
            proof {
                assert(f == all[i as int]);
                assert(rest@ =~= all.skip(i + 1));
                assert(all.take(i + 1) =~= all.take(i as int).push(all[i as int]));
                assert(all.take(i + 1).drop_last() =~= all.take(i as int));
            }
            match f {
                Some(v) => {
                    let page = self.next_pages[i];
                    let got = self.apply_device_page(i, page, v, searching);
                    if got {
                        appended = true;
                    }
                    proof {
                        assert(self.items@ =~= s0.items@ + round_items(all.take(i + 1)));
                    }
                },
                None => {
                    proof {
                        assert(round_items(all.take(i + 1)) =~= round_items(all.take(i as int)));
                    }
                },
            }
            proof {
                assert forall|j: int| 0 <= j < i + 1 implies device_after(
                    s0.next_pages@[j],
                    s0.exhausted@[j],
                    #[trigger] all[j],
                    searching,
                    self.next_pages@[j],
                    self.exhausted@[j],
                ) by {
                    if j < i {
                        assert(device_after(
                            s0.next_pages@[j],
                            s0.exhausted@[j],
                            all[j],
                            searching,
                            before.next_pages@[j],
                            before.exhausted@[j],
                        ));
                    }
                }
                assert forall|j: int| i + 1 <= j < n implies #[trigger] self.next_pages@[j] == s0.next_pages@[j] by {
                    assert(before.next_pages@[j] == s0.next_pages@[j]);
                }
                assert forall|j: int| i + 1 <= j < n implies #[trigger] self.exhausted@[j] == s0.exhausted@[j] by {
                    assert(before.exhausted@[j] == s0.exhausted@[j]);
                }
            }
            i = i + 1;
        }
        proof {
            assert(all.take(n as int) =~= all);
        }
        self.finish_round(appended, mode);
        appended
    }

    /// Whether a round made the list longer than the `before` faces it had;
    /// a round that did not ends the gathering.
    pub fn grew_since(&self, before: usize) -> (r: bool)
        ensures
            r == (self.items@.len() != before),
    {
        self.items.len() != before
    }

    /// Whether another round is due: fewer faces than wanted, and some
    /// model not run out.
    pub fn needs_more(&self, target: usize) -> (r: bool)
        requires
            self.wf(),
        ensures
            r == (self.items@.len() < target && exhausted_count(self.exhausted@) < self.exhausted@.len()),
    {
        let mut count: usize = 0;
        let mut i: usize = 0;
        while i < self.exhausted.len()
            invariant
                i <= self.exhausted@.len(),
                count == exhausted_count(self.exhausted@.subrange(0, i as int)),
            decreases self.exhausted@.len() - i,
        {
            proof {
                let s = self.exhausted@.subrange(0, i + 1);
                assert(s.drop_last() =~= self.exhausted@.subrange(0, i as int));
                lemma_exhausted_count_bound(self.exhausted@.subrange(0, i as int));
            }
            if self.exhausted[i] {
                count = count + 1;
            }
            i = i + 1;
        }
        proof {
            assert(self.exhausted@.subrange(0, i as int) =~= self.exhausted@);
        }
        self.items.len() < target && count < self.exhausted.len()
    }

    /// The page of the merged index.
    pub fn page_items(&self, page: usize, limit: usize) -> (r: Vec<WatchfaceItem>)
        ensures
            r@ == window(self.items@, sat_mul(page as int, limit as int), limit as int),
    {
        take_window(&self.items, saturating_mul(page, limit), limit)
    }
}

/// How many faces the merged index gathers for a page: all up to its end.
pub fn aggregate_target_count(page: usize, limit: usize) -> (r: usize)
    ensures
        r == sat_add(sat_mul(page as int, limit as int), limit as int),
{
    saturating_mul(page, limit).saturating_add(limit)
}

} // verus!
