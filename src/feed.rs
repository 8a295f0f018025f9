//! The state of an infinitely scrolling feed: which page comes next, whether a
//! fetch is in flight, whether the data has run out, and the items gathered so
//! far, deduplicated by key.
//!
//! The feed never fetches anything itself. Each operation decides, from the
//! current state and one event, the next state and the page (if any) that the
//! caller must now fetch; the caller performs the fetch and reports back with
//! `receive_page` or `fetch_failed`.
use std::collections::HashSet;
use vstd::prelude::*;

verus! {

broadcast use vstd::std_specs::hash::group_hash_axioms;

/// An item of a feed, with the identity that deduplication goes by.
pub trait FeedItem {
    /// The key, as the contracts speak of it; `key` returns the same value.
    spec fn key_of(&self) -> i64;

    fn key(&self) -> (k: i64)
        ensures
            k == self.key_of(),
    ;
}

/// Whether some item of `s` has key `k`.
pub open spec fn seen<T: FeedItem>(s: Seq<T>, k: i64) -> bool {
    exists|i: int| 0 <= i < s.len() && #[trigger] s[i].key_of() == k
}

/// No two items of `s` share a key.
pub open spec fn unique_keys<T: FeedItem>(s: Seq<T>) -> bool {
    forall|i: int, j: int|
        0 <= i < s.len() && 0 <= j < s.len() && i != j ==> #[trigger] s[i].key_of()
            != #[trigger] s[j].key_of()
}

/// `s` with every item dropped whose key already occurred earlier in `s`.
pub open spec fn dedup<T: FeedItem>(s: Seq<T>) -> Seq<T>
    decreases s.len(),
{
    if s.len() == 0 {
        Seq::empty()
    } else {
        let rest = dedup(s.drop_last());
        if seen(s.drop_last(), s.last().key_of()) {
            rest
        } else {
            rest.push(s.last())
        }
    }
}

/// Item `i` of `s` is the first one with its key.
pub open spec fn first_with_key<T: FeedItem>(s: Seq<T>, i: int) -> bool {
    &&& 0 <= i < s.len()
    &&& forall|j: int| 0 <= j < i ==> #[trigger] s[j].key_of() != s[i].key_of()
}

/// The items that a feed seeded with `seed` holds after merging `pages`, one
/// after the other.
pub open spec fn merge_pages<T: FeedItem>(seed: Seq<T>, pages: Seq<Seq<T>>) -> Seq<T>
    decreases pages.len(),
{
    if pages.len() == 0 {
        dedup(seed)
    } else {
        dedup(merge_pages(seed, pages.drop_last()) + pages.last())
    }
}

/// What is known of a feed.
pub struct FeedModel<T> {
    pub items: Seq<T>,
    pub current_page: int,
    pub loading: bool,
    pub at_end: bool,
    pub failed: bool,
    pub alive: bool,
}

/// A fetch may start: the feed is live, idle, not at its end, and has a page
/// number left.
pub open spec fn can_advance<T>(m: FeedModel<T>) -> bool {
    m.alive && !m.loading && !m.at_end && m.current_page < u64::MAX
}

/// The feed after `advance`.
pub open spec fn after_advance<T>(m: FeedModel<T>) -> FeedModel<T> {
    if can_advance(m) {
        FeedModel { current_page: m.current_page + 1, loading: true, failed: false, ..m }
    } else {
        m
    }
}

/// The page that `advance` asks for, if any.
pub open spec fn requested_page<T>(m: FeedModel<T>) -> Option<int> {
    if can_advance(m) {
        Some(m.current_page + 1)
    } else {
        None
    }
}

/// `advance` called `n` times in a row, with no page arriving in between.
pub open spec fn advance_times<T>(m: FeedModel<T>, n: nat) -> FeedModel<T>
    decreases n,
{
    if n == 0 {
        m
    } else {
        after_advance(advance_times(m, (n - 1) as nat))
    }
}

/// The feed after the page that was asked for arrives.
pub open spec fn after_receive<T: FeedItem>(m: FeedModel<T>, page: Seq<T>) -> FeedModel<T> {
    if m.alive && m.loading {
        FeedModel {
            items: dedup(m.items + page),
            loading: false,
            at_end: m.at_end || page.len() == 0,
            ..m
        }
    } else {
        m
    }
}

/// The feed after the fetch that was asked for failed: the page is asked for
/// again on the next `advance`.
pub open spec fn after_failure<T>(m: FeedModel<T>) -> FeedModel<T> {
    if m.alive && m.loading {
        FeedModel { current_page: m.current_page - 1, loading: false, failed: true, ..m }
    } else {
        m
    }
}

/// The feed emptied and rewound before page one.
pub open spec fn cleared<T>(m: FeedModel<T>) -> FeedModel<T> {
    FeedModel { items: Seq::empty(), current_page: 0, at_end: false, failed: false, ..m }
}

/// A forced refresh starts: the feed is live and no fetch is in flight.
pub open spec fn can_refresh<T>(m: FeedModel<T>) -> bool {
    m.alive && !m.loading
}

/// The feed after a forced refresh.
pub open spec fn after_refresh<T>(m: FeedModel<T>) -> FeedModel<T> {
    if can_refresh(m) {
        after_advance(cleared(m))
    } else {
        m
    }
}

/// The page that a forced refresh asks for, if any.
pub open spec fn refresh_page<T>(m: FeedModel<T>) -> Option<int> {
    if can_refresh(m) {
        requested_page(cleared(m))
    } else {
        None
    }
}

/// Overscroll past the top, in pixels, that forces a refresh.
pub const REFRESH_OVERSCROLL: i64 = 30;

/// Distance from the end of the content, in pixels, within which more is loaded.
pub const LOAD_AHEAD: i64 = 1500;

/// The reader has pulled the page down past its top.
pub open spec fn pulls_to_refresh(y_scroll: int) -> bool {
    y_scroll < -REFRESH_OVERSCROLL
}

/// The reader is near enough to the end of the content to load more.
pub open spec fn near_bottom(y_scroll: int, scroll_height: int) -> bool {
    y_scroll >= scroll_height - LOAD_AHEAD
}

/// The feed after the reader scrolls to `y_scroll` in content `scroll_height` high.
pub open spec fn after_scroll<T>(m: FeedModel<T>, y_scroll: int, scroll_height: int) -> FeedModel<
    T,
> {
    if pulls_to_refresh(y_scroll) {
        after_refresh(m)
    } else if near_bottom(y_scroll, scroll_height) {
        after_advance(m)
    } else {
        m
    }
}

/// The page that a scroll to `y_scroll` asks for, if any.
pub open spec fn scroll_page<T>(m: FeedModel<T>, y_scroll: int, scroll_height: int) -> Option<int> {
    if pulls_to_refresh(y_scroll) {
        refresh_page(m)
    } else if near_bottom(y_scroll, scroll_height) {
        requested_page(m)
    } else {
        None
    }
}

/// The page number as the caller sees it.
pub open spec fn page_number(r: Option<u64>) -> Option<int> {
    match r {
        Some(p) => Some(p as int),
        None => None,
    }
}

/// What a feed hands over when it is torn down, and takes back when it is
/// built again for the same cache key: its items and where the reader was.
pub struct ScrollerData<T> {
    pub y_scroll: i64,
    pub data: Vec<T>,
}

/// The live state of one feed.
pub struct InfinitePage<T> {
    items: Vec<T>,
    current_page: u64,
    loading: bool,
    at_end: bool,
    failed: bool,
    alive: bool,
    cache_key: u64,
    scroll_restore: Option<i64>,
}

impl<T: FeedItem> View for InfinitePage<T> {
    type V = FeedModel<T>;

    closed spec fn view(&self) -> FeedModel<T> {
        FeedModel {
            items: self.items@,
            current_page: self.current_page as int,
            loading: self.loading,
            at_end: self.at_end,
            failed: self.failed,
            alive: self.alive,
        }
    }
}

/// Whether the `i` first items of `s` hold an item with key `k`: one step.
proof fn lemma_seen_take_step<T: FeedItem>(s: Seq<T>, i: int, k: i64)
    requires
        0 <= i < s.len(),
    ensures
        seen(s.take(i + 1), k) == (seen(s.take(i), k) || s[i].key_of() == k),
{
    let a = s.take(i + 1);
    let b = s.take(i);
    if seen(a, k) {
        let j = choose|j: int| 0 <= j < a.len() && #[trigger] a[j].key_of() == k;
        if j < i {
            assert(b[j].key_of() == k);
        }
    }
    if seen(b, k) {
        let j = choose|j: int| 0 <= j < b.len() && #[trigger] b[j].key_of() == k;
        assert(a[j].key_of() == k);
    }
    if s[i].key_of() == k {
        assert(a[i].key_of() == k);
    }
}

/// Deduplicating a sequence whose keys are already unique changes nothing.
pub proof fn lemma_dedup_unique<T: FeedItem>(s: Seq<T>)
    requires
        unique_keys(s),
    ensures
        dedup(s) == s,
    decreases s.len(),
{
    if s.len() > 0 {
        let p = s.drop_last();
        assert(unique_keys(p)) by {
            assert forall|i: int, j: int|
                0 <= i < p.len() && 0 <= j < p.len() && i != j implies #[trigger] p[i].key_of()
                != #[trigger] p[j].key_of() by {
                assert(s[i].key_of() != s[j].key_of());
            }
        }
        lemma_dedup_unique(p);
        if seen(p, s.last().key_of()) {
            let j = choose|j: int| 0 <= j < p.len() && #[trigger] p[j].key_of() == s.last().key_of();
            assert(s[j].key_of() != s[s.len() - 1].key_of());
        }
        assert(p.push(s.last()) =~= s);
    }
}

/// What deduplication keeps: unique keys, the same keys as the input, and for
/// each key the first item that carries it, in the order of the input.
pub proof fn lemma_dedup_properties<T: FeedItem>(s: Seq<T>)
    ensures
        unique_keys(dedup(s)),
        forall|k: i64| seen(dedup(s), k) == seen(s, k),
        forall|i: int| first_with_key(s, i) ==> dedup(s).contains(s[i]),
        forall|x: T| dedup(s).contains(x) ==> exists|i: int| first_with_key(s, i) && s[i] == x,
    decreases s.len(),
{
    if s.len() > 0 {
        let p = s.drop_last();
        let d = dedup(p);
        let x = s.last();
        let n = s.len() - 1;
        lemma_dedup_properties(p);
        assert forall|k: i64| seen(s, k) == (seen(p, k) || x.key_of() == k) by {
            assert(s.take(n + 1) =~= s);
            assert(s.take(n) =~= p);
            lemma_seen_take_step(s, n, k);
        }
        if seen(p, x.key_of()) {
            assert forall|i: int| first_with_key(s, i) implies dedup(s).contains(s[i]) by {
                if i == n {
                    let j = choose|j: int| 0 <= j < p.len() && #[trigger] p[j].key_of() == x.key_of();
                    assert(s[j].key_of() == s[i].key_of());
                } else {
                    assert(first_with_key(p, i)) by {
                        assert forall|j: int| 0 <= j < i implies #[trigger] p[j].key_of()
                            != p[i].key_of() by {
                            assert(s[j].key_of() != s[i].key_of());
                        }
                    }
                }
            }
            assert forall|y: T| dedup(s).contains(y) implies exists|i: int|
                first_with_key(s, i) && s[i] == y by {
                let i = choose|i: int| first_with_key(p, i) && p[i] == y;
                assert(first_with_key(s, i)) by {
                    assert forall|j: int| 0 <= j < i implies #[trigger] s[j].key_of()
                        != s[i].key_of() by {
                        assert(p[j].key_of() != p[i].key_of());
                    }
                }
            }
        } else {
            let e = d.push(x);
            assert(unique_keys(e)) by {
                assert forall|i: int, j: int|
                    0 <= i < e.len() && 0 <= j < e.len() && i != j implies #[trigger] e[i].key_of()
                    != #[trigger] e[j].key_of() by {
                    if i < d.len() && j < d.len() {
                        assert(d[i].key_of() != d[j].key_of());
                    } else if i < d.len() {
                        assert(seen(d, d[i].key_of()));
                    } else {
                        assert(seen(d, d[j].key_of()));
                    }
                }
            }
            assert forall|k: i64| seen(e, k) == seen(s, k) by {
                if seen(e, k) {
                    let j = choose|j: int| 0 <= j < e.len() && #[trigger] e[j].key_of() == k;
                    if j < d.len() {
                        assert(d[j].key_of() == k);
                    }
                }
                if seen(d, k) {
                    let j = choose|j: int| 0 <= j < d.len() && #[trigger] d[j].key_of() == k;
                    assert(e[j].key_of() == k);
                }
                if x.key_of() == k {
                    assert(e[d.len() as int].key_of() == k);
                }
            }
            assert forall|i: int| first_with_key(s, i) implies dedup(s).contains(s[i]) by {
                if i == n {
                    assert(e[d.len() as int] == s[i]);
                } else {
                    assert(first_with_key(p, i)) by {
                        assert forall|j: int| 0 <= j < i implies #[trigger] p[j].key_of()
                            != p[i].key_of() by {
                            assert(s[j].key_of() != s[i].key_of());
                        }
                    }
                    let j = choose|j: int| 0 <= j < d.len() && d[j] == p[i];
                    assert(e[j] == s[i]);
                }
            }
            assert forall|y: T| dedup(s).contains(y) implies exists|i: int|
                first_with_key(s, i) && s[i] == y by {
                let j = choose|j: int| 0 <= j < e.len() && e[j] == y;
                if j < d.len() {
                    assert(d.contains(y)) by {
                        assert(d[j] == y);
                    }
                    let i = choose|i: int| first_with_key(p, i) && p[i] == y;
                    assert(first_with_key(s, i)) by {
                        assert forall|l: int| 0 <= l < i implies #[trigger] s[l].key_of()
                            != s[i].key_of() by {
                            assert(p[l].key_of() != p[i].key_of());
                        }
                    }
                } else {
                    assert(first_with_key(s, n)) by {
                        assert forall|l: int| 0 <= l < n implies #[trigger] s[l].key_of()
                            != s[n].key_of() by {
                            if s[l].key_of() == s[n].key_of() {
                                assert(p[l].key_of() == x.key_of());
                            }
                        }
                    }
                }
            }
        }
    }
}

/// Deduplicating a prefix first makes no difference to the whole.
pub proof fn lemma_dedup_prefix<T: FeedItem>(a: Seq<T>, b: Seq<T>)
    ensures
        dedup(dedup(a) + b) == dedup(a + b),
    decreases b.len(),
{
    if b.len() == 0 {
        assert(dedup(a) + b =~= dedup(a));
        assert(a + b =~= a);
        lemma_dedup_properties(a);
        lemma_dedup_unique(dedup(a));
    } else {
        let c = b.drop_last();
        let y = b.last();
        lemma_dedup_prefix(a, c);
        assert((dedup(a) + b).drop_last() =~= dedup(a) + c);
        assert((a + b).drop_last() =~= a + c);
        assert((dedup(a) + b).last() == y);
        assert((a + b).last() == y);
        lemma_dedup_properties(a);
        let k = y.key_of();
        assert(seen(dedup(a) + c, k) == seen(a + c, k)) by {
            if seen(dedup(a) + c, k) {
                let j = choose|j: int| 0 <= j < (dedup(a) + c).len() && #[trigger] (dedup(a)
                    + c)[j].key_of() == k;
                if j < dedup(a).len() {
                    assert(dedup(a)[j].key_of() == k);
                    assert(seen(a, k));
                    let i = choose|i: int| 0 <= i < a.len() && #[trigger] a[i].key_of() == k;
                    assert((a + c)[i].key_of() == k);
                } else {
                    assert((a + c)[a.len() + j - dedup(a).len()].key_of() == k);
                }
            }
            if seen(a + c, k) {
                let j = choose|j: int| 0 <= j < (a + c).len() && #[trigger] (a + c)[j].key_of() == k;
                if j < a.len() {
                    assert(a[j].key_of() == k);
                    assert(seen(a, k));
                    assert(seen(dedup(a), k));
                    let i = choose|i: int| 0 <= i < dedup(a).len() && #[trigger] dedup(a)[i].key_of()
                        == k;
                    assert((dedup(a) + c)[i].key_of() == k);
                } else {
                    assert((dedup(a) + c)[dedup(a).len() + j - a.len()].key_of() == k);
                }
            }
        }
    }
}

/// Merging pages one at a time keeps, of every key, the item from the earliest
/// page (or the seed) in which the key appeared, and never two items with one
/// key.
pub proof fn lemma_pages_keep_first<T: FeedItem>(seed: Seq<T>, pages: Seq<Seq<T>>)
    ensures
        merge_pages(seed, pages) == dedup(seed + pages.flatten()),
        unique_keys(merge_pages(seed, pages)),
        forall|i: int|
            first_with_key(seed + pages.flatten(), i) ==> merge_pages(seed, pages).contains(
                (seed + pages.flatten())[i],
            ),
        forall|x: T|
            merge_pages(seed, pages).contains(x) ==> exists|i: int|
                first_with_key(seed + pages.flatten(), i) && (seed + pages.flatten())[i] == x,
    decreases pages.len(),
{
    if pages.len() == 0 {
        assert(pages.flatten() =~= Seq::<T>::empty());
        assert(seed + pages.flatten() =~= seed);
    } else {
        let init = pages.drop_last();
        lemma_pages_keep_first(seed, init);
        lemma_dedup_prefix(seed + init.flatten(), pages.last());
        init.lemma_flatten_push(pages.last());
        assert(init.push(pages.last()) =~= pages);
        assert(seed + init.flatten() + pages.last() =~= seed + pages.flatten());
    }
    lemma_dedup_properties(seed + pages.flatten());
}

/// The feed after each of `pages` is asked for with `advance` and then
/// arrives, in order.
pub open spec fn feed_pages<T: FeedItem>(m: FeedModel<T>, pages: Seq<Seq<T>>) -> FeedModel<T>
    decreases pages.len(),
{
    if pages.len() == 0 {
        m
    } else {
        after_receive(after_advance(feed_pages(m, pages.drop_last())), pages.last())
    }
}

/// Feeding a live, idle feed pages that are not empty, one fetch at a time,
/// leaves it holding exactly the merge of its items and those pages: of
/// every key, the item from the earliest page in which it appeared, and
/// never two items with one key.
pub proof fn lemma_feed_merges_pages<T: FeedItem>(m: FeedModel<T>, pages: Seq<Seq<T>>)
    requires
        unique_keys(m.items),
        m.alive,
        !m.loading,
        !m.at_end,
        m.current_page + pages.len() < u64::MAX,
        forall|i: int| 0 <= i < pages.len() ==> #[trigger] pages[i].len() > 0,
    ensures
        feed_pages(m, pages).items == merge_pages(m.items, pages),
        feed_pages(m, pages).current_page == m.current_page + pages.len(),
        feed_pages(m, pages).alive && !feed_pages(m, pages).loading && !feed_pages(m, pages).at_end,
        unique_keys(feed_pages(m, pages).items),
    decreases pages.len(),
{
    if pages.len() == 0 {
        lemma_dedup_unique(m.items);
    } else {
        let init = pages.drop_last();
        assert forall|i: int| 0 <= i < init.len() implies #[trigger] init[i].len() > 0 by {
            assert(pages[i].len() > 0);
        }
        lemma_feed_merges_pages(m, init);
        assert(pages[pages.len() - 1].len() > 0);
    }
    lemma_pages_keep_first(m.items, pages);
}

/// Once the feed has reached its end, any number of further `advance` calls
/// ask for nothing and change nothing.
pub proof fn lemma_end_is_final<T>(m: FeedModel<T>, n: nat)
    requires
        m.at_end,
    ensures
        requested_page(advance_times(m, n)) is None,
        advance_times(m, n) == m,
    decreases n,
{
    if n > 0 {
        lemma_end_is_final(m, (n - 1) as nat);
    }
}

/// An empty page puts a fetching feed at its end, after which `advance` asks
/// for nothing.
pub proof fn lemma_empty_page_ends<T: FeedItem>(m: FeedModel<T>, n: nat)
    requires
        m.alive,
        m.loading,
    ensures
        after_receive(m, Seq::empty()).at_end,
        requested_page(advance_times(after_receive(m, Seq::empty()), n)) is None,
        advance_times(after_receive(m, Seq::empty()), n) == after_receive(m, Seq::empty()),
{
    lemma_end_is_final(after_receive(m, Seq::empty()), n);
}

/// A second `advance` before the first page arrives asks for nothing.
pub proof fn lemma_single_flight<T>(m: FeedModel<T>)
    ensures
        requested_page(after_advance(m)) is Some ==> requested_page(m) is None,
        requested_page(m) is Some ==> requested_page(after_advance(m)) is None
            && after_advance(after_advance(m)) == after_advance(m),
{
}

/// A forced refresh of an idle, live feed empties it, asks for page one, and
/// the feed then holds exactly that page, deduplicated.
pub proof fn lemma_refresh_refetches<T: FeedItem>(m: FeedModel<T>, page: Seq<T>)
    requires
        m.alive,
        !m.loading,
    ensures
        refresh_page(m) == Some(1int),
        after_refresh(m).items.len() == 0,
        after_refresh(m).current_page == 1,
        after_receive(after_refresh(m), page).items == dedup(page),
        after_receive(after_refresh(m), page).current_page == 1,
{
    assert(Seq::<T>::empty() + page =~= page);
}

/// The feed's items, followed by those of `extra` whose keys are new, in order.
fn dedup_append<T: FeedItem>(base: Vec<T>, extra: Vec<T>) -> (r: Vec<T>)
    requires
        unique_keys(base@),
    ensures
        r@ == dedup(base@ + extra@),
{
    let mut out = base;
    let mut keys: HashSet<i64> = HashSet::new();
    let mut i: usize = 0;
    while i < out.len()
        invariant
            0 <= i <= out.len(),
            out@ == base@,
            forall|k: i64| keys@.contains(k) == seen(out@.take(i as int), k),
        decreases out.len() - i,
    {
        let k = out[i].key();
        keys.insert(k);
        proof {
            lemma_seen_take_step(out@, i as int, k);
            assert forall|k2: i64| keys@.contains(k2) == seen(out@.take(i + 1), k2) by {
                lemma_seen_take_step(out@, i as int, k2);
            }
        }
        i = i + 1;
    }
    proof {
        assert(out@.take(out@.len() as int) =~= out@);
        lemma_dedup_unique(base@);
        assert(base@ + extra@.take(0) =~= base@);
    }
    let n_extra = extra.len();
    let mut rest = extra;
    let mut j: usize = 0;
    let ghost n = extra@.len();
    while rest.len() > 0
        invariant
            j + rest@.len() == n,
            n == extra@.len(),
            n == n_extra,
            rest@ == extra@.subrange(j as int, n as int),
            out@ == dedup(base@ + extra@.take(j as int)),
            forall|k: i64| keys@.contains(k) == seen(base@ + extra@.take(j as int), k),
        decreases rest@.len(),
    {
        let x = rest.remove(0);
        let k = x.key();
        let ghost pre = base@ + extra@.take(j as int);
        let ghost post = base@ + extra@.take(j + 1);
        proof {
            assert(x == extra@[j as int]);
            assert(post.drop_last() =~= pre);
            assert(post.last() == x);
            assert(post.take(post.len() - 1) =~= pre);
            assert(post.take(post.len() as int) =~= post);
        }
        if keys.insert(k) {
            out.push(x);
        }
        proof {
            assert forall|k2: i64| keys@.contains(k2) == seen(post, k2) by {
                lemma_seen_take_step(post, post.len() - 1, k2);
            }
            assert(rest@ =~= extra@.subrange(j + 1, n as int));
        }
        j = j + 1;
    }
    proof {
        assert(extra@.take(j as int) =~= extra@);
    }
    out
}

/// `v` with every item dropped whose key already occurred earlier in it.
pub fn dedup_by_key<T: FeedItem>(v: Vec<T>) -> (r: Vec<T>)
    ensures
        r@ == dedup(v@),
{
    proof {
        assert(Seq::<T>::empty() + v@ =~= v@);
    }
    dedup_append(Vec::new(), v)
}

impl<T: FeedItem> InfinitePage<T> {
    /// The invariant of a feed: no two items share a key.
    pub closed spec fn wf(&self) -> bool {
        &&& unique_keys(self.items@)
        &&& self.alive || self.items@.len() == 0
        &&& self.loading ==> self.current_page >= 1
    }

    /// What the invariant tells a caller: the items never share a key, a
    /// torn-down feed holds none, and a fetch in flight is for page one or
    /// later.
    pub proof fn lemma_wf(&self)
        requires
            self.wf(),
        ensures
            unique_keys(self@.items),
            self@.alive || self@.items.len() == 0,
            self@.loading ==> self@.current_page >= 1,
    {
    }

    /// The cache key that the feed was built with.
    pub closed spec fn cache_key_of(&self) -> u64 {
        self.cache_key
    }

    /// The scroll position to restore once the restored items are shown.
    pub closed spec fn scroll_restore_of(&self) -> Option<i64> {
        self.scroll_restore
    }

    /// A feed for the filters that `cache_key` stands for. Where an earlier
    /// feed for the same key left its state behind (`restored`), its items
    /// replace `initial` and its scroll position is to be restored; the feed
    /// starts at its end when `initial` is empty.
    pub fn new(initial: Vec<T>, cache_key: u64, restored: Option<ScrollerData<T>>) -> (r: Self)
        ensures
            r.wf(),
            r@.items == match restored {
                Some(d) => dedup(d.data@),
                None => dedup(initial@),
            },
            r@.current_page == 1,
            !r@.loading,
            r@.at_end == (initial@.len() == 0),
            !r@.failed,
            r@.alive,
            r.cache_key_of() == cache_key,
            r.scroll_restore_of() == match restored {
                Some(d) => Some(d.y_scroll),
                None => None::<i64>,
            },
    {
        let at_end = initial.len() == 0;
        let (data, scroll_restore) = match restored {
            Some(d) => (d.data, Some(d.y_scroll)),
            None => (initial, None),
        };
        let items = dedup_by_key(data);
        proof {
            lemma_dedup_properties(data@);
        }
        InfinitePage {
            items,
            current_page: 1,
            loading: false,
            at_end,
            failed: false,
            alive: true,
            cache_key,
            scroll_restore,
        }
    }

    /// The items gathered so far.
    pub fn items(&self) -> (r: &Vec<T>)
        requires
            self.wf(),
        ensures
            r@ == self@.items,
            unique_keys(r@),
    {
        &self.items
    }

    /// The number of the page last asked for.
    pub fn current_page(&self) -> (r: u64)
        ensures
            r == self@.current_page,
    {
        self.current_page
    }

    /// Whether a fetch is in flight.
    pub fn loading(&self) -> (r: bool)
        ensures
            r == self@.loading,
    {
        self.loading
    }

    /// Whether an empty page has been seen.
    pub fn at_end(&self) -> (r: bool)
        ensures
            r == self@.at_end,
    {
        self.at_end
    }

    /// Whether the last fetch failed.
    pub fn failed(&self) -> (r: bool)
        ensures
            r == self@.failed,
    {
        self.failed
    }

    /// Whether the feed is still shown.
    pub fn alive(&self) -> (r: bool)
        ensures
            r == self@.alive,
    {
        self.alive
    }

    /// The cache key that the feed was built with.
    pub fn cache_key(&self) -> (r: u64)
        ensures
            r == self.cache_key_of(),
    {
        self.cache_key
    }

    /// The scroll position to restore once the restored items are shown.
    pub fn scroll_restore(&self) -> (r: Option<i64>)
        ensures
            r == self.scroll_restore_of(),
    {
        self.scroll_restore
    }

    /// Asks for the next page, unless a fetch is in flight, the feed is at its
    /// end or torn down. Returns the page to fetch.
    pub fn advance(&mut self) -> (r: Option<u64>)
        requires
            old(self).wf(),
        ensures
            final(self).wf(),
            final(self)@ == after_advance(old(self)@),
            page_number(r) == requested_page(old(self)@),
            final(self).cache_key_of() == old(self).cache_key_of(),
            final(self).scroll_restore_of() == old(self).scroll_restore_of(),
    {
        if self.alive && !self.loading && !self.at_end && self.current_page < u64::MAX {
            self.loading = true;
            self.failed = false;
            self.current_page = self.current_page + 1;
            Some(self.current_page)
        } else {
            None
        }
    }

    /// Merges the page that was asked for: its new items are appended, and an
    /// empty page puts the feed at its end. Ignored when no fetch is in flight
    /// or the feed is torn down.
    pub fn receive_page(&mut self, page: Vec<T>)
        requires
            old(self).wf(),
        ensures
            final(self).wf(),
            final(self)@ == after_receive(old(self)@, page@),
            final(self).cache_key_of() == old(self).cache_key_of(),
            final(self).scroll_restore_of() == old(self).scroll_restore_of(),
    {
        if self.alive && self.loading {
            if page.len() == 0 {
                self.at_end = true;
            }
            let mut items: Vec<T> = Vec::new();
            std::mem::swap(&mut items, &mut self.items);
            let ghost before = items@;
            self.items = dedup_append(items, page);
            proof {
                lemma_dedup_properties(before + page@);
            }
            self.loading = false;
        }
    }

    /// Records that the fetch that was asked for failed. The feed is idle
    /// again and the same page is asked for next.
    pub fn fetch_failed(&mut self)
        requires
            old(self).wf(),
        ensures
            final(self).wf(),
            final(self)@ == after_failure(old(self)@),
            final(self).cache_key_of() == old(self).cache_key_of(),
            final(self).scroll_restore_of() == old(self).scroll_restore_of(),
    {
        if self.alive && self.loading {
            self.loading = false;
            self.failed = true;
            self.current_page = self.current_page - 1;
        }
    }

    /// Empties a live, idle feed and asks for page one again.
    pub fn force_refresh(&mut self) -> (r: Option<u64>)
        requires
            old(self).wf(),
        ensures
            final(self).wf(),
            final(self)@ == after_refresh(old(self)@),
            page_number(r) == refresh_page(old(self)@),
            final(self).cache_key_of() == old(self).cache_key_of(),
            final(self).scroll_restore_of() == old(self).scroll_restore_of(),
    {
        if self.alive && !self.loading {
            self.items.clear();
            self.current_page = 0;
            self.at_end = false;
            self.failed = false;
            self.advance()
        } else {
            None
        }
    }

    /// Reacts to the reader scrolling to `y_scroll` in content `scroll_height`
    /// high: pulling past the top forces a refresh, and nearing the bottom asks
    /// for the next page.
    pub fn on_scroll(&mut self, y_scroll: i64, scroll_height: i64) -> (r: Option<u64>)
        requires
            old(self).wf(),
        ensures
            final(self).wf(),
            final(self)@ == after_scroll(old(self)@, y_scroll as int, scroll_height as int),
            page_number(r) == scroll_page(old(self)@, y_scroll as int, scroll_height as int),
            final(self).cache_key_of() == old(self).cache_key_of(),
            final(self).scroll_restore_of() == old(self).scroll_restore_of(),
    {
        if y_scroll < -REFRESH_OVERSCROLL {
            self.force_refresh()
        } else if (y_scroll as i128) >= (scroll_height as i128) - (LOAD_AHEAD as i128) {
            self.advance()
        } else {
            None
        }
    }

    /// Tears the feed down: it stops taking pages, and hands over its items and
    /// the reader's position `y_scroll` to be kept for the next feed with the
    /// same cache key.
    pub fn teardown(&mut self, y_scroll: i64) -> (r: ScrollerData<T>)
        requires
            old(self).wf(),
        ensures
            final(self).wf(),
            r.data@ == old(self)@.items,
            r.y_scroll == y_scroll,
            final(self)@ == (FeedModel { items: Seq::empty(), alive: false, ..old(self)@ }),
            final(self).cache_key_of() == old(self).cache_key_of(),
            final(self).scroll_restore_of() == old(self).scroll_restore_of(),
    {
        let mut data: Vec<T> = Vec::new();
        std::mem::swap(&mut data, &mut self.items);
        self.alive = false;
        ScrollerData { y_scroll, data }
    }
}

} // verus!
