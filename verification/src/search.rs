//! Gathering the pages of a search, and the pull requests and issues in
//! someone's public activity, into one list: each item once, newest first.
use vstd::prelude::*;

use crate::clock::Stamp;
use crate::github::{item_of, parse};
use crate::json::{field, is_null, list, number, text, value, Json};
use crate::model::{Item, ItemView};
use crate::order::{date_key, lemma_sorted_stably_map, sort_by_date, sorted_stably, Dated};
use crate::text::{decimal, views};
use crate::thread::{time_at, time_of};

verus! {

/// The search query: the viewer, a page of each search, and the rate limit;
/// the row fields follow it (see `crate::feed::ROW`).
pub const SEARCH: &'static str = "
query($main:String!,$extra:String!,$n:Int!,$c1:String,$c2:String){
  viewer{login}
  main: search(query:$main,type:ISSUE,first:$n,after:$c1){
    issueCount pageInfo{hasNextPage endCursor} nodes{...Row} }
  extra: search(query:$extra,type:ISSUE,first:$n,after:$c2){
    issueCount pageInfo{hasNextPage endCursor} nodes{...Row} }
  rateLimit{cost remaining}
}
";

/// How many rows a page of a search asks for.
pub const PER_PAGE: u64 = 50;

/// The viewer's own searches: what involves them, and the pull requests
/// that ask for their review.
pub const OWN_MAIN: &'static str = "involves:@me sort:updated-desc";

/// See `OWN_MAIN`.
pub const OWN_EXTRA: &'static str = "is:pr review-requested:@me sort:updated-desc";

impl Dated for Item {
    open spec fn date_of(&self) -> Stamp {
        self.updated_at
    }

    fn date(&self) -> (r: Stamp) {
        self.updated_at
    }
}

/// The view of an item, as a function.
pub open spec fn item_view_fn() -> spec_fn(Item) -> ItemView {
    |it: Item| it@
}

/// The views of a list of items.
pub open spec fn item_views(s: Seq<Item>) -> Seq<ItemView> {
    s.map_values(item_view_fn())
}

/// The update time of an item view, as a function.
pub open spec fn view_updated() -> spec_fn(ItemView) -> Stamp {
    |v: ItemView| v.updated_at
}

/// Whether no two items share a url.
pub open spec fn distinct_urls(s: Seq<ItemView>) -> bool {
    forall|i: int, j: int| 0 <= i < j < s.len() ==> #[trigger] s[i].url != #[trigger] s[j].url
}

/// Which flag the second search of a fetch sets on what it finds.
#[derive(Debug, Clone, Copy, PartialEq, Eq, Structural)]
pub enum Mark {
    /// The second search is of pull requests that ask for the viewer's review.
    ReviewRequested,
    /// The second search is of items that mention the person.
    Mentioned,
}

/// `it` with the flag of `m` set.
pub open spec fn marked(it: ItemView, m: Mark) -> ItemView {
    match m {
        Mark::ReviewRequested => ItemView { review_requested_of_me: true, ..it },
        Mark::Mentioned => ItemView { mentioned: true, ..it },
    }
}

/// The item of a node of a search bucket, marked where the bucket marks.
pub open spec fn bucket_item(node: Json, mark: Option<Mark>) -> Option<ItemView> {
    if node is Null {
        None
    } else {
        match item_of(node) {
            Some(it) => match mark {
                Some(m) => Some(marked(it, m)),
                None => Some(it),
            },
            None => None,
        }
    }
}

/// The index of the first item with the url, if any.
pub open spec fn index_of_url(s: Seq<ItemView>, url: Seq<char>) -> Option<int>
    decreases s.len(),
{
    if s.len() == 0 {
        None
    } else {
        match index_of_url(s.drop_last(), url) {
            Some(k) => Some(k),
            None => if s.last().url == url {
                Some(s.len() - 1)
            } else {
                None
            },
        }
    }
}

/// `s` after taking in one found item: a new url is added at the end; a url
/// already there adds nothing, but a marking bucket marks the item there.
pub open spec fn take_in(s: Seq<ItemView>, found: Option<ItemView>, mark: Option<Mark>) -> Seq<ItemView> {
    match found {
        None => s,
        Some(it) => match index_of_url(s, it.url) {
            None => s.push(it),
            Some(k) => match mark {
                Some(m) => s.update(k, marked(s[k], m)),
                None => s,
            },
        },
    }
}

/// `s` after taking in the nodes of a bucket, in order.
pub open spec fn take_in_all(s: Seq<ItemView>, nodes: Seq<Json>, mark: Option<Mark>) -> Seq<ItemView>
    decreases nodes.len(),
{
    if nodes.len() == 0 {
        s
    } else {
        take_in(
            take_in_all(s, nodes.drop_last(), mark),
            bucket_item(nodes.last(), mark),
            mark,
        )
    }
}

/// `s` after taking in one page of the two searches: the main bucket first,
/// then the marking one.
pub open spec fn take_in_page(s: Seq<ItemView>, data: Json, mark: Mark) -> Seq<ItemView> {
    take_in_all(
        take_in_all(s, data.at("main"@).at("nodes"@).elements(), None),
        data.at("extra"@).at("nodes"@).elements(),
        Some(mark),
    )
}

/// The cost of a page's query, 0 where GitHub does not say.
pub open spec fn page_cost(data: Json) -> u64 {
    match data.at("rateLimit"@).at("cost"@).u64_of() {
        Some(n) => n,
        None => 0,
    }
}

/// What a fetch has gathered so far.
pub struct Fetched {
    /// Each item once, newest first.
    pub items: Vec<Item>,
    /// The viewer's login, from the first page that names it.
    pub login: String,
    /// How many items the main search says there are, from its first page that says.
    pub involved_total: u64,
    /// The points the queries cost.
    pub cost: u64,
    /// The points left, as the last page that said put it.
    pub remaining: u64,
    /// How far back a public activity feed reaches, where the items came from one.
    pub feed_since: Option<Stamp>,
}

impl Fetched {
    /// Nothing gathered yet.
    pub fn new() -> (r: Fetched)
        ensures
            r.items@.len() == 0,
            r.login@.len() == 0,
            r.involved_total == 0,
            r.cost == 0,
            r.remaining == 0,
            r.feed_since is None,
    {
        Fetched {
            items: Vec::new(),
            login: String::new(),
            involved_total: 0,
            cost: 0,
            remaining: 0,
            feed_since: None,
        }
    }

    /// Takes in one page of the two searches (`data` of the search query):
    /// the login if not yet known, the cost, the points left, the total if
    /// not yet known, and the items, each url once, the second search's
    /// marked with `mark`, and the whole list put newest first.
    pub fn absorb_page(&mut self, data: &Json, mark: Mark)
        requires
            old(self).cost + page_cost(*data) <= u64::MAX,
        ensures
            final(self).login@ == (if old(self).login@.len() == 0 {
                match data.at("viewer"@).at("login"@).str_of() {
                    Some(s) => s,
                    None => Seq::<char>::empty(),
                }
            } else {
                old(self).login@
            }),
            final(self).cost == old(self).cost + page_cost(*data),
            final(self).remaining == match data.at("rateLimit"@).at("remaining"@).u64_of() {
                Some(n) => n,
                None => old(self).remaining,
            },
            final(self).involved_total == (if old(self).involved_total == 0 {
                match data.at("main"@).at("issueCount"@).u64_of() {
                    Some(n) => n,
                    None => 0,
                }
            } else {
                old(self).involved_total
            }),
            final(self).feed_since == old(self).feed_since,
            sorted_stably(
                take_in_page(item_views(old(self).items@), *data, mark),
                item_views(final(self).items@),
                view_updated(),
                true,
            ),
    {
        if crate::thread::is_empty_text(&self.login) {
            match text(field(field(Some(data), "viewer"), "login")) {
                Some(s) => {
                    self.login = s.clone();
                },
                None => {
                    self.login = String::new();
                },
            }
        }
        let limits = field(Some(data), "rateLimit");
        let c = match number(field(limits, "cost")) {
            Some(n) => n,
            None => 0,
        };
        self.cost = self.cost + c;
        match number(field(limits, "remaining")) {
            Some(n) => {
                self.remaining = n;
            },
            None => {},
        }
        if self.involved_total == 0 {
            self.involved_total = match number(field(field(Some(data), "main"), "issueCount")) {
                Some(n) => n,
                None => 0,
            };
        }
        let mut items: Vec<Item> = Vec::new();
        std::mem::swap(&mut items, &mut self.items);
        let ghost start = item_views(items@);
        take_in_bucket(&mut items, field(field(Some(data), "main"), "nodes"), None);
        take_in_bucket(&mut items, field(field(Some(data), "extra"), "nodes"), Some(mark));
        let sorted = sort_by_date(items, true);
        proof {
            lemma_sorted_stably_map(
                items@,
                sorted@,
                date_key::<Item>(),
                item_view_fn(),
                view_updated(),
                true,
            );
        }
        self.items = sorted;
    }
}

/// `it` with the flag of `m` set.
fn mark_item(it: &mut Item, m: Mark)
    ensures
        final(it)@ == marked(old(it)@, m),
{
    match m {
        Mark::ReviewRequested => {
            it.review_requested_of_me = true;
        },
        Mark::Mentioned => {
            it.mentioned = true;
        },
    }
}

/// The index of the first item with the url (see `index_of_url`).
fn find_url(items: &Vec<Item>, url: &String) -> (r: Option<usize>)
    ensures
        match r {
            Some(k) => index_of_url(item_views(items@), url@) == Some(k as int),
            None => index_of_url(item_views(items@), url@) is None,
        },
{
    let mut i: usize = 0;
    while i < items.len()
        invariant
            i <= items@.len(),
            index_of_url(item_views(items@).take(i as int), url@) is None,
        decreases items@.len() - i,
    {
        let ghost pre = item_views(items@).take(i as int);
        let ghost next = item_views(items@).take(i + 1);
        assert(next.drop_last() =~= pre);
        assert(next.last() == items@[i as int]@);
        if items[i].url == *url {
            proof {
                lemma_index_of_url_prefix(item_views(items@), url@, i + 1);
            }
            return Some(i);
        }
        i = i + 1;
    }
    assert(item_views(items@).take(i as int) =~= item_views(items@));
    None
}

/// The first index with the url in a prefix stays the first in the whole.
proof fn lemma_index_of_url_prefix(s: Seq<ItemView>, url: Seq<char>, n: int)
    requires
        0 <= n <= s.len(),
        index_of_url(s.take(n), url) is Some,
    ensures
        index_of_url(s, url) == index_of_url(s.take(n), url),
    decreases s.len() - n,
{
    if n < s.len() {
        let t = s.take(n + 1);
        assert(t.drop_last() =~= s.take(n));
        assert(index_of_url(t, url) == index_of_url(s.take(n), url));
        lemma_index_of_url_prefix(s, url, n + 1);
    } else {
        assert(s.take(n) =~= s);
    }
}

/// The first index with a url is an index of that url.
proof fn lemma_index_of_url_range(s: Seq<ItemView>, url: Seq<char>)
    ensures
        index_of_url(s, url) matches Some(k) ==> 0 <= k < s.len() && s[k].url == url,
    decreases s.len(),
{
    if s.len() > 0 {
        lemma_index_of_url_range(s.drop_last(), url);
    }
}

/// Takes in one found item (see `take_in`).
fn take_in_item(items: &mut Vec<Item>, found: Option<Item>, mark: Option<Mark>)
    ensures
        item_views(final(items)@) == take_in(
            item_views(old(items)@),
            match found {
                Some(it) => Some(it@),
                None => None,
            },
            mark,
        ),
{
    let ghost before = item_views(items@);
    match found {
        Some(mut it) => {
            match find_url(items, &it.url) {
                None => {
                    items.push(it);
                    assert(item_views(items@) =~= before.push(it@));
                },
                Some(k) => {
                    proof {
                        lemma_index_of_url_range(before, it@.url);
                    }
                    match mark {
                        Some(m) => {
                            let mut e = items.remove(k);
                            mark_item(&mut e, m);
                            items.insert(k, e);
                            assert(item_views(items@) =~= before.update(
                                k as int,
                                marked(before[k as int], m),
                            ));
                        },
                        None => {},
                    }
                },
            }
        },
        None => {},
    }
}

/// Takes in the nodes of one search bucket (see `take_in_all`).
fn take_in_bucket(items: &mut Vec<Item>, nodes: Option<&Json>, mark: Option<Mark>)
    ensures
        item_views(final(items)@) == take_in_all(item_views(old(items)@), value(nodes).elements(), mark),
{
    let ghost start = item_views(items@);
    match list(nodes) {
        Some(ns) => {
            let mut i: usize = 0;
            while i < ns.len()
                invariant
                    i <= ns@.len(),
                    item_views(items@) == take_in_all(start, ns@.take(i as int), mark),
                decreases ns@.len() - i,
            {
                let node = &ns[i];
                assert(ns@.take(i + 1).drop_last() =~= ns@.take(i as int));
                assert(ns@.take(i + 1).last() == ns@[i as int]);
                let found = if is_null(Some(node)) {
                    None
                } else {
                    match parse(node) {
                        Some(mut it) => {
                            match mark {
                                Some(m) => mark_item(&mut it, m),
                                None => {},
                            }
                            Some(it)
                        },
                        None => None,
                    }
                };
                take_in_item(items, found, mark);
                i = i + 1;
            }
            assert(ns@.take(ns@.len() as int) =~= ns@);
        },
        None => {},
    }
}

/// The cursor for the next page of a search: its end cursor where GitHub
/// says there is a next page and gives the cursor as a string, else none.
pub open spec fn next_cursor_of(page_info: Json) -> Option<Seq<char>> {
    if page_info.at("hasNextPage"@).bool_of() == Some(true) {
        page_info.at("endCursor"@).str_of()
    } else {
        None
    }
}

/// The cursor for the next page (see `next_cursor_of`).
pub fn next_cursor(page_info: &Json) -> (r: Option<String>)
    ensures
        match r {
            Some(s) => next_cursor_of(*page_info) == Some(s@),
            None => next_cursor_of(*page_info) is None,
        },
{
    let more = match crate::json::flag(field(Some(page_info), "hasNextPage")) {
        Some(b) => b,
        None => false,
    };
    if more {
        match text(field(Some(page_info), "endCursor")) {
            Some(s) => Some(s.clone()),
            None => None,
        }
    } else {
        None
    }
}

/// Where the two searches of a fetch stand: the cursor of each for its next
/// page, `None` at the start and once a search has no more pages.
pub struct Paging {
    pub main: Option<String>,
    pub extra: Option<String>,
}

impl Paging {
    /// Both searches at their first page.
    pub fn new() -> (r: Paging)
        ensures
            r.main is None,
            r.extra is None,
    {
        Paging { main: None, extra: None }
    }

    /// Takes the cursors from a page of the searches (`data` of the search
    /// query), and says whether another page is to be asked for: while
    /// either search has one.
    pub fn advance(&mut self, data: &Json) -> (more: bool)
        ensures
            crate::model::opt_view(final(self).main) == next_cursor_of(
                data.at("main"@).at("pageInfo"@),
            ),
            crate::model::opt_view(final(self).extra) == next_cursor_of(
                data.at("extra"@).at("pageInfo"@),
            ),
            more == (final(self).main is Some || final(self).extra is Some),
    {
        self.main = match field(field(Some(data), "main"), "pageInfo") {
            Some(p) => next_cursor(p),
            None => None,
        };
        self.extra = match field(field(Some(data), "extra"), "pageInfo") {
            Some(p) => next_cursor(p),
            None => None,
        };
        self.main.is_some() || self.extra.is_some()
    }
}

// ---------------------------------------------------------------------------
// Laws of gathering
// ---------------------------------------------------------------------------

/// Whether some item of `s` has the url.
pub open spec fn has_url(s: Seq<ItemView>, url: Seq<char>) -> bool {
    exists|j: int| 0 <= j < s.len() && (#[trigger] s[j]).url == url
}

/// Whether every url of `a` is a url of `b`.
pub open spec fn urls_kept(a: Seq<ItemView>, b: Seq<ItemView>) -> bool {
    forall|i: int| 0 <= i < a.len() ==> has_url(b, (#[trigger] a[i]).url)
}

proof fn lemma_take_in_distinct(s: Seq<ItemView>, found: Option<ItemView>, mark: Option<Mark>)
    requires
        distinct_urls(s),
    ensures
        distinct_urls(take_in(s, found, mark)),
        urls_kept(s, take_in(s, found, mark)),
        found matches Some(it) ==> has_url(take_in(s, found, mark), it.url),
{
    let t = take_in(s, found, mark);
    if let Some(it) = found {
        lemma_index_of_url_range(s, it.url);
        match index_of_url(s, it.url) {
            None => {
                lemma_index_of_url_none(s, it.url);
                assert(t[s.len() as int].url == it.url);
                assert forall|i: int| 0 <= i < s.len() implies has_url(t, (#[trigger] s[i]).url) by {
                    assert(t[i] == s[i]);
                }
            },
            Some(k) => {
                assert forall|i: int| 0 <= i < s.len() implies has_url(t, (#[trigger] s[i]).url) by {
                    assert(t[i].url == s[i].url);
                }
                assert(t[k].url == it.url);
            },
        }
    } else {
        assert forall|i: int| 0 <= i < s.len() implies has_url(t, (#[trigger] s[i]).url) by {
            assert(t[i] == s[i]);
        }
    }
}

proof fn lemma_index_of_url_none(s: Seq<ItemView>, url: Seq<char>)
    requires
        index_of_url(s, url) is None,
    ensures
        forall|i: int| 0 <= i < s.len() ==> #[trigger] s[i].url != url,
    decreases s.len(),
{
    if s.len() > 0 {
        lemma_index_of_url_none(s.drop_last(), url);
        assert forall|i: int| 0 <= i < s.len() implies #[trigger] s[i].url != url by {
            if i < s.len() - 1 {
                assert(s.drop_last()[i] == s[i]);
            }
        }
    }
}

proof fn lemma_urls_kept_trans(a: Seq<ItemView>, b: Seq<ItemView>, c: Seq<ItemView>)
    requires
        urls_kept(a, b),
        urls_kept(b, c),
    ensures
        urls_kept(a, c),
{
    assert forall|i: int| 0 <= i < a.len() implies has_url(c, (#[trigger] a[i]).url) by {
        assert(has_url(b, a[i].url));
        let j = choose|j: int| 0 <= j < b.len() && (#[trigger] b[j]).url == a[i].url;
        assert(has_url(c, b[j].url));
    }
}

proof fn lemma_take_in_all_distinct(s: Seq<ItemView>, nodes: Seq<Json>, mark: Option<Mark>)
    requires
        distinct_urls(s),
    ensures
        distinct_urls(take_in_all(s, nodes, mark)),
        urls_kept(s, take_in_all(s, nodes, mark)),
    decreases nodes.len(),
{
    if nodes.len() > 0 {
        let mid = take_in_all(s, nodes.drop_last(), mark);
        lemma_take_in_all_distinct(s, nodes.drop_last(), mark);
        lemma_take_in_distinct(mid, bucket_item(nodes.last(), mark), mark);
        lemma_urls_kept_trans(s, mid, take_in_all(s, nodes, mark));
    } else {
        assert forall|i: int| 0 <= i < s.len() implies has_url(s, (#[trigger] s[i]).url) by {}
    }
}

/// Gathering a page of search results keeps each url once, and keeps every
/// item gathered before: where `before` holds no url twice and `after` is
/// what `Fetched::absorb_page` makes of it, `after` holds no url twice and
/// holds every url of `before`.
pub proof fn law_page_keeps_each_item_once(
    before: Seq<ItemView>,
    data: Json,
    mark: Mark,
    after: Seq<ItemView>,
)
    requires
        distinct_urls(before),
        sorted_stably(take_in_page(before, data, mark), after, view_updated(), true),
    ensures
        distinct_urls(after),
        urls_kept(before, after),
{
    let main = data.at("main"@).at("nodes"@).elements();
    let extra = data.at("extra"@).at("nodes"@).elements();
    let mid = take_in_all(before, main, None);
    let page = take_in_page(before, data, mark);
    lemma_take_in_all_distinct(before, main, None);
    lemma_take_in_all_distinct(mid, extra, Some(mark));
    lemma_urls_kept_trans(before, mid, page);
    let p = choose|p: Seq<int>| crate::order::rearranged_by(page, after, view_updated(), p);
    assert forall|a: int, b: int| 0 <= a < b < after.len() implies #[trigger] after[a].url
        != #[trigger] after[b].url by {
        assert(after[a] == page[p[a]]);
        assert(after[b] == page[p[b]]);
        assert(p[a] != p[b]);
    }
    assert forall|k: int| 0 <= k < page.len() implies has_url(after, (#[trigger] page[k]).url) by {
        lemma_rearrangement_onto(page, after, p, k);
        let j = choose|j: int| 0 <= j < p.len() && p[j] == k;
        assert(after[j] == page[p[j]]);
    }
    lemma_urls_kept_trans(before, page, after);
}

/// A rearrangement that uses no index twice uses every index.
pub proof fn lemma_rearrangement_onto<T>(a: Seq<T>, b: Seq<T>, p: Seq<int>, k: int)
    requires
        a.len() == b.len(),
        p.len() == b.len(),
        forall|i: int| 0 <= i < p.len() ==> 0 <= #[trigger] p[i] < a.len(),
        forall|i: int, j: int| 0 <= i < j < p.len() ==> #[trigger] p[i] != #[trigger] p[j],
        0 <= k < a.len(),
    ensures
        exists|j: int| 0 <= j < p.len() && p[j] == k,
{
    if forall|j: int| 0 <= j < p.len() ==> p[j] != k {
        let n = a.len() as int;
        // map the values above `k` one down: n distinct values below n - 1
        let q = p.map_values(|v: int| if v > k { v - 1 } else { v });
        assert forall|i: int| 0 <= i < q.len() implies 0 <= #[trigger] q[i] < n - 1 by {
            assert(p[i] != k);
        }
        assert forall|i: int, j: int| 0 <= i < j < q.len() implies #[trigger] q[i] != #[trigger] q[j] by {
            assert(p[i] != p[j]);
            assert(p[i] != k && p[j] != k);
        }
        lemma_pigeon(q, n - 1);
        let w = choose|i: int| 0 <= i < q.len() && !(0 <= #[trigger] q[i] < n - 1);
        assert(0 <= q[w] < n - 1);
        assert(false);
    }
}

/// Among `m + 1` distinct integers, one lies outside `0..m`.
proof fn lemma_pigeon(q: Seq<int>, m: int)
    requires
        m >= 0,
        q.len() == m + 1,
        forall|i: int, j: int| 0 <= i < j < q.len() ==> #[trigger] q[i] != #[trigger] q[j],
    ensures
        exists|i: int| 0 <= i < q.len() && !(0 <= #[trigger] q[i] < m),
    decreases m,
{
    if m == 0 {
        assert(!(0 <= q[0] < m));
    } else if exists|i: int| 0 <= i < q.len() && !(0 <= #[trigger] q[i] < m) {
    } else {
        assert(forall|i: int| 0 <= i < q.len() ==> 0 <= #[trigger] q[i] < m);
        if exists|i: int| 0 <= i < q.len() && q[i] == m - 1 {
            let i = choose|i: int| 0 <= i < q.len() && q[i] == m - 1;
            let r = q.remove(i);
            assert forall|a: int| 0 <= a < r.len() implies 0 <= #[trigger] r[a] < m - 1 by {
                if a < i {
                    assert(r[a] == q[a]);
                    assert(q[a] != q[i]);
                } else {
                    assert(r[a] == q[a + 1]);
                    assert(q[a + 1] != q[i]);
                }
            }
            assert forall|a: int, b: int| 0 <= a < b < r.len() implies #[trigger] r[a]
                != #[trigger] r[b] by {
                let qa = if a < i {
                    a
                } else {
                    a + 1
                };
                let qb = if b < i {
                    b
                } else {
                    b + 1
                };
                assert(r[a] == q[qa] && r[b] == q[qb]);
                assert(qa < qb);
            }
            lemma_pigeon(r, m - 1);
            let w = choose|a: int| 0 <= a < r.len() && !(0 <= #[trigger] r[a] < m - 1);
            assert(0 <= r[w] < m - 1);
        } else {
            let r = q.drop_last();
            assert forall|a: int, b: int| 0 <= a < b < r.len() implies #[trigger] r[a]
                != #[trigger] r[b] by {
                assert(r[a] == q[a] && r[b] == q[b]);
            }
            lemma_pigeon(r, m - 1);
            let w = choose|a: int| 0 <= a < r.len() && !(0 <= #[trigger] r[a] < m - 1);
            assert(r[w] == q[w]);
            assert(q[w] != m - 1);
            assert(0 <= q[w] < m);
        }
    }
}

} // verus!
