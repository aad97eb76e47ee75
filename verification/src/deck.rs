//! The dashboard's state: the list, the filter and search that shape what it
//! shows, the selection, the conversations read, and someone else's work.
//!
//! The state answers keys and worker events; what it asks the worker to do
//! comes back as a `Cmd`, and the opening of browsers and clipboards as an
//! `Effect`, for the program around it to carry out.
use vstd::prelude::*;

use crate::clock::{now, Stamp};
use crate::model::{opt_view, owned, Item, ItemView};
use crate::search::item_views;
use crate::sync::SyncStats;
use crate::text::{contains_text, has_substring, lowercase, to_lowercase, views};
use crate::thread::{event_views, Event};
use crate::{keeps_item, Filter};

verus! {

/// Work for the background worker.
#[derive(Debug, Clone)]
pub enum Cmd {
    /// Sync everything, with this many pages.
    Refresh(usize),
    /// Sync if the notifications changed, with this many pages.
    Poll(usize),
    /// Load the conversation on an item.
    Thread { url: String, repo: String, number: u64 },
    /// Load someone's work; the ticket tells the answers to this look-up apart.
    Activity { login: String, pages: usize, ticket: u64 },
}

/// What the background worker reports.
pub enum Evt {
    /// A sync finished.
    Synced { stats: SyncStats, items: Vec<Item>, login: String },
    /// A conversation loaded.
    Thread { url: String, events: Vec<Event> },
    /// Part or all of a look-up; `cost` is given once it is complete.
    Activity { ticket: u64, items: Vec<Item>, total: u64, cost: Option<u64>, since: Option<Stamp> },
    /// A look-up failed.
    ActivityFailed { ticket: u64, error: String },
    /// A poll found nothing new.
    Quiet,
    /// A sync or load failed.
    Failed(String),
}

/// The dashboard.
pub struct App {
    /// Every item of the list shown.
    pub items: Vec<Item>,
    /// The indexes into `items` that the filter and search let through.
    pub view: Vec<usize>,
    pub filter: Filter,
    /// The selected row of `view`.
    pub cursor: usize,
    /// The viewer's login.
    pub me: String,
    pub search: String,
    pub searching: bool,
    pub help: bool,
    pub status: String,
    pub stats: Option<SyncStats>,
    pub last_sync: Option<Stamp>,
    pub last_check: Option<Stamp>,
    /// Seconds between polls.
    pub interval: u64,
    pub quit: bool,
    /// Whether a conversation is open.
    pub detail: bool,
    pub scroll: u16,
    pub show_bots: bool,
    /// The conversations read, by item url.
    pub threads: Vec<(String, Vec<Event>)>,
    /// The url whose conversation is loading.
    pub loading: Option<String>,
    /// Whose work is shown, where it is not the viewer's.
    pub who: Option<String>,
    pub who_total: u64,
    pub who_loading: bool,
    /// Whether a username is being typed.
    pub asking: bool,
    pub ask: String,
    /// The ticket of the look-up whose answers are awaited.
    pub ticket: u64,
    /// How many look-ups were started or abandoned; the worker drops a
    /// look-up whose ticket is no longer this count.
    pub lookups: u64,
    /// The viewer's own list, kept while someone else's is shown.
    pub mine: Vec<Item>,
    /// The filter of the viewer's own list, kept while someone else's is shown.
    pub mine_filter: Filter,
}

/// Whether the search text `q` (already lowercase) finds the item: in its
/// title, its repository, or one of its labels, without regard to case.
pub open spec fn matches_search(it: ItemView, q: Seq<char>) -> bool {
    ||| q.len() == 0
    ||| has_substring(lowercase(it.title), q)
    ||| has_substring(lowercase(it.repo), q)
    ||| exists|k: int| 0 <= k < it.labels.len() && has_substring(lowercase(#[trigger] it.labels[k]), q)
}

/// Whether a row for the item is listed.
pub open spec fn listed(it: ItemView, f: Filter, subject: Seq<char>, q: Seq<char>) -> bool {
    keeps_item(f, it, subject) && matches_search(it, q)
}

/// The indexes of the listed items, in order.
pub open spec fn view_of(items: Seq<ItemView>, f: Filter, subject: Seq<char>, q: Seq<char>) -> Seq<usize>
    decreases items.len(),
{
    if items.len() == 0 {
        seq![]
    } else {
        let prev = view_of(items.drop_last(), f, subject, q);
        if listed(items.last(), f, subject, q) {
            prev.push((items.len() - 1) as usize)
        } else {
            prev
        }
    }
}

/// The first row whose item has the url.
pub open spec fn row_of_url(items: Seq<ItemView>, view: Seq<usize>, url: Seq<char>) -> Option<int>
    decreases view.len(),
{
    if view.len() == 0 {
        None
    } else {
        match row_of_url(items, view.drop_last(), url) {
            Some(k) => Some(k),
            None => if items[view.last() as int].url == url {
                Some(view.len() - 1)
            } else {
                None
            },
        }
    }
}

/// Where the selection lands after the rows change: on the row of the item
/// that was selected, if it is still listed, else where it was; and never
/// past the last row.
pub open spec fn placed(items: Seq<ItemView>, view: Seq<usize>, keep: Option<Seq<char>>, cursor: usize) -> usize {
    let c = match keep {
        Some(u) => match row_of_url(items, view, u) {
            Some(k) => k as usize,
            None => cursor,
        },
        None => cursor,
    };
    let top = if view.len() == 0 {
        0
    } else {
        (view.len() - 1) as usize
    };
    if c <= top {
        c
    } else {
        top
    }
}

/// The filters of one's own list.
pub open spec fn own_filters() -> Seq<Filter> {
    seq![Filter::Attention, Filter::Open, Filter::Mine, Filter::Reviews, Filter::All]
}

/// The filters of someone else's list.
pub open spec fn person_filters() -> Seq<Filter> {
    seq![Filter::All, Filter::Authored, Filter::Mentioned, Filter::Open]
}

/// `c + d`, kept within `0..=last`.
pub open spec fn clamped(c: int, d: int, last: int) -> int {
    if c + d < 0 {
        0
    } else if c + d > last {
        last
    } else {
        c + d
    }
}

/// What a key asks of the program around the dashboard.
#[derive(Debug, Clone)]
pub enum Effect {
    /// Nothing.
    Nothing,
    /// Hand this to the worker.
    Send(Cmd),
    /// Open the selected item in a browser.
    OpenBrowser,
    /// Copy the selected item's url.
    CopyUrl,
}

/// `b` is `a` with the selection moved by `delta` rows, stopping at the
/// first and last; with no rows nothing changes.
pub open spec fn moved(a: App, b: App, delta: int) -> bool {
    if a.view@.len() == 0 {
        b == a
    } else {
        b == (App { cursor: clamped(a.cursor as int, delta, a.view@.len() - 1) as usize, ..a })
    }
}

/// `b` is `a` with the last row selected.
pub open spec fn at_end(a: App, b: App) -> bool {
    b == (App {
        cursor: if a.view@.len() == 0 {
            0
        } else {
            (a.view@.len() - 1) as usize
        },
        ..a
    })
}

/// `b` is `a` with its rows worked out again, the selection kept on the
/// same item where it is still listed.
pub open spec fn reindexed(a: App, b: App) -> bool {
    &&& b == (App { view: b.view, cursor: b.cursor, ..a })
    &&& b.view@ == a.rows()
    &&& b.cursor == placed(item_views(a.items@), b.view@, a.selected_url(), a.cursor)
}

/// `b` is `a` switched to filter `f`, from the first row.
pub open spec fn filter_set(a: App, b: App, f: Filter) -> bool {
    reindexed(App { filter: f, cursor: 0, ..a }, b)
}

/// `b` is `a` switched to the `i`th filter on offer; past the last one
/// nothing changes.
pub open spec fn filter_picked(a: App, b: App, i: int) -> bool {
    if 0 <= i < a.filters_of().len() {
        filter_set(a, b, a.filters_of()[i])
    } else {
        b == a
    }
}

/// `b` is `a` switched to the next filter on offer, or the previous, going
/// round; from a filter not on offer it counts from the first.
pub open spec fn filter_cycled(a: App, b: App, forward: bool) -> bool {
    filter_set(
        a,
        b,
        a.filters_of()[next_position(
            position_or_first(a.filters_of(), a.filter),
            a.filters_of().len() as int,
            forward,
        )],
    )
}

/// `b` is `a` after the look-up of the login typed as `input`, which asks
/// the worker for `r`.
pub open spec fn looked_up(a: App, b: App, input: Seq<char>, r: Option<Cmd>) -> bool {
    let login = crate::login_text(input);
    if !crate::valid_login(login) {
        &&& r is None
        &&& b == (App { status: b.status, ..a })
        &&& b.status@ == not_a_login_text(input)
    } else {
        &&& b == (App {
            who: b.who,
            items: b.items,
            view: b.view,
            cursor: 0,
            filter: Filter::All,
            search: b.search,
            who_total: 0,
            who_loading: true,
            status: b.status,
            lookups: a.lookups.wrapping_add(1),
            ticket: a.lookups.wrapping_add(1),
            mine: if a.who is None {
                a.items
            } else {
                a.mine
            },
            mine_filter: if a.who is None {
                a.filter
            } else {
                a.mine_filter
            },
            ..a
        })
        &&& b.who matches Some(w) && w@ == login
        &&& b.items@.len() == 0
        &&& b.view@.len() == 0
        &&& b.search@.len() == 0
        &&& b.status@ == loading_text(login)
        &&& r matches Some(Cmd::Activity { login: l, pages, ticket }) && l@ == login && pages == 5
            && ticket == b.ticket
    }
}

/// `b` is `a` back on the viewer's own list, on the filter it had, with the
/// look-up in flight abandoned; on one's own list nothing changes.
pub open spec fn went_back(a: App, b: App) -> bool {
    if a.who is None {
        b == a
    } else {
        &&& b == (App {
            who: None,
            items: a.mine,
            mine: b.mine,
            filter: a.mine_filter,
            who_loading: false,
            search: b.search,
            status: b.status,
            lookups: a.lookups.wrapping_add(1),
            view: b.view,
            cursor: b.cursor,
            ..a
        })
        &&& b.mine@.len() == 0
        &&& b.search@.len() == 0
        &&& b.status@.len() == 0
        &&& b.view@ == b.rows()
        &&& b.cursor == placed(item_views(a.mine@), b.view@, None, 0)
    }
}

/// `b` is `a` showing the conversation on the selected item, and `r` asks
/// for it unless it was read already; with no row selected nothing changes.
pub open spec fn detail_opened(a: App, b: App, r: Option<Cmd>) -> bool {
    match a.selected_url() {
        None => b == a && r is None,
        Some(url) => {
            let it = a.items@[a.view@[a.cursor as int] as int];
            if thread_index(a.threads@, url) is Some {
                r is None && b == (App { detail: true, scroll: 0, ..a })
            } else {
                &&& b == (App { detail: true, scroll: 0, loading: b.loading, ..a })
                &&& opt_view(b.loading) == Some(url)
                &&& r matches Some(Cmd::Thread { url: u, repo, number }) && u@ == url && repo@
                    == it.repo@ && number == it.number
            }
        },
    }
}

/// `b` is `a` having forgotten the selected item's conversation, and `r`
/// asks for it again; with no row selected nothing changes.
pub open spec fn thread_reloaded(a: App, b: App, r: Option<Cmd>) -> bool {
    match a.selected_url() {
        None => b == a && r is None,
        Some(url) => {
            let it = a.items@[a.view@[a.cursor as int] as int];
            &&& b == (App { threads: b.threads, loading: b.loading, ..a })
            &&& b.threads@ == threads_drop(a.threads@, url)
            &&& opt_view(b.loading) == Some(url)
            &&& r matches Some(Cmd::Thread { url: u, repo, number }) && u@ == url && repo@
                == it.repo@ && number == it.number
        },
    }
}

/// `b` is `a` with the conversation scrolled by `delta` lines, not above
/// the top; the position is a `u16`, so it wraps past 65535.
pub open spec fn scrolled(a: App, b: App, delta: int) -> bool {
    b == (App {
        scroll: (if a.scroll + delta < 0 {
            0
        } else {
            (a.scroll + delta) % 65536
        }) as u16,
        ..a
    })
}

/// `b` is `a` having asked, with `r`, for its list again with `pages`
/// pages: someone else's work with a new look-up, or a sync.
pub open spec fn refreshed(a: App, b: App, pages: usize, r: Cmd) -> bool {
    match a.who {
        None => b == (App { status: b.status, ..a }) && b.status@ == "syncing"@ && r
            == Cmd::Refresh(pages),
        Some(w) => {
            &&& b == (App {
                who_loading: true,
                status: b.status,
                lookups: a.lookups.wrapping_add(1),
                ticket: a.lookups.wrapping_add(1),
                ..a
            })
            &&& b.status@ == loading_text(w@)
            &&& r matches Cmd::Activity { login, pages: p, ticket } && login@ == w@ && p == pages
                && ticket == b.ticket
        },
    }
}

impl App {
    /// Whose list it is: the person looked up, or the viewer.
    pub open spec fn subject_of(self) -> Seq<char> {
        match self.who {
            Some(w) => w@,
            None => self.me@,
        }
    }

    /// The filters on offer.
    pub open spec fn filters_of(self) -> Seq<Filter> {
        if self.who is Some {
            person_filters()
        } else {
            own_filters()
        }
    }

    /// The rows that the filter and search let through.
    pub open spec fn rows(self) -> Seq<usize> {
        view_of(item_views(self.items@), self.filter, self.subject_of(), lowercase(self.search@))
    }

    /// The url of the selected item, if a row is selected.
    pub open spec fn selected_url(self) -> Option<Seq<char>> {
        if self.cursor < self.view@.len() && self.view@[self.cursor as int] < self.items@.len() {
            Some(self.items@[self.view@[self.cursor as int] as int].url@)
        } else {
            None
        }
    }

    /// A dashboard over `items` for `me`, on the attention filter, with the
    /// first row selected.
    pub fn new(items: Vec<Item>, me: String, last_sync: Option<Stamp>, interval: u64) -> (r: App)
        ensures
            r == (App {
                items: items,
                view: r.view,
                filter: Filter::Attention,
                cursor: 0,
                me: me,
                search: r.search,
                searching: false,
                help: false,
                status: r.status,
                stats: None,
                last_sync: last_sync,
                last_check: last_sync,
                interval: interval,
                quit: false,
                detail: false,
                scroll: 0,
                show_bots: false,
                threads: r.threads,
                loading: None,
                who: None,
                who_total: 0,
                who_loading: false,
                asking: false,
                ask: r.ask,
                ticket: 0,
                lookups: 0,
                mine: r.mine,
                mine_filter: Filter::Attention,
            }),
            r.view@ == r.rows(),
            r.search@.len() == 0,
            r.status@.len() == 0,
            r.threads@.len() == 0,
            r.ask@.len() == 0,
            r.mine@.len() == 0,
    {
        let mut app = App {
            items,
            view: Vec::new(),
            filter: Filter::Attention,
            cursor: 0,
            me,
            search: String::new(),
            searching: false,
            help: false,
            status: String::new(),
            stats: None,
            last_sync,
            last_check: last_sync,
            interval,
            quit: false,
            detail: false,
            scroll: 0,
            show_bots: false,
            threads: Vec::new(),
            loading: None,
            who: None,
            who_total: 0,
            who_loading: false,
            asking: false,
            ask: String::new(),
            ticket: 0,
            lookups: 0,
            mine: Vec::new(),
            mine_filter: Filter::Attention,
        };
        app.reindex();
        app
    }

    fn subject(&self) -> (r: &String)
        ensures
            r@ == self.subject_of(),
    {
        match &self.who {
            Some(w) => w,
            None => &self.me,
        }
    }

    /// The filters on offer: one's own five, or the four for someone else.
    pub fn filters(&self) -> (r: Vec<Filter>)
        ensures
            r@ == self.filters_of(),
    {
        let mut v: Vec<Filter> = Vec::new();
        if self.who.is_some() {
            v.push(Filter::All);
            v.push(Filter::Authored);
            v.push(Filter::Mentioned);
            v.push(Filter::Open);
        } else {
            v.push(Filter::Attention);
            v.push(Filter::Open);
            v.push(Filter::Mine);
            v.push(Filter::Reviews);
            v.push(Filter::All);
        }
        assert(v@ =~= self.filters_of());
        v
    }

    /// The url of the selected item.
    fn selected_url_value(&self) -> (r: Option<String>)
        ensures
            opt_view(r) == self.selected_url(),
    {
        if self.cursor < self.view.len() && self.view[self.cursor] < self.items.len() {
            Some(self.items[self.view[self.cursor]].url.clone())
        } else {
            None
        }
    }

    /// Recomputes the rows, keeping the selection on the same item where it
    /// is still listed.
    pub fn reindex(&mut self)
        ensures
            reindexed(*old(self), *final(self)),
    {
        let keep = self.selected_url_value();
        self.rebuild(keep);
    }

    /// Puts in a new list; the selection stays on the same item where it
    /// is still listed.
    pub fn replace_items(&mut self, items: Vec<Item>)
        ensures
            *final(self) == (App {
                items: items,
                view: final(self).view,
                cursor: final(self).cursor,
                ..*old(self)
            }),
            final(self).view@ == final(self).rows(),
            final(self).cursor == placed(
                item_views(items@),
                final(self).view@,
                old(self).selected_url(),
                old(self).cursor,
            ),
    {
        let keep = self.selected_url_value();
        self.items = items;
        self.rebuild(keep);
    }

    fn rebuild(&mut self, keep: Option<String>)
        ensures
            *final(self) == (App { view: final(self).view, cursor: final(self).cursor, ..*old(self) }),
            final(self).view@ == old(self).rows(),
            final(self).cursor == placed(
                item_views(old(self).items@),
                final(self).view@,
                opt_view(keep),
                old(self).cursor,
            ),
    {
        let q = to_lowercase(self.search.as_str());
        let q_empty = crate::thread::is_empty_text(&q);
        let subject = self.subject().clone();
        let mut view: Vec<usize> = Vec::new();
        let mut i: usize = 0;
        let ghost all = item_views(self.items@);
        while i < self.items.len()
            invariant
                i <= self.items@.len(),
                all == item_views(self.items@),
                q@ == lowercase(self.search@),
                q_empty == (q@.len() == 0),
                subject@ == self.subject_of(),
                view@ == view_of(all.take(i as int), self.filter, subject@, q@),
                forall|k: int| 0 <= k < view@.len() ==> view@[k] < i,
            decreases self.items@.len() - i,
        {
            let it = &self.items[i];
            assert(all.take(i + 1).drop_last() =~= all.take(i as int));
            assert(all.take(i + 1).last() == it@);
            let keeps = self.filter.keeps(it, subject.as_str());
            if keeps && (q_empty || self.matches(it, &q)) {
                view.push(i);
            }
            i = i + 1;
        }
        assert(all.take(i as int) =~= all);
        let ghost rows = view@;
        let mut cursor = self.cursor;
        match &keep {
            Some(url) => match self.row_of(&view, url) {
                Some(k) => {
                    cursor = k;
                },
                None => {},
            },
            None => {},
        }
        let top = if view.len() == 0 {
            0
        } else {
            view.len() - 1
        };
        if cursor > top {
            cursor = top;
        }
        self.view = view;
        self.cursor = cursor;
    }

    /// Whether the lowercase search text `q` finds the item.
    fn matches(&self, it: &Item, q: &String) -> (r: bool)
        ensures
            r == (has_substring(lowercase(it.title@), q@) || has_substring(lowercase(it.repo@), q@)
                || exists|k: int|
                0 <= k < it@.labels.len() && has_substring(lowercase(#[trigger] it@.labels[k]), q@)),
    {
        let t = to_lowercase(it.title.as_str());
        if contains_text(t.as_str(), q.as_str()) {
            return true;
        }
        let r = to_lowercase(it.repo.as_str());
        if contains_text(r.as_str(), q.as_str()) {
            return true;
        }
        let mut k: usize = 0;
        while k < it.labels.len()
            invariant
                k <= it.labels@.len(),
                forall|j: int| 0 <= j < k ==> !has_substring(lowercase(#[trigger] it@.labels[j]), q@),
            decreases it.labels@.len() - k,
        {
            let l = to_lowercase(it.labels[k].as_str());
            if contains_text(l.as_str(), q.as_str()) {
                assert(it@.labels[k as int] == it.labels@[k as int]@);
                return true;
            }
            assert(it@.labels[k as int] == it.labels@[k as int]@);
            k = k + 1;
        }
        false
    }

    /// The first row whose item has the url.
    fn row_of(&self, view: &Vec<usize>, url: &String) -> (r: Option<usize>)
        requires
            forall|k: int| 0 <= k < view@.len() ==> view@[k] < self.items@.len(),
        ensures
            match r {
                Some(k) => row_of_url(item_views(self.items@), view@, url@) == Some(k as int),
                None => row_of_url(item_views(self.items@), view@, url@) is None,
            },
    {
        let mut k: usize = 0;
        while k < view.len()
            invariant
                k <= view@.len(),
                forall|j: int| 0 <= j < view@.len() ==> view@[j] < self.items@.len(),
                row_of_url(item_views(self.items@), view@.take(k as int), url@) is None,
            decreases view@.len() - k,
        {
            let ghost pre = view@.take(k as int);
            let ghost next = view@.take(k + 1);
            assert(next.drop_last() =~= pre);
            assert(next.last() == view@[k as int]);
            if self.items[view[k]].url == *url {
                proof {
                    lemma_row_prefix(item_views(self.items@), view@, url@, k + 1);
                }
                return Some(k);
            }
            k = k + 1;
        }
        assert(view@.take(k as int) =~= view@);
        None
    }
}

/// Whether `f` stands first at position `k` of `s`.
pub open spec fn first_at(s: Seq<Filter>, f: Filter, k: int) -> bool {
    0 <= k < s.len() && s[k] == f && forall|j: int| 0 <= j < k ==> s[j] != f
}

/// Where `f` first stands in `s`, or 0 where it does not.
pub open spec fn position_or_first(s: Seq<Filter>, f: Filter) -> int {
    if exists|k: int| first_at(s, f, k) {
        choose|k: int| first_at(s, f, k)
    } else {
        0
    }
}

/// The position after `cur` among `n`, or before it, going round.
pub open spec fn next_position(cur: int, n: int, forward: bool) -> int {
    if forward {
        (cur + 1) % n
    } else {
        (cur + n - 1) % n
    }
}

/// The number of items that a filter keeps for `subject`.
pub open spec fn count_kept(items: Seq<ItemView>, f: Filter, subject: Seq<char>) -> nat
    decreases items.len(),
{
    if items.len() == 0 {
        0
    } else {
        count_kept(items.drop_last(), f, subject) + if keeps_item(f, items.last(), subject) {
            1nat
        } else {
            0nat
        }
    }
}

/// The first conversation read for the url.
pub open spec fn thread_index(threads: Seq<(String, Vec<Event>)>, url: Seq<char>) -> Option<int>
    decreases threads.len(),
{
    if threads.len() == 0 {
        None
    } else {
        match thread_index(threads.drop_last(), url) {
            Some(k) => Some(k),
            None => if threads.last().0@ == url {
                Some(threads.len() - 1)
            } else {
                None
            },
        }
    }
}

/// The conversations with the one for `url` put in or replaced.
pub open spec fn threads_put(threads: Seq<(String, Vec<Event>)>, url: String, events: Vec<Event>) -> Seq<
    (String, Vec<Event>),
> {
    match thread_index(threads, url@) {
        Some(k) => threads.update(k, (url, events)),
        None => threads.push((url, events)),
    }
}

/// The conversations without the one for `url`.
pub open spec fn threads_drop(threads: Seq<(String, Vec<Event>)>, url: Seq<char>) -> Seq<
    (String, Vec<Event>),
> {
    match thread_index(threads, url) {
        Some(k) => threads.remove(k),
        None => threads,
    }
}

proof fn lemma_thread_index_range(threads: Seq<(String, Vec<Event>)>, url: Seq<char>)
    ensures
        thread_index(threads, url) matches Some(k) ==> 0 <= k < threads.len() && threads[k].0@
            == url,
    decreases threads.len(),
{
    if threads.len() > 0 {
        lemma_thread_index_range(threads.drop_last(), url);
    }
}

proof fn lemma_thread_prefix(threads: Seq<(String, Vec<Event>)>, url: Seq<char>, n: int)
    requires
        0 <= n <= threads.len(),
        thread_index(threads.take(n), url) is Some,
    ensures
        thread_index(threads, url) == thread_index(threads.take(n), url),
    decreases threads.len() - n,
{
    if n < threads.len() {
        let t = threads.take(n + 1);
        assert(t.drop_last() =~= threads.take(n));
        assert(thread_index(t, url) == thread_index(threads.take(n), url));
        lemma_thread_prefix(threads, url, n + 1);
    } else {
        assert(threads.take(n) =~= threads);
    }
}

/// "n items, c api pts".
pub open spec fn synced_text(n: nat, cost: nat) -> Seq<char> {
    crate::text::decimal(n) + " items, "@ + crate::text::decimal(cost) + " api pts"@
}

fn synced_status(n: u64, cost: u64) -> (r: String)
    ensures
        r@ == synced_text(n as nat, cost as nat),
{
    let mut s = String::new();
    crate::text::push_decimal(&mut s, n);
    crate::text::push_str(&mut s, " items, ");
    crate::text::push_decimal(&mut s, cost);
    crate::text::push_str(&mut s, " api pts");
    s
}

impl App {
    /// The selected item, if a row is selected.
    pub fn selected(&self) -> (r: Option<&Item>)
        ensures
            match r {
                Some(it) => self.cursor < self.view@.len() && self.view@[self.cursor as int]
                    < self.items@.len() && *it == self.items@[self.view@[self.cursor as int] as int],
                None => !(self.cursor < self.view@.len() && self.view@[self.cursor as int]
                    < self.items@.len()),
            },
    {
        if self.cursor < self.view.len() && self.view[self.cursor] < self.items.len() {
            Some(&self.items[self.view[self.cursor]])
        } else {
            None
        }
    }

    /// Moves the selection by `delta` rows, stopping at the first and last.
    pub fn move_by(&mut self, delta: isize)
        ensures
            moved(*old(self), *final(self), delta as int),
    {
        if self.view.len() == 0 {
            return ;
        }
        let last: i128 = (self.view.len() - 1) as i128;
        let c: i128 = self.cursor as i128 + delta as i128;
        let next: i128 = if c < 0 {
            0
        } else if c > last {
            last
        } else {
            c
        };
        self.cursor = next as usize;
    }

    /// Selects the last row.
    pub fn jump_to_end(&mut self)
        ensures
            at_end(*old(self), *final(self)),
    {
        self.cursor = if self.view.len() == 0 {
            0
        } else {
            self.view.len() - 1
        };
    }

    /// Switches to filter `f`, selecting the first row; the selection
    /// stays on the item of the first row where the new filter lists it.
    pub fn set_filter(&mut self, f: Filter)
        ensures
            filter_set(*old(self), *final(self), f),
    {
        self.filter = f;
        self.cursor = 0;
        self.reindex();
    }

    /// Switches to the `i`th filter on offer, if there is one.
    pub fn pick_filter(&mut self, i: usize)
        ensures
            filter_picked(*old(self), *final(self), i as int),
    {
        let fs = self.filters();
        if i < fs.len() {
            self.set_filter(fs[i]);
        }
    }

    /// Switches to the next filter on offer, or the previous, going round;
    /// from a filter not on offer, counts from the first.
    #[verifier::spinoff_prover]
    #[verifier::rlimit(40)]
    pub fn cycle_filter(&mut self, forward: bool)
        ensures
            filter_cycled(*old(self), *final(self), forward),
    {
        let order = self.filters();
        let n = order.len();
        let mut k: usize = 0;
        while k < n && order[k] != self.filter
            invariant
                n == order@.len(),
                k <= n,
                forall|j: int| 0 <= j < k ==> order@[j] != self.filter,
            decreases n - k,
        {
            k = k + 1;
        }
        let cur = if k < n {
            k
        } else {
            0
        };
        proof {
            let o = order@;
            assert(o =~= own_filters() || o =~= person_filters());
            if k < n {
                let w = choose|w: int| first_at(o, self.filter, w);
                assert(first_at(o, self.filter, k as int));
                if w < k {
                    assert(o[w] != self.filter);
                } else if k < w {
                    assert(o[k as int] != self.filter);
                }
            } else {
                assert(!exists|w: int| first_at(o, self.filter, w));
            }
        }
        let next = if forward {
            (cur + 1) % n
        } else {
            (cur + n - 1) % n
        };
        self.set_filter(order[next]);
    }

    /// How many items filter `f` keeps for the list's person.
    pub fn count(&self, f: Filter) -> (r: usize)
        ensures
            r == count_kept(item_views(self.items@), f, self.subject_of()),
    {
        let subject = self.subject();
        let ghost all = item_views(self.items@);
        let mut n: usize = 0;
        let mut i: usize = 0;
        while i < self.items.len()
            invariant
                i <= self.items@.len(),
                all == item_views(self.items@),
                n <= i,
                n == count_kept(all.take(i as int), f, subject@),
            decreases self.items@.len() - i,
        {
            assert(all.take(i + 1).drop_last() =~= all.take(i as int));
            assert(all.take(i + 1).last() == self.items@[i as int]@);
            if f.keeps(&self.items[i], subject.as_str()) {
                n = n + 1;
            }
            i = i + 1;
        }
        assert(all.take(i as int) =~= all);
        n
    }
}

/// "x is not a github username", for the trimmed input.
pub open spec fn not_a_login_text(input: Seq<char>) -> Seq<char> {
    crate::text::trimmed(input) + " is not a github username"@
}

/// "loading login".
pub open spec fn loading_text(login: Seq<char>) -> Seq<char> {
    "loading "@ + login
}

/// "could not load who: error".
pub open spec fn load_failed_text(who: Seq<char>, error: Seq<char>) -> Seq<char> {
    "could not load "@ + who + ": "@ + error
}

/// "sync failed: error".
pub open spec fn sync_failed_text(error: Seq<char>) -> Seq<char> {
    "sync failed: "@ + error
}

fn prefixed(head: &str, tail: &str) -> (r: String)
    ensures
        r@ == head@ + tail@,
{
    let mut s = owned(head);
    crate::text::push_str(&mut s, tail);
    s
}

impl App {
    /// Shows `input`'s work in place of the list: the viewer's own list is
    /// put aside (unless someone else's is shown already), the filter is
    /// "all", the search is cleared, and a look-up with a new ticket is asked
    /// for. Input that is no login leaves everything but the status as it is.
    pub fn look_up(&mut self, input: &str) -> (r: Option<Cmd>)
        ensures
            looked_up(*old(self), *final(self), input@, r),
    {
        let login = match crate::clean_login(input) {
            Some(l) => l,
            None => {
                let t = crate::text::string_of(&crate::text::trim(&crate::text::chars_of(input)));
                self.status = prefixed(t.as_str(), " is not a github username");
                return None;
            },
        };
        if self.who.is_none() {
            let mut taken: Vec<Item> = Vec::new();
            std::mem::swap(&mut taken, &mut self.items);
            self.mine = taken;
            self.mine_filter = self.filter;
        } else {
            self.items.clear();
        }
        self.filter = Filter::All;
        self.cursor = 0;
        self.search = String::new();
        self.who_total = 0;
        self.who_loading = true;
        self.status = prefixed("loading ", login.as_str());
        self.lookups = self.lookups.wrapping_add(1);
        self.ticket = self.lookups;
        self.who = Some(login.clone());
        self.rebuild(None);
        assert(item_views(self.items@) =~= Seq::<ItemView>::empty());
        Some(Cmd::Activity { login, pages: 5, ticket: self.ticket })
    }

    /// Back to the viewer's own list, on the filter it had; the look-up in
    /// flight is abandoned.
    pub fn back_to_mine(&mut self)
        ensures
            went_back(*old(self), *final(self)),
    {
        if self.who.is_none() {
            return ;
        }
        self.who = None;
        self.lookups = self.lookups.wrapping_add(1);
        let mut taken: Vec<Item> = Vec::new();
        std::mem::swap(&mut taken, &mut self.mine);
        self.items = taken;
        self.filter = self.mine_filter;
        self.who_loading = false;
        self.cursor = 0;
        self.search = String::new();
        self.status = String::new();
        self.rebuild(None);
    }

    /// Opens the conversation on the selected item, asking for it unless it
    /// was read already.
    pub fn open_detail(&mut self) -> (r: Option<Cmd>)
        ensures
            detail_opened(*old(self), *final(self), r),
    {
        let (url, repo, number) = match self.selected() {
            Some(it) => (it.url.clone(), it.repo.clone(), it.number),
            None => {
                return None;
            },
        };
        self.detail = true;
        self.scroll = 0;
        if self.thread_at(&url).is_none() {
            self.loading = Some(url.clone());
            Some(Cmd::Thread { url, repo, number })
        } else {
            None
        }
    }

    /// Closes the conversation.
    pub fn close_detail(&mut self)
        ensures
            *final(self) == (App { detail: false, scroll: 0, ..*old(self) }),
    {
        self.detail = false;
        self.scroll = 0;
    }

    /// Forgets the selected item's conversation and asks for it again.
    pub fn reload_thread(&mut self) -> (r: Option<Cmd>)
        ensures
            thread_reloaded(*old(self), *final(self), r),
    {
        let (url, repo, number) = match self.selected() {
            Some(it) => (it.url.clone(), it.repo.clone(), it.number),
            None => {
                return None;
            },
        };
        match self.thread_at(&url) {
            Some(k) => {
                proof {
                    lemma_thread_index_range(self.threads@, url@);
                }
                self.threads.remove(k);
            },
            None => {},
        }
        self.loading = Some(url.clone());
        Some(Cmd::Thread { url, repo, number })
    }

    /// Where the conversation for `url` is kept.
    fn thread_at(&self, url: &String) -> (r: Option<usize>)
        ensures
            match r {
                Some(k) => thread_index(self.threads@, url@) == Some(k as int),
                None => thread_index(self.threads@, url@) is None,
            },
    {
        let mut k: usize = 0;
        while k < self.threads.len()
            invariant
                k <= self.threads@.len(),
                thread_index(self.threads@.take(k as int), url@) is None,
            decreases self.threads@.len() - k,
        {
            let ghost pre = self.threads@.take(k as int);
            let ghost next = self.threads@.take(k + 1);
            assert(next.drop_last() =~= pre);
            assert(next.last() == self.threads@[k as int]);
            if self.threads[k].0 == *url {
                proof {
                    lemma_thread_prefix(self.threads@, url@, k + 1);
                }
                return Some(k);
            }
            k = k + 1;
        }
        assert(self.threads@.take(k as int) =~= self.threads@);
        None
    }

    /// The conversation on the selected item, if it was read.
    pub fn thread(&self) -> (r: Option<&Vec<Event>>)
        ensures
            match r {
                Some(evs) => self.selected_url() matches Some(url) && thread_index(
                    self.threads@,
                    url,
                ) matches Some(k) && *evs == self.threads@[k].1,
                None => self.selected_url() is None || thread_index(
                    self.threads@,
                    self.selected_url().unwrap(),
                ) is None,
            },
    {
        match self.selected() {
            Some(it) => match self.thread_at(&it.url) {
                Some(k) => {
                    proof {
                        lemma_thread_index_range(self.threads@, it.url@);
                    }
                    Some(&self.threads[k].1)
                },
                None => None,
            },
            None => None,
        }
    }

    /// Whether the selected item's conversation is the one loading.
    pub fn thread_loading(&self) -> (r: bool)
        ensures
            r == (self.loading is Some && self.selected_url() == opt_view(self.loading)),
    {
        match (&self.loading, self.selected()) {
            (Some(url), Some(it)) => *url == it.url,
            _ => false,
        }
    }

    /// Scrolls the conversation by `delta` lines, not above the top; the
    /// position is kept as a `u16`, so it wraps past 65535.
    pub fn scroll_by(&mut self, delta: i32)
        requires
            i32::MIN <= old(self).scroll + delta <= i32::MAX,
        ensures
            scrolled(*old(self), *final(self), delta as int),
    {
        let v: i32 = self.scroll as i32 + delta;
        let v: i32 = if v < 0 {
            0
        } else {
            v
        };
        self.scroll = (v % 65536) as u16;
    }

    /// Asks for the list to be fetched again: the person's work with a new
    /// look-up where someone else's is shown, else a sync.
    pub fn refresh(&mut self, pages: usize) -> (r: Cmd)
        ensures
            refreshed(*old(self), *final(self), pages, r),
    {
        match &self.who {
            Some(login) => {
                let login = login.clone();
                self.who_loading = true;
                self.status = prefixed("loading ", login.as_str());
                self.lookups = self.lookups.wrapping_add(1);
                self.ticket = self.lookups;
                Cmd::Activity { login, pages, ticket: self.ticket }
            },
            None => {
                self.status = owned("syncing");
                Cmd::Refresh(pages)
            },
        }
    }
}

/// `b` is `a` after a finished sync at `now` reporting `stats`, `items` and `login`.
pub open spec fn after_synced(a: App, b: App, stats: SyncStats, items: Vec<Item>, login: String, now: Stamp) -> bool {
    let me = if login@.len() == 0 {
        a.me
    } else {
        login
    };
    &&& a.who is Some ==> b == (App {
        me: me,
        stats: Some(stats),
        last_sync: Some(now),
        last_check: Some(now),
        mine: items,
        ..a
    })
    &&& a.who is None ==> {
        &&& b == (App {
            me: me,
            stats: Some(stats),
            last_sync: Some(now),
            last_check: Some(now),
            status: b.status,
            items: items,
            view: b.view,
            cursor: b.cursor,
            ..a
        })
        &&& b.status@ == synced_text(stats.fetched as nat, stats.cost as nat)
        &&& b.view@ == b.rows()
        &&& b.cursor == placed(item_views(items@), b.view@, a.selected_url(), a.cursor)
    }
}

/// `b` is `a` after part or all of a look-up's answer at `now`.
pub open spec fn after_activity(
    a: App,
    b: App,
    ticket: u64,
    items: Vec<Item>,
    total: u64,
    cost: Option<u64>,
    now: Stamp,
) -> bool {
    &&& (a.who is None || ticket != a.ticket) ==> b == (App { last_check: Some(now), ..a })
    &&& (a.who is Some && ticket == a.ticket) ==> {
        &&& b == (App {
            last_check: Some(now),
            who_total: total,
            items: items,
            view: b.view,
            cursor: b.cursor,
            who_loading: b.who_loading,
            status: b.status,
            ..a
        })
        &&& b.view@ == b.rows()
        &&& b.cursor == placed(item_views(items@), b.view@, a.selected_url(), a.cursor)
        &&& cost is None ==> b.who_loading == a.who_loading && b.status == a.status
        &&& cost matches Some(c) ==> !b.who_loading && b.status@ == synced_text(
            items@.len(),
            c as nat,
        )
    }
}

/// `b` is `a` after a failed look-up at `now`.
pub open spec fn after_failed_lookup(a: App, b: App, ticket: u64, error: String, now: Stamp) -> bool {
    &&& (ticket != a.ticket || a.who is None) ==> b == (App { last_check: Some(now), ..a })
    &&& (ticket == a.ticket && a.who is Some) ==> b == (App {
        last_check: Some(now),
        who_loading: false,
        status: b.status,
        ..a
    }) && b.status@ == load_failed_text(a.who.unwrap()@, error@)
}

/// `b` is `a` after a conversation loaded at `now`.
pub open spec fn after_thread(a: App, b: App, url: String, events: Vec<Event>, now: Stamp) -> bool {
    &&& b == (App {
        last_check: Some(now),
        loading: if opt_view(a.loading) == Some(url@) {
            None
        } else {
            a.loading
        },
        threads: b.threads,
        ..a
    })
    &&& b.threads@ == threads_put(a.threads@, url, events)
}

/// `b` is `a` after a worker report `evt` at `now`.
pub open spec fn after_event(a: App, b: App, evt: Evt, now: Stamp) -> bool {
    match evt {
        Evt::Synced { stats, items, login } => after_synced(a, b, stats, items, login, now),
        Evt::Activity { ticket, items, total, cost, since } => after_activity(
            a,
            b,
            ticket,
            items,
            total,
            cost,
            now,
        ),
        Evt::ActivityFailed { ticket, error } => after_failed_lookup(a, b, ticket, error, now),
        Evt::Thread { url, events } => after_thread(a, b, url, events, now),
        Evt::Quiet => b == (App { last_check: Some(now), status: b.status, ..a }) && b.status@.len()
            == 0,
        Evt::Failed(e) => b == (App { last_check: Some(now), status: b.status, ..a }) && b.status@
            == sync_failed_text(e@),
    }
}

impl App {
    fn on_synced(&mut self, stats: SyncStats, items: Vec<Item>, login: String, now: Stamp)
        ensures
            after_synced(*old(self), *final(self), stats, items, login, now),
    {
        self.last_check = Some(now);
        if !crate::thread::is_empty_text(&login) {
            self.me = login;
        }
        self.stats = Some(stats);
        self.last_sync = Some(now);
        if self.who.is_some() {
            self.mine = items;
        } else {
            self.status = synced_status(stats.fetched as u64, stats.cost);
            self.replace_items(items);
        }
    }

    fn on_activity(&mut self, ticket: u64, items: Vec<Item>, total: u64, cost: Option<u64>, now: Stamp)
        ensures
            after_activity(*old(self), *final(self), ticket, items, total, cost, now),
    {
        self.last_check = Some(now);
        if self.who.is_none() || ticket != self.ticket {
            return ;
        }
        self.who_total = total;
        let n = items.len();
        self.replace_items(items);
        match cost {
            Some(c) => {
                self.who_loading = false;
                self.status = synced_status(n as u64, c);
            },
            None => {},
        }
    }

    fn on_failed_lookup(&mut self, ticket: u64, error: String, now: Stamp)
        ensures
            after_failed_lookup(*old(self), *final(self), ticket, error, now),
    {
        self.last_check = Some(now);
        if ticket != self.ticket {
            return ;
        }
        match &self.who {
            Some(w) => {
                let mut s = prefixed("could not load ", w.as_str());
                crate::text::push_str(&mut s, ": ");
                crate::text::push_str(&mut s, error.as_str());
                self.who_loading = false;
                self.status = s;
            },
            None => {},
        }
    }

    fn on_thread(&mut self, url: String, events: Vec<Event>, now: Stamp)
        ensures
            after_thread(*old(self), *final(self), url, events, now),
    {
        self.last_check = Some(now);
        let same = match &self.loading {
            Some(l) => *l == url,
            None => false,
        };
        if same {
            self.loading = None;
        }
        match self.thread_at(&url) {
            Some(k) => {
                proof {
                    lemma_thread_index_range(self.threads@, url@);
                }
                self.threads.set(k, (url, events));
            },
            None => {
                self.threads.push((url, events));
            },
        }
    }

    /// Takes in one report of the worker, noting `now` as the last check
    /// (see `after_event`).
    ///
    /// A finished sync sets the login (if it names one), the stats and the
    /// sync time, and puts in the new list, or keeps it aside while someone
    /// else's is shown. A look-up's answer counts only while that person is
    /// shown and its ticket is the latest; a complete one ends the loading.
    /// A conversation is kept by url. A quiet poll clears the status; a
    /// failure shows in it.
    pub fn apply(&mut self, evt: Evt, now: Stamp)
        ensures
            after_event(*old(self), *final(self), evt, now),
    {
        match evt {
            Evt::Synced { stats, items, login } => self.on_synced(stats, items, login, now),
            Evt::Activity { ticket, items, total, cost, since } => self.on_activity(
                ticket,
                items,
                total,
                cost,
                now,
            ),
            Evt::ActivityFailed { ticket, error } => self.on_failed_lookup(ticket, error, now),
            Evt::Thread { url, events } => self.on_thread(url, events, now),
            Evt::Quiet => {
                self.last_check = Some(now);
                self.status = String::new();
            },
            Evt::Failed(e) => {
                self.last_check = Some(now);
                self.status = prefixed("sync failed: ", e.as_str());
            },
        }
    }

    /// Takes in one report of the worker, by the clock now (see `apply`).
    pub fn receive(&mut self, evt: Evt)
        ensures
            exists|t: Stamp| after_event(*old(self), *final(self), evt, t),
    {
        let t = now();
        self.apply(evt, t);
    }
}

/// The first matching row in a prefix stays the first in the whole.
proof fn lemma_row_prefix(items: Seq<ItemView>, view: Seq<usize>, url: Seq<char>, n: int)
    requires
        0 <= n <= view.len(),
        row_of_url(items, view.take(n), url) is Some,
    ensures
        row_of_url(items, view, url) == row_of_url(items, view.take(n), url),
    decreases view.len() - n,
{
    if n < view.len() {
        let t = view.take(n + 1);
        assert(t.drop_last() =~= view.take(n));
        assert(row_of_url(items, t, url) == row_of_url(items, view.take(n), url));
        lemma_row_prefix(items, view, url, n + 1);
    } else {
        assert(view.take(n) =~= view);
    }
}

/// Looking someone up and then going back gives the viewer's own list again,
/// on the filter it had, with the look-up abandoned.
pub proof fn law_back_after_look_up(a: App, b: App, c: App, input: Seq<char>, r: Option<Cmd>)
    requires
        a.who is None,
        looked_up(a, b, input, r),
        crate::valid_login(crate::login_text(input)),
        went_back(b, c),
    ensures
        c.who is None,
        c.items == a.items,
        c.filter == a.filter,
        c.view@ == c.rows(),
        c.lookups != b.ticket,
{
}

/// Where `s` holds no filter twice, each filter's first place is its place.
proof fn lemma_first_place(s: Seq<Filter>, k: int)
    requires
        0 <= k < s.len(),
        forall|i: int, j: int| 0 <= i < j < s.len() ==> s[i] != s[j],
    ensures
        position_or_first(s, s[k]) == k,
{
    assert(first_at(s, s[k], k));
    let w = choose|w: int| first_at(s, s[k], w);
    if w < k {
        assert(s[w] == s[k]);
    } else if k < w {
        assert(s[k] != s[k]);
    }
}

/// Switching to the next filter and then to the previous one comes back to
/// the filter one started on, where it is one on offer.
pub proof fn law_cycle_back(a: App, b: App, c: App)
    requires
        a.filters_of().contains(a.filter),
        filter_cycled(a, b, true),
        filter_cycled(b, c, false),
    ensures
        c.filter == a.filter,
{
    let o = a.filters_of();
    let n = o.len() as int;
    assert(forall|i: int, j: int| 0 <= i < j < o.len() ==> o[i] != o[j]);
    let k = choose|k: int| 0 <= k < o.len() && o[k] == a.filter;
    lemma_first_place(o, k);
    let p = next_position(k, n, true);
    assert(0 <= p < n);
    assert(b.filter == o[p]);
    assert(b.filters_of() == o);
    lemma_first_place(o, p);
    lemma_round_trip(k, n);
}

/// One step forward and one back, going round `n` places, is no step.
proof fn lemma_round_trip(k: int, n: int)
    requires
        n == 4 || n == 5,
        0 <= k < n,
    ensures
        next_position(next_position(k, n, true), n, false) == k,
{
    if n == 4 {
        assert(next_position(next_position(k, 4, true), 4, false) == k);
    } else {
        assert(next_position(next_position(k, 5, true), 5, false) == k);
    }
}

/// Every row names an item, and the selection stands on a row, or at the
/// top of an empty list.
pub open spec fn selection_in_range(a: App) -> bool {
    &&& forall|k: int| 0 <= k < a.view@.len() ==> (#[trigger] a.view@[k] as int) < a.items@.len()
    &&& if a.view@.len() == 0 {
        a.cursor == 0
    } else {
        a.cursor < a.view@.len()
    }
}

proof fn lemma_view_of_in_range(items: Seq<ItemView>, f: Filter, subject: Seq<char>, q: Seq<char>)
    requires
        items.len() <= usize::MAX,
    ensures
        forall|k: int|
            0 <= k < view_of(items, f, subject, q).len() ==> (#[trigger] view_of(
                items,
                f,
                subject,
                q,
            )[k] as int) < items.len(),
    decreases items.len(),
{
    if items.len() > 0 {
        lemma_view_of_in_range(items.drop_last(), f, subject, q);
        let prev = view_of(items.drop_last(), f, subject, q);
        let v = view_of(items, f, subject, q);
        assert forall|k: int| 0 <= k < v.len() implies (#[trigger] v[k] as int) < items.len() by {
            if k < prev.len() {
                assert(v[k] == prev[k]);
            } else {
                assert(v[k] == (items.len() - 1) as usize);
            }
        }
    }
}

/// The rows of `a` worked out afresh, with the selection placed, keep the
/// selection in range.
pub(crate) proof fn lemma_fresh_rows_in_range(a: App, b: App, keep: Option<Seq<char>>, cursor: usize)
    requires
        b.items == a.items,
        b.view@ == a.rows(),
        b.cursor == placed(item_views(a.items@), b.view@, keep, cursor),
    ensures
        selection_in_range(b),
{
    assert(a.items@.len() == a.items.len());
    lemma_view_of_in_range(item_views(a.items@), a.filter, a.subject_of(), lowercase(a.search@));
}

/// Every report of the worker keeps the selection in range.
pub proof fn law_reports_keep_the_selection(a: App, evt: Evt, now: Stamp, b: App)
    requires
        selection_in_range(a),
        after_event(a, b, evt, now),
    ensures
        selection_in_range(b),
{
    match evt {
        Evt::Synced { stats, items, login } => {
            if a.who is None {
                lemma_fresh_rows_in_range(b, b, a.selected_url(), a.cursor);
            }
        },
        Evt::Activity { ticket, items, total, cost, since } => {
            if a.who is Some && ticket == a.ticket {
                lemma_fresh_rows_in_range(b, b, a.selected_url(), a.cursor);
            }
        },
        _ => {},
    }
}

/// A search only narrows the list: every row listed under a search is
/// listed without one.
pub proof fn law_search_only_narrows(items: Seq<ItemView>, f: Filter, subject: Seq<char>, q: Seq<char>, k: int)
    requires
        0 <= k < view_of(items, f, subject, q).len(),
    ensures
        view_of(items, f, subject, seq![]).contains(view_of(items, f, subject, q)[k]),
    decreases items.len(),
{
    let prev = view_of(items.drop_last(), f, subject, q);
    let all = view_of(items.drop_last(), f, subject, seq![]);
    if k < prev.len() {
        assert(view_of(items, f, subject, q)[k] == prev[k]);
        law_search_only_narrows(items.drop_last(), f, subject, q, k);
        let j = choose|j: int| 0 <= j < all.len() && all[j] == prev[k];
        if listed(items.last(), f, subject, seq![]) {
            assert(all.push((items.len() - 1) as usize)[j] == prev[k]);
        }
    } else {
        assert(listed(items.last(), f, subject, q));
        assert(listed(items.last(), f, subject, seq![]));
        assert(view_of(items, f, subject, seq![]) == all.push((items.len() - 1) as usize));
        assert(all.push((items.len() - 1) as usize)[all.len() as int] == (items.len() - 1) as usize);
    }
}

} // verus!
