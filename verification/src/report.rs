//! What the command line prints: a list of items, someone's work, and a
//! conversation, as text; and the words it reads to choose a filter.
use vstd::prelude::*;

use crate::client::{parse_u64, u64_text};
use crate::clock::{day_month, day_month_of, minute, minute_of, Stamp};
use crate::markup::{drop_cr, gist_text, lines_after, lines_of};
use crate::model::{
    age_text, ago_at, chip_views, elapsed_secs, owned, plural, plural_text, Item, ItemView, Kind, Tone,
};
use crate::search::{item_views, Fetched};
use crate::text::{
    chars_of, decimal, join, joined, lowercase, push_char, push_decimal, push_str, same_text,
    string_of, sub_chars, to_lowercase, views,
};
use crate::thread::{event_views, Event, EventView};
use crate::{keeps_item, label_text, Filter};

verus! {

// ---------------------------------------------------------------------------
// Choosing a filter
// ---------------------------------------------------------------------------

/// The view of an optional string slice.
pub open spec fn opt_str(o: Option<&str>) -> Option<Seq<char>> {
    match o {
        Some(s) => Some(s@),
        None => None,
    }
}

/// The filter that `ghdeck list [what]` names: "open"; "yours" or "mine";
/// "to-review" or "reviews"; "all"; and anything else, or nothing, is the
/// attention filter.
pub open spec fn filter_named(name: Option<Seq<char>>) -> Filter {
    match name {
        Some(n) => if n == "open"@ {
            Filter::Open
        } else if n == "yours"@ || n == "mine"@ {
            Filter::Mine
        } else if n == "to-review"@ || n == "reviews"@ {
            Filter::Reviews
        } else if n == "all"@ {
            Filter::All
        } else {
            Filter::Attention
        },
        None => Filter::Attention,
    }
}

/// The filter that `ghdeck list [what]` names (see `filter_named`).
pub fn parse_filter(name: Option<&str>) -> (r: Filter)
    ensures
        r == filter_named(opt_str(name)),
{
    match name {
        Some(n) => if same_text(n, "open") {
            Filter::Open
        } else if same_text(n, "yours") || same_text(n, "mine") {
            Filter::Mine
        } else if same_text(n, "to-review") || same_text(n, "reviews") {
            Filter::Reviews
        } else if same_text(n, "all") {
            Filter::All
        } else {
            Filter::Attention
        },
        None => Filter::Attention,
    }
}

/// "x is not a filter here, use all, authored, mentioned or open".
pub open spec fn not_a_filter_text(word: Seq<char>) -> Seq<char> {
    word + " is not a filter here, use all, authored, mentioned or open"@
}

/// The filter that `ghdeck user <name> [what]` names: nothing or "all",
/// "authored", "mentioned", "open"; any other word is refused.
pub open spec fn person_filter_named(what: Option<Seq<char>>) -> Result<Filter, Seq<char>> {
    match what {
        None => Ok(Filter::All),
        Some(w) => if w == "all"@ {
            Ok(Filter::All)
        } else if w == "authored"@ {
            Ok(Filter::Authored)
        } else if w == "mentioned"@ {
            Ok(Filter::Mentioned)
        } else if w == "open"@ {
            Ok(Filter::Open)
        } else {
            Err(not_a_filter_text(w))
        },
    }
}

/// The filter that `ghdeck user <name> [what]` names, or the message that
/// refuses the word (see `person_filter_named`).
pub fn parse_person_filter(what: Option<&str>) -> (r: Result<Filter, String>)
    ensures
        match r {
            Ok(f) => person_filter_named(opt_str(what)) == Ok::<Filter, Seq<char>>(f),
            Err(m) => person_filter_named(opt_str(what)) == Err::<Filter, Seq<char>>(m@),
        },
{
    match what {
        None => Ok(Filter::All),
        Some(w) => if same_text(w, "all") {
            Ok(Filter::All)
        } else if same_text(w, "authored") {
            Ok(Filter::Authored)
        } else if same_text(w, "mentioned") {
            Ok(Filter::Mentioned)
        } else if same_text(w, "open") {
            Ok(Filter::Open)
        } else {
            let mut m = owned(w);
            push_str(&mut m, " is not a filter here, use all, authored, mentioned or open");
            Err(m)
        },
    }
}

/// What to do with the cached list before printing it.
pub enum Cached {
    /// Print these.
    Ready(Vec<Item>),
    /// The cache is empty: sync this many pages first, then print what the
    /// cache holds.
    SyncFirst(usize),
}

/// The cached list is printed as it is, unless it is empty: then a sync of
/// five pages comes first.
pub fn ensure_synced(items: Vec<Item>) -> (r: Cached)
    ensures
        items@.len() > 0 ==> r == Cached::Ready(items),
        items@.len() == 0 ==> r == Cached::SyncFirst(5),
{
    if items.len() == 0 {
        Cached::SyncFirst(5)
    } else {
        Cached::Ready(items)
    }
}

// ---------------------------------------------------------------------------
// Rows
// ---------------------------------------------------------------------------

/// `n` spaces.
pub open spec fn spaces(n: nat) -> Seq<char> {
    Seq::new(n, |i: int| ' ')
}

/// `s` right-aligned in `w` columns, as `{:>w}` writes it.
pub open spec fn right_aligned(s: Seq<char>, w: nat) -> Seq<char> {
    if s.len() < w {
        spaces((w - s.len()) as nat) + s
    } else {
        s
    }
}

/// `s` left-aligned in `w` columns, as `{:<w}` writes it.
pub open spec fn left_aligned(s: Seq<char>, w: nat) -> Seq<char> {
    if s.len() < w {
        s + spaces((w - s.len()) as nat)
    } else {
        s
    }
}

/// "[PR]" or "[ISSUE]".
pub open spec fn kind_tag(k: Kind) -> Seq<char> {
    if k == Kind::Pr {
        "[PR]"@
    } else {
        "[ISSUE]"@
    }
}

/// The texts of a list of chips.
pub open spec fn chip_texts(c: Seq<(Seq<char>, Tone)>) -> Seq<Seq<char>> {
    c.map_values(|x: (Seq<char>, Tone)| x.0)
}

/// The first line of an item at `now`: its age right-aligned in four
/// columns, its kind in seven, its slug and its title.
pub open spec fn row_head(it: ItemView, now: Stamp) -> Seq<char> {
    right_aligned(age_text(elapsed_secs(it.updated_at, now)), 4) + "  "@ + left_aligned(
        kind_tag(it.kind),
        7,
    ) + " "@ + it.slug() + "  "@ + it.title + "\n"@
}

/// What follows an item's chips: the number of comments if there are any,
/// and the last activity if it is known, each after three spaces.
pub open spec fn row_note(it: ItemView) -> Seq<char> {
    (if it.comments > 0 {
        "   "@ + plural_text(it.comments, "comment"@)
    } else {
        seq![]
    }) + (match it.activity() {
        Some(a) => "   "@ + a,
        None => seq![],
    })
}

/// The second line of an item: indented fourteen columns, its chips joined
/// by " \u{b7} ", and the note (see `row_note`).
pub open spec fn row_tail(it: ItemView) -> Seq<char> {
    spaces(14) + joined(chip_texts(it.chips()), " \u{b7} "@) + row_note(it) + "\n"@
}

/// The two lines that show an item at `now`.
pub open spec fn row_text(it: ItemView, now: Stamp) -> Seq<char> {
    row_head(it, now) + row_tail(it)
}

/// The items that filter `f` keeps for `me`, in their order.
pub open spec fn kept(items: Seq<ItemView>, f: Filter, me: Seq<char>) -> Seq<ItemView>
    decreases items.len(),
{
    if items.len() == 0 {
        seq![]
    } else {
        kept(items.drop_last(), f, me) + if keeps_item(f, items.last(), me) {
            seq![items.last()]
        } else {
            seq![]
        }
    }
}

/// The rows of `rows`, one after another.
pub open spec fn rows_text(rows: Seq<ItemView>, now: Stamp) -> Seq<char>
    decreases rows.len(),
{
    if rows.len() == 0 {
        seq![]
    } else {
        rows_text(rows.drop_last(), now) + row_text(rows.last(), now)
    }
}

fn push_spaces(out: &mut String, n: usize)
    ensures
        final(out)@ == old(out)@ + spaces(n as nat),
{
    let mut k: usize = 0;
    while k < n
        invariant
            k <= n,
            out@ == old(out)@ + spaces(k as nat),
        decreases n - k,
    {
        push_char(out, ' ');
        assert(spaces(k as nat).push(' ') =~= spaces((k + 1) as nat));
        k = k + 1;
    }
    assert(old(out)@ + spaces(0) =~= old(out)@);
}

/// The chips' texts.
fn chip_text_list(chips: &Vec<(String, Tone)>) -> (r: Vec<String>)
    ensures
        views(r@) == chip_texts(chip_views(chips@)),
{
    let mut r: Vec<String> = Vec::new();
    let mut i: usize = 0;
    assert(views(r@) =~= chip_texts(chip_views(chips@)).take(0));
    while i < chips.len()
        invariant
            i <= chips@.len(),
            r@.len() == i,
            chip_texts(chip_views(chips@)).len() == chips@.len(),
            views(r@) == chip_texts(chip_views(chips@)).take(i as int),
        decreases chips@.len() - i,
    {
        let ghost before = r@;
        r.push(chips[i].0.clone());
        assert(r@ =~= before.push(chips@[i as int].0));
        assert(chip_views(chips@)[i as int].0 == chips@[i as int].0@);
        let ghost want = chip_texts(chip_views(chips@));
        assert forall|k: int| 0 <= k <= i implies views(r@)[k] == want[k] by {
            if k < i {
                assert(views(before)[k] == want.take(i as int)[k]);
                assert(r@[k] == before[k]);
            }
        }
        assert(views(r@) =~= want.take(i + 1));
        i = i + 1;
    }
    assert(chip_texts(chip_views(chips@)).take(i as int) =~= chip_texts(chip_views(chips@)));
    r
}

fn push_row_head(out: &mut String, it: &Item, now: Stamp)
    ensures
        final(out)@ == old(out)@ + row_head(it@, now),
{
    let ghost start = out@;
    let age = ago_at(it.updated_at, now);
    let n = chars_of(age.as_str()).len();
    if n < 4 {
        push_spaces(out, 4 - n);
    }
    push_str(out, age.as_str());
    let ghost a1 = out@;
    assert(a1 =~= start + right_aligned(age_text(elapsed_secs(it@.updated_at, now)), 4));
    push_str(out, "  ");
    let tag = if it.kind == Kind::Pr {
        "[PR]"
    } else {
        "[ISSUE]"
    };
    push_str(out, tag);
    let m = chars_of(tag).len();
    if m < 7 {
        push_spaces(out, 7 - m);
    }
    let ghost a2 = out@;
    assert(a2 =~= a1 + "  "@ + left_aligned(kind_tag(it@.kind), 7));
    push_str(out, " ");
    let slug = it.slug();
    push_str(out, slug.as_str());
    push_str(out, "  ");
    push_str(out, it.title.as_str());
    push_str(out, "\n");
    assert(out@ =~= start + row_head(it@, now));
}

/// Writes what follows an item's chips (see `row_note`).
pub fn push_row_note(out: &mut String, it: &Item)
    ensures
        final(out)@ == old(out)@ + row_note(it@),
{
    let ghost start = out@;
    if it.comments > 0 {
        push_str(out, "   ");
        let p = plural(it.comments, "comment");
        push_str(out, p.as_str());
    }
    let ghost a4 = out@;
    assert(a4 =~= start + (if it@.comments > 0 {
        "   "@ + plural_text(it@.comments, "comment"@)
    } else {
        seq![]
    }));
    match it.activity() {
        Some(a) => {
            push_str(out, "   ");
            push_str(out, a.as_str());
        },
        None => {},
    }
    assert(out@ =~= start + row_note(it@));
}

fn push_row_tail(out: &mut String, it: &Item)
    ensures
        final(out)@ == old(out)@ + row_tail(it@),
{
    let ghost start = out@;
    push_spaces(out, 14);
    let chips = it.chips();
    let texts = chip_text_list(&chips);
    let joint = join(&texts, " \u{b7} ");
    push_str(out, joint.as_str());
    let ghost a3 = out@;
    assert(a3 =~= start + spaces(14) + joined(chip_texts(it@.chips()), " \u{b7} "@));
    push_row_note(out, it);
    push_str(out, "\n");
    assert(out@ =~= start + row_tail(it@));
}

/// Writes the two lines of one item (see `row_text`).
fn push_row(out: &mut String, it: &Item, now: Stamp)
    ensures
        final(out)@ == old(out)@ + row_text(it@, now),
{
    let ghost start = out@;
    push_row_head(out, it, now);
    push_row_tail(out, it);
    assert(out@ =~= start + row_text(it@, now));
}

/// Writes the rows of the items that filter `f` keeps for `me`, as seen at
/// `now` (see `row_text`), and gives their number.
pub fn print_rows(out: &mut String, items: &Vec<Item>, f: Filter, me: &str, now: Stamp) -> (n: usize)
    ensures
        final(out)@ == old(out)@ + rows_text(kept(item_views(items@), f, me@), now),
        n == kept(item_views(items@), f, me@).len(),
{
    let ghost all = item_views(items@);
    let mut n: usize = 0;
    let mut i: usize = 0;
    assert(old(out)@ + rows_text(seq![], now) =~= old(out)@);
    while i < items.len()
        invariant
            i <= items@.len(),
            all == item_views(items@),
            n <= i,
            n == kept(all.take(i as int), f, me@).len(),
            out@ == old(out)@ + rows_text(kept(all.take(i as int), f, me@), now),
        decreases items@.len() - i,
    {
        let ghost pre = kept(all.take(i as int), f, me@);
        assert(all.take(i + 1).drop_last() =~= all.take(i as int));
        assert(all.take(i + 1).last() == items@[i as int]@);
        if f.keeps(&items[i], me) {
            push_row(out, &items[i], now);
            let ghost post = pre + seq![items@[i as int]@];
            assert(post.drop_last() =~= pre);
            n = n + 1;
        } else {
            assert(pre + Seq::<ItemView>::empty() =~= pre);
        }
        i = i + 1;
    }
    assert(all.take(i as int) =~= all);
    n
}

// ---------------------------------------------------------------------------
// Lists
// ---------------------------------------------------------------------------

/// What `ghdeck list` prints for `me`'s items under filter `f` at `now`:
/// the number of rows and the filter's name in lower case, a blank line,
/// and the rows.
pub open spec fn list_report_text(items: Seq<ItemView>, f: Filter, me: Seq<char>, now: Stamp) -> Seq<char> {
    let rows = kept(items, f, me);
    plural_text(rows.len() as u64, "item"@) + ", "@ + lowercase(label_text(f)) + "\n\n"@ + rows_text(
        rows,
        now,
    )
}

/// What `ghdeck list` prints (see `list_report_text`).
pub fn list_report(items: &Vec<Item>, filter: Filter, me: &str, now: Stamp) -> (r: String)
    ensures
        r@ == list_report_text(item_views(items@), filter, me@, now),
{
    let mut rows = String::new();
    let n = print_rows(&mut rows, items, filter, me, now);
    let mut r = plural(n as u64, "item");
    push_str(&mut r, ", ");
    let name = to_lowercase(filter.label());
    push_str(&mut r, name.as_str());
    push_str(&mut r, "\n\n");
    push_str(&mut r, rows.as_str());
    assert(r@ =~= list_report_text(item_views(items@), filter, me@, now));
    r
}

// ---------------------------------------------------------------------------
// Someone's work
// ---------------------------------------------------------------------------

/// A text, or nothing.
pub open spec fn or_blank(o: Option<Seq<char>>) -> Seq<char> {
    match o {
        Some(t) => t,
        None => seq![],
    }
}

/// The note under the heading of someone's work: where it came from a
/// public activity feed, since when (and that mentions are not in it); else,
/// where only the newest `shown` of `total` items were fetched, that.
pub open spec fn user_note(login: Seq<char>, f: Filter, shown: nat, total: u64, since: Option<Stamp>) -> Seq<char> {
    match since {
        Some(t) => "github hides "@ + login + " from search, so this is their public activity since "@
            + or_blank(day_month_of(t.secs, t.nanos)) + "\n"@ + if f == Filter::Mentioned {
            "mentions are not in that activity, so this filter stays empty\n"@
        } else {
            seq![]
        },
        None => if total > shown {
            "from the newest "@ + decimal(shown) + " of "@ + decimal(total as nat)
                + " they are involved in\n"@
        } else {
            seq![]
        },
    }
}

/// What `ghdeck user <login> [what]` prints at `now` for the items fetched:
/// a line saying there is nothing, where nothing was fetched; else the
/// number of rows that filter `f` keeps, the filter's name in lower case and
/// the login, the note (see `user_note`), a blank line and the rows.
pub open spec fn user_report_text(
    login: Seq<char>,
    f: Filter,
    items: Seq<ItemView>,
    involved_total: u64,
    feed_since: Option<Stamp>,
    now: Stamp,
) -> Seq<char> {
    if items.len() == 0 {
        "nothing for "@ + login + " that you can see\n"@
    } else {
        let rows = kept(items, f, login);
        plural_text(rows.len() as u64, "item"@) + ", "@ + lowercase(label_text(f)) + " for "@ + login
            + "\n"@ + user_note(login, f, items.len(), involved_total, feed_since) + "\n"@
            + rows_text(rows, now)
    }
}

fn push_user_note(out: &mut String, login: &str, f: Filter, shown: usize, total: u64, since: Option<Stamp>)
    ensures
        final(out)@ == old(out)@ + user_note(login@, f, shown as nat, total, since),
{
    let ghost start = out@;
    match since {
        Some(t) => {
            push_str(out, "github hides ");
            push_str(out, login);
            push_str(out, " from search, so this is their public activity since ");
            match day_month(t) {
                Some(d) => push_str(out, d.as_str()),
                None => {},
            }
            push_str(out, "\n");
            if f == Filter::Mentioned {
                push_str(out, "mentions are not in that activity, so this filter stays empty\n");
            }
        },
        None => {
            if total > shown as u64 {
                push_str(out, "from the newest ");
                push_decimal(out, shown as u64);
                push_str(out, " of ");
                push_decimal(out, total);
                push_str(out, " they are involved in\n");
            }
        },
    }
    assert(out@ =~= start + user_note(login@, f, shown as nat, total, since));
}

/// What `ghdeck user` prints for `login` under filter `f` at `now`, from
/// what a look-up fetched (see `user_report_text`).
pub fn user_report(login: &str, filter: Filter, got: &Fetched, now: Stamp) -> (r: String)
    ensures
        r@ == user_report_text(
            login@,
            filter,
            item_views(got.items@),
            got.involved_total,
            got.feed_since,
            now,
        ),
{
    if got.items.len() == 0 {
        let mut r = owned("nothing for ");
        push_str(&mut r, login);
        push_str(&mut r, " that you can see\n");
        return r;
    }
    let mut rows = String::new();
    let n = print_rows(&mut rows, &got.items, filter, login, now);
    let mut r = plural(n as u64, "item");
    push_str(&mut r, ", ");
    let name = to_lowercase(filter.label());
    push_str(&mut r, name.as_str());
    push_str(&mut r, " for ");
    push_str(&mut r, login);
    push_str(&mut r, "\n");
    push_user_note(&mut r, login, filter, got.items.len(), got.involved_total, got.feed_since);
    push_str(&mut r, "\n");
    push_str(&mut r, rows.as_str());
    r
}

// ---------------------------------------------------------------------------
// A conversation
// ---------------------------------------------------------------------------

/// Why `ghdeck show` cannot read its argument.
#[derive(Debug, Clone, Copy, PartialEq, Eq, Structural)]
pub enum RefError {
    /// No argument was given.
    Missing,
    /// The argument has no `#`.
    NoHash,
    /// What follows the last `#` is not a number.
    BadNumber,
}

/// What `ghdeck show` says of each refusal.
pub open spec fn ref_error_text(e: RefError) -> Seq<char> {
    match e {
        RefError::Missing => "give a ref like owner/repo#123"@,
        RefError::NoHash => "expected owner/repo#123"@,
        RefError::BadNumber => "that number did not parse"@,
    }
}

impl RefError {
    /// What `ghdeck show` says of the refusal (see `ref_error_text`).
    pub fn message(&self) -> (r: &'static str)
        ensures
            r@ == ref_error_text(*self),
    {
        match self {
            RefError::Missing => "give a ref like owner/repo#123",
            RefError::NoHash => "expected owner/repo#123",
            RefError::BadNumber => "that number did not parse",
        }
    }
}

/// Where `c` last stands in `s`.
pub open spec fn last_index_of(s: Seq<char>, c: char) -> Option<int>
    decreases s.len(),
{
    if s.len() == 0 {
        None
    } else if s.last() == c {
        Some(s.len() - 1)
    } else {
        last_index_of(s.drop_last(), c)
    }
}

/// The repository and number that `ghdeck show owner/repo#123` names: what
/// stands before the last `#`, and what follows it read as a `u64`.
pub open spec fn ref_named(target: Option<Seq<char>>) -> Result<(Seq<char>, u64), RefError> {
    match target {
        None => Err(RefError::Missing),
        Some(t) => match last_index_of(t, '#') {
            None => Err(RefError::NoHash),
            Some(k) => match u64_text(t.subrange(k + 1, t.len() as int)) {
                Some(n) => Ok((t.take(k), n)),
                None => Err(RefError::BadNumber),
            },
        },
    }
}

proof fn lemma_last_index_range(s: Seq<char>, c: char)
    ensures
        last_index_of(s, c) matches Some(k) ==> 0 <= k < s.len() && s[k] == c,
    decreases s.len(),
{
    if s.len() > 0 && s.last() != c {
        lemma_last_index_range(s.drop_last(), c);
    }
}

/// The repository and number that the argument of `ghdeck show` names (see
/// `ref_named`).
pub fn parse_ref(target: Option<&str>) -> (r: Result<(String, u64), RefError>)
    ensures
        match r {
            Ok((repo, n)) => ref_named(opt_str(target)) == Ok::<(Seq<char>, u64), RefError>(
                (repo@, n),
            ),
            Err(e) => ref_named(opt_str(target)) == Err::<(Seq<char>, u64), RefError>(e),
        },
{
    let t = match target {
        Some(t) => t,
        None => {
            return Err(RefError::Missing);
        },
    };
    let cs = chars_of(t);
    let mut k: usize = cs.len();
    assert(cs@.take(k as int) =~= t@);
    while k > 0 && cs[k - 1] != '#'
        invariant
            k <= cs@.len(),
            cs@ == t@,
            last_index_of(t@, '#') == last_index_of(cs@.take(k as int), '#'),
        decreases k,
    {
        assert(cs@.take(k as int).drop_last() =~= cs@.take(k - 1));
        k = k - 1;
    }
    if k == 0 {
        assert(cs@.take(0) =~= Seq::<char>::empty());
        return Err(RefError::NoHash);
    }
    let ghost h = (k - 1) as int;
    assert(last_index_of(cs@.take(k as int), '#') == Some(h));
    let repo = crate::text::string_of_range(&cs, 0, k - 1);
    let num = crate::text::string_of_range(&cs, k, cs.len());
    assert(repo@ =~= t@.take(h));
    assert(num@ =~= t@.subrange(h + 1, t@.len() as int));
    match parse_u64(num.as_str()) {
        Some(n) => Ok((repo, n)),
        None => Err(RefError::BadNumber),
    }
}

/// The lines, each indented four columns and ended.
pub open spec fn indented(lines: Seq<Seq<char>>) -> Seq<char>
    decreases lines.len(),
{
    if lines.len() == 0 {
        seq![]
    } else {
        "    "@ + lines[0] + "\n"@ + indented(lines.drop_first())
    }
}

/// How `ghdeck show` prints one event: its time to the minute, who, and
/// what; then a bot's gist, if it has one, or else every line of the body,
/// indented; then a blank line.
pub open spec fn event_text(e: EventView) -> Seq<char> {
    or_blank(minute_of(e.at.secs, e.at.nanos)) + " "@ + e.who + " "@ + e.label + "\n"@ + (if e.bot {
        if gist_text(e.body).len() > 0 {
            "    "@ + gist_text(e.body) + "\n"@
        } else {
            seq![]
        }
    } else {
        indented(lines_of(e.body))
    }) + "\n"@
}

/// The events, one after another.
pub open spec fn events_text(es: Seq<EventView>) -> Seq<char>
    decreases es.len(),
{
    if es.len() == 0 {
        seq![]
    } else {
        events_text(es.drop_last()) + event_text(es.last())
    }
}

/// What `ghdeck show` prints for the conversation on `repo#number`: a line
/// saying there is nothing, or the events.
pub open spec fn show_report_text(repo: Seq<char>, number: u64, events: Seq<EventView>) -> Seq<char> {
    if events.len() == 0 {
        "nothing on "@ + repo + "#"@ + decimal(number as nat) + "\n"@
    } else {
        events_text(events)
    }
}

proof fn lemma_indented_cons(l: Seq<char>, rest: Seq<Seq<char>>)
    ensures
        indented(seq![l] + rest) == "    "@ + l + "\n"@ + indented(rest),
{
    let all = seq![l] + rest;
    assert(all[0] == l);
    assert(all.drop_first() =~= rest);
}

/// Writes every line of `body`, indented (see `indented` and `lines_of`).
fn push_indented(out: &mut String, body: &Vec<char>)
    ensures
        final(out)@ == old(out)@ + indented(lines_of(body@)),
{
    let ghost goal = old(out)@ + indented(lines_of(body@));
    let mut cur: Vec<char> = Vec::new();
    let mut i: usize = 0;
    assert(body@.skip(0) =~= body@);
    while i < body.len()
        invariant
            i <= body@.len(),
            goal == out@ + indented(lines_after(body@.skip(i as int), cur@)),
        decreases body@.len() - i,
    {
        let c = body[i];
        let ghost rest = body@.skip(i as int);
        assert(rest[0] == c);
        assert(rest.drop_first() =~= body@.skip(i + 1));
        if c == '\n' {
            let n = cur.len();
            let line = if n > 0 && cur[n - 1] == '\r' {
                sub_chars(&cur, 0, n - 1)
            } else {
                sub_chars(&cur, 0, n)
            };
            assert(line@ =~= drop_cr(cur@));
            proof {
                lemma_indented_cons(drop_cr(cur@), lines_after(body@.skip(i + 1), seq![]));
            }
            let ghost before = out@;
            push_str(out, "    ");
            let s = string_of(&line);
            push_str(out, s.as_str());
            push_str(out, "\n");
            assert(out@ =~= before + ("    "@ + drop_cr(cur@) + "\n"@));
            cur = Vec::new();
        } else {
            cur.push(c);
        }
        i = i + 1;
    }
    assert(body@.skip(i as int) =~= Seq::<char>::empty());
    if cur.len() > 0 {
        proof {
            lemma_indented_cons(cur@, seq![]);
        }
        let ghost before = out@;
        push_str(out, "    ");
        let s = string_of(&cur);
        push_str(out, s.as_str());
        push_str(out, "\n");
        assert(out@ =~= before + ("    "@ + cur@ + "\n"@));
        assert(out@ =~= goal);
    } else {
        assert(out@ + indented(Seq::<Seq<char>>::empty()) =~= out@);
    }
}

fn push_event(out: &mut String, e: &Event)
    ensures
        final(out)@ == old(out)@ + event_text(e@),
{
    let ghost start = out@;
    match minute(e.at) {
        Some(m) => push_str(out, m.as_str()),
        None => {},
    }
    push_str(out, " ");
    push_str(out, e.who.as_str());
    push_str(out, " ");
    push_str(out, e.label.as_str());
    push_str(out, "\n");
    let ghost head = out@;
    assert(head =~= start + (or_blank(minute_of(e@.at.secs, e@.at.nanos)) + " "@ + e@.who + " "@
        + e@.label + "\n"@));
    if e.bot {
        let g = e.gist();
        if !crate::thread::is_empty_text(&g) {
            push_str(out, "    ");
            push_str(out, g.as_str());
            push_str(out, "\n");
        }
    } else {
        let body = chars_of(e.body.as_str());
        push_indented(out, &body);
    }
    push_str(out, "\n");
    assert(out@ =~= start + event_text(e@));
}

/// What `ghdeck show` prints for the conversation on `repo#number` (see
/// `show_report_text`).
pub fn show_report(repo: &str, number: u64, events: &Vec<Event>) -> (r: String)
    ensures
        r@ == show_report_text(repo@, number, event_views(events@)),
{
    if events.len() == 0 {
        let mut r = owned("nothing on ");
        push_str(&mut r, repo);
        push_str(&mut r, "#");
        push_decimal(&mut r, number);
        push_str(&mut r, "\n");
        return r;
    }
    let ghost all = event_views(events@);
    let mut r = String::new();
    let mut i: usize = 0;
    while i < events.len()
        invariant
            i <= events@.len(),
            all == event_views(events@),
            r@ == events_text(all.take(i as int)),
        decreases events@.len() - i,
    {
        assert(all.take(i + 1).drop_last() =~= all.take(i as int));
        assert(all.take(i + 1).last() == events@[i as int]@);
        push_event(&mut r, &events[i]);
        i = i + 1;
    }
    assert(all.take(i as int) =~= all);
    r
}

} // verus!
