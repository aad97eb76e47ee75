//! The texts of the dashboard's screen: the filter tabs, the rows, and the
//! footer under the list. Colours and layout are the terminal's business.
use vstd::prelude::*;

use crate::clock::Stamp;
use crate::deck::{count_kept, own_filters, App};
use crate::keys::{utf8_len, utf8_width};
use crate::model::{age_text, ago_at, elapsed_secs, owned, Item, ItemView, Kind};
use crate::report::{right_aligned, spaces};
use crate::search::item_views;
use crate::text::{chars_of, decimal, join, joined, push_decimal, push_str, string_of_range, views};
use crate::{label_text, Filter};

verus! {

// ---------------------------------------------------------------------------
// Tabs
// ---------------------------------------------------------------------------

/// The tab of the `i`th filter (from 0), holding `n` items: " 1:OPEN 12 ".
pub open spec fn tab_text(i: nat, f: Filter, n: nat) -> Seq<char> {
    " "@ + decimal(i + 1) + ":"@ + label_text(f) + " "@ + decimal(n) + " "@
}

impl App {
    /// The tabs of one's own filters, each with whether it is the filter
    /// shown; the counts are of the list shown.
    pub fn tabs(&self) -> (r: Vec<(String, bool)>)
        ensures
            r@.len() == own_filters().len(),
            forall|k: int|
                0 <= k < r@.len() ==> {
                    let f = #[trigger] own_filters()[k];
                    &&& r@[k].0@ == tab_text(
                        k as nat,
                        f,
                        count_kept(item_views(self.items@), f, self.subject_of()),
                    )
                    &&& r@[k].1 == (f == self.filter)
                },
    {
        let order = Filter::order();
        let mut r: Vec<(String, bool)> = Vec::new();
        let mut k: usize = 0;
        while k < 5
            invariant
                k <= 5,
                order@ == own_filters(),
                r@.len() == k,
                forall|j: int|
                    0 <= j < k ==> {
                        let f = #[trigger] own_filters()[j];
                        &&& r@[j].0@ == tab_text(
                            j as nat,
                            f,
                            count_kept(item_views(self.items@), f, self.subject_of()),
                        )
                        &&& r@[j].1 == (f == self.filter)
                    },
            decreases 5 - k,
        {
            let f = order[k];
            let n = self.count(f);
            let mut t = owned(" ");
            push_decimal(&mut t, (k + 1) as u64);
            push_str(&mut t, ":");
            push_str(&mut t, f.label());
            push_str(&mut t, " ");
            push_decimal(&mut t, n as u64);
            push_str(&mut t, " ");
            assert(t@ =~= tab_text(k as nat, f, n as nat));
            r.push((t, f == self.filter));
            k = k + 1;
        }
        r
    }

    /// What the list area says when no row is shown: that nothing is cached
    /// yet, or that nothing matches; nothing where rows are shown.
    pub fn empty_message(&self) -> (r: Option<&'static str>)
        ensures
            self.view@.len() > 0 ==> r is None,
            self.view@.len() == 0 && self.items@.len() == 0 ==> (r matches Some(m) && m@
                == "nothing cached yet, press r to sync"@),
            self.view@.len() == 0 && self.items@.len() > 0 ==> (r matches Some(m) && m@
                == "nothing matches this filter"@),
    {
        if self.view.len() > 0 {
            None
        } else if self.items.len() == 0 {
            Some("nothing cached yet, press r to sync")
        } else {
            Some("nothing matches this filter")
        }
    }
}

// ---------------------------------------------------------------------------
// Rows
// ---------------------------------------------------------------------------

/// The age column of a row: the age right-aligned in four columns and a space.
pub open spec fn age_column_text(then: Stamp, now: Stamp) -> Seq<char> {
    right_aligned(age_text(elapsed_secs(then, now)), 4) + " "@
}

/// The age column of a row at `now` (see `age_column_text`).
pub fn age_column(then: Stamp, now: Stamp) -> (r: String)
    ensures
        r@ == age_column_text(then, now),
{
    let age = ago_at(then, now);
    let n = chars_of(age.as_str()).len();
    let mut r = String::new();
    let mut k: usize = n;
    while k < 4
        invariant
            n <= k <= 4 || (k == n && n >= 4),
            r@ == spaces((k - n) as nat),
        decreases 4 - k,
    {
        crate::text::push_char(&mut r, ' ');
        assert(spaces((k - n) as nat).push(' ') =~= spaces((k + 1 - n) as nat));
        k = k + 1;
    }
    push_str(&mut r, age.as_str());
    push_str(&mut r, " ");
    assert(r@ =~= age_column_text(then, now));
    r
}

/// "PR" or "IS", the kind as a row shows it.
pub open spec fn kind_mark(k: Kind) -> Seq<char> {
    if k == Kind::Pr {
        "PR"@
    } else {
        "IS"@
    }
}

/// The kind as a row shows it (see `kind_mark`).
pub fn kind_label(k: Kind) -> (r: &'static str)
    ensures
        r@ == kind_mark(k),
{
    if k == Kind::Pr {
        "PR"
    } else {
        "IS"
    }
}

/// How many characters of title a row has room for, in a list `width`
/// columns wide, after a slug of `slug_bytes` bytes: what is left after the
/// slug and fourteen columns, and at least twenty.
pub open spec fn title_budget(slug_bytes: nat, width: nat) -> nat {
    let need = slug_bytes + 14;
    let b: nat = if width > need {
        (width - need) as nat
    } else {
        0
    };
    if b < 20 {
        20
    } else {
        b
    }
}

/// A title cut to `budget` characters: where it is longer, its first
/// `budget - 1` characters and "…".
pub open spec fn fitted(title: Seq<char>, budget: nat) -> Seq<char> {
    if title.len() > budget {
        title.take(budget - 1) + "\u{2026}"@
    } else {
        title
    }
}

/// The number of UTF-8 bytes of `s`.
fn utf8_bytes(s: &str) -> (n: u128)
    ensures
        n == utf8_len(s@),
        n <= 4 * usize::MAX,
{
    let cs = chars_of(s);
    let mut n: u128 = 0;
    let mut i: usize = 0;
    assert(cs@.take(0) =~= Seq::<char>::empty());
    while i < cs.len()
        invariant
            i <= cs@.len(),
            cs@ == s@,
            n == utf8_len(cs@.take(i as int)),
            n <= 4 * i,
        decreases cs@.len() - i,
    {
        assert(cs@.take(i + 1).drop_last() =~= cs@.take(i as int));
        let u = cs[i] as u32;
        let w: u128 = if u < 0x80 {
            1
        } else if u < 0x800 {
            2
        } else if u < 0x10000 {
            3
        } else {
            4
        };
        assert(w == utf8_width(cs@[i as int]));
        n = n + w;
        i = i + 1;
    }
    assert(cs@.take(i as int) =~= s@);
    n
}

/// The title of a row in a list `width` columns wide beside the slug (see
/// `title_budget` and `fitted`).
pub fn fit_title(title: &str, slug: &str, width: usize) -> (r: String)
    ensures
        r@ == fitted(title@, title_budget(utf8_len(slug@), width as nat)),
{
    let need: u128 = utf8_bytes(slug) + 14;
    let b: u128 = if (width as u128) > need {
        width as u128 - need
    } else {
        0
    };
    let budget: u128 = if b < 20 {
        20
    } else {
        b
    };
    let cs = chars_of(title);
    if (cs.len() as u128) > budget {
        let keep = (budget - 1) as usize;
        let mut r = string_of_range(&cs, 0, keep);
        push_str(&mut r, "\u{2026}");
        assert(r@ =~= fitted(title@, title_budget(utf8_len(slug@), width as nat)));
        r
    } else {
        crate::text::string_of(&cs)
    }
}

// ---------------------------------------------------------------------------
// The footer
// ---------------------------------------------------------------------------

/// The facts about an item that the footer lists: who opened it; for a pull
/// request, its size; whom it is assigned to; and whether GitHub is still
/// working out if it merges.
pub open spec fn meta_parts(it: ItemView) -> Seq<Seq<char>> {
    seq!["by "@ + it.author] + (if it.kind == Kind::Pr {
        seq![
            "+"@ + decimal(it.additions as nat) + " -"@ + decimal(it.deletions as nat) + " in "@
                + decimal(it.changed_files as nat) + " files"@,
        ]
    } else {
        seq![]
    }) + (if it.assignees.len() > 0 {
        seq!["assigned "@ + joined(it.assignees, ", "@)]
    } else {
        seq![]
    }) + (if it.mergeable_unknown {
        seq!["merge state still computing"@]
    } else {
        seq![]
    })
}

/// The footer's line of facts about an item, three spaces between each two.
pub open spec fn meta_text(it: ItemView) -> Seq<char> {
    joined(meta_parts(it), "   "@)
}

/// The footer's line of facts about the item (see `meta_text`).
pub fn meta_line(it: &Item) -> (r: String)
    ensures
        r@ == meta_text(it@),
{
    let mut parts: Vec<String> = Vec::new();
    let mut by = owned("by ");
    push_str(&mut by, it.author.as_str());
    parts.push(by);
    let ghost p1 = views(parts@);
    assert(p1 =~= seq!["by "@ + it@.author]);
    if it.kind == Kind::Pr {
        let mut size = owned("+");
        push_decimal(&mut size, it.additions);
        push_str(&mut size, " -");
        push_decimal(&mut size, it.deletions);
        push_str(&mut size, " in ");
        push_decimal(&mut size, it.changed_files);
        push_str(&mut size, " files");
        parts.push(size);
    }
    let ghost p2 = views(parts@);
    assert(p2 =~= p1 + (if it@.kind == Kind::Pr {
        seq![
            "+"@ + decimal(it@.additions as nat) + " -"@ + decimal(it@.deletions as nat)
                + " in "@ + decimal(it@.changed_files as nat) + " files"@,
        ]
    } else {
        seq![]
    }));
    if it.assignees.len() > 0 {
        let mut a = owned("assigned ");
        let names = join(&it.assignees, ", ");
        push_str(&mut a, names.as_str());
        parts.push(a);
    }
    let ghost p3 = views(parts@);
    assert(p3 =~= p2 + (if it@.assignees.len() > 0 {
        seq!["assigned "@ + joined(it@.assignees, ", "@)]
    } else {
        seq![]
    }));
    if it.mergeable_unknown {
        parts.push(owned("merge state still computing"));
    }
    assert(views(parts@) =~= meta_parts(it@));
    join(&parts, "   ")
}

/// The line at the foot of the dashboard: what is typed into the search,
/// else the status, else a reminder of the keys.
pub open spec fn hint_text(a: App) -> Seq<char> {
    if a.searching {
        "search: "@ + a.search@ + "_"@
    } else if a.status@.len() > 0 {
        a.status@
    } else {
        "j k move \u{b7} tab filter \u{b7} o open \u{b7} r sync \u{b7} / search \u{b7} ? help \u{b7} q quit"@
    }
}

/// After the hint, where a search narrows the list and is no longer being
/// typed, a note of it.
pub open spec fn filtering_text(a: App) -> Option<Seq<char>> {
    if a.search@.len() > 0 && !a.searching {
        Some("   filtering on \""@ + a.search@ + "\""@)
    } else {
        None
    }
}

/// After that, once a sync has reported, the API points left.
pub open spec fn points_text(a: App) -> Option<Seq<char>> {
    match a.stats {
        Some(st) => Some("   "@ + decimal(st.remaining as nat) + " api pts left"@),
        None => None,
    }
}

impl App {
    /// The line at the foot of the dashboard (see `hint_text`).
    pub fn hint(&self) -> (r: String)
        ensures
            r@ == hint_text(*self),
    {
        if self.searching {
            let mut r = owned("search: ");
            push_str(&mut r, self.search.as_str());
            push_str(&mut r, "_");
            r
        } else if !crate::thread::is_empty_text(&self.status) {
            self.status.clone()
        } else {
            owned(
                "j k move \u{b7} tab filter \u{b7} o open \u{b7} r sync \u{b7} / search \u{b7} ? help \u{b7} q quit",
            )
        }
    }

    /// The note of the search that narrows the list (see `filtering_text`).
    pub fn filtering_note(&self) -> (r: Option<String>)
        ensures
            crate::model::opt_view(r) == filtering_text(*self),
    {
        if !crate::thread::is_empty_text(&self.search) && !self.searching {
            let mut r = owned("   filtering on \"");
            push_str(&mut r, self.search.as_str());
            push_str(&mut r, "\"");
            Some(r)
        } else {
            None
        }
    }

    /// The API points left, once a sync has reported (see `points_text`).
    pub fn points_note(&self) -> (r: Option<String>)
        ensures
            crate::model::opt_view(r) == points_text(*self),
    {
        match self.stats {
            Some(st) => {
                let mut r = owned("   ");
                push_decimal(&mut r, st.remaining);
                push_str(&mut r, " api pts left");
                Some(r)
            },
            None => None,
        }
    }
}

} // verus!
