//! One pull request or issue, and the status it shows.
use vstd::prelude::*;

use crate::clock::{now, Stamp};
use crate::text::{decimal, join, joined, push_char, push_decimal, push_str, text_is, views};

verus! {

/// Pull request or issue.
#[derive(Debug, Clone, Copy, PartialEq, Eq, Structural)]
pub enum Kind {
    Pr,
    Issue,
}

/// Where an item stands.
#[derive(Debug, Clone, Copy, PartialEq, Eq, Structural)]
pub enum State {
    Open,
    Draft,
    Merged,
    Closed,
}

/// GitHub's review decision on a pull request.
#[derive(Debug, Clone, Copy, PartialEq, Eq, Structural)]
pub enum Review {
    Approved,
    ChangesRequested,
    ReviewRequired,
}

/// The combined state of the checks on a pull request's last commit.
#[derive(Debug, Clone, Copy, PartialEq, Eq, Structural)]
pub enum Ci {
    Success,
    Failure,
    Pending,
    Error,
    NoChecks,
}

/// How a status chip reads: good, bad, a warning, information, or muted.
#[derive(Debug, Clone, Copy, PartialEq, Eq, Structural)]
pub enum Tone {
    Good,
    Bad,
    Warn,
    Info,
    Muted,
}

/// A pull request or issue as the dashboard lists it.
#[derive(Debug, Clone)]
pub struct Item {
    pub url: String,
    pub repo: String,
    pub number: u64,
    pub title: String,
    pub kind: Kind,
    pub state: State,
    pub updated_at: Stamp,
    pub author: String,
    pub conflicting: bool,
    pub mergeable_unknown: bool,
    pub review: Option<Review>,
    pub ci: Ci,
    pub comments: u64,
    pub reviews_left: u64,
    pub waiting_on: Vec<String>,
    pub assignees: Vec<String>,
    pub labels: Vec<String>,
    pub additions: u64,
    pub deletions: u64,
    pub changed_files: u64,
    pub last_actor: Option<String>,
    pub last_action: Option<String>,
    pub review_requested_of_me: bool,
    pub mentioned: bool,
    pub state_reason: Option<String>,
}

/// An item with its text as character sequences.
pub struct ItemView {
    pub url: Seq<char>,
    pub repo: Seq<char>,
    pub number: u64,
    pub title: Seq<char>,
    pub kind: Kind,
    pub state: State,
    pub updated_at: Stamp,
    pub author: Seq<char>,
    pub conflicting: bool,
    pub mergeable_unknown: bool,
    pub review: Option<Review>,
    pub ci: Ci,
    pub comments: u64,
    pub reviews_left: u64,
    pub waiting_on: Seq<Seq<char>>,
    pub assignees: Seq<Seq<char>>,
    pub labels: Seq<Seq<char>>,
    pub additions: u64,
    pub deletions: u64,
    pub changed_files: u64,
    pub last_actor: Option<Seq<char>>,
    pub last_action: Option<Seq<char>>,
    pub review_requested_of_me: bool,
    pub mentioned: bool,
    pub state_reason: Option<Seq<char>>,
}

/// The view of an optional string.
pub open spec fn opt_view(o: Option<String>) -> Option<Seq<char>> {
    match o {
        Some(s) => Some(s@),
        None => None,
    }
}

impl View for Item {
    type V = ItemView;

    open spec fn view(&self) -> ItemView {
        ItemView {
            url: self.url@,
            repo: self.repo@,
            number: self.number,
            title: self.title@,
            kind: self.kind,
            state: self.state,
            updated_at: self.updated_at,
            author: self.author@,
            conflicting: self.conflicting,
            mergeable_unknown: self.mergeable_unknown,
            review: self.review,
            ci: self.ci,
            comments: self.comments,
            reviews_left: self.reviews_left,
            waiting_on: views(self.waiting_on@),
            assignees: views(self.assignees@),
            labels: views(self.labels@),
            additions: self.additions,
            deletions: self.deletions,
            changed_files: self.changed_files,
            last_actor: opt_view(self.last_actor),
            last_action: opt_view(self.last_action),
            review_requested_of_me: self.review_requested_of_me,
            mentioned: self.mentioned,
            state_reason: opt_view(self.state_reason),
        }
    }
}

/// Open or draft: still in play.
pub open spec fn open_state(s: State) -> bool {
    s == State::Open || s == State::Draft
}

/// The checks failed or errored.
pub open spec fn ci_broken(c: Ci) -> bool {
    c == Ci::Failure || c == Ci::Error
}

impl ItemView {
    /// Still open, and something about it waits on someone: a conflict,
    /// requested changes, failing checks, or a review asked of the viewer.
    pub open spec fn needs_attention(self) -> bool {
        &&& open_state(self.state)
        &&& {
            ||| self.conflicting
            ||| self.review == Some(Review::ChangesRequested)
            ||| ci_broken(self.ci)
            ||| self.review_requested_of_me
        }
    }

    /// `owner/name#number`.
    pub open spec fn slug(self) -> Seq<char> {
        self.repo + "#"@ + decimal(self.number as nat)
    }

    /// Who did the last thing and what it was, as one phrase.
    pub open spec fn activity(self) -> Option<Seq<char>> {
        match (self.last_actor, self.last_action) {
            (Some(a), Some(b)) => Some(a + " "@ + b),
            _ => None,
        }
    }

    /// The chip that names the state.
    pub open spec fn state_chip(self) -> (Seq<char>, Tone) {
        match self.state {
            State::Open => ("open"@, Tone::Good),
            State::Draft => ("draft"@, Tone::Muted),
            State::Merged => ("merged"@, Tone::Info),
            State::Closed => if self.state_reason == Some("NOT_PLANNED"@) {
                ("\u{2716} not planned"@, Tone::Bad)
            } else {
                ("\u{2716} closed"@, Tone::Bad)
            },
        }
    }

    /// The chip for the review decision of an open item.
    pub open spec fn review_chips(self) -> Seq<(Seq<char>, Tone)> {
        match self.review {
            Some(Review::Approved) => seq![("approved"@, Tone::Good)],
            Some(Review::ChangesRequested) => seq![("changes requested"@, Tone::Bad)],
            Some(Review::ReviewRequired) => seq![("needs review"@, Tone::Warn)],
            None => seq![],
        }
    }

    /// The chip for the checks of an open item.
    pub open spec fn ci_chips(self) -> Seq<(Seq<char>, Tone)> {
        match self.ci {
            Ci::Success => seq![("ci pass"@, Tone::Good)],
            Ci::Failure => seq![("ci fail"@, Tone::Bad)],
            Ci::Error => seq![("ci error"@, Tone::Bad)],
            Ci::Pending => seq![("ci running"@, Tone::Warn)],
            Ci::NoChecks => seq![],
        }
    }

    /// "your review" where the viewer was asked to review.
    pub open spec fn your_review_chips(self) -> Seq<(Seq<char>, Tone)> {
        if self.review_requested_of_me {
            seq![("your review"@, Tone::Warn)]
        } else {
            seq![]
        }
    }

    /// "conflict" where the branch does not merge cleanly.
    pub open spec fn conflict_chips(self) -> Seq<(Seq<char>, Tone)> {
        if self.conflicting {
            seq![("conflict"@, Tone::Bad)]
        } else {
            seq![]
        }
    }

    /// "reviewed" where reviews came in but no decision stands.
    pub open spec fn reviewed_chips(self) -> Seq<(Seq<char>, Tone)> {
        if self.reviews_left > 0 && self.review is None {
            seq![("reviewed"@, Tone::Info)]
        } else {
            seq![]
        }
    }

    /// "waiting on a, b" where reviews were requested of someone.
    pub open spec fn waiting_chips(self) -> Seq<(Seq<char>, Tone)> {
        if self.waiting_on.len() > 0 {
            seq![("waiting on "@ + joined(self.waiting_on, ", "@), Tone::Warn)]
        } else {
            seq![]
        }
    }

    /// The status chips, in the order the dashboard shows them. A closed or
    /// merged item shows its state, and "approved" if it was; an open one
    /// shows every status that applies.
    pub open spec fn chips(self) -> Seq<(Seq<char>, Tone)> {
        let head = seq![self.state_chip()];
        if !open_state(self.state) {
            if self.review == Some(Review::Approved) {
                head + seq![("approved"@, Tone::Good)]
            } else {
                head
            }
        } else {
            head + self.your_review_chips() + self.review_chips() + self.conflict_chips()
                + self.ci_chips() + self.reviewed_chips() + self.waiting_chips()
        }
    }
}

/// The views of a list of chips.
pub open spec fn chip_views(v: Seq<(String, Tone)>) -> Seq<(Seq<char>, Tone)> {
    v.map_values(|c: (String, Tone)| (c.0@, c.1))
}

/// An owned copy of a string slice.
pub fn owned(s: &str) -> (r: String)
    ensures
        r@ == s@,
{
    s.to_owned()
}

fn push_chip(out: &mut Vec<(String, Tone)>, text: &str, tone: Tone)
    ensures
        chip_views(final(out)@) == chip_views(old(out)@).push((text@, tone)),
{
    let ghost before = old(out)@;
    out.push((owned(text), tone));
    assert(chip_views(out@) =~= chip_views(before).push((text@, tone)));
}

impl Item {
    /// Open or draft.
    pub fn is_open(&self) -> (r: bool)
        ensures
            r == open_state(self.state),
    {
        match self.state {
            State::Open | State::Draft => true,
            _ => false,
        }
    }

    /// Open and waiting on someone (see `ItemView::needs_attention`).
    pub fn needs_attention(&self) -> (r: bool)
        ensures
            r == self@.needs_attention(),
    {
        let changes = match self.review {
            Some(Review::ChangesRequested) => true,
            _ => false,
        };
        let broken = match self.ci {
            Ci::Failure | Ci::Error => true,
            _ => false,
        };
        self.is_open() && (self.conflicting || changes || broken || self.review_requested_of_me)
    }

    /// `owner/name#number`.
    pub fn slug(&self) -> (r: String)
        ensures
            r@ == self@.slug(),
    {
        let mut s = self.repo.clone();
        push_char(&mut s, '#');
        push_decimal(&mut s, self.number);
        proof {
            reveal_strlit("#");
        }
        assert(s@ =~= self@.slug());
        s
    }

    /// Who acted last and how, as in "bob commented".
    pub fn activity(&self) -> (r: Option<String>)
        ensures
            opt_view(r) == self@.activity(),
    {
        match (&self.last_actor, &self.last_action) {
            (Some(a), Some(b)) => {
                let mut s = a.clone();
                push_char(&mut s, ' ');
                push_str(&mut s, b.as_str());
                proof {
                    reveal_strlit(" ");
                }
                assert(s@ =~= a@ + " "@ + b@);
                Some(s)
            },
            _ => None,
        }
    }

    fn push_state_chip(&self, out: &mut Vec<(String, Tone)>)
        ensures
            chip_views(final(out)@) == chip_views(old(out)@).push(self@.state_chip()),
    {
        let not_planned = match &self.state_reason {
            Some(r) => text_is(r, "NOT_PLANNED"),
            None => false,
        };
        match self.state {
            State::Open => push_chip(out, "open", Tone::Good),
            State::Draft => push_chip(out, "draft", Tone::Muted),
            State::Merged => push_chip(out, "merged", Tone::Info),
            State::Closed => if not_planned {
                push_chip(out, "\u{2716} not planned", Tone::Bad)
            } else {
                push_chip(out, "\u{2716} closed", Tone::Bad)
            },
        }
    }

    fn push_review_chips(&self, out: &mut Vec<(String, Tone)>)
        ensures
            chip_views(final(out)@) == chip_views(old(out)@) + self@.your_review_chips()
                + self@.review_chips(),
    {
        let ghost a = chip_views(out@);
        if self.review_requested_of_me {
            push_chip(out, "your review", Tone::Warn);
        }
        let ghost b = chip_views(out@);
        assert(b =~= a + self@.your_review_chips());
        match self.review {
            Some(Review::Approved) => push_chip(out, "approved", Tone::Good),
            Some(Review::ChangesRequested) => push_chip(out, "changes requested", Tone::Bad),
            Some(Review::ReviewRequired) => push_chip(out, "needs review", Tone::Warn),
            None => {},
        }
        assert(chip_views(out@) =~= b + self@.review_chips());
    }

    fn push_check_chips(&self, out: &mut Vec<(String, Tone)>)
        ensures
            chip_views(final(out)@) == chip_views(old(out)@) + self@.conflict_chips()
                + self@.ci_chips(),
    {
        let ghost a = chip_views(out@);
        if self.conflicting {
            push_chip(out, "conflict", Tone::Bad);
        }
        let ghost b = chip_views(out@);
        assert(b =~= a + self@.conflict_chips());
        match self.ci {
            Ci::Success => push_chip(out, "ci pass", Tone::Good),
            Ci::Failure => push_chip(out, "ci fail", Tone::Bad),
            Ci::Error => push_chip(out, "ci error", Tone::Bad),
            Ci::Pending => push_chip(out, "ci running", Tone::Warn),
            Ci::NoChecks => {},
        }
        assert(chip_views(out@) =~= b + self@.ci_chips());
    }

    fn push_people_chips(&self, out: &mut Vec<(String, Tone)>)
        ensures
            chip_views(final(out)@) == chip_views(old(out)@) + self@.reviewed_chips()
                + self@.waiting_chips(),
    {
        let ghost a = chip_views(out@);
        if self.reviews_left > 0 && self.review.is_none() {
            push_chip(out, "reviewed", Tone::Info);
        }
        let ghost b = chip_views(out@);
        assert(b =~= a + self@.reviewed_chips());
        if self.waiting_on.len() > 0 {
            let mut text = owned("waiting on ");
            let names = join(&self.waiting_on, ", ");
            push_str(&mut text, names.as_str());
            out.push((text, Tone::Warn));
        }
        assert(chip_views(out@) =~= b + self@.waiting_chips());
    }

    /// The status chips with their tones (see `ItemView::chips`).
    pub fn chips(&self) -> (out: Vec<(String, Tone)>)
        ensures
            chip_views(out@) == self@.chips(),
    {
        let mut out: Vec<(String, Tone)> = Vec::new();
        assert(chip_views(out@) =~= Seq::<(Seq<char>, Tone)>::empty());
        self.push_state_chip(&mut out);
        let ghost head = chip_views(out@);
        assert(head =~= seq![self@.state_chip()]);
        if !self.is_open() {
            let approved = match self.review {
                Some(Review::Approved) => true,
                _ => false,
            };
            if approved {
                push_chip(&mut out, "approved", Tone::Good);
            }
            return out;
        }
        self.push_review_chips(&mut out);
        self.push_check_chips(&mut out);
        self.push_people_chips(&mut out);
        assert(chip_views(out@) =~= self@.chips());
        out
    }
}

/// "1 word" or "n words".
pub open spec fn plural_text(n: u64, word: Seq<char>) -> Seq<char> {
    if n == 1 {
        decimal(n as nat) + " "@ + word
    } else {
        decimal(n as nat) + " "@ + word + "s"@
    }
}

/// "1 comment", "3 comments": the count and the word, made plural unless the
/// count is one.
pub fn plural(n: u64, word: &str) -> (r: String)
    ensures
        r@ == plural_text(n, word@),
{
    let mut s = String::new();
    push_decimal(&mut s, n);
    push_char(&mut s, ' ');
    push_str(&mut s, word);
    if n != 1 {
        push_char(&mut s, 's');
    }
    proof {
        reveal_strlit(" ");
        reveal_strlit("s");
    }
    assert(s@ =~= plural_text(n, word@));
    s
}

/// Whole seconds from `then` to `now`, and 0 where `now` is not later.
pub open spec fn elapsed_secs(then: Stamp, now: Stamp) -> int {
    let d = (now.secs - then.secs) * 1_000_000_000 + now.nanos - then.nanos;
    if d <= 0 {
        0
    } else {
        d / 1_000_000_000
    }
}

/// The age `secs` as the list shows it: minutes under an hour, then hours,
/// days, 30-day months and 365-day years, each rounded down.
pub open spec fn age_text(secs: int) -> Seq<char> {
    if secs < 3600 {
        decimal((secs / 60) as nat) + "m"@
    } else if secs < 86_400 {
        decimal((secs / 3600) as nat) + "h"@
    } else if secs < 2_592_000 {
        decimal((secs / 86_400) as nat) + "d"@
    } else if secs < 31_536_000 {
        decimal((secs / 2_592_000) as nat) + "mo"@
    } else {
        decimal((secs / 31_536_000) as nat) + "y"@
    }
}

/// How long before `now` the instant `then` was, as "5m", "3h", "2d", "4mo" or "1y".
pub fn ago_at(then: Stamp, now: Stamp) -> (r: String)
    ensures
        r@ == age_text(elapsed_secs(then, now)),
{
    let d: i128 = (now.secs as i128 - then.secs as i128) * 1_000_000_000 + now.nanos as i128
        - then.nanos as i128;
    let secs: i128 = if d <= 0 {
        0
    } else {
        d / 1_000_000_000
    };
    assert(secs == elapsed_secs(then, now));
    assert(0 <= secs <= 0x1_0000_0005_0000_0000);
    let (n, unit): (i128, &str) = if secs < 3600 {
        (secs / 60, "m")
    } else if secs < 86_400 {
        (secs / 3600, "h")
    } else if secs < 2_592_000 {
        (secs / 86_400, "d")
    } else if secs < 31_536_000 {
        (secs / 2_592_000, "mo")
    } else {
        (secs / 31_536_000, "y")
    };
    assert(0 <= n < 0x1_0000_0000_0000_0000);
    let mut s = String::new();
    push_decimal(&mut s, n as u64);
    push_str(&mut s, unit);
    s
}

/// How long ago `then` was, by the clock now (see `ago_at`).
pub fn ago(then: Stamp) -> (r: String)
    ensures
        exists|t: Stamp| r@ == age_text(elapsed_secs(then, t)),
{
    let t = now();
    ago_at(then, t)
}

/// An open item on which changes were requested shows the chip "changes
/// requested" in the tone of trouble.
pub proof fn law_requested_changes_show(it: ItemView)
    requires
        open_state(it.state),
        it.review == Some(Review::ChangesRequested),
    ensures
        it.chips().contains(("changes requested"@, Tone::Bad)),
{
    let head = seq![it.state_chip()] + it.your_review_chips();
    let c = it.chips();
    let k = head.len() as int;
    assert(c[k] == ("changes requested"@, Tone::Bad));
}

} // verus!
