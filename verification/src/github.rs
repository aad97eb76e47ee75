//! Reading GitHub's search answers: one node becomes one `Item`.
use vstd::prelude::*;

use crate::clock::{instant_of, parse_instant, Stamp};
use crate::json::{element, field, flag, list, number, text, value, Json};
use crate::model::{owned, Ci, Item, ItemView, Kind, Review, State};
use crate::text::{chars_of, string_of, text_is, trim, trimmed, views};
use crate::thread::{login, login_of, review_label};

verus! {

/// The string at `key`, if there is one.
pub open spec fn str_at(v: Json, key: Seq<char>) -> Option<Seq<char>> {
    v.at(key).str_of()
}

/// A count at `key`, 0 where there is none.
pub open spec fn count_at(v: Json, key: Seq<char>) -> u64 {
    match v.at(key).u64_of() {
        Some(n) => n,
        None => 0,
    }
}

/// A flag at `key`, false where there is none.
pub open spec fn flag_at(v: Json, key: Seq<char>) -> bool {
    match v.at(key).bool_of() {
        Some(b) => b,
        None => false,
    }
}

/// Pull request or issue, from `__typename`; nothing else is an item.
pub open spec fn kind_of(n: Json) -> Option<Kind> {
    let t = str_at(n, "__typename"@);
    if t == Some("PullRequest"@) {
        Some(Kind::Pr)
    } else if t == Some("Issue"@) {
        Some(Kind::Issue)
    } else {
        None
    }
}

/// Merged wins over closed, closed over draft; the rest is open.
pub open spec fn state_of(n: Json) -> State {
    if flag_at(n, "merged"@) {
        State::Merged
    } else if str_at(n, "state"@) == Some("CLOSED"@) {
        State::Closed
    } else if flag_at(n, "isDraft"@) {
        State::Draft
    } else {
        State::Open
    }
}

/// The check rollup of the last commit.
pub open spec fn ci_of(n: Json) -> Ci {
    let s = n.at("commits"@).at("nodes"@).nth(0).at("commit"@).at("statusCheckRollup"@).at(
        "state"@,
    ).str_of();
    if s == Some("SUCCESS"@) {
        Ci::Success
    } else if s == Some("FAILURE"@) {
        Ci::Failure
    } else if s == Some("PENDING"@) {
        Ci::Pending
    } else if s == Some("ERROR"@) {
        Ci::Error
    } else {
        Ci::NoChecks
    }
}

/// The review decision.
pub open spec fn review_of(n: Json) -> Option<Review> {
    let s = str_at(n, "reviewDecision"@);
    if s == Some("APPROVED"@) {
        Some(Review::Approved)
    } else if s == Some("CHANGES_REQUESTED"@) {
        Some(Review::ChangesRequested)
    } else if s == Some("REVIEW_REQUIRED"@) {
        Some(Review::ReviewRequired)
    } else {
        None
    }
}

/// The newest dated action seen so far: when, who, and what.
pub type Latest = Option<(Stamp, Seq<char>, Seq<char>)>;

/// `last` after considering an action at the time text `ts` by `who`: it
/// becomes the latest where both are given, the time reads, and it is
/// strictly later than the latest so far.
pub open spec fn consider(last: Latest, ts: Option<Seq<char>>, who: Option<Seq<char>>, what: Seq<char>) -> Latest {
    match (ts, who) {
        (Some(ts), Some(w)) => match instant_of(ts) {
            Some(t) => if last is None || t.is_after(last.unwrap().0) {
                Some((t, w, what))
            } else {
                last
            },
            None => last,
        },
        _ => last,
    }
}

/// `last` after the reviews, in order.
pub open spec fn after_reviews(last: Latest, rs: Seq<Json>) -> Latest
    decreases rs.len(),
{
    if rs.len() == 0 {
        last
    } else {
        let r = rs.last();
        consider(
            after_reviews(last, rs.drop_last()),
            str_at(r, "submittedAt"@),
            str_at(r.at("author"@), "login"@),
            review_label(r),
        )
    }
}

/// `last` after the comments, in order.
pub open spec fn after_comments(last: Latest, cs: Seq<Json>) -> Latest
    decreases cs.len(),
{
    if cs.len() == 0 {
        last
    } else {
        let c = cs.last();
        consider(
            after_comments(last, cs.drop_last()),
            str_at(c, "createdAt"@),
            str_at(c.at("author"@), "login"@),
            "commented"@,
        )
    }
}

/// The newest action among the reviews and then the comments of a node; on
/// equal times the one seen first stays.
pub open spec fn latest_of(n: Json) -> Latest {
    after_comments(
        after_reviews(None, n.at("reviews"@).at("nodes"@).elements()),
        n.at("comments"@).at("nodes"@).elements(),
    )
}

/// A login, or else a name (a team's).
pub open spec fn login_or_name(v: Json) -> Option<Seq<char>> {
    match str_at(v, "login"@) {
        Some(s) => Some(s),
        None => str_at(v, "name"@),
    }
}

/// The logins or names of the nodes, skipping those with neither.
pub open spec fn names_in(ns: Seq<Json>) -> Seq<Seq<char>>
    decreases ns.len(),
{
    if ns.len() == 0 {
        seq![]
    } else {
        names_in(ns.drop_last()) + match login_or_name(ns.last()) {
            Some(s) => seq![s],
            None => seq![],
        }
    }
}

/// Who was asked to review: each person's login, or a team's name.
pub open spec fn reviewers_in(ns: Seq<Json>) -> Seq<Seq<char>>
    decreases ns.len(),
{
    if ns.len() == 0 {
        seq![]
    } else {
        reviewers_in(ns.drop_last()) + match login_or_name(ns.last().at("requestedReviewer"@)) {
            Some(s) => seq![s],
            None => seq![],
        }
    }
}

/// The names listed under `path`, as in `assignees{nodes{login}}`.
pub open spec fn names_at(v: Json, path: Seq<char>) -> Seq<Seq<char>> {
    names_in(v.at(path).at("nodes"@).elements())
}

/// The item that a search node stands for: none where it is neither a pull
/// request nor an issue, or lacks a url, repository, number or readable
/// update time.
pub open spec fn item_of(n: Json) -> Option<ItemView> {
    let mergeable = str_at(n, "mergeable"@);
    let last = latest_of(n);
    match (kind_of(n), str_at(n, "url"@), str_at(n.at("repository"@), "nameWithOwner"@), n.at(
        "number"@,
    ).u64_of()) {
        (Some(kind), Some(url), Some(repo), Some(number)) => match str_at(n, "updatedAt"@) {
            Some(u) => match instant_of(u) {
                Some(updated) => Some(
                    ItemView {
                        url: url,
                        repo: repo,
                        number: number,
                        title: trimmed(
                            match str_at(n, "title"@) {
                                Some(t) => t,
                                None => ""@,
                            },
                        ),
                        kind: kind,
                        state: state_of(n),
                        updated_at: updated,
                        author: login_of(n),
                        conflicting: mergeable == Some("CONFLICTING"@),
                        mergeable_unknown: mergeable == Some("UNKNOWN"@),
                        review: review_of(n),
                        ci: ci_of(n),
                        comments: count_at(n.at("comments"@), "totalCount"@),
                        reviews_left: count_at(n.at("reviews"@), "totalCount"@),
                        waiting_on: reviewers_in(n.at("reviewRequests"@).at("nodes"@).elements()),
                        assignees: names_at(n, "assignees"@),
                        labels: names_at(n, "labels"@),
                        additions: count_at(n, "additions"@),
                        deletions: count_at(n, "deletions"@),
                        changed_files: count_at(n, "changedFiles"@),
                        last_actor: match last {
                            Some(l) => Some(l.1),
                            None => None,
                        },
                        last_action: match last {
                            Some(l) => Some(l.2),
                            None => None,
                        },
                        review_requested_of_me: false,
                        mentioned: false,
                        state_reason: str_at(n, "stateReason"@),
                    },
                ),
                None => None,
            },
            None => None,
        },
        _ => None,
    }
}

/// The view of an optional item.
pub open spec fn item_opt_view(r: Option<Item>) -> Option<ItemView> {
    match r {
        Some(it) => Some(it@),
        None => None,
    }
}

// ---------------------------------------------------------------------------
// Reading a node
// ---------------------------------------------------------------------------

fn str_is(j: Option<&Json>, lit: &str) -> (r: bool)
    ensures
        r == (value(j).str_of() == Some(lit@)),
{
    match text(j) {
        Some(s) => text_is(s, lit),
        None => false,
    }
}

fn count(j: Option<&Json>) -> (r: u64)
    ensures
        r == match value(j).u64_of() {
            Some(n) => n,
            None => 0,
        },
{
    match number(j) {
        Some(n) => n,
        None => 0,
    }
}

fn opt_string(j: Option<&Json>) -> (r: Option<String>)
    ensures
        r matches Some(s) ==> value(j).str_of() == Some(s@),
        r is None ==> value(j).str_of() is None,
{
    match text(j) {
        Some(s) => Some(s.clone()),
        None => None,
    }
}

fn kind(n: &Json) -> (r: Option<Kind>)
    ensures
        r == kind_of(*n),
{
    let t = field(Some(n), "__typename");
    if str_is(t, "PullRequest") {
        Some(Kind::Pr)
    } else if str_is(t, "Issue") {
        Some(Kind::Issue)
    } else {
        None
    }
}

fn state(n: &Json) -> (r: State)
    ensures
        r == state_of(*n),
{
    let merged = match flag(field(Some(n), "merged")) {
        Some(b) => b,
        None => false,
    };
    let draft = match flag(field(Some(n), "isDraft")) {
        Some(b) => b,
        None => false,
    };
    let closed = str_is(field(Some(n), "state"), "CLOSED");
    if merged {
        State::Merged
    } else if closed {
        State::Closed
    } else if draft {
        State::Draft
    } else {
        State::Open
    }
}

fn ci(n: &Json) -> (r: Ci)
    ensures
        r == ci_of(*n),
{
    let s = field(
        field(field(element(field(field(Some(n), "commits"), "nodes"), 0), "commit"), "statusCheckRollup"),
        "state",
    );
    if str_is(s, "SUCCESS") {
        Ci::Success
    } else if str_is(s, "FAILURE") {
        Ci::Failure
    } else if str_is(s, "PENDING") {
        Ci::Pending
    } else if str_is(s, "ERROR") {
        Ci::Error
    } else {
        Ci::NoChecks
    }
}

fn review(n: &Json) -> (r: Option<Review>)
    ensures
        r == review_of(*n),
{
    let s = field(Some(n), "reviewDecision");
    if str_is(s, "APPROVED") {
        Some(Review::Approved)
    } else if str_is(s, "CHANGES_REQUESTED") {
        Some(Review::ChangesRequested)
    } else if str_is(s, "REVIEW_REQUIRED") {
        Some(Review::ReviewRequired)
    } else {
        None
    }
}

/// The latest action so far, as values.
pub type Last = Option<(Stamp, String, String)>;

/// The view of the latest action so far.
pub open spec fn last_view(l: Last) -> Latest {
    match l {
        Some(x) => Some((x.0, x.1@, x.2@)),
        None => None,
    }
}

fn consider_action(last: Last, ts: Option<&String>, who: Option<&String>, what: String) -> (r: Last)
    ensures
        last_view(r) == consider(
            last_view(last),
            match ts {
                Some(s) => Some(s@),
                None => None,
            },
            match who {
                Some(s) => Some(s@),
                None => None,
            },
            what@,
        ),
{
    match (ts, who) {
        (Some(ts), Some(w)) => match parse_instant(ts.as_str()) {
            Some(t) => {
                let later = match &last {
                    Some(l) => t.after(&l.0),
                    None => true,
                };
                if later {
                    Some((t, w.clone(), what))
                } else {
                    last
                }
            },
            None => last,
        },
        _ => last,
    }
}

fn latest_action(n: &Json) -> (r: Last)
    ensures
        last_view(r) == latest_of(*n),
{
    let mut last: Last = None;
    let reviews = field(field(Some(n), "reviews"), "nodes");
    match list(reviews) {
        Some(rs) => {
            let mut i: usize = 0;
            while i < rs.len()
                invariant
                    i <= rs@.len(),
                    last_view(last) == after_reviews(None, rs@.take(i as int)),
                decreases rs@.len() - i,
            {
                let r = &rs[i];
                assert(rs@.take(i + 1).drop_last() =~= rs@.take(i as int));
                assert(rs@.take(i + 1).last() == rs@[i as int]);
                let what = crate::thread::review_text(r);
                last = consider_action(
                    last,
                    text(field(Some(r), "submittedAt")),
                    text(field(field(Some(r), "author"), "login")),
                    what,
                );
                i = i + 1;
            }
            assert(rs@.take(rs@.len() as int) =~= rs@);
        },
        None => {},
    }
    let ghost mid = last_view(last);
    let comments = field(field(Some(n), "comments"), "nodes");
    match list(comments) {
        Some(cs) => {
            let mut i: usize = 0;
            while i < cs.len()
                invariant
                    i <= cs@.len(),
                    last_view(last) == after_comments(mid, cs@.take(i as int)),
                decreases cs@.len() - i,
            {
                let c = &cs[i];
                assert(cs@.take(i + 1).drop_last() =~= cs@.take(i as int));
                assert(cs@.take(i + 1).last() == cs@[i as int]);
                last = consider_action(
                    last,
                    text(field(Some(c), "createdAt")),
                    text(field(field(Some(c), "author"), "login")),
                    owned("commented"),
                );
                i = i + 1;
            }
            assert(cs@.take(cs@.len() as int) =~= cs@);
        },
        None => {},
    }
    last
}

fn name_of(v: Option<&Json>) -> (r: Option<String>)
    ensures
        r matches Some(s) ==> login_or_name(value(v)) == Some(s@),
        r is None ==> login_or_name(value(v)) is None,
{
    match text(field(v, "login")) {
        Some(s) => Some(s.clone()),
        None => opt_string(field(v, "name")),
    }
}

/// The logins or names under `path` (see `names_at`).
pub fn names(v: &Json, path: &str) -> (r: Vec<String>)
    ensures
        views(r@) == names_at(*v, path@),
{
    let mut out: Vec<String> = Vec::new();
    assert(views(out@) =~= Seq::<Seq<char>>::empty());
    match list(field(field(Some(v), path), "nodes")) {
        Some(ns) => {
            let mut i: usize = 0;
            while i < ns.len()
                invariant
                    i <= ns@.len(),
                    views(out@) == names_in(ns@.take(i as int)),
                decreases ns@.len() - i,
            {
                assert(ns@.take(i + 1).drop_last() =~= ns@.take(i as int));
                assert(ns@.take(i + 1).last() == ns@[i as int]);
                let ghost before = out@;
                match name_of(Some(&ns[i])) {
                    Some(s) => out.push(s),
                    None => {},
                }
                assert(views(out@) =~= names_in(ns@.take(i + 1)));
                i = i + 1;
            }
            assert(ns@.take(ns@.len() as int) =~= ns@);
        },
        None => {},
    }
    out
}

fn reviewers(n: &Json) -> (r: Vec<String>)
    ensures
        views(r@) == reviewers_in(n.at("reviewRequests"@).at("nodes"@).elements()),
{
    let mut out: Vec<String> = Vec::new();
    assert(views(out@) =~= Seq::<Seq<char>>::empty());
    match list(field(field(Some(n), "reviewRequests"), "nodes")) {
        Some(ns) => {
            let mut i: usize = 0;
            while i < ns.len()
                invariant
                    i <= ns@.len(),
                    views(out@) == reviewers_in(ns@.take(i as int)),
                decreases ns@.len() - i,
            {
                assert(ns@.take(i + 1).drop_last() =~= ns@.take(i as int));
                assert(ns@.take(i + 1).last() == ns@[i as int]);
                match name_of(field(Some(&ns[i]), "requestedReviewer")) {
                    Some(s) => out.push(s),
                    None => {},
                }
                assert(views(out@) =~= reviewers_in(ns@.take(i + 1)));
                i = i + 1;
            }
            assert(ns@.take(ns@.len() as int) =~= ns@);
        },
        None => {},
    }
    out
}

/// The item that a search node stands for (see `item_of`).
pub fn parse(n: &Json) -> (r: Option<Item>)
    ensures
        item_opt_view(r) == item_of(*n),
{
    let kind = match kind(n) {
        Some(k) => k,
        None => return None,
    };
    let url = match opt_string(field(Some(n), "url")) {
        Some(s) => s,
        None => return None,
    };
    let repo = match opt_string(field(field(Some(n), "repository"), "nameWithOwner")) {
        Some(s) => s,
        None => return None,
    };
    let number = match number(field(Some(n), "number")) {
        Some(k) => k,
        None => return None,
    };
    let updated_at = match text(field(Some(n), "updatedAt")) {
        Some(u) => match parse_instant(u.as_str()) {
            Some(t) => t,
            None => return None,
        },
        None => return None,
    };
    let title_chars = match text(field(Some(n), "title")) {
        Some(t) => chars_of(t.as_str()),
        None => Vec::new(),
    };
    proof {
        reveal_strlit("");
    }
    let title = string_of(&trim(&title_chars));
    let mergeable = field(Some(n), "mergeable");
    let last = latest_action(n);
    let (last_actor, last_action) = match last {
        Some((_, w, a)) => (Some(w), Some(a)),
        None => (None, None),
    };
    let it = Item {
        url,
        repo,
        number,
        title,
        kind,
        state: state(n),
        updated_at,
        author: login(n),
        conflicting: str_is(mergeable, "CONFLICTING"),
        mergeable_unknown: str_is(mergeable, "UNKNOWN"),
        review: review(n),
        ci: ci(n),
        comments: count(field(field(Some(n), "comments"), "totalCount")),
        reviews_left: count(field(field(Some(n), "reviews"), "totalCount")),
        waiting_on: reviewers(n),
        assignees: names(n, "assignees"),
        labels: names(n, "labels"),
        additions: count(field(Some(n), "additions")),
        deletions: count(field(Some(n), "deletions")),
        changed_files: count(field(Some(n), "changedFiles")),
        last_actor,
        last_action,
        review_requested_of_me: false,
        mentioned: false,
        state_reason: opt_string(field(Some(n), "stateReason")),
    };
    let ghost v = item_of(*n).unwrap();
    assert(item_of(*n) is Some);
    assert(it@.url == v.url);
    assert(it@.repo == v.repo);
    assert(it@.number == v.number);
    assert(it@.title == v.title);
    assert(it@.kind == v.kind);
    assert(it@.updated_at == v.updated_at);
    assert(it@.last_actor == v.last_actor);
    assert(it@.last_action == v.last_action);
    assert(it@.waiting_on == v.waiting_on);
    assert(it@.state_reason == v.state_reason);
    assert(it@ == item_of(*n).unwrap());
    Some(it)
}

/// A search node that was closed without being merged reads as closed,
/// whatever it says of being a draft: not open, led by a "closed" or "not
/// planned" chip; and a merged one reads as merged.
pub proof fn law_closed_wins_over_draft(n: Json)
    ensures
        n.at("merged"@).bool_of() != Some(true) && n.at("state"@).str_of() == Some("CLOSED"@)
            ==> (item_of(n) matches Some(v) ==> {
            &&& v.state == State::Closed
            &&& !crate::model::open_state(v.state)
            &&& (v.chips()[0].0 == "\u{2716} closed"@ || v.chips()[0].0 == "\u{2716} not planned"@)
            &&& v.chips()[0].1 == crate::model::Tone::Bad
        }),
        n.at("merged"@).bool_of() == Some(true) ==> (item_of(n) matches Some(v) ==> v.state
            == State::Merged),
{
}

} // verus!
