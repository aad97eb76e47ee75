//! The conversation on one pull request or issue: who said what, and when.
use vstd::prelude::*;

use crate::clock::{instant_of, parse_instant, Stamp};
use crate::json::{field, list, number, text, value, Json};
use crate::markup::{clean_chars, cleaned, gist_of, gist_text};
use crate::model::owned;
use crate::order::{date_key, lemma_sorted_stably_map, sort_by_date, sorted_stably, Dated};
use crate::text::{chars_of, decimal, ends_with, has_suffix, push_decimal, push_str, string_of, text_is};

verus! {

/// The query for the conversation on one pull request or issue.
pub const QUERY: &'static str = "
query($owner:String!,$name:String!,$number:Int!){
  repository(owner:$owner,name:$name){
    issueOrPullRequest(number:$number){
      ... on Issue{ body author{login __typename} createdAt
        comments(last:30){nodes{author{login __typename} createdAt body}} }
      ... on PullRequest{ body author{login __typename} createdAt
        comments(last:30){nodes{author{login __typename} createdAt body}}
        reviews(last:20){nodes{author{login __typename} submittedAt state body
          comments(first:20){nodes{path line body}}}} }
    }
  }
  rateLimit{cost remaining}
}
";

/// One message or action in a conversation.
#[derive(Debug, Clone)]
pub struct Event {
    pub at: Stamp,
    pub who: String,
    pub label: String,
    pub body: String,
    pub bot: bool,
}

/// An event with its text as character sequences.
pub struct EventView {
    pub at: Stamp,
    pub who: Seq<char>,
    pub label: Seq<char>,
    pub body: Seq<char>,
    pub bot: bool,
}

impl View for Event {
    type V = EventView;

    open spec fn view(&self) -> EventView {
        EventView { at: self.at, who: self.who@, label: self.label@, body: self.body@, bot: self.bot }
    }
}

impl Dated for Event {
    open spec fn date_of(&self) -> Stamp {
        self.at
    }

    fn date(&self) -> (r: Stamp) {
        self.at
    }
}

impl Event {
    /// The one-line summary of the message (see `gist_text`), as shown for bots.
    pub fn gist(&self) -> (r: String)
        ensures
            r@ == gist_text(self.body@),
    {
        let cs = chars_of(self.body.as_str());
        let g = gist_of(&cs);
        string_of(&g)
    }
}

/// The view of an event, as a function.
pub open spec fn event_view_fn() -> spec_fn(Event) -> EventView {
    |e: Event| e@
}

/// The views of a list of events.
pub open spec fn event_views(s: Seq<Event>) -> Seq<EventView> {
    s.map_values(event_view_fn())
}

/// The instant of an event view, as a function.
pub open spec fn view_at() -> spec_fn(EventView) -> Stamp {
    |e: EventView| e.at
}

// ---------------------------------------------------------------------------
// Reading one node
// ---------------------------------------------------------------------------

/// The string at `key`, or `dflt` where there is none.
pub open spec fn str_or(v: Json, key: Seq<char>, dflt: Seq<char>) -> Seq<char> {
    match v.at(key).str_of() {
        Some(s) => s,
        None => dflt,
    }
}

/// The author's login, "ghost" for a deleted account.
pub open spec fn login_of(v: Json) -> Seq<char> {
    str_or(v.at("author"@), "login"@, "ghost"@)
}

/// Logins of accounts that post machine reports without being marked as bots.
pub open spec fn known_bot(name: Seq<char>) -> bool {
    ||| name == "codecov"@
    ||| name == "codecov-commenter"@
    ||| name == "CLAassistant"@
    ||| name == "github-actions"@
    ||| name == "kubernetes-prow"@
    ||| name == "k8s-ci-robot"@
    ||| name == "dependabot"@
    ||| name == "sonarcloud"@
    ||| name == "netlify"@
    ||| name == "vercel"@
    ||| name == "coderabbitai"@
    ||| name == "changeset-bot"@
}

/// Whether the author is a bot: GitHub says so, the login ends in "[bot]",
/// or it is one of the known report accounts.
pub open spec fn is_bot_node(v: Json) -> bool {
    let name = str_or(v.at("author"@), "login"@, ""@);
    ||| v.at("author"@).at("__typename"@).str_of() == Some("Bot"@)
    ||| ends_with(name, "[bot]"@)
    ||| known_bot(name)
}

/// The instant at `key`, where it holds a timestamp.
pub open spec fn time_at(v: Json, key: Seq<char>) -> Option<Stamp> {
    match v.at(key).str_of() {
        Some(s) => instant_of(s),
        None => None,
    }
}

/// The body, cleaned; empty where there is none.
pub open spec fn body_of(v: Json) -> Seq<char> {
    cleaned(str_or(v, "body"@, ""@))
}

/// The author's login, "ghost" where there is none.
pub fn login(v: &Json) -> (r: String)
    ensures
        r@ == login_of(*v),
{
    match text(field(field(Some(v), "author"), "login")) {
        Some(s) => s.clone(),
        None => owned("ghost"),
    }
}

fn known_bot_name(name: &String) -> (r: bool)
    ensures
        r == known_bot(name@),
{
    text_is(name, "codecov") || text_is(name, "codecov-commenter") || text_is(name, "CLAassistant")
        || text_is(name, "github-actions") || text_is(name, "kubernetes-prow") || text_is(
        name,
        "k8s-ci-robot",
    ) || text_is(name, "dependabot") || text_is(name, "sonarcloud") || text_is(name, "netlify")
        || text_is(name, "vercel") || text_is(name, "coderabbitai") || text_is(name, "changeset-bot")
}

/// Whether the author of `v` is a bot (see `is_bot_node`).
pub fn is_bot(v: &Json) -> (r: bool)
    ensures
        r == is_bot_node(*v),
{
    let author = field(Some(v), "author");
    let typed_bot = match text(field(author, "__typename")) {
        Some(t) => text_is(t, "Bot"),
        None => false,
    };
    if typed_bot {
        return true;
    }
    let name = match text(field(author, "login")) {
        Some(s) => s.clone(),
        None => owned(""),
    };
    let cs = chars_of(name.as_str());
    has_suffix(&cs, "[bot]") || known_bot_name(&name)
}

/// The instant at `key` (see `time_at`).
pub fn time_of(v: &Json, key: &str) -> (r: Option<Stamp>)
    ensures
        r == time_at(*v, key@),
{
    match text(field(Some(v), key)) {
        Some(s) => parse_instant(s.as_str()),
        None => None,
    }
}

/// The cleaned body (see `body_of`).
pub fn body(v: &Json) -> (r: String)
    ensures
        r@ == body_of(*v),
{
    let raw = match text(field(Some(v), "body")) {
        Some(s) => chars_of(s.as_str()),
        None => Vec::new(),
    };
    proof {
        reveal_strlit("");
    }
    let c = clean_chars(&raw);
    string_of(&c)
}

// ---------------------------------------------------------------------------
// The events of a conversation
// ---------------------------------------------------------------------------

/// The event that opened the conversation, where it has a creation time.
pub open spec fn opened_events(node: Json) -> Seq<EventView> {
    match time_at(node, "createdAt"@) {
        Some(t) => seq![
            EventView {
                at: t,
                who: login_of(node),
                label: "opened"@,
                body: body_of(node),
                bot: is_bot_node(node),
            },
        ],
        None => seq![],
    }
}

/// A comment, where it has a creation time.
pub open spec fn comment_event(c: Json) -> Seq<EventView> {
    match time_at(c, "createdAt"@) {
        Some(t) => seq![
            EventView {
                at: t,
                who: login_of(c),
                label: "commented"@,
                body: body_of(c),
                bot: is_bot_node(c),
            },
        ],
        None => seq![],
    }
}

/// The comments, in order.
pub open spec fn comment_events(cs: Seq<Json>) -> Seq<EventView>
    decreases cs.len(),
{
    if cs.len() == 0 {
        seq![]
    } else {
        comment_events(cs.drop_last()) + comment_event(cs.last())
    }
}

/// What a review did, from its state.
pub open spec fn review_label(r: Json) -> Seq<char> {
    let s = r.at("state"@).str_of();
    if s == Some("APPROVED"@) {
        "approved"@
    } else if s == Some("CHANGES_REQUESTED"@) {
        "requested changes"@
    } else if s == Some("DISMISSED"@) {
        "review dismissed"@
    } else {
        "reviewed"@
    }
}

/// Where a review comment sits: "on path:line", "on path", or "on a line".
pub open spec fn line_label(c: Json) -> Seq<char> {
    match (c.at("path"@).str_of(), c.at("line"@).u64_of()) {
        (Some(p), Some(l)) => "on "@ + p + ":"@ + decimal(l as nat),
        (Some(p), None) => "on "@ + p,
        _ => "on a line"@,
    }
}

/// The comments of a review, each dated and signed as the review.
pub open spec fn line_events(cs: Seq<Json>, t: Stamp, who: Seq<char>, bot: bool) -> Seq<EventView>
    decreases cs.len(),
{
    if cs.len() == 0 {
        seq![]
    } else {
        line_events(cs.drop_last(), t, who, bot) + seq![
            EventView { at: t, who: who, label: line_label(cs.last()), body: body_of(cs.last()), bot: bot },
        ]
    }
}

/// Whether a review shows as an event of its own: it says something, or it
/// has no comments on lines.
pub open spec fn review_shown(r: Json) -> bool {
    body_of(r).len() > 0 || match r.at("comments"@).at("nodes"@).array_of() {
        Some(a) => a.len() == 0,
        None => true,
    }
}

/// A review, where it has a submission time: the review itself if it shows,
/// then its comments on lines.
pub open spec fn review_event(r: Json) -> Seq<EventView> {
    match time_at(r, "submittedAt"@) {
        Some(t) => (if review_shown(r) {
            seq![
                EventView {
                    at: t,
                    who: login_of(r),
                    label: review_label(r),
                    body: body_of(r),
                    bot: is_bot_node(r),
                },
            ]
        } else {
            seq![]
        }) + line_events(r.at("comments"@).at("nodes"@).elements(), t, login_of(r), is_bot_node(r)),
        None => seq![],
    }
}

/// The reviews, in order.
pub open spec fn review_events(rs: Seq<Json>) -> Seq<EventView>
    decreases rs.len(),
{
    if rs.len() == 0 {
        seq![]
    } else {
        review_events(rs.drop_last()) + review_event(rs.last())
    }
}

/// The issue or pull request in a thread answer.
pub open spec fn thread_node(data: Json) -> Json {
    data.at("repository"@).at("issueOrPullRequest"@)
}

/// Every event of the answer before ordering: the opening, the comments, the reviews.
pub open spec fn raw_events(data: Json) -> Seq<EventView> {
    let node = thread_node(data);
    opened_events(node) + comment_events(node.at("comments"@).at("nodes"@).elements()) + review_events(
        node.at("reviews"@).at("nodes"@).elements(),
    )
}

/// Whether an event is shown: an empty comment is not.
pub open spec fn shown(e: EventView) -> bool {
    e.body.len() > 0 || e.label != "commented"@
}

/// The events that are shown, in order.
pub open spec fn shown_events(s: Seq<EventView>) -> Seq<EventView>
    decreases s.len(),
{
    if s.len() == 0 {
        seq![]
    } else if shown(s.last()) {
        shown_events(s.drop_last()).push(s.last())
    } else {
        shown_events(s.drop_last())
    }
}

/// The conversation that a thread answer holds, before ordering by time.
pub open spec fn conversation(data: Json) -> Seq<EventView> {
    shown_events(raw_events(data))
}

// ---------------------------------------------------------------------------
// Building it
// ---------------------------------------------------------------------------

/// Whether a string holds no characters.
pub fn is_empty_text(s: &String) -> (r: bool)
    ensures
        r == (s@.len() == 0),
{
    chars_of(s.as_str()).len() == 0
}

fn push_event(out: &mut Vec<Event>, e: Event)
    ensures
        event_views(final(out)@) == event_views(old(out)@).push(e@),
{
    let ghost before = out@;
    out.push(e);
    assert(event_views(out@) =~= event_views(before).push(e@));
}

pub fn review_text(r: &Json) -> (l: String)
    ensures
        l@ == review_label(*r),
{
    match text(field(Some(r), "state")) {
        Some(s) => if text_is(s, "APPROVED") {
            owned("approved")
        } else if text_is(s, "CHANGES_REQUESTED") {
            owned("requested changes")
        } else if text_is(s, "DISMISSED") {
            owned("review dismissed")
        } else {
            owned("reviewed")
        },
        None => owned("reviewed"),
    }
}

fn line_text(c: &Json) -> (l: String)
    ensures
        l@ == line_label(*c),
{
    let path = text(field(Some(c), "path"));
    let line = number(field(Some(c), "line"));
    match path {
        Some(p) => {
            let mut s = owned("on ");
            push_str(&mut s, p.as_str());
            match line {
                Some(l) => {
                    push_str(&mut s, ":");
                    push_decimal(&mut s, l);
                },
                None => {},
            }
            s
        },
        None => owned("on a line"),
    }
}

fn push_comments(out: &mut Vec<Event>, cs: &Vec<Json>)
    ensures
        event_views(final(out)@) == event_views(old(out)@) + comment_events(cs@),
{
    let ghost start = event_views(out@);
    let mut i: usize = 0;
    while i < cs.len()
        invariant
            i <= cs@.len(),
            event_views(out@) == start + comment_events(cs@.take(i as int)),
        decreases cs@.len() - i,
    {
        let c = &cs[i];
        let ghost before = event_views(out@);
        assert(cs@.take(i + 1).drop_last() =~= cs@.take(i as int));
        assert(cs@.take(i + 1).last() == cs@[i as int]);
        match time_of(c, "createdAt") {
            Some(t) => {
                let e = Event {
                    at: t,
                    who: login(c),
                    label: owned("commented"),
                    body: body(c),
                    bot: is_bot(c),
                };
                push_event(out, e);
            },
            None => {},
        }
        assert(event_views(out@) =~= start + comment_events(cs@.take(i + 1)));
        i = i + 1;
    }
    assert(cs@.take(cs@.len() as int) =~= cs@);
}

fn push_line_comments(out: &mut Vec<Event>, cs: &Vec<Json>, t: Stamp, who: &String, bot: bool)
    ensures
        event_views(final(out)@) == event_views(old(out)@) + line_events(cs@, t, who@, bot),
{
    let ghost start = event_views(out@);
    let mut i: usize = 0;
    while i < cs.len()
        invariant
            i <= cs@.len(),
            event_views(out@) == start + line_events(cs@.take(i as int), t, who@, bot),
        decreases cs@.len() - i,
    {
        let c = &cs[i];
        assert(cs@.take(i + 1).drop_last() =~= cs@.take(i as int));
        assert(cs@.take(i + 1).last() == cs@[i as int]);
        let e = Event { at: t, who: who.clone(), label: line_text(c), body: body(c), bot: bot };
        push_event(out, e);
        assert(event_views(out@) =~= start + line_events(cs@.take(i + 1), t, who@, bot));
        i = i + 1;
    }
    assert(cs@.take(cs@.len() as int) =~= cs@);
}

fn push_review(out: &mut Vec<Event>, r: &Json)
    ensures
        event_views(final(out)@) == event_views(old(out)@) + review_event(*r),
{
    let ghost start = event_views(out@);
    let when = match time_of(r, "submittedAt") {
        Some(t) => t,
        None => {
            assert(event_views(out@) =~= start + review_event(*r));
            return ;
        },
    };
    let who = login(r);
    let label = review_text(r);
    let bot = is_bot(r);
    let b = body(r);
    let notes = field(field(Some(r), "comments"), "nodes");
    let listed = list(notes);
    let no_notes = match listed {
        Some(a) => a.len() == 0,
        None => true,
    };
    let shows = !is_empty_text(&b) || no_notes;
    if shows {
        push_event(out, Event { at: when, who: who.clone(), label: label, body: b, bot: bot });
    }
    let ghost mid = event_views(out@);
    match listed {
        Some(a) => push_line_comments(out, a, when, &who, bot),
        None => {},
    }
    assert(value(notes).elements() == match listed {
        Some(a) => a@,
        None => Seq::<Json>::empty(),
    });
    assert(event_views(out@) =~= start + review_event(*r));
}

fn push_opened(out: &mut Vec<Event>, node: &Json)
    ensures
        event_views(final(out)@) == event_views(old(out)@) + opened_events(*node),
{
    let ghost start = event_views(out@);
    match time_of(node, "createdAt") {
        Some(t) => {
            let e = Event {
                at: t,
                who: login(node),
                label: owned("opened"),
                body: body(node),
                bot: is_bot(node),
            };
            push_event(out, e);
        },
        None => {},
    }
    assert(event_views(out@) =~= start + opened_events(*node));
}

fn push_reviews(out: &mut Vec<Event>, rs: &Vec<Json>)
    ensures
        event_views(final(out)@) == event_views(old(out)@) + review_events(rs@),
{
    let ghost start = event_views(out@);
    let mut i: usize = 0;
    while i < rs.len()
        invariant
            i <= rs@.len(),
            event_views(out@) == start + review_events(rs@.take(i as int)),
        decreases rs@.len() - i,
    {
        assert(rs@.take(i + 1).drop_last() =~= rs@.take(i as int));
        assert(rs@.take(i + 1).last() == rs@[i as int]);
        push_review(out, &rs[i]);
        assert(event_views(out@) =~= start + review_events(rs@.take(i + 1)));
        i = i + 1;
    }
    assert(rs@.take(rs@.len() as int) =~= rs@);
}

/// The events that are shown (see `shown`), in their order.
fn keep_shown(raw: Vec<Event>) -> (out: Vec<Event>)
    ensures
        event_views(out@) == shown_events(event_views(raw@)),
{
    let ghost src = raw@;
    let mut out: Vec<Event> = Vec::new();
    let ghost mut n: int = 0;
    for e in it: raw.into_iter()
        invariant
            it.seq() == src,
            n == it.index(),
            n <= src.len(),
            event_views(out@) == shown_events(event_views(src.take(n))),
    {
        let ghost before = event_views(out@);
        proof {
            let prefix = event_views(src.take(n + 1));
            assert(prefix.drop_last() =~= event_views(src.take(n)));
            assert(prefix.last() == e@);
        }
        let keep = !is_empty_text(&e.body) || !text_is(&e.label, "commented");
        if keep {
            push_event(&mut out, e);
        }
        proof {
            n = n + 1;
        }
    }
    assert(src.take(n) =~= src);
    out
}

/// The conversation in a thread answer (`data` of the thread query), oldest
/// first, ties in the order GitHub gave them.
pub fn parse(data: &Json) -> (out: Vec<Event>)
    ensures
        sorted_stably(conversation(*data), event_views(out@), view_at(), false),
{
    let node = field(field(Some(data), "repository"), "issueOrPullRequest");
    let mut raw: Vec<Event> = Vec::new();
    assert(event_views(raw@) =~= Seq::<EventView>::empty());
    match node {
        Some(n) => {
            push_opened(&mut raw, n);
            match list(field(field(node, "comments"), "nodes")) {
                Some(cs) => push_comments(&mut raw, cs),
                None => {},
            }
            match list(field(field(node, "reviews"), "nodes")) {
                Some(rs) => push_reviews(&mut raw, rs),
                None => {},
            }
        },
        None => {},
    }
    assert(event_views(raw@) =~= raw_events(*data));
    let kept = keep_shown(raw);
    let sorted = sort_by_date(kept, false);
    proof {
        lemma_sorted_stably_map(
            kept@,
            sorted@,
            date_key::<Event>(),
            event_view_fn(),
            view_at(),
            false,
        );
    }
    sorted
}

/// Whatever an account that GitHub types as a bot wrote is flagged as a
/// bot's: the opening, a comment, a review and its line comments.
pub proof fn law_typed_bots_are_flagged(v: Json)
    requires
        v.at("author"@).at("__typename"@).str_of() == Some("Bot"@),
    ensures
        forall|k: int| 0 <= k < opened_events(v).len() ==> (#[trigger] opened_events(v)[k]).bot,
        forall|k: int| 0 <= k < comment_event(v).len() ==> (#[trigger] comment_event(v)[k]).bot,
        forall|k: int| 0 <= k < review_event(v).len() ==> (#[trigger] review_event(v)[k]).bot,
{
    assert(is_bot_node(v));
    match time_at(v, "submittedAt"@) {
        Some(t) => {
            lemma_line_events_bot(v.at("comments"@).at("nodes"@).elements(), t, login_of(v), is_bot_node(v));
            let head: Seq<EventView> = if review_shown(v) {
                seq![
                    EventView {
                        at: t,
                        who: login_of(v),
                        label: review_label(v),
                        body: body_of(v),
                        bot: is_bot_node(v),
                    },
                ]
            } else {
                seq![]
            };
            let tail = line_events(v.at("comments"@).at("nodes"@).elements(), t, login_of(v), is_bot_node(v));
            assert(review_event(v) == head + tail);
            assert forall|k: int| 0 <= k < review_event(v).len() implies (#[trigger] review_event(v)[k]).bot by {
                if k < head.len() {
                    assert(review_event(v)[k] == head[k]);
                } else {
                    assert(review_event(v)[k] == tail[k - head.len()]);
                }
            }
        },
        None => {},
    }
}

proof fn lemma_line_events_bot(cs: Seq<Json>, t: Stamp, who: Seq<char>, bot: bool)
    ensures
        forall|k: int| 0 <= k < line_events(cs, t, who, bot).len() ==> (#[trigger] line_events(
            cs,
            t,
            who,
            bot,
        )[k]).bot == bot,
    decreases cs.len(),
{
    if cs.len() > 0 {
        lemma_line_events_bot(cs.drop_last(), t, who, bot);
        let prev = line_events(cs.drop_last(), t, who, bot);
        let all = line_events(cs, t, who, bot);
        assert forall|k: int| 0 <= k < all.len() implies (#[trigger] all[k]).bot == bot by {
            if k < prev.len() {
                assert(all[k] == prev[k]);
            }
        }
    }
}

} // verus!
