//! Someone's public activity feed: the pull requests and issues it touches,
//! each once, and the items fetched for them.
use vstd::prelude::*;

use crate::clock::Stamp;
use crate::github::{item_of, parse};
use crate::json::{field, list, number, text, value, Json};
use crate::model::{owned, Item, ItemView};
use crate::order::{date_key, lemma_sorted_stably_map, sort_by_date, sorted_stably};
use crate::search::{item_view_fn, item_views, view_updated, Fetched};
use crate::text::{
    chars_of, decimal, decimal_string, push_decimal, push_str, string_of_range, text_is,
};
use crate::thread::{time_at, time_of};

verus! {

/// The payload key under which an event of type `ty` names its pull request
/// or issue; other events name none.
pub open spec fn payload_key(ty: Option<Seq<char>>) -> Option<Seq<char>> {
    if ty == Some("PullRequestEvent"@) || ty == Some("PullRequestReviewEvent"@) || ty == Some(
        "PullRequestReviewCommentEvent"@,
    ) {
        Some("pull_request"@)
    } else if ty == Some("IssuesEvent"@) || ty == Some("IssueCommentEvent"@) {
        Some("issue"@)
    } else {
        None
    }
}

/// The repository and number of the pull request or issue an event is about.
pub open spec fn ref_of(e: Json) -> Option<(Seq<char>, u64)> {
    match payload_key(e.at("type"@).str_of()) {
        Some(k) => match (e.at("repo"@).at("name"@).str_of(), e.at("payload"@).at(k).at(
            "number"@,
        ).u64_of()) {
            (Some(r), Some(n)) => Some((r, n)),
            _ => None,
        },
        None => None,
    }
}

/// The pull requests and issues the events are about, each once, in the
/// order of the first event about each.
pub open spec fn refs_of(events: Seq<Json>) -> Seq<(Seq<char>, u64)>
    decreases events.len(),
{
    if events.len() == 0 {
        seq![]
    } else {
        let prev = refs_of(events.drop_last());
        match ref_of(events.last()) {
            Some(r) => if prev.contains(r) {
                prev
            } else {
                prev.push(r)
            },
            None => prev,
        }
    }
}

/// The earliest creation time among the events.
pub open spec fn oldest_of(events: Seq<Json>) -> Option<Stamp>
    decreases events.len(),
{
    if events.len() == 0 {
        None
    } else {
        let prev = oldest_of(events.drop_last());
        match time_at(events.last(), "created_at"@) {
            Some(t) => Some(
                match prev {
                    Some(o) => if o.is_after(t) {
                        t
                    } else {
                        o
                    },
                    None => t,
                },
            ),
            None => prev,
        }
    }
}

/// The views of a list of references.
pub open spec fn ref_views(s: Seq<(String, u64)>) -> Seq<(Seq<char>, u64)> {
    s.map_values(|r: (String, u64)| (r.0@, r.1))
}

fn contains_ref(refs: &Vec<(String, u64)>, repo: &String, n: u64) -> (r: bool)
    ensures
        r == ref_views(refs@).contains((repo@, n)),
{
    let mut i: usize = 0;
    while i < refs.len()
        invariant
            i <= refs@.len(),
            forall|j: int| 0 <= j < i ==> ref_views(refs@)[j] != (repo@, n),
        decreases refs@.len() - i,
    {
        if refs[i].1 == n && refs[i].0 == *repo {
            assert(ref_views(refs@)[i as int] == (repo@, n));
            return true;
        }
        i = i + 1;
    }
    false
}

fn event_ref(e: &Json) -> (r: Option<(String, u64)>)
    ensures
        match r {
            Some(x) => ref_of(*e) == Some((x.0@, x.1)),
            None => ref_of(*e) is None,
        },
{
    let ty = field(Some(e), "type");
    let key = match text(ty) {
        Some(t) => if text_is(t, "PullRequestEvent") || text_is(t, "PullRequestReviewEvent")
            || text_is(t, "PullRequestReviewCommentEvent") {
            "pull_request"
        } else if text_is(t, "IssuesEvent") || text_is(t, "IssueCommentEvent") {
            "issue"
        } else {
            return None;
        },
        None => return None,
    };
    let repo = text(field(field(Some(e), "repo"), "name"));
    let n = number(field(field(field(Some(e), "payload"), key), "number"));
    match (repo, n) {
        (Some(r), Some(k)) => Some((r.clone(), k)),
        _ => None,
    }
}

/// The pull requests and issues the events touch, each once in the order
/// first met, and the earliest event time (see `refs_of`, `oldest_of`).
pub fn feed_refs(events: &Vec<Json>) -> (r: (Vec<(String, u64)>, Option<Stamp>))
    ensures
        ref_views(r.0@) == refs_of(events@),
        r.1 == oldest_of(events@),
{
    let mut refs: Vec<(String, u64)> = Vec::new();
    let mut oldest: Option<Stamp> = None;
    let mut i: usize = 0;
    assert(ref_views(refs@) =~= Seq::<(Seq<char>, u64)>::empty());
    while i < events.len()
        invariant
            i <= events@.len(),
            ref_views(refs@) == refs_of(events@.take(i as int)),
            oldest == oldest_of(events@.take(i as int)),
        decreases events@.len() - i,
    {
        let e = &events[i];
        assert(events@.take(i + 1).drop_last() =~= events@.take(i as int));
        assert(events@.take(i + 1).last() == events@[i as int]);
        match time_of(e, "created_at") {
            Some(t) => {
                oldest = Some(
                    match oldest {
                        Some(o) => if o.after(&t) {
                            t
                        } else {
                            o
                        },
                        None => t,
                    },
                );
            },
            None => {},
        }
        match event_ref(e) {
            Some((repo, n)) => {
                if !contains_ref(&refs, &repo, n) {
                    let ghost before = refs@;
                    refs.push((repo, n));
                    assert(ref_views(refs@) =~= ref_views(before).push((repo@, n)));
                }
            },
            None => {},
        }
        i = i + 1;
    }
    assert(events@.take(i as int) =~= events@);
    (refs, oldest)
}

/// Each pull request or issue is listed once by `refs_of`.
pub proof fn law_feed_refs_once(events: Seq<Json>)
    ensures
        forall|i: int, j: int|
            0 <= i < j < refs_of(events).len() ==> #[trigger] refs_of(events)[i] != #[trigger] refs_of(
                events,
            )[j],
    decreases events.len(),
{
    if events.len() > 0 {
        law_feed_refs_once(events.drop_last());
        let prev = refs_of(events.drop_last());
        match ref_of(events.last()) {
            Some(r) => if !prev.contains(r) {
                let s = prev.push(r);
                assert forall|i: int, j: int| 0 <= i < j < s.len() implies #[trigger] s[i]
                    != #[trigger] s[j] by {
                    if j == s.len() - 1 {
                        assert(s[i] == prev[i]);
                        if s[i] == s[j] {
                            assert(prev.contains(r));
                        }
                    } else {
                        assert(s[i] == prev[i] && s[j] == prev[j]);
                    }
                }
            },
            None => {},
        }
    }
}

/// Every pull request or issue an event is about is listed by `refs_of`.
pub proof fn law_feed_refs_complete(events: Seq<Json>, k: int)
    requires
        0 <= k < events.len(),
        ref_of(events[k]) is Some,
    ensures
        refs_of(events).contains(ref_of(events[k]).unwrap()),
    decreases events.len(),
{
    let prev = refs_of(events.drop_last());
    if k < events.len() - 1 {
        assert(events.drop_last()[k] == events[k]);
        law_feed_refs_complete(events.drop_last(), k);
        let r = ref_of(events[k]).unwrap();
        let i = choose|i: int| 0 <= i < prev.len() && prev[i] == r;
        match ref_of(events.last()) {
            Some(x) => if !prev.contains(x) {
                assert(prev.push(x)[i] == r);
            },
            None => {},
        }
    } else {
        let r = ref_of(events[k]).unwrap();
        if !prev.contains(r) {
            assert(prev.push(r)[prev.len() as int] == r);
        }
    }
}

// ---------------------------------------------------------------------------
// The items fetched for a chunk of references
// ---------------------------------------------------------------------------

/// The alias under which the query for references asks about the `i`th one.
pub open spec fn ref_alias(i: nat) -> Seq<char> {
    "r"@ + decimal(i)
}

/// The items that an answer for `count` references holds, in the order of
/// the references; a reference GitHub could not answer gives none.
pub open spec fn chunk_items(data: Json, count: nat) -> Seq<ItemView>
    decreases count,
{
    if count == 0 {
        seq![]
    } else {
        chunk_items(data, (count - 1) as nat) + match item_of(
            data.at(ref_alias((count - 1) as nat)).at("issueOrPullRequest"@),
        ) {
            Some(it) => seq![it],
            None => seq![],
        }
    }
}

impl Fetched {
    /// Takes in the answer for a chunk of `count` references: the cost, the
    /// points left, and the items, the whole list put newest first.
    pub fn absorb_refs(&mut self, data: &Json, count: usize)
        requires
            old(self).cost + crate::search::page_cost(*data) <= u64::MAX,
        ensures
            final(self).cost == old(self).cost + crate::search::page_cost(*data),
            final(self).remaining == match data.at("rateLimit"@).at("remaining"@).u64_of() {
                Some(n) => n,
                None => old(self).remaining,
            },
            final(self).login == old(self).login,
            final(self).involved_total == old(self).involved_total,
            final(self).feed_since == old(self).feed_since,
            sorted_stably(
                item_views(old(self).items@) + chunk_items(*data, count as nat),
                item_views(final(self).items@),
                view_updated(),
                true,
            ),
    {
        let limits = field(Some(data), "rateLimit");
        let c = match number(field(limits, "cost")) {
            Some(n) => n,
            None => 0,
        };
        self.cost = self.cost + c;
        match number(field(limits, "remaining")) {
            Some(n) => {
                self.remaining = n;
            },
            None => {},
        }
        let mut items: Vec<Item> = Vec::new();
        std::mem::swap(&mut items, &mut self.items);
        let ghost start = item_views(items@);
        let mut i: usize = 0;
        while i < count
            invariant
                i <= count,
                item_views(items@) == start + chunk_items(*data, i as nat),
            decreases count - i,
        {
            let mut alias = owned("r");
            push_decimal(&mut alias, i as u64);
            proof {
                reveal_strlit("r");
            }
            assert(alias@ == ref_alias(i as nat));
            let node = field(field(Some(data), alias.as_str()), "issueOrPullRequest");
            let ghost before = item_views(items@);
            let found = match node {
                Some(n) => parse(n),
                None => {
                    assert(item_of(Json::Null) is None);
                    None
                },
            };
            assert(crate::github::item_opt_view(found) == item_of(value(node)));
            assert(value(node) == data.at(ref_alias(i as nat)).at("issueOrPullRequest"@));
            let ghost extra = match item_of(data.at(ref_alias(i as nat)).at("issueOrPullRequest"@)) {
                Some(it) => seq![it],
                None => Seq::<ItemView>::empty(),
            };
            assert(chunk_items(*data, (i + 1) as nat) == chunk_items(*data, i as nat) + extra);
            match found {
                Some(it) => {
                    items.push(it);
                    assert(item_views(items@) =~= before.push(it@));
                },
                None => {},
            }
            assert(item_views(items@) =~= start + chunk_items(*data, (i + 1) as nat));
            i = i + 1;
        }
        let sorted = sort_by_date(items, true);
        proof {
            lemma_sorted_stably_map(
                items@,
                sorted@,
                date_key::<Item>(),
                item_view_fn(),
                view_updated(),
                true,
            );
        }
        self.items = sorted;
    }

    /// Marks the gathering as one from a public activity feed reaching back
    /// to `since`: the total is what was found.
    pub fn finish_feed(&mut self, since: Option<Stamp>)
        ensures
            final(self).items == old(self).items,
            final(self).login == old(self).login,
            final(self).cost == old(self).cost,
            final(self).remaining == old(self).remaining,
            final(self).involved_total == old(self).items@.len(),
            final(self).feed_since == since,
    {
        self.involved_total = self.items.len() as u64;
        self.feed_since = since;
    }
}

// ---------------------------------------------------------------------------
// The query for a chunk of references
// ---------------------------------------------------------------------------

/// The fields that every search row and every reference asks for.
pub const ROW: &'static str = "
fragment Row on SearchResultItem{
  ... on Issue{ __typename number title url state stateReason updatedAt
    repository{nameWithOwner} author{login}
    assignees(first:5){nodes{login}} labels(first:8){nodes{name}}
    comments(last:1){totalCount nodes{author{login} createdAt}} }
  ... on PullRequest{ __typename number title url state isDraft updatedAt
    repository{nameWithOwner} author{login}
    merged mergeable additions deletions changedFiles reviewDecision
    assignees(first:5){nodes{login}} labels(first:8){nodes{name}}
    comments(last:1){totalCount nodes{author{login} createdAt}}
    reviews(last:10){totalCount nodes{state author{login} submittedAt}}
    reviewRequests(first:8){nodes{requestedReviewer{... on User{login} ... on Team{name}}}}
    commits(last:1){nodes{commit{statusCheckRollup{state}}}} }
}
";

/// Where `c` first stands in `s`.
pub open spec fn first_index_of(s: Seq<char>, c: char) -> Option<int>
    decreases s.len(),
{
    if s.len() == 0 {
        None
    } else {
        match first_index_of(s.drop_last(), c) {
            Some(k) => Some(k),
            None => if s.last() == c {
                Some(s.len() - 1)
            } else {
                None
            },
        }
    }
}

/// "owner/name" as owner and name, split at the first `/` (`split_once`).
pub open spec fn split_repo(repo: Seq<char>) -> Option<(Seq<char>, Seq<char>)> {
    match first_index_of(repo, '/') {
        Some(k) => Some((repo.take(k), repo.skip(k + 1))),
        None => None,
    }
}

proof fn lemma_first_index_whole(s: Seq<char>, c: char, n: int)
    requires
        0 <= n <= s.len(),
        first_index_of(s.take(n), c) is Some,
    ensures
        first_index_of(s, c) == first_index_of(s.take(n), c),
    decreases s.len() - n,
{
    if n < s.len() {
        assert(s.take(n + 1).drop_last() =~= s.take(n));
        lemma_first_index_whole(s, c, n + 1);
    } else {
        assert(s.take(n) =~= s);
    }
}

/// "owner/name" as owner and name (see `split_repo`).
pub fn split_repo_text(repo: &str) -> (r: Option<(String, String)>)
    ensures
        match r {
            Some((o, n)) => split_repo(repo@) == Some((o@, n@)),
            None => split_repo(repo@) is None,
        },
{
    let cs = chars_of(repo);
    let mut k: usize = 0;
    while k < cs.len()
        invariant
            k <= cs@.len(),
            cs@ == repo@,
            first_index_of(cs@.take(k as int), '/') is None,
        decreases cs@.len() - k,
    {
        assert(cs@.take(k + 1).drop_last() =~= cs@.take(k as int));
        if cs[k] == '/' {
            proof {
                lemma_first_index_whole(cs@, '/', k + 1);
            }
            let o = string_of_range(&cs, 0, k);
            let n = string_of_range(&cs, k + 1, cs.len());
            assert(o@ =~= repo@.take(k as int));
            assert(n@ =~= repo@.skip(k + 1));
            return Some((o, n));
        }
        k = k + 1;
    }
    assert(cs@.take(k as int) =~= repo@);
    None
}

/// A variable of a GraphQL query.
#[derive(Debug, Clone)]
pub enum Var {
    Text(String),
    Number(u64),
}

/// A variable as plain values.
pub enum VarView {
    Text(Seq<char>),
    Number(u64),
}

/// The view of a variable.
pub open spec fn var_view(v: Var) -> VarView {
    match v {
        Var::Text(s) => VarView::Text(s@),
        Var::Number(n) => VarView::Number(n),
    }
}

/// The views of a list of named variables.
pub open spec fn vars_view(v: Seq<(String, Var)>) -> Seq<(Seq<char>, VarView)> {
    v.map_values(|p: (String, Var)| (p.0@, var_view(p.1)))
}

/// The declaration of the variables of the `i`th reference.
pub open spec fn ref_decl(i: nat) -> Seq<char> {
    "$o"@ + decimal(i) + ":String!,$n"@ + decimal(i) + ":String!,$k"@ + decimal(i) + ":Int!"@
}

/// The field that asks about the `i`th reference, under its alias.
pub open spec fn ref_field(i: nat) -> Seq<char> {
    ref_alias(i) + ": repository(owner:$o"@ + decimal(i) + ",name:$n"@ + decimal(i)
        + "){issueOrPullRequest(number:$k"@ + decimal(i) + "){...Row}}\n"@
}

/// The variables of the `i`th reference, owner `o`, name `n`, number `k`.
pub open spec fn ref_vars(i: nat, o: Seq<char>, n: Seq<char>, k: u64) -> Seq<(Seq<char>, VarView)> {
    seq![
        ("o"@ + decimal(i), VarView::Text(o)),
        ("n"@ + decimal(i), VarView::Text(n)),
        ("k"@ + decimal(i), VarView::Number(k)),
    ]
}

/// The declarations, fields and variables for the references, each under
/// its position; a repository that is not "owner/name" is left out.
pub open spec fn refs_parts(refs: Seq<(Seq<char>, u64)>) -> (Seq<Seq<char>>, Seq<char>, Seq<
    (Seq<char>, VarView),
>)
    decreases refs.len(),
{
    if refs.len() == 0 {
        (seq![], seq![], seq![])
    } else {
        let (d, f, v) = refs_parts(refs.drop_last());
        let i = (refs.len() - 1) as nat;
        match split_repo(refs.last().0) {
            Some((o, n)) => (d.push(ref_decl(i)), f + ref_field(i), v + ref_vars(
                i,
                o,
                n,
                refs.last().1,
            )),
            None => (d, f, v),
        }
    }
}

/// The query text for the references: their declarations, their fields,
/// the rate limit, and the row fragment.
pub open spec fn refs_query_text(refs: Seq<(Seq<char>, u64)>) -> Seq<char> {
    "query("@ + crate::text::joined(refs_parts(refs).0, ","@) + "){\n"@ + refs_parts(refs).1
        + "rateLimit{cost remaining}\n}\n"@ + ROW@
}

/// The query that asks about a chunk of references, and its variables;
/// `None` where no reference names a repository as "owner/name", so there
/// is nothing to ask.
pub fn refs_query(refs: &Vec<(String, u64)>) -> (r: Option<(String, Vec<(String, Var)>)>)
    ensures
        refs_parts(ref_views(refs@)).0.len() == 0 <==> r is None,
        r matches Some((q, vars)) ==> q@ == refs_query_text(ref_views(refs@)) && vars_view(vars@)
            == refs_parts(ref_views(refs@)).2,
{
    let ghost all = ref_views(refs@);
    let mut decl: Vec<String> = Vec::new();
    let mut fields = String::new();
    let mut vars: Vec<(String, Var)> = Vec::new();
    let mut i: usize = 0;
    assert(all.take(0) =~= Seq::<(Seq<char>, u64)>::empty());
    while i < refs.len()
        invariant
            i <= refs@.len(),
            all == ref_views(refs@),
            crate::text::views(decl@) == refs_parts(all.take(i as int)).0,
            fields@ == refs_parts(all.take(i as int)).1,
            vars_view(vars@) == refs_parts(all.take(i as int)).2,
        decreases refs@.len() - i,
    {
        let ghost pre = all.take(i as int);
        assert(all.take(i + 1).drop_last() =~= pre);
        assert(all.take(i + 1).last() == (refs@[i as int].0@, refs@[i as int].1));
        let (repo, number) = (&refs[i].0, refs[i].1);
        match split_repo_text(repo.as_str()) {
            Some((o, n)) => {
                let idx = decimal_string(i as u64);
                let mut d = owned("$o");
                push_str(&mut d, idx.as_str());
                push_str(&mut d, ":String!,$n");
                push_str(&mut d, idx.as_str());
                push_str(&mut d, ":String!,$k");
                push_str(&mut d, idx.as_str());
                push_str(&mut d, ":Int!");
                let ghost dv = crate::text::views(decl@);
                decl.push(d);
                assert(crate::text::views(decl@) =~= dv.push(ref_decl(i as nat)));
                push_str(&mut fields, "r");
                push_str(&mut fields, idx.as_str());
                push_str(&mut fields, ": repository(owner:$o");
                push_str(&mut fields, idx.as_str());
                push_str(&mut fields, ",name:$n");
                push_str(&mut fields, idx.as_str());
                push_str(&mut fields, "){issueOrPullRequest(number:$k");
                push_str(&mut fields, idx.as_str());
                push_str(&mut fields, "){...Row}}\n");
                let ghost vv = vars_view(vars@);
                let mut ko = owned("o");
                push_str(&mut ko, idx.as_str());
                let mut kn = owned("n");
                push_str(&mut kn, idx.as_str());
                let mut kk = owned("k");
                push_str(&mut kk, idx.as_str());
                vars.push((ko, Var::Text(o)));
                vars.push((kn, Var::Text(n)));
                vars.push((kk, Var::Number(number)));
                assert(vars_view(vars@) =~= vv + ref_vars(i as nat, o@, n@, number));
            },
            None => {},
        }
        i = i + 1;
    }
    assert(all.take(i as int) =~= all);
    if decl.len() == 0 {
        return None;
    }
    let mut q = owned("query(");
    let joint = crate::text::join(&decl, ",");
    push_str(&mut q, joint.as_str());
    push_str(&mut q, "){\n");
    push_str(&mut q, fields.as_str());
    push_str(&mut q, "rateLimit{cost remaining}\n}\n");
    push_str(&mut q, ROW);
    Some((q, vars))
}

/// An event of a review comment on a pull request names that pull request:
/// the feed lists its repository and number.
pub proof fn law_review_comments_name_their_pull_request(events: Seq<Json>, k: int, repo: Seq<char>, number: u64)
    requires
        0 <= k < events.len(),
        events[k].at("type"@).str_of() == Some("PullRequestReviewCommentEvent"@),
        events[k].at("repo"@).at("name"@).str_of() == Some(repo),
        events[k].at("payload"@).at("pull_request"@).at("number"@).u64_of() == Some(number),
    ensures
        ref_of(events[k]) == Some((repo, number)),
        refs_of(events).contains((repo, number)),
{
    law_feed_refs_complete(events, k);
}

} // verus!
