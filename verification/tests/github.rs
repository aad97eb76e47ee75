use ghdeck::feed::feed_refs;
use ghdeck::github::parse;
use ghdeck::json::Json;
use ghdeck::{Ci, Kind, State, Tone};
use serde_json::Value;

fn to_json(v: &Value) -> Json {
    match v {
        Value::Null => Json::Null,
        Value::Bool(b) => Json::Bool(*b),
        Value::Number(n) => Json::Num(n.as_u64()),
        Value::String(s) => Json::Str(s.clone()),
        Value::Array(a) => Json::Array(a.iter().map(to_json).collect()),
        Value::Object(m) => Json::Object(m.iter().map(|(k, v)| (k.clone(), to_json(v))).collect()),
    }
}

fn node(extra: &str) -> Json {
    let v: Value = serde_json::from_str(extra).unwrap();
    to_json(&v)
}

#[test]
fn parses_a_conflicting_pr_with_failing_ci() {
    let it = parse(&node(
        r#"{
          "__typename":"PullRequest","number":134,"title":" implement CNO ",
          "url":"https://github.com/o/r/pull/134","state":"OPEN","isDraft":false,
          "updatedAt":"2026-05-19T04:32:08Z","repository":{"nameWithOwner":"o/r"},
          "author":{"login":"jitendravjh"},"merged":false,"mergeable":"CONFLICTING",
          "additions":222,"deletions":2,"changedFiles":4,"reviewDecision":null,
          "comments":{"totalCount":2,"nodes":[{"author":{"login":"bob"},"createdAt":"2026-05-18T00:00:00Z"}]},
          "reviews":{"totalCount":0,"nodes":[]},
          "reviewRequests":{"nodes":[]},
          "labels":{"nodes":[{"name":"enhancement"}]},
          "assignees":{"nodes":[]},
          "commits":{"nodes":[{"commit":{"statusCheckRollup":{"state":"FAILURE"}}}]}
        }"#,
    ))
    .expect("should parse");

    assert_eq!(it.kind, Kind::Pr);
    assert_eq!(it.state, State::Open);
    assert_eq!(it.title, "implement CNO");
    assert!(it.conflicting);
    assert_eq!(it.ci, Ci::Failure);
    assert_eq!(it.labels, vec!["enhancement"]);
    assert_eq!(it.last_actor.as_deref(), Some("bob"));
    assert_eq!(it.last_action.as_deref(), Some("commented"));
    assert!(it.needs_attention());
}

#[test]
fn newest_event_wins_between_reviews_and_comments() {
    let it = parse(&node(
        r#"{
          "__typename":"PullRequest","number":1,"title":"t",
          "url":"u","state":"OPEN","updatedAt":"2026-01-03T00:00:00Z",
          "repository":{"nameWithOwner":"o/r"},"author":{"login":"a"},
          "merged":false,"mergeable":"MERGEABLE","reviewDecision":"CHANGES_REQUESTED",
          "comments":{"totalCount":1,"nodes":[{"author":{"login":"early"},"createdAt":"2026-01-01T00:00:00Z"}]},
          "reviews":{"totalCount":1,"nodes":[{"state":"CHANGES_REQUESTED","author":{"login":"late"},"submittedAt":"2026-01-02T00:00:00Z"}]},
          "reviewRequests":{"nodes":[{"requestedReviewer":{"login":"carol"}},{"requestedReviewer":{"name":"team-x"}}]},
          "labels":{"nodes":[]},"assignees":{"nodes":[]},
          "commits":{"nodes":[]}
        }"#,
    ))
    .unwrap();

    assert_eq!(it.last_actor.as_deref(), Some("late"));
    assert_eq!(it.last_action.as_deref(), Some("requested changes"));
    assert_eq!(it.waiting_on, vec!["carol", "team-x"]);
    assert_eq!(it.ci, Ci::NoChecks);
}

#[test]
fn merged_beats_closed_and_draft() {
    let it = parse(&node(
        r#"{
          "__typename":"PullRequest","number":2,"title":"t","url":"u",
          "state":"CLOSED","isDraft":true,"merged":true,
          "updatedAt":"2026-01-01T00:00:00Z","repository":{"nameWithOwner":"o/r"},
          "author":{"login":"a"},"comments":{"totalCount":0,"nodes":[]},
          "reviews":{"totalCount":0,"nodes":[]},"reviewRequests":{"nodes":[]},
          "labels":{"nodes":[]},"assignees":{"nodes":[]},"commits":{"nodes":[]}
        }"#,
    ))
    .unwrap();
    assert_eq!(it.state, State::Merged);
    assert!(!it.is_open());
    assert!(!it.needs_attention());
}

#[test]
fn issue_keeps_state_reason_and_has_no_pr_fields() {
    let it = parse(&node(
        r#"{
          "__typename":"Issue","number":9,"title":"broken","url":"u",
          "state":"CLOSED","stateReason":"NOT_PLANNED",
          "updatedAt":"2026-02-01T00:00:00Z","repository":{"nameWithOwner":"o/r"},
          "author":{"login":"a"},"comments":{"totalCount":3,"nodes":[]},
          "labels":{"nodes":[]},"assignees":{"nodes":[{"login":"me"}]}
        }"#,
    ))
    .unwrap();
    assert_eq!(it.kind, Kind::Issue);
    assert_eq!(it.state_reason.as_deref(), Some("NOT_PLANNED"));
    assert_eq!(it.assignees, vec!["me"]);
    assert_eq!(it.ci, Ci::NoChecks);
    assert_eq!(it.additions, 0);
    assert!(it.chips().iter().any(|(t, _)| t.ends_with("not planned")));
}

#[test]
fn closed_items_drop_stale_review_and_ci_chips() {
    let it = parse(&node(
        r#"{
          "__typename":"PullRequest","number":3,"title":"t","url":"u",
          "state":"CLOSED","merged":false,"mergeable":"CONFLICTING",
          "reviewDecision":"REVIEW_REQUIRED",
          "updatedAt":"2026-01-01T00:00:00Z","repository":{"nameWithOwner":"o/r"},
          "author":{"login":"a"},"comments":{"totalCount":1,"nodes":[]},
          "reviews":{"totalCount":0,"nodes":[]},"reviewRequests":{"nodes":[]},
          "labels":{"nodes":[]},"assignees":{"nodes":[]},
          "commits":{"nodes":[{"commit":{"statusCheckRollup":{"state":"SUCCESS"}}}]}
        }"#,
    ))
    .unwrap();
    let chips: Vec<String> = it.chips().into_iter().map(|(t, _)| t).collect();
    assert_eq!(chips, vec!["\u{2716} closed".to_string()]);
}

#[test]
fn unknown_typename_is_skipped() {
    assert!(parse(&node(r#"{"__typename":"Repository"}"#)).is_none());
    assert!(parse(&node(r#"{}"#)).is_none());
}

#[test]
fn feed_keeps_each_pr_and_issue_once_newest_first() {
    let v: Value = serde_json::from_str(
        r#"[
          {"type":"PullRequestEvent","created_at":"2026-09-10T00:00:00Z","repo":{"name":"o/a"},"payload":{"pull_request":{"number":7}}},
          {"type":"PushEvent","created_at":"2026-09-09T00:00:00Z","repo":{"name":"o/a"},"payload":{}},
          {"type":"IssueCommentEvent","created_at":"2026-09-08T00:00:00Z","repo":{"name":"o/b"},"payload":{"issue":{"number":3}}},
          {"type":"PullRequestReviewEvent","created_at":"2026-09-07T00:00:00Z","repo":{"name":"o/a"},"payload":{"pull_request":{"number":7}}},
          {"type":"IssuesEvent","created_at":"2026-09-01T00:00:00Z","repo":{"name":"o/c"},"payload":{"issue":{"number":1}}}
        ]"#,
    )
    .unwrap();
    let events: Vec<Json> = match &v {
        Value::Array(a) => a.iter().map(to_json).collect(),
        _ => panic!("not an array"),
    };
    let (refs, since) = feed_refs(&events);
    assert_eq!(refs, vec![("o/a".to_string(), 7), ("o/b".to_string(), 3), ("o/c".to_string(), 1)]);
    let since = since.unwrap();
    let t = chrono::DateTime::from_timestamp(since.secs, since.nanos).unwrap();
    assert_eq!(t.to_rfc3339(), "2026-09-01T00:00:00+00:00");
}

#[test]
fn an_open_pr_shows_each_status_in_order() {
    let it = parse(&node(
        r#"{
          "__typename":"PullRequest","number":5,"title":"t","url":"u5",
          "state":"OPEN","isDraft":false,"merged":false,"mergeable":"CONFLICTING",
          "reviewDecision":"APPROVED",
          "updatedAt":"2026-01-01T00:00:00Z","repository":{"nameWithOwner":"o/r"},
          "author":{"login":"a"},"comments":{"totalCount":0,"nodes":[]},
          "reviews":{"totalCount":2,"nodes":[]},
          "reviewRequests":{"nodes":[{"requestedReviewer":{"login":"dan"}}]},
          "labels":{"nodes":[]},"assignees":{"nodes":[]},
          "commits":{"nodes":[{"commit":{"statusCheckRollup":{"state":"PENDING"}}}]}
        }"#,
    ))
    .unwrap();
    let chips: Vec<(String, Tone)> = it.chips();
    let texts: Vec<&str> = chips.iter().map(|(t, _)| t.as_str()).collect();
    assert_eq!(texts, vec!["open", "approved", "conflict", "ci running", "waiting on dan"]);
    assert_eq!(chips[0].1, Tone::Good);
    assert_eq!(chips[2].1, Tone::Bad);
    assert!(it.needs_attention());
    assert_eq!(it.slug(), "o/r#5");
}

#[test]
fn a_draft_is_open_and_muted() {
    let it = parse(&node(
        r#"{
          "__typename":"PullRequest","number":6,"title":"wip","url":"u6",
          "state":"OPEN","isDraft":true,"merged":false,"mergeable":"MERGEABLE",
          "updatedAt":"2026-01-01T00:00:00Z","repository":{"nameWithOwner":"o/r"},
          "author":{"login":"a"},"comments":{"totalCount":0,"nodes":[]},
          "reviews":{"totalCount":0,"nodes":[]},"reviewRequests":{"nodes":[]},
          "labels":{"nodes":[]},"assignees":{"nodes":[]},"commits":{"nodes":[]}
        }"#,
    ))
    .unwrap();
    assert_eq!(it.state, State::Draft);
    assert!(it.is_open());
    assert!(!it.needs_attention());
    assert_eq!(it.chips(), vec![("draft".to_string(), Tone::Muted)]);
}
