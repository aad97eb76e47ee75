use ghdeck::client::{
    after_search_status, after_searches, after_user_status, backoff_ms, events_url, feed_batch, graphql_data,
    graphql_partial_data, involves, mentions, parse_u64, poll_of, retryable, search_url, user_url, Failure, Lookup,
    Refusal,
};
use ghdeck::deck::{Cmd, Evt};
use ghdeck::feed::{refs_query, split_repo_text, Var};
use ghdeck::json::Json;
use ghdeck::search::{next_cursor, Fetched, Mark, Paging};
use ghdeck::sync::{after_poll, SyncStats};
use ghdeck::work::{after_sync, live, load_thread, synced, AfterSync, Backlog};
use serde_json::Value;

fn to_json(v: &Value) -> Json {
    match v {
        Value::Null => Json::Null,
        Value::Bool(b) => Json::Bool(*b),
        Value::Number(n) => Json::Num(n.as_u64()),
        Value::String(s) => Json::Str(s.clone()),
        Value::Array(a) => Json::Array(a.iter().map(to_json).collect()),
        Value::Object(m) => Json::Object(m.iter().map(|(k, v)| (k.clone(), to_json(v))).collect()),
    }
}

fn doc(text: &str) -> Json {
    let v: Value = serde_json::from_str(text).unwrap();
    to_json(&v)
}

fn row(number: u64, updated: &str) -> String {
    format!(
        r#"{{"__typename":"Issue","number":{number},"title":"t{number}","url":"u{number}","state":"OPEN",
          "updatedAt":"{updated}","repository":{{"nameWithOwner":"o/r"}},"author":{{"login":"a"}},
          "comments":{{"totalCount":0,"nodes":[]}},"labels":{{"nodes":[]}},"assignees":{{"nodes":[]}}}}"#
    )
}

#[test]
fn retries_wait_longer_each_time() {
    assert_eq!(backoff_ms(0), 400);
    assert_eq!(backoff_ms(1), 800);
    assert_eq!(backoff_ms(2), 1600);
    assert!(retryable(Failure::Status(502)));
    assert!(retryable(Failure::Status(429)));
    assert!(!retryable(Failure::Status(404)));
    assert!(retryable(Failure::Timeout));
    assert!(retryable(Failure::ConnectionFailed));
    assert!(!retryable(Failure::Other));
}

#[test]
fn numbers_parse_as_rust_reads_them() {
    assert_eq!(parse_u64("42"), Some(42));
    assert_eq!(parse_u64("+7"), Some(7));
    assert_eq!(parse_u64("18446744073709551615"), Some(u64::MAX));
    assert_eq!(parse_u64("18446744073709551616"), None);
    assert_eq!(parse_u64(""), None);
    assert_eq!(parse_u64("+"), None);
    assert_eq!(parse_u64("-1"), None);
    assert_eq!(parse_u64(" 1"), None);
}

#[test]
fn a_poll_reads_status_and_headers() {
    let p = poll_of(304, None, Some("Mon".into()), Some("60".into()));
    assert!(!p.changed);
    assert_eq!(p.last_modified.as_deref(), Some("Mon"));
    assert_eq!(p.interval, Some(60));
    let p = poll_of(200, Some("Tue".into()), Some("Mon".into()), Some("soon".into()));
    assert!(p.changed);
    assert_eq!(p.last_modified.as_deref(), Some("Tue"));
    assert_eq!(p.interval, None);
}

#[test]
fn a_look_up_falls_back_step_by_step() {
    assert_eq!(after_searches(true), Lookup::Done);
    assert_eq!(after_searches(false), Lookup::CheckSearch);
    assert_eq!(after_search_status(422), Lookup::CheckUser);
    assert_eq!(after_search_status(200), Lookup::Done);
    assert_eq!(after_user_status(404), Lookup::NoSuchUser);
    assert_eq!(after_user_status(200), Lookup::ReadFeed);
    assert_eq!(search_url("octo"), "https://api.github.com/search/issues?q=author:octo&per_page=1");
    assert_eq!(user_url("octo"), "https://api.github.com/users/octo");
    assert_eq!(events_url("octo", 2), "https://api.github.com/users/octo/events/public?per_page=100&page=2");
    assert_eq!(involves("octo"), "involves:octo sort:updated-desc");
    assert_eq!(mentions("octo"), "mentions:octo sort:updated-desc");
}

#[test]
fn a_feed_page_counts_only_when_full() {
    assert_eq!(feed_batch(200, doc("[1,2]")).map(|v| v.len()), Some(2));
    assert!(feed_batch(200, doc("[]")).is_none());
    assert!(feed_batch(404, doc("[1]")).is_none());
    assert!(feed_batch(200, doc("{}")).is_none());
}

#[test]
fn graphql_answers_give_data_or_a_refusal() {
    let ok = doc(r#"{"data":{"x":1}}"#);
    assert!(matches!(graphql_data(&ok), Ok(Json::Object(_))));
    let bad = doc(r#"{"data":{"x":1},"errors":[{"message":"no"}]}"#);
    assert!(matches!(graphql_data(&bad), Err(Refusal::Errors(_))));
    assert!(matches!(graphql_partial_data(&bad), Ok(Json::Object(_))));
    let none = doc(r#"{"data":null}"#);
    assert!(matches!(graphql_data(&none), Ok(Json::Null)));
    assert!(matches!(graphql_partial_data(&none), Err(Refusal::NoData)));
    assert!(matches!(graphql_data(&doc("{}")), Err(Refusal::NoData)));
}

#[test]
fn a_page_keeps_each_item_once_newest_first_and_marks_the_second_search() {
    let page = doc(&format!(
        r#"{{"viewer":{{"login":"me"}},"rateLimit":{{"cost":3,"remaining":4990}},
          "main":{{"issueCount":40,"pageInfo":{{"hasNextPage":true,"endCursor":"c1"}},
                  "nodes":[{},{},null]}},
          "extra":{{"pageInfo":{{"hasNextPage":false,"endCursor":null}},"nodes":[{},{}]}}}}"#,
        row(1, "2026-01-01T00:00:00Z"),
        row(2, "2026-01-03T00:00:00Z"),
        row(2, "2026-01-03T00:00:00Z"),
        row(3, "2026-01-02T00:00:00Z"),
    ));
    let mut got = Fetched::new();
    got.absorb_page(&page, Mark::Mentioned);
    let urls: Vec<&str> = got.items.iter().map(|i| i.url.as_str()).collect();
    assert_eq!(urls, vec!["u2", "u3", "u1"]);
    assert!(got.items[0].mentioned);
    assert!(got.items[1].mentioned);
    assert!(!got.items[2].mentioned);
    assert_eq!(got.login, "me");
    assert_eq!(got.cost, 3);
    assert_eq!(got.remaining, 4990);
    assert_eq!(got.involved_total, 40);
    got.absorb_page(&page, Mark::Mentioned);
    assert_eq!(got.items.len(), 3);
    assert_eq!(got.cost, 6);
    let info = doc(r#"{"hasNextPage":true,"endCursor":"c1"}"#);
    assert_eq!(next_cursor(&info).as_deref(), Some("c1"));
    assert!(next_cursor(&doc(r#"{"hasNextPage":false,"endCursor":"c1"}"#)).is_none());
}

#[test]
fn a_chunk_of_references_becomes_one_query() {
    let refs = vec![("o/a".to_string(), 7), ("bad".to_string(), 1), ("o/b".to_string(), 3)];
    let (q, vars) = refs_query(&refs).unwrap();
    assert!(q.starts_with("query($o0:String!,$n0:String!,$k0:Int!,$o2:String!,$n2:String!,$k2:Int!){\n"));
    assert!(q.contains("r0: repository(owner:$o0,name:$n0){issueOrPullRequest(number:$k0){...Row}}\n"));
    assert!(q.contains("r2: repository(owner:$o2,name:$n2){issueOrPullRequest(number:$k2){...Row}}\nrateLimit{cost remaining}\n}\n"));
    assert!(!q.contains("r1:"));
    assert!(q.contains("fragment Row on SearchResultItem"));
    let names: Vec<&str> = vars.iter().map(|(n, _)| n.as_str()).collect();
    assert_eq!(names, vec!["o0", "n0", "k0", "o2", "n2", "k2"]);
    assert!(matches!(&vars[1].1, Var::Text(s) if s == "a"));
    assert!(matches!(&vars[5].1, Var::Number(3)));
    assert!(refs_query(&vec![("nope".to_string(), 1)]).is_none());
    assert_eq!(split_repo_text("o/r/x"), Some(("o".to_string(), "r/x".to_string())));
    assert_eq!(split_repo_text("or"), None);
}

#[test]
fn chunks_of_references_fill_the_list_newest_first() {
    let data = doc(&format!(
        r#"{{"rateLimit":{{"cost":1,"remaining":9}},"r0":{{"issueOrPullRequest":{}}},"r1":null,"r2":{{"issueOrPullRequest":{}}}}}"#,
        row(5, "2026-01-01T00:00:00Z"),
        row(6, "2026-02-01T00:00:00Z"),
    ));
    let mut got = Fetched::new();
    got.absorb_refs(&data, 3);
    let urls: Vec<&str> = got.items.iter().map(|i| i.url.as_str()).collect();
    assert_eq!(urls, vec!["u6", "u5"]);
    assert_eq!(got.remaining, 9);
}

#[test]
fn waiting_commands_run_oldest_first_and_conversations_jump_the_queue() {
    let mut b = Backlog::new();
    assert!(b.take_oldest().is_none());
    assert!(b.sort_in(Cmd::Refresh(5)).is_none());
    assert!(b.sort_in(Cmd::Poll(5)).is_none());
    let t = b.sort_in(Cmd::Thread { url: "u".into(), repo: "o/r".into(), number: 1 });
    assert!(matches!(t, Some(Cmd::Thread { .. })));
    assert!(matches!(b.take_oldest(), Some(Cmd::Refresh(5))));
    assert!(matches!(b.take_oldest(), Some(Cmd::Poll(5))));
    assert!(b.take_oldest().is_none());
    assert!(live(3, 3));
    assert!(!live(4, 3));
}

#[test]
fn sync_outcomes_become_reports() {
    assert!(matches!(after_sync(Ok(SyncStats::quiet())), AfterSync::Report(Evt::Quiet)));
    assert!(matches!(after_sync(Err("down".into())), AfterSync::Report(Evt::Failed(ref m)) if m == "down"));
    let st = SyncStats { fetched: 1, involved_total: 1, cost: 2, remaining: 3, skipped: false, notif_ok: false };
    assert!(matches!(after_sync(Ok(st)), AfterSync::LoadItems(s) if s == st));
    match synced(st, Ok(vec![]), None) {
        Evt::Synced { login, items, .. } => {
            assert_eq!(login, "");
            assert!(items.is_empty());
        }
        _ => panic!("should report the sync"),
    }
    assert!(matches!(synced(st, Err("disk".into()), Some("me".into())), Evt::Failed(ref m) if m == "disk"));
    assert!(matches!(load_thread("u".into(), Ok(vec![])), Evt::Thread { ref url, .. } if url == "u"));
    assert!(matches!(load_thread("u".into(), Err("x".into())), Evt::Failed(_)));
}

#[test]
fn sync_stats_from_what_was_fetched() {
    let mut got = Fetched::new();
    got.cost = 18;
    got.remaining = 4982;
    got.involved_total = 130;
    let st = SyncStats::synced(&got, true);
    assert_eq!(st, SyncStats { fetched: 0, involved_total: 130, cost: 18, remaining: 4982, skipped: false, notif_ok: true });
    let q = SyncStats::quiet();
    assert!(q.skipped && q.notif_ok);
    assert_eq!(SyncStats::default().cost, 0);
}

#[test]
fn paging_goes_on_while_either_search_has_more() {
    let mut p = Paging::new();
    assert!(p.main.is_none() && p.extra.is_none());
    let more = p.advance(&doc(r#"{"main":{"pageInfo":{"hasNextPage":false,"endCursor":"a"}},"extra":{"pageInfo":{"hasNextPage":true,"endCursor":"b"}}}"#));
    assert!(more);
    assert!(p.main.is_none());
    assert_eq!(p.extra.as_deref(), Some("b"));
    assert!(!p.advance(&doc("{}")));
}

#[test]
fn an_unchanged_poll_is_quiet() {
    assert_eq!(after_poll(false), Some(SyncStats::quiet()));
    assert_eq!(after_poll(true), None);
}

#[test]
fn the_poll_interval_is_a_minute_unless_set() {
    assert_eq!(ghdeck::client::poll_interval(None), 60);
    assert_eq!(ghdeck::client::poll_interval(Some(" 15 ")), 15);
    assert_eq!(ghdeck::client::poll_interval(Some("0")), 60);
    assert_eq!(ghdeck::client::poll_interval(Some("soon")), 60);
}
