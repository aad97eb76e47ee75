use ghdeck::command::{parse_command, poll_line, synced_line, Command};
use ghdeck::report::{
    ensure_synced, list_report, parse_filter, parse_person_filter, parse_ref, print_rows, show_report, user_report,
    Cached, RefError,
};
use ghdeck::search::Fetched;
use ghdeck::sync::SyncStats;
use ghdeck::thread::Event;
use ghdeck::{Ci, Filter, Item, Kind, Stamp, State};

fn item(url: &str, secs: i64) -> Item {
    Item {
        url: url.to_string(),
        repo: "o/r".to_string(),
        number: 7,
        title: "fix it".to_string(),
        kind: Kind::Pr,
        state: State::Open,
        updated_at: Stamp { secs, nanos: 0 },
        author: "me".to_string(),
        conflicting: false,
        mergeable_unknown: false,
        review: None,
        ci: Ci::NoChecks,
        comments: 2,
        reviews_left: 0,
        waiting_on: vec![],
        assignees: vec![],
        labels: vec![],
        additions: 0,
        deletions: 0,
        changed_files: 0,
        last_actor: Some("bob".to_string()),
        last_action: Some("commented".to_string()),
        review_requested_of_me: false,
        mentioned: false,
        state_reason: None,
    }
}

const NOW: Stamp = Stamp { secs: 10_000, nanos: 0 };

#[test]
fn a_row_shows_age_kind_slug_title_chips_and_notes() {
    let mut out = String::from(">");
    let n = print_rows(&mut out, &vec![item("u", 2_800)], Filter::All, "me", NOW);
    assert_eq!(n, 1);
    let want = [">  2h  [PR]    o/r#7  fix it\n",
        "              open   2 comments   bob commented\n"].concat();
    assert_eq!(out, want);
}

#[test]
fn an_issue_row_fills_its_column_and_an_old_one_counts_years() {
    let mut it = item("u", 10_000 - 2 * 31_536_000);
    it.kind = Kind::Issue;
    it.comments = 0;
    it.last_actor = None;
    let mut out = String::new();
    print_rows(&mut out, &vec![it], Filter::All, "me", NOW);
    assert_eq!(out, "  2y  [ISSUE] o/r#7  fix it\n              open\n");
}

#[test]
fn the_list_report_counts_the_rows_the_filter_keeps() {
    let mut closed = item("v", 9_990);
    closed.state = State::Closed;
    let items = vec![closed, item("u", 9_950)];
    let r = list_report(&items, Filter::Open, "me", NOW);
    assert_eq!(
        r,
        ["1 item, open\n\n",
            "  0m  [PR]    o/r#7  fix it\n",
            "              open   2 comments   bob commented\n"].concat()
    );
    let none = list_report(&items, Filter::Reviews, "me", NOW);
    assert_eq!(none, "0 items, to review\n\n");
}

#[test]
fn list_words_choose_filters() {
    assert_eq!(parse_filter(None), Filter::Attention);
    assert_eq!(parse_filter(Some("open")), Filter::Open);
    assert_eq!(parse_filter(Some("yours")), Filter::Mine);
    assert_eq!(parse_filter(Some("mine")), Filter::Mine);
    assert_eq!(parse_filter(Some("to-review")), Filter::Reviews);
    assert_eq!(parse_filter(Some("reviews")), Filter::Reviews);
    assert_eq!(parse_filter(Some("all")), Filter::All);
    assert_eq!(parse_filter(Some("everything")), Filter::Attention);
}

#[test]
fn user_words_choose_filters_or_are_refused() {
    assert_eq!(parse_person_filter(None), Ok(Filter::All));
    assert_eq!(parse_person_filter(Some("all")), Ok(Filter::All));
    assert_eq!(parse_person_filter(Some("authored")), Ok(Filter::Authored));
    assert_eq!(parse_person_filter(Some("mentioned")), Ok(Filter::Mentioned));
    assert_eq!(parse_person_filter(Some("open")), Ok(Filter::Open));
    assert_eq!(
        parse_person_filter(Some("yours")),
        Err("yours is not a filter here, use all, authored, mentioned or open".to_string())
    );
}

#[test]
fn an_empty_cache_syncs_first() {
    assert!(matches!(ensure_synced(vec![]), Cached::SyncFirst(5)));
    match ensure_synced(vec![item("u", 1)]) {
        Cached::Ready(v) => assert_eq!(v.len(), 1),
        Cached::SyncFirst(_) => panic!("should print the cache"),
    }
}

#[test]
fn someone_with_nothing_visible() {
    let got = Fetched { items: vec![], login: String::new(), involved_total: 0, cost: 1, remaining: 2, feed_since: None };
    assert_eq!(user_report("octo", Filter::All, &got, NOW), "nothing for octo that you can see\n");
}

#[test]
fn a_hidden_account_reports_its_feed() {
    let mut it = item("u", 9_400);
    it.author = "octo".to_string();
    let got = Fetched {
        items: vec![it],
        login: String::new(),
        involved_total: 1,
        cost: 1,
        remaining: 2,
        feed_since: Some(Stamp { secs: 1_788_220_800, nanos: 0 }),
    };
    let r = user_report("octo", Filter::Mentioned, &got, NOW);
    assert_eq!(
        r,
        ["0 items, mentioned for octo\n",
            "github hides octo from search, so this is their public activity since 1 Sep\n",
            "mentions are not in that activity, so this filter stays empty\n",
            "\n"].concat()
    );
}

#[test]
fn a_partial_look_up_says_how_much_was_fetched() {
    let mut a = item("u", 9_400);
    a.author = "Octo".to_string();
    let got = Fetched { items: vec![a, item("v", 9_000)], login: String::new(), involved_total: 120, cost: 1, remaining: 2, feed_since: None };
    let r = user_report("octo", Filter::Authored, &got, NOW);
    assert!(r.starts_with("1 item, authored for octo\nfrom the newest 2 of 120 they are involved in\n\n"));
    assert!(r.ends_with("open   2 comments   bob commented\n"));
}

#[test]
fn refs_name_a_repository_and_a_number() {
    assert_eq!(parse_ref(Some("o/r#12")), Ok(("o/r".to_string(), 12)));
    assert_eq!(parse_ref(Some("a#b#+3")), Ok(("a#b".to_string(), 3)));
    assert_eq!(parse_ref(Some("o/r")), Err(RefError::NoHash));
    assert_eq!(parse_ref(Some("o/r#x")), Err(RefError::BadNumber));
    assert_eq!(parse_ref(Some("o/r#")), Err(RefError::BadNumber));
    assert_eq!(parse_ref(None), Err(RefError::Missing));
    assert_eq!(RefError::Missing.message(), "give a ref like owner/repo#123");
    assert_eq!(RefError::NoHash.message(), "expected owner/repo#123");
    assert_eq!(RefError::BadNumber.message(), "that number did not parse");
}

#[test]
fn a_conversation_prints_time_who_what_and_body() {
    let evs = vec![
        Event { at: Stamp { secs: 1_767_225_600, nanos: 0 }, who: "me".into(), label: "opened".into(), body: "a\r\nb\n".into(), bot: false },
        Event {
            at: Stamp { secs: 1_767_341_100, nanos: 0 },
            who: "codecov".into(),
            label: "commented".into(),
            body: "<details>\n## Codecov Report\nmore".into(),
            bot: true,
        },
        Event { at: Stamp { secs: 1_767_341_100, nanos: 0 }, who: "ci[bot]".into(), label: "commented".into(), body: "---".into(), bot: true },
    ];
    assert_eq!(
        show_report("o/r", 3, &evs),
        ["2026-01-01 00:00 me opened\n    a\n    b\n\n",
            "2026-01-02 08:05 codecov commented\n    Codecov Report\n\n",
            "2026-01-02 08:05 ci[bot] commented\n\n"].concat()
    );
    assert_eq!(show_report("o/r", 3, &vec![]), "nothing on o/r#3\n");
}

#[test]
fn arguments_name_commands() {
    let args = |v: &[&str]| v.iter().map(|s| s.to_string()).collect::<Vec<String>>();
    assert!(matches!(parse_command(&args(&[])), Command::Dashboard));
    match parse_command(&args(&["list", "all"])) {
        Command::List(w) => assert_eq!(w.as_deref(), Some("all")),
        other => panic!("unexpected {other:?}"),
    }
    match parse_command(&args(&["user", "octo"])) {
        Command::User(w, x) => {
            assert_eq!(w.as_deref(), Some("octo"));
            assert!(x.is_none());
        }
        other => panic!("unexpected {other:?}"),
    }
    assert!(matches!(parse_command(&args(&["--version"])), Command::Version));
    assert!(matches!(parse_command(&args(&["help"])), Command::Help));
    assert!(matches!(parse_command(&args(&["poll"])), Command::Poll));
    match parse_command(&args(&["frob"])) {
        Command::Unknown(s) => assert_eq!(s, "frob"),
        other => panic!("unexpected {other:?}"),
    }
}

#[test]
fn sync_lines_report_items_and_points() {
    let st = SyncStats { fetched: 1, involved_total: 3, cost: 7, remaining: 4993, skipped: false, notif_ok: true };
    assert_eq!(synced_line(&st), "synced 1 item, 7 api pts, 4993 left");
    assert_eq!(poll_line(&st), "synced 1 item, 7 api pts, 4993 left");
    assert_eq!(poll_line(&SyncStats::quiet()), "nothing changed");
}
