use ghdeck::deck::{App, Cmd, Effect, Evt};
use ghdeck::keys::{Action, Key, KeyCode};
use ghdeck::sync::SyncStats;
use ghdeck::thread::Event;
use ghdeck::{Ci, Filter, Item, Kind, Review, Stamp, State};

fn item(url: &str, title: &str, secs: i64) -> Item {
    Item {
        url: url.to_string(),
        repo: "o/r".to_string(),
        number: 1,
        title: title.to_string(),
        kind: Kind::Pr,
        state: State::Open,
        updated_at: Stamp { secs, nanos: 0 },
        author: "me".to_string(),
        conflicting: false,
        mergeable_unknown: false,
        review: None,
        ci: Ci::NoChecks,
        comments: 0,
        reviews_left: 0,
        waiting_on: vec![],
        assignees: vec![],
        labels: vec![],
        additions: 0,
        deletions: 0,
        changed_files: 0,
        last_actor: None,
        last_action: None,
        review_requested_of_me: false,
        mentioned: false,
        state_reason: None,
    }
}

fn key(code: KeyCode) -> Key {
    Key { code, ctrl: false }
}

fn ch(c: char) -> Key {
    key(KeyCode::Char(c))
}

fn app_with(items: Vec<Item>) -> App {
    App::new(items, "me".to_string(), None, 60)
}

fn three() -> Vec<Item> {
    let mut a = item("u/1", "fix the parser", 300);
    a.conflicting = true;
    let b = item("u/2", "bar chart", 200);
    let mut c = item("u/3", "docs", 100);
    c.labels = vec!["Parser".to_string()];
    vec![a, b, c]
}

#[test]
fn a_new_dashboard_shows_what_needs_attention() {
    let app = app_with(three());
    assert_eq!(app.filter, Filter::Attention);
    assert_eq!(app.view, vec![0]);
    assert_eq!(app.cursor, 0);
    assert_eq!(app.count(Filter::Open), 3);
    assert_eq!(app.count(Filter::Attention), 1);
}

#[test]
fn keys_move_the_selection_and_stop_at_the_ends() {
    let mut app = app_with(three());
    app.handle(ch('5'));
    assert_eq!(app.filter, Filter::All);
    assert_eq!(app.view, vec![0, 1, 2]);
    for _ in 0..5 {
        app.handle(key(KeyCode::Down));
    }
    assert_eq!(app.cursor, 2);
    app.handle(key(KeyCode::Up));
    assert_eq!(app.cursor, 1);
    app.handle(ch('g'));
    assert_eq!(app.cursor, 0);
    app.handle(key(KeyCode::End));
    assert_eq!(app.cursor, 2);
    app.handle(key(KeyCode::PageUp));
    assert_eq!(app.cursor, 0);
}

#[test]
fn a_search_narrows_the_list_by_title_repo_or_label() {
    let mut app = app_with(three());
    app.set_filter(Filter::All);
    app.handle(ch('/'));
    assert!(app.searching);
    for c in "PARSER".chars() {
        app.handle(ch(c));
    }
    assert_eq!(app.search, "PARSER");
    assert_eq!(app.view, vec![0, 2]);
    app.handle(key(KeyCode::Backspace));
    assert_eq!(app.search, "PARSE");
    app.handle(key(KeyCode::Enter));
    assert!(!app.searching);
    assert_eq!(app.view, vec![0, 2]);
    app.handle(key(KeyCode::Esc));
    assert_eq!(app.search, "");
    assert_eq!(app.view, vec![0, 1, 2]);
}

#[test]
fn the_selection_follows_its_item_when_the_rows_change() {
    let mut app = app_with(three());
    app.set_filter(Filter::All);
    app.handle(key(KeyCode::Down));
    app.handle(key(KeyCode::Down));
    assert_eq!(app.selected().unwrap().url, "u/3");
    app.handle(ch('/'));
    app.handle(ch('d'));
    assert_eq!(app.view, vec![2]);
    assert_eq!(app.cursor, 0);
    assert_eq!(app.selected().unwrap().url, "u/3");
}

#[test]
fn looking_someone_up_and_going_back_restores_the_list() {
    let mut app = app_with(three());
    app.handle(ch('2'));
    assert_eq!(app.filter, Filter::Open);
    app.handle(ch('u'));
    assert!(app.asking);
    for c in "@octo".chars() {
        app.handle(ch(c));
    }
    app.handle(ch(' '));
    assert_eq!(app.ask, "@octo");
    let e = app.handle(key(KeyCode::Enter));
    match e {
        Effect::Send(Cmd::Activity { login, pages, ticket }) => {
            assert_eq!(login, "octo");
            assert_eq!(pages, 5);
            assert_eq!(ticket, 1);
        }
        other => panic!("unexpected {other:?}"),
    }
    assert!(!app.asking);
    assert_eq!(app.ask, "");
    assert_eq!(app.who.as_deref(), Some("octo"));
    assert!(app.items.is_empty());
    assert_eq!(app.filter, Filter::All);
    assert_eq!(app.status, "loading octo");
    assert_eq!(app.filters(), vec![Filter::All, Filter::Authored, Filter::Mentioned, Filter::Open]);

    app.handle(key(KeyCode::Esc));
    assert!(app.who.is_none());
    assert_eq!(app.items.len(), 3);
    assert_eq!(app.filter, Filter::Open);
    assert_eq!(app.view, vec![0, 1, 2]);
    assert_ne!(app.lookups, app.ticket);
}

#[test]
fn a_blank_or_bad_name_looks_nobody_up() {
    let mut app = app_with(three());
    app.handle(ch('u'));
    app.handle(ch(' '));
    assert!(matches!(app.handle(key(KeyCode::Enter)), Effect::Nothing));
    assert!(app.who.is_none());
    assert!(app.look_up("x is:open").is_none());
    assert_eq!(app.status, "x is:open is not a github username");
    assert!(app.who.is_none());
    assert_eq!(app.items.len(), 3);
}

#[test]
fn a_name_stops_growing_at_forty_bytes() {
    let mut app = app_with(vec![]);
    app.handle(ch('u'));
    for _ in 0..45 {
        app.handle(ch('a'));
    }
    assert_eq!(app.ask.len(), 40);
    app.handle(key(KeyCode::Esc));
    assert!(!app.asking);
    assert_eq!(app.ask, "");
}

#[test]
fn cycling_forward_then_back_returns_to_the_filter() {
    let mut app = app_with(three());
    app.handle(ch('3'));
    assert_eq!(app.filter, Filter::Mine);
    app.handle(key(KeyCode::Tab));
    assert_eq!(app.filter, Filter::Reviews);
    app.handle(key(KeyCode::BackTab));
    assert_eq!(app.filter, Filter::Mine);
    app.handle(ch('5'));
    app.handle(key(KeyCode::Right));
    assert_eq!(app.filter, Filter::Attention);
    app.handle(key(KeyCode::Left));
    assert_eq!(app.filter, Filter::All);
}

#[test]
fn a_filter_number_past_the_last_does_nothing() {
    let mut app = app_with(three());
    app.pick_filter(7);
    assert_eq!(app.filter, Filter::Attention);
    assert_eq!(app.action(ch('9')), Action::Nothing);
}

#[test]
fn a_conversation_is_asked_for_once_and_scrolls_from_the_top() {
    let mut app = app_with(three());
    let e = app.handle(key(KeyCode::Enter));
    match e {
        Effect::Send(Cmd::Thread { url, repo, number }) => {
            assert_eq!(url, "u/1");
            assert_eq!(repo, "o/r");
            assert_eq!(number, 1);
        }
        other => panic!("unexpected {other:?}"),
    }
    assert!(app.detail);
    assert!(app.thread_loading());
    let ev = Event { at: Stamp { secs: 5, nanos: 0 }, who: "me".into(), label: "opened".into(), body: "hi".into(), bot: false };
    app.apply(Evt::Thread { url: "u/1".into(), events: vec![ev] }, Stamp { secs: 10, nanos: 0 });
    assert!(app.loading.is_none());
    assert_eq!(app.thread().map(|v| v.len()), Some(1));
    app.handle(key(KeyCode::Up));
    assert_eq!(app.scroll, 0);
    app.handle(key(KeyCode::PageDown));
    assert_eq!(app.scroll, 15);
    app.handle(ch('b'));
    assert!(app.show_bots);
    app.handle(key(KeyCode::Left));
    assert!(!app.detail);
    assert_eq!(app.scroll, 0);
    assert!(matches!(app.handle(key(KeyCode::Enter)), Effect::Nothing));
    match app.handle(ch('r')) {
        Effect::Send(Cmd::Thread { url, .. }) => assert_eq!(url, "u/1"),
        other => panic!("unexpected {other:?}"),
    }
    assert!(app.thread().is_none());
}

#[test]
fn quitting_and_help() {
    let mut app = app_with(three());
    app.handle(ch('?'));
    assert!(app.help);
    app.handle(key(KeyCode::Esc));
    assert!(!app.help);
    app.detail = true;
    app.handle(ch('q'));
    assert!(!app.quit);
    assert!(!app.detail);
    app.detail = true;
    app.handle(Key { code: KeyCode::Char('c'), ctrl: true });
    assert!(app.quit);
}

#[test]
fn sync_keys_ask_the_worker() {
    let mut app = app_with(three());
    match app.handle(ch('R')) {
        Effect::Send(Cmd::Refresh(p)) => assert_eq!(p, 20),
        other => panic!("unexpected {other:?}"),
    }
    assert_eq!(app.status, "syncing");
    assert!(matches!(app.handle(ch('o')), Effect::OpenBrowser));
    assert!(matches!(app.handle(ch('y')), Effect::CopyUrl));
}

#[test]
fn a_finished_sync_replaces_the_list() {
    let mut app = app_with(three());
    let stats = SyncStats { fetched: 2, involved_total: 2, cost: 7, remaining: 4990, skipped: false, notif_ok: true };
    let mut fresh = item("u/9", "new", 400);
    fresh.review = Some(Review::ChangesRequested);
    let now = Stamp { secs: 1000, nanos: 0 };
    app.apply(Evt::Synced { stats, items: vec![fresh, item("u/1", "fix", 300)], login: "me2".into() }, now);
    assert_eq!(app.me, "me2");
    assert_eq!(app.status, "2 items, 7 api pts");
    assert_eq!(app.items.len(), 2);
    assert_eq!(app.view, vec![0]);
    assert_eq!(app.last_sync, Some(now));
    app.apply(Evt::Failed("boom".into()), now);
    assert_eq!(app.status, "sync failed: boom");
    app.apply(Evt::Quiet, now);
    assert_eq!(app.status, "");
}

#[test]
fn answers_to_an_old_look_up_are_ignored() {
    let mut app = app_with(three());
    app.look_up("octo");
    let t = app.ticket;
    let now = Stamp { secs: 1, nanos: 0 };
    app.apply(Evt::Activity { ticket: t + 7, items: three(), total: 3, cost: Some(1), since: None }, now);
    assert!(app.items.is_empty());
    app.apply(Evt::Activity { ticket: t, items: three(), total: 9, cost: None, since: None }, now);
    assert_eq!(app.items.len(), 3);
    assert_eq!(app.who_total, 9);
    assert!(app.who_loading);
    app.apply(Evt::Activity { ticket: t, items: three(), total: 9, cost: Some(4), since: None }, now);
    assert!(!app.who_loading);
    assert_eq!(app.status, "3 items, 4 api pts");
    app.apply(Evt::ActivityFailed { ticket: t, error: "gone".into() }, now);
    assert_eq!(app.status, "could not load octo: gone");
}

fn in_range(app: &App) -> bool {
    app.view.iter().all(|&i| i < app.items.len())
        && if app.view.is_empty() { app.cursor == 0 } else { app.cursor < app.view.len() }
}

#[test]
fn the_selection_stays_on_a_row_through_keys_and_reports() {
    let mut app = app_with(three());
    let keys = [
        ch('5'),
        key(KeyCode::End),
        ch('/'),
        ch('z'),
        key(KeyCode::Enter),
        ch('/'),
        key(KeyCode::Enter),
        key(KeyCode::Down),
        key(KeyCode::Tab),
        key(KeyCode::Tab),
        ch('3'),
        key(KeyCode::PageDown),
        ch('u'),
        ch('o'),
        key(KeyCode::Enter),
        key(KeyCode::Esc),
        key(KeyCode::BackTab),
        ch('G'),
    ];
    for k in keys {
        app.handle(k);
        assert!(in_range(&app));
        assert_eq!(app.selected().is_some(), !app.view.is_empty());
    }
    let stats = SyncStats { fetched: 1, involved_total: 1, cost: 1, remaining: 1, skipped: false, notif_ok: true };
    app.apply(Evt::Synced { stats, items: vec![item("u/7", "one", 1)], login: String::new() }, Stamp { secs: 2, nanos: 0 });
    assert!(in_range(&app));
}
