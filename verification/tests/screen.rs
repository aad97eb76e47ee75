use ghdeck::deck::App;
use ghdeck::screen::{age_column, fit_title, kind_label, meta_line};
use ghdeck::sync::SyncStats;
use ghdeck::{Ci, Filter, Item, Kind, Stamp, State};

fn item(url: &str) -> Item {
    Item {
        url: url.to_string(),
        repo: "o/r".to_string(),
        number: 4,
        title: "t".to_string(),
        kind: Kind::Pr,
        state: State::Open,
        updated_at: Stamp { secs: 0, nanos: 0 },
        author: "ann".to_string(),
        conflicting: true,
        mergeable_unknown: false,
        review: None,
        ci: Ci::NoChecks,
        comments: 0,
        reviews_left: 0,
        waiting_on: vec![],
        assignees: vec![],
        labels: vec![],
        additions: 12,
        deletions: 3,
        changed_files: 2,
        last_actor: None,
        last_action: None,
        review_requested_of_me: false,
        mentioned: false,
        state_reason: None,
    }
}

#[test]
fn tabs_number_and_count_the_filters() {
    let mut closed = item("v");
    closed.state = State::Closed;
    let app = App::new(vec![item("u"), closed], "ann".into(), None, 60);
    let tabs = app.tabs();
    let texts: Vec<&str> = tabs.iter().map(|(t, _)| t.as_str()).collect();
    assert_eq!(texts, vec![" 1:ATTENTION NEEDED 1 ", " 2:OPEN 1 ", " 3:YOURS 2 ", " 4:TO REVIEW 0 ", " 5:ALL 2 "]);
    assert!(tabs[0].1);
    assert!(!tabs[4].1);
}

#[test]
fn a_long_title_is_cut_with_an_ellipsis() {
    let title = "x".repeat(50);
    let fitted = fit_title(&title, "o/r#4", 50);
    assert_eq!(fitted.chars().count(), 31);
    assert!(fitted.ends_with('\u{2026}'));
    assert_eq!(fit_title(&title, "o/r#4", 10).chars().count(), 20);
    assert_eq!(fit_title("short", "o/r#4", 10), "short");
}

#[test]
fn the_footer_lists_what_is_known_of_the_item() {
    let mut it = item("u");
    assert_eq!(meta_line(&it), "by ann   +12 -3 in 2 files");
    it.kind = Kind::Issue;
    it.assignees = vec!["bo".into(), "cy".into()];
    it.mergeable_unknown = true;
    assert_eq!(meta_line(&it), "by ann   assigned bo, cy   merge state still computing");
}

#[test]
fn the_hint_shows_the_search_or_the_status() {
    let mut app = App::new(vec![item("u")], "ann".into(), None, 60);
    assert_eq!(app.hint(), "j k move \u{b7} tab filter \u{b7} o open \u{b7} r sync \u{b7} / search \u{b7} ? help \u{b7} q quit");
    app.status = "syncing".into();
    assert_eq!(app.hint(), "syncing");
    app.searching = true;
    app.search = "ab".into();
    assert_eq!(app.hint(), "search: ab_");
    assert!(app.filtering_note().is_none());
    app.searching = false;
    assert_eq!(app.filtering_note().as_deref(), Some("   filtering on \"ab\""));
    assert!(app.points_note().is_none());
    app.stats = Some(SyncStats { fetched: 0, involved_total: 0, cost: 0, remaining: 4321, skipped: false, notif_ok: true });
    assert_eq!(app.points_note().as_deref(), Some("   4321 api pts left"));
}

#[test]
fn an_empty_list_says_why() {
    let app = App::new(vec![], "ann".into(), None, 60);
    assert_eq!(app.empty_message(), Some("nothing cached yet, press r to sync"));
    let mut it = item("u");
    it.conflicting = false;
    let app = App::new(vec![it], "ann".into(), None, 60);
    assert_eq!(app.filter, Filter::Attention);
    assert_eq!(app.empty_message(), Some("nothing matches this filter"));
}

#[test]
fn the_age_column_is_five_wide() {
    let now = Stamp { secs: 200_000, nanos: 0 };
    assert_eq!(age_column(Stamp { secs: 200_000 - 90, nanos: 0 }, now), "  1m ");
    assert_eq!(age_column(Stamp { secs: 200_000 - 3 * 86_400 + 10, nanos: 0 }, now), "  2d ");
    assert_eq!(age_column(Stamp { secs: 300_000, nanos: 0 }, now), "  0m ");
    assert_eq!(kind_label(Kind::Pr), "PR");
    assert_eq!(kind_label(Kind::Issue), "IS");
}
