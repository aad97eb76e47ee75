use ghdeck::clean_login;
use ghdeck::{plural, Ci, Filter, Item, Kind, Review, Stamp, State};

#[test]
fn logins_are_cleaned_and_checked() {
    assert_eq!(clean_login(" @juliohm ").as_deref(), Some("juliohm"));
    assert_eq!(clean_login("Julio-HM").as_deref(), Some("Julio-HM"));
    assert!(clean_login("").is_none());
    assert!(clean_login("@").is_none());
    assert!(clean_login("x is:open").is_none());
    assert!(clean_login("-lead").is_none());
    assert!(clean_login("trail-").is_none());
    assert!(clean_login(&"a".repeat(40)).is_none());
}

#[test]
fn a_cleaned_login_cleans_to_itself() {
    for input in [" @juliohm ", "Julio-HM", "a", "@@x-1"] {
        let once = clean_login(input).unwrap();
        assert_eq!(clean_login(&once).as_deref(), Some(once.as_str()));
    }
}

#[test]
fn thirty_nine_characters_is_the_longest_login() {
    assert_eq!(clean_login(&"a".repeat(39)).map(|s| s.len()), Some(39));
}

#[test]
fn plural_adds_an_s_unless_one() {
    assert_eq!(plural(0, "item"), "0 items");
    assert_eq!(plural(1, "comment"), "1 comment");
    assert_eq!(plural(12, "item"), "12 items");
}

#[test]
fn filter_labels_read_as_headings() {
    assert_eq!(Filter::Attention.label(), "ATTENTION NEEDED");
    assert_eq!(Filter::Mine.label(), "YOURS");
    assert_eq!(Filter::Reviews.label(), "TO REVIEW");
    assert_eq!(Filter::order().len(), 5);
    assert_eq!(Filter::person(), [Filter::All, Filter::Authored, Filter::Mentioned, Filter::Open]);
}

#[test]
fn what_needs_attention_is_open() {
    let base = Item {
        url: "u".into(),
        repo: "o/r".into(),
        number: 1,
        title: "t".into(),
        kind: Kind::Pr,
        state: State::Open,
        updated_at: Stamp { secs: 0, nanos: 0 },
        author: "a".into(),
        conflicting: false,
        mergeable_unknown: false,
        review: None,
        ci: Ci::NoChecks,
        comments: 0,
        reviews_left: 0,
        waiting_on: vec![],
        assignees: vec![],
        labels: vec![],
        additions: 0,
        deletions: 0,
        changed_files: 0,
        last_actor: None,
        last_action: None,
        review_requested_of_me: false,
        mentioned: false,
        state_reason: None,
    };
    for state in [State::Open, State::Draft, State::Merged, State::Closed] {
        for (conflicting, review, ci, asked) in [
            (true, None, Ci::NoChecks, false),
            (false, Some(Review::ChangesRequested), Ci::Success, false),
            (false, None, Ci::Error, false),
            (false, Some(Review::Approved), Ci::Failure, false),
            (false, None, Ci::Pending, true),
            (false, Some(Review::Approved), Ci::Success, false),
        ] {
            let it = Item { state, conflicting, review, ci, review_requested_of_me: asked, ..base.clone() };
            let attention = Filter::Attention.keeps(&it, "a");
            assert!(!attention || Filter::Open.keeps(&it, "a"));
            let open = matches!(state, State::Open | State::Draft);
            let quiet = review == Some(Review::Approved) && ci == Ci::Success;
            assert_eq!(attention, open && !quiet);
        }
    }
}
