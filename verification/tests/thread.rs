use ghdeck::json::Json;
use ghdeck::markup::{clean, plain, tidy, unlink};
use ghdeck::thread::parse;
use serde_json::Value;

fn to_json(v: &Value) -> Json {
    match v {
        Value::Null => Json::Null,
        Value::Bool(b) => Json::Bool(*b),
        Value::Number(n) => Json::Num(n.as_u64()),
        Value::String(s) => Json::Str(s.clone()),
        Value::Array(a) => Json::Array(a.iter().map(to_json).collect()),
        Value::Object(m) => Json::Object(m.iter().map(|(k, v)| (k.clone(), to_json(v))).collect()),
    }
}

fn doc(text: &str) -> Json {
    let v: Value = serde_json::from_str(text).unwrap();
    to_json(&v)
}

#[test]
fn builds_a_sorted_conversation_from_a_pull_request() {
    let data = doc(
        r#"{"repository":{"issueOrPullRequest":{
          "body":"  first line\r\nsecond  ","author":{"login":"me"},"createdAt":"2026-01-01T00:00:00Z",
          "comments":{"nodes":[
            {"author":{"login":"bob"},"createdAt":"2026-01-05T00:00:00Z","body":"looks good"},
            {"author":{"login":"eve"},"createdAt":"2026-01-02T00:00:00Z","body":"needs work"}]},
          "reviews":{"nodes":[
            {"author":{"login":"carol"},"submittedAt":"2026-01-03T00:00:00Z","state":"CHANGES_REQUESTED",
             "body":"see notes","comments":{"nodes":[{"path":"src/a.rs","line":42,"body":"rename this"}]}}]}
        }}}"#,
    );

    let evs = parse(&data);
    let seq: Vec<(&str, &str)> = evs.iter().map(|e| (e.who.as_str(), e.label.as_str())).collect();
    assert_eq!(
        seq,
        vec![
            ("me", "opened"),
            ("eve", "commented"),
            ("carol", "requested changes"),
            ("carol", "on src/a.rs:42"),
            ("bob", "commented"),
        ]
    );
    assert_eq!(evs[0].body, "first line\nsecond");
}

#[test]
fn a_bare_approval_still_shows_up() {
    let data = doc(
        r#"{"repository":{"issueOrPullRequest":{
          "body":"","author":{"login":"me"},"createdAt":"2026-01-01T00:00:00Z",
          "comments":{"nodes":[]},
          "reviews":{"nodes":[{"author":{"login":"juliohm"},"submittedAt":"2026-01-02T00:00:00Z",
            "state":"APPROVED","body":"","comments":{"nodes":[]}}]}
        }}}"#,
    );
    let evs = parse(&data);
    assert_eq!(evs.len(), 2);
    assert_eq!(evs[1].label, "approved");
    assert!(evs[1].body.is_empty());
}

#[test]
fn bots_are_flagged_and_summarised() {
    let data = doc(
        r#"{"repository":{"issueOrPullRequest":{
          "body":"hi","author":{"login":"me","__typename":"User"},"createdAt":"2026-01-01T00:00:00Z",
          "comments":{"nodes":[
            {"author":{"login":"codecov","__typename":"User"},"createdAt":"2026-01-02T00:00:00Z",
             "body":"<details>\n## Codecov Report\nPatch coverage is 93%"},
            {"author":{"login":"renovate[bot]","__typename":"User"},"createdAt":"2026-01-03T00:00:00Z",
             "body":"bumped things"}]},
          "reviews":{"nodes":[]}
        }}}"#,
    );
    let evs = parse(&data);
    assert!(!evs[0].bot);
    assert!(evs[1].bot, "codecov should be a bot");
    assert!(evs[2].bot, "[bot] suffix should count");
    assert_eq!(evs[1].gist(), "Codecov Report");
    assert_eq!(plain("## [Codecov](https://x.y/z?a=b) Report :x:"), "Codecov Report :x:");
    assert_eq!(plain("see [issue #12] for context"), "see [issue #12] for context");
    assert_eq!(tidy("<details><summary>hi</summary>text"), "hitext");
}

#[test]
fn empty_payload_gives_nothing() {
    assert!(parse(&Json::Object(Vec::new())).is_empty());
}

#[test]
fn strips_a_plain_link() {
    assert_eq!(
        plain("[CLA assistant check](https://cla-assistant.io/x?pullRequest=1) <br/>Thank you!"),
        "CLA assistant check Thank you!"
    );
}

#[test]
fn strips_a_nested_image_link() {
    assert_eq!(
        plain("[![CLA assistant check](https://cla-assistant.io/pull/badge/not_signed)](https://cla-assistant.io/calcom/cal.com?pullRequest=29686) <br/>Thank you for your submission!"),
        "CLA assistant check Thank you for your submission!"
    );
}

#[test]
fn drops_bold_markers() {
    assert_eq!(plain("Welcome to **Cal.diy**, @me!"), "Welcome to Cal.diy, @me!");
}

#[test]
fn leaves_a_bare_bracket_alone() {
    assert_eq!(plain("see [issue #12] for context"), "see [issue #12] for context");
}

#[test]
fn handles_parens_inside_a_url() {
    assert_eq!(plain("read [the docs](https://x.y/a_(b)_c) now"), "read the docs now");
}

#[test]
fn one_pass_of_unlink_leaves_the_inner_link() {
    let once = unlink("[![a](b)](c)");
    assert_eq!(once, "![a](b)");
    assert_eq!(unlink(&once), "a");
}

#[test]
fn clean_drops_carriage_returns_and_outer_space() {
    assert_eq!(clean("  one\r\ntwo \r\n"), "one\ntwo");
    assert_eq!(clean(""), "");
}

#[test]
fn a_bot_with_no_words_has_an_empty_gist() {
    let data = doc(
        r#"{"repository":{"issueOrPullRequest":{
          "body":"x","author":{"login":"me"},"createdAt":"2026-01-01T00:00:00Z",
          "comments":{"nodes":[
            {"author":{"login":"ci-bot[bot]"},"createdAt":"2026-01-02T00:00:00Z","body":"<br/>\n:-:\n***"}]},
          "reviews":{"nodes":[]}
        }}}"#,
    );
    let evs = parse(&data);
    assert_eq!(evs.len(), 2);
    assert!(evs[1].bot);
    assert_eq!(evs[1].gist(), "");
}

#[test]
fn the_gist_is_cut_to_one_hundred_and_twenty_characters() {
    let data = doc(&format!(
        r#"{{"repository":{{"issueOrPullRequest":{{
          "body":"x","author":{{"login":"me"}},"createdAt":"2026-01-01T00:00:00Z",
          "comments":{{"nodes":[
            {{"author":{{"login":"dependabot"}},"createdAt":"2026-01-02T00:00:00Z","body":"{}"}}]}},
          "reviews":{{"nodes":[]}}
        }}}}}}"#,
        "w".repeat(200)
    ));
    let evs = parse(&data);
    assert_eq!(evs[1].gist().chars().count(), 120);
}

#[test]
fn a_gist_is_one_line() {
    let data = doc(
        r#"{"repository":{"issueOrPullRequest":{
          "body":"x","author":{"login":"me"},"createdAt":"2026-01-01T00:00:00Z",
          "comments":{"nodes":[
            {"author":{"login":"github-actions[bot]"},"createdAt":"2026-01-02T00:00:00Z",
             "body":"\n\n  **Build** [passed](https://ci/run\n1)\r\nsecond line"}]},
          "reviews":{"nodes":[]}
        }}}"#,
    );
    let evs = parse(&data);
    let g = evs[1].gist();
    assert!(!g.contains('\n'));
    assert_eq!(g, "Build [passed](https://ci/run");
}
