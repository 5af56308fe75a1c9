use activity_digest::action::Action;
use activity_digest::aggregate::Aggregator;
use activity_digest::classify::Interaction;
use activity_digest::config::Config;
use activity_digest::digest::{digest, fold_events};
use activity_digest::error::{DigestError, PullRequestField};
use activity_digest::event::{Issue, IssueAction, Payload, PullRequest, PullRequestAction, RawEvent};
use activity_digest::render::Layout;
use activity_digest::time::{Timestamp, Window};
use activity_digest::topic::{Repo, Topic};

fn item(repo: &str, number: u64, title: &str, action: Action) -> Interaction {
    Interaction {
        repo: Repo::new(repo.to_string(), format!("https://api.github.com/repos/{repo}")),
        topic: Topic::new(
            format!("https://github.com/{repo}/issues/{number}"),
            number,
            title.to_string(),
        ),
        action,
    }
}

fn html(repo: &str) -> Option<String> {
    Some(format!("https://github.com/{repo}"))
}

#[test]
fn topic_text_holds_number_locator_and_title() {
    let t = Topic::new("https://github.com/acme/widgets/issues/7".to_string(), 7, "Fix bug!! <script>".to_string());
    assert_eq!(t.text(true), "[#7](https://github.com/acme/widgets/issues/7) (_Fix bug script_)");
    assert_eq!(t.text(false), "[#7](https://github.com/acme/widgets/issues/7) (_Fix bug!! <script>_)");
    let mut out = String::from("x ");
    t.push_text(&mut out, true);
    assert_eq!(out, "x [#7](https://github.com/acme/widgets/issues/7) (_Fix bug script_)");
}

#[test]
fn repository_entry_with_one_topic() {
    let mut agg = Aggregator::new();
    agg.insert(item("acme/widgets", 7, "Crash on start", Action::Write));
    let got = agg.render_repo(0, Some("https://github.com/acme/widgets"), true).unwrap();
    assert_eq!(
        got,
        "- *[acme/widgets](https://github.com/acme/widgets):*\u{2000}\u{270d}\u{fe0f} \
         [#7](https://github.com/acme/widgets/issues/7) (_Crash on start_)"
    );
}

#[test]
fn pull_request_opened_then_reviewed_shows_code_before_review() {
    let mut agg = Aggregator::new();
    agg.insert(item("acme/widgets", 9, "Fix crash", Action::Review));
    agg.insert(item("acme/widgets", 9, "Fix crash", Action::Code));
    let got = agg.render(&vec![html("acme/widgets")], true, Layout::Lines).unwrap();
    assert_eq!(
        got,
        "- *[acme/widgets](https://github.com/acme/widgets):*\u{2000}\u{1f528}\u{1f575}\u{fe0f} \
         [#9](https://github.com/acme/widgets/issues/9) (_Fix crash_)\n"
    );
}

#[test]
fn topics_are_separated_by_commas_and_repositories_by_newlines() {
    let mut agg = Aggregator::new();
    agg.insert(item("zeta/app", 3, "c", Action::Comment));
    agg.insert(item("acme/widgets", 20, "b", Action::Code));
    agg.insert(item("acme/widgets", 3, "a", Action::Assist));
    let urls = vec![html("acme/widgets"), html("zeta/app")];
    let got = agg.render(&urls, true, Layout::Lines).unwrap();
    assert_eq!(
        got,
        "- *[acme/widgets](https://github.com/acme/widgets):*\
         \u{2000}\u{2699}\u{fe0f} [#3](https://github.com/acme/widgets/issues/3) (_a_),\
         \u{2000}\u{1f528} [#20](https://github.com/acme/widgets/issues/20) (_b_)\n\
         - *[zeta/app](https://github.com/zeta/app):*\
         \u{2000}\u{1f4ac} [#3](https://github.com/zeta/app/issues/3) (_c_)\n"
    );
}

#[test]
fn compact_layout_joins_repositories_with_semicolons() {
    let mut agg = Aggregator::new();
    agg.insert(item("zeta/app", 3, "c", Action::Comment));
    agg.insert(item("acme/widgets", 20, "b", Action::Code));
    let urls = vec![html("acme/widgets"), html("zeta/app")];
    let got = agg.render(&urls, true, Layout::Compact).unwrap();
    assert_eq!(
        got,
        "- *[acme/widgets](https://github.com/acme/widgets):*\
         \u{2000}\u{1f528} [#20](https://github.com/acme/widgets/issues/20) (_b_);\
         - *[zeta/app](https://github.com/zeta/app):*\
         \u{2000}\u{1f4ac} [#3](https://github.com/zeta/app/issues/3) (_c_)"
    );
    let mut one = Aggregator::new();
    one.insert(item("acme/widgets", 20, "b", Action::Code));
    assert_eq!(
        one.render(&vec![html("acme/widgets")], true, Layout::Compact).unwrap(),
        one.render_repo(0, Some("https://github.com/acme/widgets"), true).unwrap()
    );
}

#[test]
fn empty_digest_renders_to_nothing() {
    let agg = Aggregator::new();
    assert_eq!(agg.render(&vec![], true, Layout::Lines).unwrap(), "");
    assert_eq!(agg.render(&vec![], true, Layout::Compact).unwrap(), "");
}

#[test]
fn rendering_twice_gives_the_same_bytes() {
    let items = || {
        vec![
            item("zeta/app", 3, "c", Action::Write),
            item("acme/widgets", 20, "b", Action::Code),
            item("acme/widgets", 3, "a", Action::Comment),
            item("acme/widgets", 20, "b", Action::Review),
        ]
    };
    let mut forward = Aggregator::new();
    for i in items() {
        forward.insert(i);
    }
    let mut backward = Aggregator::new();
    for i in items().into_iter().rev() {
        backward.insert(i);
    }
    let urls = vec![html("acme/widgets"), html("zeta/app")];
    let first = forward.render(&urls, true, Layout::Lines).unwrap();
    let second = forward.render(&urls, true, Layout::Lines).unwrap();
    let other = backward.render(&urls, true, Layout::Lines).unwrap();
    assert_eq!(first.as_bytes(), second.as_bytes());
    assert_eq!(first.as_bytes(), other.as_bytes());
    let acme = first.find("acme/widgets").unwrap();
    let zeta = first.find("zeta/app").unwrap();
    assert!(acme < zeta);
    assert!(first.find("[#3](https://github.com/acme").unwrap() < first.find("[#20]").unwrap());
}

#[test]
fn repository_without_display_locator_fails_the_rendering() {
    let mut agg = Aggregator::new();
    agg.insert(item("zeta/app", 3, "c", Action::Comment));
    agg.insert(item("acme/widgets", 20, "b", Action::Code));
    assert_eq!(agg.render_repo(1, None, true), Err(DigestError::MissingRepoUrl));
    assert_eq!(
        agg.render(&vec![html("acme/widgets"), None], true, Layout::Lines),
        Err(DigestError::MissingRepoUrl)
    );
    assert_eq!(
        agg.render(&vec![None, html("zeta/app")], true, Layout::Compact),
        Err(DigestError::MissingRepoUrl)
    );
}

#[test]
fn titles_are_sanitized_only_where_asked() {
    let mut agg = Aggregator::new();
    agg.insert(item("acme/widgets", 7, "Fix bug!! <script>", Action::Write));
    let clean = agg.render_repo(0, Some("u"), true).unwrap();
    assert!(clean.ends_with("(_Fix bug script_)"));
    let raw = agg.render_repo(0, Some("u"), false).unwrap();
    assert!(raw.ends_with("(_Fix bug!! <script>_)"));
    assert_eq!(agg.topic(0, 0).title, "Fix bug!! <script>");
}

#[test]
fn error_messages() {
    assert_eq!(
        DigestError::MissingField(PullRequestField::HtmlUrl).message(),
        "convert PR data: HTML URL missing"
    );
    assert_eq!(
        DigestError::MissingField(PullRequestField::Title).message(),
        "convert PR data: PR title missing"
    );
    assert_eq!(DigestError::MissingRepoUrl.message(), "no html URL for repo");
}

const NOW: i64 = 1_700_000_000;
const WEEK: i64 = 7 * 86_400;

fn raw(repo: &str, age: i64, payload: Payload) -> RawEvent {
    RawEvent {
        public: true,
        created_at: Timestamp { secs: NOW - age, nanos: 0 },
        repo: Repo::new(repo.to_string(), format!("https://api.github.com/repos/{repo}")),
        payload: Some(payload),
    }
}

fn issue_opened(repo: &str, number: u64, title: &str) -> Payload {
    Payload::Issues {
        action: IssueAction::Opened,
        issue: Issue {
            html_url: format!("https://github.com/{repo}/issues/{number}"),
            number,
            title: title.to_string(),
            author: "octocat".to_string(),
        },
    }
}

fn pr(repo: &str, number: u64, title: Option<&str>) -> PullRequest {
    PullRequest {
        html_url: Some(format!("https://github.com/{repo}/pull/{number}")),
        number,
        title: title.map(|t| t.to_string()),
        author: Some("octocat".to_string()),
    }
}

#[test]
fn digest_of_a_page_of_events() {
    let events = vec![
        raw("acme/widgets", 100, Payload::PullRequestReview { pull_request: pr("acme/widgets", 9, Some("Fix crash")) }),
        raw("acme/widgets", 200, Payload::PullRequest {
            action: PullRequestAction::Opened,
            pull_request: pr("acme/widgets", 9, Some("Fix crash")),
        }),
        raw("zeta/app", 300, issue_opened("zeta/app", 3, "Add `docs`")),
        raw("acme/widgets", 400, Payload::Other),
        raw("acme/widgets", WEEK + 1, issue_opened("acme/widgets", 1, "too old")),
    ];
    let cutoff = Timestamp { secs: NOW - WEEK, nanos: 0 };
    let agg = digest(events, &Config::new(), "octocat", &cutoff, 5, Window::from_secs(WEEK as u64))
        .unwrap();
    let urls = vec![html("acme/widgets"), html("zeta/app")];
    assert_eq!(
        agg.render(&urls, true, Layout::Lines).unwrap(),
        "- *[acme/widgets](https://github.com/acme/widgets):*\
         \u{2000}\u{1f528}\u{1f575}\u{fe0f} [#9](https://github.com/acme/widgets/pull/9) (_Fix crash_)\n\
         - *[zeta/app](https://github.com/zeta/app):*\
         \u{2000}\u{270d}\u{fe0f} [#3](https://github.com/zeta/app/issues/3) (_Add docs_)\n"
    );
}

#[test]
fn digest_stops_at_the_first_malformed_pull_request() {
    let events = vec![
        raw("acme/widgets", 100, issue_opened("acme/widgets", 1, "fine")),
        raw("acme/widgets", 200, Payload::PullRequestReview { pull_request: pr("acme/widgets", 9, None) }),
        raw("acme/widgets", WEEK + 1, issue_opened("acme/widgets", 2, "old")),
    ];
    let cutoff = Timestamp { secs: NOW - WEEK, nanos: 0 };
    let got = digest(events, &Config::new(), "octocat", &cutoff, 3, Window::from_secs(WEEK as u64));
    assert_eq!(got.unwrap_err(), DigestError::MissingField(PullRequestField::Title));
}

#[test]
fn fold_events_adds_to_an_existing_digest() {
    let mut agg = Aggregator::new();
    agg.insert(item("acme/widgets", 1, "first", Action::Comment));
    let cutoff = Timestamp { secs: NOW - WEEK, nanos: 0 };
    let events = vec![raw("acme/widgets", 100, issue_opened("acme/widgets", 1, "renamed"))];
    let agg = fold_events(agg, events, &Config::new(), "octocat", &cutoff).unwrap();
    assert_eq!(agg.repo_count(), 1);
    assert_eq!(agg.topic_count(0), 1);
    assert_eq!(agg.topic(0, 0).title, "first");
    assert!(agg.actions(0, 0).contains(Action::Comment));
    assert!(agg.actions(0, 0).contains(Action::Write));
}
