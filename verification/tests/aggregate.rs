use activity_digest::action::{Action, ActionSet};
use activity_digest::aggregate::Aggregator;
use activity_digest::classify::Interaction;
use activity_digest::topic::{Repo, Topic};

fn item(repo: &str, number: u64, title: &str, action: Action) -> Interaction {
    Interaction {
        repo: Repo::new(repo.to_string(), format!("https://api.github.com/repos/{repo}")),
        topic: Topic::new(
            format!("https://github.com/{repo}/issues/{number}"),
            number,
            title.to_string(),
        ),
        action,
    }
}

fn kinds(set: ActionSet) -> Vec<Action> {
    [Action::Code, Action::Write, Action::Review, Action::Comment, Action::Assist]
        .into_iter()
        .filter(|a| set.contains(*a))
        .collect()
}

/// Everything a digest holds, in display order.
fn contents(agg: &Aggregator) -> Vec<(String, String, Vec<(u64, String, String, Vec<Action>)>)> {
    (0..agg.repo_count())
        .map(|i| {
            let topics = (0..agg.topic_count(i))
                .map(|j| {
                    let t = agg.topic(i, j);
                    (t.number, t.url.clone(), t.title.clone(), kinds(agg.actions(i, j)))
                })
                .collect();
            (agg.repo(i).name.clone(), agg.repo(i).url.clone(), topics)
        })
        .collect()
}

#[test]
fn new_digest_is_empty() {
    assert_eq!(Aggregator::new().repo_count(), 0);
}

#[test]
fn folding_a_triple_twice_is_folding_it_once() {
    let mut once = Aggregator::new();
    once.insert(item("acme/widgets", 7, "Crash", Action::Comment));
    let mut twice = Aggregator::new();
    twice.insert(item("acme/widgets", 7, "Crash", Action::Comment));
    twice.insert(item("acme/widgets", 7, "Crash", Action::Comment));
    assert_eq!(contents(&once), contents(&twice));
    assert_eq!(twice.repo_count(), 1);
    assert_eq!(twice.topic_count(0), 1);
    assert_eq!(kinds(twice.actions(0, 0)), vec![Action::Comment]);
    assert_eq!(twice.actions(0, 0).len(), 1);
}

#[test]
fn opened_and_reviewed_pull_request_is_one_topic_with_both_kinds() {
    let mut agg = Aggregator::new();
    agg.insert(item("acme/widgets", 9, "Fix crash", Action::Code));
    agg.insert(item("acme/widgets", 9, "Fix crash", Action::Review));
    assert_eq!(agg.repo_count(), 1);
    assert_eq!(agg.topic_count(0), 1);
    assert_eq!(kinds(agg.actions(0, 0)), vec![Action::Code, Action::Review]);
    let mut reversed = Aggregator::new();
    reversed.insert(item("acme/widgets", 9, "Fix crash", Action::Review));
    reversed.insert(item("acme/widgets", 9, "Fix crash", Action::Code));
    assert_eq!(contents(&agg), contents(&reversed));
}

#[test]
fn repositories_by_name_and_topics_by_number() {
    let mut agg = Aggregator::new();
    agg.insert(item("zeta/app", 3, "c", Action::Write));
    agg.insert(item("acme/widgets", 20, "b", Action::Code));
    agg.insert(item("acme/widgets", 3, "a", Action::Comment));
    agg.insert(item("acme/gadgets", 100, "d", Action::Assist));
    agg.insert(item("Acme/widgets", 1, "e", Action::Review));
    let names: Vec<String> = contents(&agg).into_iter().map(|r| r.0).collect();
    assert_eq!(names, ["Acme/widgets", "acme/gadgets", "acme/widgets", "zeta/app"]);
    let numbers: Vec<u64> = contents(&agg)[2].2.iter().map(|t| t.0).collect();
    assert_eq!(numbers, [3, 20]);
}

#[test]
fn arrival_order_does_not_change_the_digest() {
    let items = || {
        vec![
            item("zeta/app", 3, "c", Action::Write),
            item("acme/widgets", 20, "b", Action::Code),
            item("acme/widgets", 3, "a", Action::Comment),
            item("acme/widgets", 20, "b", Action::Review),
            item("acme/gadgets", 100, "d", Action::Assist),
            item("acme/widgets", 3, "a", Action::Assist),
        ]
    };
    let mut forward = Aggregator::new();
    for i in items() {
        forward.insert(i);
    }
    let mut backward = Aggregator::new();
    for i in items().into_iter().rev() {
        backward.insert(i);
    }
    let mut rotated = Aggregator::new();
    let mut its = items();
    its.rotate_left(3);
    for i in its {
        rotated.insert(i);
    }
    assert_eq!(contents(&forward), contents(&backward));
    assert_eq!(contents(&forward), contents(&rotated));
    assert_eq!(
        contents(&forward),
        vec![
            (
                "acme/gadgets".to_string(),
                "https://api.github.com/repos/acme/gadgets".to_string(),
                vec![(
                    100,
                    "https://github.com/acme/gadgets/issues/100".to_string(),
                    "d".to_string(),
                    vec![Action::Assist]
                )]
            ),
            (
                "acme/widgets".to_string(),
                "https://api.github.com/repos/acme/widgets".to_string(),
                vec![
                    (
                        3,
                        "https://github.com/acme/widgets/issues/3".to_string(),
                        "a".to_string(),
                        vec![Action::Comment, Action::Assist]
                    ),
                    (
                        20,
                        "https://github.com/acme/widgets/issues/20".to_string(),
                        "b".to_string(),
                        vec![Action::Code, Action::Review]
                    ),
                ]
            ),
            (
                "zeta/app".to_string(),
                "https://api.github.com/repos/zeta/app".to_string(),
                vec![(
                    3,
                    "https://github.com/zeta/app/issues/3".to_string(),
                    "c".to_string(),
                    vec![Action::Write]
                )]
            ),
        ]
    );
}

#[test]
fn first_seen_title_and_locators_win() {
    let mut agg = Aggregator::new();
    agg.insert(item("acme/widgets", 7, "Old title", Action::Write));
    let mut later = item("acme/widgets", 7, "New title", Action::Comment);
    later.repo.url = "https://example.org/other".to_string();
    later.topic.url = "https://example.org/topic".to_string();
    agg.insert(later);
    assert_eq!(
        contents(&agg),
        vec![(
            "acme/widgets".to_string(),
            "https://api.github.com/repos/acme/widgets".to_string(),
            vec![(
                7,
                "https://github.com/acme/widgets/issues/7".to_string(),
                "Old title".to_string(),
                vec![Action::Write, Action::Comment]
            )]
        )]
    );
}

#[test]
fn same_number_in_two_repositories_is_two_topics() {
    let mut agg = Aggregator::new();
    agg.insert(item("acme/widgets", 7, "a", Action::Write));
    agg.insert(item("acme/gadgets", 7, "b", Action::Code));
    assert_eq!(agg.repo_count(), 2);
    assert_eq!(agg.topic_count(0), 1);
    assert_eq!(agg.topic_count(1), 1);
    assert_eq!(agg.topic(0, 0).title, "b");
    assert_eq!(agg.topic(1, 0).title, "a");
}

#[test]
fn action_set_has_set_semantics() {
    let mut set = ActionSet::new();
    assert_eq!(set.len(), 0);
    set.insert(Action::Review);
    set.insert(Action::Code);
    set.insert(Action::Review);
    assert_eq!(set.len(), 2);
    assert!(set.contains(Action::Code));
    assert!(set.contains(Action::Review));
    assert!(!set.contains(Action::Assist));
    assert_eq!(ActionSet::single(Action::Write), {
        let mut s = ActionSet::new();
        s.insert(Action::Write);
        s
    });
    let mut out = String::from(">");
    set.push_symbols(&mut out);
    assert_eq!(out, ">\u{1f528}\u{1f575}\u{fe0f}");
}

#[test]
fn symbols_of_the_kinds() {
    assert_eq!(Action::Code.as_str(), "\u{1f528}");
    assert_eq!(Action::Write.as_str(), "\u{270d}\u{fe0f}");
    assert_eq!(Action::Review.as_str(), "\u{1f575}\u{fe0f}");
    assert_eq!(Action::Comment.as_str(), "\u{1f4ac}");
    assert_eq!(Action::Assist.as_str(), "\u{2699}\u{fe0f}");
}

#[test]
fn all_kinds_show_in_priority_order() {
    let mut set = ActionSet::new();
    for a in [Action::Assist, Action::Comment, Action::Review, Action::Write, Action::Code] {
        set.insert(a);
    }
    let mut out = String::new();
    set.push_symbols(&mut out);
    assert_eq!(out, "\u{1f528}\u{270d}\u{fe0f}\u{1f575}\u{fe0f}\u{1f4ac}\u{2699}\u{fe0f}");
}

#[test]
fn repositories_are_told_apart_by_name_alone() {
    let a = Repo::new("acme/widgets".to_string(), "https://api.github.com/repos/acme/widgets".to_string());
    let b = Repo::new("acme/widgets".to_string(), "HTTPS://API.GITHUB.COM/repos/acme/widgets".to_string());
    let c = Repo::new("acme/gadgets".to_string(), "https://api.github.com/repos/acme/widgets".to_string());
    assert!(a == b);
    assert!(a != c);
    assert_eq!(a.key(), "acme/widgets");
}

#[test]
fn topics_are_told_apart_by_number_alone() {
    let a = Topic::new("u1".to_string(), 7, "one title".to_string());
    let b = Topic::new("u2".to_string(), 7, "another title".to_string());
    let c = Topic::new("u1".to_string(), 8, "one title".to_string());
    assert!(a == b);
    assert!(a != c);
    assert_eq!(a.key(), 7);
}
