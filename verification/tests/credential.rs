use activity_digest::credential::{
    judge_grant, judge_lookup, scope_is_required, Reuse, StoreLookup, StoredGrant,
};

fn grant(scope: &[&str], expires_in: Option<usize>) -> StoredGrant {
    StoredGrant { scope: scope.iter().map(|s| s.to_string()).collect(), expires_in }
}

#[test]
fn lookup_by_number_of_secrets() {
    assert_eq!(judge_lookup(0), StoreLookup::Empty);
    assert_eq!(judge_lookup(1), StoreLookup::Single);
    assert_eq!(judge_lookup(2), StoreLookup::Ambiguous);
    assert_eq!(judge_lookup(usize::MAX), StoreLookup::Ambiguous);
}

#[test]
fn grant_with_required_scope_and_no_expiry_is_reused() {
    assert_eq!(judge_grant(Some(&grant(&[""], None))), Reuse::Accept);
}

#[test]
fn undecodable_secret_is_not_reused() {
    assert_eq!(judge_grant(None), Reuse::FormatChanged);
}

#[test]
fn grant_for_other_scopes_is_not_reused() {
    assert_eq!(judge_grant(Some(&grant(&["repo"], None))), Reuse::ScopeChanged);
    assert_eq!(judge_grant(Some(&grant(&[], None))), Reuse::ScopeChanged);
    assert_eq!(judge_grant(Some(&grant(&["", ""], None))), Reuse::ScopeChanged);
    assert_eq!(judge_grant(Some(&grant(&["repo"], Some(10)))), Reuse::ScopeChanged);
}

#[test]
fn grant_with_expiry_is_not_reused() {
    assert_eq!(judge_grant(Some(&grant(&[""], Some(28_800)))), Reuse::MayHaveExpired);
    assert_eq!(judge_grant(Some(&grant(&[""], Some(0)))), Reuse::MayHaveExpired);
}

#[test]
fn required_scope_is_the_empty_scope_alone() {
    assert!(scope_is_required(&vec![String::new()]));
    assert!(!scope_is_required(&vec![]));
    assert!(!scope_is_required(&vec!["user".to_string()]));
    assert!(!scope_is_required(&vec![String::new(), String::new()]));
}
