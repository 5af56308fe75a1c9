//! Mapping one raw event to the interaction it records, if any.

use vstd::prelude::*;
use crate::action::Action;
use crate::config::{admits, Config, ConfigView};
use crate::error::DigestError;
use crate::event::{
    CommentAction, EventView, IssueAction, Payload, PayloadView, PullRequest, PullRequestAction,
    RawEvent,
};
use crate::text::same_text;
use crate::time::Timestamp;
use crate::topic::{
    topic_of_issue, topic_of_pull_request, Repo, RepoView, Topic, TopicView,
};

verus! {

/// One recorded interaction: where, on what, and of which kind.
#[derive(Clone, Debug)]
pub struct Interaction {
    pub repo: Repo,
    pub topic: Topic,
    pub action: Action,
}

/// What an [`Interaction`] holds.
pub struct InteractionView {
    pub repo: RepoView,
    pub topic: TopicView,
    pub action: Action,
}

impl View for Interaction {
    type V = InteractionView;

    open spec fn view(&self) -> InteractionView {
        InteractionView { repo: self.repo@, topic: self.topic@, action: self.action }
    }
}

/// The kind of an edit: a comment where the user edits what is their own,
/// assistance otherwise.
pub open spec fn edit_kind(own: bool) -> Action {
    if own {
        Action::Comment
    } else {
        Action::Assist
    }
}

/// The kind an issue event counts as; `own` says whether the digest's user
/// opened the issue.
pub open spec fn issue_kind(action: IssueAction, own: bool) -> Option<Action> {
    match action {
        IssueAction::Opened => Some(Action::Write),
        IssueAction::Closed
        | IssueAction::Reopened
        | IssueAction::Assigned
        | IssueAction::Unassigned
        | IssueAction::Labeled
        | IssueAction::Unlabeled => Some(Action::Assist),
        IssueAction::Edited => Some(edit_kind(own)),
        IssueAction::Other => None,
    }
}

/// The kind an issue-comment event counts as; `own` says whether the
/// digest's user wrote the comment.
pub open spec fn comment_kind(action: CommentAction, own: bool) -> Option<Action> {
    match action {
        CommentAction::Created => Some(Action::Comment),
        CommentAction::Edited => Some(edit_kind(own)),
        CommentAction::Deleted => Some(Action::Assist),
        CommentAction::Other => None,
    }
}

/// The kind a pull-request event counts as; `own` says whether the digest's
/// user opened the pull request.
pub open spec fn pull_request_kind(action: PullRequestAction, own: bool) -> Option<Action> {
    match action {
        PullRequestAction::Opened => Some(Action::Code),
        PullRequestAction::Closed
        | PullRequestAction::Reopened
        | PullRequestAction::Assigned
        | PullRequestAction::Unassigned
        | PullRequestAction::ReviewRequested
        | PullRequestAction::ReviewRequestRemoved
        | PullRequestAction::Labeled
        | PullRequestAction::Unlabeled
        | PullRequestAction::Synchronize => Some(Action::Assist),
        PullRequestAction::Edited => Some(edit_kind(own)),
        PullRequestAction::Other => None,
    }
}

/// The kind a payload counts as for the user `username`, or `None` where the
/// payload is of no recognized kind or action.
pub open spec fn payload_kind(p: PayloadView, username: Seq<char>) -> Option<Action> {
    match p {
        PayloadView::Issues { action, issue } => issue_kind(action, issue.author == username),
        PayloadView::IssueComment { action, comment_author, .. } => comment_kind(
            action,
            comment_author == username,
        ),
        PayloadView::PullRequest { action, pull_request } => pull_request_kind(
            action,
            pull_request.author == Some(username),
        ),
        PayloadView::PullRequestReview { .. } => Some(Action::Review),
        PayloadView::PullRequestReviewComment { .. } => Some(Action::Review),
        PayloadView::Other => None,
    }
}

/// The topic a payload is about. Pull requests must carry a display locator
/// and a title.
pub open spec fn payload_topic(p: PayloadView) -> Result<Option<TopicView>, DigestError> {
    match p {
        PayloadView::Issues { issue, .. } => Ok(Some(topic_of_issue(issue))),
        PayloadView::IssueComment { issue, .. } => Ok(Some(topic_of_issue(issue))),
        PayloadView::PullRequest { pull_request, .. }
        | PayloadView::PullRequestReview { pull_request }
        | PayloadView::PullRequestReviewComment { pull_request } => match topic_of_pull_request(
            pull_request,
        ) {
            Ok(t) => Ok(Some(t)),
            Err(e) => Err(e),
        },
        PayloadView::Other => Ok(None),
    }
}

/// Whether an interaction of kind `action` is recorded under `cfg`.
pub open spec fn recorded(cfg: ConfigView, action: Action) -> bool {
    action != Action::Assist || cfg.track_assist
}

/// What one event contributes to the digest of `username` with the given
/// cutoff.
///
/// An event contributes nothing where it is private, where its repository
/// does not pass the owner filter, where it is older than the cutoff, where
/// it has no payload of a recognized kind and action, or where its kind is
/// not recorded. These are looked at in this order, and only then is the
/// topic built: a pull request without display locator or title is an error
/// only on an event that passed them all.
pub open spec fn classification(
    ev: EventView,
    cfg: ConfigView,
    username: Seq<char>,
    cutoff: Timestamp,
) -> Result<Option<InteractionView>, DigestError> {
    if !ev.public || !admits(cfg, ev.repo.name) || ev.created_at.precedes(cutoff) {
        Ok(None)
    } else {
        match ev.payload {
            None => Ok(None),
            Some(p) => match payload_kind(p, username) {
                None => Ok(None),
                Some(action) => if !recorded(cfg, action) {
                    Ok(None)
                } else {
                    match payload_topic(p) {
                        Err(e) => Err(e),
                        Ok(None) => Ok(None),
                        Ok(Some(topic)) => Ok(Some(InteractionView { repo: ev.repo, topic, action })),
                    }
                },
            },
        }
    }
}

/// The view of a classifier's result.
pub open spec fn outcome_view(r: Result<Option<Interaction>, DigestError>) -> Result<
    Option<InteractionView>,
    DigestError,
> {
    match r {
        Ok(Some(i)) => Ok(Some(i@)),
        Ok(None) => Ok(None),
        Err(e) => Err(e),
    }
}

fn kind_of_edit(own: bool) -> (a: Action)
    ensures
        a == edit_kind(own),
{
    if own {
        Action::Comment
    } else {
        Action::Assist
    }
}

fn kind_of_issue_event(action: IssueAction, author: &str, username: &str) -> (k: Option<Action>)
    ensures
        k == issue_kind(action, author@ == username@),
{
    match action {
        IssueAction::Opened => Some(Action::Write),
        IssueAction::Closed
        | IssueAction::Reopened
        | IssueAction::Assigned
        | IssueAction::Unassigned
        | IssueAction::Labeled
        | IssueAction::Unlabeled => Some(Action::Assist),
        IssueAction::Edited => Some(kind_of_edit(same_text(author, username))),
        IssueAction::Other => None,
    }
}

fn kind_of_comment_event(action: CommentAction, author: &str, username: &str) -> (k: Option<
    Action,
>)
    ensures
        k == comment_kind(action, author@ == username@),
{
    match action {
        CommentAction::Created => Some(Action::Comment),
        CommentAction::Edited => Some(kind_of_edit(same_text(author, username))),
        CommentAction::Deleted => Some(Action::Assist),
        CommentAction::Other => None,
    }
}

fn kind_of_pull_request_event(action: PullRequestAction, pr: &PullRequest, username: &str) -> (k:
    Option<Action>)
    ensures
        k == pull_request_kind(action, pr@.author == Some(username@)),
{
    match action {
        PullRequestAction::Opened => Some(Action::Code),
        PullRequestAction::Closed
        | PullRequestAction::Reopened
        | PullRequestAction::Assigned
        | PullRequestAction::Unassigned
        | PullRequestAction::ReviewRequested
        | PullRequestAction::ReviewRequestRemoved
        | PullRequestAction::Labeled
        | PullRequestAction::Unlabeled
        | PullRequestAction::Synchronize => Some(Action::Assist),
        PullRequestAction::Edited => {
            let own = match &pr.author {
                Some(author) => same_text(author.as_str(), username),
                None => false,
            };
            Some(kind_of_edit(own))
        },
        PullRequestAction::Other => None,
    }
}

/// The kind a payload counts as for the user `username`.
pub fn kind_of(payload: &Payload, username: &str) -> (k: Option<Action>)
    ensures
        k == payload_kind(payload@, username@),
{
    match payload {
        Payload::Issues { action, issue } => kind_of_issue_event(
            *action,
            issue.author.as_str(),
            username,
        ),
        Payload::IssueComment { action, comment_author, .. } => kind_of_comment_event(
            *action,
            comment_author.as_str(),
            username,
        ),
        Payload::PullRequest { action, pull_request } => kind_of_pull_request_event(
            *action,
            pull_request,
            username,
        ),
        Payload::PullRequestReview { .. } => Some(Action::Review),
        Payload::PullRequestReviewComment { .. } => Some(Action::Review),
        Payload::Other => None,
    }
}

/// The topic a payload is about.
pub fn topic_of(payload: Payload) -> (r: Result<Option<Topic>, DigestError>)
    ensures
        match r {
            Ok(Some(t)) => payload_topic(payload@) == Ok::<Option<TopicView>, DigestError>(
                Some(t@),
            ),
            Ok(None) => payload_topic(payload@) == Ok::<Option<TopicView>, DigestError>(None),
            Err(e) => payload_topic(payload@) == Err::<Option<TopicView>, DigestError>(e),
        },
{
    match payload {
        Payload::Issues { issue, .. } => Ok(Some(Topic::from_issue(issue))),
        Payload::IssueComment { issue, .. } => Ok(Some(Topic::from_issue(issue))),
        Payload::PullRequest { pull_request, .. } => match Topic::from_pull_request(pull_request) {
            Ok(t) => Ok(Some(t)),
            Err(e) => Err(e),
        },
        Payload::PullRequestReview { pull_request } => match Topic::from_pull_request(
            pull_request,
        ) {
            Ok(t) => Ok(Some(t)),
            Err(e) => Err(e),
        },
        Payload::PullRequestReviewComment { pull_request } => match Topic::from_pull_request(
            pull_request,
        ) {
            Ok(t) => Ok(Some(t)),
            Err(e) => Err(e),
        },
        Payload::Other => Ok(None),
    }
}

/// Classifies one event for the digest of `username`: the interaction it
/// records, `None` where it is skipped, or the error that aborts the run.
pub fn classify(event: RawEvent, cfg: &Config, username: &str, cutoff: &Timestamp) -> (r: Result<
    Option<Interaction>,
    DigestError,
>)
    ensures
        outcome_view(r) == classification(event@, cfg@, username@, *cutoff),
{
    if !event.public {
        return Ok(None);
    }
    if !cfg.admits_repo(event.repo.key()) {
        return Ok(None);
    }
    if event.created_at.is_before(cutoff) {
        return Ok(None);
    }
    let payload = match event.payload {
        Some(payload) => payload,
        None => {
            return Ok(None);
        },
    };
    let action = match kind_of(&payload, username) {
        Some(action) => action,
        None => {
            return Ok(None);
        },
    };
    if action == Action::Assist && !cfg.track_assist {
        return Ok(None);
    }
    match topic_of(payload) {
        Err(e) => Err(e),
        Ok(None) => Ok(None),
        Ok(Some(topic)) => Ok(Some(Interaction { repo: event.repo, topic, action })),
    }
}

} // verus!
