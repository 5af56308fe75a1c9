//! Raw activity events as the event feed supplies them.

use vstd::prelude::*;
use crate::time::Timestamp;
use crate::topic::{Repo, RepoView};

verus! {

/// What happened to an issue.
#[derive(Clone, Copy, Debug, PartialEq, Eq, Structural)]
pub enum IssueAction {
    Opened,
    Closed,
    Reopened,
    Edited,
    Assigned,
    Unassigned,
    Labeled,
    Unlabeled,
    /// An action this library does not know.
    Other,
}

/// What happened to a comment on an issue or pull request.
#[derive(Clone, Copy, Debug, PartialEq, Eq, Structural)]
pub enum CommentAction {
    Created,
    Edited,
    Deleted,
    /// An action this library does not know.
    Other,
}

/// What happened to a pull request.
#[derive(Clone, Copy, Debug, PartialEq, Eq, Structural)]
pub enum PullRequestAction {
    Opened,
    Closed,
    Reopened,
    Edited,
    Assigned,
    Unassigned,
    ReviewRequested,
    ReviewRequestRemoved,
    Labeled,
    Unlabeled,
    Synchronize,
    /// An action this library does not know.
    Other,
}

/// The view of an optional string.
pub open spec fn opt_text(s: Option<String>) -> Option<Seq<char>> {
    match s {
        Some(s) => Some(s@),
        None => None,
    }
}

/// An issue as an event carries it.
#[derive(Clone, Debug)]
pub struct Issue {
    /// Display locator.
    pub html_url: String,
    pub number: u64,
    pub title: String,
    /// Login of the user who opened the issue.
    pub author: String,
}

/// What an [`Issue`] holds.
pub struct IssueView {
    pub html_url: Seq<char>,
    pub number: u64,
    pub title: Seq<char>,
    pub author: Seq<char>,
}

impl View for Issue {
    type V = IssueView;

    open spec fn view(&self) -> IssueView {
        IssueView {
            html_url: self.html_url@,
            number: self.number,
            title: self.title@,
            author: self.author@,
        }
    }
}

/// A pull request as an event carries it. Events may leave out everything
/// but the number.
#[derive(Clone, Debug)]
pub struct PullRequest {
    /// Display locator.
    pub html_url: Option<String>,
    pub number: u64,
    pub title: Option<String>,
    /// Login of the user who opened the pull request.
    pub author: Option<String>,
}

/// What a [`PullRequest`] holds.
pub struct PullRequestView {
    pub html_url: Option<Seq<char>>,
    pub number: u64,
    pub title: Option<Seq<char>>,
    pub author: Option<Seq<char>>,
}

impl View for PullRequest {
    type V = PullRequestView;

    open spec fn view(&self) -> PullRequestView {
        PullRequestView {
            html_url: opt_text(self.html_url),
            number: self.number,
            title: opt_text(self.title),
            author: opt_text(self.author),
        }
    }
}

/// The part of an event that depends on its kind.
#[allow(inconsistent_fields)]
#[derive(Clone, Debug)]
pub enum Payload {
    /// An issue changed.
    Issues { action: IssueAction, issue: Issue },
    /// A comment on an issue changed; `comment_author` is the login of the
    /// user who wrote the comment.
    IssueComment { action: CommentAction, issue: Issue, comment_author: String },
    /// A pull request changed.
    PullRequest { action: PullRequestAction, pull_request: PullRequest },
    /// A review of a pull request.
    PullRequestReview { pull_request: PullRequest },
    /// A comment within a review of a pull request.
    PullRequestReviewComment { pull_request: PullRequest },
    /// Any other kind of event.
    Other,
}

/// What a [`Payload`] holds.
#[allow(inconsistent_fields)]
pub enum PayloadView {
    Issues { action: IssueAction, issue: IssueView },
    IssueComment { action: CommentAction, issue: IssueView, comment_author: Seq<char> },
    PullRequest { action: PullRequestAction, pull_request: PullRequestView },
    PullRequestReview { pull_request: PullRequestView },
    PullRequestReviewComment { pull_request: PullRequestView },
    Other,
}

impl View for Payload {
    type V = PayloadView;

    open spec fn view(&self) -> PayloadView {
        match *self {
            Payload::Issues { action, issue } => PayloadView::Issues { action, issue: issue@ },
            Payload::IssueComment { action, issue, comment_author } => PayloadView::IssueComment {
                action,
                issue: issue@,
                comment_author: comment_author@,
            },
            Payload::PullRequest { action, pull_request } => PayloadView::PullRequest {
                action,
                pull_request: pull_request@,
            },
            Payload::PullRequestReview { pull_request } => PayloadView::PullRequestReview {
                pull_request: pull_request@,
            },
            Payload::PullRequestReviewComment {
                pull_request,
            } => PayloadView::PullRequestReviewComment { pull_request: pull_request@ },
            Payload::Other => PayloadView::Other,
        }
    }
}

/// One recorded action of a user.
#[derive(Clone, Debug)]
pub struct RawEvent {
    /// Whether the event is visible to everyone.
    pub public: bool,
    /// When the event was created.
    pub created_at: Timestamp,
    /// The repository the event happened in.
    pub repo: Repo,
    /// The kind-specific part, where the feed supplied one.
    pub payload: Option<Payload>,
}

/// What a [`RawEvent`] holds.
pub struct EventView {
    pub public: bool,
    pub created_at: Timestamp,
    pub repo: RepoView,
    pub payload: Option<PayloadView>,
}

impl View for RawEvent {
    type V = EventView;

    open spec fn view(&self) -> EventView {
        EventView {
            public: self.public,
            created_at: self.created_at,
            repo: self.repo@,
            payload: match self.payload {
                Some(p) => Some(p@),
                None => None,
            },
        }
    }
}

} // verus!
