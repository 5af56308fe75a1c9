//! Repositories and topics, the two levels a digest is grouped by.

use vstd::prelude::*;
use vstd::string::StringExecFns;
use crate::error::{DigestError, PullRequestField};
use crate::event::{Issue, IssueView, PullRequest, PullRequestView};
use crate::sanitize::{sanitize, sanitized};
use crate::text::{decimal, push_decimal};

verus! {

/// A repository as events name it.
///
/// A repository is identified by its name alone; the locator rides along.
#[derive(Clone, Debug)]
pub struct Repo {
    /// `owner/repo`.
    pub name: String,
    /// Locator of the repository's metadata.
    pub url: String,
}

/// What a [`Repo`] holds.
pub struct RepoView {
    pub name: Seq<char>,
    pub url: Seq<char>,
}

impl View for Repo {
    type V = RepoView;

    open spec fn view(&self) -> RepoView {
        RepoView { name: self.name@, url: self.url@ }
    }
}

impl PartialEq for Repo {
    /// Two repositories are the same where their names are.
    fn eq(&self, other: &Repo) -> (r: bool) {
        self.name == other.name
    }
}

impl Eq for Repo {

}

impl vstd::std_specs::cmp::PartialEqSpecImpl for Repo {
    open spec fn obeys_eq_spec() -> bool {
        true
    }

    open spec fn eq_spec(&self, other: &Repo) -> bool {
        self.name@ == other.name@
    }
}

impl Repo {
    pub fn new(name: String, url: String) -> (r: Repo)
        ensures
            r@ == (RepoView { name: name@, url: url@ }),
    {
        Repo { name, url }
    }

    /// The key by which repositories are told apart and ordered.
    pub fn key(&self) -> (k: &str)
        ensures
            k@ == self@.name,
    {
        self.name.as_str()
    }
}

/// An issue or a pull request.
///
/// Within a repository a topic is identified by its number alone; locator
/// and title ride along.
#[derive(Clone, Debug)]
pub struct Topic {
    /// Display locator.
    pub url: String,
    /// Number, unique within the repository.
    pub number: u64,
    /// Free-text title.
    pub title: String,
}

/// What a [`Topic`] holds.
pub struct TopicView {
    pub url: Seq<char>,
    pub number: u64,
    pub title: Seq<char>,
}

impl View for Topic {
    type V = TopicView;

    open spec fn view(&self) -> TopicView {
        TopicView { url: self.url@, number: self.number, title: self.title@ }
    }
}

impl PartialEq for Topic {
    /// Two topics of one repository are the same where their numbers are.
    fn eq(&self, other: &Topic) -> (r: bool) {
        self.number == other.number
    }
}

impl Eq for Topic {

}

impl vstd::std_specs::cmp::PartialEqSpecImpl for Topic {
    open spec fn obeys_eq_spec() -> bool {
        true
    }

    open spec fn eq_spec(&self, other: &Topic) -> bool {
        self.number == other.number
    }
}

/// The topic an issue stands for.
pub open spec fn topic_of_issue(issue: IssueView) -> TopicView {
    TopicView { url: issue.html_url, number: issue.number, title: issue.title }
}

/// The topic a pull request stands for. The display locator is looked at
/// first, then the title.
pub open spec fn topic_of_pull_request(pr: PullRequestView) -> Result<TopicView, DigestError> {
    match (pr.html_url, pr.title) {
        (None, _) => Err(DigestError::MissingField(PullRequestField::HtmlUrl)),
        (Some(_), None) => Err(DigestError::MissingField(PullRequestField::Title)),
        (Some(url), Some(title)) => Ok(TopicView { url, number: pr.number, title }),
    }
}

/// The title as it is displayed.
pub open spec fn shown_title(title: Seq<char>, sanitize_titles: bool) -> Seq<char> {
    if sanitize_titles {
        sanitized(title)
    } else {
        title
    }
}

/// The text that stands for a topic in a digest: number, locator and title.
pub open spec fn topic_text(t: TopicView, sanitize_titles: bool) -> Seq<char> {
    "[#"@ + decimal(t.number as nat) + "]("@ + t.url + ") (_"@ + shown_title(
        t.title,
        sanitize_titles,
    ) + "_)"@
}

impl Topic {
    pub fn new(url: String, number: u64, title: String) -> (t: Topic)
        ensures
            t@ == (TopicView { url: url@, number, title: title@ }),
    {
        Topic { url, number, title }
    }

    /// The key by which the topics of one repository are told apart and
    /// ordered.
    pub fn key(&self) -> (k: u64)
        ensures
            k == self@.number,
    {
        self.number
    }

    /// The topic of an issue.
    pub fn from_issue(issue: Issue) -> (t: Topic)
        ensures
            t@ == topic_of_issue(issue@),
    {
        Topic { url: issue.html_url, number: issue.number, title: issue.title }
    }

    /// The topic of a pull request, which must carry a display locator and a
    /// title.
    pub fn from_pull_request(pr: PullRequest) -> (r: Result<Topic, DigestError>)
        ensures
            match r {
                Ok(t) => topic_of_pull_request(pr@) == Ok::<TopicView, DigestError>(t@),
                Err(e) => topic_of_pull_request(pr@) == Err::<TopicView, DigestError>(e),
            },
    {
        let url = match pr.html_url {
            Some(url) => url,
            None => {
                return Err(DigestError::MissingField(PullRequestField::HtmlUrl));
            },
        };
        let title = match pr.title {
            Some(title) => title,
            None => {
                return Err(DigestError::MissingField(PullRequestField::Title));
            },
        };
        Ok(Topic { url, number: pr.number, title })
    }

    /// Appends the topic's text to `out`.
    pub fn push_text(&self, out: &mut String, sanitize_titles: bool)
        ensures
            final(out)@ == old(out)@ + topic_text(self@, sanitize_titles),
    {
        out.append("[#");
        push_decimal(out, self.number);
        out.append("](");
        out.append(self.url.as_str());
        out.append(") (_");
        if sanitize_titles {
            let clean = sanitize(self.title.as_str());
            out.append(clean.as_str());
        } else {
            out.append(self.title.as_str());
        }
        out.append("_)");
        assert(out@ =~= old(out)@ + topic_text(self@, sanitize_titles));
    }

    /// The topic's text.
    pub fn text(&self, sanitize_titles: bool) -> (s: String)
        ensures
            s@ == topic_text(self@, sanitize_titles),
    {
        let mut out = String::new();
        self.push_text(&mut out, sanitize_titles);
        assert(out@ =~= topic_text(self@, sanitize_titles));
        out
    }
}

} // verus!
