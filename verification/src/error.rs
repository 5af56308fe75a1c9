//! The ways a digest run can fail.

use vstd::prelude::*;
use vstd::string::StringExecFns;
use crate::text::{decimal, push_decimal};
use crate::time::{Window, NANOS_PER_SEC};

verus! {

/// A field that a pull request must carry to be shown as a topic.
#[derive(Clone, Copy, Debug, PartialEq, Eq, Structural)]
pub enum PullRequestField {
    /// The locator under which the pull request is displayed.
    HtmlUrl,
    /// The title.
    Title,
}

/// A fatal condition. Any of them aborts the whole run; no partial digest is
/// produced.
#[derive(Clone, Copy, Debug, PartialEq, Eq, Structural)]
pub enum DigestError {
    /// None of the fetched events is older than the cutoff, so the page of
    /// `n_events` events may not reach back over the whole `window`.
    WindowTooNarrow { n_events: u64, window: Window },
    /// A pull request lacks a field without which it cannot be rendered.
    MissingField(PullRequestField),
    /// The metadata resolved for a repository lacks a display locator.
    MissingRepoUrl,
}

/// The text that `humantime` prints for a duration of `secs` seconds and
/// `nanos` nanoseconds.
pub uninterp spec fn humantime_text(secs: u64, nanos: u32) -> Seq<char>;

/// Formats a duration with `humantime::format_duration`.
///
/// The formatter reads the duration's whole seconds and its nanoseconds
/// below a second and nothing else, so its text is a function of the two.
/// With `nanos` below one second `Duration::new` carries nothing over and
/// cannot overflow.
#[verifier::external_body]
fn format_window(secs: u64, nanos: u32) -> (s: String)
    requires
        nanos < NANOS_PER_SEC,
    ensures
        s@ == humantime_text(secs, nanos),
{
    humantime::format_duration(std::time::Duration::new(secs, nanos)).to_string()
}

/// What is said where a page of `n_events` events does not reach back over
/// the time period that reads `period`.
pub open spec fn window_text(n_events: u64, period: Seq<char>) -> Seq<char> {
    "number of events ("@ + decimal(n_events as nat) + ") to low for give time period ("@ + period
        + ")"@
}

/// What an error says to the user.
pub open spec fn message_text(e: DigestError) -> Seq<char> {
    match e {
        DigestError::WindowTooNarrow { n_events, window } => window_text(
            n_events,
            humantime_text(window.spec_secs(), window.spec_nanos()),
        ),
        DigestError::MissingField(PullRequestField::HtmlUrl) => "convert PR data: HTML URL missing"@,
        DigestError::MissingField(PullRequestField::Title) => "convert PR data: PR title missing"@,
        DigestError::MissingRepoUrl => "no html URL for repo"@,
    }
}

/// The message for a page of `n_events` events that does not reach back
/// over the time period that reads `period`.
pub fn window_message(n_events: u64, period: &str) -> (s: String)
    ensures
        s@ == window_text(n_events, period@),
{
    let mut out = String::new();
    out.append("number of events (");
    push_decimal(&mut out, n_events);
    out.append(") to low for give time period (");
    out.append(period);
    out.append(")");
    assert(out@ =~= window_text(n_events, period@));
    out
}

impl DigestError {
    /// The message shown to the user. For a window that is too narrow it
    /// names the number of events that were asked for and the window.
    pub fn message(&self) -> (s: String)
        ensures
            s@ == message_text(*self),
    {
        match self {
            DigestError::WindowTooNarrow { n_events, window } => {
                let period = format_window(window.secs(), window.nanos());
                window_message(*n_events, period.as_str())
            },
            DigestError::MissingField(PullRequestField::HtmlUrl) => String::from_str(
                "convert PR data: HTML URL missing",
            ),
            DigestError::MissingField(PullRequestField::Title) => String::from_str(
                "convert PR data: PR title missing",
            ),
            DigestError::MissingRepoUrl => String::from_str("no html URL for repo"),
        }
    }
}

} // verus!
