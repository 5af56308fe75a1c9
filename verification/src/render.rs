//! Rendering a digest as text.

use vstd::prelude::*;
use vstd::string::StringExecFns;
use crate::action::symbols;
use crate::aggregate::{
    agree, lemma_merge_commutes, lists_repos, merged, repos_in_order, Aggregator, Digest,
    RepoListing, TopicGroup,
};
use crate::classify::InteractionView;
use crate::error::DigestError;
use crate::event::opt_text;
use crate::topic::topic_text;

verus! {

/// How the entries of the repositories are put together.
#[derive(Clone, Copy, Debug, PartialEq, Eq, Structural)]
pub enum Layout {
    /// One repository on each line; every line ends with a newline.
    Lines,
    /// All repositories on one line, with a semicolon between neighbours.
    Compact,
}

/// One topic of a repository: an EN space, the symbols of the kinds in
/// display priority order, a space, and the topic's text.
pub open spec fn topic_item(g: TopicGroup, sanitize_titles: bool) -> Seq<char> {
    "\u{2000}"@ + symbols(g.actions) + " "@ + topic_text(g.topic, sanitize_titles)
}

/// The topics of a repository, with a comma between neighbours.
pub open spec fn topic_items(topics: Seq<TopicGroup>, sanitize_titles: bool) -> Seq<char>
    decreases topics.len(),
{
    if topics.len() == 0 {
        Seq::empty()
    } else if topics.len() == 1 {
        topic_item(topics[0], sanitize_titles)
    } else {
        topic_items(topics.drop_last(), sanitize_titles) + ","@ + topic_item(
            topics.last(),
            sanitize_titles,
        )
    }
}

/// The entry of one repository: its name linked to `html_url`, then its
/// topics.
pub open spec fn repo_entry(r: RepoListing, html_url: Seq<char>, sanitize_titles: bool) -> Seq<char> {
    "- *["@ + r.repo.name + "]("@ + html_url + "):*"@ + topic_items(r.topics, sanitize_titles)
}

/// The entry of one repository, given the display locator that was resolved
/// for it, if any.
pub open spec fn rendered_repo(
    r: RepoListing,
    html_url: Option<Seq<char>>,
    sanitize_titles: bool,
) -> Result<Seq<char>, DigestError> {
    match html_url {
        Some(url) => Ok(repo_entry(r, url, sanitize_titles)),
        None => Err(DigestError::MissingRepoUrl),
    }
}

/// The entries of the repositories `l`, put together as `layout` says.
/// `html_urls` holds, for each repository in order, the display locator
/// that was resolved for it.
pub open spec fn rendered_listing(
    l: Seq<RepoListing>,
    html_urls: Seq<Option<Seq<char>>>,
    sanitize_titles: bool,
    layout: Layout,
) -> Result<Seq<char>, DigestError>
    recommends
        html_urls.len() == l.len(),
    decreases l.len(),
{
    if l.len() == 0 {
        Ok(Seq::empty())
    } else {
        match rendered_listing(l.drop_last(), html_urls.drop_last(), sanitize_titles, layout) {
            Err(e) => Err(e),
            Ok(head) => match rendered_repo(l.last(), html_urls.last(), sanitize_titles) {
                Err(e) => Err(e),
                Ok(entry) => Ok(
                    match layout {
                        Layout::Lines => head + entry + "\n"@,
                        Layout::Compact => if l.len() == 1 {
                            entry
                        } else {
                            head + ";"@ + entry
                        },
                    },
                ),
            },
        }
    }
}

/// The text of a digest: its repositories by ascending name, each with its
/// topics by ascending number.
pub open spec fn rendered(
    d: Digest,
    html_urls: Seq<Option<Seq<char>>>,
    sanitize_titles: bool,
    layout: Layout,
) -> Result<Seq<char>, DigestError>
    recommends
        html_urls.len() == repos_in_order(d).len(),
{
    rendered_listing(repos_in_order(d), html_urls, sanitize_titles, layout)
}

/// What a list of optional strings holds.
pub open spec fn opt_texts(v: Seq<Option<String>>) -> Seq<Option<Seq<char>>> {
    Seq::new(v.len(), |i: int| opt_text(v[i]))
}

/// The view of a rendering's result.
pub open spec fn text_view(r: Result<String, DigestError>) -> Result<Seq<char>, DigestError> {
    match r {
        Ok(s) => Ok(s@),
        Err(e) => Err(e),
    }
}

/// An error among the first repositories is the error of the whole
/// rendering.
proof fn lemma_rendered_error_stays(
    l: Seq<RepoListing>,
    html_urls: Seq<Option<Seq<char>>>,
    k: int,
    sanitize_titles: bool,
    layout: Layout,
)
    requires
        html_urls.len() == l.len(),
        0 <= k <= l.len(),
        rendered_listing(l.take(k), html_urls.take(k), sanitize_titles, layout) is Err,
    ensures
        rendered_listing(l, html_urls, sanitize_titles, layout) == rendered_listing(
            l.take(k),
            html_urls.take(k),
            sanitize_titles,
            layout,
        ),
    decreases l.len(),
{
    if k < l.len() {
        assert(l.drop_last().take(k) =~= l.take(k));
        assert(html_urls.drop_last().take(k) =~= html_urls.take(k));
        lemma_rendered_error_stays(
            l.drop_last(),
            html_urls.drop_last(),
            k,
            sanitize_titles,
            layout,
        );
    } else {
        assert(l.take(k) =~= l);
        assert(html_urls.take(k) =~= html_urls);
    }
}

/// Two aggregators that hold the same digest render to the same text,
/// whatever the order in which interactions were folded into them, and the
/// text goes through the repositories by ascending name and through the
/// topics of each by ascending number.
pub proof fn lemma_render_deterministic(
    a: Aggregator,
    b: Aggregator,
    html_urls: Seq<Option<Seq<char>>>,
    sanitize_titles: bool,
    layout: Layout,
)
    requires
        a.wf(),
        b.wf(),
        a@ == b@,
    ensures
        a.listing() == b.listing(),
        lists_repos(repos_in_order(a@), a@),
        rendered(a@, html_urls, sanitize_titles, layout) == rendered(
            b@,
            html_urls,
            sanitize_titles,
            layout,
        ),
{
    a.lemma_listing();
    b.lemma_listing();
}

/// Folding two interactions in either order gives the same text, as long
/// as they agree on what rides along with the keys.
pub proof fn lemma_render_ignores_arrival_order(
    d: Digest,
    i: InteractionView,
    j: InteractionView,
    html_urls: Seq<Option<Seq<char>>>,
    sanitize_titles: bool,
    layout: Layout,
)
    requires
        agree(i, j),
    ensures
        rendered(merged(merged(d, i), j), html_urls, sanitize_titles, layout) == rendered(
            merged(merged(d, j), i),
            html_urls,
            sanitize_titles,
            layout,
        ),
{
    lemma_merge_commutes(d, i, j);
}

impl Aggregator {
    /// Appends the topics of the repository at place `i` to `out`.
    fn push_topics(&self, out: &mut String, i: usize, sanitize_titles: bool)
        requires
            self.wf(),
            i < repos_in_order(self@).len(),
        ensures
            final(out)@ == old(out)@ + topic_items(
                repos_in_order(self@)[i as int].topics,
                sanitize_titles,
            ),
    {
        let ghost topics = repos_in_order(self@)[i as int].topics;
        let n = self.topic_count(i);
        let mut j: usize = 0;
        while j < n
            invariant
                self.wf(),
                i < repos_in_order(self@).len(),
                topics == repos_in_order(self@)[i as int].topics,
                n == topics.len(),
                j <= n,
                out@ == old(out)@ + topic_items(topics.take(j as int), sanitize_titles),
            decreases n - j,
        {
            let ghost sofar = out@;
            if j > 0 {
                out.append(",");
            }
            out.append("\u{2000}");
            self.actions(i, j).push_symbols(out);
            out.append(" ");
            self.topic(i, j).push_text(out, sanitize_titles);
            proof {
                let upto = topics.take(j as int + 1);
                assert(upto.drop_last() =~= topics.take(j as int));
                assert(upto.last() == topics[j as int]);
                if j == 0 {
                    assert(upto[0] == topics[0]);
                    assert(out@ =~= old(out)@ + topic_item(topics[0], sanitize_titles));
                } else {
                    assert(out@ =~= sofar + ","@ + topic_item(topics[j as int], sanitize_titles));
                    assert(out@ =~= old(out)@ + topic_items(upto, sanitize_titles));
                }
            }
            j = j + 1;
        }
        proof {
            assert(topics.take(n as int) =~= topics);
        }
    }

    /// Renders the entry of the repository at place `i` of the display
    /// order. `html_url` is the display locator that was resolved for it;
    /// without one the repository cannot be shown.
    pub fn render_repo(&self, i: usize, html_url: Option<&str>, sanitize_titles: bool) -> (r: Result<
        String,
        DigestError,
    >)
        requires
            self.wf(),
            i < repos_in_order(self@).len(),
        ensures
            text_view(r) == rendered_repo(
                repos_in_order(self@)[i as int],
                match html_url {
                    Some(u) => Some(u@),
                    None => None,
                },
                sanitize_titles,
            ),
    {
        let url = match html_url {
            Some(url) => url,
            None => {
                return Err(DigestError::MissingRepoUrl);
            },
        };
        let mut out = String::new();
        out.append("- *[");
        out.append(self.repo(i).key());
        out.append("](");
        out.append(url);
        out.append("):*");
        self.push_topics(&mut out, i, sanitize_titles);
        assert(out@ =~= repo_entry(repos_in_order(self@)[i as int], url@, sanitize_titles));
        Ok(out)
    }

    /// Renders the whole digest. `html_urls` holds, for each repository in
    /// display order, the display locator that was resolved for it.
    pub fn render(&self, html_urls: &Vec<Option<String>>, sanitize_titles: bool, layout: Layout) -> (r:
        Result<String, DigestError>)
        requires
            self.wf(),
            html_urls@.len() == repos_in_order(self@).len(),
        ensures
            text_view(r) == rendered(self@, opt_texts(html_urls@), sanitize_titles, layout),
    {
        let ghost l = repos_in_order(self@);
        let ghost urls = opt_texts(html_urls@);
        let n = self.repo_count();
        let mut out = String::new();
        let mut i: usize = 0;
        while i < n
            invariant
                self.wf(),
                l == repos_in_order(self@),
                urls == opt_texts(html_urls@),
                n == l.len(),
                n == urls.len(),
                i <= n,
                rendered_listing(l.take(i as int), urls.take(i as int), sanitize_titles, layout) == Ok::<
                    Seq<char>,
                    DigestError,
                >(out@),
            decreases n - i,
        {
            let ghost head = out@;
            proof {
                assert(l.take(i as int + 1).drop_last() =~= l.take(i as int));
                assert(urls.take(i as int + 1).drop_last() =~= urls.take(i as int));
                assert(l.take(i as int + 1).last() == l[i as int]);
                assert(urls.take(i as int + 1).last() == opt_text(html_urls@[i as int]));
            }
            let url = match &html_urls[i] {
                Some(u) => Some(u.as_str()),
                None => None,
            };
            match self.render_repo(i, url, sanitize_titles) {
                Err(e) => {
                    proof {
                        lemma_rendered_error_stays(l, urls, i as int + 1, sanitize_titles, layout);
                    }
                    return Err(e);
                },
                Ok(entry) => {
                    match layout {
                        Layout::Lines => {
                            out.append(entry.as_str());
                            out.append("\n");
                        },
                        Layout::Compact => {
                            if i > 0 {
                                out.append(";");
                            }
                            out.append(entry.as_str());
                        },
                    }
                    proof {
                        if i == 0 {
                            assert(head =~= Seq::<char>::empty());
                            assert(out@ =~= match layout {
                                Layout::Lines => head + entry@ + "\n"@,
                                Layout::Compact => entry@,
                            });
                        }
                    }
                },
            }
            i = i + 1;
        }
        proof {
            assert(l.take(n as int) =~= l);
            assert(urls.take(n as int) =~= urls);
        }
        Ok(out)
    }
}

} // verus!
