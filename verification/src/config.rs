//! What a digest run is configured to include and how titles are shown.

use vstd::prelude::*;
use crate::text::{starts_with_org, under_org};

verus! {

/// Options of a digest run.
#[derive(Clone, Debug)]
pub struct Config {
    /// Owners whose repositories are included. Absent or empty: no
    /// restriction.
    pub include_orgs: Option<Vec<String>>,
    /// Owners whose repositories are left out. An owner listed here is left
    /// out even where it is also included.
    pub exclude_orgs: Option<Vec<String>>,
    /// Whether interactions of kind `Assist` are recorded. Where they are
    /// not, an event that would count as `Assist` is skipped.
    pub track_assist: bool,
    /// Whether titles are made display-safe when they are rendered.
    pub sanitize_titles: bool,
}

/// What a [`Config`] holds.
pub struct ConfigView {
    pub include_orgs: Option<Seq<Seq<char>>>,
    pub exclude_orgs: Option<Seq<Seq<char>>>,
    pub track_assist: bool,
    pub sanitize_titles: bool,
}

/// The texts of a list of strings.
pub open spec fn texts(v: Seq<String>) -> Seq<Seq<char>> {
    Seq::new(v.len(), |i: int| v[i]@)
}

/// The texts of an optional list of strings.
pub open spec fn opt_texts(v: Option<Vec<String>>) -> Option<Seq<Seq<char>>> {
    match v {
        Some(v) => Some(texts(v@)),
        None => None,
    }
}

impl View for Config {
    type V = ConfigView;

    open spec fn view(&self) -> ConfigView {
        ConfigView {
            include_orgs: opt_texts(self.include_orgs),
            exclude_orgs: opt_texts(self.exclude_orgs),
            track_assist: self.track_assist,
            sanitize_titles: self.sanitize_titles,
        }
    }
}

/// Whether the repository `name` lies under one of the owners in `orgs`.
pub open spec fn lists(orgs: Seq<Seq<char>>, name: Seq<char>) -> bool {
    exists|i: int| 0 <= i < orgs.len() && under_org(name, #[trigger] orgs[i])
}

/// Whether the include list lets the repository `name` pass.
pub open spec fn included(cfg: ConfigView, name: Seq<char>) -> bool {
    match cfg.include_orgs {
        Some(orgs) => orgs.len() == 0 || lists(orgs, name),
        None => true,
    }
}

/// Whether the exclude list rejects the repository `name`.
pub open spec fn excluded(cfg: ConfigView, name: Seq<char>) -> bool {
    match cfg.exclude_orgs {
        Some(orgs) => lists(orgs, name),
        None => false,
    }
}

/// Whether events in the repository `name` pass the owner filter.
pub open spec fn admits(cfg: ConfigView, name: Seq<char>) -> bool {
    included(cfg, name) && !excluded(cfg, name)
}

/// An excluded owner stays excluded whatever the include list holds.
pub proof fn lemma_exclusion_wins(cfg: ConfigView, name: Seq<char>)
    requires
        excluded(cfg, name),
    ensures
        !admits(cfg, name),
{
}

/// Without lists every repository passes.
pub proof fn lemma_no_lists_admit_all(cfg: ConfigView, name: Seq<char>)
    requires
        cfg.include_orgs is None,
        cfg.exclude_orgs is None,
    ensures
        admits(cfg, name),
{
}

/// Whether the repository `name` lies under one of the owners in `orgs`.
pub fn any_org_matches(orgs: &Vec<String>, name: &str) -> (r: bool)
    ensures
        r == lists(texts(orgs@), name@),
{
    let mut i: usize = 0;
    while i < orgs.len()
        invariant
            i <= orgs.len(),
            forall|j: int| 0 <= j < i ==> !under_org(name@, #[trigger] texts(orgs@)[j]),
        decreases orgs.len() - i,
    {
        if starts_with_org(name, orgs[i].as_str()) {
            assert(under_org(name@, texts(orgs@)[i as int]));
            return true;
        }
        i = i + 1;
    }
    false
}

impl Config {
    /// The options under which every public event is classified, `Assist`
    /// is recorded and titles are sanitized.
    pub fn new() -> (cfg: Config)
        ensures
            cfg@ == (ConfigView {
                include_orgs: None,
                exclude_orgs: None,
                track_assist: true,
                sanitize_titles: true,
            }),
    {
        Config { include_orgs: None, exclude_orgs: None, track_assist: true, sanitize_titles: true }
    }

    /// Whether events in the repository `name` pass the owner filter.
    pub fn admits_repo(&self, name: &str) -> (r: bool)
        ensures
            r == admits(self@, name@),
    {
        let included = match &self.include_orgs {
            Some(orgs) => orgs.len() == 0 || any_org_matches(orgs, name),
            None => true,
        };
        if !included {
            return false;
        }
        match &self.exclude_orgs {
            Some(orgs) => !any_org_matches(orgs, name),
            None => true,
        }
    }
}

} // verus!
