//! The kinds of interaction a user can have with a topic.

use vstd::prelude::*;
use vstd::string::StringExecFns;

verus! {

/// How the user engaged with an issue or pull request.
///
/// The variants are declared in display priority order.
#[derive(Clone, Copy, Debug, PartialEq, Eq, Structural)]
pub enum Action {
    /// Opened a pull request.
    Code,
    /// Opened an issue.
    Write,
    /// Reviewed a pull request.
    Review,
    /// Commented, or edited something of their own.
    Comment,
    /// Any other non-authoring interaction.
    Assist,
}

impl Action {
    /// The symbol that stands for the kind in a digest.
    pub open spec fn symbol(self) -> Seq<char> {
        match self {
            Action::Code => "🔨"@,
            Action::Write => "✍️"@,
            Action::Review => "🕵️"@,
            Action::Comment => "💬"@,
            Action::Assist => "⚙️"@,
        }
    }

    /// The symbol shown for the kind.
    pub fn as_str(&self) -> (s: &'static str)
        ensures
            s@ == self.symbol(),
    {
        match self {
            Action::Code => "🔨",
            Action::Write => "✍️",
            Action::Review => "🕵️",
            Action::Comment => "💬",
            Action::Assist => "⚙️",
        }
    }
}

/// The symbol of `a` where `s` holds it, nothing otherwise.
pub open spec fn shown(s: Set<Action>, a: Action) -> Seq<char> {
    if s.contains(a) {
        a.symbol()
    } else {
        Seq::empty()
    }
}

/// The symbols of the kinds in `s`, in display priority order.
pub open spec fn symbols(s: Set<Action>) -> Seq<char> {
    shown(s, Action::Code) + shown(s, Action::Write) + shown(s, Action::Review) + shown(
        s,
        Action::Comment,
    ) + shown(s, Action::Assist)
}

/// The set of kinds recorded for one topic.
#[derive(Clone, Copy, Debug, PartialEq, Eq, Structural)]
pub struct ActionSet {
    code: bool,
    write: bool,
    review: bool,
    comment: bool,
    assist: bool,
}

impl View for ActionSet {
    type V = Set<Action>;

    closed spec fn view(&self) -> Set<Action> {
        Set::new(
            |a: Action|
                match a {
                    Action::Code => self.code,
                    Action::Write => self.write,
                    Action::Review => self.review,
                    Action::Comment => self.comment,
                    Action::Assist => self.assist,
                },
        )
    }
}

impl ActionSet {
    /// The empty set.
    pub fn new() -> (s: ActionSet)
        ensures
            s@ == Set::<Action>::empty(),
    {
        let s = ActionSet { code: false, write: false, review: false, comment: false, assist: false };
        assert(s@ =~= Set::<Action>::empty());
        s
    }

    /// The set that holds `action` alone.
    pub fn single(action: Action) -> (s: ActionSet)
        ensures
            s@ == Set::<Action>::empty().insert(action),
    {
        let mut s = ActionSet::new();
        s.insert(action);
        s
    }

    /// Whether the set holds `action`.
    pub fn contains(&self, action: Action) -> (r: bool)
        ensures
            r == self@.contains(action),
    {
        match action {
            Action::Code => self.code,
            Action::Write => self.write,
            Action::Review => self.review,
            Action::Comment => self.comment,
            Action::Assist => self.assist,
        }
    }

    /// Adds `action`; a kind already present stays present once.
    pub fn insert(&mut self, action: Action)
        ensures
            final(self)@ == old(self)@.insert(action),
    {
        match action {
            Action::Code => {
                self.code = true;
            },
            Action::Write => {
                self.write = true;
            },
            Action::Review => {
                self.review = true;
            },
            Action::Comment => {
                self.comment = true;
            },
            Action::Assist => {
                self.assist = true;
            },
        }
        assert(self@ =~= old(self)@.insert(action));
    }

    /// How many kinds the set holds.
    pub fn len(&self) -> (n: usize)
        ensures
            n == self@.len(),
            self@.finite(),
    {
        let mut n: usize = 0;
        let ghost mut seen: Set<Action> = Set::empty();
        if self.code {
            n = n + 1;
            proof {
                seen = seen.insert(Action::Code);
            }
        }
        if self.write {
            n = n + 1;
            proof {
                seen = seen.insert(Action::Write);
            }
        }
        if self.review {
            n = n + 1;
            proof {
                seen = seen.insert(Action::Review);
            }
        }
        if self.comment {
            n = n + 1;
            proof {
                seen = seen.insert(Action::Comment);
            }
        }
        if self.assist {
            n = n + 1;
            proof {
                seen = seen.insert(Action::Assist);
            }
        }
        assert(seen =~= self@);
        n
    }

    /// Appends the symbols of the kinds held, in display priority order.
    pub fn push_symbols(&self, out: &mut String)
        ensures
            final(out)@ == old(out)@ + symbols(self@),
    {
        if self.code {
            out.append(Action::Code.as_str());
        }
        if self.write {
            out.append(Action::Write.as_str());
        }
        if self.review {
            out.append(Action::Review.as_str());
        }
        if self.comment {
            out.append(Action::Comment.as_str());
        }
        if self.assist {
            out.append(Action::Assist.as_str());
        }
        assert(out@ =~= old(out)@ + symbols(self@));
    }
}

} // verus!
