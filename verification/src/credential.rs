//! Deciding whether a stored access grant may be used again.

use vstd::prelude::*;
use crate::config::texts;

verus! {

/// What a search of the secure store came back with.
#[derive(Clone, Copy, Debug, PartialEq, Eq, Structural)]
pub enum StoreLookup {
    /// Nothing is stored.
    Empty,
    /// One secret is stored.
    Single,
    /// More than one secret is stored, which is an error.
    Ambiguous,
}

/// What a store with `n_items` matching secrets amounts to.
pub open spec fn lookup_of(n_items: nat) -> StoreLookup {
    if n_items == 0 {
        StoreLookup::Empty
    } else if n_items == 1 {
        StoreLookup::Single
    } else {
        StoreLookup::Ambiguous
    }
}

/// Judges the number of secrets found in the store.
pub fn judge_lookup(n_items: usize) -> (r: StoreLookup)
    ensures
        r == lookup_of(n_items as nat),
{
    if n_items == 0 {
        StoreLookup::Empty
    } else if n_items == 1 {
        StoreLookup::Single
    } else {
        StoreLookup::Ambiguous
    }
}

/// What a stored grant says of itself, as far as reuse depends on it.
#[derive(Clone, Debug)]
pub struct StoredGrant {
    /// The scopes the grant was given for.
    pub scope: Vec<String>,
    /// Seconds after which the grant expires, where it does.
    pub expires_in: Option<usize>,
}

/// What a [`StoredGrant`] holds.
pub struct StoredGrantView {
    pub scope: Seq<Seq<char>>,
    pub expires_in: Option<usize>,
}

impl View for StoredGrant {
    type V = StoredGrantView;

    open spec fn view(&self) -> StoredGrantView {
        StoredGrantView { scope: texts(self.scope@), expires_in: self.expires_in }
    }
}

/// Whether a stored grant is used again, or why not.
#[derive(Clone, Copy, Debug, PartialEq, Eq, Structural)]
pub enum Reuse {
    /// The grant is used again.
    Accept,
    /// The stored secret could not be decoded.
    FormatChanged,
    /// The grant was given for other scopes than are asked for now.
    ScopeChanged,
    /// The grant carries an expiry and may have run out.
    MayHaveExpired,
}

/// The scopes a grant must have been given for: the empty scope alone.
pub open spec fn required_scope() -> Seq<Seq<char>> {
    seq![Seq::<char>::empty()]
}

/// The judgement on what was decoded from the store; `None` stands for a
/// secret that could not be decoded. The scope is looked at before the
/// expiry.
pub open spec fn judgement(decoded: Option<StoredGrantView>) -> Reuse {
    match decoded {
        None => Reuse::FormatChanged,
        Some(grant) => if grant.scope != required_scope() {
            Reuse::ScopeChanged
        } else if grant.expires_in is Some {
            Reuse::MayHaveExpired
        } else {
            Reuse::Accept
        },
    }
}

/// Whether `scope` is the required scope.
pub fn scope_is_required(scope: &Vec<String>) -> (r: bool)
    ensures
        r == (texts(scope@) == required_scope()),
{
    if scope.len() != 1 {
        return false;
    }
    let empty = scope[0].as_str().is_empty();
    proof {
        assert(texts(scope@)[0] == scope@[0]@);
        if empty {
            assert(scope@[0]@ =~= Seq::<char>::empty());
            assert(texts(scope@) =~= required_scope());
        } else {
            assert(required_scope()[0].len() == 0);
        }
    }
    empty
}

/// Judges a grant found in the store: it is used again only where it was
/// given for the required scope and carries no expiry.
pub fn judge_grant(decoded: Option<&StoredGrant>) -> (r: Reuse)
    ensures
        r == judgement(
            match decoded {
                Some(g) => Some(g@),
                None => None,
            },
        ),
{
    match decoded {
        None => Reuse::FormatChanged,
        Some(grant) => {
            if !scope_is_required(&grant.scope) {
                Reuse::ScopeChanged
            } else if grant.expires_in.is_some() {
                Reuse::MayHaveExpired
            } else {
                Reuse::Accept
            }
        },
    }
}

} // verus!
