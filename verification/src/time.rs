//! Instants and durations as plain integers.

use vstd::prelude::*;

verus! {

/// A point in time: whole seconds since the Unix epoch and the nanoseconds
/// within that second.
#[derive(Clone, Copy, Debug, PartialEq, Eq, Structural)]
pub struct Timestamp {
    pub secs: i64,
    pub nanos: u32,
}

impl Timestamp {
    /// Chronological order: by seconds, then by nanoseconds.
    pub open spec fn precedes(self, other: Timestamp) -> bool {
        self.secs < other.secs || (self.secs == other.secs && self.nanos < other.nanos)
    }

    pub fn new(secs: i64, nanos: u32) -> (t: Timestamp)
        ensures
            t == (Timestamp { secs, nanos }),
    {
        Timestamp { secs, nanos }
    }

    /// Whether this instant lies strictly before `other`.
    pub fn is_before(&self, other: &Timestamp) -> (r: bool)
        ensures
            r == self.precedes(*other),
    {
        self.secs < other.secs || (self.secs == other.secs && self.nanos < other.nanos)
    }
}

/// Number of nanoseconds in a second.
pub const NANOS_PER_SEC: u32 = 1_000_000_000;

/// The length of the time window a digest covers.
///
/// The nanosecond part is always below one second.
#[derive(Clone, Copy, Debug, PartialEq, Eq, Structural)]
pub struct Window {
    secs: u64,
    nanos: u32,
}

impl Window {
    #[verifier::type_invariant]
    pub closed spec fn normalized(self) -> bool {
        self.nanos < NANOS_PER_SEC
    }

    /// Whole seconds of the window.
    pub closed spec fn spec_secs(&self) -> u64 {
        self.secs
    }

    /// Nanoseconds beyond the whole seconds.
    pub closed spec fn spec_nanos(&self) -> u32 {
        self.nanos
    }

    /// A window of `secs` seconds and `nanos` nanoseconds, or `None` where
    /// `nanos` is a second or more.
    pub fn new(secs: u64, nanos: u32) -> (w: Option<Window>)
        ensures
            nanos >= NANOS_PER_SEC <==> w is None,
            w matches Some(win) ==> win.spec_secs() == secs && win.spec_nanos() == nanos,
    {
        if nanos < NANOS_PER_SEC {
            Some(Window { secs, nanos })
        } else {
            None
        }
    }

    /// A window of whole seconds.
    pub fn from_secs(secs: u64) -> (w: Window)
        ensures
            w.spec_secs() == secs,
            w.spec_nanos() == 0,
    {
        Window { secs, nanos: 0 }
    }

    #[verifier::when_used_as_spec(spec_secs)]
    pub fn secs(&self) -> (s: u64)
        ensures
            s == self.spec_secs(),
    {
        self.secs
    }

    #[verifier::when_used_as_spec(spec_nanos)]
    pub fn nanos(&self) -> (n: u32)
        ensures
            n == self.spec_nanos(),
            n < NANOS_PER_SEC,
    {
        proof {
            use_type_invariant(self);
        }
        self.nanos
    }
}

} // verus!
