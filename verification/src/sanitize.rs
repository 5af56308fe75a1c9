//! Making free-text titles safe for display on a single digest line.

use vstd::prelude::*;
use vstd::std_specs::iter::IteratorSpec;

verus! {

/// Characters that may appear in a displayed title: ASCII letters, digits,
/// the space, and the punctuation `/():;.&+-`.
pub open spec fn permitted(c: char) -> bool {
    ||| 'a' <= c <= 'z'
    ||| 'A' <= c <= 'Z'
    ||| '0' <= c <= '9'
    ||| c == ' '
    ||| c == '/'
    ||| c == '('
    ||| c == ')'
    ||| c == ':'
    ||| c == ';'
    ||| c == '.'
    ||| c == '&'
    ||| c == '+'
    ||| c == '-'
}

/// The title with every character outside the permitted set removed.
pub open spec fn stripped(s: Seq<char>) -> Seq<char> {
    s.filter(|c: char| permitted(c))
}

/// The text with every run of spaces replaced by a single space.
///
/// A character is dropped exactly when it is a space that directly follows
/// another space.
pub open spec fn collapsed(s: Seq<char>) -> Seq<char>
    decreases s.len(),
{
    if s.len() == 0 {
        s
    } else if s.len() >= 2 && s.last() == ' ' && s[s.len() - 2] == ' ' {
        collapsed(s.drop_last())
    } else {
        collapsed(s.drop_last()).push(s.last())
    }
}

/// The display-safe form of a title: stripped of characters outside the
/// permitted set, then with runs of whitespace collapsed. The space is the
/// only whitespace character that survives stripping.
pub open spec fn sanitized(s: Seq<char>) -> Seq<char> {
    collapsed(stripped(s))
}

/// Collapsing keeps the last character of a non-empty text.
pub proof fn lemma_collapsed_last(s: Seq<char>)
    requires
        s.len() > 0,
    ensures
        collapsed(s).len() > 0,
        collapsed(s).last() == s.last(),
    decreases s.len(),
{
    if s.len() >= 2 && s.last() == ' ' && s[s.len() - 2] == ' ' {
        lemma_collapsed_last(s.drop_last());
    }
}

/// A sanitized title holds only permitted characters and never two spaces in
/// a row.
pub proof fn lemma_sanitized_is_safe(s: Seq<char>)
    ensures
        forall|i: int| 0 <= i < sanitized(s).len() ==> permitted(#[trigger] sanitized(s)[i]),
        forall|i: int|
            0 < i < sanitized(s).len() ==> !(sanitized(s)[i - 1] == ' ' && #[trigger] sanitized(
                s,
            )[i] == ' '),
{
    let t = stripped(s);
    assert forall|i: int| 0 <= i < t.len() implies permitted(#[trigger] t[i]) by {
        s.lemma_filter_pred(|c: char| permitted(c), i);
    }
    lemma_collapsed_is_safe(t);
}

proof fn lemma_collapsed_is_safe(t: Seq<char>)
    requires
        forall|i: int| 0 <= i < t.len() ==> permitted(#[trigger] t[i]),
    ensures
        forall|i: int| 0 <= i < collapsed(t).len() ==> permitted(#[trigger] collapsed(t)[i]),
        forall|i: int|
            0 < i < collapsed(t).len() ==> !(collapsed(t)[i - 1] == ' ' && #[trigger] collapsed(
                t,
            )[i] == ' '),
    decreases t.len(),
{
    if t.len() > 0 {
        let head = t.drop_last();
        lemma_collapsed_is_safe(head);
        if head.len() > 0 {
            lemma_collapsed_last(head);
        }
    }
}

/// Sanitizing a sanitized title changes nothing.
pub proof fn lemma_sanitized_idempotent(s: Seq<char>)
    ensures
        sanitized(sanitized(s)) == sanitized(s),
{
    lemma_sanitized_is_safe(s);
    let t = sanitized(s);
    lemma_filter_all(t);
    lemma_collapsed_fixed(t);
}

proof fn lemma_filter_all(t: Seq<char>)
    requires
        forall|i: int| 0 <= i < t.len() ==> permitted(#[trigger] t[i]),
    ensures
        stripped(t) == t,
    decreases t.len(),
{
    reveal(Seq::filter);
    if t.len() > 0 {
        lemma_filter_all(t.drop_last());
        assert(t.drop_last().push(t.last()) =~= t);
    }
}

proof fn lemma_collapsed_fixed(t: Seq<char>)
    requires
        forall|i: int| 0 < i < t.len() ==> !(t[i - 1] == ' ' && #[trigger] t[i] == ' '),
    ensures
        collapsed(t) == t,
    decreases t.len(),
{
    if t.len() > 0 {
        lemma_collapsed_fixed(t.drop_last());
        assert(t.drop_last().push(t.last()) =~= t);
    }
}

/// Whether a character may appear in a displayed title.
pub fn is_permitted(c: char) -> (r: bool)
    ensures
        r == permitted(c),
{
    ('a' <= c && c <= 'z') || ('A' <= c && c <= 'Z') || ('0' <= c && c <= '9') || c == ' '
        || c == '/' || c == '(' || c == ')' || c == ':' || c == ';' || c == '.' || c == '&'
        || c == '+' || c == '-'
}

/// Produces the display-safe form of a title.
pub fn sanitize(title: &str) -> (out: String)
    ensures
        out@ == sanitized(title@),
{
    let mut out = String::new();
    let mut chars = title.chars();
    let mut after_space = false;
    let ghost mut done: Seq<char> = Seq::empty();
    loop
        invariant
            done + chars.remaining() == title@,
            out@ == sanitized(done),
            after_space == (stripped(done).len() > 0 && stripped(done).last() == ' '),
            chars.obeys_prophetic_iter_laws(),
            chars.decrease() is Some,
        decreases chars.decrease()->0,
    {
        let ghost rest = chars.remaining();
        match chars.next() {
            None => {
                assert(done =~= title@);
                return out;
            },
            Some(c) => {
                proof {
                    reveal(Seq::filter);
                    assert(rest =~= seq![c] + chars.remaining());
                    assert(done.push(c) + chars.remaining() =~= title@);
                    assert(done.push(c).drop_last() =~= done);
                    if permitted(c) {
                        assert(stripped(done.push(c)) == stripped(done).push(c));
                        assert(stripped(done).push(c).drop_last() =~= stripped(done));
                    } else {
                        assert(stripped(done.push(c)) == stripped(done));
                    }
                    done = done.push(c);
                }
                if is_permitted(c) {
                    if !(c == ' ' && after_space) {
                        out.push(c);
                    }
                    after_space = c == ' ';
                }
            },
        }
    }
}

} // verus!
