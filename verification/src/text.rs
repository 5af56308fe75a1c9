//! Text primitives: the order on names, prefix tests and decimal numerals.

use vstd::prelude::*;
use vstd::std_specs::iter::IteratorSpec;

verus! {

/// `String::push` appends exactly one character to the end of the string.
pub assume_specification[ String::push ](s: &mut String, ch: char)
    ensures
        final(s)@ == old(s)@.push(ch),
;

/// Outcome of comparing two keys.
#[derive(Clone, Copy, Debug, PartialEq, Eq, Structural)]
pub enum Order {
    Less,
    Equal,
    Greater,
}

/// Lexicographic order on character sequences, characters compared by scalar
/// value. This is the order of `str` and `String`.
pub open spec fn lex_less(a: Seq<char>, b: Seq<char>) -> bool
    decreases a.len(),
{
    if b.len() == 0 {
        false
    } else if a.len() == 0 {
        true
    } else if a[0] != b[0] {
        a[0] < b[0]
    } else {
        lex_less(a.drop_first(), b.drop_first())
    }
}

/// No sequence is below itself.
pub proof fn lemma_lex_irreflexive(a: Seq<char>)
    ensures
        !lex_less(a, a),
    decreases a.len(),
{
    if a.len() > 0 {
        lemma_lex_irreflexive(a.drop_first());
    }
}

/// The order is transitive.
pub proof fn lemma_lex_transitive(a: Seq<char>, b: Seq<char>, c: Seq<char>)
    requires
        lex_less(a, b),
        lex_less(b, c),
    ensures
        lex_less(a, c),
    decreases a.len(),
{
    if a.len() > 0 && a[0] == b[0] && b[0] == c[0] {
        lemma_lex_transitive(a.drop_first(), b.drop_first(), c.drop_first());
    }
}

/// Any two sequences are equal or ordered one way or the other.
pub proof fn lemma_lex_total(a: Seq<char>, b: Seq<char>)
    ensures
        lex_less(a, b) || a == b || lex_less(b, a),
    decreases a.len(),
{
    if a.len() == 0 || b.len() == 0 {
        if a.len() == 0 && b.len() == 0 {
            assert(a =~= b);
        }
    } else if a[0] == b[0] {
        lemma_lex_total(a.drop_first(), b.drop_first());
        if a.drop_first() == b.drop_first() {
            assert(a =~= seq![a[0]] + a.drop_first());
            assert(b =~= seq![b[0]] + b.drop_first());
        }
    }
}

/// Two sequences are never ordered both ways.
pub proof fn lemma_lex_asymmetric(a: Seq<char>, b: Seq<char>)
    requires
        lex_less(a, b),
    ensures
        !lex_less(b, a),
        a != b,
{
    lemma_lex_irreflexive(a);
    if lex_less(b, a) {
        lemma_lex_transitive(a, b, a);
    }
}

/// Compares two strings in lexicographic order.
pub fn lex_order(a: &str, b: &str) -> (o: Order)
    ensures
        o == Order::Less <==> lex_less(a@, b@),
        o == Order::Equal <==> a@ == b@,
        o == Order::Greater <==> lex_less(b@, a@),
{
    let mut ia = a.chars();
    let mut ib = b.chars();
    let ghost mut done: Seq<char> = Seq::empty();
    proof {
        lemma_lex_total(a@, b@);
        if lex_less(a@, b@) {
            lemma_lex_asymmetric(a@, b@);
        }
        if lex_less(b@, a@) {
            lemma_lex_asymmetric(b@, a@);
        }
        lemma_lex_irreflexive(a@);
    }
    loop
        invariant
            done + ia.remaining() == a@,
            done + ib.remaining() == b@,
            lex_less(a@, b@) == lex_less(ia.remaining(), ib.remaining()),
            lex_less(b@, a@) == lex_less(ib.remaining(), ia.remaining()),
            lex_less(a@, b@) || a@ == b@ || lex_less(b@, a@),
            !(lex_less(a@, b@) && a@ == b@),
            !(lex_less(b@, a@) && a@ == b@),
            !(lex_less(a@, b@) && lex_less(b@, a@)),
            ia.obeys_prophetic_iter_laws(),
            ib.obeys_prophetic_iter_laws(),
            ia.decrease() is Some,
        decreases ia.decrease()->0,
    {
        let ghost ra = ia.remaining();
        let ghost rb = ib.remaining();
        let x = ia.next();
        let y = ib.next();
        match (x, y) {
            (None, None) => {
                assert(a@ =~= b@);
                return Order::Equal;
            },
            (None, Some(_)) => {
                return Order::Less;
            },
            (Some(_), None) => {
                return Order::Greater;
            },
            (Some(p), Some(q)) => {
                if p < q {
                    return Order::Less;
                } else if q < p {
                    return Order::Greater;
                }
                proof {
                    assert(ra =~= seq![p] + ia.remaining());
                    assert(rb =~= seq![q] + ib.remaining());
                    assert(done.push(p) + ia.remaining() =~= a@);
                    assert(done.push(p) + ib.remaining() =~= b@);
                    done = done.push(p);
                }
            },
        }
    }
}

/// Whether two strings hold the same text.
pub fn same_text(a: &str, b: &str) -> (r: bool)
    ensures
        r == (a@ == b@),
{
    match lex_order(a, b) {
        Order::Equal => true,
        _ => false,
    }
}

/// Whether `name` begins with `org` followed by a slash.
pub open spec fn under_org(name: Seq<char>, org: Seq<char>) -> bool {
    org.push('/').is_prefix_of(name)
}

/// Tests whether a repository name of the form `owner/repo` lies under the
/// owner `org`.
pub fn starts_with_org(name: &str, org: &str) -> (r: bool)
    ensures
        r == under_org(name@, org@),
{
    let mut names = name.chars();
    let mut orgs = org.chars();
    let ghost mut done: Seq<char> = Seq::empty();
    loop
        invariant
            done + names.remaining() == name@,
            done + orgs.remaining() == org@,
            names.obeys_prophetic_iter_laws(),
            orgs.obeys_prophetic_iter_laws(),
            orgs.decrease() is Some,
        decreases orgs.decrease()->0,
    {
        let ghost rn = names.remaining();
        let ghost ro = orgs.remaining();
        let x = names.next();
        match orgs.next() {
            None => {
                proof {
                    assert(done =~= org@);
                    let want = org@.push('/');
                    if x == Some('/') {
                        assert(rn =~= seq!['/'] + names.remaining());
                        assert(want =~= name@.subrange(0, want.len() as int));
                    } else if x is Some {
                        assert(name@[done.len() as int] == rn[0]);
                        assert(want[done.len() as int] == '/');
                    }
                }
                return x == Some('/');
            },
            Some(q) => {
                let ghost want = org@.push('/');
                match x {
                    None => {
                        return false;
                    },
                    Some(p) => {
                        proof {
                            assert(name@[done.len() as int] == rn[0]);
                            assert(org@[done.len() as int] == ro[0]);
                            assert(want[done.len() as int] == q);
                        }
                        if p != q {
                            return false;
                        }
                        proof {
                            assert(rn =~= seq![p] + names.remaining());
                            assert(ro =~= seq![q] + orgs.remaining());
                            assert(done.push(p) + names.remaining() =~= name@);
                            assert(done.push(p) + orgs.remaining() =~= org@);
                            done = done.push(p);
                        }
                    },
                }
            },
        }
    }
}

/// The character for a single decimal digit.
pub open spec fn digit(d: nat) -> char
    recommends
        d < 10,
{
    if d == 0 {
        '0'
    } else if d == 1 {
        '1'
    } else if d == 2 {
        '2'
    } else if d == 3 {
        '3'
    } else if d == 4 {
        '4'
    } else if d == 5 {
        '5'
    } else if d == 6 {
        '6'
    } else if d == 7 {
        '7'
    } else if d == 8 {
        '8'
    } else {
        '9'
    }
}

/// The decimal numeral of `n`, without leading zeros.
pub open spec fn decimal(n: nat) -> Seq<char>
    decreases n,
{
    if n < 10 {
        seq![digit(n)]
    } else {
        decimal(n / 10).push(digit(n % 10))
    }
}

fn digit_char(d: u64) -> (c: char)
    requires
        d < 10,
    ensures
        c == digit(d as nat),
{
    if d == 0 {
        '0'
    } else if d == 1 {
        '1'
    } else if d == 2 {
        '2'
    } else if d == 3 {
        '3'
    } else if d == 4 {
        '4'
    } else if d == 5 {
        '5'
    } else if d == 6 {
        '6'
    } else if d == 7 {
        '7'
    } else if d == 8 {
        '8'
    } else {
        '9'
    }
}

/// Appends the decimal numeral of `n` to `out`.
pub fn push_decimal(out: &mut String, n: u64)
    ensures
        final(out)@ == old(out)@ + decimal(n as nat),
    decreases n,
{
    if n >= 10 {
        push_decimal(out, n / 10);
    }
    out.push(digit_char(n % 10));
    proof {
        if n >= 10 {
            assert(old(out)@ + decimal(n as nat) =~= (old(out)@ + decimal((n / 10) as nat)).push(
                digit((n % 10) as nat),
            ));
        } else {
            assert(old(out)@ + decimal(n as nat) =~= old(out)@.push(digit(n as nat)));
        }
    }
}

} // verus!
