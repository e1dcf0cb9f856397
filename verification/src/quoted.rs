//! Texts with parts in quotes, such as the lists of Python and TOML.

use crate::text;
use crate::text::{chars_of, member, text_of};
use vstd::prelude::*;

verus! {

/// Where a character of a text stands.
#[derive(Debug, Clone, Copy, PartialEq, Eq, Structural)]
pub enum Quote {
    /// Outside quotes.
    Outside,
    /// Between quotes of this kind.
    Inside(char),
    /// Between double quotes, after a backslash.
    Escaped,
}

/// Where the character after `c` stands.
pub open spec fn quote_after(q: Quote, c: char) -> Quote {
    match q {
        Quote::Outside => if c == '"' || c == '\'' {
            Quote::Inside(c)
        } else {
            Quote::Outside
        },
        Quote::Inside(mark) => if c == mark {
            Quote::Outside
        } else if mark == '"' && c == '\\' {
            Quote::Escaped
        } else {
            q
        },
        Quote::Escaped => Quote::Inside('"'),
    }
}

/// Where the character after `c` stands.
fn advance(q: Quote, c: char) -> (r: Quote)
    ensures
        r == quote_after(q, c),
{
    match q {
        Quote::Outside => if c == '"' || c == '\'' {
            Quote::Inside(c)
        } else {
            Quote::Outside
        },
        Quote::Inside(mark) => if c == mark {
            Quote::Outside
        } else if mark == '"' && c == '\\' {
            Quote::Escaped
        } else {
            q
        },
        Quote::Escaped => Quote::Inside('"'),
    }
}

/// The position of the first character of `s` that stands in `set` and outside
/// quotes, or the length of `s`. `q` tells where the first character stands.
pub open spec fn first_unquoted(s: Seq<char>, set: Seq<char>, q: Quote) -> int
    decreases s.len(),
{
    if s.len() == 0 || (q is Outside && set.contains(s[0])) {
        0
    } else {
        1 + first_unquoted(s.drop_first(), set, quote_after(q, s[0]))
    }
}

/// What stands in `s` before the first character of `set` outside quotes.
pub open spec fn before_unquoted(s: Seq<char>, set: Seq<char>) -> Seq<char> {
    s.take(first_unquoted(s, set, Quote::Outside))
}

/// Whether `s` has a character of `set` outside quotes.
pub open spec fn has_unquoted(s: Seq<char>, set: Seq<char>) -> bool {
    first_unquoted(s, set, Quote::Outside) < s.len()
}

/// The pieces of `s` between the characters of `set` outside quotes.
pub open spec fn unquoted_pieces(s: Seq<char>, set: Seq<char>) -> Seq<Seq<char>>
    decreases s.len(),
{
    let i = first_unquoted(s, set, Quote::Outside);
    if 0 <= i < s.len() {
        seq![s.take(i)] + unquoted_pieces(s.skip(i + 1), set)
    } else {
        seq![s]
    }
}

/// The position of the first character of `v[from..]` that stands in `set` and
/// outside quotes, or the end. `v[from]` stands outside quotes.
fn find_unquoted(v: &Vec<char>, set: &[char], from: usize) -> (r: usize)
    requires
        from <= v@.len(),
    ensures
        from <= r <= v@.len(),
        r - from == first_unquoted(
            v@.subrange(from as int, v@.len() as int),
            set@,
            Quote::Outside,
        ),
{
    let ghost all = v@.subrange(from as int, v@.len() as int);
    let mut i: usize = from;
    let mut q = Quote::Outside;
    while i < v.len()
        invariant
            from <= i <= v@.len(),
            all == v@.subrange(from as int, v@.len() as int),
            first_unquoted(all, set@, Quote::Outside) == i - from + first_unquoted(
                v@.subrange(i as int, v@.len() as int),
                set@,
                q,
            ),
        decreases v@.len() - i,
    {
        let ghost rest = v@.subrange(i as int, v@.len() as int);
        if q == Quote::Outside && member(set, v[i]) {
            assert(first_unquoted(rest, set@, q) == 0);
            return i;
        }
        assert(rest.drop_first() =~= v@.subrange(i + 1, v@.len() as int));
        q = advance(q, v[i]);
        i = i + 1;
    }
    i
}

/// What stands in `s` before the first character of `set` outside quotes.
pub fn cut_unquoted(s: &str, set: &[char]) -> (r: String)
    ensures
        r@ == before_unquoted(s@, set@),
{
    let v = chars_of(s);
    assert(v@.subrange(0, v@.len() as int) =~= v@);
    let i: usize = find_unquoted(&v, set, 0);
    assert(v@.subrange(0, i as int) =~= v@.take(i as int));
    text_of(&v, 0, i)
}

/// Whether `s` has a character of `set` outside quotes.
pub fn holds_unquoted(s: &str, set: &[char]) -> (r: bool)
    ensures
        r == has_unquoted(s@, set@),
{
    let v = chars_of(s);
    assert(v@.subrange(0, v@.len() as int) =~= v@);
    find_unquoted(&v, set, 0) < v.len()
}

/// The pieces of `s` between the characters of `set` outside quotes, in order.
pub fn split_unquoted(s: &str, set: &[char]) -> (r: Vec<String>)
    ensures
        text::texts(r@) == unquoted_pieces(s@, set@),
{
    let v = chars_of(s);
    let mut out: Vec<String> = Vec::new();
    let mut from: usize = 0;
    assert(v@.subrange(0, v@.len() as int) =~= v@);
    assert(text::texts(out@) + unquoted_pieces(v@, set@) =~= unquoted_pieces(v@, set@));
    loop
        invariant
            from <= v@.len(),
            v@ == s@,
            unquoted_pieces(v@, set@) == text::texts(out@) + unquoted_pieces(
                v@.subrange(from as int, v@.len() as int),
                set@,
            ),
        decreases v@.len() - from,
    {
        let i: usize = find_unquoted(&v, set, from);
        let ghost rest = v@.subrange(from as int, v@.len() as int);
        let ghost before = text::texts(out@);
        let piece = text_of(&v, from, i);
        out.push(piece);
        assert(text::texts(out@) =~= before.push(piece@));
        if i == v.len() {
            assert(piece@ =~= rest);
            assert(text::texts(out@) =~= before + seq![rest]);
            return out;
        }
        assert(rest.take(i - from) =~= piece@);
        assert(rest.skip(i - from + 1) =~= v@.subrange(i + 1, v@.len() as int));
        assert(text::texts(out@) + unquoted_pieces(v@.subrange(i + 1, v@.len() as int), set@)
            =~= before + (seq![piece@] + unquoted_pieces(rest.skip(i - from + 1), set@)));
        from = i + 1;
    }
}

} // verus!
