//! Operations on text, stated over sequences of characters.

use vstd::prelude::*;
use vstd::utf8::*;

verus! {

/// `String::push` appends the given character to the end of the string.
pub assume_specification[ String::push ](s: &mut String, c: char)
    ensures
        final(s)@ == old(s)@.push(c),
;

/// The characters of `s`, in order.
pub fn chars_of(s: &str) -> (r: Vec<char>)
    ensures
        r@ == s@,
{
    let mut out: Vec<char> = Vec::new();
    for c in it: s.chars()
        invariant
            out@ == it.seq().take(it.index() as int),
            it.seq() == s@,
    {
        out.push(c);
    }
    out
}

/// The text made of the characters `v[from..to]`.
pub fn text_of(v: &Vec<char>, from: usize, to: usize) -> (r: String)
    requires
        from <= to <= v@.len(),
    ensures
        r@ == v@.subrange(from as int, to as int),
{
    let mut out = String::new();
    let mut i: usize = from;
    while i < to
        invariant
            from <= i <= to <= v@.len(),
            out@ == v@.subrange(from as int, i as int),
        decreases to - i,
    {
        out.push(v[i]);
        assert(v@.subrange(from as int, i + 1) =~= v@.subrange(from as int, i as int).push(v@[i as int]));
        i = i + 1;
    }
    out
}

/// Whether two texts hold the same characters.
pub fn text_eq(a: &str, b: &str) -> (r: bool)
    ensures
        r == (a@ == b@),
{
    let x = a.as_bytes();
    let y = b.as_bytes();
    proof {
        encode_utf8_decode_utf8(a@);
        encode_utf8_decode_utf8(b@);
    }
    if x.len() != y.len() {
        return false;
    }
    let mut i: usize = 0;
    while i < x.len()
        invariant
            x@.len() == y@.len(),
            i <= x@.len(),
            x@ == encode_utf8(a@),
            y@ == encode_utf8(b@),
            forall|j: int| 0 <= j < i ==> x@[j] == y@[j],
        decreases x@.len() - i,
    {
        if x[i] != y[i] {
            return false;
        }
        i = i + 1;
    }
    assert(x@ =~= y@);
    true
}

/// Whether two optional texts are both absent or hold the same characters.
pub fn option_text_eq(a: &Option<String>, b: &Option<String>) -> (r: bool)
    ensures
        r == (option_view(*a) == option_view(*b)),
{
    match (a, b) {
        (Some(x), Some(y)) => text_eq(x.as_str(), y.as_str()),
        (None, None) => true,
        _ => false,
    }
}

/// The characters of an optional text.
pub open spec fn option_view(t: Option<String>) -> Option<Seq<char>> {
    match t {
        Some(s) => Some(s@),
        None => None,
    }
}

/// The characters of every text of a list.
pub open spec fn texts(v: Seq<String>) -> Seq<Seq<char>> {
    v.map_values(|s: String| s@)
}

/// A copy of an optional text.
pub fn clone_text(t: &Option<String>) -> (r: Option<String>)
    ensures
        option_view(r) == option_view(*t),
{
    match t {
        Some(s) => Some(s.clone()),
        None => None,
    }
}

/// A copy of a list of texts.
pub fn clone_texts(v: &Vec<String>) -> (r: Vec<String>)
    ensures
        texts(r@) == texts(v@),
{
    let mut out: Vec<String> = Vec::new();
    let mut i: usize = 0;
    while i < v.len()
        invariant
            i <= v@.len(),
            out@.len() == i,
            forall|j: int| 0 <= j < i ==> (#[trigger] out@[j])@ == v@[j]@,
        decreases v@.len() - i,
    {
        out.push(v[i].clone());
        i = i + 1;
    }
    assert(texts(out@) =~= texts(v@));
    out
}

/// The text, or the empty text where there is none.
pub open spec fn text_or_empty(t: Option<Seq<char>>) -> Seq<char> {
    match t {
        Some(s) => s,
        None => ""@,
    }
}

/// The text, or the empty text where there is none.
pub fn or_empty(t: &Option<String>) -> (r: &str)
    ensures
        r@ == text_or_empty(option_view(*t)),
{
    match t {
        Some(s) => s.as_str(),
        None => "",
    }
}

/// Unicode's `White_Space` property.
pub open spec fn is_white(c: char) -> bool {
    ||| '\u{9}' <= c <= '\u{d}'
    ||| c == '\u{20}' || c == '\u{85}' || c == '\u{a0}' || c == '\u{1680}'
    ||| '\u{2000}' <= c <= '\u{200a}'
    ||| c == '\u{2028}' || c == '\u{2029}' || c == '\u{202f}' || c == '\u{205f}' || c == '\u{3000}'
}

/// Whether `c` is white space.
pub fn white(c: char) -> (r: bool)
    ensures
        r == is_white(c),
{
    ('\u{9}' <= c && c <= '\u{d}') || c == '\u{20}' || c == '\u{85}' || c == '\u{a0}'
        || c == '\u{1680}' || ('\u{2000}' <= c && c <= '\u{200a}') || c == '\u{2028}'
        || c == '\u{2029}' || c == '\u{202f}' || c == '\u{205f}' || c == '\u{3000}'
}

/// `s` without the longest prefix made of characters that satisfy `p`.
pub open spec fn trim_start_by(s: Seq<char>, p: spec_fn(char) -> bool) -> Seq<char>
    decreases s.len(),
{
    if s.len() > 0 && p(s[0]) {
        trim_start_by(s.drop_first(), p)
    } else {
        s
    }
}

/// `s` without the longest suffix made of characters that satisfy `p`.
pub open spec fn trim_end_by(s: Seq<char>, p: spec_fn(char) -> bool) -> Seq<char>
    decreases s.len(),
{
    if s.len() > 0 && p(s.last()) {
        trim_end_by(s.drop_last(), p)
    } else {
        s
    }
}

/// `s` without leading and trailing white space.
pub open spec fn trimmed(s: Seq<char>) -> Seq<char> {
    trim_end_by(trim_start_by(s, |c: char| is_white(c)), |c: char| is_white(c))
}

/// `s` without leading white space.
pub open spec fn trimmed_start(s: Seq<char>) -> Seq<char> {
    trim_start_by(s, |c: char| is_white(c))
}

/// `s` without leading and trailing characters of `set`.
pub open spec fn trimmed_of(s: Seq<char>, set: Seq<char>) -> Seq<char> {
    trim_end_by(trim_start_by(s, |c: char| set.contains(c)), |c: char| set.contains(c))
}

/// Whether `c` stands in `set`.
pub fn member(set: &[char], c: char) -> (r: bool)
    ensures
        r == set@.contains(c),
{
    let mut i: usize = 0;
    while i < set.len()
        invariant
            i <= set@.len(),
            forall|j: int| 0 <= j < i ==> set@[j] != c,
        decreases set@.len() - i,
    {
        if set[i] == c {
            assert(set@[i as int] == c);
            return true;
        }
        i = i + 1;
    }
    false
}

/// `s` without leading and trailing white space.
pub fn trim(s: &str) -> (r: String)
    ensures
        r@ == trimmed(s@),
{
    let v = chars_of(s);
    let ghost p = |c: char| is_white(c);
    let mut i: usize = 0;
    assert(v@.subrange(0, v@.len() as int) =~= v@);
    while i < v.len() && white(v[i])
        invariant
            p == (|c: char| is_white(c)),
            i <= v@.len(),
            trim_start_by(v@, p) == trim_start_by(v@.subrange(i as int, v@.len() as int), p),
        decreases v@.len() - i,
    {
        assert(v@.subrange(i as int, v@.len() as int).drop_first() =~= v@.subrange(i + 1, v@.len() as int));
        i = i + 1;
    }
    let ghost mid = v@.subrange(i as int, v@.len() as int);
    assert(trim_start_by(v@, p) == mid);
    let mut j: usize = v.len();
    while j > i && white(v[j - 1])
        invariant
            p == (|c: char| is_white(c)),
            i <= j <= v@.len(),
            trim_end_by(mid, p) == trim_end_by(v@.subrange(i as int, j as int), p),
        decreases j,
    {
        assert(v@.subrange(i as int, j as int).drop_last() =~= v@.subrange(i as int, j - 1));
        j = j - 1;
    }
    text_of(&v, i, j)
}

/// `s` without leading white space.
pub fn trim_start(s: &str) -> (r: String)
    ensures
        r@ == trimmed_start(s@),
{
    let v = chars_of(s);
    let ghost p = |c: char| is_white(c);
    let mut i: usize = 0;
    assert(v@.subrange(0, v@.len() as int) =~= v@);
    while i < v.len() && white(v[i])
        invariant
            p == (|c: char| is_white(c)),
            i <= v@.len(),
            trim_start_by(v@, p) == trim_start_by(v@.subrange(i as int, v@.len() as int), p),
        decreases v@.len() - i,
    {
        assert(v@.subrange(i as int, v@.len() as int).drop_first() =~= v@.subrange(i + 1, v@.len() as int));
        i = i + 1;
    }
    text_of(&v, i, v.len())
}

/// `s` without leading and trailing characters of `set`.
pub fn trim_of(s: &str, set: &[char]) -> (r: String)
    ensures
        r@ == trimmed_of(s@, set@),
{
    let v = chars_of(s);
    let ghost p = |c: char| set@.contains(c);
    let mut i: usize = 0;
    assert(v@.subrange(0, v@.len() as int) =~= v@);
    while i < v.len() && member(set, v[i])
        invariant
            p == (|c: char| set@.contains(c)),
            i <= v@.len(),
            trim_start_by(v@, p) == trim_start_by(v@.subrange(i as int, v@.len() as int), p),
        decreases v@.len() - i,
    {
        assert(v@.subrange(i as int, v@.len() as int).drop_first() =~= v@.subrange(i + 1, v@.len() as int));
        i = i + 1;
    }
    let ghost mid = v@.subrange(i as int, v@.len() as int);
    assert(trim_start_by(v@, p) == mid);
    let mut j: usize = v.len();
    while j > i && member(set, v[j - 1])
        invariant
            p == (|c: char| set@.contains(c)),
            i <= j <= v@.len(),
            trim_end_by(mid, p) == trim_end_by(v@.subrange(i as int, j as int), p),
        decreases j,
    {
        assert(v@.subrange(i as int, j as int).drop_last() =~= v@.subrange(i as int, j - 1));
        j = j - 1;
    }
    text_of(&v, i, j)
}

/// Whether `s` holds nothing but white space.
pub open spec fn is_blank(s: Seq<char>) -> bool {
    forall|i: int| 0 <= i < s.len() ==> is_white(#[trigger] s[i])
}

/// Whether `s` holds nothing but white space.
pub fn blank(s: &str) -> (r: bool)
    ensures
        r == is_blank(s@),
{
    let v = chars_of(s);
    let mut i: usize = 0;
    while i < v.len()
        invariant
            i <= v@.len(),
            v@ == s@,
            forall|j: int| 0 <= j < i ==> is_white(#[trigger] v@[j]),
        decreases v@.len() - i,
    {
        if !white(v[i]) {
            return false;
        }
        i = i + 1;
    }
    true
}

/// Whether `needle` stands in `hay` from position `i` on.
pub open spec fn occurs_at(hay: Seq<char>, needle: Seq<char>, i: int) -> bool {
    0 <= i && i + needle.len() <= hay.len() && hay.subrange(i, i + needle.len()) == needle
}

/// Whether `needle` stands somewhere in `hay`.
pub open spec fn has_text(hay: Seq<char>, needle: Seq<char>) -> bool {
    exists|i: int| occurs_at(hay, needle, i)
}

/// Whether `needle` stands in `hay` from position `from` on.
fn matches_at(hay: &Vec<char>, needle: &Vec<char>, from: usize) -> (r: bool)
    requires
        from + needle@.len() <= hay@.len(),
    ensures
        r == occurs_at(hay@, needle@, from as int),
{
    let total: usize = hay.len();
    let mut j: usize = 0;
    while j < needle.len()
        invariant
            j <= needle@.len(),
            from + needle@.len() <= hay@.len() == total,
            forall|k: int| 0 <= k < j ==> needle@[k] == hay@[from + k],
        decreases needle@.len() - j,
    {
        if hay[from + j] != needle[j] {
            assert(hay@.subrange(from as int, from + needle@.len())[j as int] != needle@[j as int]);
            return false;
        }
        j = j + 1;
    }
    assert(hay@.subrange(from as int, from + needle@.len()) =~= needle@);
    true
}

/// Whether `needle` stands somewhere in `hay`.
pub fn contains(hay: &str, needle: &str) -> (r: bool)
    ensures
        r == has_text(hay@, needle@),
{
    let h = chars_of(hay);
    let n = chars_of(needle);
    if n.len() > h.len() {
        return false;
    }
    let last: usize = h.len() - n.len();
    let mut i: usize = 0;
    while i <= last
        invariant
            last == h@.len() - n@.len(),
            i <= last + 1,
            h@ == hay@,
            n@ == needle@,
            forall|k: int| 0 <= k < i ==> !occurs_at(h@, n@, k),
        decreases last + 1 - i,
    {
        if matches_at(&h, &n, i) {
            return true;
        }
        if i == last {
            return false;
        }
        i = i + 1;
    }
    false
}

/// What follows the first `needle` in `hay`.
pub open spec fn after_text(hay: Seq<char>, needle: Seq<char>) -> Option<Seq<char>>
    decreases hay.len(),
{
    if needle.is_prefix_of(hay) {
        Some(hay.skip(needle.len() as int))
    } else if hay.len() == 0 {
        None
    } else {
        after_text(hay.drop_first(), needle)
    }
}

/// What follows the first `needle` in `hay`, if there is one.
pub fn follow_text(hay: &str, needle: &str) -> (r: Option<String>)
    ensures
        option_view(r) == after_text(hay@, needle@),
{
    let h = chars_of(hay);
    let n = chars_of(needle);
    let mut i: usize = 0;
    assert(h@.skip(0) =~= h@);
    loop
        invariant
            i <= h@.len(),
            h@ == hay@,
            n@ == needle@,
            after_text(h@, n@) == after_text(h@.skip(i as int), n@),
        decreases h@.len() - i,
    {
        let ghost rest = h@.skip(i as int);
        if n.len() <= h.len() - i && matches_at(&h, &n, i) {
            assert(h@.subrange(i as int, i + n@.len()) =~= rest.subrange(0, n@.len() as int));
            assert(n@.is_prefix_of(rest));
            let r = text_of(&h, i + n.len(), h.len());
            assert(r@ =~= rest.skip(n@.len() as int));
            return Some(r);
        }
        proof {
            if n@.is_prefix_of(rest) {
                assert(h@.subrange(i as int, i + n@.len()) =~= n@);
            }
        }
        if i == h.len() {
            return None;
        }
        assert(rest.drop_first() =~= h@.skip(i + 1));
        i = i + 1;
    }
}

/// Whether `s` begins with `prefix`.
pub fn starts_with(s: &str, prefix: &str) -> (r: bool)
    ensures
        r == prefix@.is_prefix_of(s@),
{
    let v = chars_of(s);
    let p = chars_of(prefix);
    if p.len() > v.len() {
        return false;
    }
    matches_at(&v, &p, 0)
}

/// Whether `s` ends with `suffix`.
pub fn ends_with(s: &str, suffix: &str) -> (r: bool)
    ensures
        r == suffix@.is_suffix_of(s@),
{
    let v = chars_of(s);
    let p = chars_of(suffix);
    if p.len() > v.len() {
        return false;
    }
    matches_at(&v, &p, v.len() - p.len())
}

/// What follows `prefix` in `s`.
pub open spec fn after_prefix(s: Seq<char>, prefix: Seq<char>) -> Option<Seq<char>> {
    if prefix.is_prefix_of(s) {
        Some(s.subrange(prefix.len() as int, s.len() as int))
    } else {
        None
    }
}

/// What follows `prefix` in `s`, if `s` begins with it.
pub fn strip_prefix(s: &str, prefix: &str) -> (r: Option<String>)
    ensures
        option_view(r) == after_prefix(s@, prefix@),
{
    let v = chars_of(s);
    let p = chars_of(prefix);
    if p.len() <= v.len() && matches_at(&v, &p, 0) {
        Some(text_of(&v, p.len(), v.len()))
    } else {
        None
    }
}

/// The position of the first character of `s` that stands in `set`, or the
/// length of `s`.
pub open spec fn first_of(s: Seq<char>, set: Seq<char>) -> int
    decreases s.len(),
{
    if s.len() == 0 || set.contains(s[0]) {
        0
    } else {
        1 + first_of(s.drop_first(), set)
    }
}

/// `first_of` is the first position of a separator, or the length.
pub proof fn lemma_first_of(s: Seq<char>, set: Seq<char>)
    ensures
        0 <= first_of(s, set) <= s.len(),
        first_of(s, set) < s.len() ==> set.contains(s[first_of(s, set)]),
        forall|j: int| 0 <= j < first_of(s, set) ==> !set.contains(s[j]),
    decreases s.len(),
{
    if s.len() > 0 && !set.contains(s[0]) {
        lemma_first_of(s.drop_first(), set);
        assert forall|j: int| 0 <= j < first_of(s, set) implies !set.contains(s[j]) by {
            if j > 0 {
                assert(s.drop_first()[j - 1] == s[j]);
            }
        }
    }
}

/// A position with no separator before it, and a separator or the end at it, is `first_of`.
pub proof fn lemma_first_of_is(s: Seq<char>, set: Seq<char>, i: int)
    requires
        0 <= i <= s.len(),
        i < s.len() ==> set.contains(s[i]),
        forall|j: int| 0 <= j < i ==> !set.contains(s[j]),
    ensures
        first_of(s, set) == i,
{
    lemma_first_of(s, set);
    if first_of(s, set) < i {
        assert(set.contains(s[first_of(s, set)]));
    } else if i < first_of(s, set) {
        assert(set.contains(s[i]));
    }
}

/// The position of the first character of `v[from..]` that stands in `set`, or the end.
fn find_of(v: &Vec<char>, set: &[char], from: usize) -> (r: usize)
    requires
        from <= v@.len(),
    ensures
        from <= r <= v@.len(),
        r - from == first_of(v@.subrange(from as int, v@.len() as int), set@),
{
    let mut i: usize = from;
    while i < v.len() && !member(set, v[i])
        invariant
            from <= i <= v@.len(),
            forall|j: int| from <= j < i ==> !set@.contains(v@[j]),
        decreases v@.len() - i,
    {
        i = i + 1;
    }
    proof {
        lemma_first_of_is(v@.subrange(from as int, v@.len() as int), set@, i - from);
    }
    i
}

/// The pieces of `s` between the characters of `set`.
pub open spec fn pieces(s: Seq<char>, set: Seq<char>) -> Seq<Seq<char>>
    decreases s.len(),
{
    let i = first_of(s, set);
    if 0 <= i < s.len() {
        seq![s.take(i)] + pieces(s.skip(i + 1), set)
    } else {
        seq![s]
    }
}

/// What stands in `s` before the first character of `set`.
pub open spec fn first_piece(s: Seq<char>, set: Seq<char>) -> Seq<char> {
    s.take(first_of(s, set))
}

/// The pieces of `s` between the characters of `set`, in order.
pub fn split(s: &str, set: &[char]) -> (r: Vec<String>)
    ensures
        texts(r@) == pieces(s@, set@),
{
    let v = chars_of(s);
    let mut out: Vec<String> = Vec::new();
    let mut from: usize = 0;
    assert(v@.subrange(0, v@.len() as int) =~= v@);
    loop
        invariant
            from <= v@.len(),
            v@ == s@,
            pieces(v@, set@) == texts(out@) + pieces(v@.subrange(from as int, v@.len() as int), set@),
        decreases v@.len() - from,
    {
        let i: usize = find_of(&v, set, from);
        let ghost rest = v@.subrange(from as int, v@.len() as int);
        proof {
            lemma_first_of(rest, set@);
        }
        let ghost before = out@;
        out.push(text_of(&v, from, i));
        assert(texts(out@) =~= texts(before).push(v@.subrange(from as int, i as int)));
        if i == v.len() {
            assert(rest =~= v@.subrange(from as int, i as int));
            assert(texts(out@) =~= texts(before) + seq![rest]);
            return out;
        }
        assert(rest.take(i - from) =~= v@.subrange(from as int, i as int));
        assert(rest.skip(i - from + 1) =~= v@.subrange(i + 1, v@.len() as int));
        assert(texts(out@) + pieces(v@.subrange(i + 1, v@.len() as int), set@) =~= texts(before) + (
        seq![rest.take(i - from)] + pieces(rest.skip(i - from + 1), set@)));
        from = i + 1;
    }
}

/// What stands in `s` before the first character of `set`.
pub fn split_first(s: &str, set: &[char]) -> (r: String)
    ensures
        r@ == first_piece(s@, set@),
{
    let v = chars_of(s);
    assert(v@.subrange(0, v@.len() as int) =~= v@);
    let i: usize = find_of(&v, set, 0);
    text_of(&v, 0, i)
}

/// The two sides of the first `sep` in `s`.
pub open spec fn halves(s: Seq<char>, sep: char) -> Option<(Seq<char>, Seq<char>)> {
    let i = first_of(s, seq![sep]);
    if i < s.len() {
        Some((s.take(i), s.skip(i + 1)))
    } else {
        None
    }
}

/// The two sides of the first `sep` in `s`, if there is one.
pub fn split_once(s: &str, sep: char) -> (r: Option<(String, String)>)
    ensures
        match r {
            Some((a, b)) => halves(s@, sep) == Some((a@, b@)),
            None => halves(s@, sep) is None,
        },
{
    let v = chars_of(s);
    let set: [char; 1] = [sep];
    assert(v@.subrange(0, v@.len() as int) =~= v@);
    let i: usize = find_of(&v, &set, 0);
    assert(set@ =~= seq![sep]);
    if i < v.len() {
        let a = text_of(&v, 0, i);
        let b = text_of(&v, i + 1, v.len());
        assert(a@ =~= v@.take(i as int));
        assert(b@ =~= v@.skip(i + 1));
        Some((a, b))
    } else {
        None
    }
}

/// `s` without one trailing carriage return.
pub open spec fn without_return(s: Seq<char>) -> Seq<char> {
    if s.len() > 0 && s.last() == '\r' {
        s.drop_last()
    } else {
        s
    }
}

/// The lines of `s`: a line ends with a line feed, with or without a carriage
/// return before it, or with the end of the text.
pub open spec fn lines_of(s: Seq<char>) -> Seq<Seq<char>>
    decreases s.len(),
{
    let i = first_of(s, seq!['\n']);
    if s.len() == 0 {
        Seq::empty()
    } else if 0 <= i < s.len() {
        seq![without_return(s.take(i))] + lines_of(s.skip(i + 1))
    } else {
        seq![s]
    }
}

/// The lines of `s`, in order, without their line ends.
pub fn lines(s: &str) -> (r: Vec<String>)
    ensures
        texts(r@) == lines_of(s@),
{
    let v = chars_of(s);
    let set: [char; 1] = ['\n'];
    assert(set@ =~= seq!['\n']);
    let mut out: Vec<String> = Vec::new();
    let mut from: usize = 0;
    assert(v@.subrange(0, v@.len() as int) =~= v@);
    while from < v.len()
        invariant
            from <= v@.len(),
            v@ == s@,
            set@ == seq!['\n'],
            lines_of(v@) == texts(out@) + lines_of(v@.subrange(from as int, v@.len() as int)),
        decreases v@.len() - from,
    {
        let i: usize = find_of(&v, &set, from);
        let ghost rest = v@.subrange(from as int, v@.len() as int);
        proof {
            lemma_first_of(rest, set@);
        }
        let ghost before = out@;
        if i == v.len() {
            out.push(text_of(&v, from, i));
            assert(texts(out@) =~= texts(before) + seq![rest]);
            proof {
                lemma_first_of(Seq::<char>::empty(), set@);
            }
            return out;
        }
        let to: usize = if i > from && v[i - 1] == '\r' {
            i - 1
        } else {
            i
        };
        out.push(text_of(&v, from, to));
        assert(without_return(rest.take(i - from)) =~= v@.subrange(from as int, to as int));
        assert(rest.skip(i - from + 1) =~= v@.subrange(i + 1, v@.len() as int));
        assert(texts(out@) + lines_of(v@.subrange(i + 1, v@.len() as int)) =~= texts(before) + (
        seq![without_return(rest.take(i - from))] + lines_of(rest.skip(i - from + 1))));
        from = i + 1;
    }
    assert(v@.subrange(from as int, v@.len() as int) =~= Seq::<char>::empty());
    proof {
        lemma_first_of(Seq::<char>::empty(), set@);
    }
    assert(lines_of(Seq::<char>::empty()) =~= Seq::<Seq<char>>::empty());
    assert(texts(out@) + Seq::<Seq<char>>::empty() =~= texts(out@));
    out
}

/// The first line of `s`, or `default` where there is none, without white space round it.
pub open spec fn first_line(s: Seq<char>, default: Seq<char>) -> Seq<char> {
    trimmed(
        if lines_of(s).len() > 0 {
            lines_of(s)[0]
        } else {
            default
        },
    )
}

/// The first line of `s`, or `default` where there is none, without white space round it.
pub fn first_line_or(s: &str, default: &str) -> (r: String)
    ensures
        r@ == first_line(s@, default@),
{
    let all = lines(s);
    if all.len() > 0 {
        assert(texts(all@)[0] == all@[0]@);
        trim(all[0].as_str())
    } else {
        trim(default)
    }
}

/// `c` in lower case, if it is an ASCII letter.
pub open spec fn ascii_lower(c: char) -> char {
    if 'A' <= c <= 'Z' {
        ((c as u8) + 32) as u8 as char
    } else {
        c
    }
}

/// `s` with its ASCII letters in lower case.
pub open spec fn lower(s: Seq<char>) -> Seq<char> {
    s.map_values(|c: char| ascii_lower(c))
}

/// `s` with its ASCII letters in lower case.
pub fn to_lower(s: &str) -> (r: String)
    ensures
        r@ == lower(s@),
{
    let v = chars_of(s);
    let mut out = String::new();
    let mut i: usize = 0;
    while i < v.len()
        invariant
            i <= v@.len(),
            out@ == lower(v@.subrange(0, i as int)),
        decreases v@.len() - i,
    {
        let c = v[i];
        let d: char = if 'A' <= c && c <= 'Z' {
            (c as u8 + 32u8) as char
        } else {
            c
        };
        out.push(d);
        assert(v@.subrange(0, i + 1) =~= v@.subrange(0, i as int).push(c));
        assert(lower(v@.subrange(0, i + 1)) =~= lower(v@.subrange(0, i as int)).push(d));
        i = i + 1;
    }
    assert(v@.subrange(0, i as int) =~= v@);
    out
}

/// `s` with `with` in place of every character of `set`.
pub open spec fn replaced(s: Seq<char>, set: Seq<char>, with: char) -> Seq<char> {
    s.map_values(
        |c: char|
            if set.contains(c) {
                with
            } else {
                c
            },
    )
}

/// `s` with `with` in place of every character of `set`.
pub fn replace(s: &str, set: &[char], with: char) -> (r: String)
    ensures
        r@ == replaced(s@, set@, with),
{
    let v = chars_of(s);
    let mut out = String::new();
    let mut i: usize = 0;
    while i < v.len()
        invariant
            i <= v@.len(),
            out@ == replaced(v@.subrange(0, i as int), set@, with),
        decreases v@.len() - i,
    {
        let c = v[i];
        let d: char = if member(set, c) {
            with
        } else {
            c
        };
        out.push(d);
        assert(v@.subrange(0, i + 1) =~= v@.subrange(0, i as int).push(c));
        assert(replaced(v@.subrange(0, i + 1), set@, with) =~= replaced(
            v@.subrange(0, i as int),
            set@,
            with,
        ).push(d));
        i = i + 1;
    }
    assert(v@.subrange(0, i as int) =~= v@);
    out
}

/// The texts of `parts` with `sep` between them.
pub open spec fn joined(parts: Seq<Seq<char>>, sep: Seq<char>) -> Seq<char>
    decreases parts.len(),
{
    if parts.len() == 0 {
        Seq::empty()
    } else if parts.len() == 1 {
        parts[0]
    } else {
        joined(parts.drop_last(), sep) + sep + parts.last()
    }
}

/// The texts of `parts` with `sep` between them.
pub fn join(parts: &Vec<String>, sep: &str) -> (r: String)
    ensures
        r@ == joined(texts(parts@), sep@),
{
    let mut out = String::new();
    let mut i: usize = 0;
    while i < parts.len()
        invariant
            i <= parts@.len(),
            out@ == joined(texts(parts@).take(i as int), sep@),
        decreases parts@.len() - i,
    {
        if i > 0 {
            out.append(sep);
        }
        out.append(parts[i].as_str());
        let ghost t = texts(parts@).take(i + 1);
        assert(t.drop_last() =~= texts(parts@).take(i as int));
        assert(t.last() == parts@[i as int]@);
        assert(out@ =~= joined(t, sep@));
        i = i + 1;
    }
    assert(texts(parts@).take(i as int) =~= texts(parts@));
    out
}

/// The decimal digit of value `d`.
pub open spec fn digit(d: int) -> char {
    (('0' as u8) + d) as u8 as char
}

/// `n` in decimal digits.
pub open spec fn decimal(n: nat) -> Seq<char>
    decreases n,
{
    if n < 10 {
        seq![digit(n as int)]
    } else {
        decimal(n / 10).push(digit((n % 10) as int))
    }
}

/// `n` in decimal digits.
pub fn to_decimal(n: u64) -> (r: String)
    ensures
        r@ == decimal(n as nat),
    decreases n,
{
    let d: char = (48u8 + (n % 10) as u8) as char;
    if n < 10 {
        let mut out = String::new();
        out.push(d);
        assert(out@ =~= seq![digit(n as int)]);
        out
    } else {
        let mut out = to_decimal(n / 10);
        out.push(d);
        out
    }
}

} // verus!
