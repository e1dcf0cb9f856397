//! What a declared dependency is: the name before its version constraint, whatever the
//! constraint is and wherever it is declared.

use crate::project;
use crate::project::ProjectView;
use crate::python_deps;
use crate::python_packages;
use crate::quoted;
use crate::quoted::Quote;
use crate::text;
use vstd::prelude::*;

verus! {

/// Whether a character can stand in the name of a distribution.
pub open spec fn is_name_char(c: char) -> bool {
    'a' <= c <= 'z' || 'A' <= c <= 'Z' || '0' <= c <= '9' || c == '-' || c == '_' || c == '.'
}

/// Whether a text is the name of a distribution.
pub open spec fn is_distribution(name: Seq<char>) -> bool {
    &&& name.len() > 0
    &&& 'a' <= name[0] <= 'z' || 'A' <= name[0] <= 'Z'
    &&& forall|i: int| 0 <= i < name.len() ==> is_name_char(#[trigger] name[i])
}

/// Whether a character begins a version constraint, extras, an address, a marker or a
/// comment.
pub open spec fn begins_constraint(c: char) -> bool {
    c == '<' || c == '>' || c == '=' || c == '!' || c == '~' || c == '[' || c == '(' || c == '@'
        || c == ';' || c == '#'
}

/// Whether a character stands round an item of a list.
pub open spec fn is_punctuation(c: char) -> bool {
    c == '[' || c == ']' || c == ',' || c == ' ' || c == '"' || c == '\''
}

/// Whether a text is made of spaces.
pub open spec fn is_space(s: Seq<char>) -> bool {
    forall|i: int| 0 <= i < s.len() ==> #[trigger] s[i] == ' '
}

/// Whether a text stands round an item of a list.
pub open spec fn is_round(s: Seq<char>) -> bool {
    forall|i: int| 0 <= i < s.len() ==> is_punctuation(#[trigger] s[i])
}

/// Whether a text is a constraint, after spaces: a comparison such as `<3` or `>=1,<2`,
/// extras, an address, a marker or a comment; or nothing but spaces.
pub open spec fn is_constraint(s: Seq<char>) -> bool {
    exists|n: int|
        0 <= n <= s.len() && is_space(#[trigger] s.take(n)) && (n == s.len() || begins_constraint(
            s[n],
        ))
}

pub proof fn lemma_trim_start_all(a: Seq<char>, s: Seq<char>, p: spec_fn(char) -> bool)
    requires
        forall|i: int| 0 <= i < a.len() ==> p(#[trigger] a[i]),
    ensures
        text::trim_start_by(a + s, p) == text::trim_start_by(s, p),
    decreases a.len(),
{
    if a.len() == 0 {
        assert(a + s =~= s);
    } else {
        assert((a + s).drop_first() =~= a.drop_first() + s);
        assert(p((a + s)[0])) by {
            assert(p(a[0]));
        }
        assert forall|i: int| 0 <= i < a.drop_first().len() implies p(
            #[trigger] a.drop_first()[i],
        ) by {
            assert(p(a[i + 1]));
        }
        lemma_trim_start_all(a.drop_first(), s, p);
    }
}

pub proof fn lemma_trim_end_all(s: Seq<char>, a: Seq<char>, p: spec_fn(char) -> bool)
    requires
        forall|i: int| 0 <= i < a.len() ==> p(#[trigger] a[i]),
    ensures
        text::trim_end_by(s + a, p) == text::trim_end_by(s, p),
    decreases a.len(),
{
    if a.len() == 0 {
        assert(s + a =~= s);
    } else {
        assert((s + a).drop_last() =~= s + a.drop_last());
        assert(p((s + a).last())) by {
            assert(p(a[a.len() - 1]));
        }
        assert forall|i: int| 0 <= i < a.drop_last().len() implies p(
            #[trigger] a.drop_last()[i],
        ) by {
            assert(p(a[i]));
        }
        lemma_trim_end_all(s, a.drop_last(), p);
    }
}

/// Trimming the end of a text keeps a first part that does not end with what is trimmed.
proof fn lemma_trim_end_keeps(name: Seq<char>, tail: Seq<char>, p: spec_fn(char) -> bool) -> (k: int)
    requires
        name.len() > 0,
        !p(name.last()),
    ensures
        0 <= k <= tail.len(),
        text::trim_end_by(name + tail, p) == name + tail.take(k),
    decreases tail.len(),
{
    if tail.len() == 0 {
        assert(name + tail =~= name);
        assert(name + tail.take(0) =~= name);
        0
    } else if p(tail.last()) {
        assert((name + tail).drop_last() =~= name + tail.drop_last());
        assert((name + tail).last() == tail.last());
        let k = lemma_trim_end_keeps(name, tail.drop_last(), p);
        assert(tail.drop_last().take(k) =~= tail.take(k));
        k
    } else {
        assert((name + tail).last() == tail.last());
        assert(tail.take(tail.len() as int) =~= tail);
        tail.len() as int
    }
}

/// The first piece of a text keeps a first part that holds no mark.
proof fn lemma_first_piece_keeps(name: Seq<char>, tail: Seq<char>, set: Seq<char>) -> (k: int)
    requires
        forall|i: int| 0 <= i < name.len() ==> !set.contains(#[trigger] name[i]),
    ensures
        0 <= k <= tail.len(),
        text::first_piece(name + tail, set) == name + tail.take(k),
        forall|i: int| 0 <= i < k ==> !set.contains(#[trigger] tail[i]),
        k < tail.len() ==> set.contains(tail[k]),
{
    text::lemma_first_of(tail, set);
    let k = text::first_of(tail, set);
    let whole = name + tail;
    let n = name.len() + k;
    assert forall|j: int| 0 <= j < n implies !set.contains(whole[j]) by {
        if j < name.len() {
            assert(whole[j] == name[j]);
        } else {
            assert(whole[j] == tail[j - name.len()]);
        }
    }
    if n < whole.len() {
        assert(whole[n] == tail[k]);
    }
    text::lemma_first_of_is(whole, set, n);
    assert(whole.take(n) =~= name + tail.take(k));
    k
}

proof fn lemma_constraint_prefix(tail: Seq<char>, k: int)
    requires
        is_constraint(tail),
        0 <= k <= tail.len(),
    ensures
        is_constraint(tail.take(k)),
{
    let n = choose|n: int|
        0 <= n <= tail.len() && is_space(#[trigger] tail.take(n)) && (n == tail.len()
            || begins_constraint(tail[n]));
    let m = if n < k {
        n
    } else {
        k
    };
    assert forall|i: int| 0 <= i < m implies #[trigger] tail.take(k).take(m)[i] == ' ' by {
        assert(tail.take(n)[i] == ' ');
    }
    assert(is_space(tail.take(k).take(m)));
}

/// A constraint that holds none of the marks is made of spaces.
proof fn lemma_bare_constraint(tail: Seq<char>)
    requires
        is_constraint(tail),
        forall|i: int| 0 <= i < tail.len() ==> !begins_constraint(#[trigger] tail[i]),
    ensures
        is_space(tail),
{
    let n = choose|n: int|
        0 <= n <= tail.len() && is_space(#[trigger] tail.take(n)) && (n == tail.len()
            || begins_constraint(tail[n]));
    if n < tail.len() {
        assert(!begins_constraint(tail[n]));
    }
    assert(tail.take(n) =~= tail);
}

pub proof fn lemma_name_chars(name: Seq<char>)
    requires
        is_distribution(name),
    ensures
        forall|i: int|
            0 <= i < name.len() ==> !text::is_white(#[trigger] name[i]) && !is_punctuation(name[i])
                && !begins_constraint(name[i]),
{
    assert forall|i: int| 0 <= i < name.len() implies !text::is_white(#[trigger] name[i])
        && !is_punctuation(name[i]) && !begins_constraint(name[i]) by {
        assert(is_name_char(name[i]));
    }
}

proof fn lemma_sets()
    ensures
        forall|c: char| #[trigger]
            python_deps::constraint_marks().contains(c) <==> (begins_constraint(c) && c != ';' && c
                != '#'),
        forall|c: char| #[trigger] python_deps::list_marks().contains(c) <==> is_punctuation(c),
{
    let m = python_deps::constraint_marks();
    assert(m[0] == '<' && m[1] == '>' && m[2] == '=' && m[3] == '!' && m[4] == '~' && m[5] == '['
        && m[6] == '(' && m[7] == '@');
    let l = python_deps::list_marks();
    assert(l[0] == '[' && l[1] == ']' && l[2] == ',' && l[3] == ' ' && l[4] == '"' && l[5] == '\'');
}

/// A name with a constraint behind it, and no marker or comment in between, is read as
/// the name.
proof fn lemma_without_constraint(name: Seq<char>, tail: Seq<char>)
    requires
        is_distribution(name),
        is_constraint(tail),
        forall|i: int| 0 <= i < tail.len() ==> #[trigger] tail[i] != ';' && tail[i] != '#',
    ensures
        python_deps::without_constraint(name + tail) == name,
{
    lemma_name_chars(name);
    lemma_sets();
    let marks = python_deps::constraint_marks();
    assert forall|i: int| 0 <= i < name.len() implies !marks.contains(#[trigger] name[i]) by {
        assert(!begins_constraint(name[i]));
    }
    let k = lemma_first_piece_keeps(name, tail, marks);
    let rest = tail.take(k);
    lemma_constraint_prefix(tail, k);
    assert forall|i: int| 0 <= i < rest.len() implies !begins_constraint(#[trigger] rest[i]) by {
        assert(rest[i] == tail[i]);
        assert(!marks.contains(tail[i]));
    }
    lemma_bare_constraint(rest);
    lemma_trim_spaces(name, rest);
}

/// A name with spaces behind it is trimmed to the name.
pub proof fn lemma_trim_spaces(name: Seq<char>, rest: Seq<char>)
    requires
        is_distribution(name),
        is_space(rest),
    ensures
        text::trimmed(name + rest) == name,
{
    let white = |c: char| text::is_white(c);
    lemma_name_chars(name);
    assert((name + rest)[0] == name[0]);
    assert(!white(name[0]));
    assert(text::trim_start_by(name + rest, white) == name + rest);
    assert forall|i: int| 0 <= i < rest.len() implies white(#[trigger] rest[i]) by {}
    lemma_trim_end_all(name, rest, white);
    assert(!white(name.last())) by {
        assert(name.last() == name[name.len() - 1]);
    }
}

/// Trimming white space from the end keeps an item, whatever stands before it.
proof fn lemma_trim_order(lead: Seq<char>, name: Seq<char>, tail: Seq<char>) -> (k: int)
    requires
        is_round(lead),
        is_distribution(name),
    ensures
        0 <= k <= tail.len(),
        text::trimmed_of(text::trimmed(lead + name + tail), python_deps::list_marks()) == name
            + tail.take(k),
        is_round(tail) ==> k == 0,
{
    let white = |c: char| text::is_white(c);
    let mark = |c: char| python_deps::list_marks().contains(c);
    lemma_name_chars(name);
    lemma_sets();
    let item = name + tail;
    assert(lead + name + tail =~= lead + item);
    assert(item[0] == name[0]);
    // White space goes from the start, then from the end.
    let first = text::trim_start_by(lead + item, white);
    let before = lemma_trim_white_start(lead, item);
    assert(first == before + item);
    let head = before + name;
    assert(before + item =~= head + tail);
    assert(head.last() == name[name.len() - 1]);
    assert(!white(head.last()));
    let j = lemma_trim_end_keeps(head, tail, white);
    assert(text::trimmed(lead + name + tail) == head + tail.take(j));
    assert(head + tail.take(j) =~= before + (name + tail.take(j)));
    // Then what stands round the item goes from both ends.
    assert forall|i: int| 0 <= i < before.len() implies mark(#[trigger] before[i]) by {
        assert(is_punctuation(before[i]));
    }
    lemma_trim_start_all(before, name + tail.take(j), mark);
    assert((name + tail.take(j))[0] == name[0]);
    assert(!mark(name[0]));
    assert(text::trim_start_by(name + tail.take(j), mark) == name + tail.take(j));
    assert(!mark(name.last())) by {
        assert(name.last() == name[name.len() - 1]);
    }
    let k = lemma_trim_end_keeps(name, tail.take(j), mark);
    assert(tail.take(j).take(k) =~= tail.take(k));
    if is_round(tail) {
        assert forall|i: int| 0 <= i < tail.take(j).len() implies mark(
            #[trigger] tail.take(j)[i],
        ) by {
            assert(is_punctuation(tail[i]));
        }
        lemma_trim_end_all(name, tail.take(j), mark);
        assert(name + tail.take(k) == name);
        assert((name + tail.take(k)).len() == name.len() + k);
    }
    k
}

proof fn lemma_trim_white_start(lead: Seq<char>, item: Seq<char>) -> (before: Seq<char>)
    requires
        is_round(lead),
        item.len() > 0,
        !text::is_white(item[0]),
    ensures
        is_round(before),
        text::trim_start_by(lead + item, |c: char| text::is_white(c)) == before + item,
    decreases lead.len(),
{
    let white = |c: char| text::is_white(c);
    if lead.len() > 0 && white(lead[0]) {
        assert((lead + item).drop_first() =~= lead.drop_first() + item);
        assert forall|i: int| 0 <= i < lead.drop_first().len() implies is_punctuation(
            #[trigger] lead.drop_first()[i],
        ) by {
            assert(is_punctuation(lead[i + 1]));
        }
        lemma_trim_white_start(lead.drop_first(), item)
    } else {
        if lead.len() == 0 {
            assert(lead + item =~= item);
        }
        assert(text::trim_start_by(lead + item, white) == lead + item);
        lead
    }
}

/// An item of a list declares the distribution that it names, whatever constraint,
/// extras, marker or comment follows the name and whatever stands round the item.
pub proof fn items_declare_what_they_name(lead: Seq<char>, name: Seq<char>, tail: Seq<char>)
    requires
        is_round(lead),
        is_distribution(name),
        is_constraint(tail) || is_round(tail),
    ensures
        python_deps::dependency_token(lead + name + tail) == Some(name),
{
    lemma_name_chars(name);
    lemma_sets();
    let whole = lead + name;
    let hash = seq!['#'];
    assert forall|i: int| 0 <= i < whole.len() implies !hash.contains(#[trigger] whole[i]) by {
        if i < lead.len() {
            assert(is_punctuation(lead[i]));
        } else {
            assert(!begins_constraint(name[i - lead.len()]));
        }
    }
    let a = lemma_first_piece_keeps(whole, tail, hash);
    let tail_a = tail.take(a);
    assert(lead + name + tail_a =~= whole + tail_a);
    if is_round(tail) {
        assert forall|i: int| 0 <= i < tail_a.len() implies is_punctuation(#[trigger] tail_a[i]) by {
            assert(is_punctuation(tail[i]));
        }
    } else {
        lemma_constraint_prefix(tail, a);
    }
    let b = lemma_trim_order(lead, name, tail_a);
    let tail_b = tail_a.take(b);
    let semicolon = seq![';'];
    assert forall|i: int| 0 <= i < name.len() implies !semicolon.contains(#[trigger] name[i]) by {
        assert(!begins_constraint(name[i]));
    }
    let c = lemma_first_piece_keeps(name, tail_b, semicolon);
    let tail_c = tail_b.take(c);
    if is_round(tail) {
        assert(tail_c =~= Seq::<char>::empty());
        assert(is_space(tail_c.take(0)));
    } else {
        lemma_constraint_prefix(tail_a, b);
        lemma_constraint_prefix(tail_b, c);
    }
    assert forall|i: int| 0 <= i < tail_c.len() implies #[trigger] tail_c[i] != ';' && tail_c[i]
        != '#' by {
        assert(tail_c[i] == tail_b[i]);
        assert(!semicolon.contains(tail_b[i]));
        assert(semicolon[0] == ';' && hash[0] == '#');
        assert(tail_c[i] == tail[i]);
        assert(!hash.contains(tail[i]));
    }
    lemma_without_constraint(name, tail_c);
    assert(name[0] == name[0]);
}

proof fn lemma_trimmed_part(s: Seq<char>, p: spec_fn(char) -> bool, q: spec_fn(char) -> bool, c: char)
    ensures
        text::trim_end_by(text::trim_start_by(s, p), q).contains(c) ==> s.contains(c),
{
    lemma_trim_start_part(s, p, c);
    lemma_trim_end_part(text::trim_start_by(s, p), q, c);
}

proof fn lemma_trim_start_part(s: Seq<char>, p: spec_fn(char) -> bool, c: char)
    ensures
        text::trim_start_by(s, p).contains(c) ==> s.contains(c),
    decreases s.len(),
{
    if s.len() > 0 && p(s[0]) {
        lemma_trim_start_part(s.drop_first(), p, c);
        if s.drop_first().contains(c) {
            let i = choose|i: int| 0 <= i < s.drop_first().len() && s.drop_first()[i] == c;
            assert(s[i + 1] == c);
        }
    }
}

proof fn lemma_trim_end_part(s: Seq<char>, p: spec_fn(char) -> bool, c: char)
    ensures
        text::trim_end_by(s, p).contains(c) ==> s.contains(c),
    decreases s.len(),
{
    if s.len() > 0 && p(s.last()) {
        lemma_trim_end_part(s.drop_last(), p, c);
        if s.drop_last().contains(c) {
            let i = choose|i: int| 0 <= i < s.drop_last().len() && s.drop_last()[i] == c;
            assert(s[i] == c);
        }
    }
}

proof fn lemma_trimmed_ends(s: Seq<char>)
    ensures
        text::trimmed(s).len() > 0 ==> !text::is_white(text::trimmed(s)[0]) && !text::is_white(
            text::trimmed(s).last(),
        ),
{
    let white = |c: char| text::is_white(c);
    let t = text::trim_start_by(s, white);
    lemma_trim_start_end(s, white);
    lemma_trim_end_end(t, white);
}

proof fn lemma_trim_start_end(s: Seq<char>, p: spec_fn(char) -> bool)
    ensures
        text::trim_start_by(s, p).len() > 0 ==> !p(text::trim_start_by(s, p)[0]),
    decreases s.len(),
{
    if s.len() > 0 && p(s[0]) {
        lemma_trim_start_end(s.drop_first(), p);
    }
}

proof fn lemma_trim_end_end(s: Seq<char>, p: spec_fn(char) -> bool)
    ensures
        text::trim_end_by(s, p).len() > 0 ==> !p(text::trim_end_by(s, p).last())
            && text::trim_end_by(s, p)[0] == s[0],
    decreases s.len(),
{
    if s.len() > 0 && p(s.last()) {
        lemma_trim_end_end(s.drop_last(), p);
    }
}

proof fn lemma_piece_part(s: Seq<char>, set: Seq<char>, c: char)
    ensures
        text::first_piece(s, set).contains(c) ==> s.contains(c) && !set.contains(c),
{
    text::lemma_first_of(s, set);
    let piece = text::first_piece(s, set);
    if piece.contains(c) {
        let i = choose|i: int| 0 <= i < piece.len() && piece[i] == c;
        assert(s[i] == c);
    }
}

/// A name that is declared begins with a letter, holds no comparison sign and no other
/// mark of a constraint, and has no white space round it.
pub proof fn declared_names_are_bare(value: Seq<char>, name: Seq<char>)
    requires
        python_deps::dependency_token(value) == Some(name),
    ensures
        name.len() > 0,
        'a' <= name[0] <= 'z' || 'A' <= name[0] <= 'Z',
        forall|i: int| 0 <= i < name.len() ==> !begins_constraint(#[trigger] name[i]),
        !text::is_white(name.last()),
{
    let white = |c: char| text::is_white(c);
    let mark = |c: char| python_deps::list_marks().contains(c);
    let hash = seq!['#'];
    let semicolon = seq![';'];
    assert(hash[0] == '#' && semicolon[0] == ';');
    lemma_sets();
    let uncommented = text::first_piece(value, hash);
    let trimmed = text::trimmed(uncommented);
    let item = text::trimmed_of(trimmed, python_deps::list_marks());
    let unmarked = text::first_piece(item, semicolon);
    let bare = text::first_piece(unmarked, python_deps::constraint_marks());
    assert(name == text::trimmed(bare));
    lemma_trimmed_ends(bare);
    assert forall|i: int| 0 <= i < name.len() implies !begins_constraint(#[trigger] name[i]) by {
        let c = name[i];
        assert(name.contains(c));
        lemma_trimmed_part(bare, white, white, c);
        lemma_piece_part(unmarked, python_deps::constraint_marks(), c);
        lemma_piece_part(item, semicolon, c);
        lemma_trimmed_part(trimmed, mark, mark, c);
        lemma_trimmed_part(uncommented, white, white, c);
        lemma_piece_part(value, hash, c);
    }
}

/// What an installed distribution requires is the distribution that the line of its
/// metadata names, whatever constraint follows the name.
pub proof fn metadata_requires_what_it_names(gap: Seq<char>, name: Seq<char>, tail: Seq<char>)
    requires
        is_space(gap),
        is_distribution(name),
        is_constraint(tail),
        !tail.contains('#'),
    ensures
        text::has_text(gap + name + tail, "extra =="@) ==> python_packages::requirement(
            "Requires-Dist:"@ + (gap + name + tail),
        ) is None,
        !text::has_text(gap + name + tail, "extra =="@) ==> python_packages::requirement(
            "Requires-Dist:"@ + (gap + name + tail),
        ) == Some(name),
{
    let rest = gap + name + tail;
    let line = "Requires-Dist:"@ + rest;
    let white = |c: char| text::is_white(c);
    lemma_name_chars(name);
    lemma_sets();
    reveal_strlit("Requires-Dist:");
    assert("Requires-Dist:"@.is_prefix_of(line)) by {
        assert(line.subrange(0, "Requires-Dist:"@.len() as int) =~= "Requires-Dist:"@);
    }
    assert(line.subrange("Requires-Dist:"@.len() as int, line.len() as int) =~= rest);
    let item = name + tail;
    assert(rest =~= gap + item);
    assert forall|i: int| 0 <= i < gap.len() implies white(#[trigger] gap[i]) by {}
    lemma_trim_start_all(gap, item, white);
    assert(item[0] == name[0] && !white(name[0]));
    assert(text::trim_start_by(item, white) == item);
    assert(!white(name.last())) by {
        assert(name.last() == name[name.len() - 1]);
    }
    let a = lemma_trim_end_keeps(name, tail, white);
    let tail_a = tail.take(a);
    lemma_constraint_prefix(tail, a);
    let semicolon = seq![';'];
    assert forall|i: int| 0 <= i < name.len() implies !semicolon.contains(#[trigger] name[i]) by {
        assert(!begins_constraint(name[i]));
    }
    let b = lemma_first_piece_keeps(name, tail_a, semicolon);
    let tail_b = tail_a.take(b);
    lemma_constraint_prefix(tail_a, b);
    assert forall|i: int| 0 <= i < tail_b.len() implies #[trigger] tail_b[i] != ';' && tail_b[i]
        != '#' by {
        assert(!semicolon.contains(tail_a[i]));
        assert(semicolon[0] == ';');
        assert(tail.contains(tail[i]));
    }
    lemma_without_constraint(name, tail_b);
}

pub proof fn lemma_token_is_there(items: Seq<Seq<char>>, i: int, name: Seq<char>)
    requires
        0 <= i < items.len(),
        python_deps::dependency_token(items[i]) == Some(name),
    ensures
        python_deps::tokens(items).contains(name),
    decreases items.len(),
{
    let rest = python_deps::tokens(items.drop_first());
    let all = python_deps::tokens(items);
    if i == 0 {
        assert(all[0] == name);
    } else {
        assert(items.drop_first()[i - 1] == items[i]);
        lemma_token_is_there(items.drop_first(), i - 1, name);
        let k = choose|k: int| 0 <= k < rest.len() && rest[k] == name;
        if python_deps::dependency_token(items[0]) is Some {
            assert(all[k + 1] == name);
        } else {
            assert(all[k] == name);
        }
    }
}

/// Whether a dependency of a project has the name, as names are compared.
pub open spec fn is_dependency(p: ProjectView, name: Seq<char>) -> bool {
    exists|i: int|
        0 <= i < python_deps::direct_dependencies(p).len() && python_deps::normalized(
            #[trigger] python_deps::direct_dependencies(p)[i],
        ) == python_deps::normalized(name)
}

pub proof fn lemma_declared_is_dependency(p: ProjectView, name: Seq<char>)
    requires
        python_deps::declared(p).contains(name),
    ensures
        is_dependency(p, name),
{
    python_deps::direct_dependencies_are_distinct(p);
    let all = python_deps::declared(p);
    let i = choose|i: int| 0 <= i < all.len() && all[i] == name;
    assert(python_deps::declared(p)[i] == name);
}

/// Every line of `requirements.txt` that names a distribution makes it a dependency of
/// the project.
pub proof fn requirement_lines_are_dependencies(
    p: ProjectView,
    contents: Seq<char>,
    i: int,
    lead: Seq<char>,
    name: Seq<char>,
    tail: Seq<char>,
)
    requires
        project::source_text(p, "requirements.txt"@) == Some(contents),
        0 <= i < text::lines_of(contents).len(),
        text::lines_of(contents)[i] == lead + name + tail,
        is_round(lead),
        is_distribution(name),
        is_constraint(tail) || is_round(tail),
    ensures
        is_dependency(p, name),
{
    items_declare_what_they_name(lead, name, tail);
    let first = python_deps::tokens(text::lines_of(contents));
    lemma_token_is_there(text::lines_of(contents), i, name);
    let k = choose|k: int| 0 <= k < first.len() && first[k] == name;
    assert(python_deps::declared(p)[k] == name);
    lemma_declared_is_dependency(p, name);
}

/// Whether a character is a quote.
pub open spec fn is_quote(mark: char) -> bool {
    mark == '"' || mark == '\''
}

/// Whether a text can stand in quotes as it is.
pub open spec fn is_quotable(mark: char, s: Seq<char>) -> bool {
    forall|i: int| 0 <= i < s.len() ==> #[trigger] s[i] != mark && s[i] != '\\'
}

/// A text in quotes.
pub open spec fn in_quotes(mark: char, s: Seq<char>) -> Seq<char> {
    seq![mark] + s + seq![mark]
}

/// Texts in quotes, with a comma and a space between each and the next.
pub open spec fn quoted_list(mark: char, items: Seq<Seq<char>>) -> Seq<char>
    decreases items.len(),
{
    if items.len() == 0 {
        Seq::empty()
    } else if items.len() == 1 {
        in_quotes(mark, items[0])
    } else {
        in_quotes(mark, items[0]) + seq![',', ' '] + quoted_list(mark, items.drop_first())
    }
}

/// Nothing is found in quotes, and what follows the closing quote is outside.
proof fn lemma_inside(mark: char, s: Seq<char>, rest: Seq<char>, set: Seq<char>)
    requires
        is_quotable(mark, s),
    ensures
        quoted::first_unquoted(s + seq![mark] + rest, set, Quote::Inside(mark)) == s.len() + 1
            + quoted::first_unquoted(rest, set, Quote::Outside),
    decreases s.len(),
{
    let whole = s + seq![mark] + rest;
    if s.len() == 0 {
        assert(whole[0] == mark);
        assert(whole.drop_first() =~= rest);
    } else {
        assert(whole[0] == s[0]);
        assert(whole.drop_first() =~= s.drop_first() + seq![mark] + rest);
        assert forall|i: int| 0 <= i < s.drop_first().len() implies #[trigger] s.drop_first()[i]
            != mark && s.drop_first()[i] != '\\' by {
            assert(s[i + 1] != mark && s[i + 1] != '\\');
        }
        lemma_inside(mark, s.drop_first(), rest, set);
    }
}

pub proof fn lemma_in_quotes(mark: char, s: Seq<char>, rest: Seq<char>, set: Seq<char>)
    requires
        is_quote(mark),
        is_quotable(mark, s),
        !set.contains(mark),
    ensures
        quoted::first_unquoted(in_quotes(mark, s) + rest, set, Quote::Outside) == s.len() + 2
            + quoted::first_unquoted(rest, set, Quote::Outside),
{
    let whole = in_quotes(mark, s) + rest;
    assert(whole[0] == mark);
    assert(whole.drop_first() =~= s + seq![mark] + rest);
    lemma_inside(mark, s, rest, set);
}

/// A text without quotes and marks is passed over.
pub proof fn lemma_plain(s: Seq<char>, rest: Seq<char>, set: Seq<char>)
    requires
        forall|i: int|
            0 <= i < s.len() ==> #[trigger] s[i] != '"' && s[i] != '\'' && !set.contains(s[i]),
    ensures
        quoted::first_unquoted(s + rest, set, Quote::Outside) == s.len() + quoted::first_unquoted(
            rest,
            set,
            Quote::Outside,
        ),
    decreases s.len(),
{
    if s.len() == 0 {
        assert(s + rest =~= rest);
    } else {
        assert((s + rest)[0] == s[0]);
        assert((s + rest).drop_first() =~= s.drop_first() + rest);
        assert forall|i: int| 0 <= i < s.drop_first().len() implies #[trigger] s.drop_first()[i]
            != '"' && s.drop_first()[i] != '\'' && !set.contains(s.drop_first()[i]) by {
            assert(s[i + 1] != '"');
        }
        lemma_plain(s.drop_first(), rest, set);
    }
}

/// Nothing but the commas is found outside the quotes of a list.
pub proof fn lemma_quoted_list(mark: char, items: Seq<Seq<char>>, rest: Seq<char>, set: Seq<char>)
    requires
        is_quote(mark),
        forall|i: int| 0 <= i < items.len() ==> is_quotable(mark, #[trigger] items[i]),
        !set.contains(mark),
        !set.contains(','),
        !set.contains(' '),
    ensures
        quoted::first_unquoted(quoted_list(mark, items) + rest, set, Quote::Outside) == quoted_list(
            mark,
            items,
        ).len() + quoted::first_unquoted(rest, set, Quote::Outside),
    decreases items.len(),
{
    if items.len() == 0 {
        assert(quoted_list(mark, items) + rest =~= rest);
    } else if items.len() == 1 {
        lemma_in_quotes(mark, items[0], rest, set);
    } else {
        let more = quoted_list(mark, items.drop_first()) + rest;
        let between = seq![',', ' '];
        assert forall|i: int| 0 <= i < items.drop_first().len() implies is_quotable(
            mark,
            #[trigger] items.drop_first()[i],
        ) by {
            assert(is_quotable(mark, items[i + 1]));
        }
        lemma_quoted_list(mark, items.drop_first(), rest, set);
        lemma_plain(between, more, set);
        lemma_in_quotes(mark, items[0], between + more, set);
        assert(quoted_list(mark, items) + rest =~= in_quotes(mark, items[0]) + (between + more));
    }
}

/// The items of a list are parted at the commas outside the quotes.
proof fn lemma_items_parted(mark: char, items: Seq<Seq<char>>, lead: Seq<char>)
    requires
        is_quote(mark),
        items.len() > 0,
        is_space(lead),
        forall|i: int| 0 <= i < items.len() ==> is_quotable(mark, #[trigger] items[i]),
    ensures
        quoted::unquoted_pieces(lead + quoted_list(mark, items), seq![',']) == Seq::new(
            items.len(),
            |i: int|
                (if i == 0 {
                    lead
                } else {
                    seq![' ']
                }) + in_quotes(mark, items[i]),
        ),
    decreases items.len(),
{
    let comma = seq![','];
    assert(comma[0] == ',');
    let whole = lead + quoted_list(mark, items);
    let wanted = Seq::new(
        items.len(),
        |i: int|
            (if i == 0 {
                lead
            } else {
                seq![' ']
            }) + in_quotes(mark, items[i]),
    );
    assert forall|i: int| 0 <= i < lead.len() implies #[trigger] lead[i] != '"' && lead[i] != '\''
        && !comma.contains(lead[i]) by {}
    lemma_plain(lead, quoted_list(mark, items), comma);
    if items.len() == 1 {
        let none = Seq::<char>::empty();
        assert(in_quotes(mark, items[0]) + none =~= in_quotes(mark, items[0]));
        lemma_in_quotes(mark, items[0], none, comma);
        assert(quoted::first_unquoted(whole, comma, Quote::Outside) == whole.len());
        assert(quoted::unquoted_pieces(whole, comma) =~= wanted);
    } else {
        let rest = items.drop_first();
        let more = seq![' '] + quoted_list(mark, rest);
        let tail = seq![','] + more;
        assert(quoted_list(mark, items) =~= in_quotes(mark, items[0]) + tail);
        lemma_in_quotes(mark, items[0], tail, comma);
        assert(tail[0] == ',');
        assert(quoted::first_unquoted(tail, comma, Quote::Outside) == 0);
        let n = (lead.len() + in_quotes(mark, items[0]).len()) as int;
        assert(quoted::first_unquoted(whole, comma, Quote::Outside) == n);
        assert(whole.take(n) =~= lead + in_quotes(mark, items[0]));
        assert(whole.skip(n + 1) =~= more);
        assert forall|i: int| 0 <= i < rest.len() implies is_quotable(mark, #[trigger] rest[i]) by {
            assert(is_quotable(mark, items[i + 1]));
        }
        lemma_items_parted(mark, rest, seq![' ']);
        assert(quoted::unquoted_pieces(whole, comma) =~= wanted);
    }
}

/// A list of items in quotes, up to the bracket that closes it, gives the items.
proof fn lemma_list_items(mark: char, items: Seq<Seq<char>>, lead: Seq<char>, rest: Seq<char>)
    requires
        is_quote(mark),
        items.len() > 0,
        is_space(lead),
        forall|i: int| 0 <= i < items.len() ==> is_quotable(mark, #[trigger] items[i]),
    ensures
        python_deps::list_items(lead + quoted_list(mark, items) + seq![']'] + rest)
            == quoted::unquoted_pieces(lead + quoted_list(mark, items), seq![',']),
        quoted::has_unquoted(lead + quoted_list(mark, items) + seq![']'] + rest, seq![']']),
{
    let bracket = seq![']'];
    assert(bracket[0] == ']');
    let inner = lead + quoted_list(mark, items);
    let tail = bracket + rest;
    let whole = inner + bracket + rest;
    assert(whole =~= lead + (quoted_list(mark, items) + tail));
    assert forall|i: int| 0 <= i < lead.len() implies #[trigger] lead[i] != '"' && lead[i] != '\''
        && !bracket.contains(lead[i]) by {}
    lemma_plain(lead, quoted_list(mark, items) + tail, bracket);
    lemma_quoted_list(mark, items, tail, bracket);
    assert(tail[0] == ']');
    assert(quoted::first_unquoted(tail, bracket, Quote::Outside) == 0);
    assert(whole.take(inner.len() as int) =~= inner);
}

/// Every item in quotes of a list declares the distribution that it names: commas and
/// brackets in the quotes belong to the item.
pub proof fn lists_declare_every_item(
    mark: char,
    items: Seq<Seq<char>>,
    lead: Seq<char>,
    rest: Seq<char>,
    i: int,
    name: Seq<char>,
    tail: Seq<char>,
)
    requires
        is_quote(mark),
        is_space(lead),
        forall|k: int| 0 <= k < items.len() ==> is_quotable(mark, #[trigger] items[k]),
        0 <= i < items.len(),
        items[i] == name + tail,
        is_distribution(name),
        is_constraint(tail),
    ensures
        python_deps::tokens(
            python_deps::list_items(lead + quoted_list(mark, items) + seq![']'] + rest),
        ).contains(name),
{
    lemma_list_items(mark, items, lead, rest);
    lemma_items_parted(mark, items, lead);
    let pieces = quoted::unquoted_pieces(lead + quoted_list(mark, items), seq![',']);
    let first = if i == 0 {
        lead
    } else {
        seq![' ']
    };
    let round = first + seq![mark];
    let behind = tail + seq![mark];
    assert(pieces[i] =~= round + name + behind);
    assert forall|k: int| 0 <= k < round.len() implies is_punctuation(#[trigger] round[k]) by {}
    lemma_constraint_or_quote(mark, tail);
    items_declare_what_they_name(round, name, behind);
    lemma_token_is_there(pieces, i, name);
}

/// A constraint with a quote behind it is a constraint still, or stands round the item.
pub proof fn lemma_constraint_or_quote(mark: char, tail: Seq<char>)
    requires
        is_quote(mark),
        is_constraint(tail),
    ensures
        is_constraint(tail + seq![mark]) || is_round(tail + seq![mark]),
{
    let behind = tail + seq![mark];
    let n = choose|n: int|
        0 <= n <= tail.len() && is_space(#[trigger] tail.take(n)) && (n == tail.len()
            || begins_constraint(tail[n]));
    if n < tail.len() {
        assert(behind.take(n) =~= tail.take(n));
        assert(behind[n] == tail[n]);
        assert(is_space(behind.take(n)));
    } else {
        assert(tail.take(n) =~= tail);
        assert forall|k: int| 0 <= k < behind.len() implies is_punctuation(#[trigger] behind[k]) by {
            if k < tail.len() {
                assert(tail.take(n)[k] == ' ');
            }
        }
    }
}

/// Nothing declares nothing.
pub proof fn lemma_empty_item()
    ensures
        python_deps::dependency_token(Seq::empty()) is None,
{
    let none = Seq::<char>::empty();
    assert(none.take(0) =~= none);
    assert(text::first_of(none, seq!['#']) == 0);
    assert(text::first_of(none, seq![';']) == 0);
    assert(text::first_of(none, python_deps::constraint_marks()) == 0);
    assert(python_deps::token_text(none) =~= none);
}

/// A comment declares nothing.
pub proof fn comments_declare_nothing(lead: Seq<char>, comment: Seq<char>)
    requires
        is_space(lead),
    ensures
        python_deps::dependency_token(lead + seq!['#'] + comment) is None,
{
    let hash = seq!['#'];
    assert(hash[0] == '#');
    let tail = hash + comment;
    assert(lead + hash + comment =~= lead + tail);
    let k = lemma_first_piece_keeps(lead, tail, hash);
    if k > 0 {
        assert(!hash.contains(tail[0]));
    }
    assert(tail.take(0) =~= Seq::<char>::empty());
    assert(lead + tail.take(0) =~= lead);
    let white = |c: char| text::is_white(c);
    let none = Seq::<char>::empty();
    assert forall|i: int| 0 <= i < lead.len() implies white(#[trigger] lead[i]) by {}
    lemma_trim_start_all(lead, none, white);
    assert(lead + none =~= lead);
    assert(text::trimmed(lead) =~= none);
    lemma_empty_item();
    assert(none.take(0) =~= none);
    assert(text::first_of(none, hash) == 0);
    assert(text::trimmed(none) =~= none);
}

} // verus!
