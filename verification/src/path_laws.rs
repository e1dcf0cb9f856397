//! What paths and texts are made of: the parts of a path, the lines of a text, the digits
//! of a number.

use crate::bridge_laws;
use crate::ordering;
use crate::paths;
use crate::text;
use vstd::prelude::*;

verus! {

/// Whether a text is a plain name: something, without a slash, and no dot or two alone.
pub open spec fn is_plain_name(name: Seq<char>) -> bool {
    name.len() > 0 && !name.contains('/') && name != seq!['.'] && name != seq!['.', '.']
}

/// A relative path is joined to a directory with one slash; an absolute one stands alone.
pub proof fn joined_paths_have_one_slash(dir: Seq<char>, path: Seq<char>)
    ensures
        path.len() > 0 && path[0] == '/' ==> paths::join_path(dir, path) == path,
        (path.len() == 0 || path[0] != '/') && dir.len() > 0 && dir.last() != '/'
            ==> paths::join_path(dir, path) == dir + seq!['/'] + path,
        (path.len() == 0 || path[0] != '/') && dir.len() > 0 && dir.last() == '/'
            ==> paths::join_path(dir, path) == dir + path,
        dir.len() == 0 ==> paths::join_path(dir, path) == path,
{
    assert(dir.push('/') + path =~= dir + seq!['/'] + path);
}

proof fn lemma_one_segment(name: Seq<char>)
    requires
        !name.contains('/'),
    ensures
        paths::segments(name) == seq![name],
{
    let slash = seq!['/'];
    assert forall|j: int| 0 <= j < name.len() implies !slash.contains(name[j]) by {
        assert(name.contains(name[j]));
    }
    text::lemma_first_of_is(name, slash, name.len() as int);
    assert(paths::segments(name) =~= seq![name]);
}

proof fn lemma_parts_push(s: Seq<Seq<char>>, name: Seq<char>, leading: bool)
    requires
        is_plain_name(name),
    ensures
        paths::parts_from(s.push(name), leading) == paths::parts_from(s, leading).push(name),
    decreases s.len(),
{
    let more = s.push(name);
    if s.len() == 0 {
        assert(more[0] == name);
        assert(more.drop_first() =~= Seq::<Seq<char>>::empty());
        assert(paths::parts_from(more.drop_first(), false) =~= Seq::<Seq<char>>::empty());
        assert(paths::parts_from(more, leading) =~= seq![name]);
        assert(paths::parts_from(s, leading) =~= Seq::<Seq<char>>::empty());
    } else {
        assert(more[0] == s[0]);
        assert(more.drop_first() =~= s.drop_first().push(name));
        lemma_parts_push(s.drop_first(), name, false);
        assert(paths::parts_from(more, leading) =~= paths::parts_from(s, leading).push(name));
    }
}

proof fn lemma_parts_of_empty(s: Seq<Seq<char>>, leading: bool)
    ensures
        paths::parts_from(s.push(Seq::empty()), leading) == paths::parts_from(s, leading),
    decreases s.len(),
{
    let more = s.push(Seq::<char>::empty());
    if s.len() == 0 {
        assert(more[0].len() == 0);
        assert(more.drop_first() =~= Seq::<Seq<char>>::empty());
        assert(s =~= Seq::<Seq<char>>::empty());
        assert(paths::parts_from(more.drop_first(), false) =~= Seq::<Seq<char>>::empty());
        assert(paths::parts_from(s, leading) =~= Seq::<Seq<char>>::empty());
    } else {
        assert(more[0] == s[0]);
        assert(more.drop_first() =~= s.drop_first().push(Seq::empty()));
        lemma_parts_of_empty(s.drop_first(), false);
    }
}

/// The parts of a name in a directory are those of the directory, and the name.
pub proof fn names_are_the_last_part(dir: Seq<char>, name: Seq<char>)
    requires
        is_plain_name(name),
    ensures
        paths::path_parts(paths::join_path(dir, name)) == paths::path_parts(dir).push(name),
{
    let none = Seq::<char>::empty();
    assert(name[0] != '/') by {
        assert(name.contains(name[0]));
    }
    lemma_one_segment(name);
    lemma_one_segment(none);
    let path = paths::join_path(dir, name);
    if dir.len() == 0 {
        assert(dir =~= none);
        assert(seq![name] =~= Seq::<Seq<char>>::empty().push(name));
        lemma_parts_push(Seq::empty(), name, true);
        assert(seq![none] =~= Seq::<Seq<char>>::empty().push(none));
        lemma_parts_of_empty(Seq::empty(), true);
    } else if dir.last() == '/' {
        let front = dir.drop_last();
        assert(dir =~= front.push('/') + none);
        assert(path =~= front.push('/') + name);
        bridge_laws::lemma_segments(front, none);
        bridge_laws::lemma_segments(front, name);
        let s = paths::segments(front);
        assert(s + seq![none] =~= s.push(none));
        assert(s + seq![name] =~= s.push(name));
        let leading = !paths::is_absolute(dir);
        lemma_parts_of_empty(s, leading);
        lemma_parts_push(s, name, leading);
        assert(path[0] == dir[0]);
        assert(paths::path_parts(path) =~= paths::path_parts(dir).push(name));
    } else {
        assert(path =~= dir.push('/') + name);
        bridge_laws::lemma_segments(dir, name);
        let s = paths::segments(dir);
        assert(s + seq![name] =~= s.push(name));
        lemma_parts_push(s, name, !paths::is_absolute(dir));
        assert(path[0] == dir[0]);
        assert(paths::path_parts(path) =~= paths::path_parts(dir).push(name));
    }
}

/// The name of a file is the last part of its path, its directory is what stands before,
/// and a path lies below its directory.
pub proof fn files_have_their_names(dir: Seq<char>, name: Seq<char>)
    requires
        is_plain_name(name),
    ensures
        paths::file_name(paths::join_path(dir, name)) == Some(name),
        paths::path_extension(paths::join_path(dir, name)) == paths::extension(name),
        paths::lies_below(paths::join_path(dir, name), dir),
{
    names_are_the_last_part(dir, name);
    let parts = paths::path_parts(dir);
    assert(parts.push(name).last() == name);
    assert(name != seq!['/']) by {
        if name == seq!['/'] {
            assert(name[0] == '/');
            assert(name.contains('/'));
        }
    }
    assert(parts.push(name).subrange(0, parts.len() as int) =~= parts);
}

/// Two names in one directory are the same path only if they are one name, and a name
/// in a directory does not lie below another one.
pub proof fn different_names_are_different_paths(dir: Seq<char>, a: Seq<char>, b: Seq<char>)
    requires
        is_plain_name(a),
        is_plain_name(b),
        a != b,
    ensures
        !paths::same_path(paths::join_path(dir, a), paths::join_path(dir, b)),
        !paths::lies_below(paths::join_path(dir, a), paths::join_path(dir, b)),
{
    names_are_the_last_part(dir, a);
    names_are_the_last_part(dir, b);
    let parts = paths::path_parts(dir);
    assert(parts.push(a).last() == a && parts.push(b).last() == b);
    if parts.push(b).is_prefix_of(parts.push(a)) {
        assert(parts.push(a).subrange(0, parts.push(b).len() as int) =~= parts.push(a));
    }
}

/// A path leads inside exactly if it is something, does not begin with a slash and holds
/// no two dots alone between slashes.
pub proof fn inner_paths_do_not_climb(first: Seq<char>, second: Seq<char>)
    requires
        is_plain_name(first),
        is_plain_name(second),
    ensures
        paths::is_inside(first),
        paths::is_inside(first + seq!['/'] + second),
        !paths::is_inside(Seq::empty()),
        !paths::is_inside(seq!['/'] + first),
        !paths::is_inside(seq!['.', '.']),
        !paths::is_inside(seq!['.', '.', '/'] + first),
        !paths::is_inside(first + seq!['/', '.', '.']),
        !paths::is_inside(first + seq!['/', '.', '.', '/'] + second),
{
    let up = seq!['.', '.'];
    assert(!up.contains('/'));
    lemma_one_segment(first);
    lemma_one_segment(second);
    lemma_one_segment(up);
    assert(first[0] != '/') by {
        assert(first.contains(first[0]));
    }
    let s1 = seq![first];
    assert(!s1.contains(up));
    assert(first.push('/') + second =~= first + seq!['/'] + second);
    bridge_laws::lemma_segments(first, second);
    let s2 = seq![first] + seq![second];
    assert(!s2.contains(up)) by {
        if s2.contains(up) {
            let k = choose|k: int| 0 <= k < s2.len() && s2[k] == up;
            assert(s2[0] == first && s2[1] == second);
        }
    }
    assert((first + seq!['/'] + second)[0] == first[0]);
    assert((seq!['/'] + first)[0] == '/');
    assert(seq![up][0] == up);
    assert(up.push('/') + first =~= seq!['.', '.', '/'] + first);
    bridge_laws::lemma_segments(up, first);
    assert((seq![up] + seq![first])[0] == up);
    assert(first.push('/') + up =~= first + seq!['/', '.', '.']);
    bridge_laws::lemma_segments(first, up);
    assert((seq![first] + seq![up])[1] == up);
    let rest = up.push('/') + second;
    assert(first.push('/') + rest =~= first + seq!['/', '.', '.', '/'] + second);
    bridge_laws::lemma_segments(up, second);
    bridge_laws::lemma_segments(first, rest);
    assert((seq![first] + (seq![up] + seq![second]))[1] == up);
}

/// A text is read line by line: a line ends with a line feed, or a carriage return and a
/// line feed, and what follows is read in the same way.
pub proof fn lines_end_with_line_feeds(line: Seq<char>, rest: Seq<char>)
    requires
        !line.contains('\n'),
    ensures
        text::lines_of(line + seq!['\n'] + rest) == seq![
            if line.len() > 0 && line.last() == '\r' {
                line.drop_last()
            } else {
                line
            },
        ] + text::lines_of(rest),
        line.len() > 0 ==> text::lines_of(line) == seq![line],
        text::lines_of(Seq::empty()).len() == 0,
{
    let feed = seq!['\n'];
    assert(feed[0] == '\n');
    let whole = line + feed + rest;
    let n = line.len() as int;
    assert forall|j: int| 0 <= j < n implies !feed.contains(line[j]) && whole[j] == line[j] by {
        assert(line.contains(line[j]));
    }
    assert(whole[n] == '\n');
    text::lemma_first_of_is(whole, feed, n);
    assert(whole.take(n) =~= line);
    assert(whole.skip(n + 1) =~= rest);
    text::lemma_first_of_is(line, feed, n);
}

/// The number that decimal digits stand for.
pub open spec fn value_of(digits: Seq<char>) -> int
    decreases digits.len(),
{
    if digits.len() == 0 {
        0
    } else {
        value_of(digits.drop_last()) * 10 + (digits.last() as int - '0' as int)
    }
}

/// The digits of a number stand for it.
pub proof fn digits_stand_for_the_number(n: nat)
    ensures
        value_of(text::decimal(n)) == n,
        text::decimal(n).len() > 0,
        forall|i: int|
            0 <= i < text::decimal(n).len() ==> '0' <= #[trigger] text::decimal(n)[i] <= '9',
    decreases n,
{
    let s = text::decimal(n);
    reveal_with_fuel(value_of, 2);
    if n < 10 {
        assert(s =~= seq![text::digit(n as int)]);
        assert(s.drop_last() =~= Seq::<char>::empty());
    } else {
        digits_stand_for_the_number(n / 10);
        assert(s.drop_last() =~= text::decimal(n / 10));
        assert(s.last() == text::digit((n % 10) as int));
    }
}

/// Lower case changes the letters of the alphabet and nothing else.
pub proof fn lower_case_changes_letters(s: Seq<char>, i: int)
    requires
        0 <= i < s.len(),
    ensures
        text::lower(s).len() == s.len(),
        'A' <= s[i] <= 'Z' ==> text::lower(s)[i] as u32 == s[i] as u32 + 32,
        !('A' <= s[i] <= 'Z') ==> text::lower(s)[i] == s[i],
{
}

/// Spaces, tabs and the ends of lines are white space; letters, digits and punctuation
/// are not.
pub proof fn white_space_is_what_it_is(c: char)
    ensures
        c == ' ' || c == '\t' || c == '\n' || c == '\r' ==> text::is_white(c),
        '!' <= c <= '~' ==> !text::is_white(c),
{
}

/// Trimming takes white space from both ends and nothing else.
pub proof fn trimming_keeps_the_middle(lead: Seq<char>, s: Seq<char>, trail: Seq<char>)
    requires
        text::is_blank(lead),
        text::is_blank(trail),
        s.len() > 0,
        !text::is_white(s[0]),
        !text::is_white(s.last()),
    ensures
        text::trimmed(lead + s + trail) == s,
        text::trimmed(lead).len() == 0,
{
    let white = |c: char| text::is_white(c);
    let body = s + trail;
    let none = Seq::<char>::empty();
    assert(lead + s + trail =~= lead + body);
    assert forall|i: int| 0 <= i < lead.len() implies white(#[trigger] lead[i]) by {}
    assert forall|i: int| 0 <= i < trail.len() implies white(#[trigger] trail[i]) by {}
    crate::requirement_laws::lemma_trim_start_all(lead, body, white);
    assert(body[0] == s[0] && !white(s[0]));
    crate::requirement_laws::lemma_trim_end_all(s, trail, white);
    assert(!white(s.last()));
    crate::requirement_laws::lemma_trim_start_all(lead, none, white);
    assert(lead + none =~= lead);
}

/// Whether a text stands before another, or is the same: at the first place where they
/// differ it has the lower character, or has ended.
pub open spec fn stands_before(a: Seq<char>, b: Seq<char>) -> bool
    decreases a.len(),
{
    if a.len() == 0 {
        true
    } else if b.len() == 0 {
        false
    } else if a[0] != b[0] {
        (a[0] as u32) < (b[0] as u32)
    } else {
        stands_before(a.drop_first(), b.drop_first())
    }
}

proof fn lemma_same_start(p: Seq<u32>, a: Seq<u32>, b: Seq<u32>)
    ensures
        ordering::lex_le(p + a, p + b) == ordering::lex_le(a, b),
    decreases p.len(),
{
    if p.len() == 0 {
        assert(p + a =~= a);
        assert(p + b =~= b);
    } else {
        assert((p + a).drop_first() =~= p.drop_first() + a);
        assert((p + b).drop_first() =~= p.drop_first() + b);
        lemma_same_start(p.drop_first(), a, b);
    }
}

proof fn lemma_name_order(a: Seq<char>, b: Seq<char>)
    ensures
        ordering::lex_le(
            a.map_values(|c: char| (c as u32 + 1) as u32) + seq![0u32],
            b.map_values(|c: char| (c as u32 + 1) as u32) + seq![0u32],
        ) == stands_before(a, b),
    decreases a.len(),
{
    let f = |c: char| (c as u32 + 1) as u32;
    let x = a.map_values(f) + seq![0u32];
    let y = b.map_values(f) + seq![0u32];
    if a.len() == 0 {
        assert(x[0] == 0u32);
        if b.len() == 0 {
            assert(y[0] == 0u32);
            assert(x.drop_first() =~= Seq::<u32>::empty());
            assert(ordering::lex_le(x.drop_first(), y.drop_first()));
        } else {
            vstd::utf8::char_is_scalar(b[0]);
            assert(y[0] == f(b[0]));
        }
    } else if b.len() == 0 {
        vstd::utf8::char_is_scalar(a[0]);
        assert(x[0] == f(a[0]));
        assert(y[0] == 0u32);
    } else {
        vstd::utf8::char_is_scalar(a[0]);
        vstd::utf8::char_is_scalar(b[0]);
        vstd::utf8::char_u32_cast(a[0], a[0] as u32);
        vstd::utf8::char_u32_cast(b[0], b[0] as u32);
        assert(x[0] == f(a[0]));
        assert(y[0] == f(b[0]));
        assert(x.drop_first() =~= a.drop_first().map_values(f) + seq![0u32]);
        assert(y.drop_first() =~= b.drop_first().map_values(f) + seq![0u32]);
        lemma_name_order(a.drop_first(), b.drop_first());
    }
}

/// The entries of a directory are in the order of the characters of their names.
pub proof fn entries_are_in_the_order_of_their_names(dir: Seq<char>, a: Seq<char>, b: Seq<char>)
    requires
        is_plain_name(a),
        is_plain_name(b),
    ensures
        ordering::lex_le(
            paths::path_key(paths::join_path(dir, a)),
            paths::path_key(paths::join_path(dir, b)),
        ) == stands_before(a, b),
{
    names_are_the_last_part(dir, a);
    names_are_the_last_part(dir, b);
    let parts = paths::path_parts(dir);
    let p = paths::parts_key(parts);
    assert(parts.push(a).drop_last() =~= parts);
    assert(parts.push(b).drop_last() =~= parts);
    if a == seq!['/'] {
        assert(a[0] == '/');
        assert(a.contains('/'));
    }
    if b == seq!['/'] {
        assert(b[0] == '/');
        assert(b.contains('/'));
    }
    let f = |c: char| (c as u32 + 1) as u32;
    let three = seq![3u32];
    let x = a.map_values(f) + seq![0u32];
    let y = b.map_values(f) + seq![0u32];
    assert(paths::part_key(a) =~= three + x);
    assert(paths::part_key(b) =~= three + y);
    lemma_same_start(p, three + x, three + y);
    lemma_same_start(three, x, y);
    lemma_name_order(a, b);
}

} // verus!
