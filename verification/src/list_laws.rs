//! That a list of dependencies in `pyproject.toml` or `setup.py` declares every item,
//! on one line or over several.

use crate::project;
use crate::project::ProjectView;
use crate::python_deps;
use crate::python_deps::ListKey;
use crate::quoted;
use crate::quoted::Quote;
use crate::requirement_laws;
use crate::requirement_laws::{
    in_quotes, is_constraint, is_distribution, is_quotable, is_space, quoted_list,
};
use crate::text;
use vstd::prelude::*;

verus! {

/// The word under which a list stands.
pub open spec fn word(key: ListKey) -> Seq<char> {
    match key {
        ListKey::Pyproject => "dependencies"@,
        ListKey::Setup => "install_requires"@,
    }
}

/// A line that opens a list and goes on with `content`.
pub open spec fn opening(
    key: ListKey,
    pad: Seq<char>,
    gap: Seq<char>,
    sign: char,
    space: Seq<char>,
    content: Seq<char>,
) -> Seq<char> {
    pad + (word(key) + gap + seq![sign] + space + seq!['['] + content)
}

proof fn lemma_trim_pad(pad: Seq<char>, s: Seq<char>)
    requires
        is_space(pad),
        s.len() > 0,
        !text::is_white(s[0]),
        !text::is_white(s.last()),
    ensures
        text::trimmed(pad + s) == s,
{
    let white = |c: char| text::is_white(c);
    assert forall|i: int| 0 <= i < pad.len() implies white(#[trigger] pad[i]) by {}
    requirement_laws::lemma_trim_start_all(pad, s, white);
    assert(!white(s[0]) && !white(s.last()));
}

proof fn lemma_word(key: ListKey)
    ensures
        word(key).len() > 0,
        forall|i: int|
            0 <= i < word(key).len() ==> ('a' <= #[trigger] word(key)[i] <= 'z' || word(key)[i]
                == '_'),
{
    reveal_strlit("dependencies");
    reveal_strlit("install_requires");
}

/// What a line that opens a list goes on with.
proof fn lemma_opened(
    key: ListKey,
    pad: Seq<char>,
    gap: Seq<char>,
    sign: char,
    space: Seq<char>,
    content: Seq<char>,
)
    requires
        is_space(pad),
        is_space(gap),
        is_space(space),
        sign == '=' || sign == ':',
        content.len() == 0 || !text::is_white(content.last()),
        quoted::first_unquoted(content, seq!['#'], Quote::Outside) == content.len(),
    ensures
        python_deps::list_opened(
            key,
            python_deps::code_of(opening(key, pad, gap, sign, space, content)),
        ) == Some(content),
{
    let hash = seq!['#'];
    assert(hash[0] == '#');
    let key_word = word(key);
    let line = opening(key, pad, gap, sign, space, content);
    let first = pad + key_word + gap + seq![sign] + space + seq!['['];
    lemma_word(key);
    assert(line =~= first + content);
    assert forall|i: int| 0 <= i < first.len() implies #[trigger] first[i] != '"' && first[i]
        != '\'' && !hash.contains(first[i]) by {
        if pad.len() <= i < pad.len() + key_word.len() {
            assert(first[i] == key_word[i - pad.len()]);
        }
    }
    requirement_laws::lemma_plain(first, content, hash);
    assert(quoted::first_unquoted(line, hash, Quote::Outside) == line.len());
    assert(line.take(line.len() as int) =~= line);
    let body = key_word + gap + seq![sign] + space + seq!['['] + content;
    assert(body[0] == key_word[0]);
    if content.len() == 0 {
        assert(body.last() == '[');
    } else {
        assert(body.last() == content.last());
    }
    lemma_trim_pad(pad, body);
    assert(python_deps::code_of(line) == body);
    let rest = gap + seq![sign] + space + seq!['['] + content;
    assert(body =~= key_word + rest);
    assert(key_word.is_prefix_of(body)) by {
        assert(body.subrange(0, key_word.len() as int) =~= key_word);
    }
    assert(body.subrange(key_word.len() as int, body.len() as int) =~= rest);
    assert(body.skip(key_word.len() as int) =~= rest);
    let p = |c: char| text::is_white(c) || c == '"' || c == '\'';
    let rest_sign = seq![sign] + space + seq!['['] + content;
    assert(rest =~= gap + rest_sign);
    assert forall|i: int| 0 <= i < gap.len() implies p(#[trigger] gap[i]) by {}
    requirement_laws::lemma_trim_start_all(gap, rest_sign, p);
    assert(rest_sign[0] == sign && !p(sign));
    assert(text::trim_start_by(rest_sign, p) == rest_sign);
    let bracket = seq!['['] + content;
    assert(rest_sign.drop_first() =~= space + bracket);
    let white = |c: char| text::is_white(c);
    assert forall|i: int| 0 <= i < space.len() implies white(#[trigger] space[i]) by {}
    requirement_laws::lemma_trim_start_all(space, bracket, white);
    assert(bracket[0] == '[' && !white('['));
    assert(seq!['['].is_prefix_of(bracket)) by {
        assert(bracket.subrange(0, 1) =~= seq!['[']);
    }
    assert(bracket.subrange(1, bracket.len() as int) =~= content);
}

/// A list on one line declares every item.
pub proof fn lists_on_one_line_declare_their_items(
    mark: char,
    key: ListKey,
    pad: Seq<char>,
    gap: Seq<char>,
    sign: char,
    space: Seq<char>,
    items: Seq<Seq<char>>,
    i: int,
    name: Seq<char>,
    tail: Seq<char>,
    rest: Seq<Seq<char>>,
)
    requires
        requirement_laws::is_quote(mark),
        is_space(pad),
        is_space(gap),
        is_space(space),
        sign == '=' || sign == ':',
        forall|k: int| 0 <= k < items.len() ==> is_quotable(mark, #[trigger] items[k]),
        0 <= i < items.len(),
        items[i] == name + tail,
        is_distribution(name),
        is_constraint(tail),
    ensures
        python_deps::list_tokens(
            seq![opening(key, pad, gap, sign, space, quoted_list(mark, items) + seq![']'])] + rest,
            key,
            false,
        ).contains(name),
{
    let none = Seq::<char>::empty();
    let hash = seq!['#'];
    let bracket = seq![']'];
    assert(hash[0] == '#' && bracket[0] == ']');
    let content = quoted_list(mark, items) + bracket;
    requirement_laws::lemma_quoted_list(mark, items, bracket, hash);
    assert(bracket + none =~= bracket);
    requirement_laws::lemma_plain(bracket, none, hash);
    assert(quoted::first_unquoted(none, hash, Quote::Outside) == 0);
    assert(content.last() == ']');
    lemma_opened(key, pad, gap, sign, space, content);
    requirement_laws::lists_declare_every_item(mark, items, none, none, i, name, tail);
    assert(none + quoted_list(mark, items) + bracket + none =~= content);
    let line = opening(key, pad, gap, sign, space, content);
    let all = seq![line] + rest;
    assert(all[0] == line);
    let first = python_deps::tokens(python_deps::list_items(content));
    let k = choose|k: int| 0 <= k < first.len() && first[k] == name;
    assert(python_deps::list_tokens(all, key, false)[k] == name);
}

/// The lines of a list, one item to a line, and the bracket that closes it.
pub open spec fn item_lines(mark: char, pad: Seq<char>, items: Seq<Seq<char>>) -> Seq<Seq<char>> {
    items.map_values(|s: Seq<char>| pad + (in_quotes(mark, s) + seq![',']))
}

/// A line with one item keeps a list open and declares the item.
proof fn lemma_item_line(
    mark: char,
    key: ListKey,
    pad: Seq<char>,
    item: Seq<char>,
    name: Seq<char>,
    tail: Seq<char>,
    rest: Seq<Seq<char>>,
)
    requires
        requirement_laws::is_quote(mark),
        is_space(pad),
        is_quotable(mark, item),
        item == name + tail,
        is_distribution(name),
        is_constraint(tail),
    ensures
        python_deps::list_tokens(
            seq![pad + (in_quotes(mark, item) + seq![','])] + rest,
            key,
            true,
        ) == seq![name] + python_deps::list_tokens(rest, key, true),
{
    let none = Seq::<char>::empty();
    let hash = seq!['#'];
    let bracket = seq![']'];
    let comma = seq![','];
    assert(hash[0] == '#' && bracket[0] == ']' && comma[0] == ',');
    let body = in_quotes(mark, item) + comma;
    let line = pad + body;
    assert(comma + none =~= comma);
    requirement_laws::lemma_in_quotes(mark, item, comma, hash);
    requirement_laws::lemma_plain(comma, none, hash);
    assert forall|i: int| 0 <= i < pad.len() implies #[trigger] pad[i] != '"' && pad[i] != '\''
        && !hash.contains(pad[i]) by {}
    requirement_laws::lemma_plain(pad, body, hash);
    assert(quoted::first_unquoted(none, hash, Quote::Outside) == 0);
    assert(line.take(line.len() as int) =~= line);
    assert(body[0] == mark && body.last() == ',');
    lemma_trim_pad(pad, body);
    assert(python_deps::code_of(line) == body);
    requirement_laws::lemma_in_quotes(mark, item, comma, bracket);
    requirement_laws::lemma_plain(comma, none, bracket);
    assert(quoted::first_unquoted(none, bracket, Quote::Outside) == 0);
    assert(body.take(body.len() as int) =~= body);
    requirement_laws::lemma_in_quotes(mark, item, comma, comma);
    assert(quoted::first_unquoted(comma, comma, Quote::Outside) == 0);
    let n = in_quotes(mark, item).len() as int;
    assert(quoted::first_unquoted(body, comma, Quote::Outside) == n);
    assert(body.take(n) =~= in_quotes(mark, item));
    assert(body.skip(n + 1) =~= none);
    assert(quoted::unquoted_pieces(none, comma) =~= seq![none]);
    let pieces = python_deps::list_items(body);
    assert(pieces =~= seq![in_quotes(mark, item), none]);
    let round = seq![mark];
    let behind = tail + seq![mark];
    assert(in_quotes(mark, item) =~= round + name + behind);
    requirement_laws::lemma_constraint_or_quote(mark, tail);
    requirement_laws::items_declare_what_they_name(round, name, behind);
    requirement_laws::lemma_empty_item();
    assert(pieces.drop_first() =~= seq![none]);
    assert(seq![none].drop_first() =~= Seq::<Seq<char>>::empty());
    assert(python_deps::tokens(seq![none]) =~= Seq::<Seq<char>>::empty()) by {
        assert(python_deps::tokens(Seq::<Seq<char>>::empty()) =~= Seq::<Seq<char>>::empty());
        assert(seq![none][0] == none);
    }
    assert(python_deps::tokens(pieces) =~= seq![name]);
    let all = seq![line] + rest;
    assert(all[0] == line);
    assert(all.drop_first() =~= rest);
}

/// A list over several lines declares every item.
pub proof fn lists_over_lines_declare_their_items(
    mark: char,
    key: ListKey,
    pad: Seq<char>,
    items: Seq<Seq<char>>,
    names: Seq<Seq<char>>,
    tails: Seq<Seq<char>>,
    rest: Seq<Seq<char>>,
)
    requires
        requirement_laws::is_quote(mark),
        is_space(pad),
        names.len() == items.len(),
        tails.len() == items.len(),
        forall|k: int|
            0 <= k < items.len() ==> is_quotable(mark, #[trigger] items[k]) && items[k] == names[k]
                + tails[k] && is_distribution(names[k]) && is_constraint(tails[k]),
    ensures
        python_deps::list_tokens(item_lines(mark, pad, items) + rest, key, true) == names
            + python_deps::list_tokens(rest, key, true),
    decreases items.len(),
{
    if items.len() == 0 {
        assert(item_lines(mark, pad, items) + rest =~= rest);
        assert(names + python_deps::list_tokens(rest, key, true) =~= python_deps::list_tokens(
            rest,
            key,
            true,
        ));
    } else {
        let (i, n, t) = (items.drop_first(), names.drop_first(), tails.drop_first());
        let more = item_lines(mark, pad, i) + rest;
        let line = pad + (in_quotes(mark, items[0]) + seq![',']);
        assert(item_lines(mark, pad, items) + rest =~= seq![line] + more);
        assert forall|k: int| 0 <= k < i.len() implies is_quotable(mark, #[trigger] i[k]) && i[k] == n[k]
            + t[k] && is_distribution(n[k]) && is_constraint(t[k]) by {
            assert(is_quotable(mark, items[k + 1]));
        }
        assert(is_quotable(mark, items[0]));
        lemma_item_line(mark, key, pad, items[0], names[0], tails[0], more);
        lists_over_lines_declare_their_items(mark, key, pad, i, n, t, rest);
        assert(seq![names[0]] + (n + python_deps::list_tokens(rest, key, true)) =~= names
            + python_deps::list_tokens(rest, key, true));
    }
}

/// A line that opens a list and ends with the bracket leaves the list open.
pub proof fn lists_stay_open_over_lines(
    key: ListKey,
    pad: Seq<char>,
    gap: Seq<char>,
    sign: char,
    space: Seq<char>,
    rest: Seq<Seq<char>>,
)
    requires
        is_space(pad),
        is_space(gap),
        is_space(space),
        sign == '=' || sign == ':',
    ensures
        python_deps::list_tokens(
            seq![opening(key, pad, gap, sign, space, Seq::empty())] + rest,
            key,
            false,
        ) == python_deps::list_tokens(rest, key, true),
{
    let none = Seq::<char>::empty();
    let comma = seq![','];
    let bracket = seq![']'];
    assert(quoted::first_unquoted(none, seq!['#'], Quote::Outside) == 0);
    assert(quoted::first_unquoted(none, bracket, Quote::Outside) == 0);
    lemma_opened(key, pad, gap, sign, space, none);
    let line = opening(key, pad, gap, sign, space, none);
    let all = seq![line] + rest;
    assert(all[0] == line);
    assert(all.drop_first() =~= rest);
    assert(none.take(0) =~= none);
    assert(quoted::unquoted_pieces(none, comma) =~= seq![none]);
    requirement_laws::lemma_empty_item();
    assert(seq![none].drop_first() =~= Seq::<Seq<char>>::empty());
    assert(python_deps::tokens(seq![none]) =~= Seq::<Seq<char>>::empty()) by {
        assert(python_deps::tokens(Seq::<Seq<char>>::empty()) =~= Seq::<Seq<char>>::empty());
        assert(seq![none][0] == none);
    }
    assert(Seq::<Seq<char>>::empty() + python_deps::list_tokens(rest, key, true)
        =~= python_deps::list_tokens(rest, key, true));
}

/// A bracket closes a list.
pub proof fn brackets_close_lists(key: ListKey, rest: Seq<Seq<char>>)
    ensures
        python_deps::list_tokens(seq![seq![']']] + rest, key, true) == python_deps::list_tokens(
            rest,
            key,
            false,
        ),
{
    let none = Seq::<char>::empty();
    let comma = seq![','];
    let bracket = seq![']'];
    let hash = seq!['#'];
    assert(bracket[0] == ']' && hash[0] == '#');
    assert(bracket + none =~= bracket);
    requirement_laws::lemma_plain(bracket, none, hash);
    assert(quoted::first_unquoted(none, hash, Quote::Outside) == 0);
    assert(bracket.take(1) =~= bracket);
    lemma_trim_pad(none, bracket);
    assert(none + bracket =~= bracket);
    assert(quoted::first_unquoted(bracket, bracket, Quote::Outside) == 0);
    assert(bracket.take(0) =~= none);
    assert(quoted::first_unquoted(none, comma, Quote::Outside) == 0);
    assert(quoted::unquoted_pieces(none, comma) =~= seq![none]);
    requirement_laws::lemma_empty_item();
    assert(seq![none].drop_first() =~= Seq::<Seq<char>>::empty());
    assert(python_deps::tokens(seq![none]) =~= Seq::<Seq<char>>::empty()) by {
        assert(python_deps::tokens(Seq::<Seq<char>>::empty()) =~= Seq::<Seq<char>>::empty());
        assert(seq![none][0] == none);
    }
    let all = seq![bracket] + rest;
    assert(all[0] == bracket);
    assert(all.drop_first() =~= rest);
    assert(Seq::<Seq<char>>::empty() + python_deps::list_tokens(rest, key, false)
        =~= python_deps::list_tokens(rest, key, false));
}

proof fn lemma_trim_start_is_end(s: Seq<char>, p: spec_fn(char) -> bool) -> (n: int)
    ensures
        0 <= n <= s.len(),
        text::trim_start_by(s, p) == s.skip(n),
    decreases s.len(),
{
    if s.len() > 0 && p(s[0]) {
        let n = lemma_trim_start_is_end(s.drop_first(), p);
        assert(s.drop_first().skip(n) =~= s.skip(n + 1));
        n + 1
    } else {
        assert(s.skip(0) =~= s);
        0
    }
}

proof fn lemma_trim_end_is_start(s: Seq<char>, p: spec_fn(char) -> bool) -> (n: int)
    ensures
        0 <= n <= s.len(),
        text::trim_end_by(s, p) == s.take(n),
    decreases s.len(),
{
    if s.len() > 0 && p(s.last()) {
        let n = lemma_trim_end_is_start(s.drop_last(), p);
        assert(s.drop_last().take(n) =~= s.take(n));
        n
    } else {
        assert(s.take(s.len() as int) =~= s);
        s.len() as int
    }
}

proof fn lemma_first_unquoted_range(s: Seq<char>, set: Seq<char>, q: Quote)
    ensures
        0 <= quoted::first_unquoted(s, set, q) <= s.len(),
    decreases s.len(),
{
    if s.len() > 0 {
        lemma_first_unquoted_range(s.drop_first(), set, quoted::quote_after(q, s[0]));
    }
}

/// What the code of a line holds, the line holds.
proof fn lemma_code_is_part(line: Seq<char>, wanted: Seq<char>)
    ensures
        text::has_text(python_deps::code_of(line), wanted) ==> text::has_text(line, wanted),
{
    let white = |c: char| text::is_white(c);
    let hash = seq!['#'];
    lemma_first_unquoted_range(line, hash, Quote::Outside);
    let n = quoted::first_unquoted(line, hash, Quote::Outside);
    let cut = line.take(n);
    let a = lemma_trim_start_is_end(cut, white);
    let b = lemma_trim_end_is_start(cut.skip(a), white);
    let code = python_deps::code_of(line);
    assert(code =~= line.subrange(a, a + b));
    if text::has_text(code, wanted) {
        let i = choose|i: int| text::occurs_at(code, wanted, i);
        assert(line.subrange(a + i, a + i + wanted.len()) =~= code.subrange(i, i + wanted.len()));
        assert(text::occurs_at(line, wanted, a + i));
    }
}

proof fn lemma_after_text(hay: Seq<char>, needle: Seq<char>)
    ensures
        text::after_text(hay, needle) is Some ==> text::has_text(hay, needle),
    decreases hay.len(),
{
    if needle.is_prefix_of(hay) {
        assert(hay.subrange(0, needle.len() as int) =~= needle);
        assert(text::occurs_at(hay, needle, 0));
    } else if hay.len() > 0 {
        lemma_after_text(hay.drop_first(), needle);
        if text::has_text(hay.drop_first(), needle) {
            let i = choose|i: int| text::occurs_at(hay.drop_first(), needle, i);
            assert(hay.subrange(i + 1, i + 1 + needle.len()) =~= hay.drop_first().subrange(
                i,
                i + needle.len(),
            ));
            assert(text::occurs_at(hay, needle, i + 1));
        }
    }
}

/// Lines that do not hold the word under which lists stand declare nothing.
pub proof fn other_lines_declare_nothing(
    key: ListKey,
    before: Seq<Seq<char>>,
    rest: Seq<Seq<char>>,
)
    requires
        forall|i: int| 0 <= i < before.len() ==> !text::has_text(#[trigger] before[i], word(key)),
    ensures
        python_deps::list_tokens(before + rest, key, false) == python_deps::list_tokens(
            rest,
            key,
            false,
        ),
    decreases before.len(),
{
    if before.len() == 0 {
        assert(before + rest =~= rest);
    } else {
        let line = before[0];
        let code = python_deps::code_of(line);
        assert(!text::has_text(line, word(key)));
        lemma_code_is_part(line, word(key));
        lemma_after_text(code, word(key));
        if word(key).is_prefix_of(code) {
            assert(code.subrange(0, word(key).len() as int) =~= word(key));
            assert(text::occurs_at(code, word(key), 0));
        }
        let all = before + rest;
        assert(all[0] == line);
        assert(all.drop_first() =~= before.drop_first() + rest);
        assert forall|i: int| 0 <= i < before.drop_first().len() implies !text::has_text(
            #[trigger] before.drop_first()[i],
            word(key),
        ) by {
            assert(before.drop_first()[i] == before[i + 1]);
        }
        other_lines_declare_nothing(key, before.drop_first(), rest);
    }
}

/// The file in which a list stands.
pub open spec fn file_of(key: ListKey) -> Seq<char> {
    match key {
        ListKey::Pyproject => "pyproject.toml"@,
        ListKey::Setup => "setup.py"@,
    }
}

proof fn lemma_listed_is_dependency(
    p: ProjectView,
    key: ListKey,
    contents: Seq<char>,
    name: Seq<char>,
)
    requires
        project::source_text(p, file_of(key)) == Some(contents),
        python_deps::list_tokens(text::lines_of(contents), key, false).contains(name),
    ensures
        requirement_laws::is_dependency(p, name),
{
    let first = python_deps::tokens(
        python_deps::optional_lines(project::source_text(p, "requirements.txt"@)),
    );
    let second = python_deps::list_tokens(
        python_deps::optional_lines(project::source_text(p, "pyproject.toml"@)),
        ListKey::Pyproject,
        false,
    );
    let found = python_deps::list_tokens(text::lines_of(contents), key, false);
    let k = choose|k: int| 0 <= k < found.len() && found[k] == name;
    let all = python_deps::declared(p);
    match key {
        ListKey::Pyproject => {
            assert(all[first.len() + k] == name);
        },
        ListKey::Setup => {
            assert(all[first.len() + second.len() + k] == name);
        },
    }
    requirement_laws::lemma_declared_is_dependency(p, name);
}

/// Every item of the list of dependencies in `pyproject.toml`, or of the requirements in
/// `setup.py`, is a dependency of the project where the list stands on one line.
pub proof fn listed_items_are_dependencies(
    mark: char,
    p: ProjectView,
    key: ListKey,
    contents: Seq<char>,
    before: Seq<Seq<char>>,
    pad: Seq<char>,
    gap: Seq<char>,
    sign: char,
    space: Seq<char>,
    items: Seq<Seq<char>>,
    rest: Seq<Seq<char>>,
    i: int,
    name: Seq<char>,
    tail: Seq<char>,
)
    requires
        requirement_laws::is_quote(mark),
        project::source_text(p, file_of(key)) == Some(contents),
        text::lines_of(contents) == before + (seq![
            opening(key, pad, gap, sign, space, quoted_list(mark, items) + seq![']']),
        ] + rest),
        forall|k: int| 0 <= k < before.len() ==> !text::has_text(#[trigger] before[k], word(key)),
        is_space(pad),
        is_space(gap),
        is_space(space),
        sign == '=' || sign == ':',
        forall|k: int| 0 <= k < items.len() ==> is_quotable(mark, #[trigger] items[k]),
        0 <= i < items.len(),
        items[i] == name + tail,
        is_distribution(name),
        is_constraint(tail),
    ensures
        requirement_laws::is_dependency(p, name),
{
    let line = opening(key, pad, gap, sign, space, quoted_list(mark, items) + seq![']']);
    other_lines_declare_nothing(key, before, seq![line] + rest);
    lists_on_one_line_declare_their_items(mark, key, pad, gap, sign, space, items, i, name, tail, rest);
    lemma_listed_is_dependency(p, key, contents, name);
}

/// So is every item where the list stands on several lines, one item to a line.
pub proof fn items_on_lines_are_dependencies(
    mark: char,
    p: ProjectView,
    key: ListKey,
    contents: Seq<char>,
    before: Seq<Seq<char>>,
    pad: Seq<char>,
    gap: Seq<char>,
    sign: char,
    space: Seq<char>,
    indent: Seq<char>,
    items: Seq<Seq<char>>,
    names: Seq<Seq<char>>,
    tails: Seq<Seq<char>>,
    rest: Seq<Seq<char>>,
    i: int,
)
    requires
        requirement_laws::is_quote(mark),
        project::source_text(p, file_of(key)) == Some(contents),
        text::lines_of(contents) == before + (seq![opening(key, pad, gap, sign, space, Seq::empty())] + (
        item_lines(mark, indent, items) + rest)),
        forall|k: int| 0 <= k < before.len() ==> !text::has_text(#[trigger] before[k], word(key)),
        is_space(pad),
        is_space(gap),
        is_space(space),
        sign == '=' || sign == ':',
        is_space(indent),
        names.len() == items.len(),
        tails.len() == items.len(),
        forall|k: int|
            0 <= k < items.len() ==> is_quotable(mark, #[trigger] items[k]) && items[k] == names[k]
                + tails[k] && is_distribution(names[k]) && is_constraint(tails[k]),
        0 <= i < items.len(),
    ensures
        requirement_laws::is_dependency(p, names[i]),
{
    let line = opening(key, pad, gap, sign, space, Seq::empty());
    let more = item_lines(mark, indent, items) + rest;
    other_lines_declare_nothing(key, before, seq![line] + more);
    lists_stay_open_over_lines(key, pad, gap, sign, space, more);
    lists_over_lines_declare_their_items(mark, key, indent, items, names, tails, rest);
    let found = python_deps::list_tokens(text::lines_of(contents), key, false);
    assert(found[i] == names[i]);
    lemma_listed_is_dependency(p, key, contents, names[i]);
}

/// A comment behind an item of a list is passed over.
pub proof fn comments_in_lists_are_passed_over(
    mark: char,
    pad: Seq<char>,
    item: Seq<char>,
    gap: Seq<char>,
    comment: Seq<char>,
)
    requires
        requirement_laws::is_quote(mark),
        is_space(pad),
        is_quotable(mark, item),
        is_space(gap),
    ensures
        python_deps::code_of(pad + (in_quotes(mark, item) + seq![',']) + gap + seq!['#'] + comment)
            == in_quotes(mark, item) + seq![','],
{
    let hash = seq!['#'];
    let comma = seq![','];
    assert(hash[0] == '#' && comma[0] == ',');
    let body = in_quotes(mark, item) + comma;
    let line = pad + body + gap + hash + comment;
    let end = hash + comment;
    let behind = comma + gap + end;
    assert(end[0] == '#');
    assert(quoted::first_unquoted(end, hash, Quote::Outside) == 0);
    let between = comma + gap;
    assert(behind =~= between + end);
    requirement_laws::lemma_plain(between, end, hash);
    requirement_laws::lemma_in_quotes(mark, item, behind, hash);
    assert forall|i: int| 0 <= i < pad.len() implies #[trigger] pad[i] != '"' && pad[i] != '\''
        && !hash.contains(pad[i]) by {}
    requirement_laws::lemma_plain(pad, in_quotes(mark, item) + behind, hash);
    assert(line =~= pad + (in_quotes(mark, item) + behind));
    let n = (pad + body + gap).len() as int;
    assert(quoted::first_unquoted(line, hash, Quote::Outside) == n);
    assert(line.take(n) =~= pad + body + gap);
    assert(body[0] == mark && body.last() == ',');
    assert(!text::is_white(mark) && !text::is_white(','));
    assert forall|i: int| 0 <= i < pad.len() implies text::is_white(#[trigger] pad[i]) by {}
    assert forall|i: int| 0 <= i < gap.len() implies text::is_white(#[trigger] gap[i]) by {}
    crate::path_laws::trimming_keeps_the_middle(pad, body, gap);
}

} // verus!
