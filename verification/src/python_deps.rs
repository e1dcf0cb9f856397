//! The declared dependencies of a Python project.

use crate::ordering;
use crate::ordering::{key_of_text, sort_by_keys};
use crate::project;
use crate::project::{ProjectInspection, ProjectView};
use crate::quoted;
use crate::quoted::{cut_unquoted, holds_unquoted, split_unquoted};
use crate::text;
use crate::text::{
    chars_of, follow_text, lines, replace, split_first, strip_prefix, text_eq, text_of, to_lower,
    trim, trim_of, trim_start, white,
};
use vstd::prelude::*;

verus! {

/// The characters that stand round a dependency in a list.
pub open spec fn list_marks() -> Seq<char> {
    seq!['[', ']', ',', ' ', '"', '\'']
}

/// The characters that end the name of a dependency: those that begin a version
/// constraint, extras or an address.
pub open spec fn constraint_marks() -> Seq<char> {
    seq!['<', '>', '=', '!', '~', '[', '(', '@']
}

/// What stands before the first mark of a constraint, without white space round it.
pub open spec fn without_constraint(value: Seq<char>) -> Seq<char> {
    text::trimmed(text::first_piece(value, constraint_marks()))
}

/// The item of a dependency list without a comment, the marks of the list, an
/// environment marker and a version constraint.
pub open spec fn token_text(value: Seq<char>) -> Seq<char> {
    let item = text::trimmed_of(text::trimmed(text::first_piece(value, seq!['#'])), list_marks());
    without_constraint(text::first_piece(item, seq![';']))
}

/// Whether `c` is an ASCII letter.
pub open spec fn is_letter(c: char) -> bool {
    'a' <= c <= 'z' || 'A' <= c <= 'Z'
}

/// The name of a dependency that an item of a list declares, if it declares one.
pub open spec fn dependency_token(value: Seq<char>) -> Option<Seq<char>> {
    let name = token_text(value);
    if name.len() > 0 && is_letter(name[0]) {
        Some(name)
    } else {
        None
    }
}

/// A text without a version constraint.
pub(crate) fn strip_constraint(value: &str) -> (r: String)
    ensures
        r@ == without_constraint(value@),
{
    let marks: [char; 8] = ['<', '>', '=', '!', '~', '[', '(', '@'];
    assert(marks@ =~= constraint_marks());
    trim(split_first(value, &marks).as_str())
}

/// The name of a dependency that an item of a list declares, if it declares one.
pub fn parse_dependency_token(value: &str) -> (r: Option<String>)
    ensures
        text::option_view(r) == dependency_token(value@),
{
    let comment: [char; 1] = ['#'];
    let marks: [char; 6] = ['[', ']', ',', ' ', '"', '\''];
    let marker: [char; 1] = [';'];
    assert(comment@ =~= seq!['#']);
    assert(marks@ =~= list_marks());
    assert(marker@ =~= seq![';']);
    let item = trim_of(trim(split_first(value, &comment).as_str()).as_str(), &marks);
    let name = strip_constraint(split_first(item.as_str(), &marker).as_str());
    let v = chars_of(name.as_str());
    if v.len() > 0 && (('a' <= v[0] && v[0] <= 'z') || ('A' <= v[0] && v[0] <= 'Z')) {
        Some(name)
    } else {
        None
    }
}

/// The form of a distribution's name by which names are compared.
pub open spec fn normalized(name: Seq<char>) -> Seq<char> {
    text::replaced(text::lower(text::trimmed(name)), seq!['_', '.'], '-')
}

/// The form of a distribution's name by which names are compared.
pub fn normalize_distribution_name(value: &str) -> (r: String)
    ensures
        r@ == normalized(value@),
{
    let marks: [char; 2] = ['_', '.'];
    assert(marks@ =~= seq!['_', '.']);
    replace(to_lower(trim(value).as_str()).as_str(), &marks, '-')
}

/// The dependencies that the items of a list declare, in order.
pub open spec fn tokens(items: Seq<Seq<char>>) -> Seq<Seq<char>>
    decreases items.len(),
{
    if items.len() == 0 {
        Seq::empty()
    } else {
        match dependency_token(items[0]) {
            Some(name) => seq![name] + tokens(items.drop_first()),
            None => tokens(items.drop_first()),
        }
    }
}

/// Appends the dependencies that the items of a list declare.
fn add_tokens(out: &mut Vec<String>, items: &Vec<String>)
    ensures
        text::texts(final(out)@) == text::texts(old(out)@) + tokens(text::texts(items@)),
{
    let ghost start = text::texts(out@);
    let ghost all = text::texts(items@);
    assert(all.skip(0) =~= all);
    let mut i: usize = 0;
    while i < items.len()
        invariant
            i <= items@.len(),
            all == text::texts(items@),
            start + tokens(all) == text::texts(out@) + tokens(all.skip(i as int)),
        decreases items@.len() - i,
    {
        assert(all[i as int] == items@[i as int]@);
        assert(all.skip(i as int).drop_first() =~= all.skip(i + 1));
        let ghost before = text::texts(out@);
        if let Some(name) = parse_dependency_token(items[i].as_str()) {
            out.push(name);
            assert(text::texts(out@) =~= before.push(name@));
            assert(before + (seq![name@] + tokens(all.skip(i + 1))) =~= before.push(name@) + tokens(
                all.skip(i + 1),
            ));
        }
        i = i + 1;
    }
    assert(all.skip(i as int) =~= Seq::<Seq<char>>::empty());
    assert(text::texts(out@) + Seq::<Seq<char>>::empty() =~= text::texts(out@));
}

/// Where a dependency list stands.
#[derive(Debug, Clone, Copy, PartialEq, Eq, Structural)]
pub enum ListKey {
    /// Under `dependencies` at the start of a line of `pyproject.toml`.
    Pyproject,
    /// Under `install_requires` in `setup.py`.
    Setup,
}

/// What follows the bracket that opens the list under a key, given what follows
/// the key.
pub open spec fn list_value(rest: Seq<char>) -> Option<Seq<char>> {
    let sign = text::trim_start_by(
        rest,
        |c: char| text::is_white(c) || c == '"' || c == '\'',
    );
    if sign.len() > 0 && (sign[0] == '=' || sign[0] == ':') {
        text::after_prefix(text::trimmed_start(sign.drop_first()), seq!['['])
    } else {
        None
    }
}

/// What follows the bracket of the list that a line opens, if it opens one.
pub open spec fn list_opened(key: ListKey, line: Seq<char>) -> Option<Seq<char>> {
    let rest = match key {
        ListKey::Pyproject => text::after_prefix(line, "dependencies"@),
        ListKey::Setup => text::after_text(line, "install_requires"@),
    };
    match rest {
        Some(rest) => list_value(rest),
        None => None,
    }
}

/// The items of a list in `content`, up to the bracket that closes it. Brackets
/// and commas in quotes belong to the items.
pub open spec fn list_items(content: Seq<char>) -> Seq<Seq<char>> {
    quoted::unquoted_pieces(quoted::before_unquoted(content, seq![']']), seq![','])
}

/// A line without its comment and without white space round it.
pub open spec fn code_of(line: Seq<char>) -> Seq<char> {
    text::trimmed(quoted::before_unquoted(line, seq!['#']))
}

/// The dependencies that lines declare: those of each list under the key, from
/// the bracket that opens it to the bracket that closes it. `open` tells whether a
/// list is open before the first line.
pub open spec fn list_tokens(all: Seq<Seq<char>>, key: ListKey, open: bool) -> Seq<Seq<char>>
    decreases all.len(),
{
    if all.len() == 0 {
        Seq::empty()
    } else {
        let line = code_of(all[0]);
        let content = if open {
            Some(line)
        } else {
            list_opened(key, line)
        };
        match content {
            Some(content) => tokens(list_items(content)) + list_tokens(
                all.drop_first(),
                key,
                !quoted::has_unquoted(content, seq![']']),
            ),
            None => list_tokens(all.drop_first(), key, false),
        }
    }
}

/// The lines of an optional text.
pub open spec fn optional_lines(t: Option<Seq<char>>) -> Seq<Seq<char>> {
    match t {
        Some(s) => text::lines_of(s),
        None => Seq::empty(),
    }
}

/// Every dependency that a project declares, in the order of declaration.
pub open spec fn declared(p: ProjectView) -> Seq<Seq<char>> {
    tokens(optional_lines(project::source_text(p, "requirements.txt"@))) + list_tokens(
        optional_lines(project::source_text(p, "pyproject.toml"@)),
        ListKey::Pyproject,
        false,
    ) + list_tokens(
        optional_lines(project::source_text(p, "setup.py"@)),
        ListKey::Setup,
        false,
    )
}

/// The order of a dependency among dependencies: by normalized name.
pub open spec fn name_key(name: Seq<char>) -> Seq<u32> {
    ordering::text_key(normalized(name))
}

/// The dependencies of a project: in the order of their normalized names, each
/// as it is first declared.
pub open spec fn direct_dependencies(p: ProjectView) -> Seq<Seq<char>> {
    let key = |n: Seq<char>| name_key(n);
    ordering::dedup_by(ordering::stable_sort(declared(p), key), key)
}

/// What follows the bracket that opens the list under a key, given what follows
/// the key.
fn find_list_value(rest: &str) -> (r: Option<String>)
    ensures
        text::option_view(r) == list_value(rest@),
{
    let v = chars_of(rest);
    let ghost p = |c: char| text::is_white(c) || c == '"' || c == '\'';
    let mut i: usize = 0;
    assert(v@.subrange(0, v@.len() as int) =~= v@);
    while i < v.len() && (white(v[i]) || v[i] == '"' || v[i] == '\'')
        invariant
            p == (|c: char| text::is_white(c) || c == '"' || c == '\''),
            i <= v@.len(),
            text::trim_start_by(v@, p) == text::trim_start_by(
                v@.subrange(i as int, v@.len() as int),
                p,
            ),
        decreases v@.len() - i,
    {
        assert(v@.subrange(i as int, v@.len() as int).drop_first() =~= v@.subrange(
            i + 1,
            v@.len() as int,
        ));
        i = i + 1;
    }
    let ghost sign = v@.subrange(i as int, v@.len() as int);
    assert(text::trim_start_by(v@, p) == sign);
    if i < v.len() && (v[i] == '=' || v[i] == ':') {
        let value = text_of(&v, i + 1, v.len());
        assert(value@ =~= sign.drop_first());
        proof {
            reveal_strlit("[");
            assert("["@ =~= seq!['[']);
        }
        strip_prefix(trim_start(value.as_str()).as_str(), "[")
    } else {
        None
    }
}

/// What follows the bracket of the list that a line opens, if it opens one.
fn open_list(key: ListKey, line: &str) -> (r: Option<String>)
    ensures
        text::option_view(r) == list_opened(key, line@),
{
    let rest = match key {
        ListKey::Pyproject => strip_prefix(line, "dependencies"),
        ListKey::Setup => follow_text(line, "install_requires"),
    };
    match rest {
        Some(rest) => find_list_value(rest.as_str()),
        None => None,
    }
}

/// Appends the dependencies that the lists under the key declare.
fn add_lists(out: &mut Vec<String>, contents: &str, key: ListKey)
    ensures
        text::texts(final(out)@) == text::texts(old(out)@) + list_tokens(
            text::lines_of(contents@),
            key,
            false,
        ),
{
    let all = lines(contents);
    let ghost view = text::texts(all@);
    let ghost start = text::texts(out@);
    assert(view.skip(0) =~= view);
    let comment: [char; 1] = ['#'];
    let comma: [char; 1] = [','];
    let bracket: [char; 1] = [']'];
    assert(comment@ =~= seq!['#']);
    assert(comma@ =~= seq![',']);
    assert(bracket@ =~= seq![']']);
    let mut open = false;
    let mut i: usize = 0;
    while i < all.len()
        invariant
            i <= all@.len(),
            view == text::texts(all@),
            comment@ == seq!['#'],
            comma@ == seq![','],
            bracket@ == seq![']'],
            start + list_tokens(view, key, false) == text::texts(out@) + list_tokens(
                view.skip(i as int),
                key,
                open,
            ),
        decreases all@.len() - i,
    {
        assert(view[i as int] == all@[i as int]@);
        assert(view.skip(i as int).drop_first() =~= view.skip(i + 1));
        let line = trim(cut_unquoted(all[i].as_str(), &comment).as_str());
        assert(line@ == code_of(view[i as int]));
        let content = if open {
            Some(line)
        } else {
            open_list(key, line.as_str())
        };
        match content {
            Some(content) => {
                let ghost before = text::texts(out@);
                let inner = cut_unquoted(content.as_str(), &bracket);
                let items = split_unquoted(inner.as_str(), &comma);
                add_tokens(out, &items);
                open = !holds_unquoted(content.as_str(), &bracket);
                assert(before + (tokens(list_items(content@)) + list_tokens(
                    view.skip(i + 1),
                    key,
                    open,
                )) =~= text::texts(out@) + list_tokens(view.skip(i + 1), key, open));
            },
            None => {
                open = false;
            },
        }
        i = i + 1;
    }
    assert(view.skip(i as int) =~= Seq::<Seq<char>>::empty());
    assert(text::texts(out@) + Seq::<Seq<char>>::empty() =~= text::texts(out@));
}

/// Removes the names that follow a name of the same normalized form.
fn dedup_names(names: &Vec<String>) -> (r: Vec<String>)
    ensures
        text::texts(r@) == ordering::dedup_by(text::texts(names@), |n: Seq<char>| name_key(n)),
{
    let ghost key = |n: Seq<char>| name_key(n);
    let ghost all = text::texts(names@);
    let mut out: Vec<String> = Vec::new();
    assert(text::texts(out@) =~= Seq::<Seq<char>>::empty());
    assert(all.take(0) =~= Seq::<Seq<char>>::empty());
    let mut i: usize = 0;
    while i < names.len()
        invariant
            i <= names@.len(),
            all == text::texts(names@),
            key == (|n: Seq<char>| name_key(n)),
            text::texts(out@) == ordering::dedup_by(all.take(i as int), key),
        decreases names@.len() - i,
    {
        let name = normalize_distribution_name(names[i].as_str());
        assert(all[i as int] == names@[i as int]@);
        assert(all.take(i + 1).drop_last() =~= all.take(i as int));
        let ghost before = text::texts(out@);
        let repeated = if out.len() > 0 {
            let last = normalize_distribution_name(out[out.len() - 1].as_str());
            assert(before.last() == out@.last()@);
            proof {
                if ordering::text_key(last@) == ordering::text_key(name@) {
                    ordering::text_key_injective(last@, name@);
                }
            }
            text_eq(last.as_str(), name.as_str())
        } else {
            false
        };
        if !repeated {
            out.push(names[i].clone());
            assert(text::texts(out@) =~= before.push(all[i as int]));
        }
        i = i + 1;
    }
    assert(all.take(i as int) =~= all);
    out
}

/// The dependencies that a project declares.
pub fn python_direct_dependencies(project: &ProjectInspection) -> (r: Vec<String>)
    ensures
        text::texts(r@) == direct_dependencies(project@),
{
    let mut all: Vec<String> = Vec::new();
    let ghost none = Seq::<Seq<char>>::empty();
    assert(text::texts(all@) =~= none);
    if let Some(contents) = project.source("requirements.txt") {
        let items = lines(contents);
        add_tokens(&mut all, &items);
    }
    let ghost first = tokens(optional_lines(project::source_text(project@, "requirements.txt"@)));
    assert(text::texts(all@) =~= first);
    if let Some(contents) = project.source("pyproject.toml") {
        add_lists(&mut all, contents, ListKey::Pyproject);
    }
    let ghost second = list_tokens(
        optional_lines(project::source_text(project@, "pyproject.toml"@)),
        ListKey::Pyproject,
        false,
    );
    assert(text::texts(all@) =~= first + second);
    if let Some(contents) = project.source("setup.py") {
        add_lists(&mut all, contents, ListKey::Setup);
    }
    assert(text::texts(all@) =~= declared(project@));
    let mut keys: Vec<Vec<u32>> = Vec::new();
    let mut i: usize = 0;
    while i < all.len()
        invariant
            i <= all@.len(),
            keys@.len() == i,
            forall|j: int| 0 <= j < i ==> (#[trigger] keys@[j])@ == name_key(all@[j]@),
        decreases all@.len() - i,
    {
        keys.push(key_of_text(normalize_distribution_name(all[i].as_str()).as_str()));
        i = i + 1;
    }
    proof {
        ordering::stable_sort_map(
            all@,
            |s: String| s@,
            |s: String| name_key(s@),
            |n: Seq<char>| name_key(n),
        );
    }
    let sorted = sort_by_keys(all, keys, Ghost(|s: String| name_key(s@)));
    dedup_names(&sorted)
}

/// No two dependencies of a project have one normalized name, each is one that
/// the project declares, and every declared one is there under its normalized name.
pub proof fn direct_dependencies_are_distinct(p: ProjectView)
    ensures
        forall|i: int, j: int|
            0 <= i < j < direct_dependencies(p).len() ==> normalized(
                #[trigger] direct_dependencies(p)[i],
            ) != normalized(#[trigger] direct_dependencies(p)[j]),
        forall|i: int|
            0 <= i < direct_dependencies(p).len() ==> declared(p).contains(
                #[trigger] direct_dependencies(p)[i],
            ),
        forall|i: int|
            0 <= i < declared(p).len() ==> exists|j: int|
                0 <= j < direct_dependencies(p).len() && normalized(
                    #[trigger] direct_dependencies(p)[j],
                ) == normalized(#[trigger] declared(p)[i]),
{
    broadcast use vstd::seq_lib::group_to_multiset_ensures;

    let key = |n: Seq<char>| name_key(n);
    let all = declared(p);
    let s = ordering::stable_sort(all, key);
    let d = direct_dependencies(p);
    ordering::stable_sort_sorts(all, key);
    ordering::dedup_keeps_each_key_once(s, key);
    assert forall|n: Seq<char>| s.contains(n) == all.contains(n) by {
        assert(s.to_multiset().contains(n) == all.to_multiset().contains(n));
    }
    assert forall|i: int, j: int| 0 <= i < j < d.len() implies normalized(#[trigger] d[i])
        != normalized(#[trigger] d[j]) by {
        assert(key(d[i]) != key(d[j]));
    }
    assert forall|i: int| 0 <= i < all.len() implies exists|j: int|
        0 <= j < d.len() && normalized(#[trigger] d[j]) == normalized(#[trigger] all[i]) by {
        assert(all.contains(all[i]));
        assert(s.contains(all[i]));
        let k = choose|k: int| 0 <= k < s.len() && s[k] == all[i];
        let j = choose|j: int| 0 <= j < d.len() && key(#[trigger] d[j]) == key(s[k]);
        ordering::text_key_injective(normalized(d[j]), normalized(all[i]));
    }
}

} // verus!
