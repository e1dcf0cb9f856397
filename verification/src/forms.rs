//! JSON texts read for what is wanted of them: the members that a record knows, each
//! at most once. Members that it does not know are passed over, whatever they hold.

use crate::json;
use crate::json::{accepts_json, list_value, object_value, parse_json, JsonView};
use crate::text::text_eq;
use vstd::prelude::*;
use vstd::slice::slice_subrange;

verus! {

/// What a reader of JSON is in: between the parts, in a string, or behind a
/// backslash in a string.
#[derive(Clone, Copy, PartialEq, Eq, Structural)]
pub enum Mode {
    Plain,
    Text,
    Escape,
}

/// Where a reader of JSON stands: in how many brackets, and in what.
pub struct Place {
    pub depth: nat,
    pub mode: Mode,
}

/// Between the parts, in `depth` brackets.
pub open spec fn plain(depth: nat) -> Place {
    Place { depth, mode: Mode::Plain }
}

/// In a string, in `depth` brackets.
pub open spec fn in_text(depth: nat) -> Place {
    Place { depth, mode: Mode::Text }
}

/// The mode behind the byte `b`.
pub open spec fn next_mode(mode: Mode, b: u8) -> Mode {
    match mode {
        Mode::Escape => Mode::Text,
        Mode::Text => if b == 0x5c {
            Mode::Escape
        } else if b == 0x22 {
            Mode::Plain
        } else {
            Mode::Text
        },
        Mode::Plain => if b == 0x22 {
            Mode::Text
        } else {
            Mode::Plain
        },
    }
}

/// The place behind the byte `b`.
pub open spec fn step(p: Place, b: u8) -> Place {
    Place {
        depth: if p.mode != Mode::Plain {
            p.depth
        } else if b == 0x7b || b == 0x5b {
            p.depth + 1
        } else if (b == 0x7d || b == 0x5d) && p.depth > 0 {
            (p.depth - 1) as nat
        } else {
            p.depth
        },
        mode: next_mode(p.mode, b),
    }
}

/// The place behind the bytes `s`.
pub open spec fn place_after(s: Seq<u8>, p: Place) -> Place
    decreases s.len(),
{
    if s.len() == 0 {
        p
    } else {
        place_after(s.drop_first(), step(p, s[0]))
    }
}

/// How many bytes of `s` stand before the first `mark` outside brackets and strings.
pub open spec fn cut(s: Seq<u8>, mark: u8, p: Place) -> nat
    decreases s.len(),
{
    if s.len() == 0 || (p == plain(0) && s[0] == mark) {
        0
    } else {
        1 + cut(s.drop_first(), mark, step(p, s[0]))
    }
}

/// What stands behind the byte at `n`.
pub open spec fn behind(s: Seq<u8>, n: nat) -> Seq<u8> {
    if n < s.len() {
        s.skip(n as int + 1)
    } else {
        Seq::empty()
    }
}

/// The pieces of `s` between the marks that stand outside brackets and strings.
pub open spec fn pieces(s: Seq<u8>, mark: u8) -> Seq<Seq<u8>>
    decreases s.len(),
{
    let n = cut(s, mark, plain(0));
    if n >= s.len() {
        seq![s]
    } else {
        seq![s.take(n as int)] + pieces(behind(s, n), mark)
    }
}

/// Whether there is nothing but white space in `s`.
pub open spec fn is_blank(s: Seq<u8>) -> bool {
    forall|i: int| 0 <= i < s.len() ==> json::is_space(#[trigger] s[i])
}

/// Whether `s` stands between the two brackets.
pub open spec fn is_between(s: Seq<u8>, open: u8, close: u8) -> bool {
    s.len() >= 2 && s[0] == open && s.last() == close
}

/// The pieces between the brackets round `s`, which commas part.
pub open spec fn parts_of(s: Seq<u8>) -> Seq<Seq<u8>> {
    let inner = s.subrange(1, s.len() - 1);
    if is_blank(inner) {
        Seq::empty()
    } else {
        pieces(inner, 0x2c)
    }
}

/// The key and the value of a member.
pub open spec fn member_of(part: Seq<u8>) -> (Seq<u8>, Seq<u8>) {
    let n = cut(part, 0x3a, plain(0));
    (json::stripped(part.take(n as int)), json::stripped(behind(part, n)))
}

/// The members of the object that `s` is, as bytes.
pub open spec fn members_of(s: Seq<u8>) -> Option<Seq<(Seq<u8>, Seq<u8>)>> {
    if is_between(s, 0x7b, 0x7d) {
        Some(parts_of(s).map_values(|part: Seq<u8>| member_of(part)))
    } else {
        None
    }
}

/// The elements of the list that `s` is, as bytes.
pub open spec fn elements_of(s: Seq<u8>) -> Option<Seq<Seq<u8>>> {
    if is_between(s, 0x5b, 0x5d) {
        Some(parts_of(s).map_values(|part: Seq<u8>| json::stripped(part)))
    } else {
        None
    }
}

/// What a JSON text is read for. A leaf is kept whole; a variant is a name, alone or
/// as the one key of an object; packages and targets are lists; the others are
/// records.
#[derive(Clone, Copy, PartialEq, Eq, Structural)]
pub enum Form {
    Leaf,
    Variant,
    Manifest,
    Artifact,
    Build,
    Runtime,
    Execution,
    Metadata,
    Packages,
    Package,
    Targets,
    Target,
}

/// How many forms are within each other.
pub open spec fn rank(form: Form) -> nat {
    match form {
        Form::Leaf | Form::Variant => 0,
        Form::Artifact | Form::Build | Form::Runtime | Form::Execution | Form::Target => 1,
        Form::Manifest | Form::Targets => 2,
        Form::Package => 3,
        Form::Packages => 4,
        Form::Metadata => 5,
    }
}

/// The fields of a record, in the order of a list that stands for it.
pub open spec fn fields(form: Form) -> Seq<(Seq<char>, Form)> {
    match form {
        Form::Manifest => seq![
            ("schema_version"@, Form::Leaf),
            ("artifact"@, Form::Artifact),
            ("build"@, Form::Build),
            ("runtime"@, Form::Runtime),
            ("execution"@, Form::Execution),
            ("capabilities"@, Form::Leaf),
        ],
        Form::Artifact => seq![
            ("name"@, Form::Leaf),
            ("path"@, Form::Leaf),
            ("sha256"@, Form::Leaf),
            ("size_bytes"@, Form::Leaf),
        ],
        Form::Build => seq![
            ("language"@, Form::Leaf),
            ("target"@, Form::Leaf),
            ("profile"@, Form::Variant),
            ("fingerprint"@, Form::Leaf),
            ("toolchain"@, Form::Leaf),
            ("toolchain_version"@, Form::Leaf),
            ("application_interface"@, Form::Leaf),
            ("adapter"@, Form::Leaf),
            ("adapter_digest"@, Form::Leaf),
        ],
        Form::Runtime => seq![
            ("abi"@, Form::Leaf),
            ("entrypoint"@, Form::Leaf),
            ("format"@, Form::Variant),
            ("world"@, Form::Variant),
        ],
        Form::Execution => seq![("timeout_ms"@, Form::Leaf), ("memory_bytes"@, Form::Leaf)],
        Form::Metadata => seq![("packages"@, Form::Packages), ("target_directory"@, Form::Leaf)],
        Form::Package => seq![("targets"@, Form::Targets)],
        Form::Target => seq![("name"@, Form::Leaf), ("kind"@, Form::Leaf)],
        _ => Seq::empty(),
    }
}

/// What the elements of a list are read for.
pub open spec fn item(form: Form) -> Option<Form> {
    match form {
        Form::Packages => Some(Form::Package),
        Form::Targets => Some(Form::Target),
        _ => None,
    }
}

/// What the element at `index` is read for, in a list or a list of fields.
pub open spec fn form_at(form: Form, index: nat) -> Option<Form> {
    match item(form) {
        Some(f) => Some(f),
        None => if index < fields(form).len() {
            Some(fields(form)[index as int].1)
        } else {
            None
        },
    }
}

/// What the field `key` is read for.
pub open spec fn form_under(known: Seq<(Seq<char>, Form)>, key: Seq<char>) -> Option<Form>
    decreases known.len(),
{
    if known.len() == 0 {
        None
    } else if known[0].0 == key {
        Some(known[0].1)
    } else {
        form_under(known.drop_first(), key)
    }
}

/// A form within a form has the lower rank.
proof fn lemma_rank_at(form: Form, index: int)
    requires
        0 <= index < fields(form).len(),
    ensures
        rank(fields(form)[index].1) < rank(form),
{
}

proof fn lemma_form_under_is_a_field(known: Seq<(Seq<char>, Form)>, key: Seq<char>)
    ensures
        form_under(known, key) matches Some(f) ==> exists|i: int|
            0 <= i < known.len() && (#[trigger] known[i]).1 == f,
    decreases known.len(),
{
    if known.len() > 0 && known[0].0 != key {
        lemma_form_under_is_a_field(known.drop_first(), key);
        if let Some(f) = form_under(known, key) {
            let i = choose|i: int|
                0 <= i < known.drop_first().len() && (#[trigger] known.drop_first()[i]).1 == f;
            assert(known[i + 1].1 == f);
        }
    }
}

/// The form of a field has the lower rank.
pub proof fn lemma_rank_under(form: Form, key: Seq<char>)
    ensures
        form_under(fields(form), key) matches Some(f) ==> rank(f) < rank(form),
{
    lemma_form_under_is_a_field(fields(form), key);
    if let Some(f) = form_under(fields(form), key) {
        let i = choose|i: int| 0 <= i < fields(form).len() && (#[trigger] fields(form)[i]).1 == f;
        lemma_rank_at(form, i);
    }
}

/// Whether one of the members has the key.
pub open spec fn has_key(members: Seq<(Seq<char>, JsonView)>, key: Seq<char>) -> bool {
    exists|i: int| 0 <= i < members.len() && (#[trigger] members[i]).0 == key
}

/// What the bytes `s` of a JSON text hold of what they are read for. A record is an
/// object, or a list of its fields. There is none where a field is there twice.
pub open spec fn formed(s: Seq<u8>, form: Form) -> Option<JsonView>
    decreases rank(form), 1nat, 0nat,
{
    match form {
        Form::Leaf => json::json_document(s),
        Form::Variant => if members_of(s) is Some && members_of(s)->0.len() != 1 {
            None
        } else {
            json::json_document(s)
        },
        _ => match (members_of(s), elements_of(s)) {
            (Some(members), _) => if item(form) is Some {
                None
            } else {
                match formed_members(members, form) {
                    Some(m) => Some(JsonView::Object(m)),
                    None => None,
                }
            },
            (None, Some(elements)) => match formed_elements(elements, form) {
                Some(e) => Some(JsonView::List(e)),
                None => None,
            },
            (None, None) => None,
        },
    }
}

/// The members that a record knows. Every key must be a string.
pub open spec fn formed_members(members: Seq<(Seq<u8>, Seq<u8>)>, form: Form) -> Option<
    Seq<(Seq<char>, JsonView)>,
>
    decreases rank(form), 0nat, members.len(),
    via formed_members_decreases
{
    if members.len() == 0 {
        Some(Seq::empty())
    } else {
        match (formed_members(members.drop_last(), form), json::json_document(members.last().0)) {
            (Some(before), Some(JsonView::Text(key))) => match form_under(fields(form), key) {
                None => Some(before),
                Some(f) => if has_key(before, key) {
                    None
                } else {
                    match formed(members.last().1, f) {
                        Some(v) => Some(before.push((key, v))),
                        None => None,
                    }
                },
            },
            _ => None,
        }
    }
}

#[via_fn]
proof fn formed_members_decreases(members: Seq<(Seq<u8>, Seq<u8>)>, form: Form) {
    if members.len() > 0 {
        if let Some(JsonView::Text(key)) = json::json_document(members.last().0) {
            lemma_rank_under(form, key);
        }
    }
}

/// The elements of a list, or of a list of fields.
pub open spec fn formed_elements(elements: Seq<Seq<u8>>, form: Form) -> Option<Seq<JsonView>>
    decreases rank(form), 0nat, elements.len(),
    via formed_elements_decreases
{
    if elements.len() == 0 {
        Some(Seq::empty())
    } else {
        match (
            formed_elements(elements.drop_last(), form),
            form_at(form, (elements.len() - 1) as nat),
        ) {
            (Some(before), Some(f)) => match formed(elements.last(), f) {
                Some(v) => Some(before.push(v)),
                None => None,
            },
            _ => None,
        }
    }
}

#[via_fn]
proof fn formed_elements_decreases(elements: Seq<Seq<u8>>, form: Form) {
    if elements.len() > 0 && item(form) is None && elements.len() - 1 < fields(form).len() {
        lemma_rank_at(form, elements.len() - 1);
    }
}

/// What a JSON text holds of what it is read for.
pub open spec fn document(text: Seq<u8>, form: Form) -> Option<JsonView> {
    if json::is_json_text(text) {
        formed(json::stripped(text), form)
    } else {
        None
    }
}

/// Whether a byte is white space between the parts of a JSON text.
fn space(b: u8) -> (r: bool)
    ensures
        r == json::is_space(b),
{
    b == 0x20 || b == 0x09 || b == 0x0a || b == 0x0d
}

/// The bytes without white space round them.
fn strip(s: &[u8]) -> (r: &[u8])
    ensures
        r@ == json::stripped(s@),
{
    let mut start: usize = 0;
    assert(s@.skip(0) =~= s@);
    while start < s.len() && space(s[start])
        invariant
            start <= s@.len(),
            json::without_lead(s@) == json::without_lead(s@.skip(start as int)),
        decreases s@.len() - start,
    {
        assert(s@.skip(start as int).drop_first() =~= s@.skip(start + 1));
        start = start + 1;
    }
    let ghost led = s@.skip(start as int);
    assert(json::without_lead(s@) == led);
    let mut end: usize = s.len();
    assert(s@.subrange(start as int, end as int) =~= led);
    while start < end && space(s[end - 1])
        invariant
            start <= end <= s@.len(),
            json::without_trail(led) == json::without_trail(s@.subrange(start as int, end as int)),
        decreases end,
    {
        assert(s@.subrange(start as int, end as int).drop_last() =~= s@.subrange(
            start as int,
            end - 1,
        ));
        end = end - 1;
    }
    slice_subrange(s, start, end)
}

/// Whether there is nothing but white space in the bytes.
fn blank(s: &[u8]) -> (r: bool)
    ensures
        r == is_blank(s@),
{
    let mut i: usize = 0;
    while i < s.len()
        invariant
            i <= s@.len(),
            forall|j: int| 0 <= j < i ==> json::is_space(#[trigger] s@[j]),
        decreases s@.len() - i,
    {
        if !space(s[i]) {
            return false;
        }
        i = i + 1;
    }
    true
}

/// Where the first `mark` outside brackets and strings is.
fn find_cut(s: &[u8], mark: u8) -> (r: usize)
    ensures
        r == cut(s@, mark, plain(0)),
        r <= s@.len(),
{
    let mut i: usize = 0;
    let mut depth: usize = 0;
    let mut mode = Mode::Plain;
    assert(s@.skip(0) =~= s@);
    while i < s.len()
        invariant
            depth <= i <= s@.len(),
            cut(s@, mark, plain(0)) == i + cut(
                s@.skip(i as int),
                mark,
                Place { depth: depth as nat, mode },
            ),
        decreases s@.len() - i,
    {
        let b: u8 = s[i];
        if depth == 0 && mode == Mode::Plain && b == mark {
            return i;
        }
        assert(s@.skip(i as int).drop_first() =~= s@.skip(i + 1));
        match mode {
            Mode::Escape => {
                mode = Mode::Text;
            },
            Mode::Text => {
                if b == 0x5c {
                    mode = Mode::Escape;
                } else if b == 0x22 {
                    mode = Mode::Plain;
                }
            },
            Mode::Plain => {
                if b == 0x22 {
                    mode = Mode::Text;
                } else if b == 0x7b || b == 0x5b {
                    depth = depth + 1;
                } else if (b == 0x7d || b == 0x5d) && depth > 0 {
                    depth = depth - 1;
                }
            },
        }
        i = i + 1;
    }
    i
}

/// What stands behind the byte at `n`.
fn rest_behind(s: &[u8], n: usize) -> (r: &[u8])
    ensures
        r@ == behind(s@, n as nat),
{
    if n < s.len() {
        slice_subrange(s, n + 1, s.len())
    } else {
        let r = slice_subrange(s, s.len(), s.len());
        assert(r@ =~= Seq::empty());
        r
    }
}

/// The bytes of each piece.
pub open spec fn bytes_of(v: Seq<&[u8]>) -> Seq<Seq<u8>> {
    v.map_values(|p: &[u8]| p@)
}

/// The pieces between the marks that stand outside brackets and strings.
fn split_pieces<'a>(s: &'a [u8], mark: u8) -> (r: Vec<&'a [u8]>)
    ensures
        bytes_of(r@) == pieces(s@, mark),
{
    let mut done: Vec<&'a [u8]> = Vec::new();
    let mut rest: &'a [u8] = s;
    assert(bytes_of(done@) + pieces(rest@, mark) =~= pieces(s@, mark));
    loop
        invariant
            bytes_of(done@) + pieces(rest@, mark) == pieces(s@, mark),
        decreases rest@.len(),
    {
        let n: usize = find_cut(rest, mark);
        let ghost before = bytes_of(done@);
        let ghost old_rest = rest@;
        if n >= rest.len() {
            done.push(rest);
            assert(bytes_of(done@) =~= before + seq![old_rest]);
            return done;
        }
        let piece = slice_subrange(rest, 0, n);
        done.push(piece);
        rest = rest_behind(rest, n);
        assert(bytes_of(done@) =~= before.push(old_rest.take(n as int)));
        assert(bytes_of(done@) + pieces(rest@, mark) =~= before + pieces(old_rest, mark));
    }
}

/// The pieces between the brackets, which commas part.
fn split_parts<'a>(s: &'a [u8]) -> (r: Vec<&'a [u8]>)
    requires
        s@.len() >= 2,
    ensures
        bytes_of(r@) == parts_of(s@),
{
    let inner = slice_subrange(s, 1, s.len() - 1);
    if blank(inner) {
        let none: Vec<&'a [u8]> = Vec::new();
        assert(bytes_of(none@) =~= Seq::empty());
        none
    } else {
        split_pieces(inner, 0x2c)
    }
}

/// The bytes of each key and value.
pub open spec fn pairs_of(v: Seq<(&[u8], &[u8])>) -> Seq<(Seq<u8>, Seq<u8>)> {
    v.map_values(|m: (&[u8], &[u8])| (m.0@, m.1@))
}

/// The members of the object that the bytes are.
fn split_members<'a>(s: &'a [u8]) -> (r: Option<Vec<(&'a [u8], &'a [u8])>>)
    ensures
        match r {
            Some(v) => members_of(s@) == Some(pairs_of(v@)),
            None => members_of(s@) is None,
        },
{
    if s.len() < 2 || s[0] != 0x7b || s[s.len() - 1] != 0x7d {
        return None;
    }
    let parts = split_parts(s);
    let mut members: Vec<(&'a [u8], &'a [u8])> = Vec::new();
    let mut i: usize = 0;
    while i < parts.len()
        invariant
            i <= parts@.len(),
            members@.len() == i,
            forall|j: int|
                0 <= j < i ==> ((#[trigger] members@[j]).0@, members@[j].1@) == member_of(parts@[j]@),
        decreases parts@.len() - i,
    {
        let part = parts[i];
        let n: usize = find_cut(part, 0x3a);
        members.push((strip(slice_subrange(part, 0, n)), strip(rest_behind(part, n))));
        i = i + 1;
    }
    assert(pairs_of(members@) =~= bytes_of(parts@).map_values(|part: Seq<u8>| member_of(part)));
    Some(members)
}

/// The elements of the list that the bytes are.
fn split_elements<'a>(s: &'a [u8]) -> (r: Option<Vec<&'a [u8]>>)
    ensures
        match r {
            Some(v) => elements_of(s@) == Some(bytes_of(v@)),
            None => elements_of(s@) is None,
        },
{
    if s.len() < 2 || s[0] != 0x5b || s[s.len() - 1] != 0x5d {
        return None;
    }
    let parts = split_parts(s);
    let mut elements: Vec<&'a [u8]> = Vec::new();
    let mut i: usize = 0;
    while i < parts.len()
        invariant
            i <= parts@.len(),
            elements@.len() == i,
            forall|j: int| 0 <= j < i ==> (#[trigger] elements@[j])@ == json::stripped(parts@[j]@),
        decreases parts@.len() - i,
    {
        elements.push(strip(parts[i]));
        i = i + 1;
    }
    assert(bytes_of(elements@) =~= bytes_of(parts@).map_values(
        |part: Seq<u8>| json::stripped(part),
    ));
    Some(elements)
}

/// The fields as they are in the model.
pub open spec fn fields_view(v: Seq<(&'static str, Form)>) -> Seq<(Seq<char>, Form)> {
    v.map_values(|f: (&'static str, Form)| (f.0@, f.1))
}

/// The fields of a record.
fn field_list(form: Form) -> (r: Vec<(&'static str, Form)>)
    ensures
        fields_view(r@) == fields(form),
{
    let list: Vec<(&'static str, Form)> = match form {
        Form::Manifest => vec![
            ("schema_version", Form::Leaf),
            ("artifact", Form::Artifact),
            ("build", Form::Build),
            ("runtime", Form::Runtime),
            ("execution", Form::Execution),
            ("capabilities", Form::Leaf),
        ],
        Form::Artifact => vec![
            ("name", Form::Leaf),
            ("path", Form::Leaf),
            ("sha256", Form::Leaf),
            ("size_bytes", Form::Leaf),
        ],
        Form::Build => vec![
            ("language", Form::Leaf),
            ("target", Form::Leaf),
            ("profile", Form::Variant),
            ("fingerprint", Form::Leaf),
            ("toolchain", Form::Leaf),
            ("toolchain_version", Form::Leaf),
            ("application_interface", Form::Leaf),
            ("adapter", Form::Leaf),
            ("adapter_digest", Form::Leaf),
        ],
        Form::Runtime => vec![
            ("abi", Form::Leaf),
            ("entrypoint", Form::Leaf),
            ("format", Form::Variant),
            ("world", Form::Variant),
        ],
        Form::Execution => vec![("timeout_ms", Form::Leaf), ("memory_bytes", Form::Leaf)],
        Form::Metadata => vec![("packages", Form::Packages), ("target_directory", Form::Leaf)],
        Form::Package => vec![("targets", Form::Targets)],
        Form::Target => vec![("name", Form::Leaf), ("kind", Form::Leaf)],
        _ => Vec::new(),
    };
    assert(fields_view(list@) =~= fields(form));
    list
}

/// What the elements of a list are read for.
fn item_form(form: Form) -> (r: Option<Form>)
    ensures
        r == item(form),
{
    match form {
        Form::Packages => Some(Form::Package),
        Form::Targets => Some(Form::Target),
        _ => None,
    }
}

/// What the field `key` is read for.
fn find_form(form: Form, key: &str) -> (r: Option<Form>)
    ensures
        r == form_under(fields(form), key@),
{
    let list = field_list(form);
    let ghost known = fields(form);
    let mut i: usize = 0;
    assert(known.skip(0) =~= known);
    while i < list.len()
        invariant
            i <= list@.len(),
            known == fields_view(list@),
            known == fields(form),
            form_under(known, key@) == form_under(known.skip(i as int), key@),
        decreases list@.len() - i,
    {
        assert(known[i as int] == (list@[i as int].0@, list@[i as int].1));
        assert(known.skip(i as int).drop_first() =~= known.skip(i + 1));
        if text_eq(list[i].0, key) {
            return Some(list[i].1);
        }
        i = i + 1;
    }
    None
}

/// What the element at `index` is read for.
fn find_form_at(form: Form, index: usize) -> (r: Option<Form>)
    ensures
        r == form_at(form, index as nat),
{
    if let Some(f) = item_form(form) {
        return Some(f);
    }
    let list = field_list(form);
    if index < list.len() {
        assert(fields_view(list@)[index as int].1 == list@[index as int].1);
        Some(list[index].1)
    } else {
        None
    }
}

/// Whether one of the members has the key.
fn holds_key(members: &Vec<(String, serde_json::Value)>, key: &str) -> (r: bool)
    ensures
        r == has_key(json::members_view(members@), key@),
{
    let ghost all = json::members_view(members@);
    let mut i: usize = 0;
    while i < members.len()
        invariant
            i <= members@.len(),
            all == json::members_view(members@),
            forall|j: int| 0 <= j < i ==> (#[trigger] all[j]).0 != key@,
        decreases members@.len() - i,
    {
        assert(all[i as int].0 == members@[i as int].0@);
        if text_eq(members[i].0.as_str(), key) {
            return true;
        }
        i = i + 1;
    }
    false
}

/// What the bytes of a JSON text hold of what they are read for.
fn read_formed(s: &[u8], form: Form) -> (r: Option<serde_json::Value>)
    ensures
        match r {
            Some(v) => formed(s@, form) == Some(json::json_view(v)),
            None => formed(s@, form) is None,
        },
    decreases rank(form), 1nat,
{
    let members = split_members(s);
    if form == Form::Leaf || form == Form::Variant {
        if form == Form::Variant {
            if let Some(members) = members {
                if members.len() != 1 {
                    return None;
                }
            }
        }
        return match parse_json(s) {
            Ok(v) => Some(v),
            Err(_) => None,
        };
    }
    match members {
        Some(members) => {
            if item_form(form).is_some() {
                return None;
            }
            match read_members(&members, form) {
                Some(m) => Some(object_value(m)),
                None => None,
            }
        },
        None => match split_elements(s) {
            Some(elements) => match read_elements(&elements, form) {
                Some(e) => Some(list_value(e)),
                None => None,
            },
            None => None,
        },
    }
}

/// The members that a record knows.
fn read_members(members: &Vec<(&[u8], &[u8])>, form: Form) -> (r: Option<
    Vec<(String, serde_json::Value)>,
>)
    ensures
        match r {
            Some(m) => formed_members(pairs_of(members@), form) == Some(json::members_view(m@))
                && json::distinct_keys(json::members_view(m@)),
            None => formed_members(pairs_of(members@), form) is None,
        },
    decreases rank(form), 0nat,
{
    let ghost all = pairs_of(members@);
    let mut kept: Vec<(String, serde_json::Value)> = Vec::new();
    assert(json::members_view(kept@) =~= Seq::empty());
    let mut i: usize = 0;
    while i < members.len()
        invariant
            i <= members@.len(),
            all == pairs_of(members@),
            formed_members(all.take(i as int), form) == Some(json::members_view(kept@)),
            json::distinct_keys(json::members_view(kept@)),
        decreases members@.len() - i,
    {
        let ghost upto = all.take(i + 1);
        assert(upto.drop_last() =~= all.take(i as int));
        assert(upto.last() == (members@[i as int].0@, members@[i as int].1@));
        proof {
            lemma_prefix_fails(all, form, i + 1);
        }
        let name = match parse_json(members[i].0) {
            Ok(v) => v,
            Err(_) => {
                return None;
            },
        };
        let key = match name.as_str() {
            Some(key) => key,
            None => {
                return None;
            },
        };
        proof {
            lemma_rank_under(form, key@);
        }
        if let Some(f) = find_form(form, key) {
            if holds_key(&kept, key) {
                return None;
            }
            match read_formed(members[i].1, f) {
                Some(v) => {
                    let ghost before = json::members_view(kept@);
                    kept.push((key.to_owned(), v));
                    assert(json::members_view(kept@) =~= before.push((key@, json::json_view(v))));
                },
                None => {
                    return None;
                },
            }
        }
        i = i + 1;
    }
    assert(all.take(i as int) =~= all);
    Some(kept)
}

/// The elements of a list, or of a list of fields.
fn read_elements(elements: &Vec<&[u8]>, form: Form) -> (r: Option<Vec<serde_json::Value>>)
    ensures
        match r {
            Some(e) => formed_elements(bytes_of(elements@), form) == Some(json::elements_view(e@)),
            None => formed_elements(bytes_of(elements@), form) is None,
        },
    decreases rank(form), 0nat,
{
    let ghost all = bytes_of(elements@);
    let mut kept: Vec<serde_json::Value> = Vec::new();
    assert(json::elements_view(kept@) =~= Seq::empty());
    let mut i: usize = 0;
    while i < elements.len()
        invariant
            i <= elements@.len(),
            all == bytes_of(elements@),
            formed_elements(all.take(i as int), form) == Some(json::elements_view(kept@)),
        decreases elements@.len() - i,
    {
        let ghost upto = all.take(i + 1);
        assert(upto.drop_last() =~= all.take(i as int));
        assert(upto.last() == elements@[i as int]@);
        proof {
            lemma_element_prefix_fails(all, form, i + 1);
            if item(form) is None && i < fields(form).len() {
                lemma_rank_at(form, i as int);
            }
        }
        let f = match find_form_at(form, i) {
            Some(f) => f,
            None => {
                return None;
            },
        };
        match read_formed(elements[i], f) {
            Some(v) => {
                let ghost before = json::elements_view(kept@);
                kept.push(v);
                assert(json::elements_view(kept@) =~= before.push(json::json_view(v)));
            },
            None => {
                return None;
            },
        }
        i = i + 1;
    }
    assert(all.take(i as int) =~= all);
    Some(kept)
}

/// Where the first members do not make a record, no more of them do.
proof fn lemma_prefix_fails(members: Seq<(Seq<u8>, Seq<u8>)>, form: Form, n: int)
    requires
        0 <= n <= members.len(),
    ensures
        formed_members(members.take(n), form) is None ==> formed_members(members, form) is None,
    decreases members.len() - n,
{
    if n < members.len() {
        lemma_prefix_fails(members, form, n + 1);
        assert(members.take(n + 1).drop_last() =~= members.take(n));
    } else {
        assert(members.take(n) =~= members);
    }
}

/// Where the first elements do not make a list, no more of them do.
proof fn lemma_element_prefix_fails(elements: Seq<Seq<u8>>, form: Form, n: int)
    requires
        0 <= n <= elements.len(),
    ensures
        formed_elements(elements.take(n), form) is None ==> formed_elements(elements, form) is None,
    decreases elements.len() - n,
{
    if n < elements.len() {
        lemma_element_prefix_fails(elements, form, n + 1);
        assert(elements.take(n + 1).drop_last() =~= elements.take(n));
    } else {
        assert(elements.take(n) =~= elements);
    }
}

/// What a JSON text holds of what it is read for.
pub fn read_document(text: &[u8], form: Form) -> (r: Option<serde_json::Value>)
    ensures
        match r {
            Some(v) => document(text@, form) == Some(json::json_view(v)),
            None => document(text@, form) is None,
        },
{
    if accepts_json(text) {
        read_formed(strip(text), form)
    } else {
        None
    }
}

} // verus!
