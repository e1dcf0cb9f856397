//! JSON documents, and the tables of TOML documents seen as JSON.

use crate::text;
use crate::text::text_eq;
use vstd::prelude::*;

verus! {

/// `serde_json::Value`, a JSON document. What it holds is named by `json_view`.
#[verifier::external_type_specification]
#[verifier::external_body]
pub struct ExValue(serde_json::Value);

/// `serde_json::Error`, why a text is not JSON.
#[verifier::external_type_specification]
#[verifier::external_body]
pub struct ExJsonError(serde_json::Error);

/// `toml::de::Error`, why a text is not TOML.
#[verifier::external_type_specification]
#[verifier::external_body]
pub struct ExTomlError(toml::de::Error);

/// The contents of a JSON document. A number that is not an unsigned integer
/// is `Number(None)`.
pub enum JsonView {
    Null,
    Bool(bool),
    Number(Option<u64>),
    Text(Seq<char>),
    List(Seq<JsonView>),
    Object(Seq<(Seq<char>, JsonView)>),
}

/// The contents of `value`, the members of objects in their order.
pub uninterp spec fn json_view(value: serde_json::Value) -> JsonView;

/// The document that the bytes `text` spell, if they are JSON.
pub uninterp spec fn json_document(text: Seq<u8>) -> Option<JsonView>;

/// The document that `text` spells, if it is TOML.
pub uninterp spec fn toml_document(text: Seq<char>) -> Option<JsonView>;

/// The indented text of a document.
pub uninterp spec fn json_text(document: JsonView) -> Seq<char>;

/// The contents of the members of an object.
pub open spec fn members_view(v: Seq<(String, serde_json::Value)>) -> Seq<(Seq<char>, JsonView)> {
    v.map_values(|m: (String, serde_json::Value)| (m.0@, json_view(m.1)))
}

/// The contents of the elements of a list.
pub open spec fn elements_view(v: Seq<serde_json::Value>) -> Seq<JsonView> {
    v.map_values(|e: serde_json::Value| json_view(e))
}

/// The member of an object under `key`.
pub open spec fn lookup(members: Seq<(Seq<char>, JsonView)>, key: Seq<char>) -> Option<JsonView>
    decreases members.len(),
{
    if members.len() == 0 {
        None
    } else if members[0].0 == key {
        Some(members[0].1)
    } else {
        lookup(members.drop_first(), key)
    }
}

/// Whether no two members of an object have one key.
pub open spec fn distinct_keys(members: Seq<(Seq<char>, JsonView)>) -> bool {
    forall|i: int, j: int| 0 <= i < j < members.len() ==> (#[trigger] members[i]).0 != (#[trigger] members[j]).0
}

/// Whether a document has unsigned integers only, at most `depth` levels of
/// lists and objects, and no key twice in an object.
pub open spec fn is_plain(document: JsonView, depth: nat) -> bool
    decreases depth,
{
    match document {
        JsonView::Number(n) => n is Some,
        JsonView::List(s) => depth > 0 && forall|i: int|
            0 <= i < s.len() ==> is_plain(#[trigger] s[i], (depth - 1) as nat),
        JsonView::Object(m) => depth > 0 && distinct_keys(m) && forall|i: int|
            0 <= i < m.len() ==> is_plain((#[trigger] m[i]).1, (depth - 1) as nat),
        _ => true,
    }
}

/// Whether `b` is white space between the parts of a JSON text.
pub open spec fn is_space(b: u8) -> bool {
    b == 0x20 || b == 0x09 || b == 0x0a || b == 0x0d
}

/// `s` without leading white space.
pub open spec fn without_lead(s: Seq<u8>) -> Seq<u8>
    decreases s.len(),
{
    if s.len() > 0 && is_space(s[0]) {
        without_lead(s.drop_first())
    } else {
        s
    }
}

/// `s` without trailing white space.
pub open spec fn without_trail(s: Seq<u8>) -> Seq<u8>
    decreases s.len(),
{
    if s.len() > 0 && is_space(s.last()) {
        without_trail(s.drop_last())
    } else {
        s
    }
}

/// `s` without white space round it.
pub open spec fn stripped(s: Seq<u8>) -> Seq<u8> {
    without_trail(without_lead(s))
}

/// Whether `b` is a bracket, a quote, a comma or a colon.
pub open spec fn is_mark(b: u8) -> bool {
    b == 0x7b || b == 0x7d || b == 0x5b || b == 0x5d || b == 0x22 || b == 0x2c || b == 0x3a
}

/// Whether every quote in `s` is escaped, and every backslash escapes a character.
pub open spec fn is_text_body(s: Seq<u8>) -> bool
    decreases s.len(),
{
    if s.len() == 0 {
        true
    } else if s[0] == 0x5c {
        s.len() >= 2 && is_text_body(s.skip(2))
    } else {
        s[0] != 0x22 && is_text_body(s.drop_first())
    }
}

/// Whether `s` is a string in quotes.
pub open spec fn is_literal(s: Seq<u8>) -> bool {
    s.len() >= 2 && s[0] == 0x22 && s.last() == 0x22 && is_text_body(s.subrange(1, s.len() - 1))
}

/// Whether `s` is a word: something, and no mark or white space in it.
pub open spec fn is_word(s: Seq<u8>) -> bool {
    s.len() > 0 && forall|i: int|
        0 <= i < s.len() ==> !is_mark(#[trigger] s[i]) && !is_space(s[i])
}

/// The parts one after the other, with a comma between each and the next.
pub open spec fn with_commas(parts: Seq<Seq<u8>>) -> Seq<u8>
    decreases parts.len(),
{
    if parts.len() == 0 {
        Seq::empty()
    } else if parts.len() == 1 {
        parts[0]
    } else {
        parts[0] + seq![0x2cu8] + with_commas(parts.drop_first())
    }
}

/// Keys, each with a colon and its value behind it.
pub open spec fn with_colons(keys: Seq<Seq<u8>>, values: Seq<Seq<u8>>) -> Seq<Seq<u8>> {
    Seq::new(keys.len(), |i: int| keys[i] + seq![0x3au8] + values[i])
}

/// Whether the bytes `s` spell a document: they are read as it, and so is each of
/// its parts, which stand in the bytes as the grammar of JSON has it.
pub open spec fn spells(s: Seq<u8>, document: JsonView) -> bool
    decreases document,
{
    &&& json_document(s) == Some(document)
    &&& match document {
        JsonView::Text(_) => is_literal(s),
        JsonView::List(elements) => exists|parts: Seq<Seq<u8>>|
            s == seq![0x5bu8] + #[trigger] with_commas(parts) + seq![0x5du8] && spell_elements(
                parts,
                elements,
            ),
        JsonView::Object(members) => exists|keys: Seq<Seq<u8>>, values: Seq<Seq<u8>>|
            s == seq![0x7bu8] + with_commas(#[trigger] with_colons(keys, values)) + seq![0x7du8]
                && spell_members(keys, values, members),
        _ => is_word(s),
    }
}

/// Whether the parts, without the white space round them, spell the elements of a list.
pub open spec fn spell_elements(parts: Seq<Seq<u8>>, elements: Seq<JsonView>) -> bool
    decreases elements,
{
    &&& parts.len() == elements.len()
    &&& forall|i: int|
        0 <= i < elements.len() ==> spells(stripped(parts[i]), #[trigger] elements[i])
}

/// Whether the keys and the values, without the white space round them, spell the
/// members of an object.
pub open spec fn spell_members(
    keys: Seq<Seq<u8>>,
    values: Seq<Seq<u8>>,
    members: Seq<(Seq<char>, JsonView)>,
) -> bool
    decreases members,
{
    &&& keys.len() == members.len()
    &&& values.len() == members.len()
    &&& forall|i: int|
        0 <= i < members.len() ==> {
            &&& is_literal(stripped(keys[i]))
            &&& json_document(stripped(keys[i])) == Some(
                JsonView::Text((#[trigger] members[i]).0),
            )
            &&& spells(stripped(values[i]), members[i].1)
        }
}

/// Whether the bytes `text` have the syntax of JSON.
pub uninterp spec fn is_json_text(text: Seq<u8>) -> bool;

/// `serde_json::from_slice` into `serde::de::IgnoredAny` reads a text through and
/// keeps nothing of it: it succeeds where the text has the syntax of JSON, however
/// deep it is and whatever its numbers and strings stand for. Whether it succeeds
/// depends on the bytes alone.
#[verifier::external_body]
pub(crate) fn accepts_json(text: &[u8]) -> (r: bool)
    ensures
        r == is_json_text(text@),
{
    serde_json::from_slice::<serde::de::IgnoredAny>(text).is_ok()
}

/// `serde_json::from_slice` reads the bytes of a JSON text into a document. What
/// it returns depends on the bytes alone.
#[verifier::external_body]
pub(crate) fn parse_json(text: &[u8]) -> (r: Result<serde_json::Value, serde_json::Error>)
    ensures
        match r {
            Ok(v) => json_document(text@) == Some(json_view(v)),
            Err(_) => json_document(text@) is None,
        },
{
    serde_json::from_slice(text)
}

/// `toml::from_str` reads a TOML text into a document. What it returns depends
/// on the text alone.
#[verifier::external_body]
pub(crate) fn parse_toml(text: &str) -> (r: Result<serde_json::Value, toml::de::Error>)
    ensures
        match r {
            Ok(v) => toml_document(text@) == Some(json_view(v)),
            Err(_) => toml_document(text@) is None,
        },
{
    toml::from_str(text)
}

/// `serde_json::to_string_pretty` writes a document as indented text. For a
/// document of unsigned integers that is no deeper than the reader's limit it
/// succeeds, and the text depends on the contents alone. The text spells the
/// document: reading it, or a part of it, gives the contents back. It has the syntax
/// of JSON, also with a line feed after it.
#[verifier::external_body]
pub(crate) fn render_json(value: &serde_json::Value) -> (r: Result<String, serde_json::Error>)
    requires
        is_plain(json_view(*value), 100),
    ensures
        r is Ok,
        r matches Ok(t) ==> t@ == json_text(json_view(*value)),
        r matches Ok(t) ==> spells(vstd::utf8::encode_utf8(t@), json_view(*value)),
        r matches Ok(t) ==> is_json_text(vstd::utf8::encode_utf8(t@)),
        r matches Ok(t) ==> is_json_text(vstd::utf8::encode_utf8(t@.push('\n'))),
{
    serde_json::to_string_pretty(value)
}

/// `serde_json::Value::get` finds the member of an object under a key. It finds
/// nothing in a value that is no object.
#[verifier::external_body]
pub(crate) fn get_member<'a>(value: &'a serde_json::Value, key: &str) -> (r: Option<
    &'a serde_json::Value,
>)
    ensures
        match json_view(*value) {
            JsonView::Object(m) => match r {
                Some(v) => lookup(m, key@) == Some(json_view(*v)),
                None => lookup(m, key@) is None,
            },
            _ => r is None,
        },
{
    value.get(key)
}

/// `serde_json::Value::as_object` gives the members of an object; here, their number.
#[verifier::external_body]
pub(crate) fn member_count(value: &serde_json::Value) -> (r: Option<usize>)
    ensures
        match json_view(*value) {
            JsonView::Object(m) => r is Some && r->0 == m.len(),
            _ => r is None,
        },
{
    value.as_object().map(|members| members.len())
}

/// `serde_json::Value::as_array` gives the elements of an array.
pub assume_specification[ serde_json::Value::as_array ](value: &serde_json::Value) -> (r: Option<
    &Vec<serde_json::Value>,
>)
    ensures
        match json_view(*value) {
            JsonView::List(s) => r is Some && elements_view(r->0@) == s,
            _ => r is None,
        },
;

/// `serde_json::Value::as_str` gives the text of a string.
pub assume_specification[ serde_json::Value::as_str ](value: &serde_json::Value) -> (r: Option<&str>)
    ensures
        match json_view(*value) {
            JsonView::Text(t) => r is Some && r->0@ == t,
            _ => r is None,
        },
;

/// `serde_json::Value::as_u64` gives the value of an unsigned integer.
pub assume_specification[ serde_json::Value::as_u64 ](value: &serde_json::Value) -> (r: Option<u64>)
    ensures
        match json_view(*value) {
            JsonView::Number(n) => r == n,
            _ => r is None,
        },
;

/// `serde_json::Value::is_null` tells whether the value is null.
pub assume_specification[ serde_json::Value::is_null ](value: &serde_json::Value) -> (r: bool)
    ensures
        r == (json_view(*value) is Null),
;

/// `serde_json::Value::Null`.
#[verifier::external_body]
pub(crate) fn null_value() -> (v: serde_json::Value)
    ensures
        json_view(v) == JsonView::Null,
{
    serde_json::Value::Null
}

/// `serde_json::Value::String` holds the given text.
#[verifier::external_body]
pub(crate) fn text_value(text: &str) -> (v: serde_json::Value)
    ensures
        json_view(v) == JsonView::Text(text@),
{
    serde_json::Value::String(text.to_owned())
}

/// `serde_json::Value::from` a `u64` is that number.
#[verifier::external_body]
pub(crate) fn number_value(n: u64) -> (v: serde_json::Value)
    ensures
        json_view(v) == JsonView::Number(Some(n)),
{
    serde_json::Value::from(n)
}

/// `serde_json::Value::Array` holds the given elements, in order.
#[verifier::external_body]
pub(crate) fn list_value(elements: Vec<serde_json::Value>) -> (v: serde_json::Value)
    ensures
        json_view(v) == JsonView::List(elements_view(elements@)),
{
    serde_json::Value::Array(elements)
}

/// `serde_json::Map` collects members with distinct keys and keeps their order.
#[verifier::external_body]
pub(crate) fn object_value(members: Vec<(String, serde_json::Value)>) -> (v: serde_json::Value)
    requires
        distinct_keys(members_view(members@)),
    ensures
        json_view(v) == JsonView::Object(members_view(members@)),
{
    serde_json::Value::Object(members.into_iter().collect())
}

/// Whether a document can stand for a record of `count` fields: an object, or a
/// list of the fields in their order.
pub open spec fn is_record(document: JsonView, count: nat) -> bool {
    match document {
        JsonView::Object(_) => true,
        JsonView::List(s) => s.len() <= count,
        _ => false,
    }
}

/// The field of a record that stands at `index` in a list and under `name` in an object.
pub open spec fn field(document: JsonView, index: int, name: Seq<char>) -> Option<JsonView> {
    match document {
        JsonView::Object(m) => lookup(m, name),
        JsonView::List(s) => if index < s.len() {
            Some(s[index])
        } else {
            None
        },
        _ => None,
    }
}

/// The text of a field.
pub open spec fn field_text(document: JsonView, index: int, name: Seq<char>) -> Option<Seq<char>> {
    match field(document, index, name) {
        Some(JsonView::Text(t)) => Some(t),
        _ => None,
    }
}

/// The unsigned integer of a field.
pub open spec fn field_number(document: JsonView, index: int, name: Seq<char>) -> Option<u64> {
    match field(document, index, name) {
        Some(JsonView::Number(n)) => n,
        _ => None,
    }
}

/// The text of a field that may be null or left out.
pub open spec fn field_optional_text(document: JsonView, index: int, name: Seq<char>) -> Option<
    Option<Seq<char>>,
> {
    match field(document, index, name) {
        None | Some(JsonView::Null) => Some(None),
        Some(JsonView::Text(t)) => Some(Some(t)),
        _ => None,
    }
}

/// The unsigned integer of a field that may be null, or left out of an object.
pub open spec fn field_optional_number(document: JsonView, index: int, name: Seq<char>) -> Option<
    Option<u64>,
> {
    match field(document, index, name) {
        None => if document is Object {
            Some(None)
        } else {
            None
        },
        Some(JsonView::Null) => Some(None),
        Some(JsonView::Number(Some(n))) => Some(Some(n)),
        _ => None,
    }
}

/// Whether a document names the variant `name`: as a text, or as an object with
/// `name` as its only member, which is null.
pub open spec fn is_variant(document: JsonView, name: Seq<char>) -> bool {
    match document {
        JsonView::Text(t) => t == name,
        JsonView::Object(m) => m.len() == 1 && lookup(m, name) == Some(JsonView::Null),
        _ => false,
    }
}

/// Whether a document can stand for a record of `count` fields.
pub(crate) fn check_record(value: &serde_json::Value, count: usize) -> (r: bool)
    ensures
        r == is_record(json_view(*value), count as nat),
{
    if let Some(list) = value.as_array() {
        assert(elements_view(list@).len() == list@.len());
        list.len() <= count
    } else {
        member_count(value).is_some()
    }
}

/// A field of a record.
pub(crate) fn get_field<'a>(value: &'a serde_json::Value, index: usize, name: &str) -> (r: Option<
    &'a serde_json::Value,
>)
    ensures
        match r {
            Some(v) => field(json_view(*value), index as int, name@) == Some(json_view(*v)),
            None => field(json_view(*value), index as int, name@) is None,
        },
{
    if let Some(list) = value.as_array() {
        assert(elements_view(list@).len() == list@.len());
        if index < list.len() {
            assert(elements_view(list@)[index as int] == json_view(list@[index as int]));
            Some(&list[index])
        } else {
            None
        }
    } else {
        get_member(value, name)
    }
}

/// The text of a field.
pub(crate) fn get_text(value: &serde_json::Value, index: usize, name: &str) -> (r: Option<String>)
    ensures
        text::option_view(r) == field_text(json_view(*value), index as int, name@),
{
    match get_field(value, index, name) {
        Some(v) => match v.as_str() {
            Some(t) => Some(t.to_owned()),
            None => None,
        },
        None => None,
    }
}

/// The unsigned integer of a field.
pub(crate) fn get_number(value: &serde_json::Value, index: usize, name: &str) -> (r: Option<u64>)
    ensures
        r == field_number(json_view(*value), index as int, name@),
{
    match get_field(value, index, name) {
        Some(v) => v.as_u64(),
        None => None,
    }
}

/// The text of a field that may be null or left out.
pub(crate) fn get_optional_text(value: &serde_json::Value, index: usize, name: &str) -> (r: Option<
    Option<String>,
>)
    ensures
        match r {
            Some(t) => field_optional_text(json_view(*value), index as int, name@) == Some(
                text::option_view(t),
            ),
            None => field_optional_text(json_view(*value), index as int, name@) is None,
        },
{
    match get_field(value, index, name) {
        Some(v) => if v.is_null() {
            Some(None)
        } else {
            match v.as_str() {
                Some(t) => Some(Some(t.to_owned())),
                None => None,
            }
        },
        None => Some(None),
    }
}

/// The unsigned integer of a field that may be null, or left out of an object.
pub(crate) fn get_optional_number(value: &serde_json::Value, index: usize, name: &str) -> (r: Option<
    Option<u64>,
>)
    ensures
        r == field_optional_number(json_view(*value), index as int, name@),
{
    match get_field(value, index, name) {
        Some(v) => if v.is_null() {
            Some(None)
        } else {
            match v.as_u64() {
                Some(n) => Some(Some(n)),
                None => None,
            }
        },
        None => if member_count(value).is_some() {
            Some(None)
        } else {
            None
        },
    }
}

/// Whether a document names the variant `name`.
pub(crate) fn names_variant(value: &serde_json::Value, name: &str) -> (r: bool)
    ensures
        r == is_variant(json_view(*value), name@),
{
    match value.as_str() {
        Some(t) => text_eq(t, name),
        None => match member_count(value) {
            Some(n) => n == 1 && match get_member(value, name) {
                Some(v) => v.is_null(),
                None => false,
            },
            None => false,
        },
    }
}

/// Whether a document names the variant `name` as TOML does: as a text, or as a
/// table with `name` as its only member, which is an empty table or array.
pub open spec fn is_table_variant(document: JsonView, name: Seq<char>) -> bool {
    match document {
        JsonView::Text(t) => t == name,
        JsonView::Object(m) => m.len() == 1 && match lookup(m, name) {
            Some(JsonView::List(s)) => s.len() == 0,
            Some(JsonView::Object(o)) => o.len() == 0,
            _ => false,
        },
        _ => false,
    }
}

/// Whether a document names the variant `name` as TOML does.
pub(crate) fn names_table_variant(value: &serde_json::Value, name: &str) -> (r: bool)
    ensures
        r == is_table_variant(json_view(*value), name@),
{
    match value.as_str() {
        Some(t) => text_eq(t, name),
        None => match member_count(value) {
            Some(n) => n == 1 && match get_member(value, name) {
                Some(v) => match v.as_array() {
                    Some(list) => {
                        assert(elements_view(list@).len() == list@.len());
                        list.len() == 0
                    },
                    None => match member_count(v) {
                        Some(k) => k == 0,
                        None => false,
                    },
                },
                None => false,
            },
            None => false,
        },
    }
}

/// The texts of a list of texts.
pub open spec fn text_list(document: JsonView) -> Option<Seq<Seq<char>>> {
    match document {
        JsonView::List(s) => if forall|i: int| 0 <= i < s.len() ==> (#[trigger] s[i]) is Text {
            Some(s.map_values(|v: JsonView| v->Text_0))
        } else {
            None
        },
        _ => None,
    }
}

/// The texts of a list of texts.
pub(crate) fn get_texts(value: &serde_json::Value) -> (r: Option<Vec<String>>)
    ensures
        match r {
            Some(v) => text_list(json_view(*value)) == Some(text::texts(v@)),
            None => text_list(json_view(*value)) is None,
        },
{
    let list = match value.as_array() {
        Some(list) => list,
        None => {
            return None;
        },
    };
    let ghost s = elements_view(list@);
    let mut out: Vec<String> = Vec::new();
    let mut i: usize = 0;
    while i < list.len()
        invariant
            i <= list@.len(),
            s == elements_view(list@),
            json_view(*value) == JsonView::List(s),
            out@.len() == i,
            forall|j: int| 0 <= j < i ==> (#[trigger] s[j]) is Text && out@[j]@ == s[j]->Text_0,
        decreases list@.len() - i,
    {
        assert(s[i as int] == json_view(list@[i as int]));
        match list[i].as_str() {
            Some(t) => {
                out.push(t.to_owned());
            },
            None => {
                return None;
            },
        }
        i = i + 1;
    }
    assert(s.map_values(|v: JsonView| v->Text_0) =~= text::texts(out@));
    Some(out)
}

} // verus!
