//! What holds of JSON texts that are read for a record: a document that was written
//! is read back, a known field is there once, and other members do not matter.

use crate::forms;
use crate::forms::{Form, Place};
use crate::json;
use crate::json::JsonView;
use vstd::prelude::*;

verus! {

/// Reading on from where a first part ends.
proof fn lemma_place_of_both(a: Seq<u8>, b: Seq<u8>, p: Place)
    ensures
        forms::place_after(a + b, p) == forms::place_after(b, forms::place_after(a, p)),
    decreases a.len(),
{
    if a.len() == 0 {
        assert(a + b =~= b);
    } else {
        assert((a + b).drop_first() =~= a.drop_first() + b);
        lemma_place_of_both(a.drop_first(), b, forms::step(p, a[0]));
    }
}

/// Where a first part holds no cut, the cut is that of what follows.
proof fn lemma_cut_of_both(a: Seq<u8>, b: Seq<u8>, mark: u8, p: Place)
    requires
        forms::cut(a, mark, p) == a.len(),
    ensures
        forms::cut(a + b, mark, p) == a.len() + forms::cut(b, mark, forms::place_after(a, p)),
    decreases a.len(),
{
    if a.len() == 0 {
        assert(a + b =~= b);
    } else {
        assert((a + b).drop_first() =~= a.drop_first() + b);
        lemma_cut_of_both(a.drop_first(), b, mark, forms::step(p, a[0]));
    }
}

/// Whether reading `s` leads from one place to another, with no comma and no colon
/// outside brackets and strings.
spec fn leads(s: Seq<u8>, from: Place, to: Place) -> bool {
    &&& forms::place_after(s, from) == to
    &&& forms::cut(s, 0x2c, from) == s.len()
    &&& forms::cut(s, 0x3a, from) == s.len()
}

proof fn lemma_leads_on(a: Seq<u8>, b: Seq<u8>, from: Place, mid: Place, to: Place)
    requires
        leads(a, from, mid),
        leads(b, mid, to),
    ensures
        leads(a + b, from, to),
{
    lemma_place_of_both(a, b, from);
    lemma_cut_of_both(a, b, 0x2c, from);
    lemma_cut_of_both(a, b, 0x3a, from);
}

/// One byte leads to the next place.
proof fn lemma_byte_leads(b: u8, p: Place)
    requires
        p == forms::plain(0) ==> b != 0x2c && b != 0x3a,
    ensures
        leads(seq![b], p, forms::step(p, b)),
{
    let s = seq![b];
    assert(s.drop_first() =~= Seq::empty());
    reveal_with_fuel(forms::cut, 2);
    reveal_with_fuel(forms::place_after, 2);
}

/// Bytes that are no marks lead nowhere.
proof fn lemma_calm_bytes(s: Seq<u8>, depth: nat)
    requires
        forall|i: int| 0 <= i < s.len() ==> !json::is_mark(#[trigger] s[i]),
    ensures
        leads(s, forms::plain(depth), forms::plain(depth)),
    decreases s.len(),
{
    if s.len() > 0 {
        assert(!json::is_mark(s[0]));
        assert forall|i: int| 0 <= i < s.drop_first().len() implies !json::is_mark(
            #[trigger] s.drop_first()[i],
        ) by {
            assert(!json::is_mark(s[i + 1]));
        }
        lemma_calm_bytes(s.drop_first(), depth);
    }
}

/// What stands in quotes does not lead out of the string.
proof fn lemma_text_body(s: Seq<u8>, depth: nat)
    requires
        json::is_text_body(s),
    ensures
        leads(s, forms::in_text(depth), forms::in_text(depth)),
    decreases s.len(),
{
    let p = forms::in_text(depth);
    if s.len() > 0 {
        if s[0] == 0x5c {
            lemma_text_body(s.skip(2), depth);
            assert(s.drop_first().drop_first() =~= s.skip(2));
            let q = forms::step(p, s[0]);
            assert(forms::step(q, s.drop_first()[0]) == p);
            assert(forms::place_after(s.drop_first(), q) == p);
            assert(forms::cut(s.drop_first(), 0x2c, q) == s.len() - 1);
            assert(forms::cut(s.drop_first(), 0x3a, q) == s.len() - 1);
        } else {
            lemma_text_body(s.drop_first(), depth);
            assert(forms::step(p, s[0]) == p);
        }
    }
}

/// A string leads back to where it begins.
proof fn lemma_literal(s: Seq<u8>, depth: nat)
    requires
        json::is_literal(s),
    ensures
        leads(s, forms::plain(depth), forms::plain(depth)),
{
    let body = s.subrange(1, s.len() - 1);
    lemma_byte_leads(0x22, forms::plain(depth));
    lemma_text_body(body, depth);
    lemma_byte_leads(0x22, forms::in_text(depth));
    lemma_leads_on(
        seq![0x22u8],
        body,
        forms::plain(depth),
        forms::in_text(depth),
        forms::in_text(depth),
    );
    lemma_leads_on(
        seq![0x22u8] + body,
        seq![0x22u8],
        forms::plain(depth),
        forms::in_text(depth),
        forms::plain(depth),
    );
    assert(s =~= seq![0x22u8] + body + seq![0x22u8]);
}

/// White space is all that stripping takes away.
proof fn lemma_stripped(s: Seq<u8>) -> (r: (Seq<u8>, Seq<u8>))
    ensures
        s == r.0 + json::stripped(s) + r.1,
        forms::is_blank(r.0),
        forms::is_blank(r.1),
{
    let a = lemma_lead(s);
    let b = lemma_trail(json::without_lead(s));
    assert(s =~= a + json::stripped(s) + b);
    (a, b)
}

proof fn lemma_lead(s: Seq<u8>) -> (r: Seq<u8>)
    ensures
        s == r + json::without_lead(s),
        forms::is_blank(r),
    decreases s.len(),
{
    if s.len() > 0 && json::is_space(s[0]) {
        let a = lemma_lead(s.drop_first());
        assert(s =~= seq![s[0]] + s.drop_first());
        assert(s =~= seq![s[0]] + a + json::without_lead(s));
        seq![s[0]] + a
    } else {
        assert(s =~= Seq::empty() + s);
        Seq::empty()
    }
}

proof fn lemma_trail(s: Seq<u8>) -> (r: Seq<u8>)
    ensures
        s == json::without_trail(s) + r,
        forms::is_blank(r),
    decreases s.len(),
{
    if s.len() > 0 && json::is_space(s.last()) {
        let b = lemma_trail(s.drop_last());
        assert(s =~= s.drop_last().push(s.last()));
        assert(s =~= json::without_trail(s) + b.push(s.last()));
        b.push(s.last())
    } else {
        assert(s =~= s + Seq::empty());
        Seq::empty()
    }
}

/// What leads back where it begins does so with white space round it.
proof fn lemma_leads_with_spaces(s: Seq<u8>, depth: nat)
    requires
        leads(json::stripped(s), forms::plain(depth), forms::plain(depth)),
    ensures
        leads(s, forms::plain(depth), forms::plain(depth)),
{
    let (a, b) = lemma_stripped(s);
    let p = forms::plain(depth);
    lemma_blank_leads(a, depth);
    lemma_blank_leads(b, depth);
    lemma_leads_on(a, json::stripped(s), p, p, p);
    lemma_leads_on(a + json::stripped(s), b, p, p, p);
}

proof fn lemma_blank_leads(s: Seq<u8>, depth: nat)
    requires
        forms::is_blank(s),
    ensures
        leads(s, forms::plain(depth), forms::plain(depth)),
{
    assert forall|i: int| 0 <= i < s.len() implies !json::is_mark(#[trigger] s[i]) by {
        assert(json::is_space(s[i]));
    }
    lemma_calm_bytes(s, depth);
}

/// Parts with commas between them lead back, within brackets.
proof fn lemma_commas_lead(parts: Seq<Seq<u8>>, depth: nat)
    requires
        depth > 0,
        forall|i: int|
            0 <= i < parts.len() ==> leads(
                #[trigger] parts[i],
                forms::plain(depth),
                forms::plain(depth),
            ),
    ensures
        leads(json::with_commas(parts), forms::plain(depth), forms::plain(depth)),
    decreases parts.len(),
{
    let p = forms::plain(depth);
    if parts.len() > 1 {
        let rest = parts.drop_first();
        assert forall|i: int| 0 <= i < rest.len() implies leads(#[trigger] rest[i], p, p) by {
            assert(rest[i] == parts[i + 1]);
        }
        lemma_commas_lead(rest, depth);
        lemma_byte_leads(0x2c, p);
        lemma_leads_on(parts[0], seq![0x2cu8], p, p, p);
        lemma_leads_on(parts[0] + seq![0x2cu8], json::with_commas(rest), p, p, p);
    } else if parts.len() == 0 {
        lemma_calm_bytes(Seq::empty(), depth);
    }
}

/// What stands in brackets leads back where it begins.
proof fn lemma_brackets_lead(open: u8, inner: Seq<u8>, close: u8, depth: nat)
    requires
        open == 0x5b && close == 0x5d || open == 0x7b && close == 0x7d,
        leads(inner, forms::plain(depth + 1), forms::plain(depth + 1)),
    ensures
        leads(seq![open] + inner + seq![close], forms::plain(depth), forms::plain(depth)),
{
    let p = forms::plain(depth);
    let q = forms::plain(depth + 1);
    lemma_byte_leads(open, p);
    lemma_byte_leads(close, q);
    lemma_leads_on(seq![open], inner, p, q, q);
    lemma_leads_on(seq![open] + inner, seq![close], p, q, p);
}

/// What spells a document leads back where it begins.
proof fn lemma_spelled_leads(s: Seq<u8>, d: JsonView, depth: nat)
    requires
        json::spells(s, d),
    ensures
        leads(s, forms::plain(depth), forms::plain(depth)),
    decreases d,
{
    let q = forms::plain(depth + 1);
    reveal_with_fuel(json::spells, 3);
    reveal_with_fuel(json::spell_elements, 3);
    reveal_with_fuel(json::spell_members, 3);
    match d {
        JsonView::Text(_) => lemma_literal(s, depth),
        JsonView::List(elements) => {
            let parts = choose|parts: Seq<Seq<u8>>|
                s == seq![0x5bu8] + #[trigger] json::with_commas(parts) + seq![0x5du8]
                    && json::spell_elements(parts, elements);
            assert forall|i: int| 0 <= i < parts.len() implies leads(#[trigger] parts[i], q, q) by {
                assert(json::spells(json::stripped(parts[i]), elements[i]));
                lemma_spelled_leads(json::stripped(parts[i]), elements[i], depth + 1);
                lemma_leads_with_spaces(parts[i], depth + 1);
            }
            lemma_commas_lead(parts, depth + 1);
            lemma_brackets_lead(0x5b, json::with_commas(parts), 0x5d, depth);
        },
        JsonView::Object(members) => {
            let (keys, values) = choose|keys: Seq<Seq<u8>>, values: Seq<Seq<u8>>|
                s == seq![0x7bu8] + json::with_commas(#[trigger] json::with_colons(keys, values))
                    + seq![0x7du8] && json::spell_members(keys, values, members);
            let parts = json::with_colons(keys, values);
            assert forall|i: int| 0 <= i < parts.len() implies leads(#[trigger] parts[i], q, q) by {
                assert(json::spells(json::stripped(values[i]), members[i].1));
                lemma_literal(json::stripped(keys[i]), depth + 1);
                lemma_leads_with_spaces(keys[i], depth + 1);
                lemma_spelled_leads(json::stripped(values[i]), members[i].1, depth + 1);
                lemma_leads_with_spaces(values[i], depth + 1);
                lemma_byte_leads(0x3a, q);
                lemma_leads_on(keys[i], seq![0x3au8], q, q, q);
                lemma_leads_on(keys[i] + seq![0x3au8], values[i], q, q, q);
            }
            lemma_commas_lead(parts, depth + 1);
            lemma_brackets_lead(0x7b, json::with_commas(parts), 0x7d, depth);
        },
        _ => lemma_calm_bytes(s, depth),
    }
}

/// Whether `s` closes what it opens, and has no comma outside brackets and strings.
spec fn is_piece(s: Seq<u8>) -> bool {
    &&& forms::place_after(s, forms::plain(0)) == forms::plain(0)
    &&& forms::cut(s, 0x2c, forms::plain(0)) == s.len()
}

/// Parts with commas between them come apart again.
proof fn lemma_commas_part(parts: Seq<Seq<u8>>)
    requires
        parts.len() > 0,
        forall|i: int| 0 <= i < parts.len() ==> is_piece(#[trigger] parts[i]),
    ensures
        forms::pieces(json::with_commas(parts), 0x2c) == parts,
    decreases parts.len(),
{
    let p = forms::plain(0);
    let all = json::with_commas(parts);
    assert(is_piece(parts[0]));
    if parts.len() == 1 {
        assert(forms::pieces(all, 0x2c) =~= parts);
    } else {
        let rest = parts.drop_first();
        assert forall|i: int| 0 <= i < rest.len() implies is_piece(#[trigger] rest[i]) by {
            assert(rest[i] == parts[i + 1]);
        }
        lemma_commas_part(rest);
        let tail = seq![0x2cu8] + json::with_commas(rest);
        assert(all =~= parts[0] + tail);
        lemma_cut_of_both(parts[0], tail, 0x2c, p);
        assert(tail[0] == 0x2c);
        assert(forms::cut(tail, 0x2c, p) == 0);
        assert(all.take(parts[0].len() as int) =~= parts[0]);
        assert(forms::behind(all, parts[0].len()) =~= json::with_commas(rest));
        assert(forms::pieces(all, 0x2c) =~= seq![parts[0]] + rest);
        assert(seq![parts[0]] + rest =~= parts);
    }
}

/// A key and a value with a colon between them come apart again.
proof fn lemma_colon_parts(key: Seq<u8>, value: Seq<u8>)
    requires
        leads(key, forms::plain(0), forms::plain(0)),
        leads(value, forms::plain(0), forms::plain(0)),
    ensures
        is_piece(key + seq![0x3au8] + value),
        forms::member_of(key + seq![0x3au8] + value) == (json::stripped(key), json::stripped(value)),
{
    let part = key + seq![0x3au8] + value;
    let tail = seq![0x3au8] + value;
    assert(part =~= key + tail);
    lemma_cut_of_both(key, tail, 0x3a, forms::plain(0));
    assert(tail[0] == 0x3a);
    assert(forms::cut(tail, 0x3a, forms::plain(0)) == 0);
    assert(part.take(key.len() as int) =~= key);
    assert(forms::behind(part, key.len()) =~= value);
    lemma_place_of_both(key, tail, forms::plain(0));
    lemma_cut_of_both(key, tail, 0x2c, forms::plain(0));
    assert(tail.drop_first() =~= value);
    assert(forms::step(forms::plain(0), 0x3a) == forms::plain(0));
}

/// What spells the members of an object is not blank.
proof fn lemma_not_blank(
    keys: Seq<Seq<u8>>,
    values: Seq<Seq<u8>>,
    members: Seq<(Seq<char>, JsonView)>,
)
    requires
        keys.len() > 0,
        json::spell_members(keys, values, members),
    ensures
        !forms::is_blank(json::with_commas(json::with_colons(keys, values))),
{
    let parts = json::with_colons(keys, values);
    let inner = json::with_commas(parts);
    let key = json::stripped(keys[0]);
    assert(json::spells(json::stripped(values[0]), members[0].1));
    let (a, b) = lemma_stripped(keys[0]);
    assert(keys[0][a.len() as int] == key[0]);
    assert(parts[0][a.len() as int] == key[0]);
    assert(inner[a.len() as int] == key[0]);
    assert(!json::is_space(inner[a.len() as int]));
}

/// The members of an object are found in what spells it.
proof fn lemma_spelled_members(
    s: Seq<u8>,
    keys: Seq<Seq<u8>>,
    values: Seq<Seq<u8>>,
    members: Seq<(Seq<char>, JsonView)>,
)
    requires
        s == seq![0x7bu8] + json::with_commas(json::with_colons(keys, values)) + seq![0x7du8],
        json::spell_members(keys, values, members),
    ensures
        forms::members_of(s) == Some(
            Seq::new(keys.len(), |i: int| (json::stripped(keys[i]), json::stripped(values[i]))),
        ),
{
    let p = forms::plain(0);
    let parts = json::with_colons(keys, values);
    let inner = json::with_commas(parts);
    assert(s.subrange(1, s.len() - 1) =~= inner);
    let wanted = Seq::new(
        keys.len(),
        |i: int| (json::stripped(keys[i]), json::stripped(values[i])),
    );
    let found = forms::parts_of(s).map_values(|part: Seq<u8>| forms::member_of(part));
    if keys.len() == 0 {
        assert(inner =~= Seq::empty());
        assert(found =~= wanted);
    } else {
        assert forall|i: int| 0 <= i < parts.len() implies is_piece(#[trigger] parts[i])
            && forms::member_of(parts[i]) == wanted[i] by {
            assert(json::spells(json::stripped(values[i]), members[i].1));
            lemma_literal(json::stripped(keys[i]), 0);
            lemma_leads_with_spaces(keys[i], 0);
            lemma_spelled_leads(json::stripped(values[i]), members[i].1, 0);
            lemma_leads_with_spaces(values[i], 0);
            lemma_colon_parts(keys[i], values[i]);
        }
        lemma_commas_part(parts);
        lemma_not_blank(keys, values, members);
        assert(found =~= wanted);
    }
}

/// Whether a document can be read for what `form` says and stay as it is: it has no
/// members that are passed over, and none twice.
pub open spec fn fits(d: JsonView, form: Form) -> bool
    decreases d,
{
    match form {
        Form::Leaf => true,
        Form::Variant => !(d is Object),
        _ => match d {
            JsonView::Object(members) => {
                &&& forms::item(form) is None
                &&& json::distinct_keys(members)
                &&& forall|i: int|
                    0 <= i < members.len() ==> match forms::form_under(
                        forms::fields(form),
                        (#[trigger] members[i]).0,
                    ) {
                        Some(f) => fits(members[i].1, f),
                        None => false,
                    }
            },
            _ => false,
        },
    }
}

/// Whether the members are fields of the record, and no objects.
pub open spec fn are_flat(members: Seq<(Seq<char>, JsonView)>, form: Form) -> bool {
    forall|i: int|
        0 <= i < members.len() ==> forms::form_under(
            forms::fields(form),
            (#[trigger] members[i]).0,
        ) is Some && !(members[i].1 is Object)
}

/// A field of the record is one that it knows.
pub proof fn lemma_field_is_known(known: Seq<(Seq<char>, Form)>, i: int)
    requires
        0 <= i < known.len(),
    ensures
        forms::form_under(known, known[i].0) is Some,
    decreases known.len(),
{
    if known[0].0 != known[i].0 {
        assert(known.drop_first()[i - 1] == known[i]);
        lemma_field_is_known(known.drop_first(), i - 1);
    }
}

/// A record that holds no other records fits.
pub proof fn lemma_flat_record_fits(members: Seq<(Seq<char>, JsonView)>, form: Form)
    requires
        forms::rank(form) == 1,
        json::distinct_keys(members),
        are_flat(members, form),
    ensures
        fits(JsonView::Object(members), form),
{
    assert forall|i: int| 0 <= i < members.len() implies (match forms::form_under(
        forms::fields(form),
        (#[trigger] members[i]).0,
    ) {
        Some(f) => fits(members[i].1, f),
        None => false,
    }) by {
        forms::lemma_rank_under(form, members[i].0);
    }
}

/// A document that was spelled is read back.
proof fn lemma_spelled_is_formed(s: Seq<u8>, d: JsonView, form: Form)
    requires
        json::spells(s, d),
        fits(d, form),
    ensures
        forms::formed(s, form) == Some(d),
    decreases d,
{
    reveal_with_fuel(json::spells, 3);
    reveal_with_fuel(json::spell_elements, 3);
    reveal_with_fuel(json::spell_members, 3);
    reveal_with_fuel(fits, 2);
    match form {
        Form::Leaf => {},
        Form::Variant => {
            assert(s[0] != 0x7b || s.len() == 0);
        },
        _ => {
            let members = d->Object_0;
            let (keys, values) = choose|keys: Seq<Seq<u8>>, values: Seq<Seq<u8>>|
                s == seq![0x7bu8] + json::with_commas(#[trigger] json::with_colons(keys, values))
                    + seq![0x7du8] && json::spell_members(keys, values, members);
            lemma_spelled_members(s, keys, values, members);
            let pairs = Seq::new(
                keys.len(),
                |i: int| (json::stripped(keys[i]), json::stripped(values[i])),
            );
            assert forall|i: int| 0 <= i < members.len() implies json::json_document(pairs[i].0)
                == Some(JsonView::Text((#[trigger] members[i]).0)) && (match forms::form_under(
                forms::fields(form),
                members[i].0,
            ) {
                Some(f) => forms::formed(pairs[i].1, f) == Some(members[i].1),
                None => false,
            }) by {
                assert(json::spells(json::stripped(values[i]), members[i].1));
                let f = forms::form_under(forms::fields(form), members[i].0)->0;
                lemma_spelled_is_formed(json::stripped(values[i]), members[i].1, f);
            }
            lemma_formed_so_far(pairs, members, form, members.len() as int);
            assert(pairs.take(members.len() as int) =~= pairs);
            assert(members.take(members.len() as int) =~= members);
        },
    }
}

/// Members that are known, and of which none is there twice, are all kept.
proof fn lemma_formed_so_far(
    pairs: Seq<(Seq<u8>, Seq<u8>)>,
    members: Seq<(Seq<char>, JsonView)>,
    form: Form,
    n: int,
)
    requires
        0 <= n <= members.len(),
        pairs.len() == members.len(),
        json::distinct_keys(members),
        forall|i: int|
            0 <= i < members.len() ==> json::json_document(pairs[i].0) == Some(
                JsonView::Text((#[trigger] members[i]).0),
            ) && (match forms::form_under(forms::fields(form), members[i].0) {
                Some(f) => forms::formed(pairs[i].1, f) == Some(members[i].1),
                None => false,
            }),
    ensures
        forms::formed_members(pairs.take(n), form) == Some(members.take(n)),
    decreases n,
{
    if n == 0 {
        assert(members.take(0) =~= Seq::empty());
    } else {
        lemma_formed_so_far(pairs, members, form, n - 1);
        assert(pairs.take(n).drop_last() =~= pairs.take(n - 1));
        let m = members[n - 1];
        assert(pairs.take(n).last() == pairs[n - 1]);
        assert(!forms::has_key(members.take(n - 1), m.0)) by {
            assert forall|i: int| 0 <= i < n - 1 implies (#[trigger] members.take(n - 1)[i]).0
                != m.0 by {
                assert(members[i].0 != members[n - 1].0);
            }
        }
        assert(members.take(n) =~= members.take(n - 1).push(m));
    }
}

/// A document that a text spells, with white space round it, is what the text is
/// read as.
pub proof fn spelled_document_is_read(text: Seq<u8>, d: JsonView, form: Form)
    requires
        json::is_json_text(text),
        json::spells(json::stripped(text), d),
        fits(d, form),
    ensures
        forms::document(text, form) == Some(d),
{
    lemma_spelled_is_formed(json::stripped(text), d, form);
}

/// A line feed behind an object is white space round it.
pub proof fn line_feed_is_stripped(s: Seq<u8>, members: Seq<(Seq<char>, JsonView)>)
    requires
        json::spells(s, JsonView::Object(members)),
    ensures
        json::stripped(s) == s,
        json::stripped(s.push(0x0a)) == s,
{
    reveal_with_fuel(json::without_trail, 2);
    let t = s.push(0x0a);
    assert(s[0] == 0x7b && s.last() == 0x7d);
    assert(t.drop_last() =~= s);
}

/// A record that has a known field twice is refused.
pub proof fn field_given_twice_is_refused(
    members: Seq<(Seq<u8>, Seq<u8>)>,
    form: Form,
    key: Seq<char>,
    i: int,
    j: int,
)
    requires
        0 <= i < j < members.len(),
        json::json_document(members[i].0) == Some(JsonView::Text(key)),
        json::json_document(members[j].0) == Some(JsonView::Text(key)),
        forms::form_under(forms::fields(form), key) is Some,
    ensures
        forms::formed_members(members, form) is None,
    decreases members.len(),
{
    let before = members.drop_last();
    if j < members.len() - 1 {
        field_given_twice_is_refused(before, form, key, i, j);
    } else {
        lemma_known_is_kept(before, form, key, i);
    }
}

/// A known field is kept.
proof fn lemma_known_is_kept(
    members: Seq<(Seq<u8>, Seq<u8>)>,
    form: Form,
    key: Seq<char>,
    i: int,
)
    requires
        0 <= i < members.len(),
        json::json_document(members[i].0) == Some(JsonView::Text(key)),
        forms::form_under(forms::fields(form), key) is Some,
    ensures
        forms::formed_members(members, form) matches Some(m) ==> forms::has_key(m, key),
    decreases members.len(),
{
    if let Some(m) = forms::formed_members(members, form) {
        let before = forms::formed_members(members.drop_last(), form)->0;
        if i < members.len() - 1 {
            lemma_known_is_kept(members.drop_last(), form, key, i);
            let k = choose|k: int| 0 <= k < before.len() && (#[trigger] before[k]).0 == key;
            assert(m[k].0 == key);
        } else {
            assert(m[m.len() - 1].0 == key);
        }
    }
}

/// A member that a record does not know changes nothing, whatever bytes stand for
/// its value.
pub proof fn unknown_member_is_passed_over(
    before: Seq<(Seq<u8>, Seq<u8>)>,
    member: (Seq<u8>, Seq<u8>),
    after: Seq<(Seq<u8>, Seq<u8>)>,
    form: Form,
    key: Seq<char>,
)
    requires
        json::json_document(member.0) == Some(JsonView::Text(key)),
        forms::form_under(forms::fields(form), key) is None,
    ensures
        forms::formed_members(before.push(member) + after, form) == forms::formed_members(
            before + after,
            form,
        ),
    decreases after.len(),
{
    if after.len() == 0 {
        assert(before.push(member) + after =~= before.push(member));
        assert(before + after =~= before);
        assert(before.push(member).drop_last() =~= before);
    } else {
        unknown_member_is_passed_over(before, member, after.drop_last(), form, key);
        assert((before.push(member) + after).drop_last() =~= before.push(member)
            + after.drop_last());
        assert((before + after).drop_last() =~= before + after.drop_last());
    }
}

} // verus!
