//! What takes part in the identity of a build: whatever changes, so do the bytes
//! that the identity is hashed from.

use crate::artifact;
use crate::artifact::ArtifactFormat;
use crate::cache;
use crate::digest;
use crate::fingerprint;
use crate::native_builder;
use crate::ordering;
use crate::paths;
use crate::request;
use crate::request::RequestView;
use vstd::prelude::*;
use vstd::utf8;

verus! {

pub proof fn lemma_middle(before: Seq<u8>, a: Seq<u8>, b: Seq<u8>, behind: Seq<u8>)
    requires
        before + a + behind == before + b + behind,
    ensures
        a == b,
{
    let x = before + a + behind;
    let y = before + b + behind;
    assert(x.len() == y.len());
    assert(a.len() == b.len());
    assert forall|i: int| 0 <= i < a.len() implies a[i] == b[i] by {
        assert(x[before.len() + i] == a[i]);
        assert(y[before.len() + i] == b[i]);
    }
    assert(a =~= b);
}

pub proof fn lemma_utf8_injective(a: Seq<char>, b: Seq<char>)
    requires
        utf8::encode_utf8(a) == utf8::encode_utf8(b),
    ensures
        a == b,
{
    utf8::encode_utf8_decode_utf8(a);
    utf8::encode_utf8_decode_utf8(b);
}

proof fn lemma_files_concat(a: Seq<(Seq<char>, Seq<u8>)>, b: Seq<(Seq<char>, Seq<u8>)>)
    ensures
        fingerprint::files_bytes(a + b) == fingerprint::files_bytes(a) + fingerprint::files_bytes(
            b,
        ),
    decreases b.len(),
{
    if b.len() == 0 {
        assert(a + b =~= a);
        assert(fingerprint::files_bytes(a) + Seq::<u8>::empty() =~= fingerprint::files_bytes(a));
    } else {
        lemma_files_concat(a, b.drop_last());
        assert((a + b).drop_last() =~= a + b.drop_last());
        assert(fingerprint::files_bytes(a + b) =~= fingerprint::files_bytes(a)
            + fingerprint::files_bytes(b));
    }
}

proof fn lemma_fields_concat(a: Seq<Seq<char>>, b: Seq<Seq<char>>)
    ensures
        fingerprint::fields_bytes(a + b) == fingerprint::fields_bytes(a)
            + fingerprint::fields_bytes(b),
    decreases b.len(),
{
    if b.len() == 0 {
        assert(a + b =~= a);
        assert(fingerprint::fields_bytes(a) + Seq::<u8>::empty() =~= fingerprint::fields_bytes(a));
    } else {
        lemma_fields_concat(a, b.drop_last());
        assert((a + b).drop_last() =~= a + b.drop_last());
        assert(fingerprint::fields_bytes(a + b) =~= fingerprint::fields_bytes(a)
            + fingerprint::fields_bytes(b));
    }
}

proof fn lemma_one_file(file: (Seq<char>, Seq<u8>))
    ensures
        fingerprint::files_bytes(seq![file]) == fingerprint::field_bytes(file.0) + file.1 + seq![
            0u8,
        ],
{
    let one = seq![file];
    assert(one.drop_last() =~= Seq::<(Seq<char>, Seq<u8>)>::empty());
    assert(one.last() == file);
    assert(fingerprint::files_bytes(one.drop_last()) =~= Seq::<u8>::empty());
    assert(fingerprint::files_bytes(one) =~= fingerprint::file_bytes(file));
    assert(fingerprint::file_bytes(file) =~= fingerprint::field_bytes(file.0) + file.1 + seq![
        0u8,
    ]);
}

proof fn lemma_file_split(files: Seq<(Seq<char>, Seq<u8>)>, i: int)
    requires
        0 <= i < files.len(),
    ensures
        fingerprint::files_bytes(files) == (fingerprint::files_bytes(files.take(i))
            + fingerprint::field_bytes(files[i].0)) + files[i].1 + (seq![0u8]
            + fingerprint::files_bytes(files.skip(i + 1))),
{
    let one = seq![files[i]];
    lemma_one_file(files[i]);
    lemma_files_concat(files.take(i), one);
    lemma_files_concat(files.take(i) + one, files.skip(i + 1));
    assert(files.take(i) + one + files.skip(i + 1) =~= files);
    assert(fingerprint::files_bytes(files) =~= (fingerprint::files_bytes(files.take(i))
        + fingerprint::field_bytes(files[i].0)) + files[i].1 + (seq![0u8]
        + fingerprint::files_bytes(files.skip(i + 1))));
}

/// Where the contents of one file change, the bytes of the files change.
pub proof fn changed_files_change_the_bytes(
    files: Seq<(Seq<char>, Seq<u8>)>,
    i: int,
    contents: Seq<u8>,
)
    requires
        0 <= i < files.len(),
        contents != files[i].1,
    ensures
        fingerprint::files_bytes(files.update(i, (files[i].0, contents)))
            != fingerprint::files_bytes(files),
{
    let other = files.update(i, (files[i].0, contents));
    lemma_file_split(files, i);
    lemma_file_split(other, i);
    assert(other.take(i) =~= files.take(i));
    assert(other.skip(i + 1) =~= files.skip(i + 1));
    if fingerprint::files_bytes(other) == fingerprint::files_bytes(files) {
        lemma_middle(
            fingerprint::files_bytes(files.take(i)) + fingerprint::field_bytes(files[i].0),
            files[i].1,
            contents,
            seq![0u8] + fingerprint::files_bytes(files.skip(i + 1)),
        );
    }
}

/// Where the path of one file changes, the bytes of the files change.
pub proof fn renamed_files_change_the_bytes(
    files: Seq<(Seq<char>, Seq<u8>)>,
    i: int,
    path: Seq<char>,
)
    requires
        0 <= i < files.len(),
        path != files[i].0,
    ensures
        fingerprint::files_bytes(files.update(i, (path, files[i].1))) != fingerprint::files_bytes(
            files,
        ),
{
    let other = files.update(i, (path, files[i].1));
    lemma_file_split(files, i);
    lemma_file_split(other, i);
    assert(other.take(i) =~= files.take(i));
    assert(other.skip(i + 1) =~= files.skip(i + 1));
    let before = fingerprint::files_bytes(files.take(i));
    let behind = seq![0u8] + files[i].1 + (seq![0u8] + fingerprint::files_bytes(
        files.skip(i + 1),
    ));
    assert(fingerprint::files_bytes(files) =~= before + utf8::encode_utf8(files[i].0) + behind);
    assert(fingerprint::files_bytes(other) =~= before + utf8::encode_utf8(path) + behind);
    if fingerprint::files_bytes(other) == fingerprint::files_bytes(files) {
        lemma_middle(before, utf8::encode_utf8(files[i].0), utf8::encode_utf8(path), behind);
        lemma_utf8_injective(files[i].0, path);
    }
}

/// Where one setting changes, the bytes of the settings change.
pub proof fn changed_settings_change_the_bytes(
    settings: Seq<Seq<char>>,
    i: int,
    value: Seq<char>,
)
    requires
        0 <= i < settings.len(),
        value != settings[i],
    ensures
        fingerprint::fields_bytes(settings.update(i, value)) != fingerprint::fields_bytes(settings),
{
    let other = settings.update(i, value);
    lemma_setting_split(settings, i);
    lemma_setting_split(other, i);
    assert(other.take(i) =~= settings.take(i));
    assert(other.skip(i + 1) =~= settings.skip(i + 1));
    if fingerprint::fields_bytes(other) == fingerprint::fields_bytes(settings) {
        lemma_middle(
            fingerprint::fields_bytes(settings.take(i)),
            utf8::encode_utf8(settings[i]),
            utf8::encode_utf8(value),
            seq![0u8] + fingerprint::fields_bytes(settings.skip(i + 1)),
        );
        lemma_utf8_injective(settings[i], value);
    }
}

proof fn lemma_setting_split(settings: Seq<Seq<char>>, i: int)
    requires
        0 <= i < settings.len(),
    ensures
        fingerprint::fields_bytes(settings) == fingerprint::fields_bytes(settings.take(i))
            + utf8::encode_utf8(settings[i]) + (seq![0u8] + fingerprint::fields_bytes(
            settings.skip(i + 1),
        )),
{
    let one = seq![settings[i]];
    assert(one.drop_last() =~= Seq::<Seq<char>>::empty());
    assert(one.last() == settings[i]);
    assert(fingerprint::fields_bytes(one.drop_last()) =~= Seq::<u8>::empty());
    assert(fingerprint::fields_bytes(one) =~= fingerprint::field_bytes(settings[i]));
    lemma_fields_concat(settings.take(i), one);
    lemma_fields_concat(settings.take(i) + one, settings.skip(i + 1));
    assert(settings.take(i) + one + settings.skip(i + 1) =~= settings);
    assert(fingerprint::fields_bytes(settings) =~= fingerprint::fields_bytes(settings.take(i))
        + utf8::encode_utf8(settings[i]) + (seq![0u8] + fingerprint::fields_bytes(
        settings.skip(i + 1),
    )));
}

/// The bytes that a build is identified by: its settings, and its files in the order
/// of their paths.
pub open spec fn build_bytes(
    settings: Seq<Seq<char>>,
    files: Seq<(Seq<char>, Seq<u8>)>,
) -> Seq<u8> {
    fingerprint::fields_bytes(settings) + fingerprint::files_bytes(
        fingerprint::sorted_files(files),
    )
}

/// The bytes that a build is identified by where paths are written with `/`: its
/// settings, and its files in the given order.
pub open spec fn portable_bytes(
    settings: Seq<Seq<char>>,
    files: Seq<(Seq<char>, Seq<u8>)>,
) -> Seq<u8> {
    fingerprint::fields_bytes(settings) + fingerprint::files_bytes(
        fingerprint::with_slashes(files),
    )
}

/// Whether no two files have one path.
pub open spec fn paths_differ(files: Seq<(Seq<char>, Seq<u8>)>) -> bool {
    forall|j: int, k: int|
        0 <= j < k < files.len() ==> (#[trigger] files[j]).0 != (#[trigger] files[k]).0
}

/// Where the contents of one file change, so do those of one file in the order of
/// the paths, and nothing else does.
pub proof fn lemma_sorted_change(files: Seq<(Seq<char>, Seq<u8>)>, i: int, contents: Seq<u8>) -> (k:
    int)
    requires
        0 <= i < files.len(),
        paths_differ(files),
    ensures
        0 <= k < fingerprint::sorted_files(files).len(),
        fingerprint::sorted_files(files)[k] == files[i],
        fingerprint::sorted_files(files.update(i, (files[i].0, contents)))
            == fingerprint::sorted_files(files).update(k, (files[i].0, contents)),
{
    broadcast use vstd::seq_lib::group_to_multiset_ensures;

    let path = files[i].0;
    let change = |f: (Seq<char>, Seq<u8>)|
        if f.0 == path {
            (path, contents)
        } else {
            f
        };
    let key = |f: (Seq<char>, Seq<u8>)| paths::path_key(f.0);
    let other = files.update(i, (path, contents));
    assert(other =~= files.map_values(change)) by {
        assert forall|j: int| 0 <= j < files.len() implies other[j] == #[trigger] change(
            files[j],
        ) by {
            if j < i {
                assert(files[j].0 != files[i].0);
            } else if j > i {
                assert(files[i].0 != files[j].0);
            }
        }
    }
    let sorted = fingerprint::sorted_files(files);
    ordering::stable_sort_map(files, change, key, key);
    ordering::stable_sort_sorts(files, key);
    assert(fingerprint::sorted_files(other) == sorted.map_values(change));
    // The file stands somewhere in the sorted list, and only there.
    assert(sorted.contains(files[i])) by {
        assert(files.contains(files[i]));
        assert(sorted.to_multiset().contains(files[i]) == files.to_multiset().contains(files[i]));
    }
    let k = choose|k: int| 0 <= k < sorted.len() && sorted[k] == files[i];
    assert forall|j: int| 0 <= j < sorted.len() && j != k implies sorted[j].0 != path by {
        if sorted[j].0 == path {
            lemma_sorted_paths_differ(files, j, k);
        }
    }
    assert(sorted.map_values(change) =~= sorted.update(k, (path, contents)));
    k
}

/// The sources of a build take part in its identity: where the contents of one file
/// change, so do the bytes that are hashed.
pub proof fn sources_take_part_in_the_identity(
    settings: Seq<Seq<char>>,
    files: Seq<(Seq<char>, Seq<u8>)>,
    i: int,
    contents: Seq<u8>,
)
    requires
        0 <= i < files.len(),
        contents != files[i].1,
        paths_differ(files),
    ensures
        build_bytes(settings, files.update(i, (files[i].0, contents))) != build_bytes(
            settings,
            files,
        ),
        fingerprint::build_fingerprint(settings, files) == digest::sha256_text(
            build_bytes(settings, files),
        ),
{
    let other = files.update(i, (files[i].0, contents));
    let sorted = fingerprint::sorted_files(files);
    let k = lemma_sorted_change(files, i, contents);
    changed_files_change_the_bytes(sorted, k, contents);
    if build_bytes(settings, other) == build_bytes(settings, files) {
        let none = Seq::<u8>::empty();
        let first = fingerprint::fields_bytes(settings);
        let a = fingerprint::files_bytes(fingerprint::sorted_files(other));
        let b = fingerprint::files_bytes(sorted);
        assert(first + a + none =~= first + a);
        assert(first + b + none =~= first + b);
        lemma_middle(first, a, b, none);
    }
}

/// Where the contents of one file change, the bytes with portable paths change.
proof fn lemma_portable_change(
    settings: Seq<Seq<char>>,
    files: Seq<(Seq<char>, Seq<u8>)>,
    i: int,
    contents: Seq<u8>,
)
    requires
        0 <= i < files.len(),
        contents != files[i].1,
    ensures
        portable_bytes(settings, files.update(i, (files[i].0, contents))) != portable_bytes(
            settings,
            files,
        ),
{
    let other = files.update(i, (files[i].0, contents));
    let here = fingerprint::with_slashes(files);
    let there = fingerprint::with_slashes(other);
    assert(there =~= here.update(i, (here[i].0, contents)));
    changed_files_change_the_bytes(here, i, contents);
    if portable_bytes(settings, other) == portable_bytes(settings, files) {
        let none = Seq::<u8>::empty();
        let first = fingerprint::fields_bytes(settings);
        let a = fingerprint::files_bytes(there);
        let b = fingerprint::files_bytes(here);
        assert(first + a + none =~= first + a);
        assert(first + b + none =~= first + b);
        lemma_middle(first, a, b, none);
    }
}

/// The sources of a Go build take part in its identity.
pub proof fn go_sources_take_part_in_the_identity(
    settings: Seq<Seq<char>>,
    files: Seq<(Seq<char>, Seq<u8>)>,
    i: int,
    contents: Seq<u8>,
)
    requires
        0 <= i < files.len(),
        contents != files[i].1,
        paths_differ(files),
    ensures
        portable_bytes(
            settings,
            fingerprint::sorted_files(files.update(i, (files[i].0, contents))),
        ) != portable_bytes(settings, fingerprint::sorted_files(files)),
        fingerprint::portable_fingerprint(settings, fingerprint::sorted_files(files))
            == digest::sha256_text(
            portable_bytes(settings, fingerprint::sorted_files(files)),
        ),
{
    let sorted = fingerprint::sorted_files(files);
    let k = lemma_sorted_change(files, i, contents);
    lemma_portable_change(settings, sorted, k, contents);
}

/// The source and the WIT files of a C or C++ build take part in its identity.
pub proof fn native_sources_take_part_in_the_identity(
    settings: Seq<Seq<char>>,
    files: Seq<(Seq<char>, Seq<u8>)>,
    i: int,
    contents: Seq<u8>,
)
    requires
        0 <= i < files.len(),
        contents != files[i].1,
        ordering::keys_differ(files, |f: (Seq<char>, Seq<u8>)| paths::path_key(f.0)),
    ensures
        portable_bytes(
            settings,
            native_builder::distinct_files(files.update(i, (files[i].0, contents))),
        ) != portable_bytes(settings, native_builder::distinct_files(files)),
        fingerprint::portable_fingerprint(settings, native_builder::distinct_files(files))
            == digest::sha256_text(
            portable_bytes(settings, native_builder::distinct_files(files)),
        ),
{
    let key = |f: (Seq<char>, Seq<u8>)| paths::path_key(f.0);
    let other = files.update(i, (files[i].0, contents));
    assert forall|j: int, k: int| 0 <= j < k < files.len() implies (#[trigger] files[j]).0 != (
    #[trigger] files[k]).0 by {
        assert(key(files[j]) != key(files[k]));
    }
    assert forall|j: int, k: int| 0 <= j < k < other.len() implies key(#[trigger] other[j]) != key(
        #[trigger] other[k],
    ) by {
        assert(other[j].0 == files[j].0 && other[k].0 == files[k].0);
        assert(key(files[j]) != key(files[k]));
    }
    go_sources_take_part_in_the_identity(settings, files, i, contents);
    lemma_all_distinct(files);
    lemma_all_distinct(other);
}

/// Files of different paths are all kept.
proof fn lemma_all_distinct(files: Seq<(Seq<char>, Seq<u8>)>)
    requires
        ordering::keys_differ(files, |f: (Seq<char>, Seq<u8>)| paths::path_key(f.0)),
    ensures
        native_builder::distinct_files(files) == fingerprint::sorted_files(files),
{
    broadcast use vstd::seq_lib::group_to_multiset_ensures;

    let key = |f: (Seq<char>, Seq<u8>)| paths::path_key(f.0);
    let sorted = fingerprint::sorted_files(files);
    ordering::stable_sort_sorts(files, key);
    assert forall|j: int, k: int| 0 <= j < k < files.len() implies (#[trigger] files[j]).0 != (
    #[trigger] files[k]).0 by {
        assert(key(files[j]) != key(files[k]));
    }
    assert forall|j: int, k: int| 0 <= j < k < sorted.len() implies key(#[trigger] sorted[j])
        != key(#[trigger] sorted[k]) by {
        let x = sorted[j];
        let y = sorted[k];
        if key(x) == key(y) {
            assert(sorted.contains(x));
            assert(sorted.contains(y));
            assert(files.contains(x)) by {
                assert(sorted.to_multiset().contains(x) == files.to_multiset().contains(x));
            }
            assert(files.contains(y)) by {
                assert(sorted.to_multiset().contains(y) == files.to_multiset().contains(y));
            }
            let a = choose|a: int| 0 <= a < files.len() && files[a] == x;
            let b = choose|b: int| 0 <= b < files.len() && files[b] == y;
            assert(a == b);
            lemma_sorted_paths_differ(files, j, k);
        }
    }
    lemma_dedup_keeps(sorted);
}

proof fn lemma_dedup_keeps(files: Seq<(Seq<char>, Seq<u8>)>)
    requires
        ordering::keys_differ(files, |f: (Seq<char>, Seq<u8>)| paths::path_key(f.0)),
    ensures
        ordering::dedup_by(files, |f: (Seq<char>, Seq<u8>)| paths::path_key(f.0)) == files,
    decreases files.len(),
{
    let key = |f: (Seq<char>, Seq<u8>)| paths::path_key(f.0);
    if files.len() > 0 {
        let before = files.drop_last();
        lemma_dedup_keeps(before);
        if before.len() > 0 {
            assert(key(files[files.len() - 2]) != key(files[files.len() - 1]));
            assert(before.last() == files[files.len() - 2]);
        }
        assert(before.push(files.last()) =~= files);
    } else {
        assert(files =~= Seq::<(Seq<char>, Seq<u8>)>::empty());
    }
}

proof fn lemma_sorted_paths_differ(files: Seq<(Seq<char>, Seq<u8>)>, j: int, k: int)
    requires
        paths_differ(files),
        0 <= j < fingerprint::sorted_files(files).len(),
        0 <= k < fingerprint::sorted_files(files).len(),
        j != k,
    ensures
        fingerprint::sorted_files(files)[j].0 != fingerprint::sorted_files(files)[k].0,
{
    broadcast use vstd::seq_lib::group_to_multiset_ensures;

    let key = |f: (Seq<char>, Seq<u8>)| paths::path_key(f.0);
    let sorted = fingerprint::sorted_files(files);
    ordering::stable_sort_sorts(files, key);
    let x = sorted[j];
    let y = sorted[k];
    if x.0 == y.0 {
        assert(sorted.contains(x));
        assert(sorted.contains(y));
        assert(files.contains(x)) by {
            assert(sorted.to_multiset().contains(x) == files.to_multiset().contains(x));
        }
        assert(files.contains(y)) by {
            assert(sorted.to_multiset().contains(y) == files.to_multiset().contains(y));
        }
        let a = choose|a: int| 0 <= a < files.len() && files[a] == x;
        let b = choose|b: int| 0 <= b < files.len() && files[b] == y;
        assert(a == b);
        assert(x == y);
        assert(files.no_duplicates());
        files.lemma_multiset_has_no_duplicates();
        assert(files.to_multiset().count(x) == 1);
        assert(sorted.to_multiset().count(x) == 1);
        if j < k {
            lemma_count_two(sorted, j, k);
        } else {
            lemma_count_two(sorted, k, j);
        }
    }
}

proof fn lemma_count_two(s: Seq<(Seq<char>, Seq<u8>)>, j: int, k: int)
    requires
        0 <= j < k < s.len(),
        s[j] == s[k],
    ensures
        s.to_multiset().count(s[j]) >= 2,
{
    broadcast use vstd::seq_lib::group_to_multiset_ensures;

    let t = s.remove(j);
    assert(t[k - 1] == s[k]);
    assert(t.contains(s[j]));
    assert(t.to_multiset().count(s[j]) >= 1);
    assert(t.to_multiset() =~= s.to_multiset().remove(s[j]));
    assert(s.contains(s[j]));
}

/// The bytes that a bridge is identified by.
pub open spec fn bridge_bytes(
    version: Seq<char>,
    id: Seq<char>,
    interface: Seq<char>,
    entrypoint: Seq<char>,
    files: Seq<(Seq<char>, Seq<u8>)>,
) -> Seq<u8> {
    fingerprint::fields_bytes(seq![version, id, interface, entrypoint]) + fingerprint::files_bytes(
        files,
    )
}

/// The version of an adapter, its identity, the interface, the entrypoint and the
/// bytes of each asset take part in the identity of a bridge.
pub proof fn adapters_take_part_in_the_identity(
    version: Seq<char>,
    id: Seq<char>,
    interface: Seq<char>,
    entrypoint: Seq<char>,
    files: Seq<(Seq<char>, Seq<u8>)>,
    other: Seq<char>,
    i: int,
    contents: Seq<u8>,
)
    ensures
        other != version ==> bridge_bytes(other, id, interface, entrypoint, files) != bridge_bytes(
            version,
            id,
            interface,
            entrypoint,
            files,
        ),
        other != id ==> bridge_bytes(version, other, interface, entrypoint, files) != bridge_bytes(
            version,
            id,
            interface,
            entrypoint,
            files,
        ),
        other != interface ==> bridge_bytes(version, id, other, entrypoint, files) != bridge_bytes(
            version,
            id,
            interface,
            entrypoint,
            files,
        ),
        other != entrypoint ==> bridge_bytes(version, id, interface, other, files) != bridge_bytes(
            version,
            id,
            interface,
            entrypoint,
            files,
        ),
        0 <= i < files.len() && contents != files[i].1 ==> bridge_bytes(
            version,
            id,
            interface,
            entrypoint,
            files.update(i, (files[i].0, contents)),
        ) != bridge_bytes(version, id, interface, entrypoint, files),
{
    let fields = seq![version, id, interface, entrypoint];
    assert(fields.update(0, other) =~= seq![other, id, interface, entrypoint]);
    assert(fields.update(1, other) =~= seq![version, other, interface, entrypoint]);
    assert(fields.update(2, other) =~= seq![version, id, other, entrypoint]);
    assert(fields.update(3, other) =~= seq![version, id, interface, other]);
    if other != version {
        lemma_changed_field(fields, 0, other, files);
    }
    if other != id {
        lemma_changed_field(fields, 1, other, files);
    }
    if other != interface {
        lemma_changed_field(fields, 2, other, files);
    }
    if other != entrypoint {
        lemma_changed_field(fields, 3, other, files);
    }
    if 0 <= i < files.len() && contents != files[i].1 {
        let changed = files.update(i, (files[i].0, contents));
        changed_files_change_the_bytes(files, i, contents);
        let none = Seq::<u8>::empty();
        let first = fingerprint::fields_bytes(fields);
        let a = fingerprint::files_bytes(changed);
        let b = fingerprint::files_bytes(files);
        if first + a == first + b {
            assert(first + a + none =~= first + a);
            assert(first + b + none =~= first + b);
            lemma_middle(first, a, b, none);
        }
    }
}

pub proof fn lemma_changed_field(
    fields: Seq<Seq<char>>,
    i: int,
    value: Seq<char>,
    files: Seq<(Seq<char>, Seq<u8>)>,
)
    requires
        0 <= i < fields.len(),
        value != fields[i],
    ensures
        fingerprint::fields_bytes(fields.update(i, value)) + fingerprint::files_bytes(files)
            != fingerprint::fields_bytes(fields) + fingerprint::files_bytes(files),
{
    changed_settings_change_the_bytes(fields, i, value);
    let none = Seq::<u8>::empty();
    let a = fingerprint::fields_bytes(fields.update(i, value));
    let b = fingerprint::fields_bytes(fields);
    let rest = fingerprint::files_bytes(files);
    if a + rest == b + rest {
        assert(none + a + rest =~= a + rest);
        assert(none + b + rest =~= b + rest);
        lemma_middle(none, a, b, rest);
    }
}

/// The digest of the bridge takes part in the identity of a build: where it
/// changes, so do the bytes that are hashed, whatever else the request says.
pub proof fn bridges_take_part_in_the_identity(
    builder: Seq<char>,
    r: RequestView,
    s: RequestView,
)
    requires
        request::workspace_digest(r) is Some,
        request::workspace_digest(s) is Some,
        request::workspace_digest(r)->0.len() == request::workspace_digest(s)->0.len(),
        request::workspace_digest(r) != request::workspace_digest(s),
    ensures
        cache::adaptation_bytes(builder, r) != cache::adaptation_bytes(builder, s),
{
    if cache::adaptation_bytes(builder, r) == cache::adaptation_bytes(builder, s) {
        let first = fingerprint::field_bytes(builder);
        let none = Seq::<u8>::empty();
        let a = request::adaptation_material(r);
        let b = request::adaptation_material(s);
        assert(first + utf8::encode_utf8(a) + none =~= cache::adaptation_bytes(builder, r));
        assert(first + utf8::encode_utf8(b) + none =~= cache::adaptation_bytes(builder, s));
        lemma_middle(first, utf8::encode_utf8(a), utf8::encode_utf8(b), none);
        lemma_utf8_injective(a, b);
        let d = request::workspace_digest(r)->0;
        let e = request::workspace_digest(s)->0;
        let n = a.len() - d.len();
        assert(a.skip(n) =~= d);
        assert(b.skip(n) =~= e);
    }
}

/// The contents of a provided artifact, its format, what the request adds and the
/// execution defaults take part in the identity of a provided artifact.
pub proof fn provided_artifacts_take_part_in_the_identity(
    r: RequestView,
    format: ArtifactFormat,
    contents: Seq<u8>,
    other: RequestView,
    other_format: ArtifactFormat,
    other_contents: Seq<u8>,
)
    ensures
        cache::raw_fingerprint(r, format, contents) == digest::sha256_text(
            cache::raw_bytes(r, format, contents),
        ),
        other_contents != contents ==> cache::raw_bytes(r, format, other_contents)
            != cache::raw_bytes(r, format, contents),
        other_format != format ==> cache::raw_bytes(r, other_format, contents) != cache::raw_bytes(
            r,
            format,
            contents,
        ),
        other.execution_defaults == r.execution_defaults && request::adaptation_material(other)
            != request::adaptation_material(r) ==> cache::raw_bytes(other, format, contents)
            != cache::raw_bytes(r, format, contents),
        request::adaptation_material(other) == request::adaptation_material(r) && (cache::or_zero(
            other.execution_defaults.timeout_ms,
        ) != cache::or_zero(r.execution_defaults.timeout_ms) || cache::or_zero(
            other.execution_defaults.memory_bytes,
        ) != cache::or_zero(r.execution_defaults.memory_bytes)) ==> cache::raw_bytes(
            other,
            format,
            contents,
        ) != cache::raw_bytes(r, format, contents),
{
    if other_contents != contents {
        lemma_contents_matter(r, format, contents, other_contents);
    }
    if other_format != format {
        lemma_format_matters(r, format, other_format, contents);
    }
    if other.execution_defaults == r.execution_defaults && request::adaptation_material(other)
        != request::adaptation_material(r) {
        lemma_material_matters(r, other, format, contents);
    }
    if request::adaptation_material(other) == request::adaptation_material(r) && raw_limits(other)
        != raw_limits(r) {
        lemma_limits_matter(r, other, format, contents);
    }
    if raw_limits(other) == raw_limits(r) {
        lemma_limits(r, other);
    }
}

proof fn lemma_contents_matter(
    r: RequestView,
    format: ArtifactFormat,
    contents: Seq<u8>,
    other: Seq<u8>,
)
    requires
        other != contents,
    ensures
        cache::raw_bytes(r, format, other) != cache::raw_bytes(r, format, contents),
{
    lemma_raw_contents(r, format, contents);
    lemma_raw_contents(r, format, other);
    if cache::raw_bytes(r, format, other) == cache::raw_bytes(r, format, contents) {
        let rest = seq![0u8] + raw_format(format) + raw_material(r) + raw_limits(r);
        lemma_middle(raw_first(), contents, other, rest);
    }
}

proof fn lemma_format_matters(
    r: RequestView,
    format: ArtifactFormat,
    other: ArtifactFormat,
    contents: Seq<u8>,
)
    requires
        other != format,
    ensures
        cache::raw_bytes(r, other, contents) != cache::raw_bytes(r, format, contents),
{
    let first = raw_first() + contents + seq![0u8];
    let rest = raw_material(r) + raw_limits(r);
    lemma_raw_contents(r, format, contents);
    lemma_raw_contents(r, other, contents);
    assert(cache::raw_bytes(r, format, contents) =~= first + raw_format(format) + rest);
    assert(cache::raw_bytes(r, other, contents) =~= first + raw_format(other) + rest);
    if cache::raw_bytes(r, other, contents) == cache::raw_bytes(r, format, contents) {
        lemma_middle(first, raw_format(format), raw_format(other), rest);
        lemma_format_texts();
        lemma_field_injective(artifact::format_text(format), artifact::format_text(other));
    }
}

/// The bytes of a provided artifact end with what the request adds and the limits.
proof fn lemma_raw_end(r: RequestView, format: ArtifactFormat, contents: Seq<u8>)
    ensures
        cache::raw_bytes(r, format, contents) == raw_first() + contents + seq![0u8] + raw_format(
            format,
        ) + raw_material(r) + raw_limits(r),
{
    lemma_raw_contents(r, format, contents);
    assert(cache::raw_bytes(r, format, contents) =~= raw_first() + contents + seq![0u8]
        + raw_format(format) + raw_material(r) + raw_limits(r));
}

proof fn lemma_material_matters(
    r: RequestView,
    other: RequestView,
    format: ArtifactFormat,
    contents: Seq<u8>,
)
    requires
        other.execution_defaults == r.execution_defaults,
        request::adaptation_material(other) != request::adaptation_material(r),
    ensures
        cache::raw_bytes(other, format, contents) != cache::raw_bytes(r, format, contents),
{
    lemma_raw_end(r, format, contents);
    lemma_raw_end(other, format, contents);
    if cache::raw_bytes(other, format, contents) == cache::raw_bytes(r, format, contents) {
        let first = raw_first() + contents + seq![0u8] + raw_format(format);
        lemma_middle(first, raw_material(r), raw_material(other), raw_limits(r));
        lemma_field_injective(
            request::adaptation_material(r),
            request::adaptation_material(other),
        );
    }
}

proof fn lemma_limits_matter(
    r: RequestView,
    other: RequestView,
    format: ArtifactFormat,
    contents: Seq<u8>,
)
    requires
        request::adaptation_material(other) == request::adaptation_material(r),
        raw_limits(other) != raw_limits(r),
    ensures
        cache::raw_bytes(other, format, contents) != cache::raw_bytes(r, format, contents),
{
    lemma_raw_end(r, format, contents);
    lemma_raw_end(other, format, contents);
    if cache::raw_bytes(other, format, contents) == cache::raw_bytes(r, format, contents) {
        let none = Seq::<u8>::empty();
        let before = raw_first() + contents + seq![0u8] + raw_format(format) + raw_material(r);
        assert(before + raw_limits(r) + none =~= before + raw_limits(r));
        assert(before + raw_limits(other) + none =~= before + raw_limits(other));
        lemma_middle(before, raw_limits(r), raw_limits(other), none);
    }
}

spec fn raw_first() -> Seq<u8> {
    fingerprint::field_bytes("pit-raw-component-v1"@)
}

spec fn raw_format(format: ArtifactFormat) -> Seq<u8> {
    fingerprint::field_bytes(artifact::format_text(format))
}

spec fn raw_material(r: RequestView) -> Seq<u8> {
    fingerprint::field_bytes(request::adaptation_material(r))
}

spec fn raw_limits(r: RequestView) -> Seq<u8> {
    vstd::bytes::spec_u64_to_le_bytes(cache::or_zero(r.execution_defaults.timeout_ms))
        + vstd::bytes::spec_u64_to_le_bytes(cache::or_zero(r.execution_defaults.memory_bytes))
}

proof fn lemma_raw_contents(r: RequestView, format: ArtifactFormat, contents: Seq<u8>)
    ensures
        cache::raw_bytes(r, format, contents) == raw_first() + contents + (seq![0u8] + raw_format(
            format,
        ) + raw_material(r) + raw_limits(r)),
{
    assert(cache::raw_bytes(r, format, contents) =~= raw_first() + contents + (seq![0u8]
        + raw_format(format) + raw_material(r) + raw_limits(r)));
}

proof fn lemma_field_injective(a: Seq<char>, b: Seq<char>)
    requires
        fingerprint::field_bytes(a) == fingerprint::field_bytes(b),
    ensures
        a == b,
{
    assert(fingerprint::field_bytes(a).drop_last() =~= utf8::encode_utf8(a));
    assert(fingerprint::field_bytes(b).drop_last() =~= utf8::encode_utf8(b));
    lemma_utf8_injective(a, b);
}

proof fn lemma_format_texts()
    ensures
        artifact::format_text(ArtifactFormat::CoreModule) != artifact::format_text(
            ArtifactFormat::Component,
        ),
{
    reveal_strlit("core-module");
    reveal_strlit("component");
    assert("core-module"@.len() != "component"@.len());
}

proof fn lemma_limits(r: RequestView, other: RequestView)
    requires
        raw_limits(r) == raw_limits(other),
    ensures
        cache::or_zero(r.execution_defaults.timeout_ms) == cache::or_zero(
            other.execution_defaults.timeout_ms,
        ),
        cache::or_zero(r.execution_defaults.memory_bytes) == cache::or_zero(
            other.execution_defaults.memory_bytes,
        ),
{
    vstd::bytes::lemma_auto_spec_u64_to_from_le_bytes();
    let a = cache::or_zero(r.execution_defaults.timeout_ms);
    let b = cache::or_zero(r.execution_defaults.memory_bytes);
    let c = cache::or_zero(other.execution_defaults.timeout_ms);
    let d = cache::or_zero(other.execution_defaults.memory_bytes);
    assert(raw_limits(r).take(8) =~= vstd::bytes::spec_u64_to_le_bytes(a));
    assert(raw_limits(r).skip(8) =~= vstd::bytes::spec_u64_to_le_bytes(b));
    assert(raw_limits(other).take(8) =~= vstd::bytes::spec_u64_to_le_bytes(c));
    assert(raw_limits(other).skip(8) =~= vstd::bytes::spec_u64_to_le_bytes(d));
}

/// What the builder knows takes part in the identity of a build.
pub proof fn builders_take_part_in_the_identity(a: Seq<char>, b: Seq<char>, r: RequestView)
    requires
        a != b,
    ensures
        cache::adaptation_bytes(a, r) != cache::adaptation_bytes(b, r),
{
    if cache::adaptation_bytes(a, r) == cache::adaptation_bytes(b, r) {
        let none = Seq::<u8>::empty();
        let rest = seq![0u8] + utf8::encode_utf8(request::adaptation_material(r));
        assert(none + utf8::encode_utf8(a) + rest =~= cache::adaptation_bytes(a, r));
        assert(none + utf8::encode_utf8(b) + rest =~= cache::adaptation_bytes(b, r));
        lemma_middle(none, utf8::encode_utf8(a), utf8::encode_utf8(b), rest);
        lemma_utf8_injective(a, b);
    }
}

} // verus!
