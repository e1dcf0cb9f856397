//! The bytes that the identity of a build or of a bridge is hashed from.

use crate::digest;
use crate::digest::sha256_hex;
use crate::ordering;
use crate::ordering::sort_by_keys;
use crate::paths;
use crate::paths::key_of_path;
use crate::text;
use crate::text::replace;
use vstd::prelude::*;
use vstd::utf8;

verus! {

/// A file and what is in it.
#[derive(Debug, PartialEq, Eq)]
pub struct SourceFile {
    pub path: String,
    pub contents: Vec<u8>,
}

impl View for SourceFile {
    type V = (Seq<char>, Seq<u8>);

    open spec fn view(&self) -> (Seq<char>, Seq<u8>) {
        (self.path@, self.contents@)
    }
}

/// The models of files.
pub open spec fn files_view(v: Seq<SourceFile>) -> Seq<(Seq<char>, Seq<u8>)> {
    v.map_values(|f: SourceFile| f@)
}

/// Files in the order of their paths.
pub open spec fn sorted_files(files: Seq<(Seq<char>, Seq<u8>)>) -> Seq<(Seq<char>, Seq<u8>)> {
    ordering::stable_sort(files, |f: (Seq<char>, Seq<u8>)| paths::path_key(f.0))
}

/// Files in the order of their paths.
pub fn sort_files(files: Vec<SourceFile>) -> (r: Vec<SourceFile>)
    ensures
        files_view(r@) == sorted_files(files_view(files@)),
{
    let mut keys: Vec<Vec<u32>> = Vec::new();
    let mut i: usize = 0;
    while i < files.len()
        invariant
            i <= files@.len(),
            keys@.len() == i,
            forall|j: int| 0 <= j < i ==> (#[trigger] keys@[j])@ == paths::path_key(files@[j].path@),
        decreases files@.len() - i,
    {
        keys.push(key_of_path(files[i].path.as_str()));
        i = i + 1;
    }
    proof {
        ordering::stable_sort_map(
            files@,
            |f: SourceFile| f@,
            |f: SourceFile| paths::path_key(f.path@),
            |f: (Seq<char>, Seq<u8>)| paths::path_key(f.0),
        );
    }
    sort_by_keys(files, keys, Ghost(|f: SourceFile| paths::path_key(f.path@)))
}

/// Appends bytes.
pub fn append_bytes(out: &mut Vec<u8>, bytes: &[u8])
    ensures
        final(out)@ == old(out)@ + bytes@,
{
    let ghost start = out@;
    let mut i: usize = 0;
    assert(start + bytes@.take(0) =~= start);
    while i < bytes.len()
        invariant
            i <= bytes@.len(),
            out@ == start + bytes@.take(i as int),
        decreases bytes@.len() - i,
    {
        out.push(bytes[i]);
        assert(start + bytes@.take(i + 1) =~= (start + bytes@.take(i as int)).push(bytes@[i as int]));
        i = i + 1;
    }
    assert(bytes@.take(i as int) =~= bytes@);
}

/// A text and a zero byte.
pub open spec fn field_bytes(value: Seq<char>) -> Seq<u8> {
    utf8::encode_utf8(value).push(0)
}

/// Appends a text and a zero byte.
pub fn append_field(out: &mut Vec<u8>, value: &str)
    ensures
        final(out)@ == old(out)@ + field_bytes(value@),
{
    let ghost start = out@;
    append_bytes(out, value.as_bytes());
    out.push(0);
    assert(out@ =~= start + field_bytes(value@));
}

/// Each text with a zero byte after it.
pub open spec fn fields_bytes(values: Seq<Seq<char>>) -> Seq<u8>
    decreases values.len(),
{
    if values.len() == 0 {
        Seq::empty()
    } else {
        fields_bytes(values.drop_last()) + field_bytes(values.last())
    }
}

/// A path, a zero byte, the contents and a zero byte.
pub open spec fn file_bytes(file: (Seq<char>, Seq<u8>)) -> Seq<u8> {
    field_bytes(file.0) + file.1.push(0)
}

/// The paths and contents of files, one after the other.
pub open spec fn files_bytes(files: Seq<(Seq<char>, Seq<u8>)>) -> Seq<u8>
    decreases files.len(),
{
    if files.len() == 0 {
        Seq::empty()
    } else {
        files_bytes(files.drop_last()) + file_bytes(files.last())
    }
}

/// Each text with a zero byte after it.
pub fn field_material(values: &Vec<&str>) -> (r: Vec<u8>)
    ensures
        r@ == fields_bytes(values@.map_values(|v: &str| v@)),
{
    let ghost all = values@.map_values(|v: &str| v@);
    let mut out: Vec<u8> = Vec::new();
    assert(all.take(0) =~= Seq::<Seq<char>>::empty());
    let mut i: usize = 0;
    while i < values.len()
        invariant
            i <= values@.len(),
            all == values@.map_values(|v: &str| v@),
            out@ == fields_bytes(all.take(i as int)),
        decreases values@.len() - i,
    {
        append_field(&mut out, values[i]);
        assert(all.take(i + 1).drop_last() =~= all.take(i as int));
        assert(all.take(i + 1).last() == values@[i as int]@);
        i = i + 1;
    }
    assert(all.take(i as int) =~= all);
    out
}

/// Appends the paths and contents of files.
pub fn append_files(out: &mut Vec<u8>, files: &Vec<SourceFile>)
    ensures
        final(out)@ == old(out)@ + files_bytes(files_view(files@)),
{
    let ghost all = files_view(files@);
    let ghost start = out@;
    assert(all.take(0) =~= Seq::<(Seq<char>, Seq<u8>)>::empty());
    assert(start + files_bytes(all.take(0)) =~= start);
    let mut i: usize = 0;
    while i < files.len()
        invariant
            i <= files@.len(),
            all == files_view(files@),
            out@ == start + files_bytes(all.take(i as int)),
        decreases files@.len() - i,
    {
        let ghost before = out@;
        append_field(out, files[i].path.as_str());
        append_bytes(out, files[i].contents.as_slice());
        out.push(0);
        assert(all.take(i + 1).drop_last() =~= all.take(i as int));
        assert(all.take(i + 1).last() == files@[i as int]@);
        assert(out@ =~= before + file_bytes(files@[i as int]@));
        assert(before + file_bytes(files@[i as int]@) =~= start + (files_bytes(all.take(i as int))
            + file_bytes(files@[i as int]@)));
        i = i + 1;
    }
    assert(all.take(i as int) =~= all);
}

/// The fingerprint of a build from its settings and its files, which are taken
/// in the order of their paths.
pub open spec fn build_fingerprint(
    settings: Seq<Seq<char>>,
    files: Seq<(Seq<char>, Seq<u8>)>,
) -> Seq<char> {
    digest::sha256_text(fields_bytes(settings) + files_bytes(sorted_files(files)))
}

/// The fingerprint of a build from its settings and its files.
pub fn hash_build(settings: &Vec<&str>, files: Vec<SourceFile>) -> (r: String)
    ensures
        r@ == build_fingerprint(settings@.map_values(|v: &str| v@), files_view(files@)),
        digest::is_digest_text(r@),
{
    let mut material = field_material(settings);
    let sorted = sort_files(files);
    append_files(&mut material, &sorted);
    sha256_hex(material.as_slice())
}

/// Files with `/` in place of backslashes in their paths.
pub open spec fn with_slashes(files: Seq<(Seq<char>, Seq<u8>)>) -> Seq<(Seq<char>, Seq<u8>)> {
    files.map_values(
        |f: (Seq<char>, Seq<u8>)| (text::replaced(f.0, seq!['\\'], '/'), f.1),
    )
}

/// The fingerprint of a build from its settings and its files, which are hashed
/// in the given order with `/` in place of backslashes.
pub open spec fn portable_fingerprint(
    settings: Seq<Seq<char>>,
    files: Seq<(Seq<char>, Seq<u8>)>,
) -> Seq<char> {
    digest::sha256_text(fields_bytes(settings) + files_bytes(with_slashes(files)))
}

/// The fingerprint of a build from its settings and its files, which are hashed
/// in the given order with `/` in place of backslashes.
pub(crate) fn hash_portable(settings: &Vec<&str>, files: &Vec<SourceFile>) -> (r: String)
    ensures
        r@ == portable_fingerprint(settings@.map_values(|v: &str| v@), files_view(files@)),
        digest::is_digest_text(r@),
{
    let backslash: [char; 1] = ['\\'];
    assert(backslash@ =~= seq!['\\']);
    let ghost all = with_slashes(files_view(files@));
    let mut material = field_material(settings);
    let ghost start = material@;
    assert(all.take(0) =~= Seq::<(Seq<char>, Seq<u8>)>::empty());
    assert(start + files_bytes(all.take(0)) =~= start);
    let mut i: usize = 0;
    while i < files.len()
        invariant
            i <= files@.len(),
            backslash@ == seq!['\\'],
            all == with_slashes(files_view(files@)),
            material@ == start + files_bytes(all.take(i as int)),
        decreases files@.len() - i,
    {
        let ghost before = material@;
        append_field(&mut material, replace(files[i].path.as_str(), &backslash, '/').as_str());
        append_bytes(&mut material, files[i].contents.as_slice());
        material.push(0);
        let ghost file = all[i as int];
        assert(all.take(i + 1).drop_last() =~= all.take(i as int));
        assert(all.take(i + 1).last() == file);
        assert(material@ =~= before + file_bytes(file));
        assert(before + file_bytes(file) =~= start + (files_bytes(all.take(i as int)) + file_bytes(
            file,
        )));
        i = i + 1;
    }
    assert(all.take(i as int) =~= all);
    sha256_hex(material.as_slice())
}

/// The fingerprint does not depend on the order in which files are handed over,
/// as long as their paths differ.
pub proof fn fingerprint_ignores_file_order(
    settings: Seq<Seq<char>>,
    a: Seq<(Seq<char>, Seq<u8>)>,
    b: Seq<(Seq<char>, Seq<u8>)>,
)
    requires
        a.to_multiset() == b.to_multiset(),
        ordering::keys_differ(a, |f: (Seq<char>, Seq<u8>)| paths::path_key(f.0)),
        ordering::keys_differ(b, |f: (Seq<char>, Seq<u8>)| paths::path_key(f.0)),
    ensures
        build_fingerprint(settings, a) == build_fingerprint(settings, b),
{
    let key = |f: (Seq<char>, Seq<u8>)| paths::path_key(f.0);
    ordering::sorted_order_is_unique(a, b, key);
}

} // verus!
