//! What a build's fingerprint says: it is another one where a source of the project is
//! edited, and where the request or the toolchain is another.

use crate::artifact;
use crate::artifact::{BuildProfile, ComponentWorld};
use crate::builder::LanguageBuilder;
use crate::digest;
use crate::fingerprint;
use crate::fingerprint::SourceFile;
use crate::go_builder;
use crate::go_builder::GoBuilder;
use crate::identity_laws;
use crate::js_builder;
use crate::js_builder::JsBuilder;
use crate::language;
use crate::native_builder;
use crate::native_builder::NativeBuilder;
use crate::paths;
use crate::python_builder;
use crate::python_builder::PythonBuilder;
use crate::request::{BuildRequest, ToolchainInfo};
use crate::source_laws;
use crate::walk::{EntryKind, WalkPolicy};
use crate::walk_laws;
use vstd::prelude::*;

verus! {

/// Whether two fingerprints are the digests of different bytes.
pub open spec fn are_of_different_bytes(a: Seq<char>, b: Seq<char>) -> bool {
    exists|x: Seq<u8>, y: Seq<u8>|
        x != y && a == #[trigger] digest::hex(digest::sha256_bytes(x)) && b
            == #[trigger] digest::hex(digest::sha256_bytes(y))
}

/// Whether files are those that were found, each with what it holds.
pub open spec fn are_read(
    files: Seq<SourceFile>,
    found: Seq<Seq<char>>,
    read: spec_fn(Seq<char>) -> Seq<u8>,
) -> bool {
    &&& files.len() == found.len()
    &&& forall|i: int|
        0 <= i < files.len() ==> (#[trigger] files[i]).path@ == found[i] && files[i].contents@
            == read(found[i])
}

/// Whether one file of a project was edited, and no other.
pub open spec fn is_edited(
    before: spec_fn(Seq<char>) -> Seq<u8>,
    after: spec_fn(Seq<char>) -> Seq<u8>,
    path: Seq<char>,
) -> bool {
    &&& before(path) != after(path)
    &&& forall|other: Seq<char>| other != path ==> #[trigger] before(other) == after(other)
}

/// Whether every listing of a disk is one of a directory.
pub open spec fn is_disk(disk: spec_fn(Seq<char>) -> Seq<(Seq<char>, EntryKind)>) -> bool {
    forall|dir: Seq<char>| walk_laws::is_proper(#[trigger] disk(dir))
}

proof fn lemma_walked_apart(
    policy: WalkPolicy,
    disk: spec_fn(Seq<char>) -> Seq<(Seq<char>, EntryKind)>,
    listings: nat,
)
    requires
        is_disk(disk),
    ensures
        walk_laws::stands_apart(source_laws::walked(policy, disk, listings)),
    decreases listings,
{
    if listings == 0 {
        walk_laws::walk_starts_apart(policy);
    } else {
        lemma_walked_apart(policy, disk, (listings - 1) as nat);
        let w = source_laws::walked(policy, disk, (listings - 1) as nat);
        assert(walk_laws::is_proper(disk(w.pending.last())));
        walk_laws::walk_stays_apart(w, disk(w.pending.last()));
    }
}

/// The files before and after an edit differ in one place.
proof fn lemma_edit(
    files: Seq<SourceFile>,
    edited: Seq<SourceFile>,
    found: Seq<Seq<char>>,
    before: spec_fn(Seq<char>) -> Seq<u8>,
    after: spec_fn(Seq<char>) -> Seq<u8>,
    path: Seq<char>,
) -> (i: int)
    requires
        found.no_duplicates(),
        found.contains(path),
        are_read(files, found, before),
        are_read(edited, found, after),
        is_edited(before, after, path),
    ensures
        0 <= i < files.len(),
        identity_laws::paths_differ(fingerprint::files_view(files)),
        after(path) != fingerprint::files_view(files)[i].1,
        fingerprint::files_view(edited) == fingerprint::files_view(files).update(
            i,
            (fingerprint::files_view(files)[i].0, after(path)),
        ),
{
    let all = fingerprint::files_view(files);
    let others = fingerprint::files_view(edited);
    let i = choose|i: int| 0 <= i < found.len() && found[i] == path;
    assert forall|k: int| 0 <= k < all.len() implies all[k] == (found[k], before(found[k]))
        && others[k] == (found[k], after(found[k])) by {
        assert(files[k].path@ == found[k]);
        assert(edited[k].path@ == found[k]);
    }
    assert forall|j: int, k: int| 0 <= j < k < all.len() implies (#[trigger] all[j]).0 != (
    #[trigger] all[k]).0 by {
        assert(found[j] != found[k]);
    }
    assert(others =~= all.update(i, (all[i].0, after(path)))) by {
        assert forall|k: int| 0 <= k < all.len() && k != i implies others[k] == all[k] by {
            assert(found[k] != found[i]);
            assert(before(found[k]) == after(found[k]));
        }
    }
    i
}

/// An edit of a Python source, a WIT file or a TOML file, wherever it stands in the
/// project, gives the build another fingerprint.
pub proof fn python_edits_change_the_fingerprint(
    b: PythonBuilder,
    request: BuildRequest,
    toolchain: ToolchainInfo,
    disk: spec_fn(Seq<char>) -> Seq<(Seq<char>, EntryKind)>,
    listings: nat,
    dirs: Seq<Seq<char>>,
    name: Seq<char>,
    before: spec_fn(Seq<char>) -> Seq<u8>,
    after: spec_fn(Seq<char>) -> Seq<u8>,
    files: Vec<SourceFile>,
    edited: Vec<SourceFile>,
    first: String,
    second: String,
)
    requires
        is_disk(disk),
        source_laws::walked(WalkPolicy::Python, disk, listings).pending.len() == 0,
        source_laws::leads_to(disk, dirs, name),
        source_laws::avoids(dirs, "__pycache__"@, "venv"@),
        source_laws::is_python_input(name),
        is_edited(before, after, paths::join_path(source_laws::path_through(dirs), name)),
        are_read(
            files@,
            source_laws::walked(WalkPolicy::Python, disk, listings).found,
            before,
        ),
        are_read(
            edited@,
            source_laws::walked(WalkPolicy::Python, disk, listings).found,
            after,
        ),
        call_ensures(PythonBuilder::fingerprint, (&b, &request, &toolchain, files), first),
        call_ensures(PythonBuilder::fingerprint, (&b, &request, &toolchain, edited), second),
    ensures
        are_of_different_bytes(first@, second@),
{
    let path = paths::join_path(source_laws::path_through(dirs), name);
    let found = source_laws::walked(WalkPolicy::Python, disk, listings).found;
    source_laws::python_walks_find_the_sources(disk, listings, path);
    lemma_walked_apart(WalkPolicy::Python, disk, listings);
    let all = fingerprint::files_view(files@);
    let settings = python_builder::python_settings(request@, toolchain@.version);
    let i = lemma_edit(files@, edited@, found, before, after, path);
    identity_laws::sources_take_part_in_the_identity(settings, all, i, after(path));
    let x = identity_laws::build_bytes(settings, all);
    let y = identity_laws::build_bytes(settings, all.update(i, (all[i].0, after(path))));
    assert(first@ == digest::hex(digest::sha256_bytes(x)));
    assert(second@ == digest::hex(digest::sha256_bytes(y)));
}

/// An edit of a main file, a package file or a WIT file, wherever it stands in the
/// project, gives the build another fingerprint.
pub proof fn js_edits_change_the_fingerprint(
    b: JsBuilder,
    request: BuildRequest,
    toolchain: ToolchainInfo,
    disk: spec_fn(Seq<char>) -> Seq<(Seq<char>, EntryKind)>,
    listings: nat,
    dirs: Seq<Seq<char>>,
    name: Seq<char>,
    before: spec_fn(Seq<char>) -> Seq<u8>,
    after: spec_fn(Seq<char>) -> Seq<u8>,
    files: Vec<SourceFile>,
    edited: Vec<SourceFile>,
    first: String,
    second: String,
)
    requires
        is_disk(disk),
        source_laws::walked(WalkPolicy::JavaScript, disk, listings).pending.len() == 0,
        source_laws::leads_to(disk, dirs, name),
        source_laws::avoids(dirs, "node_modules"@, "target"@),
        source_laws::is_js_input(name),
        is_edited(before, after, paths::join_path(source_laws::path_through(dirs), name)),
        are_read(
            files@,
            source_laws::walked(WalkPolicy::JavaScript, disk, listings).found,
            before,
        ),
        are_read(
            edited@,
            source_laws::walked(WalkPolicy::JavaScript, disk, listings).found,
            after,
        ),
        call_ensures(JsBuilder::fingerprint, (&b, &request, &toolchain, files), first),
        call_ensures(JsBuilder::fingerprint, (&b, &request, &toolchain, edited), second),
    ensures
        are_of_different_bytes(first@, second@),
{
    let path = paths::join_path(source_laws::path_through(dirs), name);
    let found = source_laws::walked(WalkPolicy::JavaScript, disk, listings).found;
    source_laws::js_walks_find_the_sources(disk, listings, path);
    lemma_walked_apart(WalkPolicy::JavaScript, disk, listings);
    let all = fingerprint::files_view(files@);
    let settings = js_builder::js_settings(b.builds(), request@, toolchain@.version);
    let i = lemma_edit(files@, edited@, found, before, after, path);
    identity_laws::sources_take_part_in_the_identity(settings, all, i, after(path));
    let x = identity_laws::build_bytes(settings, all);
    let y = identity_laws::build_bytes(settings, all.update(i, (all[i].0, after(path))));
    assert(first@ == digest::hex(digest::sha256_bytes(x)));
    assert(second@ == digest::hex(digest::sha256_bytes(y)));
}

/// An edit of a Go source, a WIT file or a module file, wherever it stands in the
/// project, gives the build another fingerprint.
pub proof fn go_edits_change_the_fingerprint(
    b: GoBuilder,
    request: BuildRequest,
    toolchain: ToolchainInfo,
    disk: spec_fn(Seq<char>) -> Seq<(Seq<char>, EntryKind)>,
    listings: nat,
    dirs: Seq<Seq<char>>,
    name: Seq<char>,
    before: spec_fn(Seq<char>) -> Seq<u8>,
    after: spec_fn(Seq<char>) -> Seq<u8>,
    files: Vec<SourceFile>,
    edited: Vec<SourceFile>,
    first: String,
    second: String,
)
    requires
        is_disk(disk),
        source_laws::walked(WalkPolicy::Go, disk, listings).pending.len() == 0,
        source_laws::leads_to(disk, dirs, name),
        source_laws::avoids(dirs, "target"@, "vendor"@),
        forall|i: int| 0 <= i < dirs.len() ==> !"wasi_"@.is_prefix_of(#[trigger] dirs[i]),
        source_laws::is_go_input(name),
        is_edited(before, after, paths::join_path(source_laws::path_through(dirs), name)),
        are_read(
            files@,
            source_laws::walked(WalkPolicy::Go, disk, listings).found,
            before,
        ),
        are_read(
            edited@,
            source_laws::walked(WalkPolicy::Go, disk, listings).found,
            after,
        ),
        call_ensures(GoBuilder::fingerprint, (&b, &request, &toolchain, files), first),
        call_ensures(GoBuilder::fingerprint, (&b, &request, &toolchain, edited), second),
    ensures
        are_of_different_bytes(first@, second@),
{
    let path = paths::join_path(source_laws::path_through(dirs), name);
    let found = source_laws::walked(WalkPolicy::Go, disk, listings).found;
    source_laws::go_walks_find_the_sources(disk, listings, path);
    lemma_walked_apart(WalkPolicy::Go, disk, listings);
    let all = fingerprint::files_view(files@);
    let settings = go_builder::go_settings(request@, toolchain@.version);
    let i = lemma_edit(files@, edited@, found, before, after, path);
    identity_laws::go_sources_take_part_in_the_identity(settings, all, i, after(path));
    let x = identity_laws::portable_bytes(settings, fingerprint::sorted_files(all));
    let y = identity_laws::portable_bytes(
        settings,
        fingerprint::sorted_files(all.update(i, (all[i].0, after(path)))),
    );
    assert(first@ == digest::hex(digest::sha256_bytes(x)));
    assert(second@ == digest::hex(digest::sha256_bytes(y)));
}

/// An edit of one of the files of a C or C++ build gives the build another fingerprint.
pub proof fn native_edits_change_the_fingerprint(
    b: NativeBuilder,
    request: BuildRequest,
    toolchain: ToolchainInfo,
    found: Seq<Seq<char>>,
    path: Seq<char>,
    before: spec_fn(Seq<char>) -> Seq<u8>,
    after: spec_fn(Seq<char>) -> Seq<u8>,
    files: Vec<SourceFile>,
    edited: Vec<SourceFile>,
    first: String,
    second: String,
)
    requires
        found.contains(path),
        forall|i: int, j: int|
            0 <= i < j < found.len() ==> !paths::same_path(#[trigger] found[i], #[trigger] found[j]),
        is_edited(before, after, path),
        are_read(files@, found, before),
        are_read(edited@, found, after),
        call_ensures(NativeBuilder::fingerprint, (&b, &request, &toolchain, files), first),
        call_ensures(NativeBuilder::fingerprint, (&b, &request, &toolchain, edited), second),
    ensures
        are_of_different_bytes(first@, second@),
{
    let all = fingerprint::files_view(files@);
    let settings = native_builder::native_settings(b.builds(), request@, toolchain@.version);
    assert forall|i: int, j: int|
        0 <= i < found.len() && 0 <= j < found.len() && i != j implies found[i] != found[j] by {
        if found[i] == found[j] {
            if i < j {
                assert(!paths::same_path(found[i], found[j]));
            } else {
                assert(!paths::same_path(found[j], found[i]));
            }
        }
    }
    let i = lemma_edit(files@, edited@, found, before, after, path);
    let key = |f: (Seq<char>, Seq<u8>)| paths::path_key(f.0);
    assert forall|j: int, k: int| 0 <= j < k < all.len() implies key(#[trigger] all[j]) != key(
        #[trigger] all[k],
    ) by {
        assert(files@[j].path@ == found[j] && files@[k].path@ == found[k]);
        assert(!paths::same_path(found[j], found[k]));
        if key(all[j]) == key(all[k]) {
            paths::path_keys_tell_paths_apart(found[j], found[k]);
        }
    }
    identity_laws::native_sources_take_part_in_the_identity(settings, all, i, after(path));
    let x = identity_laws::portable_bytes(settings, native_builder::distinct_files(all));
    let y = identity_laws::portable_bytes(
        settings,
        native_builder::distinct_files(all.update(i, (all[i].0, after(path)))),
    );
    assert(first@ == digest::hex(digest::sha256_bytes(x)));
    assert(second@ == digest::hex(digest::sha256_bytes(y)));
}

/// Where one setting changes, so do the bytes of the settings and whatever follows.
proof fn lemma_setting(settings: Seq<Seq<char>>, other: Seq<Seq<char>>, i: int, rest: Seq<u8>)
    requires
        0 <= i < settings.len(),
        other == settings.update(i, other[i]),
        other[i] != settings[i],
    ensures
        are_of_different_bytes(
            digest::sha256_text(fingerprint::fields_bytes(settings) + rest),
            digest::sha256_text(fingerprint::fields_bytes(other) + rest),
        ),
{
    identity_laws::changed_settings_change_the_bytes(settings, i, other[i]);
    let none = Seq::<u8>::empty();
    let a = fingerprint::fields_bytes(settings);
    let b = fingerprint::fields_bytes(other);
    if a + rest == b + rest {
        assert(none + a + rest =~= a + rest);
        assert(none + b + rest =~= b + rest);
        identity_laws::lemma_middle(none, a, b, rest);
    }
    let x = a + rest;
    let y = b + rest;
    assert(digest::sha256_text(x) == digest::hex(digest::sha256_bytes(x)));
    assert(digest::sha256_text(y) == digest::hex(digest::sha256_bytes(y)));
}

proof fn lemma_names()
    ensures
        artifact::profile_text(BuildProfile::Debug) != artifact::profile_text(
            BuildProfile::Release,
        ),
        artifact::world_text(ComponentWorld::WasiCliCommand) != artifact::world_text(
            ComponentWorld::WasiHttpProxy,
        ),
{
    reveal_strlit("debug");
    reveal_strlit("release");
    reveal_strlit("wasi:cli/command");
    reveal_strlit("wasi:http/proxy");
    assert("debug"@.len() == 5 && "release"@.len() == 7);
    assert(artifact::WASI_PREVIEW2_ENTRYPOINT@.len() == 16);
    assert(artifact::WASI_HTTP_PROXY_WORLD@.len() == 15);
}

/// Whether two requests ask for builds that differ in one thing: the ABI, the profile
/// or the version of the toolchain.
pub open spec fn differ_in_one(
    request: BuildRequest,
    toolchain: ToolchainInfo,
    other: BuildRequest,
    other_toolchain: ToolchainInfo,
) -> bool {
    let abi = request@.abi != other@.abi;
    let profile = request.profile != other.profile;
    let version = toolchain@.version != other_toolchain@.version;
    (abi && !profile && !version) || (!abi && profile && !version) || (!abi && !profile && version)
}

/// The place of what differs among the settings.
spec fn place_of(
    request: BuildRequest,
    toolchain: ToolchainInfo,
    other: BuildRequest,
    other_toolchain: ToolchainInfo,
) -> int {
    if request@.abi != other@.abi {
        2
    } else if request.profile != other.profile {
        3
    } else {
        4
    }
}

/// A Python build for another ABI or profile, or with another toolchain, has another
/// fingerprint.
pub proof fn python_requests_change_the_fingerprint(
    b: PythonBuilder,
    request: BuildRequest,
    toolchain: ToolchainInfo,
    other: BuildRequest,
    other_toolchain: ToolchainInfo,
    files: Vec<SourceFile>,
    first: String,
    second: String,
)
    requires
        differ_in_one(request, toolchain, other, other_toolchain),
        call_ensures(PythonBuilder::fingerprint, (&b, &request, &toolchain, files), first),
        call_ensures(PythonBuilder::fingerprint, (&b, &other, &other_toolchain, files), second),
    ensures
        are_of_different_bytes(first@, second@),
{
    lemma_names();
    let a = python_builder::python_settings(request@, toolchain@.version);
    let c = python_builder::python_settings(other@, other_toolchain@.version);
    let i = place_of(request, toolchain, other, other_toolchain);
    assert(c =~= a.update(i, c[i]));
    let all = fingerprint::files_view(files@);
    lemma_setting(a, c, i, fingerprint::files_bytes(fingerprint::sorted_files(all)));
}

/// A JavaScript or TypeScript build for another ABI or profile, or with another toolchain, has another
/// fingerprint.
pub proof fn js_requests_change_the_fingerprint(
    b: JsBuilder,
    request: BuildRequest,
    toolchain: ToolchainInfo,
    other: BuildRequest,
    other_toolchain: ToolchainInfo,
    files: Vec<SourceFile>,
    first: String,
    second: String,
)
    requires
        differ_in_one(request, toolchain, other, other_toolchain),
        call_ensures(JsBuilder::fingerprint, (&b, &request, &toolchain, files), first),
        call_ensures(JsBuilder::fingerprint, (&b, &other, &other_toolchain, files), second),
    ensures
        are_of_different_bytes(first@, second@),
{
    lemma_names();
    let a = js_builder::js_settings(b.builds(), request@, toolchain@.version);
    let c = js_builder::js_settings(b.builds(), other@, other_toolchain@.version);
    let i = place_of(request, toolchain, other, other_toolchain);
    assert(c =~= a.update(i, c[i]));
    let all = fingerprint::files_view(files@);
    lemma_setting(a, c, i, fingerprint::files_bytes(fingerprint::sorted_files(all)));
}

/// A Go build for another ABI or profile, or with another toolchain, has another
/// fingerprint.
pub proof fn go_requests_change_the_fingerprint(
    b: GoBuilder,
    request: BuildRequest,
    toolchain: ToolchainInfo,
    other: BuildRequest,
    other_toolchain: ToolchainInfo,
    files: Vec<SourceFile>,
    first: String,
    second: String,
)
    requires
        differ_in_one(request, toolchain, other, other_toolchain),
        crate::builder::world_or_http(request.world) == crate::builder::world_or_http(
            other.world,
        ),
        call_ensures(GoBuilder::fingerprint, (&b, &request, &toolchain, files), first),
        call_ensures(GoBuilder::fingerprint, (&b, &other, &other_toolchain, files), second),
    ensures
        are_of_different_bytes(first@, second@),
{
    lemma_names();
    let a = go_builder::go_settings(request@, toolchain@.version);
    let c = go_builder::go_settings(other@, other_toolchain@.version);
    let i = place_of(request, toolchain, other, other_toolchain);
    assert(c =~= a.update(i, c[i]));
    let all = fingerprint::files_view(files@);
    lemma_setting(
        a,
        c,
        i,
        fingerprint::files_bytes(fingerprint::with_slashes(fingerprint::sorted_files(all))),
    );
}

/// A C or C++ build for another ABI or profile, or with another toolchain, has another
/// fingerprint.
pub proof fn native_requests_change_the_fingerprint(
    b: NativeBuilder,
    request: BuildRequest,
    toolchain: ToolchainInfo,
    other: BuildRequest,
    other_toolchain: ToolchainInfo,
    files: Vec<SourceFile>,
    first: String,
    second: String,
)
    requires
        differ_in_one(request, toolchain, other, other_toolchain),
        call_ensures(NativeBuilder::fingerprint, (&b, &request, &toolchain, files), first),
        call_ensures(NativeBuilder::fingerprint, (&b, &other, &other_toolchain, files), second),
    ensures
        are_of_different_bytes(first@, second@),
{
    lemma_names();
    let a = native_builder::native_settings(b.builds(), request@, toolchain@.version);
    let c = native_builder::native_settings(b.builds(), other@, other_toolchain@.version);
    let i = place_of(request, toolchain, other, other_toolchain);
    assert(c =~= a.update(i, c[i]));
    let all = fingerprint::files_view(files@);
    lemma_setting(
        a,
        c,
        i,
        fingerprint::files_bytes(fingerprint::with_slashes(native_builder::distinct_files(all))),
    );
}

/// A Go build for another world has another fingerprint.
pub proof fn go_worlds_change_the_fingerprint(
    b: GoBuilder,
    request: BuildRequest,
    other: BuildRequest,
    toolchain: ToolchainInfo,
    files: Vec<SourceFile>,
    first: String,
    second: String,
)
    requires
        request@.abi == other@.abi,
        request.profile == other.profile,
        request.world == Some(ComponentWorld::WasiCliCommand),
        other.world != Some(ComponentWorld::WasiCliCommand),
        call_ensures(GoBuilder::fingerprint, (&b, &request, &toolchain, files), first),
        call_ensures(GoBuilder::fingerprint, (&b, &other, &toolchain, files), second),
    ensures
        are_of_different_bytes(first@, second@),
{
    lemma_names();
    let a = go_builder::go_settings(request@, toolchain@.version);
    let c = go_builder::go_settings(other@, toolchain@.version);
    assert(c =~= a.update(5, c[5]));
    let all = fingerprint::files_view(files@);
    lemma_setting(
        a,
        c,
        5,
        fingerprint::files_bytes(fingerprint::with_slashes(fingerprint::sorted_files(all))),
    );
}

/// Builds of one project in two languages have different fingerprints.
pub proof fn languages_change_the_fingerprint(
    a: JsBuilder,
    b: JsBuilder,
    c: NativeBuilder,
    d: NativeBuilder,
    request: BuildRequest,
    toolchain: ToolchainInfo,
    files: Vec<SourceFile>,
    first: String,
    second: String,
    third: String,
    fourth: String,
)
    requires
        a.builds() != b.builds(),
        c.builds() != d.builds(),
        call_ensures(JsBuilder::fingerprint, (&a, &request, &toolchain, files), first),
        call_ensures(JsBuilder::fingerprint, (&b, &request, &toolchain, files), second),
        call_ensures(NativeBuilder::fingerprint, (&c, &request, &toolchain, files), third),
        call_ensures(NativeBuilder::fingerprint, (&d, &request, &toolchain, files), fourth),
    ensures
        are_of_different_bytes(first@, second@),
        are_of_different_bytes(third@, fourth@),
{
    let all = fingerprint::files_view(files@);
    if language::language_text(a.builds()) == language::language_text(b.builds()) {
        language::language_names_differ(a.builds(), b.builds());
    }
    if language::language_text(c.builds()) == language::language_text(d.builds()) {
        language::language_names_differ(c.builds(), d.builds());
    }
    let x = js_builder::js_settings(a.builds(), request@, toolchain@.version);
    let y = js_builder::js_settings(b.builds(), request@, toolchain@.version);
    assert(y =~= x.update(1, y[1]));
    lemma_setting(x, y, 1, fingerprint::files_bytes(fingerprint::sorted_files(all)));
    let x = native_builder::native_settings(c.builds(), request@, toolchain@.version);
    let y = native_builder::native_settings(d.builds(), request@, toolchain@.version);
    assert(y =~= x.update(1, y[1]));
    lemma_setting(
        x,
        y,
        1,
        fingerprint::files_bytes(
            fingerprint::with_slashes(native_builder::distinct_files(all)),
        ),
    );
}

} // verus!
