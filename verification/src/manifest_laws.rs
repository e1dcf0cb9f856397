//! What a manifest says, how it is written, and what it takes for it to be valid.

use crate::artifact::{
    ArtifactFormat, ArtifactManifest, BuildProfile, BuildSpecView, ComponentWorld,
    ExecutionDefaults, ManifestView, RuntimeSpecView,
};
use crate::component_laws;
use crate::digest;
use crate::error::PitError;
use crate::json::JsonView;
use crate::manifest_json;
use crate::paths;
use crate::text;
use crate::validation;
use crate::validation::StoredArtifact;
use vstd::prelude::*;

verus! {

/// Whether a text is a SHA-256 digest: sixty-four hexadecimal digits.
pub open spec fn is_sha256(s: Seq<char>) -> bool {
    s.len() == 64 && forall|i: int|
        0 <= i < s.len() ==> ('0' <= #[trigger] s[i] <= '9' || 'a' <= s[i] <= 'f' || 'A' <= s[i]
            <= 'F')
}

/// Whether the parts of a runtime go together: a module with its start function on the
/// first preview, a component with the world that it is for on the second.
pub open spec fn is_runtime(r: RuntimeSpecView) -> bool {
    if r.abi == "wasi-preview1"@ {
        r.format == ArtifactFormat::CoreModule && r.world is None && r.entrypoint == "_start"@
    } else if r.abi == "wasi-preview2"@ {
        r.format == ArtifactFormat::Component && match r.world {
            Some(ComponentWorld::WasiHttpProxy) => r.entrypoint == "wasi:http/proxy"@,
            _ => r.entrypoint == "wasi:cli/command"@,
        }
    } else {
        r.world is None && !text::is_blank(r.entrypoint)
    }
}

/// A manifest is valid exactly if it is of the first schema, names an artifact inside the
/// directory of builds with its digest and a size, says how it was built, fits a runtime and
/// asks for known capabilities.
pub proof fn manifests_are_valid(manifest: ArtifactManifest, r: Result<(), PitError>)
    requires
        call_ensures(ArtifactManifest::validate, (&manifest,), r),
    ensures
        ({
            let m = manifest@;
            r is Ok <==> {
                &&& m.schema_version == 1
                &&& !text::is_blank(m.artifact.name)
                &&& m.artifact.path.len() > 0 && m.artifact.path[0] != '/' && !paths::segments(
                    m.artifact.path,
                ).contains(seq!['.', '.'])
                &&& is_sha256(m.artifact.sha256)
                &&& m.artifact.size_bytes > 0
                &&& !text::is_blank(m.build.language)
                &&& !text::is_blank(m.build.target)
                &&& is_sha256(m.build.fingerprint)
                &&& is_runtime(m.runtime)
                &&& forall|i: int|
                    0 <= i < m.capabilities.len() ==> (#[trigger] m.capabilities[i] == "stdio"@
                        || m.capabilities[i] == "args"@ || m.capabilities[i] == "env"@)
            }
        }),
{
    let m = manifest@;
    validation::lemma_abi_names();
    reveal_strlit("_start");
    reveal_strlit("wasi:cli/command");
    reveal_strlit("wasi:http/proxy");
    assert("_start"@[0] == '_');
    assert("wasi:cli/command"@[0] == 'w');
    assert("wasi:http/proxy"@[0] == 'w');
    assert(!text::is_white('_') && !text::is_white('w'));
    assert(!text::is_blank("_start"@));
    assert(!text::is_blank("wasi:cli/command"@));
    assert(!text::is_blank("wasi:http/proxy"@));
    assert(digest::is_digest_text(m.artifact.sha256) == is_sha256(m.artifact.sha256)) by {
        lemma_digest(m.artifact.sha256);
    }
    assert(digest::is_digest_text(m.build.fingerprint) == is_sha256(m.build.fingerprint)) by {
        lemma_digest(m.build.fingerprint);
    }
    lemma_runtime(m.runtime);
    lemma_capabilities(m.capabilities);
}

proof fn lemma_digest(s: Seq<char>)
    ensures
        digest::is_digest_text(s) == is_sha256(s),
{
    if digest::is_digest_text(s) {
        assert forall|i: int| 0 <= i < s.len() implies ('0' <= #[trigger] s[i] <= '9' || 'a' <= s[i]
            <= 'f' || 'A' <= s[i] <= 'F') by {
            assert(digest::is_hex_char(s[i]));
        }
    }
    if is_sha256(s) {
        assert forall|i: int| 0 <= i < s.len() implies digest::is_hex_char(#[trigger] s[i]) by {}
    }
}

proof fn lemma_runtime(r: RuntimeSpecView)
    ensures
        (!text::is_blank(r.entrypoint) && validation::format_fits(r) && validation::world_fits(r))
            == is_runtime(r),
{
    validation::lemma_abi_names();
    reveal_strlit("_start");
    reveal_strlit("wasi:cli/command");
    reveal_strlit("wasi:http/proxy");
    assert("_start"@[0] == '_');
    assert("wasi:cli/command"@[0] == 'w');
    assert("wasi:http/proxy"@[0] == 'w');
    assert(!text::is_blank("_start"@));
    assert(!text::is_blank("wasi:cli/command"@));
    assert(!text::is_blank("wasi:http/proxy"@));
}

proof fn lemma_capabilities(c: Seq<Seq<char>>)
    ensures
        (forall|i: int|
            0 <= i < c.len() ==> crate::artifact::capability_supported(#[trigger] c[i])) == (forall|
            i: int,
        |
            0 <= i < c.len() ==> (#[trigger] c[i] == "stdio"@ || c[i] == "args"@ || c[i]
                == "env"@)),
{
    if forall|i: int| 0 <= i < c.len() ==> crate::artifact::capability_supported(#[trigger] c[i]) {
        assert forall|i: int| 0 <= i < c.len() implies (#[trigger] c[i] == "stdio"@ || c[i]
            == "args"@ || c[i] == "env"@) by {
            assert(crate::artifact::capability_supported(c[i]));
        }
    }
    if forall|i: int|
        0 <= i < c.len() ==> (#[trigger] c[i] == "stdio"@ || c[i] == "args"@ || c[i] == "env"@) {
        assert forall|i: int| 0 <= i < c.len() implies crate::artifact::capability_supported(
            #[trigger] c[i],
        ) by {
            assert(c[i] == "stdio"@ || c[i] == "args"@ || c[i] == "env"@);
        }
    }
}

/// An artifact can be run exactly if its ABI is known and its entrypoint is the one of its
/// ABI and world.
pub proof fn known_runtimes_can_run(manifest: ArtifactManifest, r: Result<(), PitError>)
    requires
        call_ensures(ArtifactManifest::validate_runtime_compatibility, (&manifest,), r),
    ensures
        ({
            let t = manifest@.runtime;
            r is Ok <==> (t.abi == "wasi-preview1"@ && t.entrypoint == "_start"@) || (t.abi
                == "wasi-preview2"@ && t.world == Some(ComponentWorld::WasiHttpProxy)
                && t.entrypoint == "wasi:http/proxy"@) || (t.abi == "wasi-preview2"@ && t.world
                != Some(ComponentWorld::WasiHttpProxy) && t.entrypoint == "wasi:cli/command"@)
        }),
{
    validation::lemma_abi_names();
}

/// An artifact is intact exactly if its manifest is valid and what is stored, below the
/// project's directory, has the size, the digest and the format that the manifest gives.
pub proof fn intact_artifacts_are_as_described(
    manifest: ArtifactManifest,
    project_dir: &str,
    stored: StoredArtifact,
    r: Result<String, PitError>,
)
    requires
        call_ensures(ArtifactManifest::verify_artifact, (&manifest, project_dir, &stored), r),
    ensures
        ({
            let m = manifest@;
            let s = stored@;
            r is Ok <==> {
                &&& validation::is_valid(m)
                &&& s.pit_root is Some
                &&& s.path is Some
                &&& paths::lies_below(s.path->0, s.pit_root->0)
                &&& s.contents is Some
                &&& s.contents->0.len() == m.artifact.size_bytes as nat
                &&& digest::hex(digest::sha256_bytes(s.contents->0)) == m.artifact.sha256
                &&& m.runtime.format == ArtifactFormat::Component
                    ==> component_laws::begins_component(s.contents->0)
                &&& m.runtime.format == ArtifactFormat::CoreModule
                    ==> component_laws::begins_module(s.contents->0)
            }
        }),
        r matches Ok(path) ==> Some(path@) == stored@.path,
{
    validation::valid_iff_no_violation(manifest@);
    if let (Some(path), Some(bytes)) = (stored@.path, stored@.contents) {
        component_laws::formats_are_told_by_the_header(path, bytes);
    }
}

proof fn lemma_contains(
    a: Seq<(Seq<char>, JsonView)>,
    b: Seq<(Seq<char>, JsonView)>,
    x: (Seq<char>, JsonView),
)
    ensures
        a.contains(x) || b.contains(x) ==> (a + b).contains(x),
{
    if a.contains(x) {
        let i = choose|i: int| 0 <= i < a.len() && a[i] == x;
        assert((a + b)[i] == x);
    } else if b.contains(x) {
        let i = choose|i: int| 0 <= i < b.len() && b[i] == x;
        assert((a + b)[a.len() + i] == x);
    }
}

proof fn lemma_member(key: Seq<char>, value: JsonView)
    ensures
        manifest_json::member(key, value).contains((key, value)),
{
    assert(manifest_json::member(key, value)[0] == (key, value));
}

proof fn lemma_kept(
    a: Seq<(Seq<char>, JsonView)>,
    b: Seq<(Seq<char>, JsonView)>,
)
    ensures
        forall|x: (Seq<char>, JsonView)| #[trigger] a.contains(x) ==> (a + b).contains(x),
        forall|x: (Seq<char>, JsonView)| #[trigger] b.contains(x) ==> (a + b).contains(x),
{
    assert forall|x: (Seq<char>, JsonView)| #[trigger] a.contains(x) implies (a + b).contains(
        x,
    ) by {
        lemma_contains(a, b, x);
    }
    assert forall|x: (Seq<char>, JsonView)| #[trigger] b.contains(x) implies (a + b).contains(
        x,
    ) by {
        lemma_contains(a, b, x);
    }
}

/// Whether a document is an object with the member.
pub open spec fn has_member(d: JsonView, key: Seq<char>, value: JsonView) -> bool {
    d matches JsonView::Object(members) && members.contains((key, value))
}

/// The build is written under its keys, and what is not known is left out.
pub proof fn builds_are_written_under_their_keys(b: BuildSpecView)
    ensures
        ({
            let d = JsonView::Object(manifest_json::build_members(b));
            &&& has_member(d, "language"@, JsonView::Text(b.language))
            &&& has_member(d, "target"@, JsonView::Text(b.target))
            &&& b.profile == BuildProfile::Debug ==> has_member(
                d,
                "profile"@,
                JsonView::Text("debug"@),
            )
            &&& b.profile == BuildProfile::Release ==> has_member(
                d,
                "profile"@,
                JsonView::Text("release"@),
            )
            &&& has_member(d, "fingerprint"@, JsonView::Text(b.fingerprint))
            &&& b.toolchain matches Some(t) ==> has_member(d, "toolchain"@, JsonView::Text(t))
            &&& b.toolchain_version matches Some(t) ==> has_member(
                d,
                "toolchain_version"@,
                JsonView::Text(t),
            )
            &&& b.application_interface matches Some(t) ==> has_member(
                d,
                "application_interface"@,
                JsonView::Text(t),
            )
            &&& b.adapter matches Some(t) ==> has_member(d, "adapter"@, JsonView::Text(t))
            &&& b.adapter_digest matches Some(t) ==> has_member(
                d,
                "adapter_digest"@,
                JsonView::Text(t),
            )
            &&& b.toolchain is None && b.toolchain_version is None && b.application_interface
                is None && b.adapter is None && b.adapter_digest is None
                ==> manifest_json::build_members(b).len() == 4
        }),
{
    let profile = JsonView::Text(crate::artifact::profile_text(b.profile));
    let p0 = manifest_json::member("language"@, JsonView::Text(b.language));
    let p1 = manifest_json::member("target"@, JsonView::Text(b.target));
    let p2 = manifest_json::member("profile"@, profile);
    let p3 = manifest_json::member("fingerprint"@, JsonView::Text(b.fingerprint));
    let p4 = manifest_json::optional_member("toolchain"@, b.toolchain);
    let p5 = manifest_json::optional_member("toolchain_version"@, b.toolchain_version);
    let p6 = manifest_json::optional_member("application_interface"@, b.application_interface);
    let p7 = manifest_json::optional_member("adapter"@, b.adapter);
    let p8 = manifest_json::optional_member("adapter_digest"@, b.adapter_digest);
    lemma_member("language"@, JsonView::Text(b.language));
    lemma_member("target"@, JsonView::Text(b.target));
    lemma_member("profile"@, profile);
    lemma_member("fingerprint"@, JsonView::Text(b.fingerprint));
    if let Some(t) = b.toolchain {
        lemma_member("toolchain"@, JsonView::Text(t));
    }
    if let Some(t) = b.toolchain_version {
        lemma_member("toolchain_version"@, JsonView::Text(t));
    }
    if let Some(t) = b.application_interface {
        lemma_member("application_interface"@, JsonView::Text(t));
    }
    if let Some(t) = b.adapter {
        lemma_member("adapter"@, JsonView::Text(t));
    }
    if let Some(t) = b.adapter_digest {
        lemma_member("adapter_digest"@, JsonView::Text(t));
    }
    lemma_kept(p0, p1);
    lemma_kept(p0 + p1, p2);
    lemma_kept(p0 + p1 + p2, p3);
    lemma_kept(p0 + p1 + p2 + p3, p4);
    lemma_kept(p0 + p1 + p2 + p3 + p4, p5);
    lemma_kept(p0 + p1 + p2 + p3 + p4 + p5, p6);
    lemma_kept(p0 + p1 + p2 + p3 + p4 + p5 + p6, p7);
    lemma_kept(p0 + p1 + p2 + p3 + p4 + p5 + p6 + p7, p8);
    assert(manifest_json::build_members(b) == p0 + p1 + p2 + p3 + p4 + p5 + p6 + p7 + p8);
}

/// The runtime and the execution defaults are written under their keys.
pub proof fn runtimes_are_written_under_their_keys(r: RuntimeSpecView, e: ExecutionDefaults)
    ensures
        ({
            let d = JsonView::Object(manifest_json::runtime_members(r));
            &&& has_member(d, "abi"@, JsonView::Text(r.abi))
            &&& has_member(d, "entrypoint"@, JsonView::Text(r.entrypoint))
            &&& r.format == ArtifactFormat::Component ==> has_member(
                d,
                "format"@,
                JsonView::Text("component"@),
            )
            &&& r.format == ArtifactFormat::CoreModule ==> has_member(
                d,
                "format"@,
                JsonView::Text("core-module"@),
            )
            &&& r.world is None ==> has_member(d, "world"@, JsonView::Null)
            &&& r.world == Some(ComponentWorld::WasiHttpProxy) ==> has_member(
                d,
                "world"@,
                JsonView::Text("wasi:http/proxy"@),
            )
            &&& r.world == Some(ComponentWorld::WasiCliCommand) ==> has_member(
                d,
                "world"@,
                JsonView::Text("wasi:cli/command"@),
            )
        }),
        ({
            let d = JsonView::Object(manifest_json::execution_members(e));
            &&& e.timeout_ms matches Some(n) ==> has_member(
                d,
                "timeout_ms"@,
                JsonView::Number(Some(n)),
            )
            &&& e.memory_bytes matches Some(n) ==> has_member(
                d,
                "memory_bytes"@,
                JsonView::Number(Some(n)),
            )
            &&& e.timeout_ms is None ==> has_member(d, "timeout_ms"@, JsonView::Null)
            &&& e.memory_bytes is None ==> has_member(d, "memory_bytes"@, JsonView::Null)
        }),
{
    let m = manifest_json::runtime_members(r);
    assert(m[0] == ("abi"@, JsonView::Text(r.abi)));
    assert(m[1] == ("entrypoint"@, JsonView::Text(r.entrypoint)));
    assert(m[2] == ("format"@, JsonView::Text(crate::artifact::format_text(r.format))));
    assert(m[3] == ("world"@, manifest_json::world_document(r.world)));
    let n = manifest_json::execution_members(e);
    assert(n[0] == ("timeout_ms"@, manifest_json::optional_number(e.timeout_ms)));
    assert(n[1] == ("memory_bytes"@, manifest_json::optional_number(e.memory_bytes)));
}

/// A manifest is written under its keys.
pub proof fn manifests_are_written_under_their_keys(m: ManifestView)
    ensures
        ({
            let d = manifest_json::encode_manifest(m);
            let a = JsonView::Object(manifest_json::artifact_members(m.artifact));
            &&& has_member(
                d,
                "schema_version"@,
                JsonView::Number(Some(m.schema_version as u64)),
            )
            &&& has_member(d, "artifact"@, a)
            &&& has_member(
                d,
                "build"@,
                JsonView::Object(manifest_json::build_members(m.build)),
            )
            &&& has_member(
                d,
                "runtime"@,
                JsonView::Object(manifest_json::runtime_members(m.runtime)),
            )
            &&& has_member(
                d,
                "execution"@,
                JsonView::Object(manifest_json::execution_members(m.execution)),
            )
            &&& has_member(
                d,
                "capabilities"@,
                JsonView::List(m.capabilities.map_values(|n: Seq<char>| JsonView::Text(n))),
            )
            &&& has_member(a, "name"@, JsonView::Text(m.artifact.name))
            &&& has_member(a, "path"@, JsonView::Text(m.artifact.path))
            &&& has_member(a, "sha256"@, JsonView::Text(m.artifact.sha256))
            &&& has_member(a, "size_bytes"@, JsonView::Number(Some(m.artifact.size_bytes)))
        }),
{
    let all = manifest_json::manifest_members(m);
    let a = manifest_json::artifact_members(m.artifact);
    let names = manifest_json::name_list(m.capabilities);
    assert(names =~= m.capabilities.map_values(|n: Seq<char>| JsonView::Text(n)));
    assert(all[0] == ("schema_version"@, JsonView::Number(Some(m.schema_version as u64))));
    assert(all[1] == ("artifact"@, JsonView::Object(a)));
    assert(all[2] == ("build"@, JsonView::Object(manifest_json::build_members(m.build))));
    assert(all[3] == ("runtime"@, JsonView::Object(manifest_json::runtime_members(m.runtime))));
    assert(all[4] == (
        "execution"@,
        JsonView::Object(manifest_json::execution_members(m.execution)),
    ));
    assert(all[5] == ("capabilities"@, JsonView::List(names)));
    assert(a[0] == ("name"@, JsonView::Text(m.artifact.name)));
    assert(a[1] == ("path"@, JsonView::Text(m.artifact.path)));
    assert(a[2] == ("sha256"@, JsonView::Text(m.artifact.sha256)));
    assert(a[3] == ("size_bytes"@, JsonView::Number(Some(m.artifact.size_bytes))));
}

/// A manifest is replaced in one go: it is written to a new file beside it, which is then
/// renamed.
pub proof fn manifests_are_replaced_in_one_go(
    manifest: ArtifactManifest,
    path: &str,
    process: u32,
    counter: u64,
    w: manifest_json::AtomicWrite,
)
    requires
        call_ensures(
            ArtifactManifest::write_atomic,
            (&manifest, path, process, counter),
            Ok::<manifest_json::AtomicWrite, PitError>(w),
        ),
    ensures
        w.target@ == path@,
        paths::parent(path@) matches Some(parent) ==> w.directory@ == parent,
        exists|name: Seq<char>|
            w.temporary@ == #[trigger] paths::join_path(w.directory@, name) && name.len() > 0
                && name[0] == '.' && ".tmp"@.is_suffix_of(name),
        w.contents@.len() > 0 && w.contents@.last() == '\n',
{
    let first = "."@ + (match paths::file_name(path@) {
        Some(name) => name,
        None => "manifest"@,
    }) + "."@ + text::decimal(process as nat) + "."@ + text::decimal(counter as nat);
    let name = manifest_json::temporary_name(path@, process, counter);
    reveal_strlit(".");
    assert(name =~= first + ".tmp"@);
    assert(name.subrange(first.len() as int, name.len() as int) =~= ".tmp"@);
    assert(first[0] == '.');
    assert(name[0] == '.');
}

} // verus!
