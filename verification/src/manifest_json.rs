//! Artifact manifests as JSON documents.

use crate::artifact;
use crate::artifact::{
    format_name, ArtifactFormat, ArtifactManifest, ArtifactSpec, ArtifactSpecView, BuildProfile,
    BuildSpec, BuildSpecView, Capability, ComponentWorld, Entrypoint, ExecutionDefaults,
    ManifestView, RuntimeAbi, RuntimeSpec, RuntimeSpecView,
};
use crate::error;
use crate::error::{naming_path, ErrorKind, ErrorView, PitError};
use crate::form_laws;
use crate::forms;
use crate::forms::{read_document, Form};
use crate::json;
use crate::json::{
    check_record, get_field, get_number, get_optional_number, get_optional_text, get_text,
    get_texts, list_value, names_variant, null_value, number_value, object_value, render_json, text_value,
    JsonView,
};
use crate::paths;
use crate::paths::{file_name_of, parent_of, path_join};
use crate::text;
use crate::text::to_decimal;
use crate::validation;
use crate::wasm;
use vstd::prelude::*;

verus! {

/// An object with one member.
pub open spec fn member(key: Seq<char>, value: JsonView) -> Seq<(Seq<char>, JsonView)> {
    seq![(key, value)]
}

/// An object with one member, or with none where there is no text.
pub open spec fn optional_member(key: Seq<char>, value: Option<Seq<char>>) -> Seq<
    (Seq<char>, JsonView),
> {
    match value {
        Some(t) => member(key, JsonView::Text(t)),
        None => Seq::empty(),
    }
}

/// A number, or null where there is none.
pub open spec fn optional_number(n: Option<u64>) -> JsonView {
    match n {
        Some(n) => JsonView::Number(Some(n)),
        None => JsonView::Null,
    }
}

/// The members of an artifact's description.
pub open spec fn artifact_members(a: ArtifactSpecView) -> Seq<(Seq<char>, JsonView)> {
    member("name"@, JsonView::Text(a.name)) + member("path"@, JsonView::Text(a.path)) + member(
        "sha256"@,
        JsonView::Text(a.sha256),
    ) + member("size_bytes"@, JsonView::Number(Some(a.size_bytes)))
}

/// The members of a build's description. What is not known is left out.
pub open spec fn build_members(b: BuildSpecView) -> Seq<(Seq<char>, JsonView)> {
    member("language"@, JsonView::Text(b.language)) + member("target"@, JsonView::Text(b.target))
        + member("profile"@, JsonView::Text(artifact::profile_text(b.profile))) + member(
        "fingerprint"@,
        JsonView::Text(b.fingerprint),
    ) + optional_member("toolchain"@, b.toolchain) + optional_member(
        "toolchain_version"@,
        b.toolchain_version,
    ) + optional_member("application_interface"@, b.application_interface) + optional_member(
        "adapter"@,
        b.adapter,
    ) + optional_member("adapter_digest"@, b.adapter_digest)
}

/// The document of a world, or null.
pub open spec fn world_document(world: Option<ComponentWorld>) -> JsonView {
    match world {
        Some(w) => JsonView::Text(artifact::world_text(w)),
        None => JsonView::Null,
    }
}

/// The members of a runtime's description.
pub open spec fn runtime_members(r: RuntimeSpecView) -> Seq<(Seq<char>, JsonView)> {
    member("abi"@, JsonView::Text(r.abi)) + member("entrypoint"@, JsonView::Text(r.entrypoint))
        + member("format"@, JsonView::Text(artifact::format_text(r.format))) + member(
        "world"@,
        world_document(r.world),
    )
}

/// The members of the execution defaults.
pub open spec fn execution_members(e: ExecutionDefaults) -> Seq<(Seq<char>, JsonView)> {
    member("timeout_ms"@, optional_number(e.timeout_ms)) + member(
        "memory_bytes"@,
        optional_number(e.memory_bytes),
    )
}

/// The names of capabilities as a list.
pub open spec fn name_list(names: Seq<Seq<char>>) -> Seq<JsonView> {
    names.map_values(|n: Seq<char>| JsonView::Text(n))
}

/// The members of a manifest.
pub open spec fn manifest_members(m: ManifestView) -> Seq<(Seq<char>, JsonView)> {
    member("schema_version"@, JsonView::Number(Some(m.schema_version as u64))) + member(
        "artifact"@,
        JsonView::Object(artifact_members(m.artifact)),
    ) + member("build"@, JsonView::Object(build_members(m.build))) + member(
        "runtime"@,
        JsonView::Object(runtime_members(m.runtime)),
    ) + member("execution"@, JsonView::Object(execution_members(m.execution))) + member(
        "capabilities"@,
        JsonView::List(name_list(m.capabilities)),
    )
}

/// The document of a manifest.
pub open spec fn encode_manifest(m: ManifestView) -> JsonView {
    JsonView::Object(manifest_members(m))
}

/// The artifact's description that a document holds.
pub open spec fn decode_artifact(d: JsonView) -> Option<ArtifactSpecView> {
    match (
        json::field_text(d, 0, "name"@),
        json::field_text(d, 1, "path"@),
        json::field_text(d, 2, "sha256"@),
        json::field_number(d, 3, "size_bytes"@),
    ) {
        (Some(name), Some(path), Some(sha256), Some(size_bytes)) => if json::is_record(d, 4) {
            Some(ArtifactSpecView { name, path, sha256, size_bytes })
        } else {
            None
        },
        _ => None,
    }
}

/// The profile that a document names.
pub open spec fn decode_profile(d: Option<JsonView>) -> Option<BuildProfile> {
    match d {
        Some(v) => if json::is_variant(v, "debug"@) {
            Some(BuildProfile::Debug)
        } else if json::is_variant(v, "release"@) {
            Some(BuildProfile::Release)
        } else {
            None
        },
        None => None,
    }
}

/// The build's description that a document holds.
pub open spec fn decode_build(d: JsonView) -> Option<BuildSpecView> {
    match (
        json::field_text(d, 0, "language"@),
        json::field_text(d, 1, "target"@),
        decode_profile(json::field(d, 2, "profile"@)),
        json::field_text(d, 3, "fingerprint"@),
        json::field_optional_text(d, 4, "toolchain"@),
        json::field_optional_text(d, 5, "toolchain_version"@),
        json::field_optional_text(d, 6, "application_interface"@),
        json::field_optional_text(d, 7, "adapter"@),
        json::field_optional_text(d, 8, "adapter_digest"@),
    ) {
        (
            Some(language),
            Some(target),
            Some(profile),
            Some(fingerprint),
            Some(toolchain),
            Some(toolchain_version),
            Some(application_interface),
            Some(adapter),
            Some(adapter_digest),
        ) => if json::is_record(d, 9) {
            Some(
                BuildSpecView {
                    language,
                    target,
                    profile,
                    fingerprint,
                    toolchain,
                    toolchain_version,
                    application_interface,
                    adapter,
                    adapter_digest,
                },
            )
        } else {
            None
        },
        _ => None,
    }
}

/// The format that a document names; a core module where it is left out.
pub open spec fn decode_format(d: Option<JsonView>) -> Option<ArtifactFormat> {
    match d {
        Some(v) => if json::is_variant(v, "core-module"@) {
            Some(ArtifactFormat::CoreModule)
        } else if json::is_variant(v, "component"@) {
            Some(ArtifactFormat::Component)
        } else {
            None
        },
        None => Some(ArtifactFormat::CoreModule),
    }
}

/// The world that a document names; none where it is null or left out.
pub open spec fn decode_world(d: Option<JsonView>) -> Option<Option<ComponentWorld>> {
    match d {
        None | Some(JsonView::Null) => Some(None),
        Some(v) => if json::is_variant(v, artifact::WASI_PREVIEW2_ENTRYPOINT@) {
            Some(Some(ComponentWorld::WasiCliCommand))
        } else if json::is_variant(v, artifact::WASI_HTTP_PROXY_WORLD@) {
            Some(Some(ComponentWorld::WasiHttpProxy))
        } else {
            None
        },
    }
}

/// The runtime's description that a document holds.
pub open spec fn decode_runtime(d: JsonView) -> Option<RuntimeSpecView> {
    match (
        json::field_text(d, 0, "abi"@),
        json::field_text(d, 1, "entrypoint"@),
        decode_format(json::field(d, 2, "format"@)),
        decode_world(json::field(d, 3, "world"@)),
    ) {
        (Some(abi), Some(entrypoint), Some(format), Some(world)) => if json::is_record(d, 4) {
            Some(
                RuntimeSpecView {
                    abi,
                    entrypoint,
                    custom: !artifact::is_standard_entrypoint(entrypoint),
                    format,
                    world,
                },
            )
        } else {
            None
        },
        _ => None,
    }
}

/// The execution defaults that a document holds.
pub open spec fn decode_execution(d: JsonView) -> Option<ExecutionDefaults> {
    match (
        json::field_optional_number(d, 0, "timeout_ms"@),
        json::field_optional_number(d, 1, "memory_bytes"@),
    ) {
        (Some(timeout_ms), Some(memory_bytes)) => if json::is_record(d, 2) {
            Some(ExecutionDefaults { timeout_ms, memory_bytes })
        } else {
            None
        },
        _ => None,
    }
}

/// The manifest that a document holds, if it holds one.
pub open spec fn decode_manifest(d: JsonView) -> Option<ManifestView> {
    match (
        json::field_number(d, 0, "schema_version"@),
        json::field(d, 1, "artifact"@),
        json::field(d, 2, "build"@),
        json::field(d, 3, "runtime"@),
        json::field(d, 4, "execution"@),
        json::field(d, 5, "capabilities"@),
    ) {
        (Some(version), Some(a), Some(b), Some(r), Some(e), Some(c)) => match (
            decode_artifact(a),
            decode_build(b),
            decode_runtime(r),
            decode_execution(e),
            json::text_list(c),
        ) {
            (
                Some(artifact),
                Some(build),
                Some(runtime),
                Some(execution),
                Some(capabilities),
            ) => if version <= u32::MAX && json::is_record(d, 6) {
                Some(
                    ManifestView {
                        schema_version: version as u32,
                        artifact,
                        build,
                        runtime,
                        execution,
                        capabilities,
                    },
                )
            } else {
                None
            },
            _ => None,
        },
        _ => None,
    }
}

/// Whether `r` has the model `expected`.
pub open spec fn same_option<T: View>(r: Option<T>, expected: Option<T::V>) -> bool {
    match (r, expected) {
        (Some(x), Some(y)) => x@ == y,
        (None, None) => true,
        _ => false,
    }
}

fn read_artifact(v: &serde_json::Value) -> (r: Option<ArtifactSpec>)
    ensures
        same_option(r, decode_artifact(json::json_view(*v))),
{
    match (
        get_text(v, 0, "name"),
        get_text(v, 1, "path"),
        get_text(v, 2, "sha256"),
        get_number(v, 3, "size_bytes"),
    ) {
        (Some(name), Some(path), Some(sha256), Some(size_bytes)) => if check_record(v, 4) {
            Some(ArtifactSpec { name, path, sha256, size_bytes })
        } else {
            None
        },
        _ => None,
    }
}

fn read_profile(v: Option<&serde_json::Value>) -> (r: Option<BuildProfile>)
    ensures
        r == decode_profile(
            match v {
                Some(v) => Some(json::json_view(*v)),
                None => None,
            },
        ),
{
    match v {
        Some(v) => if names_variant(v, "debug") {
            Some(BuildProfile::Debug)
        } else if names_variant(v, "release") {
            Some(BuildProfile::Release)
        } else {
            None
        },
        None => None,
    }
}

fn read_build(v: &serde_json::Value) -> (r: Option<BuildSpec>)
    ensures
        same_option(r, decode_build(json::json_view(*v))),
{
    match (
        get_text(v, 0, "language"),
        get_text(v, 1, "target"),
        read_profile(get_field(v, 2, "profile")),
        get_text(v, 3, "fingerprint"),
        get_optional_text(v, 4, "toolchain"),
        get_optional_text(v, 5, "toolchain_version"),
        get_optional_text(v, 6, "application_interface"),
        get_optional_text(v, 7, "adapter"),
        get_optional_text(v, 8, "adapter_digest"),
    ) {
        (
            Some(language),
            Some(target),
            Some(profile),
            Some(fingerprint),
            Some(toolchain),
            Some(toolchain_version),
            Some(application_interface),
            Some(adapter),
            Some(adapter_digest),
        ) => if check_record(v, 9) {
            Some(
                BuildSpec {
                    language,
                    target,
                    profile,
                    fingerprint,
                    toolchain,
                    toolchain_version,
                    application_interface,
                    adapter,
                    adapter_digest,
                },
            )
        } else {
            None
        },
        _ => None,
    }
}

fn read_format(v: Option<&serde_json::Value>) -> (r: Option<ArtifactFormat>)
    ensures
        r == decode_format(
            match v {
                Some(v) => Some(json::json_view(*v)),
                None => None,
            },
        ),
{
    match v {
        Some(v) => if names_variant(v, "core-module") {
            Some(ArtifactFormat::CoreModule)
        } else if names_variant(v, "component") {
            Some(ArtifactFormat::Component)
        } else {
            None
        },
        None => Some(artifact::default_artifact_format()),
    }
}

fn read_world(v: Option<&serde_json::Value>) -> (r: Option<Option<ComponentWorld>>)
    ensures
        r == decode_world(
            match v {
                Some(v) => Some(json::json_view(*v)),
                None => None,
            },
        ),
{
    match v {
        Some(v) => if v.is_null() {
            Some(None)
        } else if names_variant(v, artifact::WASI_PREVIEW2_ENTRYPOINT) {
            Some(Some(ComponentWorld::WasiCliCommand))
        } else if names_variant(v, artifact::WASI_HTTP_PROXY_WORLD) {
            Some(Some(ComponentWorld::WasiHttpProxy))
        } else {
            None
        },
        None => Some(None),
    }
}

fn read_runtime(v: &serde_json::Value) -> (r: Option<RuntimeSpec>)
    ensures
        same_option(r, decode_runtime(json::json_view(*v))),
{
    match (
        get_text(v, 0, "abi"),
        get_text(v, 1, "entrypoint"),
        read_format(get_field(v, 2, "format")),
        read_world(get_field(v, 3, "world")),
    ) {
        (Some(abi), Some(entrypoint), Some(format), Some(world)) => if check_record(v, 4) {
            Some(
                RuntimeSpec {
                    abi: RuntimeAbi(abi),
                    entrypoint: Entrypoint::from_string(entrypoint),
                    format,
                    world,
                },
            )
        } else {
            None
        },
        _ => None,
    }
}

fn read_execution(v: &serde_json::Value) -> (r: Option<ExecutionDefaults>)
    ensures
        r == decode_execution(json::json_view(*v)),
{
    match (get_optional_number(v, 0, "timeout_ms"), get_optional_number(v, 1, "memory_bytes")) {
        (Some(timeout_ms), Some(memory_bytes)) => if check_record(v, 2) {
            Some(ExecutionDefaults { timeout_ms, memory_bytes })
        } else {
            None
        },
        _ => None,
    }
}

fn read_capabilities(v: &serde_json::Value) -> (r: Option<Vec<Capability>>)
    ensures
        match r {
            Some(c) => json::text_list(json::json_view(*v)) == Some(artifact::capability_names(c@)),
            None => json::text_list(json::json_view(*v)) is None,
        },
{
    let names = match get_texts(v) {
        Some(names) => names,
        None => {
            return None;
        },
    };
    let mut out: Vec<Capability> = Vec::new();
    let mut i: usize = 0;
    while i < names.len()
        invariant
            i <= names@.len(),
            out@.len() == i,
            forall|j: int| 0 <= j < i ==> (#[trigger] out@[j])@ == names@[j]@,
        decreases names@.len() - i,
    {
        out.push(Capability(names[i].clone()));
        i = i + 1;
    }
    assert(text::texts(names@) =~= artifact::capability_names(out@));
    Some(out)
}

/// The manifest that a document holds, if it holds one.
fn read_manifest(v: &serde_json::Value) -> (r: Option<ArtifactManifest>)
    ensures
        same_option(r, decode_manifest(json::json_view(*v))),
{
    match (
        get_number(v, 0, "schema_version"),
        get_field(v, 1, "artifact"),
        get_field(v, 2, "build"),
        get_field(v, 3, "runtime"),
        get_field(v, 4, "execution"),
        get_field(v, 5, "capabilities"),
    ) {
        (Some(version), Some(a), Some(b), Some(r), Some(e), Some(c)) => match (
            read_artifact(a),
            read_build(b),
            read_runtime(r),
            read_execution(e),
            read_capabilities(c),
        ) {
            (
                Some(artifact),
                Some(build),
                Some(runtime),
                Some(execution),
                Some(capabilities),
            ) => if version <= u32::MAX as u64 && check_record(v, 6) {
                Some(
                    ArtifactManifest {
                        schema_version: version as u32,
                        artifact,
                        build,
                        runtime,
                        execution,
                        capabilities,
                    },
                )
            } else {
                None
            },
            _ => None,
        },
        _ => None,
    }
}

/// Looking up a key in two lists of members, one after the other.
proof fn lemma_lookup_concat(
    a: Seq<(Seq<char>, JsonView)>,
    b: Seq<(Seq<char>, JsonView)>,
    key: Seq<char>,
)
    ensures
        json::lookup(a + b, key) == (if json::lookup(a, key) is Some {
            json::lookup(a, key)
        } else {
            json::lookup(b, key)
        }),
    decreases a.len(),
{
    if a.len() == 0 {
        assert(a + b =~= b);
    } else {
        assert((a + b).drop_first() =~= a.drop_first() + b);
        lemma_lookup_concat(a.drop_first(), b, key);
    }
}

/// What `optional_member` and `member` hold.
proof fn lemma_lookup_member(key: Seq<char>, value: JsonView, wanted: Seq<char>)
    ensures
        json::lookup(member(key, value), wanted) == (if key == wanted {
            Some(value)
        } else {
            None
        }),
{
    let m = member(key, value);
    assert(m.drop_first() =~= Seq::<(Seq<char>, JsonView)>::empty());
    assert(json::lookup(m.drop_first(), wanted) is None);
}

proof fn lemma_lookup_present(m: Seq<(Seq<char>, JsonView)>, i: int)
    requires
        0 <= i < m.len(),
    ensures
        json::lookup(m, m[i].0) is Some,
    decreases m.len(),
{
    if m[0].0 != m[i].0 {
        assert(m.drop_first()[i - 1] == m[i]);
        lemma_lookup_present(m.drop_first(), i - 1);
    }
}

/// Appending a member with a new key.
proof fn lemma_append(m: Seq<(Seq<char>, JsonView)>, key: Seq<char>, value: JsonView)
    requires
        json::distinct_keys(m),
        json::lookup(m, key) is None,
    ensures
        json::distinct_keys(m + member(key, value)),
        (m + member(key, value)).len() == m.len() + 1,
        forall|k: Seq<char>| #[trigger]
            json::lookup(m + member(key, value), k) == (if k == key {
                Some(value)
            } else {
                json::lookup(m, k)
            }),
{
    let c = m + member(key, value);
    assert forall|i: int, j: int| 0 <= i < j < c.len() implies (#[trigger] c[i]).0 != (
    #[trigger] c[j]).0 by {
        if j == m.len() {
            lemma_lookup_present(m, i);
        }
    }
    assert forall|k: Seq<char>| #[trigger]
        json::lookup(c, k) == (if k == key {
            Some(value)
        } else {
            json::lookup(m, k)
        }) by {
        lemma_lookup_concat(m, member(key, value), k);
        lemma_lookup_member(key, value, k);
    }
}

/// Appending an optional member with a new key.
proof fn lemma_append_optional(
    m: Seq<(Seq<char>, JsonView)>,
    key: Seq<char>,
    value: Option<Seq<char>>,
)
    requires
        json::distinct_keys(m),
        json::lookup(m, key) is None,
    ensures
        json::distinct_keys(m + optional_member(key, value)),
        forall|k: Seq<char>| #[trigger]
            json::lookup(m + optional_member(key, value), k) == (if k == key && value is Some {
                Some(JsonView::Text(value->0))
            } else {
                json::lookup(m, k)
            }),
{
    match value {
        Some(t) => lemma_append(m, key, JsonView::Text(t)),
        None => {
            assert(m + optional_member(key, value) =~= m);
        },
    }
}

/// A single member.
proof fn lemma_single(key: Seq<char>, value: JsonView)
    ensures
        json::distinct_keys(member(key, value)),
        forall|k: Seq<char>| #[trigger]
            json::lookup(member(key, value), k) == (if k == key {
                Some(value)
            } else {
                None
            }),
{
    assert forall|k: Seq<char>| #[trigger]
        json::lookup(member(key, value), k) == (if k == key {
            Some(value)
        } else {
            None
        }) by {
        lemma_lookup_member(key, value, k);
    }
}

/// Reading an artifact's description gives back what was written.
proof fn lemma_artifact_roundtrip(a: ArtifactSpecView)
    ensures
        json::distinct_keys(artifact_members(a)),
        json::is_plain(JsonView::Object(artifact_members(a)), 1),
        decode_artifact(JsonView::Object(artifact_members(a))) == Some(a),
{
    reveal_strlit("name");
    assert("name"@.len() == 4);
    reveal_strlit("path");
    assert("path"@.len() == 4);
    reveal_strlit("sha256");
    assert("sha256"@.len() == 6);
    reveal_strlit("size_bytes");
    assert("size_bytes"@.len() == 10);
    assert("name"@[0] != "path"@[0]);
    let m0 = member("name"@, JsonView::Text(a.name));
    let m1 = m0 + member("path"@, JsonView::Text(a.path));
    let m2 = m1 + member("sha256"@, JsonView::Text(a.sha256));
    let m3 = m2 + member("size_bytes"@, JsonView::Number(Some(a.size_bytes)));
    lemma_single("name"@, JsonView::Text(a.name));
    lemma_append(m0, "path"@, JsonView::Text(a.path));
    lemma_append(m1, "sha256"@, JsonView::Text(a.sha256));
    lemma_append(m2, "size_bytes"@, JsonView::Number(Some(a.size_bytes)));
    assert(artifact_members(a) == m3);
    assert forall|i: int| 0 <= i < m3.len() implies json::is_plain((#[trigger] m3[i]).1, 0) by {}
}

/// Reading a build's description gives back what was written.
proof fn lemma_build_roundtrip(b: BuildSpecView)
    ensures
        json::distinct_keys(build_members(b)),
        json::is_plain(JsonView::Object(build_members(b)), 1),
        decode_build(JsonView::Object(build_members(b))) == Some(b),
{
    reveal_strlit("language");
    assert("language"@.len() == 8);
    reveal_strlit("target");
    assert("target"@.len() == 6);
    reveal_strlit("profile");
    assert("profile"@.len() == 7);
    reveal_strlit("fingerprint");
    assert("fingerprint"@.len() == 11);
    reveal_strlit("toolchain");
    assert("toolchain"@.len() == 9);
    reveal_strlit("toolchain_version");
    assert("toolchain_version"@.len() == 17);
    reveal_strlit("application_interface");
    assert("application_interface"@.len() == 21);
    reveal_strlit("adapter");
    assert("adapter"@.len() == 7);
    reveal_strlit("adapter_digest");
    assert("adapter_digest"@.len() == 14);
    reveal_strlit("debug");
    assert("debug"@.len() == 5);
    reveal_strlit("release");
    assert("release"@.len() == 7);
    assert("profile"@[0] != "adapter"@[0]);
    let profile = JsonView::Text(artifact::profile_text(b.profile));
    let m0 = member("language"@, JsonView::Text(b.language));
    let m1 = m0 + member("target"@, JsonView::Text(b.target));
    let m2 = m1 + member("profile"@, profile);
    let m3 = m2 + member("fingerprint"@, JsonView::Text(b.fingerprint));
    let m4 = m3 + optional_member("toolchain"@, b.toolchain);
    let m5 = m4 + optional_member("toolchain_version"@, b.toolchain_version);
    let m6 = m5 + optional_member("application_interface"@, b.application_interface);
    let m7 = m6 + optional_member("adapter"@, b.adapter);
    let m8 = m7 + optional_member("adapter_digest"@, b.adapter_digest);
    lemma_single("language"@, JsonView::Text(b.language));
    lemma_append(m0, "target"@, JsonView::Text(b.target));
    lemma_append(m1, "profile"@, profile);
    lemma_append(m2, "fingerprint"@, JsonView::Text(b.fingerprint));
    lemma_append_optional(m3, "toolchain"@, b.toolchain);
    lemma_append_optional(m4, "toolchain_version"@, b.toolchain_version);
    lemma_append_optional(m5, "application_interface"@, b.application_interface);
    lemma_append_optional(m6, "adapter"@, b.adapter);
    lemma_append_optional(m7, "adapter_digest"@, b.adapter_digest);
    assert(build_members(b) == m8);
    assert forall|i: int| 0 <= i < m8.len() implies json::is_plain((#[trigger] m8[i]).1, 0) by {}
}

/// Reading a runtime's description gives back what was written.
proof fn lemma_runtime_roundtrip(r: RuntimeSpecView)
    ensures
        json::distinct_keys(runtime_members(r)),
        json::is_plain(JsonView::Object(runtime_members(r)), 1),
        decode_runtime(JsonView::Object(runtime_members(r))) == Some(
            (RuntimeSpecView { custom: !artifact::is_standard_entrypoint(r.entrypoint), ..r }),
        ),
{
    reveal_strlit("abi");
    assert("abi"@.len() == 3);
    reveal_strlit("entrypoint");
    assert("entrypoint"@.len() == 10);
    reveal_strlit("format");
    assert("format"@.len() == 6);
    reveal_strlit("world");
    assert("world"@.len() == 5);
    reveal_strlit("core-module");
    assert("core-module"@.len() == 11);
    reveal_strlit("component");
    assert("component"@.len() == 9);
    reveal_strlit("wasi:cli/command");
    assert("wasi:cli/command"@.len() == 16);
    reveal_strlit("wasi:http/proxy");
    assert("wasi:http/proxy"@.len() == 15);
    let format = JsonView::Text(artifact::format_text(r.format));
    let world = world_document(r.world);
    let m0 = member("abi"@, JsonView::Text(r.abi));
    let m1 = m0 + member("entrypoint"@, JsonView::Text(r.entrypoint));
    let m2 = m1 + member("format"@, format);
    let m3 = m2 + member("world"@, world);
    lemma_single("abi"@, JsonView::Text(r.abi));
    lemma_append(m0, "entrypoint"@, JsonView::Text(r.entrypoint));
    lemma_append(m1, "format"@, format);
    lemma_append(m2, "world"@, world);
    assert(runtime_members(r) == m3);
    assert forall|i: int| 0 <= i < m3.len() implies json::is_plain((#[trigger] m3[i]).1, 0) by {}
}

/// Reading execution defaults gives back what was written.
proof fn lemma_execution_roundtrip(e: ExecutionDefaults)
    ensures
        json::distinct_keys(execution_members(e)),
        json::is_plain(JsonView::Object(execution_members(e)), 1),
        decode_execution(JsonView::Object(execution_members(e))) == Some(e),
{
    reveal_strlit("timeout_ms");
    assert("timeout_ms"@.len() == 10);
    reveal_strlit("memory_bytes");
    assert("memory_bytes"@.len() == 12);
    let m0 = member("timeout_ms"@, optional_number(e.timeout_ms));
    let m1 = m0 + member("memory_bytes"@, optional_number(e.memory_bytes));
    lemma_single("timeout_ms"@, optional_number(e.timeout_ms));
    lemma_append(m0, "memory_bytes"@, optional_number(e.memory_bytes));
    assert(execution_members(e) == m1);
    assert forall|i: int| 0 <= i < m1.len() implies json::is_plain((#[trigger] m1[i]).1, 0) by {}
}

/// A document without nesting beyond `depth` has none beyond a greater depth.
proof fn lemma_plain_deeper(d: JsonView, depth: nat, deeper: nat)
    requires
        json::is_plain(d, depth),
        depth <= deeper,
    ensures
        json::is_plain(d, deeper),
    decreases depth,
{
    match d {
        JsonView::List(s) => {
            assert forall|i: int| 0 <= i < s.len() implies json::is_plain(
                #[trigger] s[i],
                (deeper - 1) as nat,
            ) by {
                lemma_plain_deeper(s[i], (depth - 1) as nat, (deeper - 1) as nat);
            }
        },
        JsonView::Object(m) => {
            assert forall|i: int| 0 <= i < m.len() implies json::is_plain(
                (#[trigger] m[i]).1,
                (deeper - 1) as nat,
            ) by {
                lemma_plain_deeper(m[i].1, (depth - 1) as nat, (deeper - 1) as nat);
            }
        },
        _ => {},
    }
}

/// Every manifest is what reading its own document gives back.
pub proof fn manifest_roundtrip(m: ManifestView)
    ensures
        decode_manifest(encode_manifest(m)) == Some(artifact::with_named_entrypoint(m)),
        json::distinct_keys(manifest_members(m)),
        json::is_plain(encode_manifest(m), 100),
{
    reveal_strlit("schema_version");
    assert("schema_version"@.len() == 14);
    reveal_strlit("artifact");
    assert("artifact"@.len() == 8);
    reveal_strlit("build");
    assert("build"@.len() == 5);
    reveal_strlit("runtime");
    assert("runtime"@.len() == 7);
    reveal_strlit("execution");
    assert("execution"@.len() == 9);
    reveal_strlit("capabilities");
    assert("capabilities"@.len() == 12);
    lemma_artifact_roundtrip(m.artifact);
    lemma_build_roundtrip(m.build);
    lemma_runtime_roundtrip(m.runtime);
    lemma_execution_roundtrip(m.execution);
    let version = JsonView::Number(Some(m.schema_version as u64));
    let artifact = JsonView::Object(artifact_members(m.artifact));
    let build = JsonView::Object(build_members(m.build));
    let runtime = JsonView::Object(runtime_members(m.runtime));
    let execution = JsonView::Object(execution_members(m.execution));
    let names = JsonView::List(name_list(m.capabilities));
    let m0 = member("schema_version"@, version);
    let m1 = m0 + member("artifact"@, artifact);
    let m2 = m1 + member("build"@, build);
    let m3 = m2 + member("runtime"@, runtime);
    let m4 = m3 + member("execution"@, execution);
    let m5 = m4 + member("capabilities"@, names);
    lemma_single("schema_version"@, version);
    lemma_append(m0, "artifact"@, artifact);
    lemma_append(m1, "build"@, build);
    lemma_append(m2, "runtime"@, runtime);
    lemma_append(m3, "execution"@, execution);
    lemma_append(m4, "capabilities"@, names);
    assert(manifest_members(m) == m5);
    let s = name_list(m.capabilities);
    assert(s.map_values(|v: JsonView| v->Text_0) =~= m.capabilities);
    assert forall|i: int| 0 <= i < s.len() implies json::is_plain(#[trigger] s[i], 0) by {}
    assert(json::is_plain(names, 1));
    assert forall|i: int| 0 <= i < m5.len() implies json::is_plain((#[trigger] m5[i]).1, 1) by {
        assert(m5[0].1 == version);
        assert(m5[1].1 == artifact);
        assert(m5[2].1 == build);
        assert(m5[3].1 == runtime);
        assert(m5[4].1 == execution);
        assert(m5[5].1 == names);
    }
    assert(json::is_plain(JsonView::Object(m5), 2));
    lemma_plain_deeper(JsonView::Object(m5), 2, 100);
}

/// Appends a member.
fn put(members: &mut Vec<(String, serde_json::Value)>, key: &str, value: serde_json::Value)
    ensures
        json::members_view(final(members)@) == json::members_view(old(members)@) + member(
            key@,
            json::json_view(value),
        ),
{
    let ghost before = json::members_view(members@);
    members.push((key.to_owned(), value));
    assert(json::members_view(members@) =~= before + member(key@, json::json_view(value)));
}

/// Appends a member, if there is a text for it.
fn put_optional(members: &mut Vec<(String, serde_json::Value)>, key: &str, value: &Option<String>)
    ensures
        json::members_view(final(members)@) == json::members_view(old(members)@)
            + optional_member(key@, text::option_view(*value)),
{
    let ghost before = json::members_view(members@);
    match value {
        Some(t) => put(members, key, text_value(t.as_str())),
        None => {
            assert(before + Seq::<(Seq<char>, JsonView)>::empty() =~= before);
        },
    }
}

/// No members yet.
fn no_members() -> (r: Vec<(String, serde_json::Value)>)
    ensures
        json::members_view(r@) == Seq::<(Seq<char>, JsonView)>::empty(),
{
    let r: Vec<(String, serde_json::Value)> = Vec::new();
    assert(json::members_view(r@) =~= Seq::<(Seq<char>, JsonView)>::empty());
    r
}

/// A number, or null.
fn optional_number_value(n: Option<u64>) -> (v: serde_json::Value)
    ensures
        json::json_view(v) == optional_number(n),
{
    match n {
        Some(n) => number_value(n),
        None => null_value(),
    }
}

fn write_artifact(a: &ArtifactSpec) -> (v: serde_json::Value)
    ensures
        json::json_view(v) == JsonView::Object(artifact_members(a@)),
{
    let mut m = no_members();
    put(&mut m, "name", text_value(a.name.as_str()));
    put(&mut m, "path", text_value(a.path.as_str()));
    put(&mut m, "sha256", text_value(a.sha256.as_str()));
    put(&mut m, "size_bytes", number_value(a.size_bytes));
    proof {
        lemma_artifact_roundtrip(a@);
        assert(json::members_view(m@) =~= artifact_members(a@));
    }
    object_value(m)
}

fn write_build(b: &BuildSpec) -> (v: serde_json::Value)
    ensures
        json::json_view(v) == JsonView::Object(build_members(b@)),
{
    let mut m = no_members();
    put(&mut m, "language", text_value(b.language.as_str()));
    put(&mut m, "target", text_value(b.target.as_str()));
    put(&mut m, "profile", text_value(b.profile.as_str()));
    put(&mut m, "fingerprint", text_value(b.fingerprint.as_str()));
    put_optional(&mut m, "toolchain", &b.toolchain);
    put_optional(&mut m, "toolchain_version", &b.toolchain_version);
    put_optional(&mut m, "application_interface", &b.application_interface);
    put_optional(&mut m, "adapter", &b.adapter);
    put_optional(&mut m, "adapter_digest", &b.adapter_digest);
    proof {
        lemma_build_roundtrip(b@);
        assert(json::members_view(m@) =~= build_members(b@));
    }
    object_value(m)
}

fn write_runtime(r: &RuntimeSpec) -> (v: serde_json::Value)
    ensures
        json::json_view(v) == JsonView::Object(runtime_members(r@)),
{
    let mut m = no_members();
    put(&mut m, "abi", text_value(r.abi.as_str()));
    put(&mut m, "entrypoint", text_value(r.entrypoint.as_str()));
    put(&mut m, "format", text_value(format_name(r.format)));
    let world = match r.world {
        Some(w) => text_value(w.as_str()),
        None => null_value(),
    };
    put(&mut m, "world", world);
    proof {
        lemma_runtime_roundtrip(r@);
        assert(json::members_view(m@) =~= runtime_members(r@));
    }
    object_value(m)
}

fn write_execution(e: &ExecutionDefaults) -> (v: serde_json::Value)
    ensures
        json::json_view(v) == JsonView::Object(execution_members(*e)),
{
    let mut m = no_members();
    put(&mut m, "timeout_ms", optional_number_value(e.timeout_ms));
    put(&mut m, "memory_bytes", optional_number_value(e.memory_bytes));
    proof {
        lemma_execution_roundtrip(*e);
        assert(json::members_view(m@) =~= execution_members(*e));
    }
    object_value(m)
}

fn write_capabilities(c: &Vec<Capability>) -> (v: serde_json::Value)
    ensures
        json::json_view(v) == JsonView::List(name_list(artifact::capability_names(c@))),
{
    let mut out: Vec<serde_json::Value> = Vec::new();
    let mut i: usize = 0;
    while i < c.len()
        invariant
            i <= c@.len(),
            out@.len() == i,
            forall|j: int|
                0 <= j < i ==> json::json_view(#[trigger] out@[j]) == JsonView::Text(c@[j]@),
        decreases c@.len() - i,
    {
        out.push(text_value(c[i].as_str()));
        i = i + 1;
    }
    assert(json::elements_view(out@) =~= name_list(artifact::capability_names(c@)));
    list_value(out)
}

/// The document of a manifest.
fn write_manifest(m: &ArtifactManifest) -> (v: serde_json::Value)
    ensures
        json::json_view(v) == encode_manifest(m@),
        json::is_plain(json::json_view(v), 100),
{
    let mut members = no_members();
    put(&mut members, "schema_version", number_value(m.schema_version as u64));
    put(&mut members, "artifact", write_artifact(&m.artifact));
    put(&mut members, "build", write_build(&m.build));
    put(&mut members, "runtime", write_runtime(&m.runtime));
    put(&mut members, "execution", write_execution(&m.execution));
    put(&mut members, "capabilities", write_capabilities(&m.capabilities));
    proof {
        manifest_roundtrip(m@);
        assert(json::members_view(members@) =~= manifest_members(m@));
    }
    object_value(members)
}

/// The JSON text of a manifest: its indented document and a line feed.
pub open spec fn manifest_text(m: ManifestView) -> Seq<char> {
    json::json_text(encode_manifest(m)).push('\n')
}

/// The outcome of reading a manifest; `contents` is what reading the file gave.
pub open spec fn loaded(path: Seq<char>, contents: Option<Seq<u8>>) -> Result<
    ManifestView,
    ErrorView,
> {
    match contents {
        None => Err(error::error(ErrorKind::Host, "failed to read artifact manifest "@ + path)),
        Some(bytes) => match forms::document(bytes, Form::Manifest) {
            Some(d) => match decode_manifest(d) {
                Some(m) => match validation::violation(m) {
                    Some(e) => Err(e),
                    None => Ok(m),
                },
                None => Err(
                    error::error(ErrorKind::Document, "malformed artifact manifest "@ + path),
                ),
            },
            None => Err(error::error(ErrorKind::Document, "malformed artifact manifest "@ + path)),
        },
    }
}

/// The steps of replacing a file in one go: make the directory, write the
/// contents to a temporary file that must be new, then rename it to the target.
/// Where a step fails the temporary file is removed.
pub struct AtomicWrite {
    pub directory: String,
    pub temporary: String,
    pub target: String,
    pub contents: String,
}

/// The name of the temporary file of an atomic write.
pub open spec fn temporary_name(path: Seq<char>, process: u32, counter: u64) -> Seq<char> {
    "."@ + (match paths::file_name(path) {
        Some(name) => name,
        None => "manifest"@,
    }) + "."@ + text::decimal(process as nat) + "."@ + text::decimal(counter as nat) + ".tmp"@
}

/// The directory that holds a path, or `.`.
pub open spec fn directory_of(path: Seq<char>) -> Seq<char> {
    match paths::parent(path) {
        Some(parent) => parent,
        None => "."@,
    }
}

impl ArtifactManifest {
    /// The JSON text of the manifest, if it is valid.
    pub fn to_json(&self) -> (r: Result<String, PitError>)
        ensures
            error::outcome(r) == match validation::violation(self@) {
                Some(e) => Err(e),
                None => Ok(manifest_text(self@)),
            },
            r matches Ok(t) ==> forall|path: Seq<char>|
                #[trigger] loaded(path, Some(vstd::utf8::encode_utf8(t@))) == Ok::<
                    ManifestView,
                    ErrorView,
                >(artifact::with_named_entrypoint(self@)),
    {
        if let Err(e) = self.validate() {
            return Err(e);
        }
        let value = write_manifest(self);
        proof {
            manifest_roundtrip(self@);
            validation::valid_iff_no_violation(self@);
        }
        match render_json(&value) {
            Ok(t) => {
                let mut t = t;
                let ghost line = t@;
                t.push('\n');
                proof {
                    let written = vstd::utf8::encode_utf8(line);
                    lemma_line_feed(line);
                    form_laws::line_feed_is_stripped(written, manifest_members(self@));
                    assert forall|path: Seq<char>| #[trigger]
                        loaded(path, Some(vstd::utf8::encode_utf8(t@))) == Ok::<
                            ManifestView,
                            ErrorView,
                        >(artifact::with_named_entrypoint(self@)) by {
                        written_manifest_is_read_back(
                            self@,
                            path,
                            vstd::utf8::encode_utf8(t@),
                        );
                    }
                }
                Ok(t)
            },
            Err(_) => Err(PitError::fixed(ErrorKind::Document, "failed to write manifest")),
        }
    }

    /// Reads a manifest; `contents` is what reading the file at `path` gave.
    pub fn load(path: &str, contents: Option<&[u8]>) -> (r: Result<Self, PitError>)
        ensures
            error::outcome(r) == loaded(path@, wasm::bytes_view(contents)),
            r matches Ok(m) ==> artifact::is_canonical_entrypoint(m.runtime.entrypoint),
    {
        let bytes = match contents {
            Some(bytes) => bytes,
            None => {
                return Err(naming_path(ErrorKind::Host, "failed to read artifact manifest ", path));
            },
        };
        let decoded = match read_document(bytes, Form::Manifest) {
            Some(value) => read_manifest(&value),
            None => None,
        };
        match decoded {
            Some(manifest) => match manifest.validate() {
                Ok(_) => Ok(manifest),
                Err(e) => Err(e),
            },
            None => Err(naming_path(ErrorKind::Document, "malformed artifact manifest ", path)),
        }
    }

    /// How to write the manifest to `path` in one go. `process` and `counter`
    /// tell temporary files apart.
    pub fn write_atomic(&self, path: &str, process: u32, counter: u64) -> (r: Result<
        AtomicWrite,
        PitError,
    >)
        ensures
            match r {
                Ok(w) => {
                    &&& validation::is_valid(self@)
                    &&& w.contents@ == manifest_text(self@)
                    &&& w.target@ == path@
                    &&& w.directory@ == directory_of(path@)
                    &&& w.temporary@ == paths::join_path(
                        directory_of(path@),
                        temporary_name(path@, process, counter),
                    )
                    &&& forall|p: Seq<char>|
                        #[trigger] loaded(p, Some(vstd::utf8::encode_utf8(w.contents@))) == Ok::<
                            ManifestView,
                            ErrorView,
                        >(artifact::with_named_entrypoint(self@))
                },
                Err(e) => validation::violation(self@) == Some(e@),
            },
    {
        let contents = match self.to_json() {
            Ok(t) => t,
            Err(e) => {
                return Err(e);
            },
        };
        proof {
            validation::valid_iff_no_violation(self@);
        }
        let directory = match parent_of(path) {
            Some(parent) => parent,
            None => ".".to_owned(),
        };
        let mut name = ".".to_owned();
        match file_name_of(path) {
            Some(n) => name.append(n.as_str()),
            None => name.append("manifest"),
        }
        name.append(".");
        name.append(to_decimal(process as u64).as_str());
        name.append(".");
        name.append(to_decimal(counter).as_str());
        name.append(".tmp");
        let temporary = path_join(directory.as_str(), name.as_str());
        Ok(AtomicWrite { directory, temporary, target: path.to_owned(), contents })
    }
}

/// The bytes of a text with a line feed are those of the text and the line feed's.
proof fn lemma_line_feed(t: Seq<char>)
    ensures
        vstd::utf8::encode_utf8(t.push('\n')) == vstd::utf8::encode_utf8(t).push(0x0a),
    decreases t.len(),
{
    let pushed = t.push('\n');
    if t.len() == 0 {
        assert(pushed.drop_first() =~= t);
        assert(10u32 & 0x7f == 10) by (bit_vector);
        assert(vstd::utf8::encode_scalar('\n' as u32) =~= seq![0x0au8]);
        assert(vstd::utf8::encode_utf8(pushed) =~= vstd::utf8::encode_utf8(t).push(0x0a));
    } else {
        lemma_line_feed(t.drop_first());
        assert(pushed.drop_first() =~= t.drop_first().push('\n'));
        assert(vstd::utf8::encode_utf8(pushed) =~= vstd::utf8::encode_utf8(t).push(0x0a));
    }
}

/// A member of the record, and no object.
proof fn lemma_flat_member(key: Seq<char>, value: JsonView, form: Form, index: int)
    requires
        0 <= index < forms::fields(form).len(),
        forms::fields(form)[index].0 == key,
        !(value is Object),
    ensures
        form_laws::are_flat(member(key, value), form),
{
    form_laws::lemma_field_is_known(forms::fields(form), index);
}

/// A member of the record that may be left out.
proof fn lemma_flat_optional(key: Seq<char>, value: Option<Seq<char>>, form: Form, index: int)
    requires
        0 <= index < forms::fields(form).len(),
        forms::fields(form)[index].0 == key,
    ensures
        form_laws::are_flat(optional_member(key, value), form),
{
    form_laws::lemma_field_is_known(forms::fields(form), index);
}

/// Nothing in the written descriptions is passed over when they are read.
proof fn lemma_parts_fit(m: ManifestView)
    ensures
        form_laws::fits(JsonView::Object(artifact_members(m.artifact)), Form::Artifact),
        form_laws::fits(JsonView::Object(build_members(m.build)), Form::Build),
        form_laws::fits(JsonView::Object(runtime_members(m.runtime)), Form::Runtime),
        form_laws::fits(JsonView::Object(execution_members(m.execution)), Form::Execution),
{
    let a = m.artifact;
    lemma_artifact_roundtrip(a);
    lemma_flat_member("name"@, JsonView::Text(a.name), Form::Artifact, 0);
    lemma_flat_member("path"@, JsonView::Text(a.path), Form::Artifact, 1);
    lemma_flat_member("sha256"@, JsonView::Text(a.sha256), Form::Artifact, 2);
    lemma_flat_member("size_bytes"@, JsonView::Number(Some(a.size_bytes)), Form::Artifact, 3);
    form_laws::lemma_flat_record_fits(artifact_members(a), Form::Artifact);
    let r = m.runtime;
    lemma_runtime_roundtrip(r);
    lemma_flat_member("abi"@, JsonView::Text(r.abi), Form::Runtime, 0);
    lemma_flat_member("entrypoint"@, JsonView::Text(r.entrypoint), Form::Runtime, 1);
    lemma_flat_member(
        "format"@,
        JsonView::Text(artifact::format_text(r.format)),
        Form::Runtime,
        2,
    );
    lemma_flat_member("world"@, world_document(r.world), Form::Runtime, 3);
    form_laws::lemma_flat_record_fits(runtime_members(r), Form::Runtime);
    let e = m.execution;
    lemma_execution_roundtrip(e);
    lemma_flat_member("timeout_ms"@, optional_number(e.timeout_ms), Form::Execution, 0);
    lemma_flat_member("memory_bytes"@, optional_number(e.memory_bytes), Form::Execution, 1);
    form_laws::lemma_flat_record_fits(execution_members(e), Form::Execution);
    lemma_build_fits(m.build);
}

proof fn lemma_build_fits(b: BuildSpecView)
    ensures
        form_laws::fits(JsonView::Object(build_members(b)), Form::Build),
{
    lemma_build_roundtrip(b);
    lemma_flat_member("language"@, JsonView::Text(b.language), Form::Build, 0);
    lemma_flat_member("target"@, JsonView::Text(b.target), Form::Build, 1);
    lemma_flat_member(
        "profile"@,
        JsonView::Text(artifact::profile_text(b.profile)),
        Form::Build,
        2,
    );
    lemma_flat_member("fingerprint"@, JsonView::Text(b.fingerprint), Form::Build, 3);
    lemma_flat_optional("toolchain"@, b.toolchain, Form::Build, 4);
    lemma_flat_optional("toolchain_version"@, b.toolchain_version, Form::Build, 5);
    lemma_flat_optional("application_interface"@, b.application_interface, Form::Build, 6);
    lemma_flat_optional("adapter"@, b.adapter, Form::Build, 7);
    lemma_flat_optional("adapter_digest"@, b.adapter_digest, Form::Build, 8);
    form_laws::lemma_flat_record_fits(build_members(b), Form::Build);
}

/// Nothing in a manifest that is written is passed over when it is read.
proof fn lemma_manifest_fits(m: ManifestView)
    ensures
        form_laws::fits(encode_manifest(m), Form::Manifest),
{
    lemma_parts_fit(m);
    manifest_roundtrip(m);
    reveal_strlit("schema_version");
    assert("schema_version"@.len() == 14);
    reveal_strlit("artifact");
    assert("artifact"@.len() == 8);
    reveal_strlit("build");
    assert("build"@.len() == 5);
    reveal_strlit("runtime");
    assert("runtime"@.len() == 7);
    reveal_strlit("execution");
    assert("execution"@.len() == 9);
    reveal_strlit("capabilities");
    assert("capabilities"@.len() == 12);
    let known = forms::fields(Form::Manifest);
    let members = manifest_members(m);
    reveal_with_fuel(forms::form_under, 7);
    assert forall|i: int| 0 <= i < members.len() implies (match forms::form_under(
        known,
        (#[trigger] members[i]).0,
    ) {
        Some(f) => form_laws::fits(members[i].1, f),
        None => false,
    }) by {
        assert(members[i].0 == known[i].0);
        assert(forms::form_under(known, members[i].0) == Some(known[i].1));
    }
}

/// A manifest is as valid with the entrypoint that its name stands for.
proof fn lemma_named_is_as_valid(m: ManifestView)
    ensures
        validation::violation(artifact::with_named_entrypoint(m)) is None
            <==> validation::violation(m) is None,
{
    let named = artifact::with_named_entrypoint(m);
    validation::valid_iff_no_violation(m);
    validation::valid_iff_no_violation(named);
    assert(named.capabilities == m.capabilities);
    assert(validation::format_fits(named.runtime) == validation::format_fits(m.runtime));
    assert(validation::world_fits(named.runtime) == validation::world_fits(m.runtime));
    assert(validation::is_valid(m) ==> validation::is_valid(named));
    assert(validation::is_valid(named) ==> validation::is_valid(m));
}

/// What is read back of a manifest that was written is that manifest, with the
/// entrypoint that its name stands for: the same, unless the manifest has a custom
/// entrypoint of a standard name.
pub proof fn written_manifest_is_read_back(m: ManifestView, path: Seq<char>, contents: Seq<u8>)
    requires
        validation::is_valid(m),
        json::is_json_text(contents),
        json::spells(json::stripped(contents), encode_manifest(m)),
    ensures
        loaded(path, Some(contents)) == Ok::<ManifestView, ErrorView>(
            artifact::with_named_entrypoint(m),
        ),
        m.runtime.custom == !artifact::is_standard_entrypoint(m.runtime.entrypoint) ==> loaded(
            path,
            Some(contents),
        ) == Ok::<ManifestView, ErrorView>(m),
{
    manifest_roundtrip(m);
    lemma_manifest_fits(m);
    form_laws::spelled_document_is_read(contents, encode_manifest(m), Form::Manifest);
    lemma_named_is_as_valid(m);
    validation::valid_iff_no_violation(m);
    if m.runtime.custom == !artifact::is_standard_entrypoint(m.runtime.entrypoint) {
        assert(artifact::with_named_entrypoint(m) == m);
    }
}

} // verus!
