//! What identifies a build, and when an artifact that was built before is reused.

use crate::artifact;
use crate::artifact::{format_name, manifest_path, ArtifactFormat, ArtifactManifest, ManifestView};
use crate::builder;
use crate::digest;
use crate::digest::sha256_hex;
use crate::fingerprint;
use crate::fingerprint::{append_bytes, append_field};
use crate::manifest_json;
use crate::request;
use crate::request::{BuildRequest, RequestView};
use crate::text;
use crate::text::{option_text_eq, text_eq};
use crate::validation;
use crate::wasm;
use vstd::bytes::u64_to_le_bytes;
use vstd::prelude::*;
use vstd::utf8;

verus! {

/// The bytes that the identity of a build is hashed from: what the builder knows
/// and what the request adds.
pub open spec fn adaptation_bytes(builder: Seq<char>, r: RequestView) -> Seq<u8> {
    fingerprint::field_bytes(builder) + utf8::encode_utf8(request::adaptation_material(r))
}

/// The identity of a build.
pub open spec fn adapted_fingerprint(builder: Seq<char>, r: RequestView) -> Seq<char> {
    digest::sha256_text(adaptation_bytes(builder, r))
}

/// The identity of a build: what the builder knows and what the request adds.
pub fn adaptation_fingerprint(builder: &str, request: &BuildRequest) -> (r: String)
    ensures
        r@ == adapted_fingerprint(builder@, request@),
        digest::is_digest_text(r@),
{
    let mut material: Vec<u8> = Vec::new();
    append_field(&mut material, builder);
    let added = request.adaptation_fingerprint_material();
    append_bytes(&mut material, added.as_str().as_bytes());
    assert(material@ =~= adaptation_bytes(builder@, request@));
    sha256_hex(material.as_slice())
}

/// The number, or zero.
pub open spec fn or_zero(n: Option<u64>) -> u64 {
    match n {
        Some(n) => n,
        None => 0,
    }
}

/// The number, or zero.
fn number_or_zero(n: Option<u64>) -> (r: u64)
    ensures
        r == or_zero(n),
{
    match n {
        Some(n) => n,
        None => 0,
    }
}

/// The bytes that the identity of a provided artifact is hashed from.
pub open spec fn raw_bytes(r: RequestView, format: ArtifactFormat, contents: Seq<u8>) -> Seq<u8> {
    fingerprint::field_bytes("pit-raw-component-v1"@) + contents.push(0)
        + fingerprint::field_bytes(artifact::format_text(format)) + fingerprint::field_bytes(
        request::adaptation_material(r),
    ) + vstd::bytes::spec_u64_to_le_bytes(or_zero(r.execution_defaults.timeout_ms))
        + vstd::bytes::spec_u64_to_le_bytes(or_zero(r.execution_defaults.memory_bytes))
}

/// The identity of a provided artifact.
pub open spec fn raw_fingerprint(
    r: RequestView,
    format: ArtifactFormat,
    contents: Seq<u8>,
) -> Seq<char> {
    digest::sha256_text(raw_bytes(r, format, contents))
}

/// The identity of a provided artifact: its contents and format, what the request
/// adds and the execution defaults.
pub fn raw_artifact_fingerprint(
    request: &BuildRequest,
    format: ArtifactFormat,
    contents: &[u8],
) -> (r: String)
    ensures
        r@ == raw_fingerprint(request@, format, contents@),
        digest::is_digest_text(r@),
{
    let mut material: Vec<u8> = Vec::new();
    append_field(&mut material, "pit-raw-component-v1");
    append_bytes(&mut material, contents);
    material.push(0);
    append_field(&mut material, format_name(format));
    append_field(&mut material, request.adaptation_fingerprint_material().as_str());
    append_bytes(
        &mut material,
        u64_to_le_bytes(number_or_zero(request.execution_defaults.timeout_ms)).as_slice(),
    );
    append_bytes(
        &mut material,
        u64_to_le_bytes(number_or_zero(request.execution_defaults.memory_bytes)).as_slice(),
    );
    assert(material@ =~= raw_bytes(request@, format, contents@));
    sha256_hex(material.as_slice())
}

/// The target of an interface, or nothing.
pub open spec fn target_or_empty(abi: Seq<char>) -> Seq<char> {
    text::text_or_empty(artifact::target_of(abi))
}

/// Whether a manifest describes what a request asks for.
pub open spec fn cache_fits(m: ManifestView, r: RequestView, fingerprint: Seq<char>) -> bool {
    &&& m.build.fingerprint == fingerprint
    &&& m.build.profile == r.profile
    &&& m.build.target == target_or_empty(r.abi)
    &&& m.runtime.abi == r.abi
    &&& r.abi == "wasi-preview2"@ && r.world is Some ==> m.runtime.world == r.world
    &&& m.build.application_interface == r.application_interface
    &&& m.build.adapter == r.adapter
    &&& m.build.adapter_digest == request::workspace_digest(r)
}

/// Whether the manifest names the interface of the request.
fn interface_fits(manifest: &ArtifactManifest, request: &BuildRequest) -> (r: bool)
    ensures
        r == (manifest@.build.application_interface == request@.application_interface),
{
    match (&manifest.build.application_interface, &request.application_interface) {
        (Some(a), Some(b)) => text_eq(a.as_str(), b.as_str()),
        (None, None) => true,
        _ => false,
    }
}

/// Whether the manifest names the bridge of the request.
fn bridge_fits(manifest: &ArtifactManifest, request: &BuildRequest) -> (r: bool)
    ensures
        r == (manifest@.build.adapter_digest == request::workspace_digest(request@)),
{
    match (&manifest.build.adapter_digest, &request.adapter_workspace) {
        (Some(a), Some(w)) => text_eq(a.as_str(), w.digest.as_str()),
        (None, None) => true,
        _ => false,
    }
}

/// Whether a manifest describes what a request asks for.
pub fn manifest_fits(manifest: &ArtifactManifest, request: &BuildRequest, fingerprint: &str) -> (r:
    bool)
    ensures
        r == cache_fits(manifest@, request@, fingerprint@),
{
    let target = match request.abi.target() {
        Some(t) => t,
        None => "",
    };
    let world_differs = match (manifest.runtime.world, request.world) {
        (_, None) => false,
        (Some(a), Some(b)) => a != b,
        (None, Some(_)) => true,
    };
    text_eq(manifest.build.fingerprint.as_str(), fingerprint) && manifest.build.profile
        == request.profile && text_eq(manifest.build.target.as_str(), target) && text_eq(
        manifest.runtime.abi.as_str(),
        request.abi.as_str(),
    ) && !(text_eq(request.abi.as_str(), "wasi-preview2") && world_differs) && interface_fits(
        manifest,
        request,
    ) && option_text_eq(&manifest.build.adapter, &request.adapter) && bridge_fits(
        manifest,
        request,
    )
}

/// The manifest of an earlier build that a request can take over, as far as the
/// manifest says. `contents` is what reading the manifest's file gave.
pub open spec fn cached_manifest(
    r: RequestView,
    fingerprint: Seq<char>,
    contents: Option<Seq<u8>>,
) -> Option<ManifestView> {
    match manifest_json::loaded(artifact::manifest_location(r.project_dir), contents) {
        Ok(m) => if cache_fits(m, r, fingerprint) {
            Some(m)
        } else {
            None
        },
        Err(_) => None,
    }
}

/// The manifest of an earlier build that a request can take over, as far as the
/// manifest says. The artifact has still to be held against it.
pub fn load_cached_manifest(
    request: &BuildRequest,
    fingerprint: &str,
    contents: Option<&[u8]>,
) -> (r: Option<ArtifactManifest>)
    ensures
        builder::manifest_view(r) == cached_manifest(
            request@,
            fingerprint@,
            wasm::bytes_view(contents),
        ),
{
    let path = manifest_path(request.project_dir.as_str());
    match ArtifactManifest::load(path.as_str(), contents) {
        Ok(manifest) => if manifest_fits(&manifest, request, fingerprint) {
            Some(manifest)
        } else {
            None
        },
        Err(_) => None,
    }
}

/// A manifest that a request takes over is valid, carries the fingerprint of the
/// build and names its interface, adapter and bridge.
pub proof fn cached_manifest_is_valid(
    r: RequestView,
    fingerprint: Seq<char>,
    contents: Option<Seq<u8>>,
)
    requires
        cached_manifest(r, fingerprint, contents) is Some,
    ensures
        validation::is_valid(cached_manifest(r, fingerprint, contents)->0),
        cache_fits(cached_manifest(r, fingerprint, contents)->0, r, fingerprint),
{
    validation::valid_iff_no_violation(cached_manifest(r, fingerprint, contents)->0);
}

} // verus!
