//! What an artifact manifest has to satisfy, and what is checked of the
//! artifact that it describes.

use crate::artifact;
use crate::artifact::{
    format_name, ArtifactFormat, ArtifactManifest, Capability, ComponentWorld, ManifestView,
    RuntimeSpecView, SCHEMA_VERSION, WASI_HTTP_PROXY_WORLD, WASI_PREVIEW1_ENTRYPOINT,
    WASI_PREVIEW2_ENTRYPOINT,
};
use crate::digest;
use crate::digest::{digest_text, sha256_hex};
use crate::error;
use crate::error::{naming_path, ErrorKind, ErrorView, PitError};
use crate::paths;
use crate::paths::{absolute, has_parent_part, path_join, path_starts_with};
use crate::text;
use crate::text::{blank, text_eq, to_decimal};
use crate::wasm;
use crate::wasm::detect_artifact_format;
use vstd::prelude::*;

verus! {

/// What is said of a path that leaves the `.pit` directory.
pub open spec fn path_error() -> ErrorView {
    error::error(
        ErrorKind::Path,
        "artifact path must be a non-empty relative path inside .pit"@,
    )
}

/// Accepts a path that is relative, not empty and without a step to a parent directory.
pub fn validate_relative_path(path: &str) -> (r: Result<(), PitError>)
    ensures
        error::outcome(r) == if paths::is_inside(path@) {
            Ok(())
        } else {
            Err(path_error())
        },
{
    if absolute(path) || has_parent_part(path) || path.is_empty() {
        return Err(
            PitError::fixed(
                ErrorKind::Path,
                "artifact path must be a non-empty relative path inside .pit",
            ),
        );
    }
    Ok(())
}

/// The format that a runtime interface loads; any, where the interface is not known.
pub open spec fn required_format(abi: Seq<char>) -> Option<ArtifactFormat> {
    if abi == "wasi-preview1"@ {
        Some(ArtifactFormat::CoreModule)
    } else if abi == "wasi-preview2"@ {
        Some(ArtifactFormat::Component)
    } else {
        None
    }
}

/// Whether the format is one that the interface loads.
pub open spec fn format_fits(runtime: RuntimeSpecView) -> bool {
    required_format(runtime.abi) is None || required_format(runtime.abi) == Some(runtime.format)
}

/// Whether world and entrypoint fit the interface and each other.
pub open spec fn world_fits(runtime: RuntimeSpecView) -> bool {
    match runtime.world {
        Some(world) => runtime.abi == "wasi-preview2"@ && runtime.entrypoint
            == artifact::world_text(world),
        None => {
            &&& runtime.abi == "wasi-preview2"@ ==> runtime.entrypoint == WASI_PREVIEW2_ENTRYPOINT@
            &&& runtime.abi == "wasi-preview1"@ ==> runtime.entrypoint == WASI_PREVIEW1_ENTRYPOINT@
        },
    }
}

/// The manifest contract.
pub open spec fn is_valid(m: ManifestView) -> bool {
    &&& m.schema_version == SCHEMA_VERSION
    &&& !text::is_blank(m.artifact.name)
    &&& paths::is_inside(m.artifact.path)
    &&& digest::is_digest_text(m.artifact.sha256)
    &&& m.artifact.size_bytes > 0
    &&& !text::is_blank(m.build.language)
    &&& !text::is_blank(m.build.target)
    &&& digest::is_digest_text(m.build.fingerprint)
    &&& !text::is_blank(m.runtime.entrypoint)
    &&& format_fits(m.runtime)
    &&& world_fits(m.runtime)
    &&& forall|i: int|
        0 <= i < m.capabilities.len() ==> artifact::capability_supported(
            #[trigger] m.capabilities[i],
        )
}

/// What is said of a world or an entrypoint that does not fit.
pub open spec fn world_complaint(runtime: RuntimeSpecView) -> Seq<char> {
    match runtime.world {
        Some(world) => if runtime.abi != "wasi-preview2"@ {
            "component world is only valid for wasi-preview2 artifacts"@
        } else {
            match world {
                ComponentWorld::WasiCliCommand => "wasi:cli/command world requires entrypoint "@
                    + WASI_PREVIEW2_ENTRYPOINT@,
                ComponentWorld::WasiHttpProxy => "wasi:http/proxy world requires entrypoint "@
                    + WASI_HTTP_PROXY_WORLD@,
            }
        },
        None => if runtime.abi == "wasi-preview2"@ {
            "legacy wasi-preview2 manifests must use "@ + WASI_PREVIEW2_ENTRYPOINT@
        } else {
            "wasi-preview1 artifacts require entrypoint "@ + WASI_PREVIEW1_ENTRYPOINT@
        },
    }
}

/// The first rule of the manifest contract that a manifest breaks.
pub open spec fn violation(m: ManifestView) -> Option<ErrorView> {
    if m.schema_version != SCHEMA_VERSION {
        Some(
            error::error(
                ErrorKind::Manifest,
                "unsupported PitFast artifact schema version "@ + text::decimal(
                    m.schema_version as nat,
                ) + "; supported version is "@ + text::decimal(SCHEMA_VERSION as nat),
            ),
        )
    } else if text::is_blank(m.artifact.name) {
        Some(error::error(ErrorKind::Manifest, "artifact name must not be empty"@))
    } else if !paths::is_inside(m.artifact.path) {
        Some(path_error())
    } else if !digest::is_digest_text(m.artifact.sha256) {
        Some(
            error::error(
                ErrorKind::Manifest,
                "artifact sha256 must be a 64-character hexadecimal digest"@,
            ),
        )
    } else if m.artifact.size_bytes == 0 {
        Some(error::error(ErrorKind::Manifest, "artifact size_bytes must be greater than zero"@))
    } else if text::is_blank(m.build.language) || text::is_blank(m.build.target)
        || !digest::is_digest_text(m.build.fingerprint) {
        Some(
            error::error(
                ErrorKind::Manifest,
                "build metadata is incomplete or has an invalid fingerprint"@,
            ),
        )
    } else if text::is_blank(m.runtime.entrypoint) {
        Some(error::error(ErrorKind::Manifest, "runtime entrypoint must not be empty"@))
    } else if !format_fits(m.runtime) {
        Some(
            error::error(
                ErrorKind::Manifest,
                "runtime ABI '"@ + m.runtime.abi + "' requires "@ + artifact::format_text(
                    required_format(m.runtime.abi)->0,
                ) + " format"@,
            ),
        )
    } else if !world_fits(m.runtime) {
        Some(error::error(ErrorKind::Manifest, world_complaint(m.runtime)))
    } else if exists|i: int|
        0 <= i < m.capabilities.len() && !artifact::capability_supported(
            #[trigger] m.capabilities[i],
        ) {
        Some(error::error(ErrorKind::Manifest, "manifest declares an unsupported capability"@))
    } else {
        None
    }
}

/// A manifest breaks no rule exactly if it satisfies the contract.
pub proof fn valid_iff_no_violation(m: ManifestView)
    ensures
        is_valid(m) <==> violation(m) is None,
{
}

/// The outcome of checking a manifest.
pub open spec fn checked(m: ManifestView) -> Result<(), ErrorView> {
    match violation(m) {
        Some(e) => Err(e),
        None => Ok(()),
    }
}

/// Whether all capabilities are offered by hosts.
fn all_supported(capabilities: &Vec<Capability>) -> (r: bool)
    ensures
        r == forall|i: int|
            0 <= i < artifact::capability_names(capabilities@).len()
                ==> artifact::capability_supported(
                #[trigger] artifact::capability_names(capabilities@)[i],
            ),
{
    let ghost names = artifact::capability_names(capabilities@);
    let mut i: usize = 0;
    while i < capabilities.len()
        invariant
            i <= capabilities@.len(),
            names == artifact::capability_names(capabilities@),
            forall|j: int| 0 <= j < i ==> artifact::capability_supported(#[trigger] names[j]),
        decreases capabilities@.len() - i,
    {
        assert(names[i as int] == capabilities@[i as int]@);
        if !capabilities[i].is_supported() {
            return false;
        }
        i = i + 1;
    }
    true
}

/// The entrypoint that a runtime starts an artifact at.
pub open spec fn expected_entrypoint(abi: Seq<char>, world: Option<ComponentWorld>) -> Seq<char> {
    if abi == "wasi-preview1"@ {
        WASI_PREVIEW1_ENTRYPOINT@
    } else if world == Some(ComponentWorld::WasiHttpProxy) {
        WASI_HTTP_PROXY_WORLD@
    } else {
        WASI_PREVIEW2_ENTRYPOINT@
    }
}

/// The outcome of checking that a runtime can execute an artifact.
pub open spec fn runtime_checked(runtime: RuntimeSpecView) -> Result<(), ErrorView> {
    if !artifact::abi_supported(runtime.abi) {
        Err(
            error::error(
                ErrorKind::Manifest,
                "unsupported runtime ABI '"@ + runtime.abi
                    + "'; PitBox currently supports wasi-preview1 and wasi-preview2"@,
            ),
        )
    } else if runtime.entrypoint != expected_entrypoint(runtime.abi, runtime.world) {
        Err(
            error::error(
                ErrorKind::Manifest,
                "unsupported entrypoint '"@ + runtime.entrypoint + "'; expected "@
                    + expected_entrypoint(runtime.abi, runtime.world),
            ),
        )
    } else {
        Ok(())
    }
}

/// The two supported interfaces have different names.
pub proof fn lemma_abi_names()
    ensures
        "wasi-preview1"@ != "wasi-preview2"@,
{
    reveal_strlit("wasi-preview1");
    reveal_strlit("wasi-preview2");
    assert("wasi-preview1"@[12] != "wasi-preview2"@[12]);
}

/// A valid manifest of a supported interface can be executed.
pub proof fn valid_and_supported_is_executable(m: ManifestView)
    requires
        is_valid(m),
        artifact::abi_supported(m.runtime.abi),
    ensures
        runtime_checked(m.runtime) is Ok,
{
    lemma_abi_names();
}

/// What the file system says of an artifact: where its `.pit` directory and the
/// artifact really are, and what reading the artifact gave.
pub struct StoredArtifact {
    pub pit_root: Option<String>,
    pub path: Option<String>,
    pub contents: Option<Vec<u8>>,
}

/// The model of a `StoredArtifact`.
pub struct StoredView {
    pub pit_root: Option<Seq<char>>,
    pub path: Option<Seq<char>>,
    pub contents: Option<Seq<u8>>,
}

impl View for StoredArtifact {
    type V = StoredView;

    open spec fn view(&self) -> StoredView {
        StoredView {
            pit_root: text::option_view(self.pit_root),
            path: text::option_view(self.path),
            contents: match self.contents {
                Some(b) => Some(b@),
                None => None,
            },
        }
    }
}

/// Where the `.pit` directory of a project stands.
pub open spec fn pit_dir(project_dir: Seq<char>) -> Seq<char> {
    paths::join_path(project_dir, ".pit"@)
}

/// Where a manifest says that its artifact stands.
pub open spec fn artifact_place(m: ManifestView, project_dir: Seq<char>) -> Seq<char> {
    paths::join_path(pit_dir(project_dir), m.artifact.path)
}

/// The outcome of finding the artifact of a manifest.
pub open spec fn resolved(m: ManifestView, project_dir: Seq<char>, stored: StoredView) -> Result<
    Seq<char>,
    ErrorView,
> {
    match (violation(m), stored.pit_root, stored.path) {
        (Some(e), _, _) => Err(e),
        (None, None, _) => Err(
            error::error(ErrorKind::Host, "failed to access "@ + pit_dir(project_dir)),
        ),
        (None, Some(_), None) => Err(
            error::error(
                ErrorKind::Host,
                "artifact does not exist: "@ + artifact_place(m, project_dir),
            ),
        ),
        (None, Some(root), Some(path)) => if paths::lies_below(path, root) {
            Ok(path)
        } else {
            Err(error::error(ErrorKind::Path, "artifact path escapes the .pit directory"@))
        },
    }
}

/// The outcome of holding an artifact against its manifest.
pub open spec fn verified(m: ManifestView, project_dir: Seq<char>, stored: StoredView) -> Result<
    Seq<char>,
    ErrorView,
> {
    match (resolved(m, project_dir, stored), stored.contents) {
        (Err(e), _) => Err(e),
        (Ok(path), None) => Err(error::error(ErrorKind::Host, "failed to read "@ + path)),
        (Ok(path), Some(bytes)) => if bytes.len() != m.artifact.size_bytes {
            Err(
                error::error(
                    ErrorKind::Integrity,
                    "artifact size mismatch: manifest "@ + text::decimal(
                        m.artifact.size_bytes as nat,
                    ) + ", actual "@ + text::decimal(bytes.len()),
                ),
            )
        } else if digest::sha256_text(bytes) != m.artifact.sha256 {
            Err(
                error::error(
                    ErrorKind::Integrity,
                    "artifact SHA-256 mismatch: manifest "@ + m.artifact.sha256 + ", actual "@
                        + digest::sha256_text(bytes),
                ),
            )
        } else {
            match wasm::detected_format(path, Some(bytes)) {
                Err(e) => Err(e),
                Ok(format) => if format != m.runtime.format {
                    Err(
                        error::error(
                            ErrorKind::Integrity,
                            "artifact format mismatch: manifest "@ + artifact::format_text(
                                m.runtime.format,
                            ) + ", actual "@ + artifact::format_text(format),
                        ),
                    )
                } else {
                    Ok(path)
                },
            }
        },
    }
}

/// An artifact that passes stands below the `.pit` directory, its manifest is
/// valid, and it has the size, the digest and the format that the manifest gives.
pub proof fn verified_artifact_is_intact(m: ManifestView, project_dir: Seq<char>, stored: StoredView)
    requires
        verified(m, project_dir, stored) is Ok,
    ensures
        is_valid(m),
        stored.path == Some(verified(m, project_dir, stored)->Ok_0),
        stored.pit_root is Some,
        paths::lies_below(stored.path->0, stored.pit_root->0),
        stored.contents is Some,
        stored.contents->0.len() == m.artifact.size_bytes,
        digest::sha256_text(stored.contents->0) == m.artifact.sha256,
        wasm::detected_format(stored.path->0, stored.contents) == Ok::<ArtifactFormat, ErrorView>(
            m.runtime.format,
        ),
{
    valid_iff_no_violation(m);
}

/// A manifest accepts no two artifacts of different digests.
pub proof fn changed_artifact_is_refused(
    m: ManifestView,
    project_dir: Seq<char>,
    stored: StoredView,
    other: StoredView,
)
    requires
        verified(m, project_dir, stored) is Ok,
        other.contents is Some,
        digest::sha256_text(other.contents->0) != digest::sha256_text(stored.contents->0),
    ensures
        verified(m, project_dir, other) is Err,
{
}

/// The SHA-256 digest of a file; `contents` is what reading it gave.
pub fn sha256_file(path: &str, contents: Option<&[u8]>) -> (r: Result<String, PitError>)
    ensures
        error::outcome(r) == match wasm::bytes_view(contents) {
            Some(bytes) => Ok(digest::sha256_text(bytes)),
            None => Err(error::error(ErrorKind::Host, "failed to read "@ + path@)),
        },
        r matches Ok(t) ==> digest::is_digest_text(t@),
{
    match contents {
        Some(bytes) => Ok(sha256_hex(bytes)),
        None => Err(naming_path(ErrorKind::Host, "failed to read ", path)),
    }
}

impl ArtifactManifest {
    /// Checks the manifest contract; the first rule that is broken is reported.
    pub fn validate(&self) -> (r: Result<(), PitError>)
        ensures
            error::outcome(r) == checked(self@),
            r is Ok <==> is_valid(self@),
    {
        proof {
            valid_iff_no_violation(self@);
            lemma_abi_names();
        }
        if self.schema_version != SCHEMA_VERSION {
            let mut t = "unsupported PitFast artifact schema version ".to_owned();
            t.append(to_decimal(self.schema_version as u64).as_str());
            t.append("; supported version is ");
            t.append(to_decimal(SCHEMA_VERSION as u64).as_str());
            return Err(PitError::new(ErrorKind::Manifest, t));
        }
        if blank(self.artifact.name.as_str()) {
            return Err(PitError::fixed(ErrorKind::Manifest, "artifact name must not be empty"));
        }
        if let Err(e) = validate_relative_path(self.artifact.path.as_str()) {
            return Err(e);
        }
        if !digest_text(self.artifact.sha256.as_str()) {
            return Err(
                PitError::fixed(
                    ErrorKind::Manifest,
                    "artifact sha256 must be a 64-character hexadecimal digest",
                ),
            );
        }
        if self.artifact.size_bytes == 0 {
            return Err(
                PitError::fixed(
                    ErrorKind::Manifest,
                    "artifact size_bytes must be greater than zero",
                ),
            );
        }
        if blank(self.build.language.as_str()) || blank(self.build.target.as_str()) || !digest_text(
            self.build.fingerprint.as_str(),
        ) {
            return Err(
                PitError::fixed(
                    ErrorKind::Manifest,
                    "build metadata is incomplete or has an invalid fingerprint",
                ),
            );
        }
        if blank(self.runtime.entrypoint.as_str()) {
            return Err(
                PitError::fixed(ErrorKind::Manifest, "runtime entrypoint must not be empty"),
            );
        }
        let abi = self.runtime.abi.as_str();
        let entrypoint = self.runtime.entrypoint.as_str();
        let preview1 = text_eq(abi, "wasi-preview1");
        let preview2 = text_eq(abi, "wasi-preview2");
        let expected = if preview1 {
            ArtifactFormat::CoreModule
        } else if preview2 {
            ArtifactFormat::Component
        } else {
            self.runtime.format
        };
        if self.runtime.format != expected {
            let mut t = "runtime ABI '".to_owned();
            t.append(abi);
            t.append("' requires ");
            t.append(format_name(expected));
            t.append(" format");
            return Err(PitError::new(ErrorKind::Manifest, t));
        }
        match self.runtime.world {
            Some(world) => {
                if !preview2 {
                    return Err(
                        PitError::fixed(
                            ErrorKind::Manifest,
                            "component world is only valid for wasi-preview2 artifacts",
                        ),
                    );
                }
                if !text_eq(entrypoint, world.as_str()) {
                    return Err(
                        match world {
                            ComponentWorld::WasiCliCommand => naming_path(
                                ErrorKind::Manifest,
                                "wasi:cli/command world requires entrypoint ",
                                WASI_PREVIEW2_ENTRYPOINT,
                            ),
                            ComponentWorld::WasiHttpProxy => naming_path(
                                ErrorKind::Manifest,
                                "wasi:http/proxy world requires entrypoint ",
                                WASI_HTTP_PROXY_WORLD,
                            ),
                        },
                    );
                }
            },
            None => {
                if preview2 && !text_eq(entrypoint, WASI_PREVIEW2_ENTRYPOINT) {
                    return Err(
                        naming_path(
                            ErrorKind::Manifest,
                            "legacy wasi-preview2 manifests must use ",
                            WASI_PREVIEW2_ENTRYPOINT,
                        ),
                    );
                }
                if preview1 && !text_eq(entrypoint, WASI_PREVIEW1_ENTRYPOINT) {
                    return Err(
                        naming_path(
                            ErrorKind::Manifest,
                            "wasi-preview1 artifacts require entrypoint ",
                            WASI_PREVIEW1_ENTRYPOINT,
                        ),
                    );
                }
            },
        }
        if !all_supported(&self.capabilities) {
            proof {
                let names = self@.capabilities;
                let i = choose|i: int|
                    0 <= i < names.len() && !artifact::capability_supported(#[trigger] names[i]);
                assert(!artifact::capability_supported(self@.capabilities[i]));
            }
            return Err(
                PitError::fixed(
                    ErrorKind::Manifest,
                    "manifest declares an unsupported capability",
                ),
            );
        }
        Ok(())
    }

    /// Checks that a runtime can execute the artifact.
    pub fn validate_runtime_compatibility(&self) -> (r: Result<(), PitError>)
        ensures
            error::outcome(r) == runtime_checked(self@.runtime),
    {
        let abi = self.runtime.abi.as_str();
        if !self.runtime.abi.is_supported() {
            return Err(
                PitError::naming(
                    ErrorKind::Manifest,
                    "unsupported runtime ABI '",
                    abi,
                    "'; PitBox currently supports wasi-preview1 and wasi-preview2",
                ),
            );
        }
        let expected = if text_eq(abi, "wasi-preview1") {
            WASI_PREVIEW1_ENTRYPOINT
        } else {
            match self.runtime.world {
                Some(ComponentWorld::WasiHttpProxy) => WASI_HTTP_PROXY_WORLD,
                _ => WASI_PREVIEW2_ENTRYPOINT,
            }
        };
        let entrypoint = self.runtime.entrypoint.as_str();
        if !text_eq(entrypoint, expected) {
            let mut t = "unsupported entrypoint '".to_owned();
            t.append(entrypoint);
            t.append("'; expected ");
            t.append(expected);
            return Err(PitError::new(ErrorKind::Manifest, t));
        }
        Ok(())
    }

    /// Where the manifest says that its artifact stands.
    pub fn artifact_location(&self, project_dir: &str) -> (r: String)
        ensures
            r@ == artifact_place(self@, project_dir@),
    {
        path_join(path_join(project_dir, ".pit").as_str(), self.artifact.path.as_str())
    }

    /// Where the artifact really stands, which must be below the `.pit` directory.
    pub fn resolve_artifact_path(&self, project_dir: &str, stored: &StoredArtifact) -> (r: Result<
        String,
        PitError,
    >)
        ensures
            error::outcome(r) == resolved(self@, project_dir@, stored@),
    {
        if let Err(e) = self.validate() {
            return Err(e);
        }
        let pit_root = match &stored.pit_root {
            Some(root) => root,
            None => {
                return Err(
                    naming_path(
                        ErrorKind::Host,
                        "failed to access ",
                        path_join(project_dir, ".pit").as_str(),
                    ),
                );
            },
        };
        let path = match &stored.path {
            Some(path) => path,
            None => {
                return Err(
                    naming_path(
                        ErrorKind::Host,
                        "artifact does not exist: ",
                        self.artifact_location(project_dir).as_str(),
                    ),
                );
            },
        };
        if !path_starts_with(path.as_str(), pit_root.as_str()) {
            return Err(
                PitError::fixed(ErrorKind::Path, "artifact path escapes the .pit directory"),
            );
        }
        Ok(path.clone())
    }

    /// Holds the artifact against the manifest: its place, size, digest and format.
    pub fn verify_artifact(&self, project_dir: &str, stored: &StoredArtifact) -> (r: Result<
        String,
        PitError,
    >)
        ensures
            error::outcome(r) == verified(self@, project_dir@, stored@),
    {
        let path = match self.resolve_artifact_path(project_dir, stored) {
            Ok(path) => path,
            Err(e) => {
                return Err(e);
            },
        };
        let bytes = match &stored.contents {
            Some(bytes) => bytes,
            None => {
                return Err(naming_path(ErrorKind::Host, "failed to read ", path.as_str()));
            },
        };
        let size: u64 = bytes.len() as u64;
        if size != self.artifact.size_bytes {
            let mut t = "artifact size mismatch: manifest ".to_owned();
            t.append(to_decimal(self.artifact.size_bytes).as_str());
            t.append(", actual ");
            t.append(to_decimal(size).as_str());
            return Err(PitError::new(ErrorKind::Integrity, t));
        }
        let actual = sha256_hex(bytes.as_slice());
        if !text_eq(actual.as_str(), self.artifact.sha256.as_str()) {
            let mut t = "artifact SHA-256 mismatch: manifest ".to_owned();
            t.append(self.artifact.sha256.as_str());
            t.append(", actual ");
            t.append(actual.as_str());
            return Err(PitError::new(ErrorKind::Integrity, t));
        }
        let format = match detect_artifact_format(path.as_str(), Some(bytes.as_slice())) {
            Ok(format) => format,
            Err(e) => {
                return Err(e);
            },
        };
        if format != self.runtime.format {
            let mut t = "artifact format mismatch: manifest ".to_owned();
            t.append(format_name(self.runtime.format));
            t.append(", actual ");
            t.append(format_name(format));
            return Err(PitError::new(ErrorKind::Integrity, t));
        }
        Ok(path)
    }
}

} // verus!
