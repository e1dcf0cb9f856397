//! What a build is asked for and what it gives.

use crate::artifact::{
    ArtifactManifest, BuildProfile, ComponentWorld, ExecutionDefaults, ManifestView, RuntimeAbi,
};
use crate::error;
use crate::error::{ErrorView, PitError};
use crate::language::{ApplicationInterface, Language};
use crate::project;
use crate::project::{clone_interface, AdapterWorkspace, WorkspaceView};
use crate::text;
use crate::text::{clone_text, or_empty};
use crate::validation;
use crate::validation::{StoredArtifact, StoredView};
use vstd::prelude::*;

verus! {

/// The tools that a builder uses.
#[derive(Debug, PartialEq, Eq)]
pub struct ToolchainInfo {
    pub name: String,
    pub version: String,
    pub compiler: Option<String>,
    pub componentizer: Option<String>,
    pub target: String,
}

/// The model of a `ToolchainInfo`.
#[verifier::ext_equal]
pub struct ToolchainView {
    pub name: Seq<char>,
    pub version: Seq<char>,
    pub compiler: Option<Seq<char>>,
    pub componentizer: Option<Seq<char>>,
    pub target: Seq<char>,
}

impl View for ToolchainInfo {
    type V = ToolchainView;

    open spec fn view(&self) -> ToolchainView {
        ToolchainView {
            name: self.name@,
            version: self.version@,
            compiler: text::option_view(self.compiler),
            componentizer: text::option_view(self.componentizer),
            target: self.target@,
        }
    }
}

/// Whether a builder takes a project.
#[derive(Debug, Clone, Copy, PartialEq, Eq, Structural)]
pub enum Detection {
    No,
    Yes,
}

/// What a build is asked for.
#[derive(Debug)]
pub struct BuildRequest {
    pub project_dir: String,
    pub bin: Option<String>,
    /// A WIT package or directory for componentizers that work on sources.
    pub wit_path: Option<String>,
    pub profile: BuildProfile,
    pub abi: RuntimeAbi,
    pub world: Option<ComponentWorld>,
    pub execution_defaults: ExecutionDefaults,
    pub force: bool,
    pub language: Option<Language>,
    pub application_interface: Option<ApplicationInterface>,
    pub entrypoint: Option<String>,
    pub adapter: Option<String>,
    pub adapter_workspace: Option<AdapterWorkspace>,
    pub raw_artifact: Option<String>,
}

/// The model of a `BuildRequest`.
#[verifier::ext_equal]
pub struct RequestView {
    pub project_dir: Seq<char>,
    pub bin: Option<Seq<char>>,
    pub wit_path: Option<Seq<char>>,
    pub profile: BuildProfile,
    pub abi: Seq<char>,
    pub world: Option<ComponentWorld>,
    pub execution_defaults: ExecutionDefaults,
    pub force: bool,
    pub language: Option<Language>,
    pub application_interface: Option<Seq<char>>,
    pub entrypoint: Option<Seq<char>>,
    pub adapter: Option<Seq<char>>,
    pub adapter_workspace: Option<WorkspaceView>,
    pub raw_artifact: Option<Seq<char>>,
}

impl View for BuildRequest {
    type V = RequestView;

    open spec fn view(&self) -> RequestView {
        RequestView {
            project_dir: self.project_dir@,
            bin: text::option_view(self.bin),
            wit_path: text::option_view(self.wit_path),
            profile: self.profile,
            abi: self.abi@,
            world: self.world,
            execution_defaults: self.execution_defaults,
            force: self.force,
            language: self.language,
            application_interface: project::interface_view(self.application_interface),
            entrypoint: text::option_view(self.entrypoint),
            adapter: text::option_view(self.adapter),
            adapter_workspace: project::workspace_view(self.adapter_workspace),
            raw_artifact: text::option_view(self.raw_artifact),
        }
    }
}

impl Clone for BuildRequest {
    fn clone(&self) -> (r: Self)
        ensures
            r@ == self@,
    {
        BuildRequest {
            project_dir: self.project_dir.clone(),
            bin: clone_text(&self.bin),
            wit_path: clone_text(&self.wit_path),
            profile: self.profile,
            abi: self.abi.clone(),
            world: self.world,
            execution_defaults: self.execution_defaults,
            force: self.force,
            language: self.language,
            application_interface: clone_interface(&self.application_interface),
            entrypoint: clone_text(&self.entrypoint),
            adapter: clone_text(&self.adapter),
            adapter_workspace: match &self.adapter_workspace {
                Some(w) => Some(w.clone()),
                None => None,
            },
            raw_artifact: clone_text(&self.raw_artifact),
        }
    }
}

/// A request with nothing selected: a release build for WASI Preview 2.
pub open spec fn plain_request(project_dir: Seq<char>) -> RequestView {
    RequestView {
        project_dir,
        bin: None,
        wit_path: None,
        profile: BuildProfile::Release,
        abi: "wasi-preview2"@,
        world: None,
        execution_defaults: ExecutionDefaults { timeout_ms: None, memory_bytes: None },
        force: false,
        language: None,
        application_interface: None,
        entrypoint: None,
        adapter: None,
        adapter_workspace: None,
        raw_artifact: None,
    }
}

/// The digest of the adapter's bridge, if there is one.
pub open spec fn workspace_digest(r: RequestView) -> Option<Seq<char>> {
    match r.adapter_workspace {
        Some(w) => Some(w.digest),
        None => None,
    }
}

/// What a request adds to the identity of a build.
pub open spec fn adaptation_material(r: RequestView) -> Seq<char> {
    "interface="@ + text::text_or_empty(r.application_interface) + ";entry="@
        + text::text_or_empty(r.entrypoint) + ";adapter="@ + text::text_or_empty(r.adapter)
        + ";adapter_digest="@ + text::text_or_empty(workspace_digest(r))
}

impl BuildRequest {
    /// A request with nothing selected.
    pub fn new(project_dir: &str) -> (r: Self)
        ensures
            r@ == plain_request(project_dir@),
    {
        BuildRequest {
            project_dir: project_dir.to_owned(),
            bin: None,
            wit_path: None,
            profile: BuildProfile::Release,
            abi: RuntimeAbi::wasi_preview2(),
            world: None,
            execution_defaults: ExecutionDefaults { timeout_ms: None, memory_bytes: None },
            force: false,
            language: None,
            application_interface: None,
            entrypoint: None,
            adapter: None,
            adapter_workspace: None,
            raw_artifact: None,
        }
    }

    /// What the request adds to the identity of a build, after what the builder
    /// knows of language and toolchain.
    pub fn adaptation_fingerprint_material(&self) -> (r: String)
        ensures
            r@ == adaptation_material(self@),
    {
        let mut t = "interface=".to_owned();
        match &self.application_interface {
            Some(i) => t.append(i.as_str()),
            None => t.append(""),
        }
        t.append(";entry=");
        t.append(or_empty(&self.entrypoint));
        t.append(";adapter=");
        t.append(or_empty(&self.adapter));
        t.append(";adapter_digest=");
        match &self.adapter_workspace {
            Some(w) => t.append(w.digest.as_str()),
            None => t.append(""),
        }
        t
    }
}

/// What a build gives.
#[derive(Debug, PartialEq, Eq)]
pub struct BuildOutput {
    pub manifest: ArtifactManifest,
    pub artifact_path: String,
    pub toolchain: ToolchainInfo,
}

/// The model of a `BuildOutput`.
pub struct OutputView {
    pub manifest: ManifestView,
    pub artifact_path: Seq<char>,
    pub toolchain: ToolchainView,
}

impl View for BuildOutput {
    type V = OutputView;

    open spec fn view(&self) -> OutputView {
        OutputView {
            manifest: self.manifest@,
            artifact_path: self.artifact_path@,
            toolchain: self.toolchain@,
        }
    }
}

/// The artifact of a build, under its older name.
pub type BuildArtifact = BuildOutput;

/// The text, or `unknown`.
pub open spec fn or_unknown(t: Option<Seq<char>>) -> Seq<char> {
    match t {
        Some(s) => s,
        None => "unknown"@,
    }
}

/// The toolchain that a manifest tells of.
pub open spec fn manifest_toolchain(m: ManifestView) -> ToolchainView {
    ToolchainView {
        name: or_unknown(m.build.toolchain),
        version: or_unknown(m.build.toolchain_version),
        compiler: None,
        componentizer: None,
        target: m.build.target,
    }
}

/// The outcome of taking an artifact that was built before.
pub open spec fn output_of(m: ManifestView, project_dir: Seq<char>, stored: StoredView) -> Result<
    OutputView,
    ErrorView,
> {
    match validation::resolved(m, project_dir, stored) {
        Ok(path) => Ok(
            OutputView { manifest: m, artifact_path: path, toolchain: manifest_toolchain(m) },
        ),
        Err(e) => Err(e),
    }
}

/// A copy of the text, or `unknown`.
fn clone_or_unknown(t: &Option<String>) -> (r: String)
    ensures
        r@ == or_unknown(text::option_view(*t)),
{
    match t {
        Some(s) => s.clone(),
        None => "unknown".to_owned(),
    }
}

impl BuildOutput {
    /// The output of a build that was made before.
    pub fn from_manifest(
        project_dir: &str,
        manifest: ArtifactManifest,
        stored: &StoredArtifact,
    ) -> (r: Result<Self, PitError>)
        ensures
            error::outcome(r) == output_of(manifest@, project_dir@, stored@),
    {
        match manifest.resolve_artifact_path(project_dir, stored) {
            Ok(artifact_path) => {
                let toolchain = ToolchainInfo {
                    name: clone_or_unknown(&manifest.build.toolchain),
                    version: clone_or_unknown(&manifest.build.toolchain_version),
                    compiler: None,
                    componentizer: None,
                    target: manifest.build.target.clone(),
                };
                Ok(BuildOutput { manifest, artifact_path, toolchain })
            },
            Err(e) => Err(e),
        }
    }
}

} // verus!
