//! The contract between orchestration and language builders, and the steps that
//! a builder's plan consists of.

use crate::artifact;
use crate::artifact::{
    ArtifactFormat, ArtifactManifest, ArtifactSpec, ArtifactSpecView, BuildProfile, BuildSpec,
    BuildSpecView, Capability, ComponentWorld, Entrypoint, ExecutionDefaults, ManifestView,
    RuntimeAbi, RuntimeSpec, RuntimeSpecView, SCHEMA_VERSION,
};
use crate::digest;
use crate::digest::sha256_hex;
use crate::error;
use crate::error::{ErrorKind, ErrorView, PitError};
use crate::language::Language;
use crate::paths;
use crate::paths::{file_name_of, path_join};
use crate::request::{BuildOutput, Detection, OutputView, ToolchainInfo, ToolchainView};
use crate::text;
use crate::text::replace;
use crate::tooling;
use crate::tooling::{CommandView, ToolCommand, ToolOutput, ToolView};
use crate::validation;
use crate::walk::{DirectoryListing, EntryKind};
use crate::wasm;
use crate::wasm::detect_artifact_format;
use vstd::prelude::*;

verus! {

/// A builder of one language. What it runs and reads, the surrounding program does.
pub trait LanguageBuilder {
    /// The model of `language`, where the builder gives one.
    open spec fn builds(&self) -> Language {
        arbitrary()
    }

    /// The model of `detect`, where the builder gives one.
    open spec fn takes(&self, listing: Seq<(Seq<char>, EntryKind)>) -> Detection {
        arbitrary()
    }

    /// The language of the projects that are built.
    fn language(&self) -> (r: Language)
        ensures
            r == self.builds(),
    ;

    /// Whether the builder takes the project whose directory has this listing.
    fn detect(&self, listing: &DirectoryListing) -> (r: Detection)
        ensures
            r == self.takes(listing@),
    ;
}

/// A builder under its older name.
pub trait BuilderAdapter: LanguageBuilder {

}

impl<T: LanguageBuilder + ?Sized> BuilderAdapter for T {

}

/// What a builder knows of the artifact before it is built.
#[derive(Debug)]
pub struct ManifestDraft {
    pub name: String,
    pub language: String,
    pub target: String,
    pub profile: BuildProfile,
    pub fingerprint: String,
    pub world: ComponentWorld,
    pub execution: ExecutionDefaults,
    pub artifact_path: String,
    pub toolchain: ToolchainInfo,
}

/// The model of a `ManifestDraft`.
#[verifier::ext_equal]
pub struct DraftView {
    pub name: Seq<char>,
    pub language: Seq<char>,
    pub target: Seq<char>,
    pub profile: BuildProfile,
    pub fingerprint: Seq<char>,
    pub world: ComponentWorld,
    pub execution: ExecutionDefaults,
    pub artifact_path: Seq<char>,
    pub toolchain: ToolchainView,
}

impl View for ManifestDraft {
    type V = DraftView;

    open spec fn view(&self) -> DraftView {
        DraftView {
            name: self.name@,
            language: self.language@,
            target: self.target@,
            profile: self.profile,
            fingerprint: self.fingerprint@,
            world: self.world,
            execution: self.execution,
            artifact_path: self.artifact_path@,
            toolchain: self.toolchain@,
        }
    }
}

/// The capabilities of built components.
pub open spec fn component_capabilities() -> Seq<Seq<char>> {
    seq!["stdio"@, "args"@, "env"@]
}

/// The manifest of a component with these contents.
pub open spec fn component_manifest(d: DraftView, contents: Seq<u8>) -> ManifestView {
    ManifestView {
        schema_version: SCHEMA_VERSION,
        artifact: ArtifactSpecView {
            name: d.name,
            path: paths::join_path("build"@, d.name + ".wasm"@),
            sha256: digest::sha256_text(contents),
            size_bytes: contents.len() as u64,
        },
        build: BuildSpecView {
            language: d.language,
            target: d.target,
            profile: d.profile,
            fingerprint: d.fingerprint,
            toolchain: Some(d.toolchain.name),
            toolchain_version: Some(d.toolchain.version),
            application_interface: None,
            adapter: None,
            adapter_digest: None,
        },
        runtime: RuntimeSpecView {
            abi: "wasi-preview2"@,
            entrypoint: artifact::world_text(d.world),
            custom: false,
            format: ArtifactFormat::Component,
            world: Some(d.world),
        },
        execution: d.execution,
        capabilities: component_capabilities(),
    }
}

/// The manifest of a component with these contents.
pub(crate) fn draft_manifest(d: &ManifestDraft, contents: &[u8]) -> (r: ArtifactManifest)
    ensures
        r@ == component_manifest(d@, contents@),
{
    let mut file = d.name.clone();
    file.append(".wasm");
    let entrypoint = match d.world {
        ComponentWorld::WasiHttpProxy => Entrypoint::WasiHttpProxy,
        ComponentWorld::WasiCliCommand => Entrypoint::wasi_preview2(),
    };
    let mut capabilities: Vec<Capability> = Vec::new();
    capabilities.push(Capability::stdio());
    capabilities.push(Capability::args());
    capabilities.push(Capability::env());
    assert(artifact::capability_names(capabilities@) =~= component_capabilities());
    ArtifactManifest {
        schema_version: SCHEMA_VERSION,
        artifact: ArtifactSpec {
            name: d.name.clone(),
            path: path_join("build", file.as_str()),
            sha256: sha256_hex(contents),
            size_bytes: contents.len() as u64,
        },
        build: BuildSpec {
            language: d.language.clone(),
            target: d.target.clone(),
            profile: d.profile,
            fingerprint: d.fingerprint.clone(),
            toolchain: Some(d.toolchain.name.clone()),
            toolchain_version: Some(d.toolchain.version.clone()),
            application_interface: None,
            adapter: None,
            adapter_digest: None,
        },
        runtime: RuntimeSpec {
            abi: RuntimeAbi::wasi_preview2(),
            entrypoint,
            format: ArtifactFormat::Component,
            world: Some(d.world),
        },
        execution: d.execution,
        capabilities,
    }
}

/// A step of a build.
#[derive(Debug)]
pub enum BuildStep {
    /// Create a directory and those above it.
    CreateDirectory(String),
    /// Run a command, which must succeed.
    Run(ToolCommand),
    /// Read `core`. If it is a component it becomes the artifact, else the
    /// command makes the artifact of it.
    Adopt { core: String, artifact: String, otherwise: ToolCommand },
    /// Read the artifact, which must be a component; if it is none, `complaint` is said.
    Collect { path: String, complaint: String },
    /// Rename a file.
    Rename { from: String, to: String },
}

/// The model of a `BuildStep`.
pub enum BuildStepView {
    CreateDirectory(Seq<char>),
    Run(CommandView),
    Adopt { core: Seq<char>, artifact: Seq<char>, otherwise: CommandView },
    Collect { path: Seq<char>, complaint: Seq<char> },
    Rename { from: Seq<char>, to: Seq<char> },
}

impl View for BuildStep {
    type V = BuildStepView;

    open spec fn view(&self) -> BuildStepView {
        match *self {
            BuildStep::CreateDirectory(path) => BuildStepView::CreateDirectory(path@),
            BuildStep::Run(command) => BuildStepView::Run(command@),
            BuildStep::Adopt { core, artifact, otherwise } => BuildStepView::Adopt {
                core: core@,
                artifact: artifact@,
                otherwise: otherwise@,
            },
            BuildStep::Collect { path, complaint } => BuildStepView::Collect {
                path: path@,
                complaint: complaint@,
            },
            BuildStep::Rename { from, to } => BuildStepView::Rename { from: from@, to: to@ },
        }
    }
}

impl Clone for BuildStep {
    fn clone(&self) -> (r: Self)
        ensures
            r@ == self@,
    {
        match self {
            BuildStep::CreateDirectory(path) => BuildStep::CreateDirectory(path.clone()),
            BuildStep::Run(command) => BuildStep::Run(command.clone()),
            BuildStep::Adopt { core, artifact, otherwise } => BuildStep::Adopt {
                core: core.clone(),
                artifact: artifact.clone(),
                otherwise: otherwise.clone(),
            },
            BuildStep::Collect { path, complaint } => BuildStep::Collect {
                path: path.clone(),
                complaint: complaint.clone(),
            },
            BuildStep::Rename { from, to } => BuildStep::Rename {
                from: from.clone(),
                to: to.clone(),
            },
        }
    }
}

/// The models of steps.
pub open spec fn build_steps_view(v: Seq<BuildStep>) -> Seq<BuildStepView> {
    v.map_values(|s: BuildStep| s@)
}

/// What came of a step.
#[derive(Debug)]
pub enum StepReply {
    /// A directory was created or a file renamed.
    Done,
    /// A directory could not be created or a file not renamed, and why.
    Failed(String),
    /// What came of a command; nothing where it could not be started.
    Command(Option<ToolOutput>),
    /// What reading a file gave.
    Contents(Option<Vec<u8>>),
}

/// The model of a `StepReply`.
pub enum StepReplyView {
    Done,
    Failed(Seq<char>),
    Command(Option<ToolView>),
    Contents(Option<Seq<u8>>),
}

impl View for StepReply {
    type V = StepReplyView;

    open spec fn view(&self) -> StepReplyView {
        match *self {
            StepReply::Done => StepReplyView::Done,
            StepReply::Failed(t) => StepReplyView::Failed(t@),
            StepReply::Command(reply) => StepReplyView::Command(tooling::reply_view(reply)),
            StepReply::Contents(contents) => StepReplyView::Contents(contents_view(contents)),
        }
    }
}

/// The bytes that reading a file gave.
pub open spec fn contents_view(contents: Option<Vec<u8>>) -> Option<Seq<u8>> {
    match contents {
        Some(b) => Some(b@),
        None => None,
    }
}

/// The bytes that reading a file gave.
pub(crate) fn borrow_contents(contents: &Option<Vec<u8>>) -> (r: Option<&[u8]>)
    ensures
        wasm::bytes_view(r) == contents_view(*contents),
{
    match contents {
        Some(b) => Some(b.as_slice()),
        None => None,
    }
}

/// A build on its way: the steps that are left, and the manifest once the
/// artifact was collected.
#[derive(Debug)]
pub struct BuildRun {
    steps: Vec<BuildStep>,
    draft: ManifestDraft,
    manifest: Option<ArtifactManifest>,
}

/// The model of a `BuildRun`.
#[verifier::ext_equal]
pub struct RunView {
    pub steps: Seq<BuildStepView>,
    pub draft: DraftView,
    pub manifest: Option<ManifestView>,
}

/// The model of an optional manifest.
pub open spec fn manifest_view(m: Option<ArtifactManifest>) -> Option<ManifestView> {
    match m {
        Some(m) => Some(m@),
        None => None,
    }
}

impl View for BuildRun {
    type V = RunView;

    closed spec fn view(&self) -> RunView {
        RunView {
            steps: build_steps_view(self.steps@),
            draft: self.draft@,
            manifest: manifest_view(self.manifest),
        }
    }
}

/// What is said of a reply that does not belong to the step.
pub open spec fn unexpected() -> ErrorView {
    error::error(ErrorKind::Host, "unexpected reply to a build step"@)
}

/// The outcome of collecting an artifact: its manifest, which must be valid.
pub open spec fn collected(
    draft: DraftView,
    path: Seq<char>,
    complaint: Seq<char>,
    contents: Option<Seq<u8>>,
) -> Result<ManifestView, ErrorView> {
    match wasm::detected_format(path, contents) {
        Err(e) => Err(e),
        Ok(ArtifactFormat::CoreModule) => Err(error::error(ErrorKind::Tool, complaint)),
        Ok(ArtifactFormat::Component) => {
            let m = component_manifest(draft, contents->0);
            match validation::violation(m) {
                Some(e) => Err(e),
                None => Ok(m),
            }
        },
    }
}

/// A build after the reply to its first step: the run that is left, or why the
/// build fails.
pub open spec fn run_after(w: RunView, reply: StepReplyView) -> Result<RunView, ErrorView> {
    let rest = w.steps.drop_first();
    match (w.steps[0], reply) {
        (_, StepReplyView::Failed(t)) => Err(error::error(ErrorKind::Host, t)),
        (BuildStepView::CreateDirectory(_), StepReplyView::Done) => Ok(
            RunView { steps: rest, ..w },
        ),
        (BuildStepView::Rename { .. }, StepReplyView::Done) => Ok(RunView { steps: rest, ..w }),
        (BuildStepView::Run(command), StepReplyView::Command(o)) => match tooling::command_outcome(
            command,
            o,
        ) {
            Ok(_) => Ok(RunView { steps: rest, ..w }),
            Err(e) => Err(e),
        },
        (
            BuildStepView::Adopt { core, artifact, otherwise },
            StepReplyView::Contents(contents),
        ) => match wasm::detected_format(core, contents) {
            Err(e) => Err(e),
            Ok(ArtifactFormat::Component) => Ok(
                RunView {
                    steps: seq![BuildStepView::Rename { from: core, to: artifact }] + rest,
                    ..w
                },
            ),
            Ok(ArtifactFormat::CoreModule) => Ok(
                RunView { steps: seq![BuildStepView::Run(otherwise)] + rest, ..w },
            ),
        },
        (
            BuildStepView::Collect { path, complaint },
            StepReplyView::Contents(contents),
        ) => match collected(w.draft, path, complaint, contents) {
            Err(e) => Err(e),
            Ok(m) => Ok(RunView { steps: rest, manifest: Some(m), ..w }),
        },
        _ => Err(unexpected()),
    }
}

/// What a build that is over gives.
pub open spec fn run_output(w: RunView) -> Option<OutputView> {
    match w.manifest {
        Some(m) => if w.steps.len() == 0 {
            Some(
                OutputView {
                    manifest: m,
                    artifact_path: w.draft.artifact_path,
                    toolchain: w.draft.toolchain,
                },
            )
        } else {
            None
        },
        None => None,
    }
}

impl BuildRun {
    /// A build that has to take these steps.
    pub(crate) fn start(steps: Vec<BuildStep>, draft: ManifestDraft) -> (r: Self)
        ensures
            r@ == (RunView {
                steps: build_steps_view(steps@),
                draft: draft@,
                manifest: None,
            }),
    {
        BuildRun { steps, draft, manifest: None }
    }

    /// The step to take next; none when the build is over.
    pub fn next(&self) -> (r: Option<BuildStep>)
        ensures
            match r {
                Some(s) => self@.steps.len() > 0 && s@ == self@.steps[0],
                None => self@.steps.len() == 0,
            },
    {
        if self.steps.len() == 0 {
            None
        } else {
            assert(self@.steps[0] == self.steps@[0]@);
            Some(self.steps[0].clone())
        }
    }

    /// Goes on with what came of the next step.
    pub fn replied(self, reply: StepReply) -> (r: Result<Self, PitError>)
        requires
            self@.steps.len() > 0,
        ensures
            error::outcome(r) == run_after(self@, reply@),
    {
        let ghost start = self@;
        let mut run = self;
        assert(start.steps[0] == run.steps@[0]@);
        let step = run.steps.remove(0);
        assert(build_steps_view(run.steps@) =~= start.steps.drop_first());
        match (step, reply) {
            (_, StepReply::Failed(t)) => Err(PitError::new(ErrorKind::Host, t)),
            (BuildStep::CreateDirectory(_), StepReply::Done) => Ok(run),
            (BuildStep::Rename { .. }, StepReply::Done) => Ok(run),
            (BuildStep::Run(command), StepReply::Command(o)) => match command.outcome(&o) {
                Ok(_) => Ok(run),
                Err(e) => Err(e),
            },
            (
                BuildStep::Adopt { core, artifact, otherwise },
                StepReply::Contents(contents),
            ) => match detect_artifact_format(core.as_str(), borrow_contents(&contents)) {
                Err(e) => Err(e),
                Ok(format) => {
                    let next = match format {
                        ArtifactFormat::Component => BuildStep::Rename { from: core, to: artifact },
                        ArtifactFormat::CoreModule => BuildStep::Run(otherwise),
                    };
                    run.steps.insert(0, next);
                    assert(build_steps_view(run.steps@) =~= seq![next@]
                        + start.steps.drop_first());
                    Ok(run)
                },
            },
            (
                BuildStep::Collect { path, complaint },
                StepReply::Contents(contents),
            ) => match detect_artifact_format(path.as_str(), borrow_contents(&contents)) {
                Err(e) => Err(e),
                Ok(ArtifactFormat::CoreModule) => Err(PitError::new(ErrorKind::Tool, complaint)),
                Ok(ArtifactFormat::Component) => match contents {
                    None => Err(
                        PitError::fixed(ErrorKind::Host, "unexpected reply to a build step"),
                    ),
                    Some(bytes) => {
                        let manifest = draft_manifest(&run.draft, bytes.as_slice());
                        match manifest.validate() {
                            Ok(_) => {
                                run.manifest = Some(manifest);
                                Ok(run)
                            },
                            Err(e) => Err(e),
                        }
                    },
                },
            },
            _ => Err(PitError::fixed(ErrorKind::Host, "unexpected reply to a build step")),
        }
    }

    /// What the build gives when it is over.
    pub fn finish(self) -> (r: Option<BuildOutput>)
        ensures
            match r {
                Some(o) => run_output(self@) == Some(o@),
                None => run_output(self@) is None,
            },
    {
        assert(self@.steps.len() == self.steps@.len());
        if self.steps.len() != 0 {
            return None;
        }
        match self.manifest {
            Some(manifest) => Some(
                BuildOutput {
                    manifest,
                    artifact_path: self.draft.artifact_path,
                    toolchain: self.draft.toolchain,
                },
            ),
            None => None,
        }
    }
}

/// Whether the manifest of a run, once there is one, is valid and carries what
/// the draft says.
pub open spec fn run_is_sound(w: RunView) -> bool {
    w.manifest matches Some(m) ==> validation::is_valid(m) && exists|contents: Seq<u8>|
        m == #[trigger] component_manifest(w.draft, contents) && wasm::header_kind(contents)
            == Some(wasm::PayloadKind::Component)
}

/// A build gives only valid manifests of components that were read, with the
/// fingerprint that it was asked for.
pub proof fn build_gives_valid_components(w: RunView, reply: StepReplyView)
    requires
        w.steps.len() > 0,
        run_is_sound(w),
        run_after(w, reply) is Ok,
    ensures
        run_is_sound(run_after(w, reply)->Ok_0),
        run_after(w, reply)->Ok_0.draft == w.draft,
{
    let next = run_after(w, reply)->Ok_0;
    if let (
        BuildStepView::Collect { path, complaint },
        StepReplyView::Contents(contents),
    ) = (w.steps[0], reply) {
        let m = component_manifest(w.draft, contents->0);
        validation::valid_iff_no_violation(m);
        assert(next.manifest == Some(m));
    }
}

/// The name of a project's artifact: the name of its directory with underscores
/// for hyphens.
pub open spec fn artifact_name(project_dir: Seq<char>, default: Seq<char>) -> Seq<char> {
    text::replaced(
        match paths::file_name(project_dir) {
            Some(name) => name,
            None => default,
        },
        seq!['-'],
        '_',
    )
}

/// The name of a project's artifact.
pub(crate) fn name_artifact(project_dir: &str, default: &str) -> (r: String)
    ensures
        r@ == artifact_name(project_dir@, default@),
{
    let dash: [char; 1] = ['-'];
    assert(dash@ =~= seq!['-']);
    match file_name_of(project_dir) {
        Some(name) => replace(name.as_str(), &dash, '_'),
        None => replace(default, &dash, '_'),
    }
}

/// The name with `.wasm` after it.
pub(crate) fn wasm_file(name: &str) -> (r: String)
    ensures
        r@ == name@ + ".wasm"@,
{
    let mut t = name.to_owned();
    t.append(".wasm");
    t
}

/// The target of a request, or that of WASI Preview 2.
pub open spec fn target_or_default(abi: Seq<char>) -> Seq<char> {
    match artifact::target_of(abi) {
        Some(t) => t,
        None => "wasm32-wasip2"@,
    }
}

/// The target of a request, or that of WASI Preview 2.
pub(crate) fn choose_target(abi: &RuntimeAbi) -> (r: String)
    ensures
        r@ == target_or_default(abi@),
{
    match abi.target() {
        Some(t) => t.to_owned(),
        None => "wasm32-wasip2".to_owned(),
    }
}

/// What a builder has to know of the file system: the entries of the project's
/// directory, and whether the paths exist that are named from outside it.
#[derive(Debug)]
pub struct BuildFacts {
    pub listing: DirectoryListing,
    /// Whether the WIT path of the request exists.
    pub request_wit_exists: bool,
    /// Whether the WIT path of the environment exists.
    pub http_wit_exists: bool,
    /// Whether the compiler of the WASI SDK is a file.
    pub compiler_exists: bool,
}

/// The world of a request, or that of HTTP.
pub open spec fn world_or_http(world: Option<ComponentWorld>) -> ComponentWorld {
    match world {
        Some(w) => w,
        None => ComponentWorld::WasiHttpProxy,
    }
}

/// The world of a request, or that of HTTP.
pub(crate) fn choose_world(world: Option<ComponentWorld>) -> (r: ComponentWorld)
    ensures
        r == world_or_http(world),
{
    match world {
        Some(w) => w,
        None => ComponentWorld::WasiHttpProxy,
    }
}

/// A directory below the project's `.pit` directory.
pub open spec fn below_pit(project_dir: Seq<char>, name: Seq<char>) -> Seq<char> {
    paths::join_path(paths::join_path(project_dir, ".pit"@), name)
}

/// A directory below the project's `.pit` directory.
pub(crate) fn pit_directory(project_dir: &str, name: &str) -> (r: String)
    ensures
        r@ == below_pit(project_dir@, name@),
{
    path_join(path_join(project_dir, ".pit").as_str(), name)
}

} // verus!
