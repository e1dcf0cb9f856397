//! A build from the request to the manifest. The session decides; what it asks
//! for, the surrounding program does, and its replies carry the session on.

use crate::adapter::{AdapterHost, AdapterPlan, ApplicationAdapter, HostView, PlanView};
use crate::artifact;
use crate::artifact::{manifest_path, ArtifactFormat, ArtifactManifest, BuildSpecView, ManifestView};
use crate::builder;
use crate::builder::{borrow_contents, LanguageBuilder};
use crate::cache;
use crate::cache::{adaptation_fingerprint, load_cached_manifest, raw_artifact_fingerprint};
use crate::crew;
use crate::crew::{CrewView, PitCrew};
use crate::error;
use crate::error::{naming_path, ErrorKind, ErrorView, PitError};
use crate::fingerprint;
use crate::fingerprint::SourceFile;
use crate::language;
use crate::language::ApplicationInterface;
use crate::paths;
use crate::paths::{path_eq, path_join};
use crate::project;
use crate::project::{
    clone_interface, CandidateView, DetectionCandidate, ProjectInspection, ProjectModel,
    ProjectView,
};
use crate::raw_artifact;
use crate::raw_artifact::{build_raw_artifact, check_raw_artifact, place_raw, place_temporary};
use crate::request;
use crate::request::{BuildArtifact, BuildOutput, BuildRequest, OutputView, RequestView};
use crate::selection;
use crate::selection::{
    choose_candidate, default_interface, find_applications, format_compatibility_error,
    model_to_build, select_application_adapter, AdapterDirectory, AdapterDirectoryView,
    SelectedAdapter, SelectedView,
};
use crate::text;
use crate::text::{clone_text, or_empty, text_eq};
use crate::validation;
use crate::validation::{StoredArtifact, StoredView};
use crate::walk::{DirectoryListing, EntryKind};
use crate::wasm;
use crate::wasm::detect_artifact_format;
use vstd::prelude::*;

verus! {

/// What a build gives, and whether that was built before.
#[derive(Debug)]
pub struct BuildOutcome {
    pub artifact: BuildArtifact,
    pub reused: bool,
}

/// What a session asks for.
#[derive(Debug)]
pub enum BuildAction<'a, B> {
    /// Where a path really leads.
    Resolve(String),
    /// Whether a path is a directory.
    IsDirectory(String),
    /// The contents of a file.
    Read(String),
    /// What there is to know of a project.
    Discover(String),
    /// What there is to know of the directory of a local adapter, if it is one.
    OpenAdapter(String),
    /// Prepare a bridge; the reply is the files that identify it.
    Prepare(AdapterPlan),
    /// The builder's own identity of a build.
    Fingerprint { builder: &'a B, request: BuildRequest },
    /// Build.
    Build { builder: &'a B, request: BuildRequest, fingerprint: String },
    /// What the file system says of an artifact.
    Inspect { pit_root: String, path: String },
    /// Write a manifest in one go.
    Write { manifest: ArtifactManifest, path: String },
    /// Create a directory and those above it.
    CreateDirectory(String),
    /// Copy a file.
    Copy { from: String, to: String },
    /// Rename a file.
    Rename { from: String, to: String },
}

/// The model of a `BuildAction`.
pub enum ActionView<B> {
    Resolve(Seq<char>),
    IsDirectory(Seq<char>),
    Read(Seq<char>),
    Discover(Seq<char>),
    OpenAdapter(Seq<char>),
    Prepare(PlanView),
    Fingerprint { builder: B, request: RequestView },
    Build { builder: B, request: RequestView, fingerprint: Seq<char> },
    Inspect { pit_root: Seq<char>, path: Seq<char> },
    Write { manifest: ManifestView, path: Seq<char> },
    CreateDirectory(Seq<char>),
    Copy { from: Seq<char>, to: Seq<char> },
    Rename { from: Seq<char>, to: Seq<char> },
}

impl<'a, B> View for BuildAction<'a, B> {
    type V = ActionView<B>;

    open spec fn view(&self) -> ActionView<B> {
        match *self {
            BuildAction::Resolve(p) => ActionView::Resolve(p@),
            BuildAction::IsDirectory(p) => ActionView::IsDirectory(p@),
            BuildAction::Read(p) => ActionView::Read(p@),
            BuildAction::Discover(p) => ActionView::Discover(p@),
            BuildAction::OpenAdapter(p) => ActionView::OpenAdapter(p@),
            BuildAction::Prepare(plan) => ActionView::Prepare(plan@),
            BuildAction::Fingerprint { builder, request } => ActionView::Fingerprint {
                builder: *builder,
                request: request@,
            },
            BuildAction::Build { builder, request, fingerprint } => ActionView::Build {
                builder: *builder,
                request: request@,
                fingerprint: fingerprint@,
            },
            BuildAction::Inspect { pit_root, path } => ActionView::Inspect {
                pit_root: pit_root@,
                path: path@,
            },
            BuildAction::Write { manifest, path } => ActionView::Write {
                manifest: manifest@,
                path: path@,
            },
            BuildAction::CreateDirectory(p) => ActionView::CreateDirectory(p@),
            BuildAction::Copy { from, to } => ActionView::Copy { from: from@, to: to@ },
            BuildAction::Rename { from, to } => ActionView::Rename { from: from@, to: to@ },
        }
    }
}

/// The reply to what a session asked for.
pub enum BuildReply {
    Path(Option<String>),
    Answer(bool),
    Contents(Option<Vec<u8>>),
    Project { listing: DirectoryListing, project: ProjectInspection, host: AdapterHost },
    Adapter(Option<AdapterDirectory>),
    Prepared(Vec<SourceFile>),
    Fingerprint(String),
    Built(BuildOutput),
    Stored(StoredArtifact),
    Done,
    Failed(PitError),
}

/// The model of a `BuildReply`.
pub enum ReplyView {
    Path(Option<Seq<char>>),
    Answer(bool),
    Contents(Option<Seq<u8>>),
    Project { listing: Seq<(Seq<char>, EntryKind)>, project: ProjectView, host: HostView },
    Adapter(Option<AdapterDirectoryView>),
    Prepared(Seq<(Seq<char>, Seq<u8>)>),
    Fingerprint(Seq<char>),
    Built(OutputView),
    Stored(StoredView),
    Done,
    Failed(ErrorView),
}

impl View for BuildReply {
    type V = ReplyView;

    open spec fn view(&self) -> ReplyView {
        match *self {
            BuildReply::Path(p) => ReplyView::Path(text::option_view(p)),
            BuildReply::Answer(b) => ReplyView::Answer(b),
            BuildReply::Contents(c) => ReplyView::Contents(builder::contents_view(c)),
            BuildReply::Project { listing, project, host } => ReplyView::Project {
                listing: listing@,
                project: project@,
                host: host@,
            },
            BuildReply::Adapter(d) => ReplyView::Adapter(selection::directory_view(d)),
            BuildReply::Prepared(files) => ReplyView::Prepared(fingerprint::files_view(files@)),
            BuildReply::Fingerprint(t) => ReplyView::Fingerprint(t@),
            BuildReply::Built(o) => ReplyView::Built(o@),
            BuildReply::Stored(s) => ReplyView::Stored(s@),
            BuildReply::Done => ReplyView::Done,
            BuildReply::Failed(e) => ReplyView::Failed(e@),
        }
    }
}

/// What there is to build where nothing can be reused.
enum Work<'a, B> {
    Source(&'a B),
    Raw(ArtifactFormat),
}

/// The model of what there is to build.
pub enum WorkView<B> {
    Source(B),
    Raw(ArtifactFormat),
}

impl<'a, B> View for Work<'a, B> {
    type V = WorkView<B>;

    closed spec fn view(&self) -> WorkView<B> {
        match *self {
            Work::Source(b) => WorkView::Source(*b),
            Work::Raw(format) => WorkView::Raw(format),
        }
    }
}

/// Where a session stands.
enum Stage<'a, B, A> {
    Locate,
    Directory,
    LocateRaw,
    ReadRaw,
    Discover,
    Open {
        builder: &'a B,
        candidate: Option<DetectionCandidate>,
        project: ProjectInspection,
        host: AdapterHost,
    },
    Prepare {
        builder: &'a B,
        selected: SelectedAdapter<'a, A>,
        project: ProjectInspection,
        host: AdapterHost,
        model: ProjectModel,
    },
    Fingerprint { builder: &'a B },
    Look { work: Work<'a, B>, fingerprint: String },
    Check { work: Work<'a, B>, fingerprint: String, manifest: ArtifactManifest },
    Renew { manifest: ArtifactManifest },
    Reopen { manifest: ArtifactManifest },
    Build { builder: &'a B, fingerprint: String },
    RawDirectory { format: ArtifactFormat, fingerprint: String },
    RawCopy { format: ArtifactFormat, fingerprint: String },
    RawRename { format: ArtifactFormat, fingerprint: String },
    RawCollect { format: ArtifactFormat, fingerprint: String },
    Confirm { output: BuildOutput },
    Record { output: BuildOutput },
    Finished { output: BuildOutput, reused: bool },
}

/// The model of where a session stands.
pub enum StageView<B, A> {
    /// The project's directory is looked up.
    Locate,
    /// The project's directory must be one.
    Directory,
    /// The provided artifact is looked up.
    LocateRaw,
    /// The provided artifact is read.
    ReadRaw,
    /// The project is inspected.
    Discover,
    /// A local adapter is looked for.
    Open {
        builder: B,
        candidate: Option<CandidateView>,
        project: ProjectView,
        host: HostView,
    },
    /// The bridge is prepared.
    Prepare {
        builder: B,
        selected: SelectedView<A>,
        project: ProjectView,
        host: HostView,
        model: CandidateView,
    },
    /// The builder identifies the build.
    Fingerprint { builder: B },
    /// The manifest of an earlier build is looked for.
    Look { work: WorkView<B>, fingerprint: Seq<char> },
    /// The earlier artifact is held against its manifest.
    Check { work: WorkView<B>, fingerprint: Seq<char>, manifest: ManifestView },
    /// The manifest of the earlier build is written anew.
    Renew { manifest: ManifestView },
    /// The earlier artifact is taken over.
    Reopen { manifest: ManifestView },
    /// The builder builds.
    Build { builder: B, fingerprint: Seq<char> },
    /// The directory of the provided artifact is made.
    RawDirectory { format: ArtifactFormat, fingerprint: Seq<char> },
    /// The provided artifact is copied.
    RawCopy { format: ArtifactFormat, fingerprint: Seq<char> },
    /// The copy is renamed.
    RawRename { format: ArtifactFormat, fingerprint: Seq<char> },
    /// The copy is read.
    RawCollect { format: ArtifactFormat, fingerprint: Seq<char> },
    /// The artifact is held against its manifest.
    Confirm { output: OutputView },
    /// The manifest is written.
    Record { output: OutputView },
    /// The build is over.
    Finished { output: OutputView, reused: bool },
}

impl<'a, B, A> View for Stage<'a, B, A> {
    type V = StageView<B, A>;

    closed spec fn view(&self) -> StageView<B, A> {
        match *self {
            Stage::Locate => StageView::Locate,
            Stage::Directory => StageView::Directory,
            Stage::LocateRaw => StageView::LocateRaw,
            Stage::ReadRaw => StageView::ReadRaw,
            Stage::Discover => StageView::Discover,
            Stage::Open { builder, candidate, project, host } => StageView::Open {
                builder: *builder,
                candidate: project::candidate_view(candidate),
                project: project@,
                host: host@,
            },
            Stage::Prepare { builder, selected, project, host, model } => StageView::Prepare {
                builder: *builder,
                selected: selected@,
                project: project@,
                host: host@,
                model: model@,
            },
            Stage::Fingerprint { builder } => StageView::Fingerprint { builder: *builder },
            Stage::Look { work, fingerprint } => StageView::Look {
                work: work@,
                fingerprint: fingerprint@,
            },
            Stage::Check { work, fingerprint, manifest } => StageView::Check {
                work: work@,
                fingerprint: fingerprint@,
                manifest: manifest@,
            },
            Stage::Renew { manifest } => StageView::Renew { manifest: manifest@ },
            Stage::Reopen { manifest } => StageView::Reopen { manifest: manifest@ },
            Stage::Build { builder, fingerprint } => StageView::Build {
                builder: *builder,
                fingerprint: fingerprint@,
            },
            Stage::RawDirectory { format, fingerprint } => StageView::RawDirectory {
                format,
                fingerprint: fingerprint@,
            },
            Stage::RawCopy { format, fingerprint } => StageView::RawCopy {
                format,
                fingerprint: fingerprint@,
            },
            Stage::RawRename { format, fingerprint } => StageView::RawRename {
                format,
                fingerprint: fingerprint@,
            },
            Stage::RawCollect { format, fingerprint } => StageView::RawCollect {
                format,
                fingerprint: fingerprint@,
            },
            Stage::Confirm { output } => StageView::Confirm { output: output@ },
            Stage::Record { output } => StageView::Record { output: output@ },
            Stage::Finished { output, reused } => StageView::Finished { output: output@, reused },
        }
    }
}

/// What a build works with, wherever it stands.
struct BuildContext<'a, B, A> {
    crew: &'a PitCrew<B, A>,
    request: BuildRequest,
    process: u32,
}

/// The model of what a build works with.
pub struct ContextView<B, A> {
    pub crew: CrewView<B, A>,
    pub request: RequestView,
    pub process: u32,
}

impl<'a, B, A> View for BuildContext<'a, B, A> {
    type V = ContextView<B, A>;

    closed spec fn view(&self) -> ContextView<B, A> {
        ContextView { crew: self.crew@, request: self.request@, process: self.process }
    }
}

/// A build on its way.
pub struct BuildSession<'a, B, A> {
    context: BuildContext<'a, B, A>,
    stage: Stage<'a, B, A>,
}

/// The model of a `BuildSession`.
pub struct SessionView<B, A> {
    pub context: ContextView<B, A>,
    pub stage: StageView<B, A>,
}

impl<'a, B, A> View for BuildSession<'a, B, A> {
    type V = SessionView<B, A>;

    closed spec fn view(&self) -> SessionView<B, A> {
        SessionView { context: self.context@, stage: self.stage@ }
    }
}

/// The question about the artifact of a manifest.
pub open spec fn inspection<B>(r: RequestView, m: ManifestView) -> ActionView<B> {
    ActionView::Inspect {
        pit_root: validation::pit_dir(r.project_dir),
        path: validation::artifact_place(m, r.project_dir),
    }
}

/// What a session asks for; nothing when the build is over.
pub open spec fn asks<B: LanguageBuilder, A: ApplicationAdapter>(w: SessionView<B, A>) -> Option<
    ActionView<B>,
> {
    let r = w.context.request;
    match w.stage {
        StageView::Locate => Some(ActionView::Resolve(r.project_dir)),
        StageView::Directory => Some(ActionView::IsDirectory(r.project_dir)),
        StageView::LocateRaw => Some(ActionView::Resolve(text::text_or_empty(r.raw_artifact))),
        StageView::ReadRaw => Some(ActionView::Read(text::text_or_empty(r.raw_artifact))),
        StageView::Discover => Some(ActionView::Discover(r.project_dir)),
        StageView::Open { .. } => Some(ActionView::OpenAdapter(selection::adapter_place(r))),
        StageView::Prepare { builder, selected, project, host, model } => match selected.planned(
            project,
            model,
            host,
        ) {
            Ok(plan) => Some(ActionView::Prepare(plan)),
            Err(_) => None,
        },
        StageView::Fingerprint { builder } => Some(
            ActionView::Fingerprint { builder, request: r },
        ),
        StageView::Look { .. } => Some(
            ActionView::Read(artifact::manifest_location(r.project_dir)),
        ),
        StageView::Check { work, fingerprint, manifest } => Some(inspection(r, manifest)),
        StageView::Renew { manifest } => Some(
            ActionView::Write { manifest, path: artifact::manifest_location(r.project_dir) },
        ),
        StageView::Reopen { manifest } => Some(inspection(r, manifest)),
        StageView::Build { builder, fingerprint } => Some(
            ActionView::Build { builder, request: r, fingerprint },
        ),
        StageView::RawDirectory { .. } => Some(
            ActionView::CreateDirectory(raw_artifact::raw_directory(r.project_dir)),
        ),
        StageView::RawCopy { .. } => Some(
            ActionView::Copy {
                from: text::text_or_empty(r.raw_artifact),
                to: raw_artifact::raw_temporary(r.project_dir, w.context.process),
            },
        ),
        StageView::RawRename { .. } => Some(
            ActionView::Rename {
                from: raw_artifact::raw_temporary(r.project_dir, w.context.process),
                to: raw_artifact::raw_place(r.project_dir),
            },
        ),
        StageView::RawCollect { .. } => Some(
            ActionView::Read(raw_artifact::raw_place(r.project_dir)),
        ),
        StageView::Confirm { output } => Some(inspection(r, output.manifest)),
        StageView::Record { output } => Some(
            ActionView::Write {
                manifest: output.manifest,
                path: artifact::manifest_location(r.project_dir),
            },
        ),
        StageView::Finished { .. } => None,
    }
}

/// What is said of a reply that does not belong to the question.
pub open spec fn unexpected() -> ErrorView {
    error::error(ErrorKind::Host, "unexpected reply to a build step"@)
}

/// The stage in which nothing can be reused.
pub open spec fn fresh<B, A>(work: WorkView<B>, fingerprint: Seq<char>) -> StageView<B, A> {
    match work {
        WorkView::Source(builder) => StageView::Build { builder, fingerprint },
        WorkView::Raw(format) => StageView::RawDirectory { format, fingerprint },
    }
}

/// The stage in which the identity of a build is known: an earlier build is looked
/// for, unless the request forces a new one.
pub open spec fn identified<B, A>(
    r: RequestView,
    work: WorkView<B>,
    fingerprint: Seq<char>,
) -> StageView<B, A> {
    if r.force {
        fresh(work, fingerprint)
    } else {
        StageView::Look { work, fingerprint }
    }
}

/// The request for a provided artifact whose format is known.
pub open spec fn raw_request(r: RequestView, format: ArtifactFormat) -> RequestView {
    match r.application_interface {
        Some(_) => r,
        None => RequestView {
            application_interface: Some(raw_artifact::raw_interface(format)),
            ..r
        },
    }
}

/// The request after an application was chosen for an adapter.
pub open spec fn adapted_request(
    r: RequestView,
    model: CandidateView,
    id: Seq<char>,
) -> RequestView {
    RequestView {
        application_interface: model.application_interface,
        entrypoint: model.entrypoint,
        adapter: Some(id),
        ..r
    }
}

/// The request of a build without an adapter.
pub open spec fn plain_interface(r: RequestView) -> RequestView {
    match r.application_interface {
        Some(_) => r,
        None => RequestView {
            application_interface: Some(selection::interface_of_world(r.world)),
            ..r
        },
    }
}

/// A session after its adapter was selected.
pub open spec fn adapted<B: LanguageBuilder, A: ApplicationAdapter>(
    c: ContextView<B, A>,
    builder: B,
    candidate: Option<CandidateView>,
    project: ProjectView,
    host: HostView,
    selected: Option<SelectedView<A>>,
) -> Result<SessionView<B, A>, ErrorView> {
    match selected {
        None => Ok(
            SessionView {
                context: ContextView { request: plain_interface(c.request), ..c },
                stage: StageView::Fingerprint { builder },
            },
        ),
        Some(s) => {
            let model = selection::built_model(c.request, candidate, builder.builds(), s);
            match s.inspected(project, model) {
                Err(e) => Err(e),
                Ok(report) => if project::any_blocks(report.findings) {
                    Err(
                        error::error(
                            ErrorKind::Compatibility,
                            selection::compatibility_text(report),
                        ),
                    )
                } else {
                    match s.planned(project, model, host) {
                        Err(e) => Err(e),
                        Ok(_) => Ok(
                            SessionView {
                                context: ContextView {
                                    request: adapted_request(c.request, model, s.id()),
                                    ..c
                                },
                                stage: StageView::Prepare {
                                    builder,
                                    selected: s,
                                    project,
                                    host,
                                    model,
                                },
                            },
                        ),
                    }
                },
            }
        },
    }
}

/// A session after its project was inspected.
pub open spec fn discovered<B: LanguageBuilder, A: ApplicationAdapter>(
    c: ContextView<B, A>,
    listing: Seq<(Seq<char>, EntryKind)>,
    project: ProjectView,
    host: HostView,
) -> Result<SessionView<B, A>, ErrorView> {
    let r = c.request;
    match crew::chosen_builder(c.crew.builders, r.project_dir, listing, r.language) {
        Err(e) => Err(e),
        Ok(builder) => match selection::chosen_candidate(
            r.application_interface,
            selection::found_by(c.crew.adapters, project, r.language),
        ) {
            Err(e) => Err(e),
            Ok(candidate) => match r.adapter {
                Some(_) => Ok(
                    SessionView {
                        context: c,
                        stage: StageView::Open { builder, candidate, project, host },
                    },
                ),
                None => match selection::selected(c.crew.adapters, r, candidate, None) {
                    Err(e) => Err(e),
                    Ok(s) => adapted(c, builder, candidate, project, host, s),
                },
            },
        },
    }
}

/// The manifest of a build with what the request says of interface and adapter.
pub open spec fn patched(m: ManifestView, r: RequestView) -> ManifestView {
    ManifestView {
        build: BuildSpecView {
            application_interface: r.application_interface,
            adapter: r.adapter,
            adapter_digest: request::workspace_digest(r),
            ..m.build
        },
        ..m
    }
}

/// A session after its builder built.
pub open spec fn built<B, A>(
    c: ContextView<B, A>,
    fingerprint: Seq<char>,
    output: OutputView,
) -> Result<SessionView<B, A>, ErrorView> {
    let m = patched(output.manifest, c.request);
    match validation::violation(m) {
        Some(e) => Err(e),
        None => if m.build.fingerprint != fingerprint {
            Err(
                error::error(
                    ErrorKind::Integrity,
                    "builder returned an artifact with a mismatched build fingerprint"@,
                ),
            )
        } else {
            Ok(
                SessionView {
                    context: c,
                    stage: StageView::Confirm { output: OutputView { manifest: m, ..output } },
                },
            )
        },
    }
}

/// A session after the provided artifact stands at its place.
pub open spec fn placed<B, A>(
    c: ContextView<B, A>,
    format: ArtifactFormat,
    fingerprint: Seq<char>,
) -> Result<SessionView<B, A>, ErrorView> {
    match raw_artifact::raw_checked(c.request, format) {
        Err(e) => Err(e),
        Ok(_) => Ok(SessionView {
            context: c,
            stage: StageView::RawCollect { format, fingerprint },
        }),
    }
}

/// The session after the project's directory was looked up.
pub open spec fn after_locate<B, A>(
    c: ContextView<B, A>,
    reply: ReplyView,
) -> Result<SessionView<B, A>, ErrorView> {
    match reply {
        ReplyView::Path(Some(project_dir)) => Ok(
            SessionView {
                context: ContextView { request: RequestView { project_dir, ..c.request }, ..c },
                stage: StageView::Directory,
            },
        ),
        ReplyView::Path(None) => Err(
            error::error(
                ErrorKind::Host,
                "failed to access project directory "@ + c.request.project_dir,
            ),
        ),
        _ => Err(unexpected()),
    }
}

/// The session after the project's directory was found to be one, or not.
pub open spec fn after_directory<B, A>(
    c: ContextView<B, A>,
    reply: ReplyView,
) -> Result<SessionView<B, A>, ErrorView> {
    match reply {
        ReplyView::Answer(yes) => if yes {
            Ok(
                SessionView {
                    context: c,
                    stage: if c.request.raw_artifact is Some {
                        StageView::LocateRaw
                    } else {
                        StageView::Discover
                    },
                },
            )
        } else {
            Err(
                error::error(
                    ErrorKind::Host,
                    "project directory is not a directory: "@ + c.request.project_dir,
                ),
            )
        },
        _ => Err(unexpected()),
    }
}

/// The session after the provided artifact was looked up.
pub open spec fn after_locate_raw<B, A>(
    c: ContextView<B, A>,
    reply: ReplyView,
) -> Result<SessionView<B, A>, ErrorView> {
    match reply {
        ReplyView::Path(Some(path)) => Ok(
            SessionView {
                context: ContextView {
                    request: RequestView { raw_artifact: Some(path), ..c.request },
                    ..c
                },
                stage: StageView::ReadRaw,
            },
        ),
        ReplyView::Path(None) => Err(
            error::error(
                ErrorKind::Host,
                "failed to access raw WASM artifact "@ + text::text_or_empty(
                    c.request.raw_artifact,
                ),
            ),
        ),
        _ => Err(unexpected()),
    }
}

/// The session after the provided artifact was read.
pub open spec fn after_read_raw<B, A>(
    c: ContextView<B, A>,
    reply: ReplyView,
) -> Result<SessionView<B, A>, ErrorView> {
    match reply {
        ReplyView::Contents(contents) => match wasm::detected_format(
            text::text_or_empty(c.request.raw_artifact),
            contents,
        ) {
            Err(e) => Err(e),
            Ok(format) => {
                let request = raw_request(c.request, format);
                Ok(
                    SessionView {
                        context: ContextView { request, ..c },
                        stage: identified(
                            request,
                            WorkView::Raw(format),
                            cache::raw_fingerprint(request, format, contents->0),
                        ),
                    },
                )
            },
        },
        _ => Err(unexpected()),
    }
}

/// The session after the project was inspected.
#[verifier::opaque]
pub open spec fn after_discover<B: LanguageBuilder, A: ApplicationAdapter>(
    c: ContextView<B, A>,
    reply: ReplyView,
) -> Result<SessionView<B, A>, ErrorView> {
    match reply {
        ReplyView::Project { listing, project, host } => discovered(c, listing, project, host),
        _ => Err(unexpected()),
    }
}

/// The session after a local adapter was looked for.
#[verifier::opaque]
pub open spec fn after_open<B: LanguageBuilder, A: ApplicationAdapter>(
    c: ContextView<B, A>,
    builder: B,
    candidate: Option<CandidateView>,
    project: ProjectView,
    host: HostView,
    reply: ReplyView,
) -> Result<SessionView<B, A>, ErrorView> {
    match reply {
        ReplyView::Adapter(directory) => match selection::selected(
            c.crew.adapters,
            c.request,
            candidate,
            directory,
        ) {
            Err(e) => Err(e),
            Ok(s) => adapted(c, builder, candidate, project, host, s),
        },
        _ => Err(unexpected()),
    }
}

/// The session after the bridge was prepared.
pub open spec fn after_prepare<B: LanguageBuilder, A: ApplicationAdapter>(
    c: ContextView<B, A>,
    builder: B,
    selected: SelectedView<A>,
    project: ProjectView,
    host: HostView,
    model: CandidateView,
    reply: ReplyView,
) -> Result<SessionView<B, A>, ErrorView> {
    match reply {
        ReplyView::Prepared(files) => match selected.completed(project, model, host, files) {
            Err(e) => Err(e),
            Ok((workspace, _)) => Ok(
                SessionView {
                    context: ContextView {
                        request: RequestView { adapter_workspace: Some(workspace), ..c.request },
                        ..c
                    },
                    stage: StageView::Fingerprint { builder },
                },
            ),
        },
        _ => Err(unexpected()),
    }
}

/// The session after the builder identified the build.
pub open spec fn after_fingerprint<B, A>(
    c: ContextView<B, A>,
    builder: B,
    reply: ReplyView,
) -> Result<SessionView<B, A>, ErrorView> {
    match reply {
        ReplyView::Fingerprint(t) => Ok(
            SessionView {
                context: c,
                stage: identified(
                    c.request,
                    WorkView::Source(builder),
                    cache::adapted_fingerprint(t, c.request),
                ),
            },
        ),
        _ => Err(unexpected()),
    }
}

/// The session after the manifest of an earlier build was looked for.
pub open spec fn looked<B, A>(
    c: ContextView<B, A>,
    work: WorkView<B>,
    fingerprint: Seq<char>,
    contents: Option<Seq<u8>>,
) -> SessionView<B, A> {
    SessionView {
        context: c,
        stage: match cache::cached_manifest(c.request, fingerprint, contents) {
            Some(manifest) => StageView::Check { work, fingerprint, manifest },
            None => fresh(work, fingerprint),
        },
    }
}

/// The session after an earlier artifact was held against its manifest.
pub open spec fn rechecked<B, A>(
    c: ContextView<B, A>,
    work: WorkView<B>,
    fingerprint: Seq<char>,
    manifest: ManifestView,
    stored: StoredView,
) -> SessionView<B, A> {
    SessionView {
        context: c,
        stage: match validation::verified(manifest, c.request.project_dir, stored) {
            Ok(_) => StageView::Renew {
                manifest: ManifestView { execution: c.request.execution_defaults, ..manifest },
            },
            Err(_) => fresh(work, fingerprint),
        },
    }
}

/// The session after an earlier artifact was taken over.
pub open spec fn reopened<B, A>(
    c: ContextView<B, A>,
    manifest: ManifestView,
    stored: StoredView,
) -> Result<SessionView<B, A>, ErrorView> {
    match request::output_of(manifest, c.request.project_dir, stored) {
        Err(e) => Err(e),
        Ok(output) => Ok(
            SessionView { context: c, stage: StageView::Finished { output, reused: true } },
        ),
    }
}

/// The session after a reply about the manifest of an earlier build.
#[verifier::opaque]
pub open spec fn after_look<B, A>(
    c: ContextView<B, A>,
    work: WorkView<B>,
    fingerprint: Seq<char>,
    reply: ReplyView,
) -> Result<SessionView<B, A>, ErrorView> {
    match reply {
        ReplyView::Contents(contents) => Ok(looked(c, work, fingerprint, contents)),
        _ => Err(unexpected()),
    }
}

/// The session after a reply about an earlier artifact.
#[verifier::opaque]
pub open spec fn after_check<B, A>(
    c: ContextView<B, A>,
    work: WorkView<B>,
    fingerprint: Seq<char>,
    manifest: ManifestView,
    reply: ReplyView,
) -> Result<SessionView<B, A>, ErrorView> {
    match reply {
        ReplyView::Stored(s) => Ok(rechecked(c, work, fingerprint, manifest, s)),
        _ => Err(unexpected()),
    }
}

/// The session after a step without a result was taken: in `stage`.
pub open spec fn after_done<B, A>(
    c: ContextView<B, A>,
    stage: StageView<B, A>,
    reply: ReplyView,
) -> Result<SessionView<B, A>, ErrorView> {
    match reply {
        ReplyView::Done => Ok(SessionView { context: c, stage }),
        _ => Err(unexpected()),
    }
}

/// The session after a reply about an artifact that is taken over.
#[verifier::opaque]
pub open spec fn after_reopen<B, A>(
    c: ContextView<B, A>,
    manifest: ManifestView,
    reply: ReplyView,
) -> Result<SessionView<B, A>, ErrorView> {
    match reply {
        ReplyView::Stored(s) => reopened(c, manifest, s),
        _ => Err(unexpected()),
    }
}

/// The session after the builder replied.
#[verifier::opaque]
pub open spec fn after_build<B, A>(
    c: ContextView<B, A>,
    fingerprint: Seq<char>,
    reply: ReplyView,
) -> Result<SessionView<B, A>, ErrorView> {
    match reply {
        ReplyView::Built(output) => built(c, fingerprint, output),
        _ => Err(unexpected()),
    }
}

/// The session after the directory of the provided artifact was made.
pub open spec fn after_raw_directory<B, A>(
    c: ContextView<B, A>,
    format: ArtifactFormat,
    fingerprint: Seq<char>,
    reply: ReplyView,
) -> Result<SessionView<B, A>, ErrorView> {
    match reply {
        ReplyView::Done => if paths::same_path(
            text::text_or_empty(c.request.raw_artifact),
            raw_artifact::raw_place(c.request.project_dir),
        ) {
            placed(c, format, fingerprint)
        } else {
            Ok(SessionView { context: c, stage: StageView::RawCopy { format, fingerprint } })
        },
        _ => Err(unexpected()),
    }
}

/// The session after the copy was renamed.
pub open spec fn after_raw_rename<B, A>(
    c: ContextView<B, A>,
    format: ArtifactFormat,
    fingerprint: Seq<char>,
    reply: ReplyView,
) -> Result<SessionView<B, A>, ErrorView> {
    match reply {
        ReplyView::Done => placed(c, format, fingerprint),
        _ => Err(unexpected()),
    }
}

/// The session after the copy was read.
#[verifier::opaque]
pub open spec fn after_raw_collect<B, A>(
    c: ContextView<B, A>,
    format: ArtifactFormat,
    fingerprint: Seq<char>,
    reply: ReplyView,
) -> Result<SessionView<B, A>, ErrorView> {
    match reply {
        ReplyView::Contents(Some(bytes)) => {
            let output = raw_artifact::raw_output(c.request, format, fingerprint, bytes);
            match validation::violation(output.manifest) {
                Some(e) => Err(e),
                None => Ok(SessionView { context: c, stage: StageView::Confirm { output } }),
            }
        },
        ReplyView::Contents(None) => Err(
            error::error(
                ErrorKind::Host,
                "failed to read "@ + raw_artifact::raw_place(c.request.project_dir),
            ),
        ),
        _ => Err(unexpected()),
    }
}

/// The session after the artifact was held against its manifest.
#[verifier::opaque]
pub open spec fn after_confirm<B, A>(
    c: ContextView<B, A>,
    output: OutputView,
    reply: ReplyView,
) -> Result<SessionView<B, A>, ErrorView> {
    match reply {
        ReplyView::Stored(s) => match validation::verified(
            output.manifest,
            c.request.project_dir,
            s,
        ) {
            Err(e) => Err(e),
            Ok(_) => Ok(SessionView { context: c, stage: StageView::Record { output } }),
        },
        _ => Err(unexpected()),
    }
}

/// Why a build fails where what was asked for could not be done.
pub open spec fn failure<B: LanguageBuilder, A>(stage: StageView<B, A>, e: ErrorView) -> ErrorView {
    match stage {
        StageView::Fingerprint { builder } => error::error(
            ErrorKind::Tool,
            language::language_text(builder.builds()) + " build fingerprint failed"@,
        ),
        StageView::Build { builder, fingerprint } => error::error(
            ErrorKind::Tool,
            language::language_text(builder.builds()) + " build failed"@,
        ),
        _ => e,
    }
}

/// The session after a reply, or why the build fails.
pub open spec fn after<B: LanguageBuilder, A: ApplicationAdapter>(
    w: SessionView<B, A>,
    reply: ReplyView,
) -> Result<SessionView<B, A>, ErrorView> {
    match reply {
        ReplyView::Failed(e) => Err(failure(w.stage, e)),
        _ => match w.stage {
            StageView::Locate => after_locate(w.context, reply),
            StageView::Directory => after_directory(w.context, reply),
            StageView::LocateRaw => after_locate_raw(w.context, reply),
            StageView::ReadRaw => after_read_raw(w.context, reply),
            StageView::Discover => after_discover(w.context, reply),
            StageView::Open { builder, candidate, project, host } => after_open(
                w.context,
                builder,
                candidate,
                project,
                host,
                reply,
            ),
            StageView::Prepare { builder, selected, project, host, model } => after_prepare(
                w.context,
                builder,
                selected,
                project,
                host,
                model,
                reply,
            ),
            StageView::Fingerprint { builder } => after_fingerprint(w.context, builder, reply),
            StageView::Look { work, fingerprint } => after_look(
                w.context,
                work,
                fingerprint,
                reply,
            ),
            StageView::Check { work, fingerprint, manifest } => after_check(
                w.context,
                work,
                fingerprint,
                manifest,
                reply,
            ),
            StageView::Renew { manifest } => after_done(
                w.context,
                StageView::Reopen { manifest },
                reply,
            ),
            StageView::Reopen { manifest } => after_reopen(w.context, manifest, reply),
            StageView::Build { builder, fingerprint } => after_build(w.context, fingerprint, reply),
            StageView::RawDirectory { format, fingerprint } => after_raw_directory(
                w.context,
                format,
                fingerprint,
                reply,
            ),
            StageView::RawCopy { format, fingerprint } => after_done(
                w.context,
                StageView::RawRename { format, fingerprint },
                reply,
            ),
            StageView::RawRename { format, fingerprint } => after_raw_rename(
                w.context,
                format,
                fingerprint,
                reply,
            ),
            StageView::RawCollect { format, fingerprint } => after_raw_collect(
                w.context,
                format,
                fingerprint,
                reply,
            ),
            StageView::Confirm { output } => after_confirm(w.context, output, reply),
            StageView::Record { output } => after_done(
                w.context,
                StageView::Finished { output, reused: false },
                reply,
            ),
            StageView::Finished { .. } => Err(unexpected()),
        },
    }
}

/// What is said of a reply that does not belong to the question.
fn unexpected_reply() -> (e: PitError)
    ensures
        e@ == unexpected(),
{
    PitError::fixed(ErrorKind::Host, "unexpected reply to a build step")
}

/// The stage in which nothing can be reused.
fn start_over<'a, B, A>(work: Work<'a, B>, fingerprint: String) -> (r: Stage<'a, B, A>)
    ensures
        r@ == fresh::<B, A>(work@, fingerprint@),
{
    match work {
        Work::Source(builder) => Stage::Build { builder, fingerprint },
        Work::Raw(format) => Stage::RawDirectory { format, fingerprint },
    }
}

/// The stage in which the identity of a build is known.
fn identify<'a, B, A>(request: &BuildRequest, work: Work<'a, B>, fingerprint: String) -> (r: Stage<
    'a,
    B,
    A,
>)
    ensures
        r@ == identified::<B, A>(request@, work@, fingerprint@),
{
    if request.force {
        start_over(work, fingerprint)
    } else {
        Stage::Look { work, fingerprint }
    }
}

/// What is said where a builder fails.
fn builder_failed<B: LanguageBuilder>(builder: &B, what: &str) -> (e: PitError)
    ensures
        e@ == error::error(
            ErrorKind::Tool,
            language::language_text(builder.builds()) + what@,
        ),
{
    let mut t = builder.language().as_str().to_owned();
    t.append(what);
    PitError::new(ErrorKind::Tool, t)
}

impl<'a, B: LanguageBuilder, A: ApplicationAdapter> BuildContext<'a, B, A> {
    /// The path of the provided artifact.
    fn raw_path(&self) -> (r: String)
        ensures
            r@ == text::text_or_empty(self@.request.raw_artifact),
    {
        or_empty(&self.request.raw_artifact).to_owned()
    }

    /// The question about the artifact of a manifest.
    fn inspect(&self, manifest: &ArtifactManifest) -> (r: BuildAction<'a, B>)
        ensures
            r@ == inspection::<B>(self@.request, manifest@),
    {
        BuildAction::Inspect {
            pit_root: path_join(self.request.project_dir.as_str(), ".pit"),
            path: manifest.artifact_location(self.request.project_dir.as_str()),
        }
    }

    /// The session in this stage.
    fn at(self, stage: Stage<'a, B, A>) -> (r: BuildSession<'a, B, A>)
        ensures
            r@ == (SessionView { context: self@, stage: stage@ }),
    {
        BuildSession { context: self, stage }
    }

    /// The session after its adapter was selected.
    fn adapt(
        self,
        builder: &'a B,
        candidate: Option<DetectionCandidate>,
        project: ProjectInspection,
        host: AdapterHost,
        selected: Option<SelectedAdapter<'a, A>>,
    ) -> (r: Result<BuildSession<'a, B, A>, PitError>)
        ensures
            error::outcome(r) == adapted(
                self@,
                *builder,
                project::candidate_view(candidate),
                project@,
                host@,
                selection::selected_view(selected),
            ),
    {
        let mut request = self.request;
        let selected = match selected {
            Some(s) => s,
            None => {
                if request.application_interface.is_none() {
                    let interface = default_interface(&request);
                    request.application_interface = Some(interface);
                }
                return Ok(
                    BuildSession {
                        context: BuildContext { crew: self.crew, request, process: self.process },
                        stage: Stage::Fingerprint { builder },
                    },
                );
            },
        };
        let model = model_to_build(&request, candidate, builder.language(), &selected);
        match selected.inspect_compatibility(&project, &model) {
            Err(e) => {
                return Err(e);
            },
            Ok(report) => {
                if report.blocks_build() {
                    return Err(
                        PitError::new(
                            ErrorKind::Compatibility,
                            format_compatibility_error(&report),
                        ),
                    );
                }
            },
        }
        if let Err(e) = selected.prepare(&project, &model, &host) {
            return Err(e);
        }
        request.application_interface = clone_interface(&model.application_interface);
        request.entrypoint = clone_text(&model.entrypoint);
        request.adapter = Some(selected.id().as_str().to_owned());
        Ok(
            BuildSession {
                context: BuildContext { crew: self.crew, request, process: self.process },
                stage: Stage::Prepare { builder, selected, project, host, model },
            },
        )
    }

    /// The session after its project was inspected.
    fn discover(
        self,
        listing: DirectoryListing,
        project: ProjectInspection,
        host: AdapterHost,
    ) -> (r: Result<BuildSession<'a, B, A>, PitError>)
        ensures
            error::outcome(r) == discovered(self@, listing@, project@, host@),
    {
        let crew: &'a PitCrew<B, A> = self.crew;
        let builder = match crew.choose_builder(
            self.request.project_dir.as_str(),
            &listing,
            self.request.language,
        ) {
            Ok(b) => b,
            Err(e) => {
                return Err(e);
            },
        };
        let found = find_applications(
            crew.application_adapters(),
            &project,
            self.request.language,
        );
        let candidate = match choose_candidate(&self.request, &found) {
            Ok(c) => c,
            Err(e) => {
                return Err(e);
            },
        };
        if self.request.adapter.is_some() {
            return Ok(self.at(Stage::Open { builder, candidate, project, host }));
        }
        match select_application_adapter(
            crew.application_adapters(),
            &self.request,
            &candidate,
            &None,
        ) {
            Err(e) => Err(e),
            Ok(s) => self.adapt(builder, candidate, project, host, s),
        }
    }

    /// The session after its builder built.
    fn accept(
        self,
        fingerprint: String,
        output: BuildOutput,
    ) -> (r: Result<BuildSession<'a, B, A>, PitError>)
        ensures
            error::outcome(r) == built(self@, fingerprint@, output@),
    {
        let mut manifest = output.manifest;
        manifest.build.application_interface =
        match &self.request.application_interface {
            Some(i) => Some(i.as_str().to_owned()),
            None => None,
        };
        manifest.build.adapter = clone_text(&self.request.adapter);
        manifest.build.adapter_digest =
        match &self.request.adapter_workspace {
            Some(w) => Some(w.digest.clone()),
            None => None,
        };
        assert(manifest@ == patched(output@.manifest, self@.request));
        if let Err(e) = manifest.validate() {
            return Err(e);
        }
        if !text_eq(manifest.build.fingerprint.as_str(), fingerprint.as_str()) {
            return Err(
                PitError::fixed(
                    ErrorKind::Integrity,
                    "builder returned an artifact with a mismatched build fingerprint",
                ),
            );
        }
        let output = BuildOutput {
            manifest,
            artifact_path: output.artifact_path,
            toolchain: output.toolchain,
        };
        Ok(self.at(Stage::Confirm { output }))
    }

    /// The session after the provided artifact stands at its place.
    fn take_place(
        self,
        format: ArtifactFormat,
        fingerprint: String,
    ) -> (r: Result<BuildSession<'a, B, A>, PitError>)
        ensures
            error::outcome(r) == placed(self@, format, fingerprint@),
    {
        match check_raw_artifact(&self.request, format) {
            Err(e) => Err(e),
            Ok(_) => Ok(self.at(Stage::RawCollect { format, fingerprint })),
        }
    }

    /// Goes on where the project's directory was looked up.
    fn on_locate(self, reply: BuildReply) -> (r: Result<BuildSession<'a, B, A>, PitError>)
        ensures
            error::outcome(r) == after_locate(self@, reply@),
    {
        match reply {
            BuildReply::Path(p) => match p {
                None => Err(
                    naming_path(
                        ErrorKind::Host,
                        "failed to access project directory ",
                        self.request.project_dir.as_str(),
                    ),
                ),
                Some(project_dir) => {
                    let mut request = self.request;
                    request.project_dir = project_dir;
                    Ok(
                        BuildSession {
                            context: BuildContext {
                                crew: self.crew,
                                request,
                                process: self.process,
                            },
                            stage: Stage::Directory,
                        },
                    )
                },
            },
            _ => Err(unexpected_reply()),
        }
    }

    /// Goes on where the project's directory was found to be one, or not.
    fn on_directory(self, reply: BuildReply) -> (r: Result<BuildSession<'a, B, A>, PitError>)
        ensures
            error::outcome(r) == after_directory(self@, reply@),
    {
        match reply {
            BuildReply::Answer(yes) => if yes {
                if self.request.raw_artifact.is_some() {
                    Ok(self.at(Stage::LocateRaw))
                } else {
                    Ok(self.at(Stage::Discover))
                }
            } else {
                Err(
                    naming_path(
                        ErrorKind::Host,
                        "project directory is not a directory: ",
                        self.request.project_dir.as_str(),
                    ),
                )
            },
            _ => Err(unexpected_reply()),
        }
    }

    /// Goes on where the provided artifact was looked up.
    fn on_locate_raw(self, reply: BuildReply) -> (r: Result<BuildSession<'a, B, A>, PitError>)
        ensures
            error::outcome(r) == after_locate_raw(self@, reply@),
    {
        match reply {
            BuildReply::Path(p) => match p {
                None => Err(
                    naming_path(
                        ErrorKind::Host,
                        "failed to access raw WASM artifact ",
                        self.raw_path().as_str(),
                    ),
                ),
                Some(path) => {
                    let mut request = self.request;
                    request.raw_artifact = Some(path);
                    Ok(
                        BuildSession {
                            context: BuildContext {
                                crew: self.crew,
                                request,
                                process: self.process,
                            },
                            stage: Stage::ReadRaw,
                        },
                    )
                },
            },
            _ => Err(unexpected_reply()),
        }
    }

    /// Goes on where the provided artifact was read.
    fn on_read_raw(self, reply: BuildReply) -> (r: Result<BuildSession<'a, B, A>, PitError>)
        ensures
            error::outcome(r) == after_read_raw(self@, reply@),
    {
        let contents = match reply {
            BuildReply::Contents(c) => c,
            _ => {
                return Err(unexpected_reply());
            },
        };
        let path = self.raw_path();
        let format = match detect_artifact_format(path.as_str(), borrow_contents(&contents)) {
            Ok(format) => format,
            Err(e) => {
                return Err(e);
            },
        };
        match contents {
            None => Err(unexpected_reply()),
            Some(bytes) => {
                let mut request = self.request;
                if request.application_interface.is_none() {
                    proof {
                        reveal_strlit("wasi-http");
                        reveal_strlit("wasi-cli");
                    }
                    request.application_interface =
                    Some(
                        match format {
                            ArtifactFormat::Component => ApplicationInterface::known("wasi-http"),
                            ArtifactFormat::CoreModule => ApplicationInterface::known("wasi-cli"),
                        },
                    );
                }
                let identity = raw_artifact_fingerprint(&request, format, bytes.as_slice());
                let stage = identify(&request, Work::Raw(format), identity);
                Ok(BuildSession {
                    context: BuildContext { crew: self.crew, request, process: self.process },
                    stage,
                })
            },
        }
    }

    /// Goes on where the project was inspected.
    fn on_discover(self, reply: BuildReply) -> (r: Result<BuildSession<'a, B, A>, PitError>)
        ensures
            error::outcome(r) == after_discover(self@, reply@),
    {
        proof {
            reveal(after_discover);
        }
        match reply {
            BuildReply::Project { listing, project, host } => self.discover(listing, project, host),
            _ => Err(unexpected_reply()),
        }
    }

    /// Goes on where a local adapter was looked for.
    fn on_open(
        self,
        builder: &'a B,
        candidate: Option<DetectionCandidate>,
        project: ProjectInspection,
        host: AdapterHost,
        reply: BuildReply,
    ) -> (r: Result<BuildSession<'a, B, A>, PitError>)
        ensures
            error::outcome(r) == after_open(
                self@,
                *builder,
                project::candidate_view(candidate),
                project@,
                host@,
                reply@,
            ),
    {
        proof {
            reveal(after_open);
        }
        match reply {
            BuildReply::Adapter(directory) => match select_application_adapter(
                self.crew.application_adapters(),
                &self.request,
                &candidate,
                &directory,
            ) {
                Err(e) => Err(e),
                Ok(s) => self.adapt(builder, candidate, project, host, s),
            },
            _ => Err(unexpected_reply()),
        }
    }

    /// Goes on where the bridge was prepared.
    fn on_prepare(
        self,
        builder: &'a B,
        selected: SelectedAdapter<'a, A>,
        project: ProjectInspection,
        host: AdapterHost,
        model: ProjectModel,
        reply: BuildReply,
    ) -> (r: Result<BuildSession<'a, B, A>, PitError>)
        ensures
            error::outcome(r) == after_prepare(
                self@,
                *builder,
                selected@,
                project@,
                host@,
                model@,
                reply@,
            ),
    {
        match reply {
            BuildReply::Prepared(files) => match selected.complete(&project, &model, &host, files) {
                Err(e) => Err(e),
                Ok(output) => {
                    let mut request = self.request;
                    request.adapter_workspace = Some(output.workspace);
                    Ok(
                        BuildSession {
                            context: BuildContext {
                                crew: self.crew,
                                request,
                                process: self.process,
                            },
                            stage: Stage::Fingerprint { builder },
                        },
                    )
                },
            },
            _ => Err(unexpected_reply()),
        }
    }

    /// Goes on where the builder identified the build.
    fn on_fingerprint(
        self,
        builder: &'a B,
        reply: BuildReply,
    ) -> (r: Result<BuildSession<'a, B, A>, PitError>)
        ensures
            error::outcome(r) == after_fingerprint(self@, *builder, reply@),
    {
        match reply {
            BuildReply::Fingerprint(t) => {
                let identity = adaptation_fingerprint(t.as_str(), &self.request);
                let stage = identify(&self.request, Work::Source(builder), identity);
                Ok(self.at(stage))
            },
            _ => Err(unexpected_reply()),
        }
    }

    /// Goes on where the manifest of an earlier build was looked for.
    fn on_look(
        self,
        work: Work<'a, B>,
        fingerprint: String,
        reply: BuildReply,
    ) -> (r: Result<BuildSession<'a, B, A>, PitError>)
        ensures
            error::outcome(r) == after_look(self@, work@, fingerprint@, reply@),
    {
        proof {
            reveal(after_look);
        }
        match reply {
            BuildReply::Contents(c) => match load_cached_manifest(
                &self.request,
                fingerprint.as_str(),
                borrow_contents(&c),
            ) {
                Some(manifest) => Ok(self.at(Stage::Check { work, fingerprint, manifest })),
                None => Ok(self.at(start_over(work, fingerprint))),
            },
            _ => Err(unexpected_reply()),
        }
    }

    /// Goes on where an earlier artifact was looked at.
    fn on_check(
        self,
        work: Work<'a, B>,
        fingerprint: String,
        manifest: ArtifactManifest,
        reply: BuildReply,
    ) -> (r: Result<BuildSession<'a, B, A>, PitError>)
        ensures
            error::outcome(r) == after_check(self@, work@, fingerprint@, manifest@, reply@),
    {
        proof {
            reveal(after_check);
        }
        match reply {
            BuildReply::Stored(s) => match manifest.verify_artifact(
                self.request.project_dir.as_str(),
                &s,
            ) {
                Ok(_) => {
                    let mut manifest = manifest;
                    manifest.execution = self.request.execution_defaults;
                    Ok(self.at(Stage::Renew { manifest }))
                },
                Err(_) => Ok(self.at(start_over(work, fingerprint))),
            },
            _ => Err(unexpected_reply()),
        }
    }

    /// Goes on where an artifact that is taken over was looked at.
    fn on_reopen(
        self,
        manifest: ArtifactManifest,
        reply: BuildReply,
    ) -> (r: Result<BuildSession<'a, B, A>, PitError>)
        ensures
            error::outcome(r) == after_reopen(self@, manifest@, reply@),
    {
        proof {
            reveal(after_reopen);
        }
        match reply {
            BuildReply::Stored(s) => match BuildOutput::from_manifest(
                self.request.project_dir.as_str(),
                manifest,
                &s,
            ) {
                Err(e) => Err(e),
                Ok(output) => Ok(self.at(Stage::Finished { output, reused: true })),
            },
            _ => Err(unexpected_reply()),
        }
    }

    /// Goes on where the builder replied.
    fn on_build(
        self,
        fingerprint: String,
        reply: BuildReply,
    ) -> (r: Result<BuildSession<'a, B, A>, PitError>)
        ensures
            error::outcome(r) == after_build(self@, fingerprint@, reply@),
    {
        proof {
            reveal(after_build);
        }
        match reply {
            BuildReply::Built(output) => self.accept(fingerprint, output),
            _ => Err(unexpected_reply()),
        }
    }

    /// Goes on where the directory of the provided artifact was made.
    fn on_raw_directory(
        self,
        format: ArtifactFormat,
        fingerprint: String,
        reply: BuildReply,
    ) -> (r: Result<BuildSession<'a, B, A>, PitError>)
        ensures
            error::outcome(r) == after_raw_directory(self@, format, fingerprint@, reply@),
    {
        match reply {
            BuildReply::Done => {
                let place = place_raw(self.request.project_dir.as_str());
                if path_eq(self.raw_path().as_str(), place.as_str()) {
                    self.take_place(format, fingerprint)
                } else {
                    Ok(self.at(Stage::RawCopy { format, fingerprint }))
                }
            },
            _ => Err(unexpected_reply()),
        }
    }

    /// Goes on where the copy of the provided artifact was read.
    fn on_raw_collect(
        self,
        format: ArtifactFormat,
        fingerprint: String,
        reply: BuildReply,
    ) -> (r: Result<BuildSession<'a, B, A>, PitError>)
        ensures
            error::outcome(r) == after_raw_collect(self@, format, fingerprint@, reply@),
    {
        proof {
            reveal(after_raw_collect);
        }
        match reply {
            BuildReply::Contents(c) => match c {
                None => Err(
                    naming_path(
                        ErrorKind::Host,
                        "failed to read ",
                        place_raw(self.request.project_dir.as_str()).as_str(),
                    ),
                ),
                Some(bytes) => {
                    let output = build_raw_artifact(
                        &self.request,
                        format,
                        fingerprint.as_str(),
                        bytes.as_slice(),
                    );
                    match output.manifest.validate() {
                        Err(e) => Err(e),
                        Ok(_) => Ok(self.at(Stage::Confirm { output })),
                    }
                },
            },
            _ => Err(unexpected_reply()),
        }
    }

    /// Goes on where the artifact was looked at.
    fn on_confirm(
        self,
        output: BuildOutput,
        reply: BuildReply,
    ) -> (r: Result<BuildSession<'a, B, A>, PitError>)
        ensures
            error::outcome(r) == after_confirm(self@, output@, reply@),
    {
        proof {
            reveal(after_confirm);
        }
        match reply {
            BuildReply::Stored(s) => match output.manifest.verify_artifact(
                self.request.project_dir.as_str(),
                &s,
            ) {
                Err(e) => Err(e),
                Ok(_) => Ok(self.at(Stage::Record { output })),
            },
            _ => Err(unexpected_reply()),
        }
    }

    /// Goes on where a step without a result was taken: to `stage`.
    fn on_done(
        self,
        stage: Stage<'a, B, A>,
        reply: BuildReply,
    ) -> (r: Result<BuildSession<'a, B, A>, PitError>)
        ensures
            error::outcome(r) == after_done(self@, stage@, reply@),
    {
        match reply {
            BuildReply::Done => Ok(self.at(stage)),
            _ => Err(unexpected_reply()),
        }
    }

    /// Goes on where the copy of the provided artifact was renamed.
    fn on_raw_rename(
        self,
        format: ArtifactFormat,
        fingerprint: String,
        reply: BuildReply,
    ) -> (r: Result<BuildSession<'a, B, A>, PitError>)
        ensures
            error::outcome(r) == after_raw_rename(self@, format, fingerprint@, reply@),
    {
        match reply {
            BuildReply::Done => self.take_place(format, fingerprint),
            _ => Err(unexpected_reply()),
        }
    }
}

impl<'a, B: LanguageBuilder, A: ApplicationAdapter> BuildSession<'a, B, A> {
    /// What the session asks for; nothing when the build is over.
    pub fn next(&self) -> (r: Option<BuildAction<'a, B>>)
        ensures
            match r {
                Some(action) => asks(self@) == Some(action@),
                None => asks(self@) is None,
            },
    {
        let project_dir = self.context.request.project_dir.as_str();
        match &self.stage {
            Stage::Locate => Some(BuildAction::Resolve(self.context.request.project_dir.clone())),
            Stage::Directory => Some(
                BuildAction::IsDirectory(self.context.request.project_dir.clone()),
            ),
            Stage::LocateRaw => Some(BuildAction::Resolve(self.context.raw_path())),
            Stage::ReadRaw => Some(BuildAction::Read(self.context.raw_path())),
            Stage::Discover => Some(
                BuildAction::Discover(self.context.request.project_dir.clone()),
            ),
            Stage::Open { .. } => Some(
                BuildAction::OpenAdapter(
                    path_join(project_dir, or_empty(&self.context.request.adapter)),
                ),
            ),
            Stage::Prepare { builder, selected, project, host, model } => match selected.prepare(
                project,
                model,
                host,
            ) {
                Ok(plan) => Some(BuildAction::Prepare(plan)),
                Err(_) => None,
            },
            Stage::Fingerprint { builder } => Some(
                BuildAction::Fingerprint {
                    builder: *builder,
                    request: self.context.request.clone(),
                },
            ),
            Stage::Look { .. } => Some(BuildAction::Read(manifest_path(project_dir))),
            Stage::Check { work, fingerprint, manifest } => Some(self.context.inspect(manifest)),
            Stage::Renew { manifest } => Some(
                BuildAction::Write {
                    manifest: manifest.clone(),
                    path: manifest_path(project_dir),
                },
            ),
            Stage::Reopen { manifest } => Some(self.context.inspect(manifest)),
            Stage::Build { builder, fingerprint } => Some(
                BuildAction::Build {
                    builder: *builder,
                    request: self.context.request.clone(),
                    fingerprint: fingerprint.clone(),
                },
            ),
            Stage::RawDirectory { .. } => Some(
                BuildAction::CreateDirectory(path_join(project_dir, ".pit/build")),
            ),
            Stage::RawCopy { .. } => Some(
                BuildAction::Copy {
                    from: self.context.raw_path(),
                    to: place_temporary(project_dir, self.context.process),
                },
            ),
            Stage::RawRename { .. } => Some(
                BuildAction::Rename {
                    from: place_temporary(project_dir, self.context.process),
                    to: place_raw(project_dir),
                },
            ),
            Stage::RawCollect { .. } => Some(BuildAction::Read(place_raw(project_dir))),
            Stage::Confirm { output } => Some(self.context.inspect(&output.manifest)),
            Stage::Record { output } => Some(
                BuildAction::Write {
                    manifest: output.manifest.clone(),
                    path: manifest_path(project_dir),
                },
            ),
            Stage::Finished { .. } => None,
        }
    }

    /// Goes on with the reply to what the session asked for.
    pub fn replied(self, reply: BuildReply) -> (r: Result<Self, PitError>)
        ensures
            error::outcome(r) == after(self@, reply@),
    {
        if let BuildReply::Failed(e) = reply {
            return Err(
                match self.stage {
                    Stage::Fingerprint { builder } => builder_failed(
                        builder,
                        " build fingerprint failed",
                    ),
                    Stage::Build { builder, .. } => builder_failed(builder, " build failed"),
                    _ => e,
                },
            );
        }
        match self.stage {
            Stage::Locate => self.context.on_locate(reply),
            Stage::Directory => self.context.on_directory(reply),
            Stage::LocateRaw => self.context.on_locate_raw(reply),
            Stage::ReadRaw => self.context.on_read_raw(reply),
            Stage::Discover => self.context.on_discover(reply),
            Stage::Open { builder, candidate, project, host } => self.context.on_open(
                builder,
                candidate,
                project,
                host,
                reply,
            ),
            Stage::Prepare { builder, selected, project, host, model } => self.context.on_prepare(
                builder,
                selected,
                project,
                host,
                model,
                reply,
            ),
            Stage::Fingerprint { builder } => self.context.on_fingerprint(builder, reply),
            Stage::Look { work, fingerprint } => self.context.on_look(work, fingerprint, reply),
            Stage::Check { work, fingerprint, manifest } => self.context.on_check(
                work,
                fingerprint,
                manifest,
                reply,
            ),
            Stage::Renew { manifest } => self.context.on_done(Stage::Reopen { manifest }, reply),
            Stage::Reopen { manifest } => self.context.on_reopen(manifest, reply),
            Stage::Build { builder, fingerprint } => self.context.on_build(fingerprint, reply),
            Stage::RawDirectory { format, fingerprint } => self.context.on_raw_directory(
                format,
                fingerprint,
                reply,
            ),
            Stage::RawCopy { format, fingerprint } => self.context.on_done(
                Stage::RawRename { format, fingerprint },
                reply,
            ),
            Stage::RawRename { format, fingerprint } => self.context.on_raw_rename(
                format,
                fingerprint,
                reply,
            ),
            Stage::RawCollect { format, fingerprint } => self.context.on_raw_collect(
                format,
                fingerprint,
                reply,
            ),
            Stage::Confirm { output } => self.context.on_confirm(output, reply),
            Stage::Record { output } => self.context.on_done(
                Stage::Finished { output, reused: false },
                reply,
            ),
            Stage::Finished { .. } => Err(unexpected_reply()),
        }
    }

    /// What the build gives, once it is over.
    pub fn finish(self) -> (r: Option<BuildOutcome>)
        ensures
            match r {
                Some(o) => self@.stage == (StageView::<B, A>::Finished {
                    output: o.artifact@,
                    reused: o.reused,
                }),
                None => !(self@.stage is Finished),
            },
    {
        match self.stage {
            Stage::Finished { output, reused } => Some(BuildOutcome { artifact: output, reused }),
            _ => None,
        }
    }
}

impl<B: LanguageBuilder, A: ApplicationAdapter> PitCrew<B, A> {
    /// The build of a request. `process` tells temporary files apart.
    pub fn build_with_status<'a>(&'a self, request: BuildRequest, process: u32) -> (r: BuildSession<
        'a,
        B,
        A,
    >)
        ensures
            r@ == (SessionView {
                context: ContextView { crew: self@, request: request@, process },
                stage: StageView::<B, A>::Locate,
            }),
    {
        BuildSession {
            context: BuildContext { crew: self, request, process },
            stage: Stage::Locate,
        }
    }
}

} // verus!
