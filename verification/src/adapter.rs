//! The contract of application adapters. An adapter bridges an application
//! interface to a world; it generates files below `.pit/generated` and never
//! executes the application.

use crate::artifact::ComponentWorld;
use crate::digest;
use crate::digest::sha256_hex;
use crate::error;
use crate::error::{naming_path, ErrorKind, ErrorView, PitError};
use crate::fingerprint;
use crate::fingerprint::{append_files, field_material, SourceFile};
use crate::language::{AdapterId, ApplicationInterface, Language};
use crate::paths;
use crate::paths::{absolute, has_parent_part, path_join};
use crate::project;
use crate::project::{
    AdapterOutput, CandidateView, CompatibilityReport, DetectionCandidate, DetectionEvidence,
    EvidenceView, ProjectInspection, ProjectModel, ProjectView, ReportView, WorkspaceView,
};
use crate::text;
use crate::text::{contains, split, split_once, starts_with, text_eq};
use vstd::prelude::*;

verus! {

/// What the surrounding program knows that adapters need: where the WIT files of
/// the HTTP world are, and whether that directory and the project's own exist.
#[derive(Debug)]
pub struct AdapterHost {
    pub wit_template: String,
    pub template_exists: bool,
    pub project_has_wit: bool,
}

/// The model of an `AdapterHost`.
#[verifier::ext_equal]
pub struct HostView {
    pub wit_template: Seq<char>,
    pub template_exists: bool,
    pub project_has_wit: bool,
}

impl View for AdapterHost {
    type V = HostView;

    open spec fn view(&self) -> HostView {
        HostView {
            wit_template: self.wit_template@,
            template_exists: self.template_exists,
            project_has_wit: self.project_has_wit,
        }
    }
}

/// A step of preparing a bridge.
#[derive(Debug)]
pub enum PrepareStep {
    /// Create a directory and those above it.
    CreateDirectory(String),
    /// Write a text to a file.
    WriteFile { path: String, contents: String },
    /// Copy every file of a directory into another directory.
    CopyTree { source: String, destination: String },
    /// Copy a file, after creating the directory that it is copied to. Where there
    /// is no such file the preparation fails before that.
    CopyAsset { source: String, directory: Option<String>, destination: String },
    /// Fail.
    Refuse(PitError),
}

/// The model of a `PrepareStep`.
pub enum StepView {
    CreateDirectory(Seq<char>),
    WriteFile { path: Seq<char>, contents: Seq<char> },
    CopyTree { source: Seq<char>, destination: Seq<char> },
    CopyAsset { source: Seq<char>, directory: Option<Seq<char>>, destination: Seq<char> },
    Refuse(ErrorView),
}

impl View for PrepareStep {
    type V = StepView;

    open spec fn view(&self) -> StepView {
        match *self {
            PrepareStep::CreateDirectory(path) => StepView::CreateDirectory(path@),
            PrepareStep::WriteFile { path, contents } => StepView::WriteFile {
                path: path@,
                contents: contents@,
            },
            PrepareStep::CopyTree { source, destination } => StepView::CopyTree {
                source: source@,
                destination: destination@,
            },
            PrepareStep::CopyAsset { source, directory, destination } => StepView::CopyAsset {
                source: source@,
                directory: text::option_view(directory),
                destination: destination@,
            },
            PrepareStep::Refuse(e) => StepView::Refuse(e@),
        }
    }
}

/// What is said of an asset that is not there.
pub fn missing_asset(source: &str) -> (r: PitError)
    ensures
        r@ == error::error(
            ErrorKind::Adapter,
            "external adapter asset does not exist: "@ + source@,
        ),
{
    naming_path(ErrorKind::Adapter, "external adapter asset does not exist: ", source)
}

/// How a bridge is prepared: the steps, and the files whose contents identify
/// the bridge. Where no files are listed, all files below `root` do.
#[derive(Debug)]
pub struct AdapterPlan {
    pub root: String,
    pub steps: Vec<PrepareStep>,
    pub assets: Option<Vec<String>>,
}

/// The model of an `AdapterPlan`.
#[verifier::ext_equal]
pub struct PlanView {
    pub root: Seq<char>,
    pub steps: Seq<StepView>,
    pub assets: Option<Seq<Seq<char>>>,
}

/// The models of steps.
pub open spec fn steps_view(v: Seq<PrepareStep>) -> Seq<StepView> {
    v.map_values(|s: PrepareStep| s@)
}

impl View for AdapterPlan {
    type V = PlanView;

    open spec fn view(&self) -> PlanView {
        PlanView {
            root: self.root@,
            steps: steps_view(self.steps@),
            assets: match self.assets {
                Some(v) => Some(text::texts(v@)),
                None => None,
            },
        }
    }
}

/// An adapter of an application interface.
pub trait ApplicationAdapter {
    /// The model of `id`, where the adapter gives one.
    open spec fn id_text(&self) -> Seq<char> {
        arbitrary()
    }

    /// The model of `language`, where the adapter gives one.
    open spec fn takes_language(&self) -> Language {
        arbitrary()
    }

    /// The model of `interface`, where the adapter gives one.
    open spec fn interface_text(&self) -> Seq<char> {
        arbitrary()
    }

    /// The model of `runtime_world`, where the adapter gives one.
    open spec fn gives_world(&self) -> ComponentWorld {
        arbitrary()
    }

    /// The model of `detect`, where the adapter gives one.
    open spec fn detected(&self, project: ProjectView) -> Option<CandidateView> {
        arbitrary()
    }

    /// The model of `validate`, where the adapter gives one.
    open spec fn validated(&self, model: CandidateView) -> Result<ReportView, ErrorView> {
        arbitrary()
    }

    /// The model of `inspect_compatibility`, where the adapter gives one.
    open spec fn inspected(&self, project: ProjectView, model: CandidateView) -> Result<
        ReportView,
        ErrorView,
    > {
        arbitrary()
    }

    /// The model of `prepare`, where the adapter gives one.
    open spec fn planned(
        &self,
        project: ProjectView,
        model: CandidateView,
        host: HostView,
    ) -> Result<PlanView, ErrorView> {
        arbitrary()
    }

    /// The model of `complete`, where the adapter gives one.
    open spec fn completed(
        &self,
        project: ProjectView,
        model: CandidateView,
        host: HostView,
        files: Seq<(Seq<char>, Seq<u8>)>,
    ) -> Result<(WorkspaceView, ComponentWorld), ErrorView> {
        arbitrary()
    }

    /// The identity of the adapter.
    fn id(&self) -> (r: AdapterId)
        ensures
            r@ == self.id_text(),
    ;

    /// The language of the applications that the adapter takes.
    fn language(&self) -> (r: Language)
        ensures
            r == self.takes_language(),
    ;

    /// The interface that the adapter bridges.
    fn interface(&self) -> (r: &ApplicationInterface)
        ensures
            r@ == self.interface_text(),
    ;

    /// The world that the adapter bridges to.
    fn runtime_world(&self) -> (r: ComponentWorld)
        ensures
            r == self.gives_world(),
    ;

    /// The application that the adapter finds in a project.
    fn detect(&self, project: &ProjectInspection) -> (r: Option<DetectionCandidate>)
        ensures
            project::candidate_view(r) == self.detected(project@),
    ;

    /// Checks that the adapter takes an application.
    fn validate(&self, model: &ProjectModel) -> (r: Result<CompatibilityReport, PitError>)
        ensures
            error::outcome(r) == self.validated(model@),
    ;

    /// Inspects whether an application can run.
    fn inspect_compatibility(&self, project: &ProjectInspection, model: &ProjectModel) -> (r: Result<
        CompatibilityReport,
        PitError,
    >)
        ensures
            error::outcome(r) == self.inspected(project@, model@),
    ;

    /// How the bridge to an application is prepared.
    fn prepare(
        &self,
        project: &ProjectInspection,
        model: &ProjectModel,
        host: &AdapterHost,
    ) -> (r: Result<AdapterPlan, PitError>)
        ensures
            error::outcome(r) == self.planned(project@, model@, host@),
    ;

    /// The bridge, after its preparation. `files` are the files that identify it.
    fn complete(
        &self,
        project: &ProjectInspection,
        model: &ProjectModel,
        host: &AdapterHost,
        files: Vec<SourceFile>,
    ) -> (r: Result<AdapterOutput, PitError>)
        ensures
            error::outcome(r) == self.completed(
                project@,
                model@,
                host@,
                fingerprint::files_view(files@),
            ),
    ;
}

/// Whether a part of a module path leads nowhere or out of its directory.
pub open spec fn is_bad_part(part: Seq<char>) -> bool {
    part.len() == 0 || part == "."@ || part == ".."@
}

/// Whether module and attribute can be used in a bridge.
pub open spec fn is_entrypoint(module: Seq<char>, attribute: Seq<char>) -> bool {
    &&& module.len() > 0
    &&& attribute.len() > 0
    &&& module[0] != '.'
    &&& !module.contains('\\')
    &&& forall|i: int|
        0 <= i < text::pieces(module, seq!['/']).len() ==> !is_bad_part(
            #[trigger] text::pieces(module, seq!['/'])[i],
        )
    &&& !attribute.contains('/')
}

/// The outcome of reading an entrypoint: the module before the first colon and
/// the attribute after it.
pub open spec fn entrypoint_parts(entrypoint: Seq<char>) -> Result<
    (Seq<char>, Seq<char>),
    ErrorView,
> {
    match text::halves(entrypoint, ':') {
        None => Err(
            error::error(ErrorKind::Adapter, "entrypoint must use module:attribute syntax"@),
        ),
        Some((module, attribute)) => if is_entrypoint(module, attribute) {
            Ok((module, attribute))
        } else {
            Err(
                error::error(
                    ErrorKind::Adapter,
                    "entrypoint contains an invalid module or attribute"@,
                ),
            )
        },
    }
}

/// Whether every part of a module path leads into its directory.
fn parts_are_good(module: &str) -> (r: bool)
    ensures
        r == forall|i: int|
            0 <= i < text::pieces(module@, seq!['/']).len() ==> !is_bad_part(
                #[trigger] text::pieces(module@, seq!['/'])[i],
            ),
{
    let set: [char; 1] = ['/'];
    assert(set@ =~= seq!['/']);
    let parts = split(module, &set);
    let ghost all = text::pieces(module@, seq!['/']);
    let mut i: usize = 0;
    while i < parts.len()
        invariant
            i <= parts@.len(),
            all == text::texts(parts@),
            all == text::pieces(module@, seq!['/']),
            forall|j: int| 0 <= j < i ==> !is_bad_part(#[trigger] all[j]),
        decreases parts@.len() - i,
    {
        assert(all[i as int] == parts@[i as int]@);
        let part = parts[i].as_str();
        if part.is_empty() || text_eq(part, ".") || text_eq(part, "..") {
            assert(is_bad_part(all[i as int]));
            return false;
        }
        i = i + 1;
    }
    true
}

/// Whether a text holds a character.
proof fn lemma_has_char(s: Seq<char>, c: char)
    ensures
        text::has_text(s, seq![c]) == s.contains(c),
{
    if s.contains(c) {
        let i = choose|i: int| 0 <= i < s.len() && s[i] == c;
        assert(s.subrange(i, i + 1) =~= seq![c]);
        assert(text::occurs_at(s, seq![c], i));
    }
    if text::has_text(s, seq![c]) {
        let i = choose|i: int| text::occurs_at(s, seq![c], i);
        assert(s.subrange(i, i + 1)[0] == c);
        assert(s[i] == c);
    }
}

/// Reads an entrypoint.
pub fn split_entrypoint(entrypoint: &str) -> (r: Result<(String, String), PitError>)
    ensures
        error::outcome(r) == entrypoint_parts(entrypoint@),
{
    match split_once(entrypoint, ':') {
        None => Err(
            PitError::fixed(ErrorKind::Adapter, "entrypoint must use module:attribute syntax"),
        ),
        Some((module, attribute)) => {
            proof {
                reveal_strlit(".");
                reveal_strlit("\\");
                reveal_strlit("/");
                assert("."@ =~= seq!['.']);
                assert("\\"@ =~= seq!['\\']);
                assert("/"@ =~= seq!['/']);
                lemma_has_char(module@, '\\');
                lemma_has_char(attribute@, '/');
                if module@.len() > 0 {
                    assert("."@.is_prefix_of(module@) <==> module@[0] == '.') by {
                        assert(module@.subrange(0, 1) =~= seq![module@[0]]);
                        if "."@.is_prefix_of(module@) {
                            assert("."@[0] == module@[0]);
                        }
                    }
                }
            }
            if module.as_str().is_empty() || attribute.as_str().is_empty() || starts_with(
                module.as_str(),
                ".",
            ) || contains(module.as_str(), "\\") || !parts_are_good(module.as_str()) || contains(
                attribute.as_str(),
                "/",
            ) {
                return Err(
                    PitError::fixed(
                        ErrorKind::Adapter,
                        "entrypoint contains an invalid module or attribute",
                    ),
                );
            }
            Ok((module, attribute))
        },
    }
}

/// The outcome of placing an asset below an adapter's root.
pub open spec fn placed(root: Seq<char>, relative: Seq<char>) -> Result<Seq<char>, ErrorView> {
    if paths::is_absolute(relative) || paths::climbs(relative) {
        Err(
            error::error(
                ErrorKind::Path,
                "adapter asset path escapes its adapter root: "@ + relative,
            ),
        )
    } else {
        Ok(paths::join_path(root, relative))
    }
}

/// Places an asset below an adapter's root.
pub fn safe_join(root: &str, relative: &str) -> (r: Result<String, PitError>)
    ensures
        error::outcome(r) == placed(root@, relative@),
{
    if absolute(relative) || has_parent_part(relative) {
        return Err(
            naming_path(
                ErrorKind::Path,
                "adapter asset path escapes its adapter root: ",
                relative,
            ),
        );
    }
    Ok(path_join(root, relative))
}

/// The digest of a bridge.
pub open spec fn bridge_digest(
    version: Seq<char>,
    id: Seq<char>,
    interface: Seq<char>,
    entrypoint: Seq<char>,
    files: Seq<(Seq<char>, Seq<u8>)>,
) -> Seq<char> {
    "sha256:"@ + digest::sha256_text(
        fingerprint::fields_bytes(seq![version, id, interface, entrypoint])
            + fingerprint::files_bytes(files),
    )
}

/// The digest of a bridge: of the adapter's version and identity, the interface,
/// the entrypoint and the files.
pub fn adapter_digest_bytes(
    version: &str,
    id: &AdapterId,
    interface: &ApplicationInterface,
    entrypoint: &str,
    files: &Vec<SourceFile>,
) -> (r: String)
    ensures
        r@ == bridge_digest(
            version@,
            id@,
            interface@,
            entrypoint@,
            fingerprint::files_view(files@),
        ),
{
    let mut values: Vec<&str> = Vec::new();
    values.push(version);
    values.push(id.as_str());
    values.push(interface.as_str());
    values.push(entrypoint);
    assert(values@.map_values(|v: &str| v@) =~= seq![version@, id@, interface@, entrypoint@]);
    let mut material = field_material(&values);
    append_files(&mut material, files);
    let mut r = "sha256:".to_owned();
    r.append(sha256_hex(material.as_slice()).as_str());
    r
}

/// The places of files below a root.
pub open spec fn below_root(root: Seq<char>, files: Seq<(Seq<char>, Seq<u8>)>) -> Seq<Seq<char>> {
    files.map_values(|f: (Seq<char>, Seq<u8>)| paths::join_path(root, f.0))
}

/// The places of files below a root.
pub(crate) fn join_files(root: &str, files: &Vec<SourceFile>) -> (r: Vec<String>)
    ensures
        text::texts(r@) == below_root(root@, fingerprint::files_view(files@)),
{
    let mut out: Vec<String> = Vec::new();
    let mut i: usize = 0;
    while i < files.len()
        invariant
            i <= files@.len(),
            out@.len() == i,
            forall|j: int|
                0 <= j < i ==> (#[trigger] out@[j])@ == paths::join_path(root@, files@[j].path@),
        decreases files@.len() - i,
    {
        out.push(path_join(root, files[i].path.as_str()));
        i = i + 1;
    }
    assert(text::texts(out@) =~= below_root(root@, fingerprint::files_view(files@)));
    out
}

/// The paths of files.
pub open spec fn file_paths(files: Seq<(Seq<char>, Seq<u8>)>) -> Seq<Seq<char>> {
    files.map_values(|f: (Seq<char>, Seq<u8>)| f.0)
}

/// The paths of files.
pub(crate) fn paths_of(files: &Vec<SourceFile>) -> (r: Vec<String>)
    ensures
        text::texts(r@) == file_paths(fingerprint::files_view(files@)),
{
    let mut out: Vec<String> = Vec::new();
    let mut i: usize = 0;
    while i < files.len()
        invariant
            i <= files@.len(),
            out@.len() == i,
            forall|j: int| 0 <= j < i ==> (#[trigger] out@[j])@ == files@[j].path@,
        decreases files@.len() - i,
    {
        out.push(files[i].path.clone());
        i = i + 1;
    }
    assert(text::texts(out@) =~= file_paths(fingerprint::files_view(files@)));
    out
}

/// Two source roots.
pub(crate) fn source_roots(root: &str, project_root: &str) -> (r: Vec<String>)
    ensures
        text::texts(r@) == seq![root@, project_root@],
{
    let mut v: Vec<String> = Vec::new();
    v.push(root.to_owned());
    v.push(project_root.to_owned());
    assert(text::texts(v@) =~= seq![root@, project_root@]);
    v
}

/// One piece of evidence as a list.
pub(crate) fn single_evidence(source: &str, detail: &str) -> (r: Vec<DetectionEvidence>)
    ensures
        project::evidence_view(r@) == seq![EvidenceView { source: source@, detail: detail@ }],
{
    let mut v: Vec<DetectionEvidence> = Vec::new();
    v.push(DetectionEvidence::new(source, detail));
    assert(project::evidence_view(v@) =~= seq![EvidenceView { source: source@, detail: detail@ }]);
    v
}

/// What is said of an application that an adapter does not take.
pub open spec fn requirement_error(id: Seq<char>, what: Seq<char>) -> ErrorView {
    error::error(ErrorKind::Adapter, "adapter '"@ + id + "' requires "@ + what)
}

/// What is said of an application that an adapter does not take.
pub(crate) fn requirement_not_met(id: &AdapterId, what: &str) -> (r: PitError)
    ensures
        r@ == requirement_error(id@, what@),
{
    let mut t = "adapter '".to_owned();
    t.append(id.as_str());
    t.append("' requires ");
    t.append(what);
    PitError::new(ErrorKind::Adapter, t)
}

} // verus!
