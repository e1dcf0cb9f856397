//! What is known of a project, of the applications found in it and of their
//! compatibility with the runtime.

use crate::artifact::ComponentWorld;
use crate::language::{AdapterId, ApplicationInterface, Language};
use crate::ordering;
use crate::paths;
use crate::paths::path_eq;
use crate::text;
use crate::text::{clone_text, clone_texts};
use crate::walk;
use crate::walk::{EntryKind, Walk, WalkView};
use vstd::prelude::*;

verus! {

/// Something that speaks for a detection or a finding.
#[derive(Debug, PartialEq, Eq)]
pub struct DetectionEvidence {
    pub source: String,
    pub detail: String,
}

/// The model of `DetectionEvidence`.
#[verifier::ext_equal]
pub struct EvidenceView {
    pub source: Seq<char>,
    pub detail: Seq<char>,
}

impl View for DetectionEvidence {
    type V = EvidenceView;

    open spec fn view(&self) -> EvidenceView {
        EvidenceView { source: self.source@, detail: self.detail@ }
    }
}

/// The models of a list of evidence.
pub open spec fn evidence_view(v: Seq<DetectionEvidence>) -> Seq<EvidenceView> {
    v.map_values(|e: DetectionEvidence| e@)
}

impl DetectionEvidence {
    /// Evidence with this source and this detail.
    pub fn new(source: &str, detail: &str) -> (r: Self)
        ensures
            r@ == (EvidenceView { source: source@, detail: detail@ }),
    {
        DetectionEvidence { source: source.to_owned(), detail: detail.to_owned() }
    }
}

/// A copy of a list of evidence.
pub fn clone_evidence(v: &Vec<DetectionEvidence>) -> (r: Vec<DetectionEvidence>)
    ensures
        evidence_view(r@) == evidence_view(v@),
{
    let mut out: Vec<DetectionEvidence> = Vec::new();
    let mut i: usize = 0;
    while i < v.len()
        invariant
            i <= v@.len(),
            out@.len() == i,
            forall|j: int| 0 <= j < i ==> (#[trigger] out@[j])@ == v@[j]@,
        decreases v@.len() - i,
    {
        out.push(DetectionEvidence::new(v[i].source.as_str(), v[i].detail.as_str()));
        i = i + 1;
    }
    assert(evidence_view(out@) =~= evidence_view(v@));
    out
}

/// The name of an optional interface.
pub open spec fn interface_view(i: Option<ApplicationInterface>) -> Option<Seq<char>> {
    match i {
        Some(i) => Some(i@),
        None => None,
    }
}

/// A copy of an optional interface.
pub fn clone_interface(i: &Option<ApplicationInterface>) -> (r: Option<ApplicationInterface>)
    ensures
        interface_view(r) == interface_view(*i),
{
    match i {
        Some(i) => Some(i.clone()),
        None => None,
    }
}

/// Whether two optional interfaces are both absent or have one name.
pub fn interface_eq(a: &Option<ApplicationInterface>, b: &Option<ApplicationInterface>) -> (r: bool)
    ensures
        r == (interface_view(*a) == interface_view(*b)),
{
    match (a, b) {
        (Some(x), Some(y)) => text::text_eq(x.as_str(), y.as_str()),
        (None, None) => true,
        _ => false,
    }
}

/// An installed Python package, as its metadata describes it.
#[derive(Debug)]
pub struct PythonDistribution {
    pub name: String,
    pub root: String,
    pub metadata_dir: String,
    pub required: Vec<String>,
    pub wheel_tags: Vec<String>,
    /// The first native extension that a search of the package comes across.
    pub native: Option<String>,
}

/// The model of a `PythonDistribution`.
#[verifier::ext_equal]
pub struct DistributionView {
    pub name: Seq<char>,
    pub root: Seq<char>,
    pub metadata_dir: Seq<char>,
    pub required: Seq<Seq<char>>,
    pub wheel_tags: Seq<Seq<char>>,
    pub native: Option<Seq<char>>,
}

impl View for PythonDistribution {
    type V = DistributionView;

    open spec fn view(&self) -> DistributionView {
        DistributionView {
            name: self.name@,
            root: self.root@,
            metadata_dir: self.metadata_dir@,
            required: text::texts(self.required@),
            wheel_tags: text::texts(self.wheel_tags@),
            native: text::option_view(self.native),
        }
    }
}

/// What was seen of a project: its files relative to its root, the contents of
/// those of them that are text and that detection reads, and the Python packages
/// installed for it.
#[derive(Debug)]
pub struct ProjectInspection {
    pub root: String,
    pub files: Vec<String>,
    pub sources: Vec<(String, String)>,
    pub packages: Vec<PythonDistribution>,
}

/// The model of a `ProjectInspection`.
#[verifier::ext_equal]
pub struct ProjectView {
    pub root: Seq<char>,
    pub files: Seq<Seq<char>>,
    pub sources: Seq<(Seq<char>, Seq<char>)>,
    pub packages: Seq<DistributionView>,
}

/// The paths and contents of source files.
pub open spec fn sources_view(v: Seq<(String, String)>) -> Seq<(Seq<char>, Seq<char>)> {
    v.map_values(|s: (String, String)| (s.0@, s.1@))
}

/// The models of packages.
pub open spec fn packages_view(v: Seq<PythonDistribution>) -> Seq<DistributionView> {
    v.map_values(|p: PythonDistribution| p@)
}

impl View for ProjectInspection {
    type V = ProjectView;

    open spec fn view(&self) -> ProjectView {
        ProjectView {
            root: self.root@,
            files: text::texts(self.files@),
            sources: sources_view(self.sources@),
            packages: packages_view(self.packages@),
        }
    }
}

/// Whether a project has the file `relative`.
pub open spec fn project_has(p: ProjectView, relative: Seq<char>) -> bool {
    exists|i: int| 0 <= i < p.files.len() && paths::same_path(#[trigger] p.files[i], relative)
}

/// The text of the file `relative` of a list of sources.
pub open spec fn source_among(sources: Seq<(Seq<char>, Seq<char>)>, relative: Seq<char>) -> Option<
    Seq<char>,
>
    decreases sources.len(),
{
    if sources.len() == 0 {
        None
    } else if paths::same_path(sources[0].0, relative) {
        Some(sources[0].1)
    } else {
        source_among(sources.drop_first(), relative)
    }
}

/// The text of the file `relative` of a project, if it could be read.
pub open spec fn source_text(p: ProjectView, relative: Seq<char>) -> Option<Seq<char>> {
    source_among(p.sources, relative)
}

impl ProjectInspection {
    /// The project at `root`, with the files that `walk` has found.
    pub fn discover(
        root: &str,
        walk: Walk,
        sources: Vec<(String, String)>,
        packages: Vec<PythonDistribution>,
    ) -> (r: Self)
        ensures
            r@ == (ProjectView {
                root: root@,
                files: paths::sorted_paths(walk@.found),
                sources: sources_view(sources@),
                packages: packages_view(packages@),
            }),
    {
        ProjectInspection { root: root.to_owned(), files: walk.into_files(), sources, packages }
    }

    /// Whether the project has the file `relative`.
    pub fn has_file(&self, relative: &str) -> (r: bool)
        ensures
            r == project_has(self@, relative@),
    {
        let mut i: usize = 0;
        while i < self.files.len()
            invariant
                i <= self.files@.len(),
                forall|j: int|
                    0 <= j < i ==> !paths::same_path(#[trigger] self@.files[j], relative@),
            decreases self.files@.len() - i,
        {
            assert(self@.files[i as int] == self.files@[i as int]@);
            if path_eq(self.files[i].as_str(), relative) {
                return true;
            }
            i = i + 1;
        }
        false
    }

    /// The text of the file `relative`, if it could be read.
    pub fn source(&self, relative: &str) -> (r: Option<&str>)
        ensures
            match r {
                Some(t) => source_text(self@, relative@) == Some(t@),
                None => source_text(self@, relative@) is None,
            },
    {
        let ghost all = self@.sources;
        assert(all.skip(0) =~= all);
        let mut i: usize = 0;
        while i < self.sources.len()
            invariant
                i <= self.sources@.len(),
                all == sources_view(self.sources@),
                source_among(all, relative@) == source_among(all.skip(i as int), relative@),
            decreases self.sources@.len() - i,
        {
            assert(all[i as int] == (self.sources@[i as int].0@, self.sources@[i as int].1@));
            assert(all.skip(i as int).drop_first() =~= all.skip(i + 1));
            if path_eq(self.sources[i].0.as_str(), relative) {
                return Some(self.sources[i].1.as_str());
            }
            i = i + 1;
        }
        None
    }
}

/// A project has a file exactly if the walk through its directories can reach it.
pub proof fn project_has_what_is_reachable(
    w: WalkView,
    disk: spec_fn(Seq<char>) -> Seq<(Seq<char>, EntryKind)>,
    p: ProjectView,
    relative: Seq<char>,
)
    requires
        walk::on_the_way(w, disk),
        w.pending.len() == 0,
        p.files == paths::sorted_paths(w.found),
    ensures
        project_has(p, relative) <==> exists|file: Seq<char>| #[trigger]
            walk::reachable(w.policy, disk, Seq::empty(), file) && paths::same_path(file, relative),
{
    broadcast use vstd::seq_lib::group_to_multiset_ensures;

    let key = |f: Seq<char>| paths::path_key(f);
    ordering::stable_sort_sorts(w.found, key);
    assert forall|file: Seq<char>| p.files.contains(file) == w.found.contains(file) by {
        assert(p.files.to_multiset().contains(file) == w.found.to_multiset().contains(file));
    }
    if project_has(p, relative) {
        let i = choose|i: int|
            0 <= i < p.files.len() && paths::same_path(#[trigger] p.files[i], relative);
        assert(p.files.contains(p.files[i]));
        walk::walk_finds_what_is_reachable(w, disk, p.files[i]);
    }
    assert forall|file: Seq<char>| #[trigger]
        walk::reachable(w.policy, disk, Seq::empty(), file) && paths::same_path(
            file,
            relative,
        ) implies project_has(p, relative) by {
        walk::walk_finds_what_is_reachable(w, disk, file);
        assert(p.files.contains(file));
        let i = choose|i: int| 0 <= i < p.files.len() && p.files[i] == file;
        assert(paths::same_path(p.files[i], relative));
    }
}

/// An application that an adapter found in a project.
#[derive(Debug, PartialEq, Eq)]
pub struct DetectionCandidate {
    pub language: Language,
    pub application_interface: Option<ApplicationInterface>,
    pub entrypoint: Option<String>,
    pub framework_hint: Option<String>,
    pub confidence: u8,
    pub evidence: Vec<DetectionEvidence>,
}

/// The model of a `DetectionCandidate` and of a `ProjectModel`.
#[verifier::ext_equal]
pub struct CandidateView {
    pub language: Language,
    pub application_interface: Option<Seq<char>>,
    pub entrypoint: Option<Seq<char>>,
    pub framework_hint: Option<Seq<char>>,
    pub confidence: u8,
    pub evidence: Seq<EvidenceView>,
}

impl View for DetectionCandidate {
    type V = CandidateView;

    open spec fn view(&self) -> CandidateView {
        CandidateView {
            language: self.language,
            application_interface: interface_view(self.application_interface),
            entrypoint: text::option_view(self.entrypoint),
            framework_hint: text::option_view(self.framework_hint),
            confidence: self.confidence,
            evidence: evidence_view(self.evidence@),
        }
    }
}

impl Clone for DetectionCandidate {
    fn clone(&self) -> (r: Self)
        ensures
            r@ == self@,
    {
        DetectionCandidate {
            language: self.language,
            application_interface: clone_interface(&self.application_interface),
            entrypoint: clone_text(&self.entrypoint),
            framework_hint: clone_text(&self.framework_hint),
            confidence: self.confidence,
            evidence: clone_evidence(&self.evidence),
        }
    }
}

/// The models of candidates.
pub open spec fn candidates_view(v: Seq<DetectionCandidate>) -> Seq<CandidateView> {
    v.map_values(|c: DetectionCandidate| c@)
}

/// The model of an optional candidate.
pub open spec fn candidate_view(c: Option<DetectionCandidate>) -> Option<CandidateView> {
    match c {
        Some(c) => Some(c@),
        None => None,
    }
}

/// The application that an adapter is to bridge.
#[derive(Debug, PartialEq, Eq)]
pub struct ProjectModel {
    pub language: Language,
    pub application_interface: Option<ApplicationInterface>,
    pub entrypoint: Option<String>,
    pub framework_hint: Option<String>,
    pub confidence: u8,
    pub evidence: Vec<DetectionEvidence>,
}

impl View for ProjectModel {
    type V = CandidateView;

    open spec fn view(&self) -> CandidateView {
        CandidateView {
            language: self.language,
            application_interface: interface_view(self.application_interface),
            entrypoint: text::option_view(self.entrypoint),
            framework_hint: text::option_view(self.framework_hint),
            confidence: self.confidence,
            evidence: evidence_view(self.evidence@),
        }
    }
}

/// Where an adapter put its bridge.
#[derive(Debug, PartialEq, Eq)]
pub struct AdapterWorkspace {
    pub root: String,
    pub source_roots: Vec<String>,
    pub wit_path: Option<String>,
    pub entrypoint: String,
    pub adapter: AdapterId,
    pub digest: String,
    pub generated_files: Vec<String>,
}

/// The model of an `AdapterWorkspace`.
#[verifier::ext_equal]
pub struct WorkspaceView {
    pub root: Seq<char>,
    pub source_roots: Seq<Seq<char>>,
    pub wit_path: Option<Seq<char>>,
    pub entrypoint: Seq<char>,
    pub adapter: Seq<char>,
    pub digest: Seq<char>,
    pub generated_files: Seq<Seq<char>>,
}

impl View for AdapterWorkspace {
    type V = WorkspaceView;

    open spec fn view(&self) -> WorkspaceView {
        WorkspaceView {
            root: self.root@,
            source_roots: text::texts(self.source_roots@),
            wit_path: text::option_view(self.wit_path),
            entrypoint: self.entrypoint@,
            adapter: self.adapter@,
            digest: self.digest@,
            generated_files: text::texts(self.generated_files@),
        }
    }
}

impl Clone for AdapterWorkspace {
    fn clone(&self) -> (r: Self)
        ensures
            r@ == self@,
    {
        AdapterWorkspace {
            root: self.root.clone(),
            source_roots: clone_texts(&self.source_roots),
            wit_path: clone_text(&self.wit_path),
            entrypoint: self.entrypoint.clone(),
            adapter: self.adapter.clone(),
            digest: self.digest.clone(),
            generated_files: clone_texts(&self.generated_files),
        }
    }
}

/// The model of an optional workspace.
pub open spec fn workspace_view(w: Option<AdapterWorkspace>) -> Option<WorkspaceView> {
    match w {
        Some(w) => Some(w@),
        None => None,
    }
}

/// What an adapter prepared.
#[derive(Debug, PartialEq, Eq)]
pub struct AdapterOutput {
    pub workspace: AdapterWorkspace,
    pub runtime_world: ComponentWorld,
}

impl View for AdapterOutput {
    type V = (WorkspaceView, ComponentWorld);

    open spec fn view(&self) -> (WorkspaceView, ComponentWorld) {
        (self.workspace@, self.runtime_world)
    }
}

/// Whether an application can run in the current runtime.
#[derive(Debug, Clone, Copy, PartialEq, Eq, Structural)]
pub enum CompatibilityStatus {
    Supported,
    PotentialIssue,
    PotentiallyUnsupported,
    Unsupported,
    Unknown,
}

/// How much weight a finding has.
#[derive(Debug, Clone, Copy, PartialEq, Eq, Structural)]
pub enum CompatibilitySeverity {
    Warning,
    Error,
}

/// How sure a finding is.
#[derive(Debug, Clone, Copy, PartialEq, Eq, Structural)]
pub enum CompatibilityCertainty {
    Confirmed,
    Potential,
    Unknown,
}

/// Something that stands, or may stand, against running an application.
#[derive(Debug, PartialEq, Eq)]
pub struct CompatibilityFinding {
    pub category: String,
    pub severity: CompatibilitySeverity,
    pub certainty: CompatibilityCertainty,
    pub package: Option<String>,
    pub dependency_path: Vec<String>,
    pub evidence: Vec<DetectionEvidence>,
    pub reason: String,
    pub recommendation: String,
    pub blocks_build: bool,
}

/// The model of a `CompatibilityFinding`.
#[verifier::ext_equal]
pub struct FindingView {
    pub category: Seq<char>,
    pub severity: CompatibilitySeverity,
    pub certainty: CompatibilityCertainty,
    pub package: Option<Seq<char>>,
    pub dependency_path: Seq<Seq<char>>,
    pub evidence: Seq<EvidenceView>,
    pub reason: Seq<char>,
    pub recommendation: Seq<char>,
    pub blocks_build: bool,
}

impl View for CompatibilityFinding {
    type V = FindingView;

    open spec fn view(&self) -> FindingView {
        FindingView {
            category: self.category@,
            severity: self.severity,
            certainty: self.certainty,
            package: text::option_view(self.package),
            dependency_path: text::texts(self.dependency_path@),
            evidence: evidence_view(self.evidence@),
            reason: self.reason@,
            recommendation: self.recommendation@,
            blocks_build: self.blocks_build,
        }
    }
}

/// The models of findings.
pub open spec fn findings_view(v: Seq<CompatibilityFinding>) -> Seq<FindingView> {
    v.map_values(|f: CompatibilityFinding| f@)
}

/// What an inspection of an application's compatibility found.
#[derive(Debug, PartialEq, Eq)]
pub struct CompatibilityReport {
    pub status: CompatibilityStatus,
    pub messages: Vec<String>,
    pub findings: Vec<CompatibilityFinding>,
}

/// The model of a `CompatibilityReport`.
#[verifier::ext_equal]
pub struct ReportView {
    pub status: CompatibilityStatus,
    pub messages: Seq<Seq<char>>,
    pub findings: Seq<FindingView>,
}

impl View for CompatibilityReport {
    type V = ReportView;

    open spec fn view(&self) -> ReportView {
        ReportView {
            status: self.status,
            messages: text::texts(self.messages@),
            findings: findings_view(self.findings@),
        }
    }
}

/// Whether a finding stops the build.
pub open spec fn any_blocks(findings: Seq<FindingView>) -> bool {
    exists|i: int| 0 <= i < findings.len() && (#[trigger] findings[i]).blocks_build
}

/// A report with one message and no finding.
pub open spec fn supported_report(message: Seq<char>) -> ReportView {
    ReportView {
        status: CompatibilityStatus::Supported,
        messages: seq![message],
        findings: Seq::empty(),
    }
}

/// Whether one of the findings stops the build.
pub fn findings_block(findings: &Vec<CompatibilityFinding>) -> (r: bool)
    ensures
        r == any_blocks(findings_view(findings@)),
{
    let ghost all = findings_view(findings@);
    let mut i: usize = 0;
    while i < findings.len()
        invariant
            i <= findings@.len(),
            all == findings_view(findings@),
            forall|j: int| 0 <= j < i ==> !(#[trigger] all[j]).blocks_build,
        decreases findings@.len() - i,
    {
        assert(all[i as int] == findings@[i as int]@);
        if findings[i].blocks_build {
            return true;
        }
        i = i + 1;
    }
    false
}

impl CompatibilityReport {
    /// A report with one message and no finding.
    pub fn supported(message: &str) -> (r: Self)
        ensures
            r@ == supported_report(message@),
    {
        let mut messages: Vec<String> = Vec::new();
        messages.push(message.to_owned());
        let r = CompatibilityReport {
            status: CompatibilityStatus::Supported,
            messages,
            findings: Vec::new(),
        };
        assert(r@ =~= supported_report(message@));
        r
    }

    /// Whether a finding stops the build.
    pub fn blocks_build(&self) -> (r: bool)
        ensures
            r == any_blocks(self@.findings),
    {
        findings_block(&self.findings)
    }
}

} // verus!
