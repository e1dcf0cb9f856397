//! The adapter of Python applications with an ASGI interface.

use crate::adapter;
use crate::adapter::{
    adapter_digest_bytes, paths_of, requirement_not_met, source_roots, split_entrypoint,
    AdapterHost, AdapterPlan, ApplicationAdapter, HostView, PlanView, PrepareStep, StepView,
};
use crate::artifact::ComponentWorld;
use crate::bridges;
use crate::bridges::asgi_bridge;
use crate::error;
use crate::error::{ErrorKind, ErrorView, PitError};
use crate::fingerprint;
use crate::fingerprint::{sort_files, SourceFile};
use crate::language::{AdapterId, ApplicationInterface, Language};
use crate::paths;
use crate::paths::{file_name_of, path_join};
use crate::project;
use crate::project::{
    AdapterOutput, AdapterWorkspace, CandidateView, CompatibilityReport, DetectionCandidate,
    DetectionEvidence, EvidenceView, ProjectInspection, ProjectModel, ProjectView, ReportView,
    WorkspaceView,
};
use crate::python_report;
use crate::python_report::inspect_python_dependencies;
use crate::text;
use crate::text::{contains, or_empty, text_eq, to_lower};
use vstd::prelude::*;

verus! {

/// The version of the adapter, which identifies its bridges.
pub const ASGI_ADAPTER_VERSION: &'static str = "python/asgi-v1";

/// Bridges ASGI applications to `wasi:http/proxy`.
#[derive(Debug)]
pub struct PythonAsgiAdapter {
    id: AdapterId,
    interface: ApplicationInterface,
}

impl PythonAsgiAdapter {
    /// The adapter.
    pub fn new() -> (r: Self)
        ensures
            r.id_text() == "python/asgi"@,
            r.interface_text() == "asgi"@,
    {
        proof {
            reveal_strlit("python/asgi");
            reveal_strlit("asgi");
        }
        PythonAsgiAdapter {
            id: AdapterId::known("python/asgi"),
            interface: ApplicationInterface::known("asgi"),
        }
    }
}

impl Default for PythonAsgiAdapter {
    fn default() -> (r: Self)
        ensures
            r.id_text() == "python/asgi"@,
            r.interface_text() == "asgi"@,
    {
        PythonAsgiAdapter::new()
    }
}

/// Whether a source looks like an ASGI application.
pub open spec fn has_asgi_shape(source: Seq<char>) -> bool {
    text::has_text(source, "def app"@) || text::has_text(source, "app ="@) || text::has_text(
        source,
        "async def app"@,
    )
}

/// The file of a project's metadata.
pub open spec fn metadata_file(p: ProjectView) -> Option<Seq<char>> {
    if project::project_has(p, "pyproject.toml"@) {
        Some("pyproject.toml"@)
    } else if project::project_has(p, "requirements.txt"@) {
        Some("requirements.txt"@)
    } else if project::project_has(p, "setup.py"@) {
        Some("setup.py"@)
    } else {
        None
    }
}

/// The file that holds the application.
pub open spec fn application_file(p: ProjectView) -> Option<Seq<char>> {
    if project::project_has(p, "main.py"@) {
        Some("main.py"@)
    } else if project::project_has(p, "app.py"@) {
        Some("app.py"@)
    } else {
        None
    }
}

/// The framework that a dependency file names.
pub open spec fn framework_named(contents: Seq<char>) -> Option<Seq<char>> {
    if text::has_text(text::lower(contents), "fastapi"@) {
        Some("FastAPI"@)
    } else if text::has_text(text::lower(contents), "starlette"@) {
        Some("Starlette"@)
    } else {
        None
    }
}

/// Whether a file lists dependencies.
pub open spec fn is_dependency_file(path: Seq<char>) -> bool {
    paths::file_name(path) == Some("pyproject.toml"@) || paths::file_name(path) == Some(
        "requirements.txt"@,
    )
}

/// The framework that a file of a project names.
pub open spec fn framework_of(p: ProjectView, file: Seq<char>) -> Option<Seq<char>> {
    match project::source_text(p, file) {
        Some(contents) => if is_dependency_file(file) {
            framework_named(contents)
        } else {
            None
        },
        None => None,
    }
}

/// The framework that the first of `files` names that names one.
pub open spec fn framework_among(p: ProjectView, files: Seq<Seq<char>>) -> Option<Seq<char>>
    decreases files.len(),
{
    if files.len() == 0 {
        None
    } else {
        match framework_of(p, files[0]) {
            Some(name) => Some(name),
            None => framework_among(p, files.drop_first()),
        }
    }
}

/// What speaks for an ASGI application.
pub open spec fn asgi_evidence(
    metadata: Seq<char>,
    framework: Option<Seq<char>>,
    file: Seq<char>,
    entrypoint: Seq<char>,
) -> Seq<EvidenceView> {
    seq![EvidenceView { source: metadata, detail: "Python project metadata"@ }] + (match framework {
        Some(name) => seq![
            EvidenceView {
                source: "Python dependency metadata"@,
                detail: "framework hint: "@ + name,
            },
        ],
        None => Seq::empty(),
    }) + seq![
        EvidenceView { source: file, detail: "ASGI entrypoint candidate "@ + entrypoint },
    ]
}

/// The application that is found in a project. A framework is a hint and never
/// a condition.
pub open spec fn asgi_candidate(interface: Seq<char>, p: ProjectView) -> Option<CandidateView> {
    match (metadata_file(p), application_file(p)) {
        (Some(metadata), Some(file)) => match project::source_text(p, file) {
            Some(source) => if has_asgi_shape(source) {
                let entrypoint = if project::project_has(p, "main.py"@) {
                    "main:app"@
                } else {
                    "app:app"@
                };
                let framework = framework_among(p, p.files);
                Some(
                    CandidateView {
                        language: Language::Python,
                        application_interface: Some(interface),
                        entrypoint: Some(entrypoint),
                        framework_hint: framework,
                        confidence: 90,
                        evidence: asgi_evidence(metadata, framework, file, entrypoint),
                    },
                )
            } else {
                None
            },
            None => None,
        },
        _ => None,
    }
}

/// The outcome of checking an application.
pub open spec fn asgi_checked(id: Seq<char>, interface: Seq<char>, m: CandidateView) -> Result<
    ReportView,
    ErrorView,
> {
    if m.language != Language::Python {
        Err(adapter::requirement_error(id, "Python"@))
    } else if m.application_interface != Some(interface) {
        Err(adapter::requirement_error(id, "the ASGI interface"@))
    } else if text::text_or_empty(m.entrypoint).len() == 0 {
        Err(
            error::error(
                ErrorKind::Adapter,
                "ASGI adapter requires an entrypoint such as main:app"@,
            ),
        )
    } else {
        Ok(project::supported_report("ASGI is bridged to wasi:http/proxy"@))
    }
}

/// Where the bridge is generated.
pub open spec fn asgi_root(project_root: Seq<char>) -> Seq<char> {
    paths::join_path(project_root, ".pit/generated/adapters/python-asgi"@)
}

/// A report with what the dependencies add to it.
pub open spec fn with_dependencies(first: ReportView, dependencies: ReportView) -> ReportView {
    ReportView {
        status: dependencies.status,
        messages: first.messages + dependencies.messages,
        findings: first.findings + dependencies.findings,
    }
}

/// The framework that a file of the project names, if one does.
fn find_framework(project: &ProjectInspection) -> (r: Option<String>)
    ensures
        text::option_view(r) == framework_among(project@, project@.files),
{
    let ghost p = project@;
    let ghost all = p.files;
    assert(all.skip(0) =~= all);
    let mut i: usize = 0;
    while i < project.files.len()
        invariant
            i <= project.files@.len(),
            p == project@,
            all == p.files,
            framework_among(p, all) == framework_among(p, all.skip(i as int)),
        decreases project.files@.len() - i,
    {
        assert(all[i as int] == project.files@[i as int]@);
        assert(all.skip(i as int).drop_first() =~= all.skip(i + 1));
        let file = project.files[i].as_str();
        let listed = match file_name_of(file) {
            Some(name) => text_eq(name.as_str(), "pyproject.toml") || text_eq(
                name.as_str(),
                "requirements.txt",
            ),
            None => false,
        };
        if listed {
            if let Some(contents) = project.source(file) {
                let lowered = to_lower(contents);
                if contains(lowered.as_str(), "fastapi") {
                    return Some("FastAPI".to_owned());
                } else if contains(lowered.as_str(), "starlette") {
                    return Some("Starlette".to_owned());
                }
            }
        }
        i = i + 1;
    }
    None
}

impl ApplicationAdapter for PythonAsgiAdapter {
    closed spec fn id_text(&self) -> Seq<char> {
        self.id@
    }

    open spec fn takes_language(&self) -> Language {
        Language::Python
    }

    closed spec fn interface_text(&self) -> Seq<char> {
        self.interface@
    }

    open spec fn gives_world(&self) -> ComponentWorld {
        ComponentWorld::WasiHttpProxy
    }

    open spec fn detected(&self, project: ProjectView) -> Option<CandidateView> {
        asgi_candidate(self.interface_text(), project)
    }

    open spec fn validated(&self, model: CandidateView) -> Result<ReportView, ErrorView> {
        asgi_checked(self.id_text(), self.interface_text(), model)
    }

    open spec fn inspected(&self, project: ProjectView, model: CandidateView) -> Result<
        ReportView,
        ErrorView,
    > {
        match self.validated(model) {
            Ok(report) => Ok(with_dependencies(report, python_report::python_report(project))),
            Err(e) => Err(e),
        }
    }

    open spec fn planned(
        &self,
        project: ProjectView,
        model: CandidateView,
        host: HostView,
    ) -> Result<PlanView, ErrorView> {
        match self.validated(model) {
            Err(e) => Err(e),
            Ok(_) => match adapter::entrypoint_parts(model.entrypoint->0) {
                Err(e) => Err(e),
                Ok((module, attribute)) => {
                    let root = asgi_root(project.root);
                    let wit = paths::join_path(root, "wit"@);
                    Ok(
                        PlanView {
                            root,
                            steps: seq![
                                StepView::CreateDirectory(root),
                                StepView::CreateDirectory(wit),
                                StepView::CopyTree { source: host.wit_template, destination: wit },
                                StepView::WriteFile {
                                    path: paths::join_path(root, "app.py"@),
                                    contents: bridges::asgi_bridge_text(
                                        bridges::quoted_text(module),
                                        bridges::quoted_text(attribute),
                                    ),
                                },
                            ],
                            assets: None,
                        },
                    )
                },
            },
        }
    }

    open spec fn completed(
        &self,
        project: ProjectView,
        model: CandidateView,
        host: HostView,
        files: Seq<(Seq<char>, Seq<u8>)>,
    ) -> Result<(WorkspaceView, ComponentWorld), ErrorView> {
        match self.validated(model) {
            Err(e) => Err(e),
            Ok(_) => match adapter::entrypoint_parts(model.entrypoint->0) {
                Err(e) => Err(e),
                Ok(_) => {
                    let root = asgi_root(project.root);
                    let sorted = fingerprint::sorted_files(files);
                    Ok(
                        (
                            WorkspaceView {
                                root,
                                source_roots: seq![root, project.root],
                                wit_path: Some(paths::join_path(root, "wit"@)),
                                entrypoint: "app"@,
                                adapter: self.id_text(),
                                digest: adapter::bridge_digest(
                                    ASGI_ADAPTER_VERSION@,
                                    self.id_text(),
                                    self.interface_text(),
                                    model.entrypoint->0,
                                    sorted,
                                ),
                                generated_files: adapter::file_paths(sorted),
                            },
                            ComponentWorld::WasiHttpProxy,
                        ),
                    )
                },
            },
        }
    }

    fn id(&self) -> (r: AdapterId) {
        self.id.clone()
    }

    fn language(&self) -> (r: Language) {
        Language::Python
    }

    fn interface(&self) -> (r: &ApplicationInterface) {
        &self.interface
    }

    fn runtime_world(&self) -> (r: ComponentWorld) {
        ComponentWorld::WasiHttpProxy
    }

    fn detect(&self, project: &ProjectInspection) -> (r: Option<DetectionCandidate>) {
        let main = project.has_file("main.py");
        let app = project.has_file("app.py");
        let metadata = if project.has_file("pyproject.toml") {
            "pyproject.toml"
        } else if project.has_file("requirements.txt") {
            "requirements.txt"
        } else if project.has_file("setup.py") {
            "setup.py"
        } else {
            return None;
        };
        if !main && !app {
            return None;
        }
        let file = if main {
            "main.py"
        } else {
            "app.py"
        };
        let source = match project.source(file) {
            Some(source) => source,
            None => {
                return None;
            },
        };
        if !contains(source, "def app") && !contains(source, "app =") && !contains(
            source,
            "async def app",
        ) {
            return None;
        }
        let mut evidence: Vec<DetectionEvidence> = Vec::new();
        evidence.push(DetectionEvidence::new(metadata, "Python project metadata"));
        let framework_hint = find_framework(project);
        if let Some(framework) = &framework_hint {
            let mut detail = "framework hint: ".to_owned();
            detail.append(framework.as_str());
            evidence.push(DetectionEvidence::new("Python dependency metadata", detail.as_str()));
        }
        let entrypoint = if main {
            "main:app"
        } else {
            "app:app"
        };
        let mut detail = "ASGI entrypoint candidate ".to_owned();
        detail.append(entrypoint);
        evidence.push(DetectionEvidence::new(file, detail.as_str()));
        assert(project::evidence_view(evidence@) =~= asgi_evidence(
            metadata@,
            text::option_view(framework_hint),
            file@,
            entrypoint@,
        ));
        Some(
            DetectionCandidate {
                language: Language::Python,
                application_interface: Some(self.interface.clone()),
                entrypoint: Some(entrypoint.to_owned()),
                framework_hint,
                confidence: 90,
                evidence,
            },
        )
    }

    fn validate(&self, model: &ProjectModel) -> (r: Result<CompatibilityReport, PitError>) {
        if model.language != Language::Python {
            return Err(requirement_not_met(&self.id, "Python"));
        }
        let fits = match &model.application_interface {
            Some(i) => text_eq(i.as_str(), self.interface.as_str()),
            None => false,
        };
        if !fits {
            return Err(requirement_not_met(&self.id, "the ASGI interface"));
        }
        proof {
            reveal_strlit("");
        }
        if or_empty(&model.entrypoint).is_empty() {
            return Err(
                PitError::fixed(
                    ErrorKind::Adapter,
                    "ASGI adapter requires an entrypoint such as main:app",
                ),
            );
        }
        Ok(CompatibilityReport::supported("ASGI is bridged to wasi:http/proxy"))
    }

    fn inspect_compatibility(&self, project: &ProjectInspection, model: &ProjectModel) -> (r: Result<
        CompatibilityReport,
        PitError,
    >) {
        let mut report = match self.validate(model) {
            Ok(report) => report,
            Err(e) => {
                return Err(e);
            },
        };
        let ghost first = report@;
        let mut dependencies = inspect_python_dependencies(project);
        let ghost second = dependencies@;
        let status = dependencies.status;
        let mut messages = report.messages;
        messages.append(&mut dependencies.messages);
        let mut findings = report.findings;
        findings.append(&mut dependencies.findings);
        assert(text::texts(messages@) =~= first.messages + second.messages);
        assert(project::findings_view(findings@) =~= first.findings + second.findings);
        Ok(CompatibilityReport { status, messages, findings })
    }

    fn prepare(
        &self,
        project: &ProjectInspection,
        model: &ProjectModel,
        host: &AdapterHost,
    ) -> (r: Result<AdapterPlan, PitError>) {
        if let Err(e) = self.validate(model) {
            return Err(e);
        }
        proof {
            reveal_strlit("");
        }
        let (module, attribute) = match split_entrypoint(or_empty(&model.entrypoint)) {
            Ok(parts) => parts,
            Err(e) => {
                return Err(e);
            },
        };
        let root = path_join(project.root.as_str(), ".pit/generated/adapters/python-asgi");
        let wit = path_join(root.as_str(), "wit");
        let mut steps: Vec<PrepareStep> = Vec::new();
        steps.push(PrepareStep::CreateDirectory(root.clone()));
        steps.push(PrepareStep::CreateDirectory(wit.clone()));
        steps.push(
            PrepareStep::CopyTree { source: host.wit_template.clone(), destination: wit },
        );
        steps.push(
            PrepareStep::WriteFile {
                path: path_join(root.as_str(), "app.py"),
                contents: asgi_bridge(module.as_str(), attribute.as_str()),
            },
        );
        let plan = AdapterPlan { root, steps, assets: None };
        assert(plan@.steps =~= self.planned(project@, model@, host@)->Ok_0.steps);
        Ok(plan)
    }

    fn complete(
        &self,
        project: &ProjectInspection,
        model: &ProjectModel,
        host: &AdapterHost,
        files: Vec<SourceFile>,
    ) -> (r: Result<AdapterOutput, PitError>) {
        if let Err(e) = self.validate(model) {
            return Err(e);
        }
        proof {
            reveal_strlit("");
        }
        let entrypoint = or_empty(&model.entrypoint);
        if let Err(e) = split_entrypoint(entrypoint) {
            return Err(e);
        }
        let root = path_join(project.root.as_str(), ".pit/generated/adapters/python-asgi");
        let sorted = sort_files(files);
        let digest = adapter_digest_bytes(
            ASGI_ADAPTER_VERSION,
            &self.id,
            &self.interface,
            entrypoint,
            &sorted,
        );
        let workspace = AdapterWorkspace {
            source_roots: source_roots(root.as_str(), project.root.as_str()),
            wit_path: Some(path_join(root.as_str(), "wit")),
            entrypoint: "app".to_owned(),
            adapter: self.id.clone(),
            digest,
            generated_files: paths_of(&sorted),
            root,
        };
        Ok(AdapterOutput { workspace, runtime_world: ComponentWorld::WasiHttpProxy })
    }
}

} // verus!
