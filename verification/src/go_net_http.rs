//! The adapter of Go applications with a `net/http` handler.

use crate::adapter;
use crate::adapter::{
    adapter_digest_bytes, join_files, requirement_not_met, single_evidence, source_roots,
    split_entrypoint, AdapterHost, AdapterPlan, ApplicationAdapter, HostView, PlanView,
    PrepareStep, StepView,
};
use crate::artifact::ComponentWorld;
use crate::bridges;
use crate::bridges::go_net_http_bridge;
use crate::error;
use crate::error::{ErrorKind, ErrorView, PitError};
use crate::fingerprint;
use crate::fingerprint::{sort_files, SourceFile};
use crate::language::{AdapterId, ApplicationInterface, Language};
use crate::paths;
use crate::paths::{path_has_extension, path_join};
use crate::project;
use crate::project::{
    AdapterOutput, AdapterWorkspace, CandidateView, CompatibilityReport, DetectionCandidate,
    EvidenceView, ProjectInspection, ProjectModel, ProjectView, ReportView, WorkspaceView,
};
use crate::text;
use crate::text::{contains, or_empty, text_eq};
use vstd::prelude::*;

verus! {

/// The version of the adapter, which identifies its bridges.
pub const GO_NET_HTTP_ADAPTER_VERSION: &'static str = "go/net-http-v1";

/// Bridges `http.Handler` to `wasi:http/proxy`.
#[derive(Debug)]
pub struct GoNetHttpAdapter {
    id: AdapterId,
    interface: ApplicationInterface,
}

impl GoNetHttpAdapter {
    /// The adapter.
    pub fn new() -> (r: Self)
        ensures
            r.id_text() == "go/net-http"@,
            r.interface_text() == "net-http"@,
    {
        proof {
            reveal_strlit("go/net-http");
            reveal_strlit("net-http");
        }
        GoNetHttpAdapter {
            id: AdapterId::known("go/net-http"),
            interface: ApplicationInterface::known("net-http"),
        }
    }
}

impl Default for GoNetHttpAdapter {
    fn default() -> (r: Self)
        ensures
            r.id_text() == "go/net-http"@,
            r.interface_text() == "net-http"@,
    {
        GoNetHttpAdapter::new()
    }
}

/// Whether a source looks like a `net/http` handler.
pub open spec fn has_handler_shape(source: Seq<char>) -> bool {
    text::has_text(source, "http.Handler"@) || text::has_text(source, "ServeHTTP"@)
}

/// Whether a file of a project is a Go source that looks like a handler.
pub open spec fn is_handler_file(p: ProjectView, file: Seq<char>) -> bool {
    paths::path_extension(file) == Some("go"@) && match project::source_text(p, file) {
        Some(source) => has_handler_shape(source),
        None => false,
    }
}

/// The application that is found in a project.
pub open spec fn go_candidate(interface: Seq<char>, p: ProjectView) -> Option<CandidateView> {
    if project::project_has(p, "go.mod"@) && exists|i: int|
        0 <= i < p.files.len() && is_handler_file(p, #[trigger] p.files[i]) {
        Some(
            CandidateView {
                language: Language::Go,
                application_interface: Some(interface),
                entrypoint: Some("app:Handler"@),
                framework_hint: None,
                confidence: 65,
                evidence: seq![
                    EvidenceView {
                        source: "Go source inspection"@,
                        detail: "net/http Handler shape"@,
                    },
                ],
            },
        )
    } else {
        None
    }
}

/// What is said of a handler in a package that cannot be imported.
pub const NOT_IMPORTABLE: &'static str = "Go net/http adapter requires the Handler in an importable package (for example app:Handler); a root package main would create an import cycle";

/// The outcome of checking an application.
pub open spec fn go_checked(id: Seq<char>, interface: Seq<char>, m: CandidateView) -> Result<
    ReportView,
    ErrorView,
> {
    let entrypoint = text::text_or_empty(m.entrypoint);
    if m.language != Language::Go {
        Err(adapter::requirement_error(id, "Go"@))
    } else if m.application_interface != Some(interface) {
        Err(adapter::requirement_error(id, "the net/http interface"@))
    } else if !text::has_text(entrypoint, ":"@) {
        Err(
            error::error(
                ErrorKind::Adapter,
                "Go net/http adapter requires an entrypoint such as app:Handler"@,
            ),
        )
    } else {
        match adapter::entrypoint_parts(entrypoint) {
            Err(e) => Err(e),
            Ok((package, symbol)) => if package == "main"@ || package == "."@ {
                Err(error::error(ErrorKind::Adapter, NOT_IMPORTABLE@))
            } else {
                Ok(
                    project::supported_report(
                        "Go http.Handler is bridged to wasi:http/proxy without a service listener"@,
                    ),
                )
            },
        }
    }
}

/// Where the bridge is generated.
pub open spec fn go_root(project_root: Seq<char>) -> Seq<char> {
    paths::join_path(project_root, ".pit/generated/adapters/go-net-http"@)
}

/// The package of the bridge.
pub open spec fn go_package(root: Seq<char>) -> Seq<char> {
    paths::join_path(root, "export_wasi_http_incoming_handler"@)
}

impl ApplicationAdapter for GoNetHttpAdapter {
    closed spec fn id_text(&self) -> Seq<char> {
        self.id@
    }

    open spec fn takes_language(&self) -> Language {
        Language::Go
    }

    closed spec fn interface_text(&self) -> Seq<char> {
        self.interface@
    }

    open spec fn gives_world(&self) -> ComponentWorld {
        ComponentWorld::WasiHttpProxy
    }

    open spec fn detected(&self, project: ProjectView) -> Option<CandidateView> {
        go_candidate(self.interface_text(), project)
    }

    open spec fn validated(&self, model: CandidateView) -> Result<ReportView, ErrorView> {
        go_checked(self.id_text(), self.interface_text(), model)
    }

    open spec fn inspected(&self, project: ProjectView, model: CandidateView) -> Result<
        ReportView,
        ErrorView,
    > {
        self.validated(model)
    }

    open spec fn planned(
        &self,
        project: ProjectView,
        model: CandidateView,
        host: HostView,
    ) -> Result<PlanView, ErrorView> {
        match self.validated(model) {
            Err(e) => Err(e),
            Ok(_) => if !project::project_has(project, "go.mod"@) {
                Err(
                    error::error(
                        ErrorKind::Adapter,
                        "go.mod must exist for the net/http adapter"@,
                    ),
                )
            } else {
                let (package, symbol) = adapter::entrypoint_parts(
                    text::text_or_empty(model.entrypoint),
                )->Ok_0;
                let root = go_root(project.root);
                Ok(
                    PlanView {
                        root,
                        steps: seq![
                            StepView::CreateDirectory(go_package(root)),
                            StepView::WriteFile {
                                path: paths::join_path(go_package(root), "handler.go"@),
                                contents: bridges::go_bridge_text(
                                    "wit_component"@,
                                    "wit_component/"@ + package,
                                    symbol,
                                ),
                            },
                        ],
                        assets: None,
                    },
                )
            },
        }
    }

    open spec fn completed(
        &self,
        project: ProjectView,
        model: CandidateView,
        host: HostView,
        files: Seq<(Seq<char>, Seq<u8>)>,
    ) -> Result<(WorkspaceView, ComponentWorld), ErrorView> {
        match self.validated(model) {
            Err(e) => Err(e),
            Ok(_) => {
                let root = go_root(project.root);
                let sorted = fingerprint::sorted_files(files);
                Ok(
                    (
                        WorkspaceView {
                            root,
                            source_roots: seq![root, project.root],
                            wit_path: None,
                            entrypoint: "main"@,
                            adapter: self.id_text(),
                            digest: adapter::bridge_digest(
                                GO_NET_HTTP_ADAPTER_VERSION@,
                                self.id_text(),
                                self.interface_text(),
                                text::text_or_empty(model.entrypoint),
                                sorted,
                            ),
                            generated_files: adapter::below_root(root, sorted),
                        },
                        ComponentWorld::WasiHttpProxy,
                    ),
                )
            },
        }
    }

    fn id(&self) -> (r: AdapterId) {
        self.id.clone()
    }

    fn language(&self) -> (r: Language) {
        Language::Go
    }

    fn interface(&self) -> (r: &ApplicationInterface) {
        &self.interface
    }

    fn runtime_world(&self) -> (r: ComponentWorld) {
        ComponentWorld::WasiHttpProxy
    }

    fn detect(&self, project: &ProjectInspection) -> (r: Option<DetectionCandidate>) {
        if !project.has_file("go.mod") {
            return None;
        }
        let ghost p = project@;
        let mut i: usize = 0;
        while i < project.files.len()
            invariant
                i <= project.files@.len(),
                p == project@,
                project::project_has(p, "go.mod"@),
                forall|j: int| 0 <= j < i ==> !is_handler_file(p, #[trigger] p.files[j]),
            decreases project.files@.len() - i,
        {
            assert(p.files[i as int] == project.files@[i as int]@);
            let file = project.files[i].as_str();
            if path_has_extension(file, "go") {
                if let Some(source) = project.source(file) {
                    if contains(source, "http.Handler") || contains(source, "ServeHTTP") {
                        assert(is_handler_file(p, p.files[i as int]));
                        return Some(
                            DetectionCandidate {
                                language: Language::Go,
                                application_interface: Some(self.interface.clone()),
                                entrypoint: Some("app:Handler".to_owned()),
                                framework_hint: None,
                                confidence: 65,
                                evidence: single_evidence(
                                    "Go source inspection",
                                    "net/http Handler shape",
                                ),
                            },
                        );
                    }
                }
            }
            i = i + 1;
        }
        None
    }

    fn validate(&self, model: &ProjectModel) -> (r: Result<CompatibilityReport, PitError>) {
        if model.language != Language::Go {
            return Err(requirement_not_met(&self.id, "Go"));
        }
        let fits = match &model.application_interface {
            Some(i) => text_eq(i.as_str(), self.interface.as_str()),
            None => false,
        };
        if !fits {
            return Err(requirement_not_met(&self.id, "the net/http interface"));
        }
        let entrypoint = or_empty(&model.entrypoint);
        if !contains(entrypoint, ":") {
            return Err(
                PitError::fixed(
                    ErrorKind::Adapter,
                    "Go net/http adapter requires an entrypoint such as app:Handler",
                ),
            );
        }
        let (package, _) = match split_entrypoint(entrypoint) {
            Ok(parts) => parts,
            Err(e) => {
                return Err(e);
            },
        };
        if text_eq(package.as_str(), "main") || text_eq(package.as_str(), ".") {
            return Err(PitError::fixed(ErrorKind::Adapter, NOT_IMPORTABLE));
        }
        Ok(
            CompatibilityReport::supported(
                "Go http.Handler is bridged to wasi:http/proxy without a service listener",
            ),
        )
    }

    fn inspect_compatibility(&self, project: &ProjectInspection, model: &ProjectModel) -> (r: Result<
        CompatibilityReport,
        PitError,
    >) {
        self.validate(model)
    }

    fn prepare(
        &self,
        project: &ProjectInspection,
        model: &ProjectModel,
        host: &AdapterHost,
    ) -> (r: Result<AdapterPlan, PitError>) {
        if let Err(e) = self.validate(model) {
            return Err(e);
        }
        let (package, symbol) = match split_entrypoint(or_empty(&model.entrypoint)) {
            Ok(parts) => parts,
            Err(e) => {
                return Err(e);
            },
        };
        if !project.has_file("go.mod") {
            return Err(
                PitError::fixed(ErrorKind::Adapter, "go.mod must exist for the net/http adapter"),
            );
        }
        // The bindings are generated in a module of this name; the bridge
        // imports the handler through it and not through the project's own module.
        let mut import_path = "wit_component/".to_owned();
        import_path.append(package.as_str());
        let root = path_join(project.root.as_str(), ".pit/generated/adapters/go-net-http");
        let package_dir = path_join(root.as_str(), "export_wasi_http_incoming_handler");
        let mut steps: Vec<PrepareStep> = Vec::new();
        let handler = path_join(package_dir.as_str(), "handler.go");
        steps.push(PrepareStep::CreateDirectory(package_dir));
        steps.push(
            PrepareStep::WriteFile {
                path: handler,
                contents: go_net_http_bridge(
                    "wit_component",
                    import_path.as_str(),
                    symbol.as_str(),
                ),
            },
        );
        let plan = AdapterPlan { root, steps, assets: None };
        assert(plan@.steps =~= self.planned(project@, model@, host@)->Ok_0.steps);
        Ok(plan)
    }

    fn complete(
        &self,
        project: &ProjectInspection,
        model: &ProjectModel,
        host: &AdapterHost,
        files: Vec<SourceFile>,
    ) -> (r: Result<AdapterOutput, PitError>) {
        if let Err(e) = self.validate(model) {
            return Err(e);
        }
        let root = path_join(project.root.as_str(), ".pit/generated/adapters/go-net-http");
        let sorted = sort_files(files);
        let digest = adapter_digest_bytes(
            GO_NET_HTTP_ADAPTER_VERSION,
            &self.id,
            &self.interface,
            or_empty(&model.entrypoint),
            &sorted,
        );
        let workspace = AdapterWorkspace {
            source_roots: source_roots(root.as_str(), project.root.as_str()),
            wit_path: None,
            entrypoint: "main".to_owned(),
            adapter: self.id.clone(),
            digest,
            generated_files: join_files(root.as_str(), &sorted),
            root,
        };
        Ok(AdapterOutput { workspace, runtime_world: ComponentWorld::WasiHttpProxy })
    }
}

} // verus!
