//! The adapter of JavaScript and TypeScript applications with a Fetch handler.

use crate::adapter;
use crate::adapter::{
    adapter_digest_bytes, join_files, requirement_not_met, single_evidence, source_roots,
    split_entrypoint, AdapterHost, AdapterPlan, ApplicationAdapter, HostView, PlanView,
    PrepareStep, StepView,
};
use crate::artifact::ComponentWorld;
use crate::bridges;
use crate::bridges::fetch_bridge;
use crate::error;
use crate::error::{ErrorKind, ErrorView, PitError};
use crate::fingerprint;
use crate::fingerprint::{sort_files, SourceFile};
use crate::language;
use crate::language::{AdapterId, ApplicationInterface, Language};
use crate::paths;
use crate::paths::path_join;
use crate::project;
use crate::project::{
    AdapterOutput, AdapterWorkspace, CandidateView, CompatibilityReport, DetectionCandidate,
    EvidenceView, ProjectInspection, ProjectModel, ProjectView, ReportView, WorkspaceView,
};
use crate::text;
use crate::text::{contains, or_empty, text_eq};
use vstd::prelude::*;

verus! {

/// The version of the adapter, which identifies its bridges.
pub const FETCH_ADAPTER_VERSION: &'static str = "javascript-fetch-v1";

/// Bridges Fetch handlers to `wasi:http/proxy`.
#[derive(Debug)]
pub struct JavaScriptFetchAdapter {
    language: Language,
    id: AdapterId,
    interface: ApplicationInterface,
}

impl JavaScriptFetchAdapter {
    /// The adapter for one of the two languages.
    pub fn new(language: Language) -> (r: Self)
        requires
            language == Language::JavaScript || language == Language::TypeScript,
        ensures
            r.takes_language() == language,
            r.id_text() == "javascript/fetch"@,
            r.interface_text() == "fetch"@,
    {
        proof {
            reveal_strlit("javascript/fetch");
            reveal_strlit("fetch");
        }
        JavaScriptFetchAdapter {
            language,
            id: AdapterId::known("javascript/fetch"),
            interface: ApplicationInterface::known("fetch"),
        }
    }
}

/// The file that holds the handler.
pub open spec fn handler_file(language: Language) -> Seq<char> {
    if language == Language::TypeScript {
        "main.ts"@
    } else {
        "main.js"@
    }
}

/// Whether a source looks like a Fetch handler.
pub open spec fn has_fetch_shape(source: Seq<char>) -> bool {
    text::has_text(source, "fetch"@) || text::has_text(source, "addEventListener"@)
}

/// The application that is found in a project.
pub open spec fn fetch_candidate(language: Language, interface: Seq<char>, p: ProjectView) -> Option<
    CandidateView,
> {
    let file = handler_file(language);
    match project::source_text(p, file) {
        Some(source) => if project::project_has(p, "package.json"@) && project::project_has(p, file)
            && has_fetch_shape(source) {
            Some(
                CandidateView {
                    language,
                    application_interface: Some(interface),
                    entrypoint: Some("main:fetch"@),
                    framework_hint: None,
                    confidence: 70,
                    evidence: seq![
                        EvidenceView { source: file, detail: "Fetch-style handler shape"@ },
                    ],
                },
            )
        } else {
            None
        },
        None => None,
    }
}

/// The outcome of checking an application.
pub open spec fn fetch_checked(
    language: Language,
    id: Seq<char>,
    interface: Seq<char>,
    m: CandidateView,
) -> Result<ReportView, ErrorView> {
    if m.language != language {
        Err(adapter::requirement_error(id, language::language_text(language)))
    } else if m.application_interface != Some(interface) {
        Err(adapter::requirement_error(id, "the Fetch interface"@))
    } else if text::text_or_empty(m.entrypoint).len() == 0 {
        Err(
            error::error(
                ErrorKind::Adapter,
                "Fetch adapter requires an entrypoint such as main:fetch"@,
            ),
        )
    } else {
        Ok(
            project::supported_report(
                "Fetch handlers are bridged through ComponentizeJS Web Fetch semantics to wasi:http/proxy"@,
            ),
        )
    }
}

/// Where the bridge is generated.
pub open spec fn fetch_root(project_root: Seq<char>) -> Seq<char> {
    paths::join_path(project_root, ".pit/generated/adapters/javascript-fetch"@)
}

/// The file that the bridge imports the handler from, as seen from the bridge.
pub open spec fn fetch_source(language: Language, module: Seq<char>) -> Seq<char> {
    if language == Language::TypeScript && module == "main"@ {
        "../../main.js"@
    } else {
        "../../../../"@ + module + ".js"@
    }
}

impl ApplicationAdapter for JavaScriptFetchAdapter {
    closed spec fn id_text(&self) -> Seq<char> {
        self.id@
    }

    closed spec fn takes_language(&self) -> Language {
        self.language
    }

    closed spec fn interface_text(&self) -> Seq<char> {
        self.interface@
    }

    open spec fn gives_world(&self) -> ComponentWorld {
        ComponentWorld::WasiHttpProxy
    }

    open spec fn detected(&self, project: ProjectView) -> Option<CandidateView> {
        fetch_candidate(self.takes_language(), self.interface_text(), project)
    }

    open spec fn validated(&self, model: CandidateView) -> Result<ReportView, ErrorView> {
        fetch_checked(self.takes_language(), self.id_text(), self.interface_text(), model)
    }

    open spec fn inspected(&self, project: ProjectView, model: CandidateView) -> Result<
        ReportView,
        ErrorView,
    > {
        self.validated(model)
    }

    open spec fn planned(
        &self,
        project: ProjectView,
        model: CandidateView,
        host: HostView,
    ) -> Result<PlanView, ErrorView> {
        match self.validated(model) {
            Err(e) => Err(e),
            Ok(_) => match adapter::entrypoint_parts(model.entrypoint->0) {
                Err(e) => Err(e),
                Ok((module, attribute)) => {
                    let root = fetch_root(project.root);
                    Ok(
                        PlanView {
                            root,
                            steps: seq![
                                StepView::CreateDirectory(root),
                                StepView::WriteFile {
                                    path: paths::join_path(root, "main.js"@),
                                    contents: bridges::fetch_bridge_text(
                                        attribute,
                                        fetch_source(self.takes_language(), module),
                                    ),
                                },
                            ],
                            assets: None,
                        },
                    )
                },
            },
        }
    }

    open spec fn completed(
        &self,
        project: ProjectView,
        model: CandidateView,
        host: HostView,
        files: Seq<(Seq<char>, Seq<u8>)>,
    ) -> Result<(WorkspaceView, ComponentWorld), ErrorView> {
        match self.validated(model) {
            Err(e) => Err(e),
            Ok(_) => match adapter::entrypoint_parts(model.entrypoint->0) {
                Err(e) => Err(e),
                Ok((module, attribute)) => {
                    let root = fetch_root(project.root);
                    let sorted = fingerprint::sorted_files(files);
                    Ok(
                        (
                            WorkspaceView {
                                root,
                                source_roots: seq![root, project.root],
                                wit_path: None,
                                entrypoint: "main.js"@,
                                adapter: self.id_text(),
                                digest: adapter::bridge_digest(
                                    FETCH_ADAPTER_VERSION@,
                                    self.id_text(),
                                    self.interface_text(),
                                    module + ":"@ + attribute,
                                    sorted,
                                ),
                                generated_files: adapter::below_root(root, sorted),
                            },
                            ComponentWorld::WasiHttpProxy,
                        ),
                    )
                },
            },
        }
    }

    fn id(&self) -> (r: AdapterId) {
        self.id.clone()
    }

    fn language(&self) -> (r: Language) {
        self.language
    }

    fn interface(&self) -> (r: &ApplicationInterface) {
        &self.interface
    }

    fn runtime_world(&self) -> (r: ComponentWorld) {
        ComponentWorld::WasiHttpProxy
    }

    fn detect(&self, project: &ProjectInspection) -> (r: Option<DetectionCandidate>) {
        let file = if self.language == Language::TypeScript {
            "main.ts"
        } else {
            "main.js"
        };
        if !project.has_file("package.json") || !project.has_file(file) {
            return None;
        }
        let source = match project.source(file) {
            Some(source) => source,
            None => {
                return None;
            },
        };
        if !contains(source, "fetch") && !contains(source, "addEventListener") {
            return None;
        }
        Some(
            DetectionCandidate {
                language: self.language,
                application_interface: Some(self.interface.clone()),
                entrypoint: Some("main:fetch".to_owned()),
                framework_hint: None,
                confidence: 70,
                evidence: single_evidence(file, "Fetch-style handler shape"),
            },
        )
    }

    fn validate(&self, model: &ProjectModel) -> (r: Result<CompatibilityReport, PitError>) {
        if model.language != self.language {
            return Err(requirement_not_met(&self.id, self.language.as_str()));
        }
        let fits = match &model.application_interface {
            Some(i) => text_eq(i.as_str(), self.interface.as_str()),
            None => false,
        };
        if !fits {
            return Err(requirement_not_met(&self.id, "the Fetch interface"));
        }
        proof {
            reveal_strlit("");
        }
        if or_empty(&model.entrypoint).is_empty() {
            return Err(
                PitError::fixed(
                    ErrorKind::Adapter,
                    "Fetch adapter requires an entrypoint such as main:fetch",
                ),
            );
        }
        Ok(
            CompatibilityReport::supported(
                "Fetch handlers are bridged through ComponentizeJS Web Fetch semantics to wasi:http/proxy",
            ),
        )
    }

    fn inspect_compatibility(&self, project: &ProjectInspection, model: &ProjectModel) -> (r: Result<
        CompatibilityReport,
        PitError,
    >) {
        self.validate(model)
    }

    fn prepare(
        &self,
        project: &ProjectInspection,
        model: &ProjectModel,
        host: &AdapterHost,
    ) -> (r: Result<AdapterPlan, PitError>) {
        if let Err(e) = self.validate(model) {
            return Err(e);
        }
        proof {
            reveal_strlit("");
        }
        let (module, attribute) = match split_entrypoint(or_empty(&model.entrypoint)) {
            Ok(parts) => parts,
            Err(e) => {
                return Err(e);
            },
        };
        let root = path_join(project.root.as_str(), ".pit/generated/adapters/javascript-fetch");
        let source_file = if self.language == Language::TypeScript && text_eq(
            module.as_str(),
            "main",
        ) {
            "../../main.js".to_owned()
        } else {
            let mut t = "../../../../".to_owned();
            t.append(module.as_str());
            t.append(".js");
            t
        };
        let mut steps: Vec<PrepareStep> = Vec::new();
        steps.push(PrepareStep::CreateDirectory(root.clone()));
        steps.push(
            PrepareStep::WriteFile {
                path: path_join(root.as_str(), "main.js"),
                contents: fetch_bridge(attribute.as_str(), source_file.as_str()),
            },
        );
        let plan = AdapterPlan { root, steps, assets: None };
        assert(plan@.steps =~= self.planned(project@, model@, host@)->Ok_0.steps);
        Ok(plan)
    }

    fn complete(
        &self,
        project: &ProjectInspection,
        model: &ProjectModel,
        host: &AdapterHost,
        files: Vec<SourceFile>,
    ) -> (r: Result<AdapterOutput, PitError>) {
        if let Err(e) = self.validate(model) {
            return Err(e);
        }
        proof {
            reveal_strlit("");
        }
        let (module, attribute) = match split_entrypoint(or_empty(&model.entrypoint)) {
            Ok(parts) => parts,
            Err(e) => {
                return Err(e);
            },
        };
        let root = path_join(project.root.as_str(), ".pit/generated/adapters/javascript-fetch");
        let sorted = sort_files(files);
        let mut entrypoint = module;
        entrypoint.append(":");
        entrypoint.append(attribute.as_str());
        let digest = adapter_digest_bytes(
            FETCH_ADAPTER_VERSION,
            &self.id,
            &self.interface,
            entrypoint.as_str(),
            &sorted,
        );
        let workspace = AdapterWorkspace {
            source_roots: source_roots(root.as_str(), project.root.as_str()),
            wit_path: None,
            entrypoint: "main.js".to_owned(),
            adapter: self.id.clone(),
            digest,
            generated_files: join_files(root.as_str(), &sorted),
            root,
        };
        Ok(AdapterOutput { workspace, runtime_world: ComponentWorld::WasiHttpProxy })
    }
}

} // verus!
