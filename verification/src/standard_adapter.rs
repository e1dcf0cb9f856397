//! The application adapters that come with the library.

use crate::adapter::{
    AdapterHost, AdapterPlan, ApplicationAdapter, HostView, PlanView,
};
use crate::artifact::ComponentWorld;
use crate::error::{ErrorView, PitError};
use crate::fingerprint::SourceFile;
use crate::go_net_http::GoNetHttpAdapter;
use crate::javascript_fetch::JavaScriptFetchAdapter;
use crate::language::{AdapterId, ApplicationInterface, Language};
use crate::project::{
    AdapterOutput, CandidateView, CompatibilityReport, DetectionCandidate, ProjectInspection,
    ProjectModel, ProjectView, ReportView, WorkspaceView,
};
use crate::python_asgi::PythonAsgiAdapter;
use vstd::prelude::*;

verus! {

/// One of the adapters that come with the library.
#[derive(Debug)]
pub enum StandardAdapter {
    PythonAsgi(PythonAsgiAdapter),
    JavaScriptFetch(JavaScriptFetchAdapter),
    GoNetHttp(GoNetHttpAdapter),
}

impl ApplicationAdapter for StandardAdapter {
    open spec fn id_text(&self) -> Seq<char> {
        match *self {
            StandardAdapter::PythonAsgi(a) => a.id_text(),
            StandardAdapter::JavaScriptFetch(a) => a.id_text(),
            StandardAdapter::GoNetHttp(a) => a.id_text(),
        }
    }

    open spec fn takes_language(&self) -> Language {
        match *self {
            StandardAdapter::PythonAsgi(a) => a.takes_language(),
            StandardAdapter::JavaScriptFetch(a) => a.takes_language(),
            StandardAdapter::GoNetHttp(a) => a.takes_language(),
        }
    }

    open spec fn interface_text(&self) -> Seq<char> {
        match *self {
            StandardAdapter::PythonAsgi(a) => a.interface_text(),
            StandardAdapter::JavaScriptFetch(a) => a.interface_text(),
            StandardAdapter::GoNetHttp(a) => a.interface_text(),
        }
    }

    open spec fn gives_world(&self) -> ComponentWorld {
        match *self {
            StandardAdapter::PythonAsgi(a) => a.gives_world(),
            StandardAdapter::JavaScriptFetch(a) => a.gives_world(),
            StandardAdapter::GoNetHttp(a) => a.gives_world(),
        }
    }

    open spec fn detected(&self, project: ProjectView) -> Option<CandidateView> {
        match *self {
            StandardAdapter::PythonAsgi(a) => a.detected(project),
            StandardAdapter::JavaScriptFetch(a) => a.detected(project),
            StandardAdapter::GoNetHttp(a) => a.detected(project),
        }
    }

    open spec fn validated(&self, model: CandidateView) -> Result<ReportView, ErrorView> {
        match *self {
            StandardAdapter::PythonAsgi(a) => a.validated(model),
            StandardAdapter::JavaScriptFetch(a) => a.validated(model),
            StandardAdapter::GoNetHttp(a) => a.validated(model),
        }
    }

    open spec fn inspected(&self, project: ProjectView, model: CandidateView) -> Result<
        ReportView,
        ErrorView,
    > {
        match *self {
            StandardAdapter::PythonAsgi(a) => a.inspected(project, model),
            StandardAdapter::JavaScriptFetch(a) => a.inspected(project, model),
            StandardAdapter::GoNetHttp(a) => a.inspected(project, model),
        }
    }

    open spec fn planned(
        &self,
        project: ProjectView,
        model: CandidateView,
        host: HostView,
    ) -> Result<PlanView, ErrorView> {
        match *self {
            StandardAdapter::PythonAsgi(a) => a.planned(project, model, host),
            StandardAdapter::JavaScriptFetch(a) => a.planned(project, model, host),
            StandardAdapter::GoNetHttp(a) => a.planned(project, model, host),
        }
    }

    open spec fn completed(
        &self,
        project: ProjectView,
        model: CandidateView,
        host: HostView,
        files: Seq<(Seq<char>, Seq<u8>)>,
    ) -> Result<(WorkspaceView, ComponentWorld), ErrorView> {
        match *self {
            StandardAdapter::PythonAsgi(a) => a.completed(project, model, host, files),
            StandardAdapter::JavaScriptFetch(a) => a.completed(project, model, host, files),
            StandardAdapter::GoNetHttp(a) => a.completed(project, model, host, files),
        }
    }

    fn id(&self) -> (r: AdapterId) {
        match self {
            StandardAdapter::PythonAsgi(a) => a.id(),
            StandardAdapter::JavaScriptFetch(a) => a.id(),
            StandardAdapter::GoNetHttp(a) => a.id(),
        }
    }

    fn language(&self) -> (r: Language) {
        match self {
            StandardAdapter::PythonAsgi(a) => a.language(),
            StandardAdapter::JavaScriptFetch(a) => a.language(),
            StandardAdapter::GoNetHttp(a) => a.language(),
        }
    }

    fn interface(&self) -> (r: &ApplicationInterface) {
        match self {
            StandardAdapter::PythonAsgi(a) => a.interface(),
            StandardAdapter::JavaScriptFetch(a) => a.interface(),
            StandardAdapter::GoNetHttp(a) => a.interface(),
        }
    }

    fn runtime_world(&self) -> (r: ComponentWorld) {
        match self {
            StandardAdapter::PythonAsgi(a) => a.runtime_world(),
            StandardAdapter::JavaScriptFetch(a) => a.runtime_world(),
            StandardAdapter::GoNetHttp(a) => a.runtime_world(),
        }
    }

    fn detect(&self, project: &ProjectInspection) -> (r: Option<DetectionCandidate>) {
        match self {
            StandardAdapter::PythonAsgi(a) => a.detect(project),
            StandardAdapter::JavaScriptFetch(a) => a.detect(project),
            StandardAdapter::GoNetHttp(a) => a.detect(project),
        }
    }

    fn validate(&self, model: &ProjectModel) -> (r: Result<CompatibilityReport, PitError>) {
        match self {
            StandardAdapter::PythonAsgi(a) => a.validate(model),
            StandardAdapter::JavaScriptFetch(a) => a.validate(model),
            StandardAdapter::GoNetHttp(a) => a.validate(model),
        }
    }

    fn inspect_compatibility(&self, project: &ProjectInspection, model: &ProjectModel) -> (r: Result<
        CompatibilityReport,
        PitError,
    >) {
        match self {
            StandardAdapter::PythonAsgi(a) => a.inspect_compatibility(project, model),
            StandardAdapter::JavaScriptFetch(a) => a.inspect_compatibility(project, model),
            StandardAdapter::GoNetHttp(a) => a.inspect_compatibility(project, model),
        }
    }

    fn prepare(
        &self,
        project: &ProjectInspection,
        model: &ProjectModel,
        host: &AdapterHost,
    ) -> (r: Result<AdapterPlan, PitError>) {
        match self {
            StandardAdapter::PythonAsgi(a) => a.prepare(project, model, host),
            StandardAdapter::JavaScriptFetch(a) => a.prepare(project, model, host),
            StandardAdapter::GoNetHttp(a) => a.prepare(project, model, host),
        }
    }

    fn complete(
        &self,
        project: &ProjectInspection,
        model: &ProjectModel,
        host: &AdapterHost,
        files: Vec<SourceFile>,
    ) -> (r: Result<AdapterOutput, PitError>) {
        match self {
            StandardAdapter::PythonAsgi(a) => a.complete(project, model, host, files),
            StandardAdapter::JavaScriptFetch(a) => a.complete(project, model, host, files),
            StandardAdapter::GoNetHttp(a) => a.complete(project, model, host, files),
        }
    }
}

} // verus!
