//! The selection of an application and of the adapter that bridges it.

use crate::adapter;
use crate::adapter::{AdapterHost, AdapterPlan, ApplicationAdapter, HostView, PlanView};
use crate::artifact::ComponentWorld;
use crate::error;
use crate::error::{ErrorKind, ErrorView, PitError};
use crate::external_adapter;
use crate::external_adapter::{ExternalAdapter, ExternalView};
use crate::fingerprint;
use crate::fingerprint::SourceFile;
use crate::language::{AdapterId, ApplicationInterface, Language};
use crate::paths;
use crate::paths::path_join;
use crate::project;
use crate::project::{
    interface_eq, AdapterOutput, CandidateView, CompatibilityReport, DetectionCandidate,
    DetectionEvidence, EvidenceView, FindingView, ProjectInspection, ProjectModel, ProjectView,
    ReportView, WorkspaceView,
};
use crate::request::{BuildRequest, RequestView};
use crate::text;
use crate::text::{clone_text, join, text_eq};
use vstd::prelude::*;

verus! {

/// Whether a language is the one that is asked for, if one is.
pub open spec fn language_fits(wanted: Option<Language>, language: Language) -> bool {
    wanted is None || wanted == Some(language)
}

/// Whether a language is the one that is asked for, if one is.
pub(crate) fn fits_language(wanted: Option<Language>, language: Language) -> (r: bool)
    ensures
        r == language_fits(wanted, language),
{
    match wanted {
        None => true,
        Some(w) => w == language,
    }
}

/// The applications that adapters find in a project, of those in the wanted language.
pub open spec fn found_by<A: ApplicationAdapter>(
    adapters: Seq<A>,
    project: ProjectView,
    wanted: Option<Language>,
) -> Seq<CandidateView>
    decreases adapters.len(),
{
    if adapters.len() == 0 {
        Seq::empty()
    } else {
        let rest = found_by(adapters.drop_last(), project, wanted);
        match adapters.last().detected(project) {
            Some(c) => if language_fits(wanted, c.language) {
                rest.push(c)
            } else {
                rest
            },
            None => rest,
        }
    }
}

/// The applications that adapters find in a project, of those in the wanted language.
pub fn find_applications<A: ApplicationAdapter>(
    adapters: &Vec<A>,
    project: &ProjectInspection,
    wanted: Option<Language>,
) -> (r: Vec<DetectionCandidate>)
    ensures
        project::candidates_view(r@) == found_by(adapters@, project@, wanted),
{
    let ghost all = adapters@;
    let mut out: Vec<DetectionCandidate> = Vec::new();
    assert(all.take(0) =~= Seq::<A>::empty());
    assert(project::candidates_view(out@) =~= Seq::<CandidateView>::empty());
    let mut i: usize = 0;
    while i < adapters.len()
        invariant
            i <= adapters@.len(),
            all == adapters@,
            project::candidates_view(out@) == found_by(all.take(i as int), project@, wanted),
        decreases adapters@.len() - i,
    {
        assert(all.take(i + 1).drop_last() =~= all.take(i as int));
        assert(all.take(i + 1).last() == all[i as int]);
        if let Some(candidate) = adapters[i].detect(project) {
            if fits_language(wanted, candidate.language) {
                let ghost before = project::candidates_view(out@);
                out.push(candidate);
                assert(project::candidates_view(out@) =~= before.push(candidate@));
            }
        }
        i = i + 1;
    }
    assert(all.take(i as int) =~= all);
    out
}

/// The candidates with this interface.
pub open spec fn with_interface(candidates: Seq<CandidateView>, interface: Seq<char>) -> Seq<
    CandidateView,
>
    decreases candidates.len(),
{
    if candidates.len() == 0 {
        Seq::empty()
    } else {
        let rest = with_interface(candidates.drop_last(), interface);
        if candidates.last().application_interface == Some(interface) {
            rest.push(candidates.last())
        } else {
            rest
        }
    }
}

/// The outcome of choosing an application: the only one with the interface that
/// is asked for, or the only one.
pub open spec fn chosen_candidate(
    interface: Option<Seq<char>>,
    candidates: Seq<CandidateView>,
) -> Result<Option<CandidateView>, ErrorView> {
    match interface {
        Some(i) => {
            let matching = with_interface(candidates, i);
            if matching.len() > 1 {
                Err(
                    error::error(
                        ErrorKind::Selection,
                        "multiple projects/interfaces match '"@ + i
                            + "'; specify --adapter and --entry"@,
                    ),
                )
            } else if matching.len() == 1 {
                Ok(Some(matching[0]))
            } else {
                Ok(None)
            }
        },
        None => if candidates.len() == 0 {
            Ok(None)
        } else if candidates.len() == 1 {
            Ok(Some(candidates[0]))
        } else {
            Err(
                error::error(
                    ErrorKind::Selection,
                    "multiple application interfaces detected; specify --interface and --entry"@,
                ),
            )
        },
    }
}

/// The model of what choosing an application gives.
pub open spec fn choice_view(r: Result<Option<DetectionCandidate>, PitError>) -> Result<
    Option<CandidateView>,
    ErrorView,
> {
    match r {
        Ok(c) => Ok(project::candidate_view(c)),
        Err(e) => Err(e@),
    }
}

/// Chooses the application to build.
pub fn choose_candidate(request: &BuildRequest, candidates: &Vec<DetectionCandidate>) -> (r: Result<
    Option<DetectionCandidate>,
    PitError,
>)
    ensures
        choice_view(r) == chosen_candidate(
            request@.application_interface,
            project::candidates_view(candidates@),
        ),
{
    let ghost all = project::candidates_view(candidates@);
    let interface = match &request.application_interface {
        Some(i) => i,
        None => {
            if candidates.len() == 0 {
                return Ok(None);
            }
            if candidates.len() == 1 {
                assert(all[0] == candidates@[0]@);
                return Ok(Some(candidates[0].clone()));
            }
            return Err(
                PitError::fixed(
                    ErrorKind::Selection,
                    "multiple application interfaces detected; specify --interface and --entry",
                ),
            );
        },
    };
    let mut matching: Vec<DetectionCandidate> = Vec::new();
    assert(all.take(0) =~= Seq::<CandidateView>::empty());
    assert(project::candidates_view(matching@) =~= Seq::<CandidateView>::empty());
    let mut i: usize = 0;
    while i < candidates.len()
        invariant
            i <= candidates@.len(),
            all == project::candidates_view(candidates@),
            request@.application_interface == Some(interface@),
            project::interface_view(request.application_interface)
                == request@.application_interface,
            project::candidates_view(matching@) == with_interface(all.take(i as int), interface@),
        decreases candidates@.len() - i,
    {
        let candidate = &candidates[i];
        assert(all[i as int] == candidate@);
        assert(all.take(i + 1).drop_last() =~= all.take(i as int));
        assert(all.take(i + 1).last() == candidate@);
        if interface_eq(&candidate.application_interface, &request.application_interface) {
            let ghost before = project::candidates_view(matching@);
            matching.push(candidate.clone());
            assert(project::candidates_view(matching@) =~= before.push(candidate@));
        }
        i = i + 1;
    }
    assert(all.take(i as int) =~= all);
    assert(project::candidates_view(matching@).len() == matching@.len());
    if matching.len() > 1 {
        return Err(
            PitError::naming(
                ErrorKind::Selection,
                "multiple projects/interfaces match '",
                interface.as_str(),
                "'; specify --adapter and --entry",
            ),
        );
    }
    let ghost found = project::candidates_view(matching@);
    match matching.pop() {
        Some(c) => {
            assert(found[0] == c@);
            Ok(Some(c))
        },
        None => Ok(None),
    }
}

/// What is known of the directory of a local adapter: where it really is, and the
/// text of its `adapter.toml`.
#[derive(Debug)]
pub struct AdapterDirectory {
    pub canonical: Option<String>,
    pub contents: Option<String>,
}

/// The model of an `AdapterDirectory`.
#[verifier::ext_equal]
pub struct AdapterDirectoryView {
    pub canonical: Option<Seq<char>>,
    pub contents: Option<Seq<char>>,
}

impl View for AdapterDirectory {
    type V = AdapterDirectoryView;

    open spec fn view(&self) -> AdapterDirectoryView {
        AdapterDirectoryView {
            canonical: text::option_view(self.canonical),
            contents: text::option_view(self.contents),
        }
    }
}

/// The model of the directory of a local adapter, if there is one.
pub open spec fn directory_view(d: Option<AdapterDirectory>) -> Option<AdapterDirectoryView> {
    match d {
        Some(d) => Some(d@),
        None => None,
    }
}

/// Where the adapter of a request is, if it is a local one.
pub open spec fn adapter_place(r: RequestView) -> Seq<char> {
    paths::join_path(r.project_dir, text::text_or_empty(r.adapter))
}

/// An adapter that was selected: one of the crew or a local one.
pub enum SelectedAdapter<'a, A> {
    Registered(&'a A),
    Local(ExternalAdapter),
}

/// The model of a `SelectedAdapter`.
pub enum SelectedView<A> {
    Registered(A),
    Local(Seq<char>, ExternalView),
}

impl<'a, A> View for SelectedAdapter<'a, A> {
    type V = SelectedView<A>;

    open spec fn view(&self) -> SelectedView<A> {
        match *self {
            SelectedAdapter::Registered(a) => SelectedView::Registered(*a),
            SelectedAdapter::Local(e) => SelectedView::Local(e@.0, e@.1),
        }
    }
}

impl<A: ApplicationAdapter> SelectedView<A> {
    /// The identity of the adapter.
    pub open spec fn id(self) -> Seq<char> {
        match self {
            SelectedView::Registered(a) => a.id_text(),
            SelectedView::Local(root, m) => m.id,
        }
    }

    /// The language of the adapter.
    pub open spec fn language(self) -> Language {
        match self {
            SelectedView::Registered(a) => a.takes_language(),
            SelectedView::Local(root, m) => m.language,
        }
    }

    /// The interface of the adapter.
    pub open spec fn interface(self) -> Seq<char> {
        match self {
            SelectedView::Registered(a) => a.interface_text(),
            SelectedView::Local(root, m) => m.interface,
        }
    }

    /// What the adapter says of an application's compatibility.
    pub open spec fn inspected(self, project: ProjectView, model: CandidateView) -> Result<
        ReportView,
        ErrorView,
    > {
        match self {
            SelectedView::Registered(a) => a.inspected(project, model),
            SelectedView::Local(root, m) => external_adapter::external_checked(m, model),
        }
    }

    /// How the adapter prepares its bridge.
    pub open spec fn planned(
        self,
        project: ProjectView,
        model: CandidateView,
        host: HostView,
    ) -> Result<PlanView, ErrorView> {
        match self {
            SelectedView::Registered(a) => a.planned(project, model, host),
            SelectedView::Local(root, m) => external_adapter::external_planned(
                root,
                m,
                project,
                model,
            ),
        }
    }

    /// The bridge, after its preparation.
    pub open spec fn completed(
        self,
        project: ProjectView,
        model: CandidateView,
        host: HostView,
        files: Seq<(Seq<char>, Seq<u8>)>,
    ) -> Result<(WorkspaceView, ComponentWorld), ErrorView> {
        match self {
            SelectedView::Registered(a) => a.completed(project, model, host, files),
            SelectedView::Local(root, m) => external_adapter::external_completed(
                m,
                project,
                model,
                host,
                files,
            ),
        }
    }
}

impl<'a, A: ApplicationAdapter> SelectedAdapter<'a, A> {
    /// The identity of the adapter.
    pub fn id(&self) -> (r: AdapterId)
        ensures
            r@ == self@.id(),
    {
        match self {
            SelectedAdapter::Registered(a) => a.id(),
            SelectedAdapter::Local(e) => e.id(),
        }
    }

    /// The language of the adapter.
    pub fn language(&self) -> (r: Language)
        ensures
            r == self@.language(),
    {
        match self {
            SelectedAdapter::Registered(a) => a.language(),
            SelectedAdapter::Local(e) => e.language(),
        }
    }

    /// The interface of the adapter.
    pub fn interface(&self) -> (r: ApplicationInterface)
        ensures
            r@ == self@.interface(),
    {
        match self {
            SelectedAdapter::Registered(a) => a.interface().clone(),
            SelectedAdapter::Local(e) => e.interface().clone(),
        }
    }

    /// What the adapter says of an application's compatibility.
    pub fn inspect_compatibility(&self, project: &ProjectInspection, model: &ProjectModel) -> (r: Result<
        CompatibilityReport,
        PitError,
    >)
        ensures
            error::outcome(r) == self@.inspected(project@, model@),
    {
        match self {
            SelectedAdapter::Registered(a) => a.inspect_compatibility(project, model),
            SelectedAdapter::Local(e) => e.inspect_compatibility(project, model),
        }
    }

    /// How the adapter prepares its bridge.
    pub fn prepare(
        &self,
        project: &ProjectInspection,
        model: &ProjectModel,
        host: &AdapterHost,
    ) -> (r: Result<AdapterPlan, PitError>)
        ensures
            error::outcome(r) == self@.planned(project@, model@, host@),
    {
        match self {
            SelectedAdapter::Registered(a) => a.prepare(project, model, host),
            SelectedAdapter::Local(e) => e.prepare(project, model, host),
        }
    }

    /// The bridge, after its preparation.
    pub fn complete(
        &self,
        project: &ProjectInspection,
        model: &ProjectModel,
        host: &AdapterHost,
        files: Vec<SourceFile>,
    ) -> (r: Result<AdapterOutput, PitError>)
        ensures
            error::outcome(r) == self@.completed(
                project@,
                model@,
                host@,
                fingerprint::files_view(files@),
            ),
    {
        match self {
            SelectedAdapter::Registered(a) => a.complete(project, model, host, files),
            SelectedAdapter::Local(e) => e.complete(project, model, host, files),
        }
    }
}

/// The first adapter with this identity.
pub open spec fn with_id<A: ApplicationAdapter>(adapters: Seq<A>, id: Seq<char>) -> Option<A>
    decreases adapters.len(),
{
    if adapters.len() == 0 {
        None
    } else if adapters[0].id_text() == id {
        Some(adapters[0])
    } else {
        with_id(adapters.drop_first(), id)
    }
}

/// The adapters of this language and this interface.
pub open spec fn fitting<A: ApplicationAdapter>(
    adapters: Seq<A>,
    language: Language,
    interface: Seq<char>,
) -> Seq<A>
    decreases adapters.len(),
{
    if adapters.len() == 0 {
        Seq::empty()
    } else {
        let rest = fitting(adapters.drop_last(), language, interface);
        if adapters.last().takes_language() == language && adapters.last().interface_text()
            == interface {
            rest.push(adapters.last())
        } else {
            rest
        }
    }
}

/// The interface that an adapter is looked for: that of the application, or the
/// one that is asked for.
pub open spec fn wanted_interface(r: RequestView, candidate: Option<CandidateView>) -> Option<
    Seq<char>,
> {
    match candidate {
        Some(c) => match c.application_interface {
            Some(i) => Some(i),
            None => r.application_interface,
        },
        None => r.application_interface,
    }
}

/// The language that an adapter is looked for: that of the application, or the
/// one that is asked for.
pub open spec fn wanted_language(r: RequestView, candidate: Option<CandidateView>) -> Option<
    Language,
> {
    match candidate {
        Some(c) => Some(c.language),
        None => r.language,
    }
}

/// The outcome of selecting an adapter. `directory` is what is known of the
/// directory at the place of the request's adapter, if there is one.
pub open spec fn selected<A: ApplicationAdapter>(
    adapters: Seq<A>,
    r: RequestView,
    candidate: Option<CandidateView>,
    directory: Option<AdapterDirectoryView>,
) -> Result<Option<SelectedView<A>>, ErrorView> {
    match r.adapter {
        Some(value) => match directory {
            Some(d) => match external_adapter::external_loaded(
                adapter_place(r),
                d.canonical,
                d.contents,
            ) {
                Ok((root, m)) => Ok(Some(SelectedView::Local(root, m))),
                Err(e) => Err(e),
            },
            None => match with_id(adapters, value) {
                Some(a) => Ok(Some(SelectedView::Registered(a))),
                None => Err(
                    error::error(
                        ErrorKind::Selection,
                        "unknown application adapter '"@ + value + "'"@,
                    ),
                ),
            },
        },
        None => match wanted_interface(r, candidate) {
            None => Ok(None),
            Some(interface) => match wanted_language(r, candidate) {
                None => Err(
                    error::error(
                        ErrorKind::Selection,
                        "select --language when selecting an application adapter"@,
                    ),
                ),
                Some(language) => {
                    let found = fitting(adapters, language, interface);
                    if found.len() == 1 {
                        Ok(Some(SelectedView::Registered(found[0])))
                    } else if found.len() > 1 {
                        Err(
                            error::error(
                                ErrorKind::Selection,
                                "multiple adapters match the detected application interface"@,
                            ),
                        )
                    } else {
                        match r.application_interface {
                            Some(i) => Err(
                                error::error(
                                    ErrorKind::Selection,
                                    "no adapter is registered for interface '"@ + i + "'"@,
                                ),
                            ),
                            None => Ok(None),
                        }
                    }
                },
            },
        },
    }
}

/// The model of an optional adapter.
pub open spec fn selected_view<'a, A>(s: Option<SelectedAdapter<'a, A>>) -> Option<SelectedView<A>> {
    match s {
        Some(s) => Some(s@),
        None => None,
    }
}

/// The model of what selecting an adapter gives.
pub open spec fn selection_view<'a, A>(
    r: Result<Option<SelectedAdapter<'a, A>>, PitError>,
) -> Result<Option<SelectedView<A>>, ErrorView> {
    match r {
        Ok(s) => Ok(selected_view(s)),
        Err(e) => Err(e@),
    }
}

/// Where the adapter of a request is, if it is a local one.
pub fn adapter_location(request: &BuildRequest) -> (r: Option<String>)
    ensures
        match r {
            Some(t) => request@.adapter is Some && t@ == adapter_place(request@),
            None => request@.adapter is None,
        },
{
    match &request.adapter {
        Some(value) => Some(path_join(request.project_dir.as_str(), value.as_str())),
        None => None,
    }
}

/// Selects the adapter with the given identity.
fn select_by_id<'a, A: ApplicationAdapter>(adapters: &'a Vec<A>, value: &str) -> (r: Result<
    Option<SelectedAdapter<'a, A>>,
    PitError,
>)
    ensures
        selection_view(r) == match with_id(adapters@, value@) {
            Some(a) => Ok(Some(SelectedView::Registered(a))),
            None => Err(
                error::error(
                    ErrorKind::Selection,
                    "unknown application adapter '"@ + value@ + "'"@,
                ),
            ),
        },
{
    let ghost all = adapters@;
    assert(all.skip(0) =~= all);
    let mut i: usize = 0;
    while i < adapters.len()
        invariant
            i <= adapters@.len(),
            all == adapters@,
            with_id(all, value@) == with_id(all.skip(i as int), value@),
        decreases adapters@.len() - i,
    {
        assert(all.skip(i as int)[0] == all[i as int]);
        assert(all.skip(i as int).drop_first() =~= all.skip(i + 1));
        if text_eq(adapters[i].id().as_str(), value) {
            return Ok(Some(SelectedAdapter::Registered(&adapters[i])));
        }
        i = i + 1;
    }
    Err(PitError::naming(ErrorKind::Selection, "unknown application adapter '", value, "'"))
}

/// Selects the adapter of a request.
pub fn select_application_adapter<'a, A: ApplicationAdapter>(
    adapters: &'a Vec<A>,
    request: &BuildRequest,
    candidate: &Option<DetectionCandidate>,
    directory: &Option<AdapterDirectory>,
) -> (r: Result<Option<SelectedAdapter<'a, A>>, PitError>)
    ensures
        selection_view(r) == selected(
            adapters@,
            request@,
            project::candidate_view(*candidate),
            directory_view(*directory),
        ),
{
    if let Some(value) = &request.adapter {
        if let Some(d) = directory {
            let place = path_join(request.project_dir.as_str(), value.as_str());
            let canonical = match &d.canonical {
                Some(t) => Some(t.as_str()),
                None => None,
            };
            let contents = match &d.contents {
                Some(t) => Some(t.as_str()),
                None => None,
            };
            return match ExternalAdapter::load(place.as_str(), canonical, contents) {
                Ok(e) => Ok(Some(SelectedAdapter::Local(e))),
                Err(e) => Err(e),
            };
        }
        return select_by_id(adapters, value.as_str());
    }
    let own = match candidate {
        Some(c) => match &c.application_interface {
            Some(i) => Some(i),
            None => None,
        },
        None => None,
    };
    let interface = match own {
        Some(i) => i,
        None => match &request.application_interface {
            Some(i) => i,
            None => {
                return Ok(None);
            },
        },
    };
    let language = match candidate {
        Some(c) => c.language,
        None => match request.language {
            Some(l) => l,
            None => {
                return Err(
                    PitError::fixed(
                        ErrorKind::Selection,
                        "select --language when selecting an application adapter",
                    ),
                );
            },
        },
    };
    let ghost all = adapters@;
    let mut count: usize = 0;
    let mut first: Option<&'a A> = None;
    assert(all.take(0) =~= Seq::<A>::empty());
    let mut i: usize = 0;
    while i < adapters.len()
        invariant
            i <= adapters@.len(),
            all == adapters@,
            count <= i,
            fitting(all.take(i as int), language, interface@).len() == count,
            first is Some <==> count > 0,
            first matches Some(a) ==> *a == fitting(all.take(i as int), language, interface@)[0],
        decreases adapters@.len() - i,
    {
        let a = &adapters[i];
        assert(all.take(i + 1).drop_last() =~= all.take(i as int));
        assert(all.take(i + 1).last() == *a);
        if a.language() == language && text_eq(a.interface().as_str(), interface.as_str()) {
            if count == 0 {
                first = Some(a);
            }
            count = count + 1;
        }
        i = i + 1;
    }
    assert(all.take(i as int) =~= all);
    if count > 1 {
        return Err(
            PitError::fixed(
                ErrorKind::Selection,
                "multiple adapters match the detected application interface",
            ),
        );
    }
    match first {
        Some(a) => Ok(Some(SelectedAdapter::Registered(a))),
        None => match &request.application_interface {
            Some(i) => Err(
                PitError::naming(
                    ErrorKind::Selection,
                    "no adapter is registered for interface '",
                    i.as_str(),
                    "'",
                ),
            ),
            None => Ok(None),
        },
    }
}

/// The application that a request declares, where none was found.
pub open spec fn declared<A: ApplicationAdapter>(
    r: RequestView,
    language: Language,
    s: SelectedView<A>,
) -> CandidateView {
    CandidateView {
        language,
        application_interface: Some(
            match r.application_interface {
                Some(i) => i,
                None => s.interface(),
            },
        ),
        entrypoint: r.entrypoint,
        framework_hint: None,
        confidence: 100,
        evidence: seq![
            EvidenceView { source: "explicit configuration"@, detail: "adapter "@ + s.id() },
        ],
    }
}

/// The application that a request declares, where none was found.
pub(crate) fn declare<'a, A: ApplicationAdapter>(
    request: &BuildRequest,
    language: Language,
    s: &SelectedAdapter<'a, A>,
) -> (r: ProjectModel)
    ensures
        r@ == declared(request@, language, s@),
{
    let mut detail = "adapter ".to_owned();
    detail.append(s.id().as_str());
    let mut evidence: Vec<DetectionEvidence> = Vec::new();
    evidence.push(DetectionEvidence::new("explicit configuration", detail.as_str()));
    let model = ProjectModel {
        language,
        application_interface: match &request.application_interface {
            Some(i) => Some(i.clone()),
            None => Some(s.interface()),
        },
        entrypoint: clone_text(&request.entrypoint),
        framework_hint: None,
        confidence: 100,
        evidence,
    };
    assert(model@.evidence =~= declared(request@, language, s@).evidence);
    model
}

/// The text, or else the other.
pub open spec fn or_else(t: Option<Seq<char>>, other: Option<Seq<char>>) -> Option<Seq<char>> {
    match t {
        Some(_) => t,
        None => other,
    }
}

/// An application that was found, with what the request says of it: an interface
/// and an entrypoint that are asked for go before those that were found.
pub open spec fn requested(r: RequestView, c: CandidateView) -> CandidateView {
    CandidateView {
        application_interface: or_else(r.application_interface, c.application_interface),
        entrypoint: or_else(r.entrypoint, c.entrypoint),
        ..c
    }
}

/// An application that was found, with what the request says of it.
fn request_application(request: &BuildRequest, c: DetectionCandidate) -> (r: ProjectModel)
    ensures
        r@ == requested(request@, c@),
{
    ProjectModel {
        language: c.language,
        application_interface: match &request.application_interface {
            Some(i) => Some(i.clone()),
            None => c.application_interface,
        },
        entrypoint: match &request.entrypoint {
            Some(t) => Some(t.clone()),
            None => c.entrypoint,
        },
        framework_hint: c.framework_hint,
        confidence: c.confidence,
        evidence: c.evidence,
    }
}

/// The application whose compatibility is inspected.
pub open spec fn inspected_model<A: ApplicationAdapter>(
    r: RequestView,
    candidate: Option<CandidateView>,
    s: SelectedView<A>,
) -> CandidateView {
    match candidate {
        Some(c) => requested(r, c),
        None => declared(
            r,
            match r.language {
                Some(l) => l,
                None => s.language(),
            },
            s,
        ),
    }
}

/// The application whose compatibility is inspected.
pub(crate) fn model_to_inspect<'a, A: ApplicationAdapter>(
    request: &BuildRequest,
    candidate: Option<DetectionCandidate>,
    s: &SelectedAdapter<'a, A>,
) -> (r: ProjectModel)
    ensures
        r@ == inspected_model(request@, project::candidate_view(candidate), s@),
{
    match candidate {
        Some(c) => request_application(request, c),
        None => {
            let language = match request.language {
                Some(l) => l,
                None => s.language(),
            };
            declare(request, language, s)
        },
    }
}

/// The application that is built.
pub open spec fn built_model<A: ApplicationAdapter>(
    r: RequestView,
    candidate: Option<CandidateView>,
    builder: Language,
    s: SelectedView<A>,
) -> CandidateView {
    match candidate {
        Some(c) => requested(r, c),
        None => declared(r, builder, s),
    }
}

/// The application that is built.
pub(crate) fn model_to_build<'a, A: ApplicationAdapter>(
    request: &BuildRequest,
    candidate: Option<DetectionCandidate>,
    builder: Language,
    s: &SelectedAdapter<'a, A>,
) -> (r: ProjectModel)
    ensures
        r@ == built_model(request@, project::candidate_view(candidate), builder, s@),
{
    match candidate {
        Some(c) => request_application(request, c),
        None => declare(request, builder, s),
    }
}

/// A build inspects and prepares the application whose compatibility is reported
/// without building, wherever one was found; what the request says of it holds.
pub proof fn builds_inspect_what_is_reported<A: ApplicationAdapter>(
    r: RequestView,
    c: CandidateView,
    builder: Language,
    s: SelectedView<A>,
)
    ensures
        built_model(r, Some(c), builder, s) == inspected_model(r, Some(c), s),
        r.entrypoint is Some ==> built_model(r, Some(c), builder, s).entrypoint == r.entrypoint,
        r.application_interface is Some ==> built_model(r, Some(c), builder, s).application_interface
            == r.application_interface,
{
}

/// The interface of a build without an adapter.
pub open spec fn interface_of_world(world: Option<ComponentWorld>) -> Seq<char> {
    if world == Some(ComponentWorld::WasiHttpProxy) {
        "wasi-http"@
    } else {
        "wasi-cli"@
    }
}

/// The interface of a build without an adapter.
pub fn default_interface(request: &BuildRequest) -> (r: ApplicationInterface)
    ensures
        r@ == interface_of_world(request@.world),
{
    proof {
        reveal_strlit("wasi-http");
        reveal_strlit("wasi-cli");
    }
    match request.world {
        Some(ComponentWorld::WasiHttpProxy) => ApplicationInterface::known("wasi-http"),
        _ => ApplicationInterface::known("wasi-cli"),
    }
}

/// What is said of a finding that stops the build.
pub open spec fn finding_text(f: FindingView) -> Seq<char> {
    "\n\n["@ + f.category + "] "@ + (match f.package {
        Some(p) => p,
        None => "project"@,
    }) + (if f.dependency_path.len() == 0 {
        ""@
    } else {
        "\nDependency path: "@ + text::joined(f.dependency_path, " -> "@)
    }) + "\nReason: "@ + f.reason + "\nRecommendation: "@ + f.recommendation
}

/// What is said of the findings that stop the build.
pub open spec fn blockers_text(findings: Seq<FindingView>) -> Seq<char>
    decreases findings.len(),
{
    if findings.len() == 0 {
        Seq::empty()
    } else if findings.last().blocks_build {
        blockers_text(findings.drop_last()) + finding_text(findings.last())
    } else {
        blockers_text(findings.drop_last())
    }
}

/// What is said of an application that cannot run.
pub open spec fn compatibility_text(report: ReportView) -> Seq<char> {
    (if report.messages.len() > 0 {
        report.messages[0]
    } else {
        "application compatibility check failed"@
    }) + blockers_text(report.findings)
}

/// What is said of an application that cannot run.
pub fn format_compatibility_error(report: &CompatibilityReport) -> (r: String)
    ensures
        r@ == compatibility_text(report@),
{
    let ghost all = report@.findings;
    let mut message = if report.messages.len() > 0 {
        assert(report@.messages[0] == report.messages@[0]@);
        report.messages[0].clone()
    } else {
        "application compatibility check failed".to_owned()
    };
    let ghost start = message@;
    assert(all.take(0) =~= Seq::<FindingView>::empty());
    assert(start + blockers_text(all.take(0)) =~= start);
    let mut i: usize = 0;
    while i < report.findings.len()
        invariant
            i <= report.findings@.len(),
            all == project::findings_view(report.findings@),
            message@ == start + blockers_text(all.take(i as int)),
        decreases report.findings@.len() - i,
    {
        let finding = &report.findings[i];
        assert(all[i as int] == finding@);
        assert(all.take(i + 1).drop_last() =~= all.take(i as int));
        assert(all.take(i + 1).last() == finding@);
        if finding.blocks_build {
            let ghost before = message@;
            message.append("\n\n[");
            message.append(finding.category.as_str());
            message.append("] ");
            match &finding.package {
                Some(p) => message.append(p.as_str()),
                None => message.append("project"),
            }
            assert(finding@.dependency_path.len() == finding.dependency_path@.len());
            if finding.dependency_path.len() == 0 {
                message.append("");
            } else {
                message.append("\nDependency path: ");
                message.append(join(&finding.dependency_path, " -> ").as_str());
            }
            message.append("\nReason: ");
            message.append(finding.reason.as_str());
            message.append("\nRecommendation: ");
            message.append(finding.recommendation.as_str());
            assert(message@ =~= before + finding_text(finding@));
            assert(message@ =~= start + (blockers_text(all.take(i as int)) + finding_text(
                finding@,
            )));
        }
        i = i + 1;
    }
    assert(all.take(i as int) =~= all);
    message
}

} // verus!
