//! Local declarative adapters. Such an adapter copies the files it lists and
//! executes nothing.

use crate::adapter;
use crate::adapter::{
    adapter_digest_bytes, paths_of, requirement_not_met, safe_join, source_roots, AdapterHost,
    AdapterPlan, ApplicationAdapter, HostView, PlanView, PrepareStep, StepView,
};
use crate::artifact::ComponentWorld;
use crate::error;
use crate::error::{naming_path, ErrorKind, ErrorView, PitError};
use crate::fingerprint::SourceFile;
use crate::json;
use crate::json::{
    get_field, get_number, get_text, get_texts, names_table_variant, parse_toml, JsonView,
};
use crate::language;
use crate::language::{AdapterId, ApplicationInterface, Language};
use crate::paths;
use crate::paths::{parent_of, path_join};
use crate::project::{
    AdapterOutput, AdapterWorkspace, CandidateView, CompatibilityReport, DetectionCandidate,
    ProjectInspection, ProjectModel, ProjectView, ReportView, WorkspaceView,
};
use crate::project;
use crate::text;
use crate::text::{or_empty, replace, text_eq, to_decimal};
use vstd::prelude::*;

verus! {

/// The document of a local adapter.
struct ExternalAdapterManifest {
    schema: u32,
    id: String,
    language: Language,
    interface: String,
    target: String,
    version: String,
    kind: String,
    entrypoint: String,
    files: Vec<String>,
}

/// The model of a local adapter's document.
#[verifier::ext_equal]
pub struct ExternalView {
    pub schema: u32,
    pub id: Seq<char>,
    pub language: Language,
    pub interface: Seq<char>,
    pub target: Seq<char>,
    pub version: Seq<char>,
    pub kind: Seq<char>,
    pub entrypoint: Seq<char>,
    pub files: Seq<Seq<char>>,
}

impl View for ExternalAdapterManifest {
    type V = ExternalView;

    closed spec fn view(&self) -> ExternalView {
        ExternalView {
            schema: self.schema,
            id: self.id@,
            language: self.language,
            interface: self.interface@,
            target: self.target@,
            version: self.version@,
            kind: self.kind@,
            entrypoint: self.entrypoint@,
            files: text::texts(self.files@),
        }
    }
}

/// The language that a document names.
pub open spec fn decode_language(d: Option<JsonView>) -> Option<Language> {
    match d {
        Some(v) => if json::is_table_variant(v, "rust"@) {
            Some(Language::Rust)
        } else if json::is_table_variant(v, "go"@) {
            Some(Language::Go)
        } else if json::is_table_variant(v, "c"@) {
            Some(Language::C)
        } else if json::is_table_variant(v, "cpp"@) {
            Some(Language::Cpp)
        } else if json::is_table_variant(v, "javascript"@) {
            Some(Language::JavaScript)
        } else if json::is_table_variant(v, "typescript"@) {
            Some(Language::TypeScript)
        } else if json::is_table_variant(v, "python"@) {
            Some(Language::Python)
        } else if json::is_table_variant(v, "csharp"@) {
            Some(Language::CSharp)
        } else if json::is_table_variant(v, "java"@) {
            Some(Language::Java)
        } else {
            None
        },
        None => None,
    }
}

/// The files that a document lists; none where they are left out.
pub open spec fn decode_files(d: Option<JsonView>) -> Option<Seq<Seq<char>>> {
    match d {
        Some(v) => json::text_list(v),
        None => Some(Seq::empty()),
    }
}

/// The adapter's document that a TOML document holds, if it holds one.
pub open spec fn decode_external(d: JsonView) -> Option<ExternalView> {
    match (
        json::field_number(d, 0, "schema"@),
        json::field(d, 1, "adapter"@),
        json::field(d, 2, "generator"@),
    ) {
        (Some(schema), Some(a), Some(g)) => match (
            json::field_text(a, 0, "id"@),
            decode_language(json::field(a, 1, "language"@)),
            json::field_text(a, 2, "interface"@),
            json::field_text(a, 3, "target"@),
            json::field_text(a, 4, "version"@),
            json::field_text(g, 0, "kind"@),
            json::field_text(g, 1, "entrypoint"@),
            decode_files(json::field(g, 2, "files"@)),
        ) {
            (
                Some(id),
                Some(language),
                Some(interface),
                Some(target),
                Some(version),
                Some(kind),
                Some(entrypoint),
                Some(files),
            ) => if schema <= u32::MAX {
                Some(
                    ExternalView {
                        schema: schema as u32,
                        id,
                        language,
                        interface,
                        target,
                        version,
                        kind,
                        entrypoint,
                        files,
                    },
                )
            } else {
                None
            },
            _ => None,
        },
        _ => None,
    }
}

fn read_language(v: Option<&serde_json::Value>) -> (r: Option<Language>)
    ensures
        r == decode_language(
            match v {
                Some(v) => Some(json::json_view(*v)),
                None => None,
            },
        ),
{
    match v {
        Some(v) => if names_table_variant(v, "rust") {
            Some(Language::Rust)
        } else if names_table_variant(v, "go") {
            Some(Language::Go)
        } else if names_table_variant(v, "c") {
            Some(Language::C)
        } else if names_table_variant(v, "cpp") {
            Some(Language::Cpp)
        } else if names_table_variant(v, "javascript") {
            Some(Language::JavaScript)
        } else if names_table_variant(v, "typescript") {
            Some(Language::TypeScript)
        } else if names_table_variant(v, "python") {
            Some(Language::Python)
        } else if names_table_variant(v, "csharp") {
            Some(Language::CSharp)
        } else if names_table_variant(v, "java") {
            Some(Language::Java)
        } else {
            None
        },
        None => None,
    }
}

fn read_files(v: Option<&serde_json::Value>) -> (r: Option<Vec<String>>)
    ensures
        match r {
            Some(files) => decode_files(
                match v {
                    Some(v) => Some(json::json_view(*v)),
                    None => None,
                },
            ) == Some(text::texts(files@)),
            None => decode_files(
                match v {
                    Some(v) => Some(json::json_view(*v)),
                    None => None,
                },
            ) is None,
        },
{
    match v {
        Some(v) => get_texts(v),
        None => {
            let files: Vec<String> = Vec::new();
            assert(text::texts(files@) =~= Seq::<Seq<char>>::empty());
            Some(files)
        },
    }
}

fn read_external(v: &serde_json::Value) -> (r: Option<ExternalAdapterManifest>)
    ensures
        match r {
            Some(m) => decode_external(json::json_view(*v)) == Some(m@),
            None => decode_external(json::json_view(*v)) is None,
        },
{
    match (
        get_number(v, 0, "schema"),
        get_field(v, 1, "adapter"),
        get_field(v, 2, "generator"),
    ) {
        (Some(schema), Some(a), Some(g)) => match (
            get_text(a, 0, "id"),
            read_language(get_field(a, 1, "language")),
            get_text(a, 2, "interface"),
            get_text(a, 3, "target"),
            get_text(a, 4, "version"),
            get_text(g, 0, "kind"),
            get_text(g, 1, "entrypoint"),
            read_files(get_field(g, 2, "files")),
        ) {
            (
                Some(id),
                Some(language),
                Some(interface),
                Some(target),
                Some(version),
                Some(kind),
                Some(entrypoint),
                Some(files),
            ) => if schema <= u32::MAX as u64 {
                Some(
                    ExternalAdapterManifest {
                        schema: schema as u32,
                        id,
                        language,
                        interface,
                        target,
                        version,
                        kind,
                        entrypoint,
                        files,
                    },
                )
            } else {
                None
            },
            _ => None,
        },
        _ => None,
    }
}

/// The first reason not to take a local adapter.
pub open spec fn external_violation(m: ExternalView) -> Option<ErrorView> {
    if m.schema != 1 {
        Some(
            error::error(
                ErrorKind::Adapter,
                "unsupported external adapter schema "@ + text::decimal(m.schema as nat),
            ),
        )
    } else if !language::is_identifier(m.id) {
        Some(language::identifier_error("adapter id"@, m.id))
    } else if !language::is_identifier(m.interface) {
        Some(language::identifier_error("application interface"@, m.interface))
    } else if m.target != "wasi:http/proxy"@ {
        Some(
            error::error(
                ErrorKind::Adapter,
                "external adapter target must be wasi:http/proxy in v0.11"@,
            ),
        )
    } else if m.kind != "python-template"@ {
        Some(
            error::error(
                ErrorKind::Adapter,
                "unsupported external adapter generator kind '"@ + m.kind
                    + "'; expected python-template"@,
            ),
        )
    } else if m.files.len() == 0 {
        Some(
            error::error(
                ErrorKind::Adapter,
                "external adapter must list at least one generated file"@,
            ),
        )
    } else {
        None
    }
}

/// The outcome of loading a local adapter from `root`. `canonical` is where the
/// directory really is and `contents` is the text of its `adapter.toml`.
pub open spec fn external_loaded(
    root: Seq<char>,
    canonical: Option<Seq<char>>,
    contents: Option<Seq<char>>,
) -> Result<(Seq<char>, ExternalView), ErrorView> {
    match canonical {
        None => Err(
            error::error(ErrorKind::Host, "failed to access external adapter "@ + root),
        ),
        Some(place) => {
            let file = paths::join_path(place, "adapter.toml"@);
            match contents {
                None => Err(error::error(ErrorKind::Host, "failed to read "@ + file)),
                Some(t) => match json::toml_document(t) {
                    None => Err(
                        error::error(ErrorKind::Document, "invalid adapter manifest "@ + file),
                    ),
                    Some(d) => match decode_external(d) {
                        None => Err(
                            error::error(ErrorKind::Document, "invalid adapter manifest "@ + file),
                        ),
                        Some(m) => match external_violation(m) {
                            Some(e) => Err(e),
                            None => Ok((place, m)),
                        },
                    },
                },
            }
        },
    }
}

/// A local adapter that a document declares.
pub struct ExternalAdapter {
    root: String,
    manifest: ExternalAdapterManifest,
    id: AdapterId,
    interface: ApplicationInterface,
}

impl View for ExternalAdapter {
    type V = (Seq<char>, ExternalView);

    closed spec fn view(&self) -> (Seq<char>, ExternalView) {
        (self.root@, self.manifest@)
    }
}

impl ExternalAdapter {
    /// Identity and interface are those of the document.
    #[verifier::type_invariant]
    spec fn is_consistent(self) -> bool {
        self.id@ == self.manifest.id@ && self.interface@ == self.manifest.interface@
    }

    /// Loads the local adapter from `root`. `canonical` is where the directory
    /// really is and `contents` is the text of its `adapter.toml`.
    pub fn load(root: &str, canonical: Option<&str>, contents: Option<&str>) -> (r: Result<
        Self,
        PitError,
    >)
        ensures
            error::outcome(r) == external_loaded(
                root@,
                match canonical {
                    Some(c) => Some(c@),
                    None => None,
                },
                match contents {
                    Some(c) => Some(c@),
                    None => None,
                },
            ),
    {
        let place = match canonical {
            Some(place) => place,
            None => {
                return Err(
                    naming_path(ErrorKind::Host, "failed to access external adapter ", root),
                );
            },
        };
        let file = path_join(place, "adapter.toml");
        let source = match contents {
            Some(source) => source,
            None => {
                return Err(naming_path(ErrorKind::Host, "failed to read ", file.as_str()));
            },
        };
        let decoded = match parse_toml(source) {
            Ok(value) => read_external(&value),
            Err(_) => None,
        };
        let manifest = match decoded {
            Some(manifest) => manifest,
            None => {
                return Err(
                    naming_path(ErrorKind::Document, "invalid adapter manifest ", file.as_str()),
                );
            },
        };
        if manifest.schema != 1 {
            return Err(
                naming_path(
                    ErrorKind::Adapter,
                    "unsupported external adapter schema ",
                    to_decimal(manifest.schema as u64).as_str(),
                ),
            );
        }
        let id = match AdapterId::new(manifest.id.as_str()) {
            Ok(id) => id,
            Err(e) => {
                return Err(e);
            },
        };
        let interface = match ApplicationInterface::new(manifest.interface.as_str()) {
            Ok(interface) => interface,
            Err(e) => {
                return Err(e);
            },
        };
        if !text_eq(manifest.target.as_str(), "wasi:http/proxy") {
            return Err(
                PitError::fixed(
                    ErrorKind::Adapter,
                    "external adapter target must be wasi:http/proxy in v0.11",
                ),
            );
        }
        if !text_eq(manifest.kind.as_str(), "python-template") {
            return Err(
                PitError::naming(
                    ErrorKind::Adapter,
                    "unsupported external adapter generator kind '",
                    manifest.kind.as_str(),
                    "'; expected python-template",
                ),
            );
        }
        assert(manifest@.files.len() == manifest.files@.len());
        if manifest.files.len() == 0 {
            return Err(
                PitError::fixed(
                    ErrorKind::Adapter,
                    "external adapter must list at least one generated file",
                ),
            );
        }
        Ok(ExternalAdapter { root: place.to_owned(), manifest, id, interface })
    }
}

/// The steps of copying assets: up to the first that would leave its directory.
pub open spec fn asset_steps(
    adapter_root: Seq<char>,
    root: Seq<char>,
    files: Seq<Seq<char>>,
) -> Seq<StepView>
    decreases files.len(),
{
    if files.len() == 0 {
        Seq::empty()
    } else {
        match adapter::placed(adapter_root, files[0]) {
            Err(e) => seq![StepView::Refuse(e)],
            Ok(source) => {
                let destination = paths::join_path(root, files[0]);
                seq![
                    StepView::CopyAsset {
                        source,
                        directory: paths::parent(destination),
                        destination,
                    },
                ] + asset_steps(adapter_root, root, files.drop_first())
            },
        }
    }
}

/// Where assets are copied to.
pub open spec fn asset_places(root: Seq<char>, files: Seq<Seq<char>>) -> Seq<Seq<char>> {
    files.map_values(|f: Seq<char>| paths::join_path(root, f))
}

/// Where the bridge is generated.
pub open spec fn external_root(project_root: Seq<char>, id: Seq<char>) -> Seq<char> {
    paths::join_path(
        paths::join_path(project_root, ".pit/generated/adapters/external"@),
        text::replaced(id, seq!['/', '\\'], '_'),
    )
}

/// The version text that identifies a bridge.
pub open spec fn external_version(m: ExternalView) -> Seq<char> {
    m.version + ":"@ + language::language_text(m.language) + ":"@ + m.target + ":"@ + m.kind
}

/// The WIT directory of a bridge: the project's own, or the common one.
pub open spec fn external_wit(project_root: Seq<char>, host: HostView) -> Option<Seq<char>> {
    if host.project_has_wit {
        Some(paths::join_path(project_root, "wit"@))
    } else if host.template_exists {
        Some(host.wit_template)
    } else {
        None
    }
}

/// No step of copying assets leaves the two directories.
pub proof fn assets_stay_inside(adapter_root: Seq<char>, root: Seq<char>, files: Seq<Seq<char>>)
    ensures
        forall|i: int|
            0 <= i < asset_steps(adapter_root, root, files).len() ==> match #[trigger] asset_steps(
                adapter_root,
                root,
                files,
            )[i] {
                StepView::CopyAsset { source, directory, destination } => exists|f: Seq<char>|
                    !paths::is_absolute(f) && !paths::climbs(f) && source == paths::join_path(
                        adapter_root,
                        f,
                    ) && destination == #[trigger] paths::join_path(root, f),
                _ => true,
            },
    decreases files.len(),
{
    if files.len() > 0 {
        assets_stay_inside(adapter_root, root, files.drop_first());
        let all = asset_steps(adapter_root, root, files);
        let rest = asset_steps(adapter_root, root, files.drop_first());
        assert forall|i: int| 0 <= i < all.len() implies match #[trigger] all[i] {
            StepView::CopyAsset { source, directory, destination } => exists|f: Seq<char>|
                !paths::is_absolute(f) && !paths::climbs(f) && source == paths::join_path(
                    adapter_root,
                    f,
                ) && destination == #[trigger] paths::join_path(root, f),
            _ => true,
        } by {
            if i > 0 {
                assert(all[i] == rest[i - 1]);
            } else if adapter::placed(adapter_root, files[0]) is Ok {
                assert(paths::join_path(root, files[0]) == paths::join_path(root, files[0]));
            }
        }
    }
}

/// The outcome of checking an application.
pub open spec fn external_checked(m: ExternalView, model: CandidateView) -> Result<
    ReportView,
    ErrorView,
> {
    if model.language != m.language {
        Err(
            adapter::requirement_error(
                m.id,
                "language "@ + language::language_text(m.language),
            ),
        )
    } else if model.application_interface != Some(m.interface) {
        Err(adapter::requirement_error(m.id, "interface "@ + m.interface))
    } else {
        Ok(project::supported_report("external adapter version "@ + m.version))
    }
}

/// How the bridge of a local adapter is prepared: its assets are copied from
/// `adapter_root`.
pub open spec fn external_planned(
    adapter_root: Seq<char>,
    m: ExternalView,
    project: ProjectView,
    model: CandidateView,
) -> Result<PlanView, ErrorView> {
    match external_checked(m, model) {
        Err(e) => Err(e),
        Ok(_) => {
            let root = external_root(project.root, m.id);
            Ok(
                PlanView {
                    root,
                    steps: seq![StepView::CreateDirectory(root)] + asset_steps(
                        adapter_root,
                        root,
                        m.files,
                    ),
                    assets: Some(asset_places(root, m.files)),
                },
            )
        },
    }
}

/// The bridge of a local adapter, after its assets were copied.
pub open spec fn external_completed(
    m: ExternalView,
    project: ProjectView,
    model: CandidateView,
    host: HostView,
    files: Seq<(Seq<char>, Seq<u8>)>,
) -> Result<(WorkspaceView, ComponentWorld), ErrorView> {
    match external_checked(m, model) {
        Err(e) => Err(e),
        Ok(_) => {
            let root = external_root(project.root, m.id);
            Ok(
                (
                    WorkspaceView {
                        root,
                        source_roots: seq![root, project.root],
                        wit_path: external_wit(project.root, host),
                        entrypoint: m.entrypoint,
                        adapter: m.id,
                        digest: adapter::bridge_digest(
                            external_version(m),
                            m.id,
                            m.interface,
                            text::text_or_empty(model.entrypoint),
                            files,
                        ),
                        generated_files: adapter::file_paths(files),
                    },
                    ComponentWorld::WasiHttpProxy,
                ),
            )
        },
    }
}

impl ApplicationAdapter for ExternalAdapter {
    open spec fn id_text(&self) -> Seq<char> {
        self@.1.id
    }

    open spec fn takes_language(&self) -> Language {
        self@.1.language
    }

    open spec fn interface_text(&self) -> Seq<char> {
        self@.1.interface
    }

    open spec fn gives_world(&self) -> ComponentWorld {
        ComponentWorld::WasiHttpProxy
    }

    open spec fn detected(&self, project: ProjectView) -> Option<CandidateView> {
        None
    }

    open spec fn validated(&self, model: CandidateView) -> Result<ReportView, ErrorView> {
        external_checked(self@.1, model)
    }

    open spec fn inspected(&self, project: ProjectView, model: CandidateView) -> Result<
        ReportView,
        ErrorView,
    > {
        external_checked(self@.1, model)
    }

    open spec fn planned(
        &self,
        project: ProjectView,
        model: CandidateView,
        host: HostView,
    ) -> Result<PlanView, ErrorView> {
        external_planned(self@.0, self@.1, project, model)
    }

    open spec fn completed(
        &self,
        project: ProjectView,
        model: CandidateView,
        host: HostView,
        files: Seq<(Seq<char>, Seq<u8>)>,
    ) -> Result<(WorkspaceView, ComponentWorld), ErrorView> {
        external_completed(self@.1, project, model, host, files)
    }

    fn id(&self) -> (r: AdapterId) {
        proof {
            use_type_invariant(self);
        }
        self.id.clone()
    }

    fn language(&self) -> (r: Language) {
        self.manifest.language
    }

    fn interface(&self) -> (r: &ApplicationInterface) {
        proof {
            use_type_invariant(self);
        }
        &self.interface
    }

    fn runtime_world(&self) -> (r: ComponentWorld) {
        ComponentWorld::WasiHttpProxy
    }

    fn detect(&self, project: &ProjectInspection) -> (r: Option<DetectionCandidate>) {
        None
    }

    fn validate(&self, model: &ProjectModel) -> (r: Result<CompatibilityReport, PitError>) {
        proof {
            use_type_invariant(self);
        }
        if model.language != self.manifest.language {
            let mut what = "language ".to_owned();
            what.append(self.manifest.language.as_str());
            return Err(requirement_not_met(&self.id, what.as_str()));
        }
        let fits = match &model.application_interface {
            Some(i) => text_eq(i.as_str(), self.interface.as_str()),
            None => false,
        };
        if !fits {
            let mut what = "interface ".to_owned();
            what.append(self.interface.as_str());
            return Err(requirement_not_met(&self.id, what.as_str()));
        }
        let mut message = "external adapter version ".to_owned();
        message.append(self.manifest.version.as_str());
        Ok(CompatibilityReport::supported(message.as_str()))
    }

    fn inspect_compatibility(&self, project: &ProjectInspection, model: &ProjectModel) -> (r: Result<
        CompatibilityReport,
        PitError,
    >) {
        self.validate(model)
    }

    fn prepare(
        &self,
        project: &ProjectInspection,
        model: &ProjectModel,
        host: &AdapterHost,
    ) -> (r: Result<AdapterPlan, PitError>) {
        if let Err(e) = self.validate(model) {
            return Err(e);
        }
        proof {
            use_type_invariant(self);
        }
        let root = self.bridge_root(project.root.as_str());
        let ghost all = self@.1.files;
        let mut steps: Vec<PrepareStep> = Vec::new();
        steps.push(PrepareStep::CreateDirectory(root.clone()));
        let mut places: Vec<String> = Vec::new();
        let ghost first = adapter::steps_view(steps@);
        assert(first =~= seq![StepView::CreateDirectory(root@)]);
        assert(all.skip(0) =~= all);
        let mut refused = false;
        let mut i: usize = 0;
        while i < self.manifest.files.len()
            invariant
                i <= self.manifest.files@.len(),
                all == text::texts(self.manifest.files@),
                all == self@.1.files,
                places@.len() == i,
                forall|j: int|
                    0 <= j < i ==> (#[trigger] places@[j])@ == paths::join_path(root@, all[j]),
                refused ==> adapter::steps_view(steps@) == first + asset_steps(
                    self@.0,
                    root@,
                    all,
                ),
                !refused ==> adapter::steps_view(steps@) + asset_steps(
                    self@.0,
                    root@,
                    all.skip(i as int),
                ) == first + asset_steps(self@.0, root@, all),
            decreases self.manifest.files@.len() - i,
        {
            let relative = self.manifest.files[i].as_str();
            assert(all[i as int] == relative@);
            assert(all.skip(i as int).drop_first() =~= all.skip(i + 1));
            let destination = path_join(root.as_str(), relative);
            places.push(destination.clone());
            if !refused {
                let ghost before = adapter::steps_view(steps@);
                match safe_join(self.root.as_str(), relative) {
                    Ok(source) => {
                        let directory = parent_of(destination.as_str());
                        let step = PrepareStep::CopyAsset { source, directory, destination };
                        steps.push(step);
                        assert(adapter::steps_view(steps@) =~= before.push(step@));
                        assert(before + (seq![step@] + asset_steps(
                            self@.0,
                            root@,
                            all.skip(i + 1),
                        )) =~= before.push(step@) + asset_steps(self@.0, root@, all.skip(i + 1)));
                    },
                    Err(e) => {
                        let step = PrepareStep::Refuse(e);
                        steps.push(step);
                        assert(adapter::steps_view(steps@) =~= before + seq![step@]);
                        refused = true;
                    },
                }
            }
            i = i + 1;
        }
        assert(all.skip(i as int) =~= Seq::<Seq<char>>::empty());
        assert(adapter::steps_view(steps@) + Seq::<StepView>::empty() =~= adapter::steps_view(
            steps@,
        ));
        assert(text::texts(places@) =~= asset_places(root@, all));
        Ok(AdapterPlan { root, steps, assets: Some(places) })
    }

    fn complete(
        &self,
        project: &ProjectInspection,
        model: &ProjectModel,
        host: &AdapterHost,
        files: Vec<SourceFile>,
    ) -> (r: Result<AdapterOutput, PitError>) {
        if let Err(e) = self.validate(model) {
            return Err(e);
        }
        proof {
            use_type_invariant(self);
        }
        let root = self.bridge_root(project.root.as_str());
        let mut version = self.manifest.version.clone();
        version.append(":");
        version.append(self.manifest.language.as_str());
        version.append(":");
        version.append(self.manifest.target.as_str());
        version.append(":");
        version.append(self.manifest.kind.as_str());
        let digest = adapter_digest_bytes(
            version.as_str(),
            &self.id,
            &self.interface,
            or_empty(&model.entrypoint),
            &files,
        );
        let wit_path = if host.project_has_wit {
            Some(path_join(project.root.as_str(), "wit"))
        } else if host.template_exists {
            Some(host.wit_template.clone())
        } else {
            None
        };
        let workspace = AdapterWorkspace {
            source_roots: source_roots(root.as_str(), project.root.as_str()),
            wit_path,
            entrypoint: self.manifest.entrypoint.clone(),
            adapter: self.id.clone(),
            digest,
            generated_files: paths_of(&files),
            root,
        };
        Ok(AdapterOutput { workspace, runtime_world: ComponentWorld::WasiHttpProxy })
    }
}

impl ExternalAdapter {
    /// Where the bridge is generated.
    fn bridge_root(&self, project_root: &str) -> (r: String)
        ensures
            r@ == external_root(project_root@, self@.1.id),
    {
        proof {
            use_type_invariant(self);
        }
        let marks: [char; 2] = ['/', '\\'];
        assert(marks@ =~= seq!['/', '\\']);
        let name = replace(self.id.as_str(), &marks, '_');
        path_join(
            path_join(project_root, ".pit/generated/adapters/external").as_str(),
            name.as_str(),
        )
    }
}

} // verus!
