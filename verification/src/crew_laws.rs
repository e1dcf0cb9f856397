//! What holds of the parts that a crew is put together from: each does what the adapter or
//! the builder behind it does, and a build begins and ends as it should.

use crate::adapter::{ApplicationAdapter, HostView};
use crate::artifact::{ArtifactFormat, BuildProfile, ComponentWorld, ManifestView};
use crate::builder;
use crate::builder::{BuildFacts, BuildStepView, LanguageBuilder, RunView, StepReplyView};
use crate::component_laws;
use crate::digest;
use crate::error::{ErrorView, PitError};
use crate::external_adapter;
use crate::external_adapter::ExternalView;
use crate::go_net_http::GoNetHttpAdapter;
use crate::handler_laws;
use crate::javascript_fetch::JavaScriptFetchAdapter;
use crate::language;
use crate::language::Language;
use crate::manifest_json;
use crate::native_builder::NativeBuilder;
use crate::paths;
use crate::project;
use crate::project::{CandidateView, ProjectView};
use crate::python_asgi::PythonAsgiAdapter;
use crate::request::{BuildRequest, RequestView};
use crate::selection;
use crate::selection::SelectedView;
use crate::session;
use crate::session::{ReplyView, SessionView, StageView, WorkView};
use crate::standard_adapter::StandardAdapter;
use crate::text;
use crate::tooling::ToolEnvironment;
use crate::validation;
use crate::walk::EntryKind;
use vstd::prelude::*;

verus! {

/// The adapters that come with a crew do what they are.
pub proof fn standard_adapters_are_what_they_hold(
    a: PythonAsgiAdapter,
    b: JavaScriptFetchAdapter,
    c: GoNetHttpAdapter,
    p: ProjectView,
    m: CandidateView,
    h: HostView,
    files: Seq<(Seq<char>, Seq<u8>)>,
)
    ensures
        ({
            let s = StandardAdapter::PythonAsgi(a);
            &&& s.id_text() == a.id_text() && s.interface_text() == a.interface_text()
            &&& s.takes_language() == Language::Python
            &&& s.gives_world() == ComponentWorld::WasiHttpProxy
            &&& s.detected(p) == a.detected(p)
            &&& s.validated(m) == a.validated(m)
            &&& s.inspected(p, m) == a.inspected(p, m)
            &&& s.planned(p, m, h) == a.planned(p, m, h)
            &&& s.completed(p, m, h, files) == a.completed(p, m, h, files)
        }),
        ({
            let s = StandardAdapter::JavaScriptFetch(b);
            &&& s.id_text() == b.id_text() && s.interface_text() == b.interface_text()
            &&& s.takes_language() == b.takes_language()
            &&& s.gives_world() == ComponentWorld::WasiHttpProxy
            &&& s.detected(p) == b.detected(p)
            &&& s.validated(m) == b.validated(m)
            &&& s.inspected(p, m) == b.inspected(p, m)
            &&& s.planned(p, m, h) == b.planned(p, m, h)
            &&& s.completed(p, m, h, files) == b.completed(p, m, h, files)
        }),
        ({
            let s = StandardAdapter::GoNetHttp(c);
            &&& s.id_text() == c.id_text() && s.interface_text() == c.interface_text()
            &&& s.takes_language() == Language::Go
            &&& s.gives_world() == ComponentWorld::WasiHttpProxy
            &&& s.detected(p) == c.detected(p)
            &&& s.validated(m) == c.validated(m)
            &&& s.inspected(p, m) == c.inspected(p, m)
            &&& s.planned(p, m, h) == c.planned(p, m, h)
            &&& s.completed(p, m, h, files) == c.completed(p, m, h, files)
        }),
{
}

/// An adapter that was selected does what it is, whether it comes with the crew or is local.
pub proof fn selected_adapters_are_what_they_hold<A: ApplicationAdapter>(
    a: A,
    root: Seq<char>,
    e: ExternalView,
    p: ProjectView,
    m: CandidateView,
    h: HostView,
    files: Seq<(Seq<char>, Seq<u8>)>,
)
    ensures
        ({
            let s = SelectedView::Registered(a);
            &&& s.id() == a.id_text() && s.interface() == a.interface_text()
            &&& s.language() == a.takes_language()
            &&& s.inspected(p, m) == a.inspected(p, m)
            &&& s.planned(p, m, h) == a.planned(p, m, h)
            &&& s.completed(p, m, h, files) == a.completed(p, m, h, files)
        }),
        ({
            let s = SelectedView::<A>::Local(root, e);
            &&& s.id() == e.id && s.interface() == e.interface && s.language() == e.language
            &&& s.inspected(p, m) is Ok <==> m.language == e.language && m.application_interface
                == Some(e.interface)
            &&& s.planned(p, m, h) == external_adapter::external_planned(root, e, p, m)
            &&& s.completed(p, m, h, files) == external_adapter::external_completed(
                e,
                p,
                m,
                h,
                files,
            )
        }),
{
}

/// The application of a Go project is taken where its package can be imported.
pub proof fn importable_packages_are_taken(
    a: GoNetHttpAdapter,
    m: CandidateView,
    package: Seq<char>,
    symbol: Seq<char>,
)
    requires
        m.language == Language::Go,
        m.application_interface == Some(a.interface_text()),
        handler_laws::is_word(package),
        handler_laws::is_word(symbol),
        m.entrypoint == Some(package + seq![':'] + symbol),
    ensures
        a.validated(m) is Ok <==> package != "main"@,
{
    handler_laws::entrypoints_name_module_and_attribute(package, symbol);
    reveal_strlit(".");
    assert("."@[0] == '.');
}

/// A Go bridge is prepared for a module, and for nothing else.
pub proof fn go_bridges_need_a_module(
    a: GoNetHttpAdapter,
    p: ProjectView,
    m: CandidateView,
    h: HostView,
)
    ensures
        a.planned(p, m, h) is Ok <==> a.validated(m) is Ok && project::project_has(p, "go.mod"@),
{
}

/// A component that a compiler gave is renamed to the artifact; a module is made into one.
pub proof fn modules_are_made_into_components(
    w: RunView,
    core: Seq<char>,
    path: Seq<char>,
    otherwise: crate::tooling::CommandView,
    bytes: Seq<u8>,
)
    requires
        w.steps.len() > 0,
        w.steps[0] == (BuildStepView::Adopt { core, artifact: path, otherwise }),
    ensures
        component_laws::begins_component(bytes) ==> builder::run_after(
            w,
            StepReplyView::Contents(Some(bytes)),
        ) == Ok::<RunView, ErrorView>(
            RunView {
                steps: seq![BuildStepView::Rename { from: core, to: path }] + w.steps.drop_first(),
                draft: w.draft,
                manifest: w.manifest,
            },
        ),
        component_laws::begins_module(bytes) ==> builder::run_after(
            w,
            StepReplyView::Contents(Some(bytes)),
        ) == Ok::<RunView, ErrorView>(
            RunView {
                steps: seq![BuildStepView::Run(otherwise)] + w.steps.drop_first(),
                draft: w.draft,
                manifest: w.manifest,
            },
        ),
        !component_laws::begins_component(bytes) && !component_laws::begins_module(bytes)
            ==> builder::run_after(w, StepReplyView::Contents(Some(bytes))) is Err,
        builder::run_after(w, StepReplyView::Contents(None)) is Err,
{
    component_laws::formats_are_told_by_the_header(core, bytes);
}

/// What was collected is the manifest that a build gives, once no step is left.
pub proof fn runs_give_what_was_collected(
    w: RunView,
    path: Seq<char>,
    complaint: Seq<char>,
    bytes: Seq<u8>,
    m: ManifestView,
)
    requires
        w.steps.len() > 0,
        w.steps[0] == (BuildStepView::Collect { path, complaint }),
    ensures
        builder::collected(w.draft, path, complaint, Some(bytes)) == Ok::<ManifestView, ErrorView>(
            m,
        ) ==> builder::run_after(w, StepReplyView::Contents(Some(bytes))) == Ok::<
            RunView,
            ErrorView,
        >(RunView { steps: w.steps.drop_first(), draft: w.draft, manifest: Some(m) }),
        builder::collected(w.draft, path, complaint, Some(bytes)) is Err ==> builder::run_after(
            w,
            StepReplyView::Contents(Some(bytes)),
        ) is Err,
        builder::run_output(w) is None,
        builder::run_output(
            RunView { steps: Seq::empty(), draft: w.draft, manifest: Some(m) },
        ) matches Some(o) && o.manifest == m && o.artifact_path == w.draft.artifact_path
            && o.toolchain == w.draft.toolchain,
        builder::run_output(
            RunView { steps: Seq::empty(), draft: w.draft, manifest: None },
        ) is None,
{
}

/// The WIT files of a C or C++ build are those of the request, else those of the project,
/// else those of the environment; they must be there.
pub proof fn wit_files_are_chosen_in_order(
    request: BuildRequest,
    env: ToolEnvironment,
    facts: BuildFacts,
    r: Result<String, PitError>,
)
    requires
        call_ensures(NativeBuilder::wit, (&request, &env, &facts), r),
    ensures
        request@.wit_path matches Some(path) ==> (r is Ok <==> facts.request_wit_exists) && (r
            matches Ok(t) ==> t@ == path),
        request@.wit_path is None && facts.listing@.contains(("wit"@, EntryKind::Directory)) ==> (r
            matches Ok(t) && t@ == paths::join_path(request@.project_dir, "wit"@)),
        request@.wit_path is None && !facts.listing@.contains(("wit"@, EntryKind::Directory)) ==> (r
            is Ok <==> env.http_wit is Some && facts.http_wit_exists) && (r matches Ok(t)
            ==> t@ == env.http_wit->0@),
{
}

/// What is asked for where nothing is said: a release build for the second preview, which
/// may take over an earlier one.
pub proof fn plain_requests_ask_for_components(project_dir: &str, request: BuildRequest)
    requires
        call_ensures(BuildRequest::new, (project_dir,), request),
    ensures
        request@.project_dir == project_dir@,
        request@.profile == BuildProfile::Release,
        request@.abi == "wasi-preview2"@,
        !request@.force,
        request@.world is None && request@.language is None && request@.adapter is None
            && request@.application_interface is None && request@.entrypoint is None
            && request@.raw_artifact is None && request@.bin is None && request@.wit_path is None
            && request@.adapter_workspace is None,
        request@.execution_defaults.timeout_ms is None
            && request@.execution_defaults.memory_bytes is None,
{
}

/// A local adapter is looked for where the request says, from the project.
pub proof fn local_adapters_are_named_from_the_project(r: RequestView, value: Seq<char>)
    requires
        r.adapter == Some(value),
    ensures
        selection::adapter_place(r) == paths::join_path(r.project_dir, value),
{
}

/// A build begins in the directory that was found, with the provided artifact where one is
/// given and with the project where none is.
pub proof fn builds_begin_in_the_directory<B: LanguageBuilder, A: ApplicationAdapter>(
    w: SessionView<B, A>,
    place: Seq<char>,
)
    ensures
        w.stage is Locate ==> (session::after(w, ReplyView::Path(Some(place))) matches Ok(n)
            && n.stage is Directory && n.context.request == (RequestView {
            project_dir: place,
            ..w.context.request
        }) && n.context.crew == w.context.crew),
        w.stage is Locate ==> session::after(w, ReplyView::Path(None)) is Err,
        w.stage is Directory ==> session::after(w, ReplyView::Answer(false)) is Err,
        w.stage is Directory ==> (session::after(w, ReplyView::Answer(true)) matches Ok(n)
            && n.context == w.context && (w.context.request.raw_artifact is Some <==> n.stage
            is LocateRaw) && (w.context.request.raw_artifact is None <==> n.stage is Discover)),
{
}

/// An earlier build is looked for exactly where none is forced.
pub proof fn earlier_builds_are_looked_for<B: LanguageBuilder, A: ApplicationAdapter>(
    w: SessionView<B, A>,
    builder: B,
    said: Seq<char>,
)
    requires
        w.stage == (StageView::<B, A>::Fingerprint { builder }),
    ensures
        session::after(w, ReplyView::Fingerprint(said)) matches Ok(n) && n.context == w.context && (
        w.context.request.force ==> n.stage is Build && n.stage->Build_builder == builder) && (
        !w.context.request.force ==> n.stage is Look && n.stage->Look_work == WorkView::Source(
            builder,
        )),
{
}

/// A provided artifact is known by its first bytes; what has neither header is refused.
pub proof fn provided_artifacts_are_known_by_their_header<
    B: LanguageBuilder,
    A: ApplicationAdapter,
>(w: SessionView<B, A>, bytes: Seq<u8>)
    requires
        w.stage is ReadRaw,
    ensures
        component_laws::begins_component(bytes) || component_laws::begins_module(bytes)
            <==> session::after(w, ReplyView::Contents(Some(bytes))) is Ok,
        session::after(w, ReplyView::Contents(Some(bytes))) matches Ok(n) ==> (
        w.context.request.force ==> n.stage is RawDirectory && (n.stage->RawDirectory_format
            == ArtifactFormat::Component <==> component_laws::begins_component(bytes))) && (
        !w.context.request.force ==> n.stage is Look && n.stage->Look_work is Raw && (
        n.stage->Look_work == WorkView::<B>::Raw(ArtifactFormat::Component)
            <==> component_laws::begins_component(bytes))),
        session::after(w, ReplyView::Contents(Some(bytes))) matches Ok(n)
            ==> n.context.request.application_interface is Some && (
        w.context.request.application_interface is Some ==> n.context.request == w.context.request)
            && (w.context.request.application_interface is None
            && component_laws::begins_component(bytes)
            ==> n.context.request.application_interface == Some("wasi-http"@)) && (
        w.context.request.application_interface is None && component_laws::begins_module(bytes)
            ==> n.context.request.application_interface == Some("wasi-cli"@)),
{
    component_laws::formats_are_told_by_the_header(
        text::text_or_empty(w.context.request.raw_artifact),
        bytes,
    );
}

/// Only valid manifests are read.
pub proof fn manifests_that_are_read_are_valid(path: Seq<char>, contents: Option<Seq<u8>>)
    ensures
        manifest_json::loaded(path, contents) matches Ok(m) ==> validation::is_valid(m),
        contents is None ==> manifest_json::loaded(path, contents) is Err,
        contents matches Some(bytes) ==> (!crate::json::is_json_text(bytes)
            ==> manifest_json::loaded(path, contents) is Err),
{
    if let Ok(m) = manifest_json::loaded(path, contents) {
        validation::valid_iff_no_violation(m);
    }
}

/// The text of a file of a project is that of the first source under its path.
pub proof fn sources_are_found_by_path(p: ProjectView, i: int, relative: Seq<char>)
    requires
        0 <= i < p.sources.len(),
        paths::same_path(p.sources[i].0, relative),
        forall|j: int| 0 <= j < i ==> !paths::same_path((#[trigger] p.sources[j]).0, relative),
    ensures
        project::source_text(p, relative) == Some(p.sources[i].1),
{
    lemma_source(p.sources, i, relative);
}

proof fn lemma_source(sources: Seq<(Seq<char>, Seq<char>)>, i: int, relative: Seq<char>)
    requires
        0 <= i < sources.len(),
        paths::same_path(sources[i].0, relative),
        forall|j: int| 0 <= j < i ==> !paths::same_path((#[trigger] sources[j]).0, relative),
    ensures
        project::source_among(sources, relative) == Some(sources[i].1),
    decreases sources.len(),
{
    if i > 0 {
        assert(!paths::same_path(sources[0].0, relative));
        let rest = sources.drop_first();
        assert(rest[i - 1] == sources[i]);
        assert forall|j: int| 0 <= j < i - 1 implies !paths::same_path(
            (#[trigger] rest[j]).0,
            relative,
        ) by {
            assert(rest[j] == sources[j + 1]);
        }
        lemma_source(rest, i - 1, relative);
    }
}

/// The names that languages go by.
pub proof fn languages_go_by_their_names()
    ensures
        language::language_of("rust"@) == Some(Language::Rust),
        language::language_of("go"@) == Some(Language::Go),
        language::language_of("c"@) == Some(Language::C),
        language::language_of("cpp"@) == Some(Language::Cpp),
        language::language_of("c++"@) == Some(Language::Cpp),
        language::language_of("javascript"@) == Some(Language::JavaScript),
        language::language_of("js"@) == Some(Language::JavaScript),
        language::language_of("typescript"@) == Some(Language::TypeScript),
        language::language_of("ts"@) == Some(Language::TypeScript),
        language::language_of("python"@) == Some(Language::Python),
        language::language_of("py"@) == Some(Language::Python),
        language::language_of("csharp"@) == Some(Language::CSharp),
        language::language_of("c#"@) == Some(Language::CSharp),
        language::language_of("java"@) == Some(Language::Java),
{
    reveal_strlit("rust");
    reveal_strlit("go");
    reveal_strlit("c");
    reveal_strlit("cpp");
    reveal_strlit("c++");
    reveal_strlit("javascript");
    reveal_strlit("js");
    reveal_strlit("typescript");
    reveal_strlit("ts");
    reveal_strlit("python");
    reveal_strlit("py");
    reveal_strlit("csharp");
    reveal_strlit("c#");
    reveal_strlit("java");
    assert("rust"@.len() == 4 && "java"@.len() == 4 && "rust"@[0] != "java"@[0]);
    assert("go"@.len() == 2 && "js"@.len() == 2 && "ts"@.len() == 2 && "py"@.len() == 2 && "c#"@.len()
        == 2);
    assert("go"@[0] == 'g' && "js"@[0] == 'j' && "ts"@[0] == 't' && "py"@[0] == 'p' && "c#"@[0]
        == 'c');
    assert("c"@.len() == 1);
    assert("cpp"@.len() == 3 && "c++"@.len() == 3 && "cpp"@[1] != "c++"@[1]);
    assert("javascript"@.len() == 10 && "typescript"@.len() == 10 && "javascript"@[0]
        != "typescript"@[0]);
    assert("python"@.len() == 6 && "csharp"@.len() == 6 && "python"@[0] != "csharp"@[0]);
}

/// Each byte of a digest is written as two lower-case hexadecimal digits, the high one first.
pub proof fn digests_are_written_in_lower_case(bytes: Seq<u8>, i: int)
    requires
        0 <= i < bytes.len(),
    ensures
        digest::hex(bytes).len() == 2 * bytes.len(),
        digit_value(digest::hex(bytes)[2 * i]) * 16 + digit_value(digest::hex(bytes)[2 * i + 1])
            == bytes[i] as int,
    decreases bytes.len(),
{
    digest::lemma_hex(bytes);
    let rest = bytes.drop_last();
    digest::lemma_hex(rest);
    if i < rest.len() {
        digests_are_written_in_lower_case(rest, i);
    } else {
        let b = bytes.last() as int;
        assert(digest::hex(bytes)[2 * i] == digest::hex_digit(b / 16));
        assert(digest::hex(bytes)[2 * i + 1] == digest::hex_digit(b % 16));
    }
}

/// The value of a hexadecimal digit, in lower case.
pub open spec fn digit_value(c: char) -> int {
    if '0' <= c <= '9' {
        c as int - '0' as int
    } else if 'a' <= c <= 'f' {
        c as int - 'a' as int + 10
    } else {
        -1
    }
}

} // verus!
