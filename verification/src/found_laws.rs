//! What is found in a project: the entrypoint names the file that was looked into, and
//! every application of a known shape is found.

use crate::adapter::ApplicationAdapter;
use crate::go_net_http;
use crate::go_net_http::GoNetHttpAdapter;
use crate::javascript_fetch::JavaScriptFetchAdapter;
use crate::language::Language;
use crate::paths;
use crate::project;
use crate::project::{CandidateView, ProjectView};
use crate::python_asgi;
use crate::python_asgi::PythonAsgiAdapter;
use crate::text;
use vstd::prelude::*;

verus! {

/// Whether a source defines an application: a function or a value named `app`.
pub open spec fn defines_app(source: Seq<char>) -> bool {
    text::has_text(source, "def app"@) || text::has_text(source, "app ="@)
}

/// Whether a project has the file, and its text could be read.
pub open spec fn has_source(p: ProjectView, file: Seq<char>, source: Seq<char>) -> bool {
    project::project_has(p, file) && project::source_text(p, file) == Some(source)
}

/// Whether a file speaks for an application that was found.
pub open spec fn is_evidence(c: CandidateView, file: Seq<char>) -> bool {
    exists|i: int| 0 <= i < c.evidence.len() && (#[trigger] c.evidence[i]).source == file
}

/// Whether a project has a file with metadata of a Python project.
pub open spec fn is_python_project(p: ProjectView) -> bool {
    project::project_has(p, "pyproject.toml"@) || project::project_has(p, "requirements.txt"@)
        || project::project_has(p, "setup.py"@)
}

proof fn lemma_asgi_names()
    ensures
        "main"@ + ".py"@ == "main.py"@,
        "app"@ + ".py"@ == "app.py"@,
        "main"@ + ":app"@ == "main:app"@,
        "app"@ + ":app"@ == "app:app"@,
        "main"@ != "app"@,
{
    reveal_strlit("main");
    reveal_strlit("app");
    reveal_strlit(".py");
    reveal_strlit(":app");
    reveal_strlit("main.py");
    reveal_strlit("app.py");
    reveal_strlit("main:app");
    reveal_strlit("app:app");
    assert("main"@ + ".py"@ =~= "main.py"@);
    assert("app"@ + ".py"@ =~= "app.py"@);
    assert("main"@ + ":app"@ =~= "main:app"@);
    assert("app"@ + ":app"@ =~= "app:app"@);
    assert("main"@.len() == 4 && "app"@.len() == 3);
}

proof fn lemma_async(source: Seq<char>)
    ensures
        text::has_text(source, "async def app"@) ==> text::has_text(source, "def app"@),
{
    reveal_strlit("async def app");
    reveal_strlit("def app");
    if text::has_text(source, "async def app"@) {
        let i = choose|i: int| text::occurs_at(source, "async def app"@, i);
        assert(source.subrange(i, i + 13) == "async def app"@);
        assert("async def app"@.subrange(6, 13) =~= "def app"@);
        assert(source.subrange(i + 6, i + 13) =~= source.subrange(i, i + 13).subrange(6, 13));
        assert(text::occurs_at(source, "def app"@, i + 6));
    }
}

/// The entrypoint of an ASGI application that is found names the module that was looked
/// into: a file of the project, named like the module, whose text defines `app`.
pub proof fn asgi_entrypoints_name_the_source(
    a: PythonAsgiAdapter,
    p: ProjectView,
    c: CandidateView,
)
    requires
        a.detected(p) == Some(c),
    ensures
        exists|module: Seq<char>, source: Seq<char>|
            c.entrypoint == Some(module + ":app"@) && #[trigger] has_source(
                p,
                module + ".py"@,
                source,
            ) && defines_app(source) && is_evidence(c, module + ".py"@),
        is_python_project(p),
        is_evidence(c, "pyproject.toml"@) || is_evidence(c, "requirements.txt"@) || is_evidence(
            c,
            "setup.py"@,
        ),
        c.confidence == 90,
        c.language == Language::Python,
        c.application_interface == Some(a.interface_text()),
{
    lemma_asgi_names();
    let module = if project::project_has(p, "main.py"@) {
        "main"@
    } else {
        "app"@
    };
    let source = project::source_text(p, module + ".py"@)->0;
    lemma_async(source);
    let n = c.evidence.len() - 1;
    assert(c.evidence[n].source == module + ".py"@);
    assert(c.evidence[0].source == python_asgi::metadata_file(p)->0);
    assert(has_source(p, module + ".py"@, source));
}

/// An ASGI application in `main.py`, or in `app.py` of a project without `main.py`, is
/// found, whatever the project depends on.
pub proof fn asgi_applications_are_found(
    a: PythonAsgiAdapter,
    p: ProjectView,
    module: Seq<char>,
    source: Seq<char>,
)
    requires
        is_python_project(p),
        module == "main"@ || (module == "app"@ && !project::project_has(p, "main.py"@)),
        has_source(p, module + ".py"@, source),
        defines_app(source),
    ensures
        a.detected(p) matches Some(c) && c.entrypoint == Some(module + ":app"@),
{
    lemma_asgi_names();
}

/// A framework is named only where a file of dependencies names it, in any case of letters.
pub proof fn frameworks_are_named_by_dependencies(
    a: PythonAsgiAdapter,
    p: ProjectView,
    c: CandidateView,
    framework: Seq<char>,
)
    requires
        a.detected(p) == Some(c),
        c.framework_hint == Some(framework),
    ensures
        exists|i: int, contents: Seq<char>|
            0 <= i < p.files.len() && project::source_text(p, #[trigger] p.files[i]) == Some(
                contents,
            ) && (paths::file_name(p.files[i]) == Some("pyproject.toml"@) || paths::file_name(
                p.files[i],
            ) == Some("requirements.txt"@)) && ((framework == "FastAPI"@ && #[trigger] text::has_text(
                text::lower(contents),
                "fastapi"@,
            )) || (framework == "Starlette"@ && text::has_text(
                text::lower(contents),
                "starlette"@,
            ))),
{
    let i = lemma_framework(p, p.files, framework);
    let contents = project::source_text(p, p.files[i])->0;
    let fast = text::has_text(text::lower(contents), "fastapi"@);
    assert(project::source_text(p, p.files[i]) == Some(contents));
}

proof fn lemma_framework(p: ProjectView, files: Seq<Seq<char>>, framework: Seq<char>) -> (i: int)
    requires
        python_asgi::framework_among(p, files) == Some(framework),
    ensures
        0 <= i < files.len(),
        python_asgi::framework_of(p, files[i]) == Some(framework),
    decreases files.len(),
{
    if python_asgi::framework_of(p, files[0]) is Some {
        0
    } else {
        lemma_framework(p, files.drop_first(), framework) + 1
    }
}

/// The main file of a JavaScript or TypeScript project.
pub open spec fn is_main_file(language: Language, file: Seq<char>) -> bool {
    (language == Language::TypeScript && file == "main.ts"@) || (language == Language::JavaScript
        && file == "main.js"@)
}

/// A Fetch handler is found exactly where the package has the main file of the language
/// and its text speaks of `fetch` or listens for events. Its entrypoint is in that file.
pub proof fn fetch_handlers_are_found(
    a: JavaScriptFetchAdapter,
    p: ProjectView,
    file: Seq<char>,
)
    requires
        is_main_file(a.takes_language(), file),
    ensures
        a.detected(p) is Some <==> exists|source: Seq<char>|
            project::project_has(p, "package.json"@) && #[trigger] has_source(p, file, source) && (
            text::has_text(source, "fetch"@) || text::has_text(source, "addEventListener"@)),
        a.detected(p) matches Some(c) ==> c.entrypoint == Some("main:fetch"@) && c.language
            == a.takes_language() && c.application_interface == Some(a.interface_text())
            && is_evidence(c, file) && c.confidence == 70,
{
    if let Some(c) = a.detected(p) {
        assert(c.evidence[0].source == file);
        assert(has_source(p, file, project::source_text(p, file)->0));
    }
}

/// A Go handler is found exactly where the module has a Go source that speaks of
/// `http.Handler` or has a `ServeHTTP`. It is taken for `Handler` of the package `app`.
pub proof fn go_handlers_are_found(a: GoNetHttpAdapter, p: ProjectView)
    ensures
        a.detected(p) is Some <==> project::project_has(p, "go.mod"@) && exists|
            i: int,
            source: Seq<char>,
        |
            0 <= i < p.files.len() && paths::path_extension(#[trigger] p.files[i]) == Some("go"@)
                && project::source_text(p, p.files[i]) == Some(source) && (#[trigger] text::has_text(
                source,
                "http.Handler"@,
            ) || text::has_text(source, "ServeHTTP"@)),
        a.detected(p) matches Some(c) ==> c.entrypoint == Some("app:Handler"@) && c.language
            == Language::Go && c.application_interface == Some(a.interface_text()) && c.confidence
            == 65,
{
    if a.detected(p) is Some {
        let i = choose|i: int|
            0 <= i < p.files.len() && go_net_http::is_handler_file(p, #[trigger] p.files[i]);
        let source = project::source_text(p, p.files[i])->0;
        let spoken = text::has_text(source, "http.Handler"@);
        assert(paths::path_extension(p.files[i]) == Some("go"@));
    }
    if project::project_has(p, "go.mod"@) && exists|i: int, source: Seq<char>|
        0 <= i < p.files.len() && paths::path_extension(#[trigger] p.files[i]) == Some("go"@)
            && project::source_text(p, p.files[i]) == Some(source) && (#[trigger] text::has_text(
            source,
            "http.Handler"@,
        ) || text::has_text(source, "ServeHTTP"@)) {
        let (i, source) = choose|i: int, source: Seq<char>|
            0 <= i < p.files.len() && paths::path_extension(#[trigger] p.files[i]) == Some("go"@)
                && project::source_text(p, p.files[i]) == Some(source) && (#[trigger] text::has_text(
                source,
                "http.Handler"@,
            ) || text::has_text(source, "ServeHTTP"@));
        assert(go_net_http::is_handler_file(p, p.files[i]));
    }
}

/// Where a file of dependencies names a framework, the application is said to use one;
/// where the first that names one names FastAPI, it is that.
pub proof fn named_frameworks_are_hinted_at(
    a: PythonAsgiAdapter,
    p: ProjectView,
    c: CandidateView,
    i: int,
    contents: Seq<char>,
)
    requires
        a.detected(p) == Some(c),
        0 <= i < p.files.len(),
        project::source_text(p, p.files[i]) == Some(contents),
        paths::file_name(p.files[i]) == Some("pyproject.toml"@) || paths::file_name(p.files[i])
            == Some("requirements.txt"@),
        text::has_text(text::lower(contents), "fastapi"@) || text::has_text(
            text::lower(contents),
            "starlette"@,
        ),
    ensures
        c.framework_hint is Some,
        (forall|j: int| 0 <= j < i ==> python_asgi::framework_of(p, #[trigger] p.files[j]) is None)
            && text::has_text(text::lower(contents), "fastapi"@) ==> c.framework_hint == Some(
            "FastAPI"@,
        ),
{
    lemma_hinted(p, p.files, i);
}

proof fn lemma_hinted(p: ProjectView, files: Seq<Seq<char>>, i: int)
    requires
        0 <= i < files.len(),
        python_asgi::framework_of(p, files[i]) is Some,
    ensures
        python_asgi::framework_among(p, files) is Some,
        (forall|j: int| 0 <= j < i ==> python_asgi::framework_of(p, #[trigger] files[j]) is None)
            ==> python_asgi::framework_among(p, files) == python_asgi::framework_of(p, files[i]),
    decreases files.len(),
{
    if i > 0 {
        let rest = files.drop_first();
        assert(rest[i - 1] == files[i]);
        lemma_hinted(p, rest, i - 1);
        if forall|j: int| 0 <= j < i ==> python_asgi::framework_of(p, #[trigger] files[j]) is None {
            assert(python_asgi::framework_of(p, files[0]) is None);
            assert forall|j: int| 0 <= j < i - 1 implies python_asgi::framework_of(
                p,
                #[trigger] rest[j],
            ) is None by {
                assert(rest[j] == files[j + 1]);
            }
        }
    }
}

} // verus!
