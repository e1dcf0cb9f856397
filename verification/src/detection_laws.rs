//! What holds of every application that is found: the adapter that found it takes
//! it, whatever framework it uses.

use crate::adapter;
use crate::adapter::{ApplicationAdapter, HostView};
use crate::error::ErrorView;
use crate::go_net_http::GoNetHttpAdapter;
use crate::project;
use crate::project::{CandidateView, ProjectView};
use crate::python_asgi;
use crate::python_asgi::PythonAsgiAdapter;
use crate::standard_adapter::StandardAdapter;
use crate::text;
use vstd::prelude::*;

verus! {

/// Whether a text is a module or an attribute.
spec fn is_word(s: Seq<char>) -> bool {
    &&& s.len() > 0
    &&& s[0] != '.'
    &&& forall|i: int|
        0 <= i < s.len() ==> #[trigger] s[i] != '/' && s[i] != '\\' && s[i] != ':'
}

/// An entrypoint of two words is read as these.
proof fn lemma_entrypoint(entrypoint: Seq<char>, module: Seq<char>, attribute: Seq<char>)
    requires
        is_word(module),
        is_word(attribute),
        entrypoint == module.push(':') + attribute,
    ensures
        adapter::entrypoint_parts(entrypoint) == Ok::<(Seq<char>, Seq<char>), ErrorView>(
            (module, attribute),
        ),
        text::has_text(entrypoint, ":"@),
{
    let colon = seq![':'];
    let slash = seq!['/'];
    let n = module.len() as int;
    assert(colon[0] == ':');
    assert(entrypoint[n] == ':');
    assert forall|j: int| 0 <= j < n implies !colon.contains(entrypoint[j]) by {
        assert(entrypoint[j] == module[j]);
    }
    text::lemma_first_of_is(entrypoint, colon, n);
    assert(entrypoint.take(n) =~= module);
    assert(entrypoint.skip(n + 1) =~= attribute);
    assert forall|j: int| 0 <= j < n implies !slash.contains(module[j]) by {}
    text::lemma_first_of_is(module, slash, n);
    assert(text::pieces(module, slash) =~= seq![module]);
    reveal_strlit(".");
    reveal_strlit("..");
    assert("."@[0] == '.');
    assert(".."@[0] == '.');
    assert(!adapter::is_bad_part(module)) by {
        assert(module != "."@);
        assert(module != ".."@);
    }
    assert(!module.contains('\\'));
    assert(!attribute.contains('/'));
    reveal_strlit(":");
    assert(entrypoint.subrange(n, n + 1) =~= ":"@);
    assert(text::occurs_at(entrypoint, ":"@, n));
}

/// The entrypoints that detection proposes.
proof fn lemma_entrypoints()
    ensures
        adapter::entrypoint_parts("main:fetch"@) is Ok,
        "main:fetch"@.len() > 0,
        adapter::entrypoint_parts("main:app"@) is Ok,
        "main:app"@.len() > 0,
        adapter::entrypoint_parts("app:app"@) is Ok,
        "app:app"@.len() > 0,
        adapter::entrypoint_parts("app:Handler"@) == Ok::<(Seq<char>, Seq<char>), ErrorView>(
            ("app"@, "Handler"@),
        ),
        text::has_text("app:Handler"@, ":"@),
        "app"@ != "main"@,
        "app"@ != "."@,
{
    reveal_strlit("main");
    reveal_strlit("fetch");
    reveal_strlit("app");
    reveal_strlit("Handler");
    reveal_strlit(".");
    reveal_strlit("main:fetch");
    reveal_strlit("main:app");
    reveal_strlit("app:app");
    reveal_strlit("app:Handler");
    assert("main:fetch"@ =~= "main"@.push(':') + "fetch"@);
    assert("main:app"@ =~= "main"@.push(':') + "app"@);
    assert("app:app"@ =~= "app"@.push(':') + "app"@);
    assert("app:Handler"@ =~= "app"@.push(':') + "Handler"@);
    lemma_entrypoint("main:fetch"@, "main"@, "fetch"@);
    lemma_entrypoint("main:app"@, "main"@, "app"@);
    lemma_entrypoint("app:app"@, "app"@, "app"@);
    lemma_entrypoint("app:Handler"@, "app"@, "Handler"@);
    assert("app"@.len() == 3 && "main"@.len() == 4 && "."@.len() == 1);
}

/// An application that an adapter finds is one that the adapter takes and can
/// prepare the bridge of.
pub proof fn found_applications_are_taken(
    a: StandardAdapter,
    project: ProjectView,
    host: HostView,
    c: CandidateView,
)
    requires
        a.detected(project) == Some(c),
    ensures
        c.language == a.takes_language(),
        c.application_interface == Some(a.interface_text()),
        a.validated(c) is Ok,
        a.planned(project, c, host) is Ok,
{
    lemma_entrypoints();
}

/// Whether an ASGI application is found does not depend on what the dependencies
/// name: a framework adds a hint and its evidence, and nothing else.
pub proof fn frameworks_are_only_hints(a: PythonAsgiAdapter, p: ProjectView, q: ProjectView)
    requires
        python_asgi::metadata_file(p) == python_asgi::metadata_file(q),
        python_asgi::application_file(p) == python_asgi::application_file(q),
        python_asgi::application_file(p) matches Some(file) ==> project::source_text(p, file)
            == project::source_text(q, file),
    ensures
        a.detected(p) is Some <==> a.detected(q) is Some,
        a.detected(p) is Some && a.detected(q) is Some ==> {
            let (c, d) = (a.detected(p)->0, a.detected(q)->0);
            &&& c.language == d.language
            &&& c.application_interface == d.application_interface
            &&& c.entrypoint == d.entrypoint
            &&& c.confidence == d.confidence
        },
{
    reveal_strlit("main.py");
    reveal_strlit("app.py");
    assert("main.py"@.len() == 7 && "app.py"@.len() == 6);
}

/// A Go application in a package that cannot be imported is refused.
pub proof fn root_packages_are_refused(a: GoNetHttpAdapter, m: CandidateView, symbol: Seq<char>)
    requires
        adapter::entrypoint_parts(text::text_or_empty(m.entrypoint)) == Ok::<
            (Seq<char>, Seq<char>),
            ErrorView,
        >(("main"@, symbol)),
    ensures
        a.validated(m) is Err,
{
}

} // verus!
