//! What holds of every bridge: it is generated below `.pit/generated`, and nothing
//! else of the project is written.

use crate::adapter::{ApplicationAdapter, HostView, PlanView, StepView};
use crate::external_adapter;
use crate::external_adapter::ExternalView;
use crate::go_net_http;
use crate::go_net_http::GoNetHttpAdapter;
use crate::javascript_fetch;
use crate::javascript_fetch::JavaScriptFetchAdapter;
use crate::language;
use crate::paths;
use crate::project::{CandidateView, ProjectView};
use crate::python_asgi;
use crate::python_asgi::PythonAsgiAdapter;
use crate::selection::SelectedView;
use crate::standard_adapter::StandardAdapter;
use crate::text;
use vstd::prelude::*;

verus! {

/// The directory of what is generated for a project.
pub open spec fn generated(project_root: Seq<char>) -> Seq<char> {
    paths::join_path(project_root, ".pit/generated"@)
}

/// Whether a relative path leads into its directory, never out of it.
pub open spec fn leads_inside(relative: Seq<char>) -> bool {
    !paths::is_absolute(relative) && !paths::climbs(relative)
}

/// Whether a path lies below a directory.
pub open spec fn is_below(path: Seq<char>, directory: Seq<char>) -> bool {
    exists|relative: Seq<char>|
        leads_inside(relative) && path == #[trigger] paths::join_path(directory, relative)
}

/// What a step creates or writes.
pub open spec fn writes(step: StepView) -> Option<Seq<char>> {
    match step {
        StepView::CreateDirectory(path) => Some(path),
        StepView::WriteFile { path, contents } => Some(path),
        StepView::CopyTree { source, destination } => Some(destination),
        StepView::CopyAsset { source, directory, destination } => Some(destination),
        StepView::Refuse(_) => None,
    }
}

/// Whether everything that a plan creates or writes lies below a directory.
pub open spec fn stays_below(plan: PlanView, directory: Seq<char>) -> bool {
    &&& is_below(plan.root, directory)
    &&& forall|i: int|
        0 <= i < plan.steps.len() ==> (writes(#[trigger] plan.steps[i]) matches Some(path)
            ==> is_below(path, directory))
}

/// Whether a text is the name of a file.
spec fn is_plain(s: Seq<char>) -> bool {
    s.len() > 0 && s[0] != '.' && forall|i: int| 0 <= i < s.len() ==> #[trigger] s[i] != '/'
}

pub proof fn lemma_segments(a: Seq<char>, b: Seq<char>)
    ensures
        paths::segments(a.push('/') + b) == paths::segments(a) + paths::segments(b),
    decreases a.len(),
{
    let set = seq!['/'];
    let whole = a.push('/') + b;
    assert(set.contains(set[0]));
    text::lemma_first_of(a, set);
    let i = text::first_of(a, set);
    assert forall|j: int| 0 <= j < i implies !set.contains(whole[j]) by {
        assert(whole[j] == a[j]);
    }
    assert(set.contains(whole[i])) by {
        if i < a.len() {
            assert(whole[i] == a[i]);
        } else {
            assert(whole[i] == '/');
        }
    }
    text::lemma_first_of_is(whole, set, i);
    assert(whole.take(i) =~= a.take(i));
    if i < a.len() {
        assert(whole.skip(i + 1) =~= a.skip(i + 1).push('/') + b);
        lemma_segments(a.skip(i + 1), b);
        assert(paths::segments(whole) =~= paths::segments(a) + paths::segments(b));
    } else {
        assert(whole.skip(i + 1) =~= b);
        assert(a.take(i) =~= a);
        assert(paths::segments(whole) =~= paths::segments(a) + paths::segments(b));
    }
}

proof fn lemma_plain(s: Seq<char>)
    requires
        is_plain(s),
    ensures
        leads_inside(s),
        s.last() != '/',
{
    let set = seq!['/'];
    assert forall|j: int| 0 <= j < s.len() implies !set.contains(s[j]) by {}
    text::lemma_first_of_is(s, set, s.len() as int);
    assert(paths::segments(s) =~= seq![s]);
    if paths::climbs(s) {
        let k = choose|k: int|
            0 <= k < paths::segments(s).len() && paths::segments(s)[k] == seq!['.', '.'];
        assert(s == seq!['.', '.']);
        assert(s[0] == '.');
    }
}

proof fn lemma_inside(a: Seq<char>, b: Seq<char>)
    requires
        a.len() > 0,
        leads_inside(a),
        leads_inside(b),
    ensures
        leads_inside(a.push('/') + b),
{
    let whole = a.push('/') + b;
    assert(whole[0] == a[0]);
    lemma_segments(a, b);
    if paths::climbs(whole) {
        let s = paths::segments(whole);
        let k = choose|k: int| 0 <= k < s.len() && s[k] == seq!['.', '.'];
        if k < paths::segments(a).len() {
            assert(paths::segments(a)[k] == seq!['.', '.']);
        } else {
            assert(paths::segments(b)[k - paths::segments(a).len()] == seq!['.', '.']);
        }
    }
}

/// A path below a path below a directory lies below that directory.
pub proof fn lemma_join(directory: Seq<char>, a: Seq<char>, b: Seq<char>)
    requires
        a.len() > 0,
        a.last() != '/',
        !paths::is_absolute(a),
        !paths::is_absolute(b),
    ensures
        paths::join_path(paths::join_path(directory, a), b) == paths::join_path(
            directory,
            a.push('/') + b,
        ),
{
    let whole = a.push('/') + b;
    assert(whole[0] == a[0]);
    let first = paths::join_path(directory, a);
    assert(first.last() == a.last());
    assert(paths::join_path(first, b) =~= paths::join_path(directory, whole));
}

proof fn lemma_below(directory: Seq<char>, a: Seq<char>, b: Seq<char>)
    requires
        a.len() > 0,
        a.last() != '/',
        leads_inside(a),
        leads_inside(b),
    ensures
        is_below(paths::join_path(directory, a), directory),
        is_below(paths::join_path(paths::join_path(directory, a), b), directory),
{
    lemma_join(directory, a, b);
    lemma_inside(a, b);
    assert(leads_inside(a) && paths::join_path(directory, a) == paths::join_path(directory, a));
    assert(leads_inside(a.push('/') + b));
}

/// The places of the bridges.
proof fn lemma_roots(project_root: Seq<char>)
    ensures
        javascript_fetch::fetch_root(project_root) == paths::join_path(
            generated(project_root),
            "adapters/javascript-fetch"@,
        ),
        go_net_http::go_root(project_root) == paths::join_path(
            generated(project_root),
            "adapters/go-net-http"@,
        ),
        python_asgi::asgi_root(project_root) == paths::join_path(
            generated(project_root),
            "adapters/python-asgi"@,
        ),
        paths::join_path(project_root, ".pit/generated/adapters/external"@) == paths::join_path(
            generated(project_root),
            "adapters/external"@,
        ),
{
    reveal_strlit(".pit/generated");
    reveal_strlit("adapters/javascript-fetch");
    reveal_strlit("adapters/go-net-http");
    reveal_strlit("adapters/python-asgi");
    reveal_strlit("adapters/external");
    reveal_strlit(".pit/generated/adapters/javascript-fetch");
    reveal_strlit(".pit/generated/adapters/go-net-http");
    reveal_strlit(".pit/generated/adapters/python-asgi");
    reveal_strlit(".pit/generated/adapters/external");
    let base = ".pit/generated"@;
    assert(".pit/generated/adapters/javascript-fetch"@ =~= base.push('/')
        + "adapters/javascript-fetch"@);
    assert(".pit/generated/adapters/go-net-http"@ =~= base.push('/') + "adapters/go-net-http"@);
    assert(".pit/generated/adapters/python-asgi"@ =~= base.push('/') + "adapters/python-asgi"@);
    assert(".pit/generated/adapters/external"@ =~= base.push('/') + "adapters/external"@);
    lemma_join(project_root, base, "adapters/javascript-fetch"@);
    lemma_join(project_root, base, "adapters/go-net-http"@);
    lemma_join(project_root, base, "adapters/python-asgi"@);
    lemma_join(project_root, base, "adapters/external"@);
}

/// The names in the places of the bridges.
proof fn lemma_names()
    ensures
        leads_inside("adapters/javascript-fetch"@),
        "adapters/javascript-fetch"@.len() > 0,
        "adapters/javascript-fetch"@.last() != '/',
        leads_inside("adapters/go-net-http"@),
        "adapters/go-net-http"@.len() > 0,
        "adapters/go-net-http"@.last() != '/',
        leads_inside("adapters/python-asgi"@),
        "adapters/python-asgi"@.len() > 0,
        "adapters/python-asgi"@.last() != '/',
        leads_inside("adapters/external"@),
        "adapters/external"@.len() > 0,
        "adapters/external"@.last() != '/',
        leads_inside("main.js"@),
        leads_inside("app.py"@),
        leads_inside("wit"@),
        is_plain("export_wasi_http_incoming_handler"@),
        leads_inside("handler.go"@),
{
    reveal_strlit("adapters");
    reveal_strlit("javascript-fetch");
    reveal_strlit("go-net-http");
    reveal_strlit("python-asgi");
    reveal_strlit("external");
    reveal_strlit("adapters/javascript-fetch");
    reveal_strlit("adapters/go-net-http");
    reveal_strlit("adapters/python-asgi");
    reveal_strlit("adapters/external");
    reveal_strlit("main.js");
    reveal_strlit("app.py");
    reveal_strlit("wit");
    reveal_strlit("export_wasi_http_incoming_handler");
    reveal_strlit("handler.go");
    let first = "adapters"@;
    assert("adapters/javascript-fetch"@ =~= first.push('/') + "javascript-fetch"@);
    assert("adapters/go-net-http"@ =~= first.push('/') + "go-net-http"@);
    assert("adapters/python-asgi"@ =~= first.push('/') + "python-asgi"@);
    assert("adapters/external"@ =~= first.push('/') + "external"@);
    lemma_plain(first);
    lemma_plain("javascript-fetch"@);
    lemma_plain("go-net-http"@);
    lemma_plain("python-asgi"@);
    lemma_plain("external"@);
    lemma_plain("main.js"@);
    lemma_plain("app.py"@);
    lemma_plain("wit"@);
    lemma_plain("export_wasi_http_incoming_handler"@);
    lemma_plain("handler.go"@);
    lemma_inside(first, "javascript-fetch"@);
    lemma_inside(first, "go-net-http"@);
    lemma_inside(first, "python-asgi"@);
    lemma_inside(first, "external"@);
}

/// The bridges of Fetch handlers are generated below `.pit/generated`.
pub proof fn fetch_bridges_stay_below(
    a: JavaScriptFetchAdapter,
    project: ProjectView,
    model: CandidateView,
    host: HostView,
)
    ensures
        a.planned(project, model, host) matches Ok(plan) ==> stays_below(
            plan,
            generated(project.root),
        ),
{
    lemma_roots(project.root);
    lemma_names();
    lemma_below(generated(project.root), "adapters/javascript-fetch"@, "main.js"@);
}

/// The bridges of Go handlers are generated below `.pit/generated`.
pub proof fn go_bridges_stay_below(
    a: GoNetHttpAdapter,
    project: ProjectView,
    model: CandidateView,
    host: HostView,
)
    ensures
        a.planned(project, model, host) matches Ok(plan) ==> stays_below(
            plan,
            generated(project.root),
        ),
{
    let directory = generated(project.root);
    let root = "adapters/go-net-http"@;
    let package = "export_wasi_http_incoming_handler"@;
    lemma_roots(project.root);
    lemma_names();
    lemma_plain(package);
    lemma_below(directory, root, package);
    lemma_join(directory, root, package);
    lemma_inside(root, package);
    lemma_below(directory, root.push('/') + package, "handler.go"@);
}

/// The bridges of ASGI applications are generated below `.pit/generated`.
pub proof fn asgi_bridges_stay_below(
    a: PythonAsgiAdapter,
    project: ProjectView,
    model: CandidateView,
    host: HostView,
)
    ensures
        a.planned(project, model, host) matches Ok(plan) ==> stays_below(
            plan,
            generated(project.root),
        ),
{
    lemma_roots(project.root);
    lemma_names();
    lemma_below(generated(project.root), "adapters/python-asgi"@, "wit"@);
    lemma_below(generated(project.root), "adapters/python-asgi"@, "app.py"@);
}

/// The name of a local adapter's directory.
proof fn lemma_local_name(id: Seq<char>)
    requires
        language::is_identifier(id),
    ensures
        is_plain(text::replaced(id, seq!['/', '\\'], '_')),
{
    let set = seq!['/', '\\'];
    let name = text::replaced(id, set, '_');
    assert(set[0] == '/');
    assert forall|i: int| 0 <= i < name.len() implies #[trigger] name[i] != '/' by {
        if id[i] == '/' {
            assert(set.contains(id[i]));
        }
    }
    assert(name.len() == id.len());
    assert(name[0] != '.');
}

/// The bridges of local adapters are generated below `.pit/generated`.
pub proof fn local_bridges_stay_below(
    adapter_root: Seq<char>,
    m: ExternalView,
    project: ProjectView,
    model: CandidateView,
)
    requires
        external_adapter::external_violation(m) is None,
    ensures
        external_adapter::external_planned(adapter_root, m, project, model) matches Ok(plan)
            ==> stays_below(plan, generated(project.root)),
{
    let directory = generated(project.root);
    let name = text::replaced(m.id, seq!['/', '\\'], '_');
    let relative = "adapters/external"@.push('/') + name;
    let root = external_adapter::external_root(project.root, m.id);
    lemma_roots(project.root);
    lemma_names();
    lemma_local_name(m.id);
    lemma_plain(name);
    lemma_join(directory, "adapters/external"@, name);
    lemma_inside("adapters/external"@, name);
    assert(relative.last() == name.last());
    assert(leads_inside(relative) && root == paths::join_path(directory, relative));
    let steps = external_adapter::asset_steps(adapter_root, root, m.files);
    external_adapter::assets_stay_inside(adapter_root, root, m.files);
    assert forall|i: int| 0 <= i < steps.len() implies (writes(#[trigger] steps[i]) matches Some(
        path,
    ) ==> is_below(path, directory)) by {
        lemma_asset_step(adapter_root, root, m.files, i);
        if let StepView::CopyAsset { source, directory: d, destination } = steps[i] {
            let f = choose|f: Seq<char>|
                !paths::is_absolute(f) && !paths::climbs(f) && source == paths::join_path(
                    adapter_root,
                    f,
                ) && destination == #[trigger] paths::join_path(root, f);
            lemma_below(directory, relative, f);
        }
    }
    if let Ok(plan) = external_adapter::external_planned(adapter_root, m, project, model) {
        assert forall|i: int| 0 <= i < plan.steps.len() implies (writes(
            #[trigger] plan.steps[i],
        ) matches Some(path) ==> is_below(path, directory)) by {
            if i > 0 {
                assert(plan.steps[i] == steps[i - 1]);
            }
        }
    }
}

/// Copying assets takes no other steps than copies and a refusal.
proof fn lemma_asset_step(
    adapter_root: Seq<char>,
    root: Seq<char>,
    files: Seq<Seq<char>>,
    i: int,
)
    requires
        0 <= i < external_adapter::asset_steps(adapter_root, root, files).len(),
    ensures
        external_adapter::asset_steps(adapter_root, root, files)[i] is CopyAsset
            || external_adapter::asset_steps(adapter_root, root, files)[i] is Refuse,
    decreases files.len(),
{
    if files.len() > 0 && i > 0 {
        let rest = external_adapter::asset_steps(adapter_root, root, files.drop_first());
        assert(external_adapter::asset_steps(adapter_root, root, files)[i] == rest[i - 1]);
        lemma_asset_step(adapter_root, root, files.drop_first(), i - 1);
    }
}

/// Whatever adapter of the library is selected, its bridge is generated below
/// `.pit/generated`.
pub proof fn bridges_stay_below(
    s: SelectedView<StandardAdapter>,
    project: ProjectView,
    model: CandidateView,
    host: HostView,
)
    requires
        s matches SelectedView::Local(root, m) ==> external_adapter::external_violation(
            m,
        ) is None,
    ensures
        s.planned(project, model, host) matches Ok(plan) ==> stays_below(
            plan,
            generated(project.root),
        ),
{
    match s {
        SelectedView::Registered(StandardAdapter::PythonAsgi(a)) => {
            asgi_bridges_stay_below(a, project, model, host);
        },
        SelectedView::Registered(StandardAdapter::JavaScriptFetch(a)) => {
            fetch_bridges_stay_below(a, project, model, host);
        },
        SelectedView::Registered(StandardAdapter::GoNetHttp(a)) => {
            go_bridges_stay_below(a, project, model, host);
        },
        SelectedView::Local(root, m) => {
            local_bridges_stay_below(root, m, project, model);
        },
    }
}

} // verus!
