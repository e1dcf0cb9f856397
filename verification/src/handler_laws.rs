//! What holds of the text of every bridge: it imports the application that the
//! entrypoint names, and hands requests to it.

use crate::adapter;
use crate::adapter::{ApplicationAdapter, HostView, PlanView, StepView};
use crate::bridges;
use crate::error::ErrorView;
use crate::go_net_http::GoNetHttpAdapter;
use crate::javascript_fetch;
use crate::javascript_fetch::JavaScriptFetchAdapter;
use crate::language::Language;
use crate::paths;
use crate::project::{CandidateView, ProjectView};
use crate::python_asgi::PythonAsgiAdapter;
use crate::text;
use vstd::prelude::*;

verus! {

/// Whether a plan writes a file at `path` that holds every one of the texts.
pub open spec fn writes(plan: PlanView, path: Seq<char>, wanted: Seq<Seq<char>>) -> bool {
    exists|i: int, contents: Seq<char>|
        0 <= i < plan.steps.len() && #[trigger] plan.steps[i] == (StepView::WriteFile {
            path,
            contents,
        }) && #[trigger] holds(contents, wanted)
}

/// Whether a text holds every one of the texts.
pub open spec fn holds(contents: Seq<char>, wanted: Seq<Seq<char>>) -> bool {
    forall|k: int| 0 <= k < wanted.len() ==> text::has_text(contents, #[trigger] wanted[k])
}

/// Whether a text can be a package, a module or an attribute: a name without a mark that
/// means something in an entrypoint.
pub open spec fn is_word(s: Seq<char>) -> bool {
    &&& s.len() > 0
    &&& s[0] != '.'
    &&& forall|i: int|
        0 <= i < s.len() ==> #[trigger] s[i] != '/' && s[i] != '\\' && s[i] != ':'
}

proof fn lemma_inside(a: Seq<char>, b: Seq<char>, c: Seq<char>)
    ensures
        text::has_text(a + b + c, b),
{
    let whole = a + b + c;
    assert(whole.subrange(a.len() as int, (a.len() + b.len()) as int) =~= b);
    assert(text::occurs_at(whole, b, a.len() as int));
}

/// An entrypoint of two words names the module and the attribute.
pub proof fn entrypoints_name_module_and_attribute(module: Seq<char>, attribute: Seq<char>)
    requires
        is_word(module),
        is_word(attribute),
    ensures
        adapter::entrypoint_parts(module + seq![':'] + attribute) == Ok::<
            (Seq<char>, Seq<char>),
            ErrorView,
        >((module, attribute)),
        text::has_text(module + seq![':'] + attribute, ":"@),
{
    let entrypoint = module + seq![':'] + attribute;
    let colon = seq![':'];
    let slash = seq!['/'];
    let n = module.len() as int;
    assert(colon[0] == ':');
    assert(entrypoint[n] == ':');
    assert forall|j: int| 0 <= j < n implies !colon.contains(entrypoint[j]) by {
        assert(entrypoint[j] == module[j]);
    }
    text::lemma_first_of_is(entrypoint, colon, n);
    assert(entrypoint.take(n) =~= module);
    assert(entrypoint.skip(n + 1) =~= attribute);
    assert forall|j: int| 0 <= j < n implies !slash.contains(module[j]) by {}
    text::lemma_first_of_is(module, slash, n);
    assert(text::pieces(module, slash) =~= seq![module]);
    reveal_strlit(".");
    reveal_strlit("..");
    assert("."@[0] == '.');
    assert(".."@[0] == '.');
    assert(!adapter::is_bad_part(module)) by {
        assert(module != "."@);
        assert(module != ".."@);
    }
    assert(!module.contains('\\'));
    assert(!attribute.contains('/'));
    reveal_strlit(":");
    assert(":"@ =~= colon);
    lemma_inside(module, ":"@, attribute);
    assert(module + ":"@ + attribute =~= entrypoint);
}

/// An entrypoint that leads out of its project, or that has no module or no attribute, is
/// refused.
pub proof fn entrypoints_stay_in_the_project(module: Seq<char>, attribute: Seq<char>)
    requires
        !module.contains(':'),
        module.len() == 0 || attribute.len() == 0 || module[0] == '.' || module[0] == '/'
            || module.contains('\\') || attribute.contains('/'),
    ensures
        adapter::entrypoint_parts(module + seq![':'] + attribute) is Err,
{
    let entrypoint = module + seq![':'] + attribute;
    let colon = seq![':'];
    let n = module.len() as int;
    assert(colon[0] == ':');
    assert(entrypoint[n] == ':');
    assert forall|j: int| 0 <= j < n implies !colon.contains(entrypoint[j]) by {
        assert(entrypoint[j] == module[j]);
        assert(module.contains(module[j]));
    }
    text::lemma_first_of_is(entrypoint, colon, n);
    assert(entrypoint.take(n) =~= module);
    assert(entrypoint.skip(n + 1) =~= attribute);
    if module.len() > 0 && module[0] == '/' {
        let slash = seq!['/'];
        assert(slash[0] == '/');
        assert(text::first_of(module, slash) == 0);
        assert(text::pieces(module, slash)[0] =~= Seq::<char>::empty());
        assert(adapter::is_bad_part(text::pieces(module, slash)[0]));
    }
}

/// An entrypoint that is accepted is read as what stands before and behind its first colon.
proof fn lemma_accepted(module: Seq<char>, attribute: Seq<char>)
    requires
        !module.contains(':'),
    ensures
        adapter::entrypoint_parts(module + seq![':'] + attribute) matches Ok(parts) ==> parts == (
            module,
            attribute,
        ),
{
    let entrypoint = module + seq![':'] + attribute;
    let colon = seq![':'];
    let n = module.len() as int;
    assert(colon[0] == ':');
    assert(entrypoint[n] == ':');
    assert forall|j: int| 0 <= j < n implies !colon.contains(entrypoint[j]) by {
        assert(entrypoint[j] == module[j]);
        assert(module.contains(module[j]));
    }
    text::lemma_first_of_is(entrypoint, colon, n);
    assert(entrypoint.take(n) =~= module);
    assert(entrypoint.skip(n + 1) =~= attribute);
}

/// The Go bridge imports the package of the entrypoint and serves its symbol. It is
/// written where the bindings look for it.
pub proof fn go_bridges_serve_the_entrypoint(
    a: GoNetHttpAdapter,
    project: ProjectView,
    model: CandidateView,
    host: HostView,
    plan: PlanView,
    package: Seq<char>,
    symbol: Seq<char>,
)
    requires
        !package.contains(':'),
        model.entrypoint == Some(package + seq![':'] + symbol),
        a.planned(project, model, host) == Ok::<PlanView, ErrorView>(plan),
    ensures
        writes(
            plan,
            paths::join_path(
                paths::join_path(
                    paths::join_path(project.root, ".pit/generated/adapters/go-net-http"@),
                    "export_wasi_http_incoming_handler"@,
                ),
                "handler.go"@,
            ),
            seq![
                "user \"wit_component/"@ + package + "\""@,
                "var pitfastHandler http.Handler = user."@ + symbol + "\n"@,
                ". \"wit_component/wasi_http_types\""@,
            ],
        ),
        package != "main"@,
{
    lemma_accepted(package, symbol);
    let contents = bridges::go_bridge_text("wit_component"@, "wit_component/"@ + package, symbol);
    reveal_strlit("    user \"");
    reveal_strlit("user \"wit_component/");
    reveal_strlit("wit_component/");
    reveal_strlit("wit_component");
    reveal_strlit("\"");
    reveal_strlit("\n");
    reveal_strlit("\"\n    . \"");
    reveal_strlit(". \"wit_component/wasi_http_types\"");
    reveal_strlit("/wasi_http_types\"\n)\n\nvar pitfastHandler http.Handler = user.");
    reveal_strlit("var pitfastHandler http.Handler = user.");
    reveal_strlit("\n\n");
    let user = bridges::GO_USER@;
    let types = bridges::GO_TYPES@;
    let handler = bridges::GO_HANDLER@;
    let first = "user \"wit_component/"@ + package + "\""@;
    let second = "var pitfastHandler http.Handler = user."@ + symbol + "\n"@;
    let third = ". \"wit_component/wasi_http_types\""@;
    // The import of the package.
    let before = bridges::GO_IMPORTS@ + user.take(4);
    let after = types.skip(1) + "wit_component"@ + handler + symbol + bridges::GO_OPEN@
        + bridges::put_together(bridges::go_parts());
    assert(user =~= user.take(4) + "user \""@) by {
        reveal_strlit("user \"");
    }
    assert(types =~= "\""@ + types.skip(1));
    assert("user \"wit_component/"@ =~= "user \""@ + "wit_component/"@) by {
        reveal_strlit("user \"");
    }
    assert(contents =~= before + first + after);
    lemma_inside(before, first, after);
    // The import of the bindings.
    let before = bridges::GO_IMPORTS@ + user + ("wit_component/"@ + package) + types.take(6);
    let after = handler.skip(17) + symbol + bridges::GO_OPEN@ + bridges::put_together(bridges::go_parts());
    assert(third =~= types.skip(6) + "wit_component"@ + handler.take(17));
    assert(types =~= types.take(6) + types.skip(6));
    assert(handler =~= handler.take(17) + handler.skip(17));
    assert(contents =~= before + third + after);
    lemma_inside(before, third, after);
    // The symbol.
    let before = bridges::GO_IMPORTS@ + user + ("wit_component/"@ + package) + types
        + "wit_component"@ + handler.take(21);
    let after = bridges::GO_OPEN@.skip(1) + bridges::put_together(bridges::go_parts());
    assert(handler =~= handler.take(21) + "var pitfastHandler http.Handler = user."@);
    assert(bridges::GO_OPEN@ =~= "\n"@ + bridges::GO_OPEN@.skip(1));
    assert(contents =~= before + second + after);
    lemma_inside(before, second, after);
    let path = paths::join_path(
        paths::join_path(
            paths::join_path(project.root, ".pit/generated/adapters/go-net-http"@),
            "export_wasi_http_incoming_handler"@,
        ),
        "handler.go"@,
    );
    assert(plan.steps[1] == (StepView::WriteFile { path, contents }));
    assert(holds(contents, seq![first, second, third]));
}

/// The Fetch bridge imports the attribute of the entrypoint from the file of its module:
/// four directories above the bridge, where the project is, or, of the main module of a
/// TypeScript project, two above it, where the compiler writes.
pub proof fn fetch_bridges_call_the_entrypoint(
    a: JavaScriptFetchAdapter,
    project: ProjectView,
    model: CandidateView,
    host: HostView,
    plan: PlanView,
    module: Seq<char>,
    attribute: Seq<char>,
)
    requires
        !module.contains(':'),
        model.entrypoint == Some(module + seq![':'] + attribute),
        a.planned(project, model, host) == Ok::<PlanView, ErrorView>(plan),
    ensures
        model.language == Language::TypeScript && module == "main"@ ==> writes(
            plan,
            paths::join_path(
                paths::join_path(project.root, ".pit/generated/adapters/javascript-fetch"@),
                "main.js"@,
            ),
            seq!["import { "@ + attribute + " as handler } from \"../../main.js\";"@],
        ),
        !(model.language == Language::TypeScript && module == "main"@) ==> writes(
            plan,
            paths::join_path(
                paths::join_path(project.root, ".pit/generated/adapters/javascript-fetch"@),
                "main.js"@,
            ),
            seq![
                "import { "@ + attribute + " as handler } from \"../../../../"@ + module
                    + ".js\";"@,
            ],
        ),
{
    lemma_accepted(module, attribute);
    reveal_strlit("import { ");
    reveal_strlit(" as handler } from \"");
    reveal_strlit("\";\n");
    reveal_strlit(".js\";");
    reveal_strlit(".js");
    reveal_strlit("../../../../");
    reveal_strlit("../../main.js");
    reveal_strlit(" as handler } from \"../../../../");
    reveal_strlit(" as handler } from \"../../main.js\";");
    let file = javascript_fetch::fetch_source(a.takes_language(), module);
    let contents = bridges::fetch_bridge_text(attribute, file);
    let none = Seq::<char>::empty();
    let after = bridges::FETCH_END@.skip(2) + bridges::put_together(bridges::fetch_parts());
    assert(bridges::FETCH_END@.take(2) + bridges::FETCH_END@.skip(2) =~= bridges::FETCH_END@);
    let line = if model.language == Language::TypeScript && module == "main"@ {
        "import { "@ + attribute + " as handler } from \"../../main.js\";"@
    } else {
        "import { "@ + attribute + " as handler } from \"../../../../"@ + module + ".js\";"@
    };
    if model.language == Language::TypeScript && module == "main"@ {
        assert(" as handler } from \"../../main.js\";"@ =~= bridges::FETCH_FROM@
            + "../../main.js"@ + bridges::FETCH_END@.take(2));
    } else {
        assert(" as handler } from \"../../../../"@ =~= bridges::FETCH_FROM@ + "../../../../"@);
        assert(".js\";"@ =~= ".js"@ + bridges::FETCH_END@.take(2));
    }
    assert(contents =~= none + line + after);
    lemma_inside(none, line, after);
    let path = paths::join_path(
        paths::join_path(project.root, ".pit/generated/adapters/javascript-fetch"@),
        "main.js"@,
    );
    assert(plan.steps[1] == (StepView::WriteFile { path, contents }));
    assert(holds(contents, seq![line]));
}

/// The ASGI bridge imports the module of the entrypoint and calls its attribute. The WIT
/// files of the HTTP world are put beside it.
pub proof fn asgi_bridges_call_the_entrypoint(
    a: PythonAsgiAdapter,
    project: ProjectView,
    model: CandidateView,
    host: HostView,
    plan: PlanView,
    module: Seq<char>,
    attribute: Seq<char>,
)
    requires
        !module.contains(':'),
        model.entrypoint == Some(module + seq![':'] + attribute),
        a.planned(project, model, host) == Ok::<PlanView, ErrorView>(plan),
    ensures
        writes(
            plan,
            paths::join_path(
                paths::join_path(project.root, ".pit/generated/adapters/python-asgi"@),
                "app.py"@,
            ),
            seq![
                "_application = getattr(importlib.import_module("@ + bridges::quoted_text(module)
                    + "), "@ + bridges::quoted_text(attribute) + ")\n"@,
            ],
        ),
        plan.steps.contains(
            StepView::CopyTree {
                source: host.wit_template,
                destination: paths::join_path(
                    paths::join_path(project.root, ".pit/generated/adapters/python-asgi"@),
                    "wit"@,
                ),
            },
        ),
{
    lemma_accepted(module, attribute);
    let contents = bridges::asgi_bridge_text(
        bridges::quoted_text(module),
        bridges::quoted_text(attribute),
    );
    let line = "_application = getattr(importlib.import_module("@ + bridges::quoted_text(module)
        + "), "@ + bridges::quoted_text(attribute) + ")\n"@;
    assert(contents =~= bridges::ASGI_IMPORTS@ + line + bridges::put_together(bridges::asgi_parts()));
    lemma_inside(bridges::ASGI_IMPORTS@, line, bridges::put_together(bridges::asgi_parts()));
    let root = paths::join_path(project.root, ".pit/generated/adapters/python-asgi"@);
    assert(plan.steps[3] == (StepView::WriteFile {
        path: paths::join_path(root, "app.py"@),
        contents,
    }));
    assert(holds(contents, seq![line]));
    assert(plan.steps[2] == (StepView::CopyTree {
        source: host.wit_template,
        destination: paths::join_path(root, "wit"@),
    }));
}

/// A part of the parts stands in what they are put together to.
proof fn lemma_part(whole: Seq<char>, parts: Seq<Seq<char>>, i: int)
    requires
        0 <= i < parts.len(),
        bridges::put_together(parts).len() <= whole.len(),
        whole.skip(whole.len() - bridges::put_together(parts).len()) == bridges::put_together(
            parts,
        ),
    ensures
        text::has_text(whole, parts[i]),
{
    let body = bridges::put_together(parts);
    let n = whole.len() - body.len();
    let k = lemma_part_of(parts, i);
    let part = parts[i];
    assert(whole.subrange(n + k, n + k + part.len()) =~= whole.skip(n).subrange(
        k,
        k + part.len(),
    ));
    assert(text::occurs_at(whole, part, n + k));
}

proof fn lemma_part_of(parts: Seq<Seq<char>>, i: int) -> (k: int)
    requires
        0 <= i < parts.len(),
    ensures
        text::occurs_at(bridges::put_together(parts), parts[i], k),
    decreases parts.len(),
{
    let before = bridges::put_together(parts.drop_last());
    let whole = bridges::put_together(parts);
    let part = parts[i];
    if i == parts.len() - 1 {
        let k = before.len() as int;
        assert(whole.subrange(k, k + part.len()) =~= part);
        k
    } else {
        assert(parts.drop_last()[i] == part);
        let k = lemma_part_of(parts.drop_last(), i);
        assert(whole.subrange(k, k + part.len()) =~= before.subrange(k, k + part.len()));
        k
    }
}

/// The Fetch bridge gives the application the method, the path, the headers and the body of the
/// request, and answers with the status, the headers and the body of its response.
pub proof fn fetch_bridges_hand_requests_over(attribute: &str, source_file: &str, bridge: String)
    requires
        call_ensures(bridges::fetch_bridge, (attribute, source_file), bridge),
    ensures
        text::has_text(bridge@, "const path = request.pathWithQuery() ?? '/';"@),
        text::has_text(bridge@, "headers.append(name, new TextDecoder().decode(values));"@),
        text::has_text(bridge@, "const init = { method: methodName(request.method()), headers };"@),
        text::has_text(bridge@, "if (init.method !== 'GET' && init.method !== 'HEAD') init.body = readBody(request);"@),
        text::has_text(bridge@, "const response = await handler(new Request(`http://${authority}${path}`, init));"@),
        text::has_text(bridge@, "responseFields.push([name.toString(), encoder.encode(value)]);"@),
        text::has_text(bridge@, "const outgoing = new OutgoingResponse(Fields.fromList(responseFields));"@),
        text::has_text(bridge@, "outgoing.setStatusCode(response.status);"@),
        text::has_text(bridge@, "stream.blockingWriteAndFlush(new Uint8Array(await response.arrayBuffer()));"@),
        text::has_text(bridge@, "ResponseOutparam.set(responseOutparam, { tag: 'ok', val: outgoing });"@),
{
    let parts = bridges::fetch_parts();
    let body = bridges::put_together(parts);
    let n = bridge@.len() - body.len();
    assert(bridge@.skip(n) =~= body);
    assert(parts[1] == "const path = request.pathWithQuery() ?? '/';"@);
    lemma_part(bridge@, parts, 1);
    assert(parts[3] == "headers.append(name, new TextDecoder().decode(values));"@);
    lemma_part(bridge@, parts, 3);
    assert(parts[5] == "const init = { method: methodName(request.method()), headers };"@);
    lemma_part(bridge@, parts, 5);
    assert(parts[7] == "if (init.method !== 'GET' && init.method !== 'HEAD') init.body = readBody(request);"@);
    lemma_part(bridge@, parts, 7);
    assert(parts[9] == "const response = await handler(new Request(`http://${authority}${path}`, init));"@);
    lemma_part(bridge@, parts, 9);
    assert(parts[11] == "responseFields.push([name.toString(), encoder.encode(value)]);"@);
    lemma_part(bridge@, parts, 11);
    assert(parts[13] == "const outgoing = new OutgoingResponse(Fields.fromList(responseFields));"@);
    lemma_part(bridge@, parts, 13);
    assert(parts[15] == "outgoing.setStatusCode(response.status);"@);
    lemma_part(bridge@, parts, 15);
    assert(parts[17] == "stream.blockingWriteAndFlush(new Uint8Array(await response.arrayBuffer()));"@);
    lemma_part(bridge@, parts, 17);
    assert(parts[19] == "ResponseOutparam.set(responseOutparam, { tag: 'ok', val: outgoing });"@);
    lemma_part(bridge@, parts, 19);
}

/// The Go bridge gives the application the method, the path, the headers and the body of the
/// request, and answers with the status, the headers and the body of its response.
pub proof fn go_bridges_hand_requests_over(module: &str, import_path: &str, symbol: &str, bridge: String)
    requires
        call_ensures(bridges::go_net_http_bridge, (module, import_path, symbol), bridge),
    ensures
        text::has_text(bridge@, r#"path := request.PathWithQuery().SomeOr("/")"#@),
        text::has_text(bridge@, "method := methodName(request.Method())"@),
        text::has_text(bridge@, "body := readBody(request)"@),
        text::has_text(bridge@, r#"incoming, err := http.NewRequest(method, "http://pitfast.local"+path, bytes.NewReader(body))"#@),
        text::has_text(bridge@, "incoming.Header.Add(header.F0, string(header.F1))"@),
        text::has_text(bridge@, "pitfastHandler.ServeHTTP(recorder, incoming)"@),
        text::has_text(bridge@, "response.SetStatusCode(uint16(recorder.Code))"@),
        text::has_text(bridge@, "responseHeaders.Append(name, []byte(value))"@),
        text::has_text(bridge@, r#"ResponseOutparamSet(out, wit_types.Ok[*OutgoingResponse, ErrorCode](response))
    if bodyResult.IsErr() {"#@),
        text::has_text(bridge@, "output.BlockingWriteAndFlush(recorder.Body.Bytes())"@),
        text::has_text(bridge@, r#"case MethodGet: return "GET"
    case MethodHead: return "HEAD"
    case MethodPost: return "POST"
    case MethodPut: return "PUT"
    case MethodDelete: return "DELETE"
    case MethodConnect: return "CONNECT"
    case MethodOptions: return "OPTIONS"
    case MethodTrace: return "TRACE"
    case MethodPatch: return "PATCH"
    case MethodOther: return method.Other()"#@),
{
    let parts = bridges::go_parts();
    let body = bridges::put_together(parts);
    let n = bridge@.len() - body.len();
    assert(bridge@.skip(n) =~= body);
    assert(parts[1] == r#"path := request.PathWithQuery().SomeOr("/")"#@);
    lemma_part(bridge@, parts, 1);
    assert(parts[3] == "method := methodName(request.Method())"@);
    lemma_part(bridge@, parts, 3);
    assert(parts[5] == "body := readBody(request)"@);
    lemma_part(bridge@, parts, 5);
    assert(parts[7] == r#"incoming, err := http.NewRequest(method, "http://pitfast.local"+path, bytes.NewReader(body))"#@);
    lemma_part(bridge@, parts, 7);
    assert(parts[9] == "incoming.Header.Add(header.F0, string(header.F1))"@);
    lemma_part(bridge@, parts, 9);
    assert(parts[11] == "pitfastHandler.ServeHTTP(recorder, incoming)"@);
    lemma_part(bridge@, parts, 11);
    assert(parts[13] == "response.SetStatusCode(uint16(recorder.Code))"@);
    lemma_part(bridge@, parts, 13);
    assert(parts[15] == "responseHeaders.Append(name, []byte(value))"@);
    lemma_part(bridge@, parts, 15);
    assert(parts[17] == r#"ResponseOutparamSet(out, wit_types.Ok[*OutgoingResponse, ErrorCode](response))
    if bodyResult.IsErr() {"#@);
    lemma_part(bridge@, parts, 17);
    assert(parts[19] == "output.BlockingWriteAndFlush(recorder.Body.Bytes())"@);
    lemma_part(bridge@, parts, 19);
    assert(parts[21] == r#"case MethodGet: return "GET"
    case MethodHead: return "HEAD"
    case MethodPost: return "POST"
    case MethodPut: return "PUT"
    case MethodDelete: return "DELETE"
    case MethodConnect: return "CONNECT"
    case MethodOptions: return "OPTIONS"
    case MethodTrace: return "TRACE"
    case MethodPatch: return "PATCH"
    case MethodOther: return method.Other()"#@);
    lemma_part(bridge@, parts, 21);
}

/// The ASGI bridge gives the application the method, the path, the headers and the body of the
/// request, and answers with the status, the headers and the body of its response.
pub proof fn asgi_bridges_hand_requests_over(module: &str, attribute: &str, bridge: String)
    requires
        call_ensures(bridges::asgi_bridge, (module, attribute), bridge),
    ensures
        text::has_text(bridge@, r#"return {"Get":"GET", "Head":"HEAD", "Post":"POST", "Put":"PUT", "Delete":"DELETE", "Connect":"CONNECT", "Options":"OPTIONS", "Trace":"TRACE", "Patch":"PATCH"}.get(name, getattr(value, "value", "GET"))"#@),
        text::has_text(bridge@, r#"path = request.path_with_query() or "/""#@),
        text::has_text(bridge@, "method = _method(request.method())"@),
        text::has_text(bridge@, r#"body = b"" if method in ("GET", "HEAD") else await _read_body(request)"#@),
        text::has_text(bridge@, "headers = [(name.lower().encode(), value) for name, value in request.headers().entries()]"@),
        text::has_text(bridge@, r#""http_version": "1.1", "method": method,"#@),
        text::has_text(bridge@, r#""scheme": "http", "path": path.split("?", 1)[0],"#@),
        text::has_text(bridge@, r#""query_string": query.encode(),"#@),
        text::has_text(bridge@, r#""headers": headers,"#@),
        text::has_text(bridge@, r#"messages = [{"type": "http.request", "body": body, "more_body": False}]"#@),
        text::has_text(bridge@, r#"response["status"] = message["status"]"#@),
        text::has_text(bridge@, r#"response["headers"] = message.get("headers", [])"#@),
        text::has_text(bridge@, r#"response["body"].extend(message.get("body", b""))"#@),
        text::has_text(bridge@, "result = _application(scope, receive, send)"@),
        text::has_text(bridge@, "outgoing = OutgoingResponse(Fields.from_list(out_headers))"@),
        text::has_text(bridge@, r#"outgoing.set_status_code(response["status"])"#@),
        text::has_text(bridge@, "ResponseOutparam.set(response_out, Ok(outgoing))"@),
        text::has_text(bridge@, r#"await sink.send(bytes(response["body"]))"#@),
{
    let parts = bridges::asgi_parts();
    let body = bridges::put_together(parts);
    let n = bridge@.len() - body.len();
    assert(bridge@.skip(n) =~= body);
    assert(parts[1] == r#"return {"Get":"GET", "Head":"HEAD", "Post":"POST", "Put":"PUT", "Delete":"DELETE", "Connect":"CONNECT", "Options":"OPTIONS", "Trace":"TRACE", "Patch":"PATCH"}.get(name, getattr(value, "value", "GET"))"#@);
    lemma_part(bridge@, parts, 1);
    assert(parts[3] == r#"path = request.path_with_query() or "/""#@);
    lemma_part(bridge@, parts, 3);
    assert(parts[5] == "method = _method(request.method())"@);
    lemma_part(bridge@, parts, 5);
    assert(parts[7] == r#"body = b"" if method in ("GET", "HEAD") else await _read_body(request)"#@);
    lemma_part(bridge@, parts, 7);
    assert(parts[9] == "headers = [(name.lower().encode(), value) for name, value in request.headers().entries()]"@);
    lemma_part(bridge@, parts, 9);
    assert(parts[11] == r#""http_version": "1.1", "method": method,"#@);
    lemma_part(bridge@, parts, 11);
    assert(parts[13] == r#""scheme": "http", "path": path.split("?", 1)[0],"#@);
    lemma_part(bridge@, parts, 13);
    assert(parts[15] == r#""query_string": query.encode(),"#@);
    lemma_part(bridge@, parts, 15);
    assert(parts[17] == r#""headers": headers,"#@);
    lemma_part(bridge@, parts, 17);
    assert(parts[19] == r#"messages = [{"type": "http.request", "body": body, "more_body": False}]"#@);
    lemma_part(bridge@, parts, 19);
    assert(parts[21] == r#"response["status"] = message["status"]"#@);
    lemma_part(bridge@, parts, 21);
    assert(parts[23] == r#"response["headers"] = message.get("headers", [])"#@);
    lemma_part(bridge@, parts, 23);
    assert(parts[25] == r#"response["body"].extend(message.get("body", b""))"#@);
    lemma_part(bridge@, parts, 25);
    assert(parts[27] == "result = _application(scope, receive, send)"@);
    lemma_part(bridge@, parts, 27);
    assert(parts[29] == "outgoing = OutgoingResponse(Fields.from_list(out_headers))"@);
    lemma_part(bridge@, parts, 29);
    assert(parts[31] == r#"outgoing.set_status_code(response["status"])"#@);
    lemma_part(bridge@, parts, 31);
    assert(parts[33] == "ResponseOutparam.set(response_out, Ok(outgoing))"@);
    lemma_part(bridge@, parts, 33);
    assert(parts[35] == r#"await sink.send(bytes(response["body"]))"#@);
    lemma_part(bridge@, parts, 35);
}

} // verus!
