//! The source text of the bridges that adapters generate.

use vstd::prelude::*;

verus! {

/// What stands in the Fetch bridge before the name of the handler.
pub const FETCH_IMPORT: &'static str = "import { ";

/// What stands in the Fetch bridge before the file of the handler.
pub const FETCH_FROM: &'static str = r#" as handler } from ""#;

/// What stands in the Fetch bridge behind the file of the handler.
pub const FETCH_END: &'static str = "\";\n";

/// What stands in the Fetch bridge before the path and the query of the request.
pub const FETCH_TO_PATH: &'static str = r#"import { IncomingBody, OutgoingBody, OutgoingResponse, Fields, ResponseOutparam } from 'wasi:http/types@0.2.0';

const encoder = new TextEncoder();

function methodName(method) {
  return method.tag === 'other' ? method.val : method.tag.toUpperCase();
}

function readBody(request) {
  const body = request.consume();
  const input = body.stream();
  const pollable = input.subscribe();
  const chunks = [];
  while (true) {
    if (!pollable.ready()) pollable.block();
    try {
      const chunk = input.read(65536n);
      if (chunk.length === 0) break;
      chunks.push(chunk);
    } catch (error) {
      if (error?.payload?.tag === 'closed') break;
      throw error;
    }
  }
  pollable[Symbol.dispose]?.();
  input[Symbol.dispose]?.();
  IncomingBody.finish(body);
  const total = chunks.reduce((size, chunk) => size + chunk.length, 0);
  const result = new Uint8Array(total);
  let offset = 0;
  for (const chunk of chunks) { result.set(chunk, offset); offset += chunk.length; }
  return result;
}

export const incomingHandler = {
  async handle(request, responseOutparam) {
    "#;

/// In the Fetch bridge, the path and the query of the request.
pub const FETCH_PATH: &'static str = "const path = request.pathWithQuery() ?? '/';";

/// What stands in the Fetch bridge before a header of the request.
pub const FETCH_TO_REQUEST_HEADER: &'static str = r#"
    const headers = new Headers();
    const requestHeaders = request.headers();
    for (const [name, values] of requestHeaders.entries()) {
      "#;

/// In the Fetch bridge, a header of the request.
pub const FETCH_REQUEST_HEADER: &'static str = "headers.append(name, new TextDecoder().decode(values));";

/// What stands in the Fetch bridge before the method and the headers of the request.
pub const FETCH_TO_METHOD: &'static str = r#"
    }
    requestHeaders[Symbol.dispose]?.();
    "#;

/// In the Fetch bridge, the method and the headers of the request.
pub const FETCH_METHOD: &'static str = "const init = { method: methodName(request.method()), headers };";

/// What stands in the Fetch bridge before the body of the request.
pub const FETCH_TO_REQUEST_BODY: &'static str = r#"
    "#;

/// In the Fetch bridge, the body of the request.
pub const FETCH_REQUEST_BODY: &'static str = "if (init.method !== 'GET' && init.method !== 'HEAD') init.body = readBody(request);";

/// What stands in the Fetch bridge before the call of the handler.
pub const FETCH_TO_CALL: &'static str = r#"
    const authority = request.authority() ?? 'pitfast.local';
    "#;

/// In the Fetch bridge, the call of the handler.
pub const FETCH_CALL: &'static str = "const response = await handler(new Request(`http://${authority}${path}`, init));";

/// What stands in the Fetch bridge before a header of the response.
pub const FETCH_TO_RESPONSE_HEADER: &'static str = r#"
    const responseFields = [];
    for (const [name, value] of response.headers) {
      "#;

/// In the Fetch bridge, a header of the response.
pub const FETCH_RESPONSE_HEADER: &'static str = "responseFields.push([name.toString(), encoder.encode(value)]);";

/// What stands in the Fetch bridge before the response with its headers.
pub const FETCH_TO_FIELDS: &'static str = r#"
    }
    "#;

/// In the Fetch bridge, the response with its headers.
pub const FETCH_FIELDS: &'static str = "const outgoing = new OutgoingResponse(Fields.fromList(responseFields));";

/// What stands in the Fetch bridge before the status of the response.
pub const FETCH_TO_STATUS: &'static str = r#"
    "#;

/// In the Fetch bridge, the status of the response.
pub const FETCH_STATUS: &'static str = "outgoing.setStatusCode(response.status);";

/// What stands in the Fetch bridge before the body of the response.
pub const FETCH_TO_RESPONSE_BODY: &'static str = r#"
    const body = outgoing.body();
    const stream = body.write();
    "#;

/// In the Fetch bridge, the body of the response.
pub const FETCH_RESPONSE_BODY: &'static str = "stream.blockingWriteAndFlush(new Uint8Array(await response.arrayBuffer()));";

/// What stands in the Fetch bridge before the answer to the request.
pub const FETCH_TO_REPLY: &'static str = r#"
    stream[Symbol.dispose]();
    OutgoingBody.finish(body, undefined);
    "#;

/// In the Fetch bridge, the answer to the request.
pub const FETCH_REPLY: &'static str = "ResponseOutparam.set(responseOutparam, { tag: 'ok', val: outgoing });";

/// The end of the Fetch bridge.
pub const FETCH_CLOSE: &'static str = r#"
  },
};
"#;

/// What stands in the Go bridge before its imports of the project.
pub const GO_IMPORTS: &'static str = r#"package export_wasi_http_incoming_handler

import (
    "bytes"
    "net/http"
    "net/http/httptest"
    "strings"

    wit_types "go.bytecodealliance.org/pkg/wit/types"
"#;

/// What stands in the Go bridge before the import path of the handler.
pub const GO_USER: &'static str = r#"    user ""#;

/// What stands in the Go bridge before the module of the bindings.
pub const GO_TYPES: &'static str = r#""
    . ""#;

/// What stands in the Go bridge before the symbol of the handler.
pub const GO_HANDLER: &'static str = r#"/wasi_http_types"
)

var pitfastHandler http.Handler = user."#;

/// What stands in the Go bridge behind the symbol of the handler.
pub const GO_OPEN: &'static str = "\n\n";

/// What stands in the Go bridge before the path and the query of the request.
pub const GO_TO_PATH: &'static str = r#"func Handle(request *IncomingRequest, out *ResponseOutparam) {
    "#;

/// In the Go bridge, the path and the query of the request.
pub const GO_PATH: &'static str = r#"path := request.PathWithQuery().SomeOr("/")"#;

/// What stands in the Go bridge before the method of the request.
pub const GO_TO_METHOD: &'static str = r#"
    "#;

/// In the Go bridge, the method of the request.
pub const GO_METHOD: &'static str = "method := methodName(request.Method())";

/// What stands in the Go bridge before the body of the request.
pub const GO_TO_REQUEST_BODY: &'static str = r#"
    "#;

/// In the Go bridge, the body of the request.
pub const GO_REQUEST_BODY: &'static str = "body := readBody(request)";

/// What stands in the Go bridge before the request that the handler is given.
pub const GO_TO_REQUEST: &'static str = r#"
    "#;

/// In the Go bridge, the request that the handler is given.
pub const GO_REQUEST: &'static str = r#"incoming, err := http.NewRequest(method, "http://pitfast.local"+path, bytes.NewReader(body))"#;

/// What stands in the Go bridge before a header of the request.
pub const GO_TO_REQUEST_HEADER: &'static str = r#"
    if err != nil {
        writeError(out, http.StatusBadRequest, err.Error())
        return
    }
    headers := request.Headers()
    for _, header := range headers.Entries() {
        "#;

/// In the Go bridge, a header of the request.
pub const GO_REQUEST_HEADER: &'static str = "incoming.Header.Add(header.F0, string(header.F1))";

/// What stands in the Go bridge before the call of the handler.
pub const GO_TO_CALL: &'static str = r#"
    }
    headers.Drop()
    recorder := httptest.NewRecorder()
    "#;

/// In the Go bridge, the call of the handler.
pub const GO_CALL: &'static str = "pitfastHandler.ServeHTTP(recorder, incoming)";

/// What stands in the Go bridge before the status of the response.
pub const GO_TO_STATUS: &'static str = r#"

    response := MakeOutgoingResponse(MakeFields())
    "#;

/// In the Go bridge, the status of the response.
pub const GO_STATUS: &'static str = "response.SetStatusCode(uint16(recorder.Code))";

/// What stands in the Go bridge before a header of the response.
pub const GO_TO_RESPONSE_HEADER: &'static str = r#"
    responseHeaders := response.Headers()
    for name, values := range recorder.Header() {
        for _, value := range values {
            "#;

/// In the Go bridge, a header of the response.
pub const GO_RESPONSE_HEADER: &'static str = "responseHeaders.Append(name, []byte(value))";

/// What stands in the Go bridge before the answer to the request.
pub const GO_TO_REPLY: &'static str = r#"
        }
    }
    responseHeaders.Drop()
    bodyResult := response.Body()
    "#;

/// In the Go bridge, the answer to the request.
pub const GO_REPLY: &'static str = r#"ResponseOutparamSet(out, wit_types.Ok[*OutgoingResponse, ErrorCode](response))
    if bodyResult.IsErr() {"#;

/// What stands in the Go bridge before the body of the response.
pub const GO_TO_RESPONSE_BODY: &'static str = r#"
        return
    }
    outputResult := bodyResult.Ok().Write()
    if outputResult.IsErr() {
        OutgoingBodyFinish(bodyResult.Ok(), wit_types.None[*Fields]())
        return
    }
    output := outputResult.Ok()
    "#;

/// In the Go bridge, the body of the response.
pub const GO_RESPONSE_BODY: &'static str = "output.BlockingWriteAndFlush(recorder.Body.Bytes())";

/// What stands in the Go bridge before the names of the methods.
pub const GO_TO_METHODS: &'static str = r#"
    output.Drop()
    OutgoingBodyFinish(bodyResult.Ok(), wit_types.None[*Fields]())
}

func methodName(method Method) string {
    switch method.Tag() {
    "#;

/// In the Go bridge, the names of the methods.
pub const GO_METHODS: &'static str = r#"case MethodGet: return "GET"
    case MethodHead: return "HEAD"
    case MethodPost: return "POST"
    case MethodPut: return "PUT"
    case MethodDelete: return "DELETE"
    case MethodConnect: return "CONNECT"
    case MethodOptions: return "OPTIONS"
    case MethodTrace: return "TRACE"
    case MethodPatch: return "PATCH"
    case MethodOther: return method.Other()"#;

/// The end of the Go bridge.
pub const GO_CLOSE: &'static str = r#"
    default: return "GET"
    }
}

func readBody(request *IncomingRequest) []byte {
    body := request.Consume()
    if body.IsErr() { return nil }
    stream := body.Ok().Stream()
    if stream.IsErr() { return nil }
    var result []byte
    for {
        chunk := stream.Ok().BlockingRead(65536)
        if chunk.IsErr() || len(chunk.Ok()) == 0 { break }
        result = append(result, chunk.Ok()...)
    }
    stream.Ok().Drop()
    trailers := IncomingBodyFinish(body.Ok())
    pollable := trailers.Subscribe()
    pollable.Block()
    pollable.Drop()
    trailers.Get()
    return result
}

func writeError(out *ResponseOutparam, status int, message string) {
    response := MakeOutgoingResponse(MakeFields())
    response.SetStatusCode(uint16(status))
    body := response.Body()
    ResponseOutparamSet(out, wit_types.Ok[*OutgoingResponse, ErrorCode](response))
    if body.IsErr() { return }
    stream := body.Ok().Write()
    if stream.IsOk() {
        stream.Ok().BlockingWriteAndFlush([]byte(strings.TrimSpace(message)))
        stream.Ok().Drop()
    }
    OutgoingBodyFinish(body.Ok(), wit_types.None[*Fields]())
}

"#;

/// What stands in the ASGI bridge before the application is looked up.
pub const ASGI_IMPORTS: &'static str = r#"# Generated by PitFast's generic ASGI adapter. Do not edit.
import asyncio
import importlib
import inspect
from componentize_py_types import Ok
from poll_loop import PollLoop, Sink, Stream
from wit.exports.wasi.http_v0_2 import IncomingHandler, incoming_handler
from wit.imports.wasi.http_v0_2.types import Fields, IncomingRequest, OutgoingResponse, ResponseOutparam

"#;

/// What stands in the ASGI bridge before the module of the application.
pub const ASGI_APPLICATION: &'static str = "_application = getattr(importlib.import_module(";

/// What stands in the ASGI bridge before the attribute of the application.
pub const ASGI_ATTRIBUTE: &'static str = "), ";

/// What stands in the ASGI bridge behind the attribute of the application.
pub const ASGI_END: &'static str = ")\n";

/// What stands in the ASGI bridge before the names of the methods.
pub const ASGI_TO_METHODS: &'static str = r#"
def _method(value):
    name = value.__class__.__name__.removeprefix("Method_")
    "#;

/// In the ASGI bridge, the names of the methods.
pub const ASGI_METHODS: &'static str = r#"return {"Get":"GET", "Head":"HEAD", "Post":"POST", "Put":"PUT", "Delete":"DELETE", "Connect":"CONNECT", "Options":"OPTIONS", "Trace":"TRACE", "Patch":"PATCH"}.get(name, getattr(value, "value", "GET"))"#;

/// What stands in the ASGI bridge before the path and the query of the request.
pub const ASGI_TO_PATH: &'static str = r#"

async def _read_body(request):
    source = Stream(request.consume())
    chunks = []
    while True:
        chunk = await source.next()
        if chunk is None:
            break
        chunks.append(chunk)
    return b"".join(chunks)

async def _handle(request, response_out):
    "#;

/// In the ASGI bridge, the path and the query of the request.
pub const ASGI_PATH: &'static str = r#"path = request.path_with_query() or "/""#;

/// What stands in the ASGI bridge before the method of the request.
pub const ASGI_TO_METHOD: &'static str = r#"
    "#;

/// In the ASGI bridge, the method of the request.
pub const ASGI_METHOD: &'static str = "method = _method(request.method())";

/// What stands in the ASGI bridge before the body of the request.
pub const ASGI_TO_REQUEST_BODY: &'static str = r#"
    "#;

/// In the ASGI bridge, the body of the request.
pub const ASGI_REQUEST_BODY: &'static str = r#"body = b"" if method in ("GET", "HEAD") else await _read_body(request)"#;

/// What stands in the ASGI bridge before the headers of the request.
pub const ASGI_TO_REQUEST_HEADERS: &'static str = r#"
    "#;

/// In the ASGI bridge, the headers of the request.
pub const ASGI_REQUEST_HEADERS: &'static str = "headers = [(name.lower().encode(), value) for name, value in request.headers().entries()]";

/// What stands in the ASGI bridge before the method in the scope.
pub const ASGI_TO_SCOPE_METHOD: &'static str = r#"
    query = path.split("?", 1)[1] if "?" in path else ""
    scope = {
        "type": "http", "asgi": {"version": "3.0", "spec_version": "2.3"},
        "#;

/// In the ASGI bridge, the method in the scope.
pub const ASGI_SCOPE_METHOD: &'static str = r#""http_version": "1.1", "method": method,"#;

/// What stands in the ASGI bridge before the path in the scope.
pub const ASGI_TO_SCOPE_PATH: &'static str = r#"
        "#;

/// In the ASGI bridge, the path in the scope.
pub const ASGI_SCOPE_PATH: &'static str = r#""scheme": "http", "path": path.split("?", 1)[0],"#;

/// What stands in the ASGI bridge before the query in the scope.
pub const ASGI_TO_SCOPE_QUERY: &'static str = r#"
        "raw_path": path.split("?", 1)[0].encode(), "#;

/// In the ASGI bridge, the query in the scope.
pub const ASGI_SCOPE_QUERY: &'static str = r#""query_string": query.encode(),"#;

/// What stands in the ASGI bridge before the headers in the scope.
pub const ASGI_TO_SCOPE_HEADERS: &'static str = r#"
        "#;

/// In the ASGI bridge, the headers in the scope.
pub const ASGI_SCOPE_HEADERS: &'static str = r#""headers": headers,"#;

/// What stands in the ASGI bridge before the message that the application receives.
pub const ASGI_TO_RECEIVE: &'static str = r#" "server": ("pitfast", 80), "client": ("pitfast", 0),
    }
    "#;

/// In the ASGI bridge, the message that the application receives.
pub const ASGI_RECEIVE: &'static str = r#"messages = [{"type": "http.request", "body": body, "more_body": False}]"#;

/// What stands in the ASGI bridge before the status that the application sends.
pub const ASGI_TO_SEND_STATUS: &'static str = r#"
    response = {"status": 200, "headers": [], "body": bytearray()}
    async def receive():
        if messages:
            return messages.pop(0)
        return {"type": "http.disconnect"}
    async def send(message):
        if message["type"] == "http.response.start":
            "#;

/// In the ASGI bridge, the status that the application sends.
pub const ASGI_SEND_STATUS: &'static str = r#"response["status"] = message["status"]"#;

/// What stands in the ASGI bridge before the headers that the application sends.
pub const ASGI_TO_SEND_HEADERS: &'static str = r#"
            "#;

/// In the ASGI bridge, the headers that the application sends.
pub const ASGI_SEND_HEADERS: &'static str = r#"response["headers"] = message.get("headers", [])"#;

/// What stands in the ASGI bridge before the body that the application sends.
pub const ASGI_TO_SEND_BODY: &'static str = r#"
        elif message["type"] == "http.response.body":
            "#;

/// In the ASGI bridge, the body that the application sends.
pub const ASGI_SEND_BODY: &'static str = r#"response["body"].extend(message.get("body", b""))"#;

/// What stands in the ASGI bridge before the call of the application.
pub const ASGI_TO_CALL: &'static str = r#"
    "#;

/// In the ASGI bridge, the call of the application.
pub const ASGI_CALL: &'static str = "result = _application(scope, receive, send)";

/// What stands in the ASGI bridge before the headers of the response.
pub const ASGI_TO_RESPONSE_HEADERS: &'static str = r#"
    if inspect.isawaitable(result):
        await result
    out_headers = [(name.decode("latin1"), value) for name, value in response["headers"]]
    "#;

/// In the ASGI bridge, the headers of the response.
pub const ASGI_RESPONSE_HEADERS: &'static str = "outgoing = OutgoingResponse(Fields.from_list(out_headers))";

/// What stands in the ASGI bridge before the status of the response.
pub const ASGI_TO_STATUS: &'static str = r#"
    "#;

/// In the ASGI bridge, the status of the response.
pub const ASGI_STATUS: &'static str = r#"outgoing.set_status_code(response["status"])"#;

/// What stands in the ASGI bridge before the answer to the request.
pub const ASGI_TO_REPLY: &'static str = r#"
    response_body = outgoing.body()
    "#;

/// In the ASGI bridge, the answer to the request.
pub const ASGI_REPLY: &'static str = "ResponseOutparam.set(response_out, Ok(outgoing))";

/// What stands in the ASGI bridge before the body of the response.
pub const ASGI_TO_RESPONSE_BODY: &'static str = r#"
    sink = Sink(response_body)
    "#;

/// In the ASGI bridge, the body of the response.
pub const ASGI_RESPONSE_BODY: &'static str = r#"await sink.send(bytes(response["body"]))"#;

/// The end of the ASGI bridge.
pub const ASGI_CLOSE: &'static str = r#"
    sink.close()

@incoming_handler.guest
class Handler(IncomingHandler):
    def handle(self, request: IncomingRequest, response_out: ResponseOutparam) -> None:
        loop = PollLoop()
        asyncio.set_event_loop(loop)
        loop.run_until_complete(_handle(request, response_out))
"#;

/// The parts one behind the other.
pub open spec fn put_together(parts: Seq<Seq<char>>) -> Seq<char>
    decreases parts.len(),
{
    if parts.len() == 0 {
        Seq::empty()
    } else {
        put_together(parts.drop_last()) + parts.last()
    }
}

/// The parts one behind the other.
fn join_parts(parts: &[&str]) -> (r: String)
    ensures
        r@ == put_together(parts@.map_values(|p: &str| p@)),
{
    let ghost all = parts@.map_values(|p: &str| p@);
    let mut t = String::new();
    let mut i: usize = 0;
    assert(all.take(0) =~= Seq::<Seq<char>>::empty());
    assert(t@ =~= put_together(all.take(0)));
    while i < parts.len()
        invariant
            i <= parts@.len(),
            all == parts@.map_values(|p: &str| p@),
            t@ == put_together(all.take(i as int)),
        decreases parts@.len() - i,
    {
        t.append(parts[i]);
        assert(all.take(i + 1).drop_last() =~= all.take(i as int));
        assert(all.take(i + 1).last() == all[i as int]);
        i = i + 1;
    }
    assert(all.take(i as int) =~= all);
    t
}

/// The parts of the Fetch bridge that hand requests to the application and responses back.
pub open spec fn fetch_parts() -> Seq<Seq<char>> {
    seq![
        FETCH_TO_PATH@,
        FETCH_PATH@,
        FETCH_TO_REQUEST_HEADER@,
        FETCH_REQUEST_HEADER@,
        FETCH_TO_METHOD@,
        FETCH_METHOD@,
        FETCH_TO_REQUEST_BODY@,
        FETCH_REQUEST_BODY@,
        FETCH_TO_CALL@,
        FETCH_CALL@,
        FETCH_TO_RESPONSE_HEADER@,
        FETCH_RESPONSE_HEADER@,
        FETCH_TO_FIELDS@,
        FETCH_FIELDS@,
        FETCH_TO_STATUS@,
        FETCH_STATUS@,
        FETCH_TO_RESPONSE_BODY@,
        FETCH_RESPONSE_BODY@,
        FETCH_TO_REPLY@,
        FETCH_REPLY@,
        FETCH_CLOSE@,
    ]
}

/// The same as one text.
fn fetch_body() -> (r: String)
    ensures
        r@ == put_together(fetch_parts()),
{
    let parts: [&str; 21] = [
        FETCH_TO_PATH,
        FETCH_PATH,
        FETCH_TO_REQUEST_HEADER,
        FETCH_REQUEST_HEADER,
        FETCH_TO_METHOD,
        FETCH_METHOD,
        FETCH_TO_REQUEST_BODY,
        FETCH_REQUEST_BODY,
        FETCH_TO_CALL,
        FETCH_CALL,
        FETCH_TO_RESPONSE_HEADER,
        FETCH_RESPONSE_HEADER,
        FETCH_TO_FIELDS,
        FETCH_FIELDS,
        FETCH_TO_STATUS,
        FETCH_STATUS,
        FETCH_TO_RESPONSE_BODY,
        FETCH_RESPONSE_BODY,
        FETCH_TO_REPLY,
        FETCH_REPLY,
        FETCH_CLOSE,
    ];
    assert(parts@.map_values(|p: &str| p@) =~= fetch_parts());
    join_parts(&parts)
}

/// The parts of the Go bridge that hand requests to the application and responses back.
pub open spec fn go_parts() -> Seq<Seq<char>> {
    seq![
        GO_TO_PATH@,
        GO_PATH@,
        GO_TO_METHOD@,
        GO_METHOD@,
        GO_TO_REQUEST_BODY@,
        GO_REQUEST_BODY@,
        GO_TO_REQUEST@,
        GO_REQUEST@,
        GO_TO_REQUEST_HEADER@,
        GO_REQUEST_HEADER@,
        GO_TO_CALL@,
        GO_CALL@,
        GO_TO_STATUS@,
        GO_STATUS@,
        GO_TO_RESPONSE_HEADER@,
        GO_RESPONSE_HEADER@,
        GO_TO_REPLY@,
        GO_REPLY@,
        GO_TO_RESPONSE_BODY@,
        GO_RESPONSE_BODY@,
        GO_TO_METHODS@,
        GO_METHODS@,
        GO_CLOSE@,
    ]
}

/// The same as one text.
fn go_body() -> (r: String)
    ensures
        r@ == put_together(go_parts()),
{
    let parts: [&str; 23] = [
        GO_TO_PATH,
        GO_PATH,
        GO_TO_METHOD,
        GO_METHOD,
        GO_TO_REQUEST_BODY,
        GO_REQUEST_BODY,
        GO_TO_REQUEST,
        GO_REQUEST,
        GO_TO_REQUEST_HEADER,
        GO_REQUEST_HEADER,
        GO_TO_CALL,
        GO_CALL,
        GO_TO_STATUS,
        GO_STATUS,
        GO_TO_RESPONSE_HEADER,
        GO_RESPONSE_HEADER,
        GO_TO_REPLY,
        GO_REPLY,
        GO_TO_RESPONSE_BODY,
        GO_RESPONSE_BODY,
        GO_TO_METHODS,
        GO_METHODS,
        GO_CLOSE,
    ];
    assert(parts@.map_values(|p: &str| p@) =~= go_parts());
    join_parts(&parts)
}

/// The parts of the ASGI bridge that hand requests to the application and responses back.
pub open spec fn asgi_parts() -> Seq<Seq<char>> {
    seq![
        ASGI_TO_METHODS@,
        ASGI_METHODS@,
        ASGI_TO_PATH@,
        ASGI_PATH@,
        ASGI_TO_METHOD@,
        ASGI_METHOD@,
        ASGI_TO_REQUEST_BODY@,
        ASGI_REQUEST_BODY@,
        ASGI_TO_REQUEST_HEADERS@,
        ASGI_REQUEST_HEADERS@,
        ASGI_TO_SCOPE_METHOD@,
        ASGI_SCOPE_METHOD@,
        ASGI_TO_SCOPE_PATH@,
        ASGI_SCOPE_PATH@,
        ASGI_TO_SCOPE_QUERY@,
        ASGI_SCOPE_QUERY@,
        ASGI_TO_SCOPE_HEADERS@,
        ASGI_SCOPE_HEADERS@,
        ASGI_TO_RECEIVE@,
        ASGI_RECEIVE@,
        ASGI_TO_SEND_STATUS@,
        ASGI_SEND_STATUS@,
        ASGI_TO_SEND_HEADERS@,
        ASGI_SEND_HEADERS@,
        ASGI_TO_SEND_BODY@,
        ASGI_SEND_BODY@,
        ASGI_TO_CALL@,
        ASGI_CALL@,
        ASGI_TO_RESPONSE_HEADERS@,
        ASGI_RESPONSE_HEADERS@,
        ASGI_TO_STATUS@,
        ASGI_STATUS@,
        ASGI_TO_REPLY@,
        ASGI_REPLY@,
        ASGI_TO_RESPONSE_BODY@,
        ASGI_RESPONSE_BODY@,
        ASGI_CLOSE@,
    ]
}

/// The same as one text.
fn asgi_body() -> (r: String)
    ensures
        r@ == put_together(asgi_parts()),
{
    let parts: [&str; 37] = [
        ASGI_TO_METHODS,
        ASGI_METHODS,
        ASGI_TO_PATH,
        ASGI_PATH,
        ASGI_TO_METHOD,
        ASGI_METHOD,
        ASGI_TO_REQUEST_BODY,
        ASGI_REQUEST_BODY,
        ASGI_TO_REQUEST_HEADERS,
        ASGI_REQUEST_HEADERS,
        ASGI_TO_SCOPE_METHOD,
        ASGI_SCOPE_METHOD,
        ASGI_TO_SCOPE_PATH,
        ASGI_SCOPE_PATH,
        ASGI_TO_SCOPE_QUERY,
        ASGI_SCOPE_QUERY,
        ASGI_TO_SCOPE_HEADERS,
        ASGI_SCOPE_HEADERS,
        ASGI_TO_RECEIVE,
        ASGI_RECEIVE,
        ASGI_TO_SEND_STATUS,
        ASGI_SEND_STATUS,
        ASGI_TO_SEND_HEADERS,
        ASGI_SEND_HEADERS,
        ASGI_TO_SEND_BODY,
        ASGI_SEND_BODY,
        ASGI_TO_CALL,
        ASGI_CALL,
        ASGI_TO_RESPONSE_HEADERS,
        ASGI_RESPONSE_HEADERS,
        ASGI_TO_STATUS,
        ASGI_STATUS,
        ASGI_TO_REPLY,
        ASGI_REPLY,
        ASGI_TO_RESPONSE_BODY,
        ASGI_RESPONSE_BODY,
        ASGI_CLOSE,
    ];
    assert(parts@.map_values(|p: &str| p@) =~= asgi_parts());
    join_parts(&parts)
}

/// The Fetch bridge to the handler `attribute` of `source_file`.
pub open spec fn fetch_bridge_text(attribute: Seq<char>, source_file: Seq<char>) -> Seq<char> {
    FETCH_IMPORT@ + attribute + FETCH_FROM@ + source_file + FETCH_END@ + put_together(fetch_parts())
}

/// The Fetch bridge to the handler `attribute` of `source_file`.
pub fn fetch_bridge(attribute: &str, source_file: &str) -> (r: String)
    ensures
        r@ == fetch_bridge_text(attribute@, source_file@),
{
    let mut t = FETCH_IMPORT.to_owned();
    t.append(attribute);
    t.append(FETCH_FROM);
    t.append(source_file);
    t.append(FETCH_END);
    t.append(fetch_body().as_str());
    t
}

/// The Go bridge to the handler `symbol` of the package at `import_path`.
pub open spec fn go_bridge_text(
    module: Seq<char>,
    import_path: Seq<char>,
    symbol: Seq<char>,
) -> Seq<char> {
    GO_IMPORTS@ + GO_USER@ + import_path + GO_TYPES@ + module + GO_HANDLER@ + symbol + GO_OPEN@
        + put_together(go_parts())
}

/// The Go bridge to the handler `symbol` of the package at `import_path`.
pub fn go_net_http_bridge(module: &str, import_path: &str, symbol: &str) -> (r: String)
    ensures
        r@ == go_bridge_text(module@, import_path@, symbol@),
{
    let mut t = GO_IMPORTS.to_owned();
    t.append(GO_USER);
    t.append(import_path);
    t.append(GO_TYPES);
    t.append(module);
    t.append(GO_HANDLER);
    t.append(symbol);
    t.append(GO_OPEN);
    t.append(go_body().as_str());
    t
}

/// `text` as a quoted literal.
pub uninterp spec fn quoted_text(text: Seq<char>) -> Seq<char>;

/// The `Debug` format of `str` puts a text in double quotes and escapes quotes,
/// backslashes and characters that cannot be printed. What it gives depends on
/// the text alone. Which characters are escaped, and how, is not stated.
#[verifier::external_body]
fn quote(text: &str) -> (r: String)
    ensures
        r@ == quoted_text(text@),
{
    format!("{text:?}")
}

/// The ASGI bridge to an application, given its module and its attribute as
/// quoted literals.
pub open spec fn asgi_bridge_text(module: Seq<char>, attribute: Seq<char>) -> Seq<char> {
    ASGI_IMPORTS@ + ASGI_APPLICATION@ + module + ASGI_ATTRIBUTE@ + attribute + ASGI_END@
        + put_together(asgi_parts())
}

/// The ASGI bridge to an application, given its module and its attribute as
/// quoted literals.
pub fn asgi_bridge_of(module: &str, attribute: &str) -> (r: String)
    ensures
        r@ == asgi_bridge_text(module@, attribute@),
{
    let mut t = ASGI_IMPORTS.to_owned();
    t.append(ASGI_APPLICATION);
    t.append(module);
    t.append(ASGI_ATTRIBUTE);
    t.append(attribute);
    t.append(ASGI_END);
    t.append(asgi_body().as_str());
    t
}

/// The ASGI bridge to the application `attribute` of `module`.
pub fn asgi_bridge(module: &str, attribute: &str) -> (r: String)
    ensures
        r@ == asgi_bridge_text(quoted_text(module@), quoted_text(attribute@)),
{
    asgi_bridge_of(quote(module).as_str(), quote(attribute).as_str())
}

} // verus!
