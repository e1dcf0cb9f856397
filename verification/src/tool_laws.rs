//! What the tools of a build are asked and what is taken from their answers, and what a
//! user is told where a build is refused.

use crate::adapter::ApplicationAdapter;
use crate::builder::LanguageBuilder;
use crate::error::{ErrorKind, PitError};
use crate::experimental_builder::ExperimentalBuilder;
use crate::go_builder::GoBuilder;
use crate::js_builder::JsBuilder;
use crate::language::Language;
use crate::native_builder::NativeBuilder;
use crate::path_laws;
use crate::project;
use crate::project::{CandidateView, CompatibilityReport, FindingView, ProjectView};
use crate::python_asgi::PythonAsgiAdapter;
use crate::python_builder::PythonBuilder;
use crate::python_report;
use crate::request::{BuildOutput, BuildRequest, ToolchainInfo};
use crate::selection;
use crate::text;
use crate::tooling;
use crate::tooling::{CommandView, ToolCommand, ToolEnvironment, ToolOutput};
use vstd::prelude::*;

verus! {

/// Whether a command asks a tool for its version.
pub open spec fn asks_version(c: CommandView, tool: Seq<char>, flag: Seq<char>) -> bool {
    c.program == tool && c.args == seq![flag] && text::has_text(c.not_started, tool)
        && tool.is_prefix_of(c.failed)
}

/// The tool that the environment names, or the usual one.
pub open spec fn named_or(named: Option<String>, usual: Seq<char>) -> Seq<char> {
    match named {
        Some(t) => t@,
        None => usual,
    }
}

proof fn lemma_asks(program: Seq<char>, flag: Seq<char>, after_run: Seq<char>, failed: Seq<char>)
    ensures
        asks_version(
            tooling::version_command(program, seq![flag], after_run, failed),
            program,
            flag,
        ),
{
    let c = tooling::version_command(program, seq![flag], after_run, failed);
    let first = "failed to run "@;
    let n = first.len() as int;
    assert(c.not_started.subrange(n, n + program.len()) =~= program);
    assert(text::occurs_at(c.not_started, program, n));
    assert(c.failed.subrange(0, program.len() as int) =~= program);
}

/// Every tool that takes part in a build is asked for its version: the one that the
/// environment names, or the usual one.
pub proof fn tools_are_asked_for_their_versions(
    go: GoBuilder,
    python: PythonBuilder,
    native: NativeBuilder,
    env: ToolEnvironment,
    compiler: &str,
    a: (ToolCommand, ToolCommand),
    b: (ToolCommand, ToolCommand),
    c: (ToolCommand, ToolCommand, ToolCommand),
)
    requires
        call_ensures(GoBuilder::probe_toolchain, (&go, &env), a),
        call_ensures(PythonBuilder::probe_toolchain, (&python, &env), b),
        call_ensures(NativeBuilder::probe_toolchain, (&native, &env, compiler), c),
    ensures
        asks_version(a.0@, named_or(env.componentize_go, "componentize-go"@), "--version"@),
        asks_version(a.1@, named_or(env.go, "go"@), "version"@),
        asks_version(b.0@, named_or(env.componentize_py, "componentize-py"@), "--version"@),
        asks_version(b.1@, named_or(env.python, "python3"@), "--version"@),
        asks_version(c.0@, compiler@, "--version"@),
        asks_version(c.1@, named_or(env.wit_bindgen, "wit-bindgen"@), "--version"@),
        asks_version(c.2@, named_or(env.wasm_tools, "wasm-tools"@), "--version"@),
{
    let install = "; install the Go Component toolchain"@;
    lemma_asks(
        named_or(env.componentize_go, "componentize-go"@),
        "--version"@,
        install,
        " probe failed: "@,
    );
    lemma_asks(named_or(env.go, "go"@), "version"@, install, " probe failed: "@);
    lemma_asks(
        named_or(env.componentize_py, "componentize-py"@),
        "--version"@,
        ""@,
        " failed: "@,
    );
    lemma_asks(named_or(env.python, "python3"@), "--version"@, ""@, " failed: "@);
    lemma_asks(compiler@, "--version"@, ""@, " failed: "@);
    lemma_asks(named_or(env.wit_bindgen, "wit-bindgen"@), "--version"@, ""@, " failed: "@);
    lemma_asks(named_or(env.wasm_tools, "wasm-tools"@), "--version"@, ""@, " failed: "@);
}

/// The tools of a JavaScript build are asked for their versions: Node, and the componentizer,
/// which Node runs where it is a script.
pub proof fn js_tools_are_asked_for_their_versions(
    js: JsBuilder,
    env: ToolEnvironment,
    a: (ToolCommand, ToolCommand),
)
    requires
        call_ensures(JsBuilder::probe_toolchain, (&js, &env), a),
    ensures
        asks_version(a.0@, named_or(env.node, "node"@), "--version"@),
        env.componentize_js_script is None ==> asks_version(
            a.1@,
            "componentize-js"@,
            "--version"@,
        ),
        env.componentize_js_script matches Some(script) ==> a.1@.program == named_or(
            env.node,
            "node"@,
        ) && a.1@.args == seq![script@, "--version"@],
{
    lemma_asks(named_or(env.node, "node"@), "--version"@, ""@, " failed: "@);
    lemma_asks("componentize-js"@, "--version"@, ""@, " failed: "@);
}

proof fn lemma_first_line(line: Seq<char>, rest: Seq<char>, default: Seq<char>)
    requires
        line.len() > 0,
        !line.contains('\n'),
        !text::is_white(line[0]),
        !text::is_white(line.last()),
    ensures
        text::first_line(line + seq!['\n'] + rest, default) == line,
{
    path_laws::lines_end_with_line_feeds(line, rest);
    let all = text::lines_of(line + seq!['\n'] + rest);
    assert(text::is_white('\r'));
    assert(all[0] == line);
    let none = Seq::<char>::empty();
    path_laws::trimming_keeps_the_middle(none, line, none);
    assert(none + line + none =~= line);
}

/// The version of a toolchain is the first line of what its tool says of itself, and its
/// target is that of the ABI.
pub proof fn toolchains_have_the_version_of_their_tool(
    go: GoBuilder,
    js: JsBuilder,
    python: PythonBuilder,
    native: NativeBuilder,
    request: BuildRequest,
    says: &str,
    other: &str,
    third: &str,
    line: Seq<char>,
    rest: Seq<char>,
    a: ToolchainInfo,
    b: ToolchainInfo,
    c: ToolchainInfo,
    d: ToolchainInfo,
)
    requires
        says@ == line + seq!['\n'] + rest,
        line.len() > 0,
        !line.contains('\n'),
        !text::is_white(line[0]),
        !text::is_white(line.last()),
        call_ensures(GoBuilder::toolchain_for, (&go, &request, says, other), a),
        call_ensures(JsBuilder::toolchain_for, (&js, &request, other, says), b),
        call_ensures(PythonBuilder::toolchain_for, (&python, &request, says, other), c),
        call_ensures(NativeBuilder::toolchain_for, (&native, &request, says, other, third), d),
    ensures
        a@.name == "componentize-go"@ && a@.version == line && a@.componentizer == Some(line),
        b@.name == "componentize-js"@ && b@.version == line && b@.componentizer == Some(line),
        c@.name == "componentize-py"@ && c@.version == line && c@.componentizer == Some(line),
        d@.name == "wasi-sdk"@ && d@.version == line && d@.compiler == Some(line),
        request@.abi == "wasi-preview2"@ ==> a@.target == "wasm32-wasip2"@ && b@.target
            == "wasm32-wasip2"@ && c@.target == "wasm32-wasip2"@ && d@.target == "wasm32-wasip2"@,
{
    crate::validation::lemma_abi_names();
    lemma_first_line(line, rest, "componentize-go"@);
    lemma_first_line(line, rest, "componentize-js"@);
    lemma_first_line(line, rest, "componentize-py"@);
    lemma_first_line(line, rest, "wasi-sdk"@);
    lemma_first_line(line, rest, "clang"@);
}

/// What a tool says is taken where it succeeds; where it fails the error holds it, and where
/// it did not start the error says so.
pub proof fn tools_are_heard(
    command: ToolCommand,
    reply: Option<ToolOutput>,
    r: Result<String, PitError>,
)
    requires
        call_ensures(ToolCommand::outcome, (&command, &reply), r),
    ensures
        r is Ok <==> reply is Some && reply->0.success,
        r matches Ok(t) ==> t@ == tooling::output_of(reply->0.stdout@, reply->0.stderr@),
        reply is None ==> (r matches Err(e) && e@.text == command@.not_started && e@.kind
            == ErrorKind::Tool),
        reply is Some && !reply->0.success ==> (r matches Err(e) && e@.kind == ErrorKind::Tool
            && command@.failed.is_prefix_of(e@.text)),
{
    if let Some(o) = reply {
        let said = command@.failed + tooling::output_of(o.stdout@, o.stderr@);
        assert(said.subrange(0, command@.failed.len() as int) =~= command@.failed);
    }
}

/// What a tool says is what it printed and what it complained of, each without white space
/// round it, on lines of their own; nothing of it is lost.
pub proof fn both_outputs_are_heard(out: &str, err: &str, r: String)
    requires
        call_ensures(tooling::merge_output, (out, err), r),
    ensures
        text::has_text(r@, text::trimmed(out@)),
        text::has_text(r@, text::trimmed(err@)),
        text::trimmed(err@).len() == 0 ==> r@ == text::trimmed(out@),
        text::trimmed(out@).len() == 0 ==> r@ == text::trimmed(err@),
{
    let o = text::trimmed(out@);
    let e = text::trimmed(err@);
    let none = Seq::<char>::empty();
    if o.len() == 0 {
        assert(o =~= none);
        assert(r@.subrange(0, 0) =~= o);
        assert(text::occurs_at(r@, o, 0));
        assert(r@.subrange(0, e.len() as int) =~= e);
        assert(text::occurs_at(r@, e, 0));
    } else if e.len() == 0 {
        assert(e =~= none);
        assert(r@.subrange(0, 0) =~= e);
        assert(text::occurs_at(r@, e, 0));
        assert(r@.subrange(0, o.len() as int) =~= o);
        assert(text::occurs_at(r@, o, 0));
    } else {
        let n = o.len() as int;
        assert(r@.subrange(0, n) =~= o);
        assert(text::occurs_at(r@, o, 0));
        assert(r@.subrange(n + 1, n + 1 + e.len()) =~= e);
        assert(text::occurs_at(r@, e, n + 1));
    }
}

/// The report on an ASGI application is that on its dependencies: its findings are there,
/// and its status is theirs.
pub proof fn asgi_reports_hold_the_dependencies(
    a: PythonAsgiAdapter,
    p: ProjectView,
    m: CandidateView,
    i: int,
)
    requires
        a.validated(m) is Ok,
    ensures
        a.inspected(p, m) matches Ok(report) && report.status == python_report::python_report(
            p,
        ).status && (0 <= i < python_report::python_report(p).findings.len()
            ==> report.findings.contains(python_report::python_report(p).findings[i])) && (
        project::any_blocks(report.findings) <==> project::any_blocks(
            python_report::python_report(p).findings,
        )),
{
    let first = a.validated(m)->Ok_0;
    let found = python_report::python_report(p).findings;
    let report = a.inspected(p, m)->Ok_0;
    assert(first.findings =~= Seq::<FindingView>::empty());
    assert(report.findings =~= found);
    if 0 <= i < found.len() {
        assert(report.findings[i] == found[i]);
    }
}

proof fn lemma_has_left(a: Seq<char>, b: Seq<char>, wanted: Seq<char>)
    ensures
        text::has_text(a, wanted) ==> text::has_text(a + b, wanted),
        text::has_text(b, wanted) ==> text::has_text(a + b, wanted),
{
    if text::has_text(a, wanted) {
        let i = choose|i: int| text::occurs_at(a, wanted, i);
        assert((a + b).subrange(i, i + wanted.len()) =~= a.subrange(i, i + wanted.len()));
        assert(text::occurs_at(a + b, wanted, i));
    }
    if text::has_text(b, wanted) {
        let i = choose|i: int| text::occurs_at(b, wanted, i);
        let n = a.len() as int;
        assert((a + b).subrange(n + i, n + i + wanted.len()) =~= b.subrange(i, i + wanted.len()));
        assert(text::occurs_at(a + b, wanted, n + i));
    }
}

proof fn lemma_itself(s: Seq<char>)
    ensures
        text::has_text(s, s),
{
    assert(s.subrange(0, s.len() as int) =~= s);
    assert(text::occurs_at(s, s, 0));
}

proof fn lemma_finding_told(f: FindingView)
    ensures
        text::has_text(selection::finding_text(f), f.reason),
        text::has_text(selection::finding_text(f), f.recommendation),
        text::has_text(selection::finding_text(f), f.category),
        f.package matches Some(p) ==> text::has_text(selection::finding_text(f), p),
{
    let package = match f.package {
        Some(p) => p,
        None => "project"@,
    };
    let path = if f.dependency_path.len() == 0 {
        ""@
    } else {
        "\nDependency path: "@ + text::joined(f.dependency_path, " -> "@)
    };
    lemma_itself(f.reason);
    lemma_itself(f.recommendation);
    lemma_itself(f.category);
    lemma_itself(package);
    let a = "\n\n["@ + f.category;
    let b = a + "] "@;
    let c = b + package;
    let d = c + path;
    let e = d + "\nReason: "@;
    let g = e + f.reason;
    let h = g + "\nRecommendation: "@;
    lemma_has_left("\n\n["@, f.category, f.category);
    lemma_has_left(a, "] "@, f.category);
    lemma_has_left(b, package, f.category);
    lemma_has_left(b, package, package);
    lemma_has_left(c, path, f.category);
    lemma_has_left(c, path, package);
    lemma_has_left(d, "\nReason: "@, f.category);
    lemma_has_left(d, "\nReason: "@, package);
    lemma_has_left(e, f.reason, f.category);
    lemma_has_left(e, f.reason, package);
    lemma_has_left(e, f.reason, f.reason);
    lemma_has_left(g, "\nRecommendation: "@, f.category);
    lemma_has_left(g, "\nRecommendation: "@, package);
    lemma_has_left(g, "\nRecommendation: "@, f.reason);
    lemma_has_left(h, f.recommendation, f.category);
    lemma_has_left(h, f.recommendation, package);
    lemma_has_left(h, f.recommendation, f.reason);
    lemma_has_left(h, f.recommendation, f.recommendation);
    assert(selection::finding_text(f) == h + f.recommendation);
}

proof fn lemma_blocker_told(findings: Seq<FindingView>, i: int, wanted: Seq<char>)
    requires
        0 <= i < findings.len(),
        findings[i].blocks_build,
        text::has_text(selection::finding_text(findings[i]), wanted),
    ensures
        text::has_text(selection::blockers_text(findings), wanted),
    decreases findings.len(),
{
    let before = selection::blockers_text(findings.drop_last());
    if i < findings.len() - 1 {
        assert(findings.drop_last()[i] == findings[i]);
        lemma_blocker_told(findings.drop_last(), i, wanted);
    } else {
        assert(findings.last() == findings[i]);
    }
    lemma_has_left(before, selection::finding_text(findings.last()), wanted);
}

/// Where a build is refused the user is told why, and what to do, for every finding that
/// stops it.
pub proof fn refusals_tell_every_reason(report: CompatibilityReport, told: String, i: int)
    requires
        call_ensures(selection::format_compatibility_error, (&report,), told),
        0 <= i < report@.findings.len(),
        report@.findings[i].blocks_build,
    ensures
        text::has_text(told@, report@.findings[i].reason),
        text::has_text(told@, report@.findings[i].recommendation),
        report@.findings[i].package matches Some(p) ==> text::has_text(told@, p),
{
    let f = report@.findings[i];
    lemma_finding_told(f);
    let first = if report@.messages.len() > 0 {
        report@.messages[0]
    } else {
        "application compatibility check failed"@
    };
    let blockers = selection::blockers_text(report@.findings);
    lemma_blocker_told(report@.findings, i, f.reason);
    lemma_blocker_told(report@.findings, i, f.recommendation);
    lemma_has_left(first, blockers, f.reason);
    lemma_has_left(first, blockers, f.recommendation);
    if let Some(p) = f.package {
        lemma_blocker_told(report@.findings, i, p);
        lemma_has_left(first, blockers, p);
    }
}

/// The experimental builders build nothing.
pub proof fn experimental_builders_build_nothing(
    b: ExperimentalBuilder,
    reply: Option<ToolOutput>,
    built: Result<BuildOutput, PitError>,
    toolchain: Result<ToolchainInfo, PitError>,
    fingerprint: Result<String, PitError>,
)
    requires
        call_ensures(ExperimentalBuilder::build, (&b,), built),
        call_ensures(ExperimentalBuilder::probe_toolchain, (&b, &reply), toolchain),
        call_ensures(ExperimentalBuilder::fingerprint, (&b, &reply), fingerprint),
    ensures
        built is Err,
        toolchain is Err,
        fingerprint is Err,
{
}

/// The builders are of the language that they are made for.
pub proof fn builders_are_of_their_language(
    c: NativeBuilder,
    cpp: NativeBuilder,
    javascript: JsBuilder,
    typescript: JsBuilder,
    csharp: ExperimentalBuilder,
    java: ExperimentalBuilder,
)
    requires
        call_ensures(NativeBuilder::c, (), c),
        call_ensures(NativeBuilder::cpp, (), cpp),
        call_ensures(JsBuilder::javascript, (), javascript),
        call_ensures(JsBuilder::typescript, (), typescript),
        call_ensures(ExperimentalBuilder::csharp, (), csharp),
        call_ensures(ExperimentalBuilder::java, (), java),
    ensures
        c.builds() == Language::C,
        cpp.builds() == Language::Cpp,
        javascript.builds() == Language::JavaScript,
        typescript.builds() == Language::TypeScript,
        csharp.builds() == Language::CSharp,
        java.builds() == Language::Java,
{
}

} // verus!
