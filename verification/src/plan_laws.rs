//! What holds of the plan of every build: a tool is run on the source of the project,
//! and what it writes is what is collected, under the name that the manifest gives it.

use crate::artifact::ComponentWorld;
use crate::builder;
use crate::builder::{BuildFacts, BuildRun, BuildStepView, LanguageBuilder, RunView};
use crate::error::PitError;
use crate::go_builder::GoBuilder;
use crate::js_builder;
use crate::js_builder::JsBuilder;
use crate::language::Language;
use crate::native_builder;
use crate::native_builder::NativeBuilder;
use crate::ordering;
use crate::paths;
use crate::python_builder::PythonBuilder;
use crate::request::{BuildRequest, RequestView, ToolchainInfo};
use crate::source_laws;
use crate::text;
use crate::tooling::{CommandView, ToolEnvironment};
use crate::walk::EntryKind;
use vstd::prelude::*;

verus! {

/// Whether the argument behind `flag` is `value`.
pub open spec fn is_told(command: CommandView, flag: Seq<char>, value: Seq<char>) -> bool {
    exists|m: int|
        0 <= m < command.args.len() - 1 && #[trigger] command.args[m] == flag && command.args[m + 1]
            == value
}

/// The path of the artifact: in the directory of builds, named like the project's
/// directory with underscores for hyphens.
pub open spec fn artifact_path(project_dir: Seq<char>, default: Seq<char>) -> Seq<char> {
    paths::join_path(
        paths::join_path(paths::join_path(project_dir, ".pit"@), "build"@),
        text::replaced(
            match paths::file_name(project_dir) {
                Some(name) => name,
                None => default,
            },
            seq!['-'],
            '_',
        ) + ".wasm"@,
    )
}

/// Whether a plan ends with the artifact at `path`: it is collected there, or collected
/// elsewhere and then moved there, and the draft of the manifest speaks of it.
pub open spec fn ends_with(run: RunView, path: Seq<char>) -> bool {
    &&& run.draft.artifact_path == path
    &&& run.manifest is None
    &&& run.steps.len() >= 2
    &&& (run.steps.last() is Collect && run.steps.last()->Collect_path == path || (
    run.steps.last() is Rename && run.steps[run.steps.len() - 2] is Collect
        && run.steps.last()->Rename_from == run.steps[run.steps.len() - 2]->Collect_path
        && run.steps.last()->Rename_to == path))
}

/// Whether the draft of a manifest says what was asked for.
pub open spec fn is_draft_for(
    run: RunView,
    r: RequestView,
    toolchain: ToolchainInfo,
    fingerprint: Seq<char>,
) -> bool {
    &&& run.draft.profile == r.profile
    &&& run.draft.fingerprint == fingerprint
    &&& run.draft.execution == r.execution_defaults
    &&& run.draft.world == (match r.world {
        Some(w) => w,
        None => ComponentWorld::WasiHttpProxy,
    })
    &&& run.draft.toolchain == toolchain@
    &&& run.draft.target == "wasm32-wasip2"@
}

/// The directory `name` among what a build writes.
pub open spec fn pit_place(project_dir: Seq<char>, name: Seq<char>) -> Seq<char> {
    paths::join_path(paths::join_path(project_dir, ".pit"@), name)
}

/// The directory of the bindings of a C or C++ build.
pub open spec fn bindings_place(language: Language, project_dir: Seq<char>) -> Seq<char> {
    paths::join_path(
        pit_place(project_dir, "generated"@),
        if language == Language::C {
            "c"@
        } else {
            "cpp"@
        },
    )
}

/// Whether a plan makes the directory before anything is run.
pub open spec fn makes(run: RunView, directory: Seq<char>) -> bool {
    exists|i: int|
        0 <= i < run.steps.len() && #[trigger] run.steps[i] == BuildStepView::CreateDirectory(
            directory,
        ) && forall|j: int| 0 <= j < i ==> (#[trigger] run.steps[j]) is CreateDirectory
}

/// Whether `wit` is where the WIT files are: where the request says, else in the project,
/// else where the environment says.
pub open spec fn is_wit(
    r: RequestView,
    env: ToolEnvironment,
    facts: BuildFacts,
    wit: Seq<char>,
) -> bool {
    match r.wit_path {
        Some(path) => wit == path,
        None => is_shared_wit(r, env, facts, wit),
    }
}

/// Whether `wit` is where the WIT files are: in the project, else where the environment says.
pub open spec fn is_shared_wit(
    r: RequestView,
    env: ToolEnvironment,
    facts: BuildFacts,
    wit: Seq<char>,
) -> bool {
    if facts.listing@.contains(("wit"@, EntryKind::Directory)) {
        wit == paths::join_path(r.project_dir, "wit"@)
    } else {
        env.http_wit is Some && wit == env.http_wit->0@
    }
}

/// Whether a name is that of a C source, or of a C++ source.
pub open spec fn is_native_source(language: Language, name: Seq<char>) -> bool {
    if language == Language::C {
        source_laws::ends_in(name, ".c"@)
    } else {
        source_laws::ends_in(name, ".cpp"@) || source_laws::ends_in(name, ".cc"@)
            || source_laws::ends_in(name, ".cxx"@)
    }
}

/// Whether a project's directory has the source.
pub open spec fn has_native_source(language: Language, facts: BuildFacts, name: Seq<char>) -> bool {
    facts.listing@.contains((name, EntryKind::File)) && is_native_source(language, name)
}

proof fn lemma_native_dots(language: Language, name: Seq<char>)
    ensures
        native_builder::is_source(language, name) <==> is_native_source(language, name),
{
    reveal_strlit("c");
    reveal_strlit(".c");
    reveal_strlit("cpp");
    reveal_strlit(".cpp");
    reveal_strlit("cc");
    reveal_strlit(".cc");
    reveal_strlit("cxx");
    reveal_strlit(".cxx");
    assert(seq!['.'] + "c"@ =~= ".c"@);
    assert(seq!['.'] + "cpp"@ =~= ".cpp"@);
    assert(seq!['.'] + "cc"@ =~= ".cc"@);
    assert(seq!['.'] + "cxx"@ =~= ".cxx"@);
    source_laws::extensions_follow_the_dot(name, "c"@);
    source_laws::extensions_follow_the_dot(name, "cpp"@);
    source_laws::extensions_follow_the_dot(name, "cc"@);
    source_laws::extensions_follow_the_dot(name, "cxx"@);
}

proof fn lemma_sources(language: Language, listing: Seq<(Seq<char>, EntryKind)>, name: Seq<char>)
    ensures
        native_builder::sources(language, listing).contains(name) <==> listing.contains(
            (name, EntryKind::File),
        ) && native_builder::is_source(language, name),
    decreases listing.len(),
{
    let entry = (name, EntryKind::File);
    if listing.len() > 0 {
        let before = listing.drop_last();
        let rest = native_builder::sources(language, before);
        let all = native_builder::sources(language, listing);
        lemma_sources(language, before, name);
        assert(listing[listing.len() - 1] == listing.last());
        if listing.contains(entry) {
            let k = choose|k: int| 0 <= k < listing.len() && listing[k] == entry;
            if k < before.len() {
                assert(before[k] == entry);
            }
        }
        if before.contains(entry) {
            let k = choose|k: int| 0 <= k < before.len() && before[k] == entry;
            assert(listing[k] == entry);
        }
        if rest.contains(name) {
            let k = choose|k: int| 0 <= k < rest.len() && rest[k] == name;
            assert(all[k] == name);
        }
        if all.contains(name) {
            let k = choose|k: int| 0 <= k < all.len() && all[k] == name;
            if k < rest.len() {
                assert(rest[k] == name);
            }
        }
        if listing.last().1 == EntryKind::File && native_builder::is_source(
            language,
            listing.last().0,
        ) {
            assert(all.last() == listing.last().0);
        }
    }
}

/// The first source of a project is one of its sources, and none stands before it.
proof fn lemma_first_source(language: Language, facts: BuildFacts)
    ensures
        ({
            let all = paths::sorted_paths(native_builder::sources(language, facts.listing@));
            &&& all.len() > 0 ==> has_native_source(language, facts, all[0])
            &&& forall|other: Seq<char>| #[trigger]
                has_native_source(language, facts, other) ==> all.len() > 0 && ordering::lex_le(
                    paths::path_key(all[0]),
                    paths::path_key(other),
                )
        }),
{
    broadcast use vstd::seq_lib::group_to_multiset_ensures;

    let key = |p: Seq<char>| paths::path_key(p);
    let found = native_builder::sources(language, facts.listing@);
    let all = paths::sorted_paths(found);
    ordering::stable_sort_sorts(found, key);
    if all.len() > 0 {
        assert(all.contains(all[0]));
        assert(all.to_multiset().contains(all[0]) == found.to_multiset().contains(all[0]));
        lemma_sources(language, facts.listing@, all[0]);
        lemma_native_dots(language, all[0]);
    }
    assert forall|other: Seq<char>| #[trigger] has_native_source(language, facts, other) implies
        all.len() > 0 && ordering::lex_le(paths::path_key(all[0]), paths::path_key(other)) by {
        lemma_native_dots(language, other);
        lemma_sources(language, facts.listing@, other);
        assert(found.to_multiset().contains(other) == all.to_multiset().contains(other));
        assert(all.contains(other));
        let k = choose|k: int| 0 <= k < all.len() && all[k] == other;
        assert(ordering::lex_le(key(all[0]), key(all[k]))) by {
            ordering::lex_total(key(all[0]), key(all[0]));
        }
    }
}

/// Whether the steps of a plan compile the source to the artifact: the compiler of the
/// SDK is run on the source and writes a module, which becomes the component.
pub open spec fn compiles(
    run: RunView,
    env: ToolEnvironment,
    compiler: Seq<char>,
    source: Seq<char>,
    path: Seq<char>,
) -> bool {
    exists|i: int, j: int|
        0 <= i < j < run.steps.len() - 1 && (#[trigger] run.steps[i]) is Run
            && (#[trigger] run.steps[j]) is Adopt && ({
            let core = run.steps[j]->Adopt_core;
            let compile = run.steps[i]->Run_0;
            let wrap = run.steps[j]->Adopt_otherwise;
            &&& compile.program == compiler
            &&& compile.args.contains(source)
            &&& is_told(compile, "-o"@, core)
            &&& wrap.program == (match env.wasm_tools {
                Some(tool) => tool@,
                None => "wasm-tools"@,
            })
            &&& is_told(wrap, "component"@, "new"@)
            &&& wrap.args.contains(core)
            &&& is_told(wrap, "-o"@, path)
            &&& run.steps[j]->Adopt_artifact == path
        })
}

/// Whether the bindings of the world are generated from the WIT files, compiled, and
/// linked with the source.
pub open spec fn binds(
    run: RunView,
    env: ToolEnvironment,
    wit: Seq<char>,
    source: Seq<char>,
    directory: Seq<char>,
) -> bool {
    exists|i: int, j: int, k: int|
        0 <= i < j < k < run.steps.len() && (#[trigger] run.steps[i]) is Run && ({
            let c = run.steps[i]->Run_0;
            &&& c.program == (match env.wit_bindgen {
                Some(tool) => tool@,
                None => "wit-bindgen"@,
            })
            &&& c.args[0] == "c"@
            &&& c.args.contains(wit)
            &&& is_told(c, "-w"@, "wasi:http/proxy"@)
            &&& is_told(c, "--out-dir"@, directory)
        }) && (#[trigger] run.steps[j]) is Run && ({
            let c = run.steps[j]->Run_0;
            &&& env.wasi_sdk is Some
            &&& c.program == paths::join_path(
                paths::join_path(env.wasi_sdk->0@, "bin"@),
                "wasm32-wasip2-clang"@,
            )
            &&& is_told(c, "-I"@, directory)
            &&& is_told(c, "-c"@, paths::join_path(directory, "proxy.c"@))
            &&& is_told(c, "-o"@, paths::join_path(directory, "bindings.o"@))
        }) && (#[trigger] run.steps[k]) is Run && ({
            let c = run.steps[k]->Run_0;
            &&& c.args.contains(source)
            &&& is_told(c, "-I"@, directory)
            &&& c.args.contains(paths::join_path(directory, "bindings.o"@))
            &&& c.args.contains(paths::join_path(directory, "proxy_component_type.o"@))
        })
}

/// The plan of a C or C++ build compiles the first source of the project, with the
/// bindings of the HTTP world, to the component that is collected.
pub proof fn native_builds_compile_the_source(
    b: NativeBuilder,
    request: BuildRequest,
    env: ToolEnvironment,
    facts: BuildFacts,
    toolchain: ToolchainInfo,
    fingerprint: &str,
    run: BuildRun,
) -> (source: Seq<char>)
    requires
        b.builds() == Language::C || b.builds() == Language::Cpp,
        call_ensures(
            NativeBuilder::build,
            (&b, &request, &env, &facts, toolchain, fingerprint),
            Ok::<BuildRun, PitError>(run),
        ),
    ensures
        has_native_source(b.builds(), facts, source),
        forall|other: Seq<char>| #[trigger]
            has_native_source(b.builds(), facts, other) ==> ordering::lex_le(
                paths::path_key(source),
                paths::path_key(other),
            ),
        env.wasi_sdk is Some,
        compiles(
            run@,
            env,
            paths::join_path(
                paths::join_path(env.wasi_sdk->0@, "bin"@),
                if b.builds() == Language::C {
                    "wasm32-wasip2-clang"@
                } else {
                    "wasm32-wasip2-clang++"@
                },
            ),
            paths::join_path(request@.project_dir, source),
            artifact_path(request@.project_dir, "native-component"@),
        ),
        exists|wit: Seq<char>|
            is_wit(request@, env, facts, wit) && #[trigger] binds(
                run@,
                env,
                wit,
                paths::join_path(request@.project_dir, source),
                bindings_place(b.builds(), request@.project_dir),
            ),
        makes(run@, pit_place(request@.project_dir, "build"@)),
        makes(run@, bindings_place(b.builds(), request@.project_dir)),
        ends_with(run@, artifact_path(request@.project_dir, "native-component"@)),
        is_draft_for(run@, request@, toolchain, fingerprint@),
        run@.draft.language == (if b.builds() == Language::C {
            "c"@
        } else {
            "cpp"@
        }),
{
    let r = request@;
    let language = b.builds();
    let all = paths::sorted_paths(native_builder::sources(language, facts.listing@));
    lemma_first_source(language, facts);
    let source = all[0];
    let inputs = native_builder::native_checked(language, r, env, facts)->Ok_0;
    let generated = paths::join_path(
        builder::below_pit(r.project_dir, "generated"@),
        crate::language::language_text(language),
    );
    let path = artifact_path(r.project_dir, "native-component"@);
    let build_dir = builder::below_pit(r.project_dir, "build"@);
    let name = builder::artifact_name(r.project_dir, "native-component"@);
    let core = paths::join_path(build_dir, name + ".core.wasm"@);
    let steps = run@.steps;
    assert(inputs.source == paths::join_path(r.project_dir, source));
    let c = steps[4]->Run_0;
    assert(c.args[2] == inputs.source);
    assert(c.args[5] == "-o"@ && c.args[6] == core);
    assert(c.args[0] == "-I"@ && c.args[1] == generated);
    assert(c.args[3] == paths::join_path(generated, "bindings.o"@));
    assert(c.args[4] == paths::join_path(generated, "proxy_component_type.o"@));
    let adopt = steps[5]->Adopt_otherwise;
    assert(adopt.args[2] == core);
    assert(adopt.args[3] == "-o"@ && adopt.args[4] == path);
    assert(is_told(c, "-o"@, core));
    assert(steps[4] is Run && steps[5] is Adopt);
    let generate = steps[2]->Run_0;
    assert(generate.args[1] == "-w"@ && generate.args[2] == "wasi:http/proxy"@);
    assert(generate.args[3] == "--out-dir"@ && generate.args[4] == generated);
    assert(generate.args[5] == inputs.wit);
    let compile = steps[3]->Run_0;
    assert(compile.args[2] == "-c"@);
    assert(compile.args[4] == "-o"@);
    assert(compile.args[0] == "-I"@ && compile.args[1] == generated);
    assert(adopt.args[0] == "component"@ && adopt.args[1] == "new"@);
    assert(steps[2] is Run && steps[3] is Run);
    assert(generated == bindings_place(language, r.project_dir));
    assert(is_wit(r, env, facts, inputs.wit));
    assert(binds(
        run@,
        env,
        inputs.wit,
        paths::join_path(r.project_dir, source),
        bindings_place(language, r.project_dir),
    ));
    assert(steps[0] == BuildStepView::CreateDirectory(generated));
    assert(steps[1] == BuildStepView::CreateDirectory(build_dir));
    assert(steps.last() is Collect);
    source
}

/// A C or C++ build that is asked for a component of the HTTP world is planned, given the
/// SDK, the WIT files and a source; another ABI or world is refused.
pub proof fn native_builds_are_planned(
    b: NativeBuilder,
    request: BuildRequest,
    env: ToolEnvironment,
    facts: BuildFacts,
    toolchain: ToolchainInfo,
    fingerprint: &str,
    run: Result<BuildRun, PitError>,
    source: Seq<char>,
)
    requires
        call_ensures(
            NativeBuilder::build,
            (&b, &request, &env, &facts, toolchain, fingerprint),
            run,
        ),
    ensures
        request@.abi == "wasi-preview2"@ && request@.world != Some(ComponentWorld::WasiCliCommand)
            && env.wasi_sdk is Some && request@.wit_path is None && facts.listing@.contains(
            ("wit"@, EntryKind::Directory),
        ) && has_native_source(b.builds(), facts, source) ==> run is Ok,
        request@.abi == "wasi-preview2"@ && request@.world != Some(ComponentWorld::WasiCliCommand)
            && env.wasi_sdk is Some && request@.wit_path is Some && facts.request_wit_exists
            && has_native_source(b.builds(), facts, source) ==> run is Ok,
        request@.abi != "wasi-preview2"@ || request@.world == Some(ComponentWorld::WasiCliCommand)
            || env.wasi_sdk is None ==> run is Err,
{
    lemma_first_source(b.builds(), facts);
}

/// The plan of a Python build makes a component of the module `app` of the project, for
/// the HTTP world and with the WIT files of the project.
pub proof fn python_builds_take_the_project(
    b: PythonBuilder,
    request: BuildRequest,
    env: ToolEnvironment,
    facts: BuildFacts,
    toolchain: ToolchainInfo,
    fingerprint: &str,
    run: BuildRun,
)
    requires
        call_ensures(
            PythonBuilder::build,
            (&b, &request, &env, &facts, toolchain, fingerprint),
            Ok::<BuildRun, PitError>(run),
        ),
    ensures
        exists|i: int|
            0 <= i < run@.steps.len() - 1 && (#[trigger] run@.steps[i]) is Run && ({
                let c = run@.steps[i]->Run_0;
                &&& c.program == (match env.componentize_py {
                    Some(tool) => tool@,
                    None => "componentize-py"@,
                })
                &&& is_told(c, "-d"@, paths::join_path(request@.project_dir, "wit"@))
                &&& is_told(c, "-w"@, "wasi:http/proxy@0.2.0"@)
                &&& is_told(c, "componentize"@, "app"@)
                &&& is_told(c, "-p"@, request@.project_dir)
                &&& is_told(
                    c,
                    "-o"@,
                    artifact_path(request@.project_dir, "python-component"@),
                )
                &&& c.directory == Some(request@.project_dir)
            }),
        ends_with(run@, artifact_path(request@.project_dir, "python-component"@)),
        makes(run@, pit_place(request@.project_dir, "build"@)),
        is_draft_for(run@, request@, toolchain, fingerprint@),
        run@.draft.language == "python"@,
        request@.abi == "wasi-preview2"@,
        request@.world != Some(ComponentWorld::WasiCliCommand),
        facts.listing@.contains(("wit"@, EntryKind::Directory)),
{
    let c = run@.steps[1]->Run_0;
    assert(c.args[0] == "-d"@ && c.args[2] == "-w"@ && c.args[4] == "componentize"@);
    assert(c.args[6] == "-p"@ && c.args[8] == "-o"@);
    assert(c.args[1] == paths::join_path(request@.project_dir, "wit"@));
    assert(c.args[7] == request@.project_dir);
    assert(run@.steps[1] is Run);
    assert(run@.steps[0] == BuildStepView::CreateDirectory(
        pit_place(request@.project_dir, "build"@),
    ));
}

/// A Python build is planned exactly where a component of the HTTP world is asked for and
/// the project has WIT files.
pub proof fn python_builds_are_planned(
    b: PythonBuilder,
    request: BuildRequest,
    env: ToolEnvironment,
    facts: BuildFacts,
    toolchain: ToolchainInfo,
    fingerprint: &str,
    run: Result<BuildRun, PitError>,
)
    requires
        call_ensures(
            PythonBuilder::build,
            (&b, &request, &env, &facts, toolchain, fingerprint),
            run,
        ),
    ensures
        run is Ok <==> request@.abi == "wasi-preview2"@ && request@.world != Some(
            ComponentWorld::WasiCliCommand,
        ) && facts.listing@.contains(("wit"@, EntryKind::Directory)),
{
}

/// The plan of a Go build generates the bindings of the world, then builds the project
/// for it, and moves what was collected to the artifact.
pub proof fn go_builds_take_the_project(
    b: GoBuilder,
    request: BuildRequest,
    env: ToolEnvironment,
    toolchain: ToolchainInfo,
    fingerprint: &str,
    process: u32,
    run: BuildRun,
)
    requires
        call_ensures(
            GoBuilder::build,
            (&b, &request, &env, toolchain, fingerprint, process),
            Ok::<BuildRun, PitError>(run),
        ),
    ensures
        exists|i: int, j: int|
            0 <= i < j < run@.steps.len() - 2 && (#[trigger] run@.steps[i]) is Run && (
            #[trigger] run@.steps[j]) is Run && ({
                let bind = run@.steps[i]->Run_0;
                let make = run@.steps[j]->Run_0;
                let world = if request@.world == Some(ComponentWorld::WasiCliCommand) {
                    "wasi:cli/command"@
                } else {
                    "wasi:http/proxy"@
                };
                let tool = match env.componentize_go {
                    Some(tool) => tool@,
                    None => "componentize-go"@,
                };
                &&& bind.program == tool
                &&& make.program == tool
                &&& bind.args.contains("bindings"@)
                &&& bind.args.contains("--format"@)
                &&& make.args.contains("build"@)
                &&& is_told(bind, "--world"@, world)
                &&& is_told(make, "--world"@, world)
                &&& bind.directory == Some(request@.project_dir)
                &&& make.directory == Some(request@.project_dir)
                &&& run@.steps[run@.steps.len() - 2] is Collect
                &&& is_told(
                    make,
                    "--output"@,
                    run@.steps[run@.steps.len() - 2]->Collect_path,
                )
                &&& env.go matches Some(go) ==> is_told(make, "--go"@, go@)
            }),
        ends_with(run@, artifact_path(request@.project_dir, "go-component"@)),
        makes(run@, pit_place(request@.project_dir, "build"@)),
        makes(run@, pit_place(request@.project_dir, "tmp"@)),
        exists|name: Seq<char>|
            run@.steps[run@.steps.len() - 2]->Collect_path == #[trigger] paths::join_path(
                pit_place(request@.project_dir, "tmp"@),
                name,
            ),
        is_draft_for(run@, request@, toolchain, fingerprint@),
        run@.draft.language == "go"@,
        request@.abi == "wasi-preview2"@,
{
    let bind = run@.steps[2]->Run_0;
    let make = run@.steps[3]->Run_0;
    assert(bind.args[0] == "--world"@ && bind.args[2] == "bindings"@);
    assert(bind.args[3] == "--format"@);
    assert(make.args[0] == "--world"@ && make.args[2] == "build"@ && make.args[3] == "--output"@);
    assert(make.args[4] == run@.steps[4]->Collect_path);
    if let Some(go) = env.go {
        assert(make.args[5] == "--go"@ && make.args[6] == go@);
    }
    assert(run@.steps[2] is Run && run@.steps[3] is Run);
    assert(run@.steps[0] == BuildStepView::CreateDirectory(
        pit_place(request@.project_dir, "tmp"@),
    ));
    assert(run@.steps[1] == BuildStepView::CreateDirectory(
        pit_place(request@.project_dir, "build"@),
    ));
    let staged = builder::artifact_name(request@.project_dir, "go-component"@) + "."@
        + text::decimal(process as nat) + ".wasm"@;
    assert(run@.steps[4]->Collect_path == paths::join_path(
        pit_place(request@.project_dir, "tmp"@),
        staged,
    ));
    assert("wasi-preview1"@ != "wasi-preview2"@) by {
        crate::validation::lemma_abi_names();
    }
}

/// A Go build is planned exactly where a component is asked for.
pub proof fn go_builds_are_planned(
    b: GoBuilder,
    request: BuildRequest,
    env: ToolEnvironment,
    toolchain: ToolchainInfo,
    fingerprint: &str,
    process: u32,
    run: Result<BuildRun, PitError>,
)
    requires
        call_ensures(
            GoBuilder::build,
            (&b, &request, &env, toolchain, fingerprint, process),
            run,
        ),
    ensures
        run is Ok <==> request@.abi == "wasi-preview2"@,
{
}

/// Whether a plan makes a component of the JavaScript at `source`.
pub open spec fn componentizes(
    run: RunView,
    env: ToolEnvironment,
    r: RequestView,
    facts: BuildFacts,
    source: Seq<char>,
    path: Seq<char>,
) -> bool {
    let k = run.steps.len() - 2;
    &&& k >= 0
    &&& run.steps[k] is Run
    &&& {
        let c = run.steps[k]->Run_0;
        &&& c.args.contains(source)
        &&& exists|wit: Seq<char>|
            is_shared_wit(r, env, facts, wit) && #[trigger] is_told(c, "--wit"@, wit)
        &&& is_told(c, "--world-name"@, "proxy"@)
        &&& is_told(c, "--out"@, path)
        &&& c.directory == Some(r.project_dir)
        &&& match env.componentize_js_script {
            Some(script) => c.args[0] == script@ && c.program == (match env.node {
                Some(node) => node@,
                None => "node"@,
            }),
            None => c.program == "componentize-js"@,
        }
    }
}

/// The plan of a JavaScript build makes a component of `main.js` of the project. That of
/// a TypeScript build compiles `main.ts` first and makes it of what the compiler wrote.
pub proof fn js_builds_take_the_main_file(
    b: JsBuilder,
    request: BuildRequest,
    env: ToolEnvironment,
    facts: BuildFacts,
    toolchain: ToolchainInfo,
    fingerprint: &str,
    run: BuildRun,
)
    requires
        b.builds() == Language::JavaScript || b.builds() == Language::TypeScript,
        call_ensures(
            JsBuilder::build,
            (&b, &request, &env, &facts, toolchain, fingerprint),
            Ok::<BuildRun, PitError>(run),
        ),
    ensures
        b.builds() == Language::JavaScript ==> componentizes(
            run@,
            env,
            request@,
            facts,
            paths::join_path(request@.project_dir, "main.js"@),
            artifact_path(request@.project_dir, "javascript-component"@),
        ) && facts.listing@.contains(("main.js"@, EntryKind::File)),
        b.builds() == Language::TypeScript ==> ({
            let generated = paths::join_path(
                paths::join_path(request@.project_dir, ".pit"@),
                "generated"@,
            );
            &&& componentizes(
                run@,
                env,
                request@,
                facts,
                paths::join_path(generated, "main.js"@),
                artifact_path(request@.project_dir, "javascript-component"@),
            )
            &&& facts.listing@.contains(("main.ts"@, EntryKind::File))
            &&& exists|i: int|
                0 <= i < run@.steps.len() - 2 && (#[trigger] run@.steps[i]) is Run && ({
                    let c = run@.steps[i]->Run_0;
                    &&& c.program == (match env.tsc {
                        Some(tool) => tool@,
                        None => "tsc"@,
                    })
                    &&& c.args.contains(paths::join_path(request@.project_dir, "main.ts"@))
                    &&& is_told(c, "--outDir"@, generated)
                    &&& is_told(c, "--module"@, "ES2022"@)
                    &&& is_told(c, "--target"@, "ES2022"@)
                    &&& is_told(c, "--moduleResolution"@, "node"@)
                    &&& is_told(c, "--lib"@, "ESNext,DOM"@)
                    &&& c.args.contains("--skipLibCheck"@)
                    &&& facts.listing@.contains(("wasi-http.d.ts"@, EntryKind::File))
                        ==> c.args.contains(
                        paths::join_path(request@.project_dir, "wasi-http.d.ts"@),
                    )
                })
        }),
        ends_with(run@, artifact_path(request@.project_dir, "javascript-component"@)),
        makes(run@, pit_place(request@.project_dir, "build"@)),
        makes(run@, pit_place(request@.project_dir, "generated"@)),
        is_draft_for(run@, request@, toolchain, fingerprint@),
        run@.draft.language == (if b.builds() == Language::JavaScript {
            "javascript"@
        } else {
            "typescript"@
        }),
        request@.abi == "wasi-preview2"@,
        request@.world != Some(ComponentWorld::WasiCliCommand),
{
    let r = request@;
    let k = run@.steps.len() - 2;
    let c = run@.steps[k]->Run_0;
    let n: int = if env.componentize_js_script is Some {
        1
    } else {
        0
    };
    let (wit, source) = js_builder::js_checked(b.builds(), r, env, facts)->Ok_0;
    let path = artifact_path(r.project_dir, "javascript-component"@);
    assert(c.args[n + 1] == "--wit"@ && c.args[n + 2] == wit);
    assert(c.args[n + 3] == "--world-name"@ && c.args[n + 4] == "proxy"@);
    assert(c.args[n + 5] == "--out"@ && c.args[n + 6] == path);
    assert(is_told(c, "--wit"@, wit));
    let generated = builder::below_pit(r.project_dir, "generated"@);
    let js_source = if b.builds() == Language::TypeScript {
        paths::join_path(generated, "main.js"@)
    } else {
        source
    };
    assert(c.args[n] == js_source);
    assert(run@.steps[0] == BuildStepView::CreateDirectory(generated));
    assert(run@.steps[1] == BuildStepView::CreateDirectory(
        pit_place(r.project_dir, "build"@),
    ));
    if b.builds() == Language::TypeScript {
        let t = run@.steps[2]->Run_0;
        assert(t.args[0] == source);
        assert(t.args[1] == "--target"@ && t.args[2] == "ES2022"@);
        assert(t.args[3] == "--module"@ && t.args[4] == "ES2022"@);
        assert(t.args[5] == "--moduleResolution"@ && t.args[6] == "node"@);
        assert(t.args[7] == "--lib"@ && t.args[8] == "ESNext,DOM"@);
        assert(t.args[9] == "--skipLibCheck"@);
        if facts.listing@.contains(("wasi-http.d.ts"@, EntryKind::File)) {
            assert(t.args[10] == paths::join_path(r.project_dir, "wasi-http.d.ts"@));
        }
        let last = t.args.len() - 1;
        assert(t.args[last - 1] == "--outDir"@ && t.args[last] == generated);
        assert(run@.steps[2] is Run);
    }
}

/// A JavaScript or TypeScript build is planned where a component of the HTTP world is
/// asked for and the project has its main file and WIT files; another ABI or world is
/// refused.
pub proof fn js_builds_are_planned(
    b: JsBuilder,
    request: BuildRequest,
    env: ToolEnvironment,
    facts: BuildFacts,
    toolchain: ToolchainInfo,
    fingerprint: &str,
    run: Result<BuildRun, PitError>,
)
    requires
        b.builds() == Language::JavaScript || b.builds() == Language::TypeScript,
        call_ensures(
            JsBuilder::build,
            (&b, &request, &env, &facts, toolchain, fingerprint),
            run,
        ),
    ensures
        run is Ok <==> request@.abi == "wasi-preview2"@ && request@.world != Some(
            ComponentWorld::WasiCliCommand,
        ) && (facts.listing@.contains(("wit"@, EntryKind::Directory)) || (env.http_wit is Some
            && facts.http_wit_exists)) && facts.listing@.contains(
            (
                if b.builds() == Language::JavaScript {
                    "main.js"@
                } else {
                    "main.ts"@
                },
                EntryKind::File,
            ),
        ),
{
}

} // verus!
