//! The builder of C and C++ projects. Both languages use the C bindings that
//! wit-bindgen generates for the `wasi:http/proxy` world.

use crate::artifact;
use crate::artifact::{ComponentWorld, WASI_HTTP_PROXY_WORLD};
use crate::builder;
use crate::builder::{
    choose_target, choose_world, name_artifact, pit_directory, wasm_file, BuildFacts, BuildRun,
    BuildStep, BuildStepView, DraftView, LanguageBuilder, ManifestDraft, RunView,
};
use crate::digest;
use crate::error;
use crate::error::{naming_path, ErrorKind, ErrorView, PitError};
use crate::fingerprint;
use crate::fingerprint::{hash_portable, sort_files, SourceFile};
use crate::language;
use crate::language::Language;
use crate::ordering;
use crate::paths;
use crate::paths::{has_extension, key_of_path, path_join, sort_paths};
use crate::request::{BuildRequest, Detection, RequestView, ToolchainInfo, ToolchainView};
use crate::text;
use crate::text::{first_line_or, text_eq};
use crate::tooling;
use crate::tooling::{
    ask_version, choose_tool, own_args, CommandView, ToolCommand, ToolEnvironment,
};
use crate::walk;
use crate::walk::{DirectoryListing, EntryKind};
use vstd::prelude::*;

verus! {

/// What identifies the way in which this builder builds.
pub const BUILDER_CONTRACT: &'static str = "pit-builder-native-v1";

/// Builds C projects, or C++ projects.
#[derive(Debug, Clone, Copy)]
pub struct NativeBuilder {
    language: Language,
}

impl LanguageBuilder for NativeBuilder {
    closed spec fn builds(&self) -> Language {
        self.language
    }

    open spec fn takes(&self, listing: Seq<(Seq<char>, EntryKind)>) -> Detection {
        if match self.builds() {
            Language::C => walk::lists_file(listing, "main.c"@) || walk::lists_extension(
                listing,
                "c"@,
            ),
            Language::Cpp => walk::lists_file(listing, "main.cpp"@) || walk::lists_extension(
                listing,
                "cpp"@,
            ) || walk::lists_extension(listing, "cc"@) || walk::lists_extension(listing, "cxx"@),
            _ => false,
        } {
            Detection::Yes
        } else {
            Detection::No
        }
    }

    fn language(&self) -> (r: Language) {
        self.language
    }

    fn detect(&self, listing: &DirectoryListing) -> (r: Detection) {
        let marker = match self.language {
            Language::C => listing.has_file("main.c") || listing.has_extension("c"),
            Language::Cpp => listing.has_file("main.cpp") || listing.has_extension("cpp")
                || listing.has_extension("cc") || listing.has_extension("cxx"),
            _ => false,
        };
        if marker {
            Detection::Yes
        } else {
            Detection::No
        }
    }
}

/// Whether a name is that of a source file.
pub open spec fn is_source(language: Language, name: Seq<char>) -> bool {
    if language == Language::C {
        paths::extension(name) == Some("c"@)
    } else {
        paths::extension(name) == Some("cpp"@) || paths::extension(name) == Some("cc"@)
            || paths::extension(name) == Some("cxx"@)
    }
}

/// The source files of a listing.
pub open spec fn sources(language: Language, listing: Seq<(Seq<char>, EntryKind)>) -> Seq<Seq<char>>
    decreases listing.len(),
{
    if listing.len() == 0 {
        Seq::empty()
    } else if listing.last().1 == EntryKind::File && is_source(language, listing.last().0) {
        sources(language, listing.drop_last()).push(listing.last().0)
    } else {
        sources(language, listing.drop_last())
    }
}

/// The extensions of source files.
pub open spec fn source_kinds(language: Language) -> Seq<char> {
    if language == Language::C {
        "c"@
    } else {
        "cpp, cc, cxx"@
    }
}

/// The source of a project: the first source file in the order of names.
pub open spec fn native_source(
    language: Language,
    project_dir: Seq<char>,
    listing: Seq<(Seq<char>, EntryKind)>,
) -> Result<Seq<char>, ErrorView> {
    let all = paths::sorted_paths(sources(language, listing));
    if all.len() == 0 {
        Err(
            error::error(
                ErrorKind::Request,
                language::language_text(language) + " project must contain a "@ + source_kinds(
                    language,
                ) + " source file"@,
            ),
        )
    } else {
        Ok(paths::join_path(project_dir, all[0]))
    }
}

/// The WASI SDK.
pub open spec fn native_sdk(env: ToolEnvironment) -> Result<Seq<char>, ErrorView> {
    match env.wasi_sdk {
        Some(sdk) => Ok(sdk@),
        None => Err(
            error::error(
                ErrorKind::Request,
                "PITFAST_WASI_SDK must point to a WASI SDK installation"@,
            ),
        ),
    }
}

/// The WIT files: those of the request, of the project or of the environment.
pub open spec fn native_wit(r: RequestView, env: ToolEnvironment, facts: BuildFacts) -> Result<
    Seq<char>,
    ErrorView,
> {
    let (path, exists_there) = match r.wit_path {
        Some(path) => (Some(path), facts.request_wit_exists),
        None => if walk::lists_directory(facts.listing@, "wit"@) {
            (Some(paths::join_path(r.project_dir, "wit"@)), true)
        } else {
            (text::option_view(env.http_wit), facts.http_wit_exists)
        },
    };
    match path {
        None => Err(
            error::error(
                ErrorKind::Request,
                "HTTP builder needs a WIT directory; set [build].wit or PITFAST_HTTP_WIT"@,
            ),
        ),
        Some(path) => if exists_there {
            Ok(path)
        } else {
            Err(error::error(ErrorKind::Request, "WIT path does not exist: "@ + path))
        },
    }
}

/// The compiler of a language.
pub open spec fn native_compiler(sdk: Seq<char>, language: Language) -> Seq<char> {
    paths::join_path(
        paths::join_path(sdk, "bin"@),
        if language == Language::C {
            "wasm32-wasip2-clang"@
        } else {
            "wasm32-wasip2-clang++"@
        },
    )
}

/// The binding generator.
pub open spec fn bindgen(env: ToolEnvironment) -> Seq<char> {
    tooling::tool_or(text::option_view(env.wit_bindgen), "wit-bindgen"@)
}

/// The component tool.
pub open spec fn wasm_tools(env: ToolEnvironment) -> Seq<char> {
    tooling::tool_or(text::option_view(env.wasm_tools), "wasm-tools"@)
}

/// A command that asks a tool for its version.
pub open spec fn native_probe(program: Seq<char>) -> CommandView {
    tooling::version_command(program, seq!["--version"@], ""@, " failed: "@)
}

/// The toolchain, from what its tools say of themselves.
pub open spec fn native_toolchain(
    abi: Seq<char>,
    compiler_says: Seq<char>,
    bindgen_says: Seq<char>,
    tools_say: Seq<char>,
) -> ToolchainView {
    ToolchainView {
        name: "wasi-sdk"@,
        version: text::first_line(compiler_says, "wasi-sdk"@),
        compiler: Some(text::first_line(compiler_says, "clang"@)),
        componentizer: Some(
            text::first_line(bindgen_says, "wit-bindgen"@) + "; "@ + text::first_line(
                tools_say,
                "wasm-tools"@,
            ),
        ),
        target: builder::target_or_default(abi),
    }
}

/// What identifies a build beside its files.
pub open spec fn native_settings(language: Language, r: RequestView, version: Seq<char>) -> Seq<
    Seq<char>,
> {
    seq![
        BUILDER_CONTRACT@,
        language::language_text(language),
        r.abi,
        artifact::profile_text(r.profile),
        version,
        WASI_HTTP_PROXY_WORLD@,
    ]
}

/// Files in the order of their paths, each path once.
pub open spec fn distinct_files(files: Seq<(Seq<char>, Seq<u8>)>) -> Seq<(Seq<char>, Seq<u8>)> {
    ordering::dedup_by(
        fingerprint::sorted_files(files),
        |f: (Seq<char>, Seq<u8>)| paths::path_key(f.0),
    )
}

/// What a build uses.
#[verifier::ext_equal]
pub struct NativeInputs {
    pub sdk: Seq<char>,
    pub wit: Seq<char>,
    pub source: Seq<char>,
}

/// The outcome of checking a request.
pub open spec fn native_checked(
    language: Language,
    r: RequestView,
    env: ToolEnvironment,
    facts: BuildFacts,
) -> Result<NativeInputs, ErrorView> {
    if r.abi != "wasi-preview2"@ {
        Err(
            error::error(
                ErrorKind::Request,
                language::language_text(language)
                    + " builder targets wasi-preview2 Components only"@,
            ),
        )
    } else if builder::world_or_http(r.world) != ComponentWorld::WasiHttpProxy {
        Err(
            error::error(
                ErrorKind::Request,
                language::language_text(language)
                    + " builder currently supports wasi:http/proxy only"@,
            ),
        )
    } else {
        match (
            native_sdk(env),
            native_wit(r, env, facts),
            native_source(language, r.project_dir, facts.listing@),
        ) {
            (Err(e), _, _) => Err(e),
            (Ok(_), Err(e), _) => Err(e),
            (Ok(_), Ok(_), Err(e)) => Err(e),
            (Ok(sdk), Ok(wit), Ok(source)) => Ok(NativeInputs { sdk, wit, source }),
        }
    }
}

/// The command that generates bindings.
pub open spec fn bindings_command(
    env: ToolEnvironment,
    generated: Seq<char>,
    wit: Seq<char>,
) -> CommandView {
    CommandView {
        program: bindgen(env),
        args: seq!["c"@, "-w"@, WASI_HTTP_PROXY_WORLD@, "--out-dir"@, generated, wit],
        directory: None,
        not_started: "failed to run wit-bindgen"@,
        failed: "wit-bindgen failed: "@,
    }
}

/// The command that compiles the bindings.
pub open spec fn compile_bindings_command(sdk: Seq<char>, generated: Seq<char>) -> CommandView {
    CommandView {
        program: native_compiler(sdk, Language::C),
        args: seq![
            "-I"@,
            generated,
            "-c"@,
            paths::join_path(generated, "proxy.c"@),
            "-o"@,
            paths::join_path(generated, "bindings.o"@),
        ],
        directory: None,
        not_started: "failed to compile generated C bindings"@,
        failed: "generated C bindings failed: "@,
    }
}

/// The command that compiles the source.
pub open spec fn compile_command(
    language: Language,
    inputs: NativeInputs,
    generated: Seq<char>,
    core: Seq<char>,
) -> CommandView {
    CommandView {
        program: native_compiler(inputs.sdk, language),
        args: seq![
            "-I"@,
            generated,
            inputs.source,
            paths::join_path(generated, "bindings.o"@),
            paths::join_path(generated, "proxy_component_type.o"@),
            "-o"@,
            core,
        ],
        directory: None,
        not_started: "failed to compile native WASI source"@,
        failed: "native compiler failed: "@,
    }
}

/// The command that makes a component of a core module.
pub open spec fn componentize_command(
    env: ToolEnvironment,
    core: Seq<char>,
    artifact_path: Seq<char>,
) -> CommandView {
    CommandView {
        program: wasm_tools(env),
        args: seq!["component"@, "new"@, core, "-o"@, artifact_path],
        directory: None,
        not_started: "failed to componentize native WASI module"@,
        failed: "wasm-tools component new failed: "@,
    }
}

/// The plan of a build.
pub open spec fn native_plan(
    language: Language,
    r: RequestView,
    env: ToolEnvironment,
    facts: BuildFacts,
    toolchain: ToolchainView,
    fingerprint: Seq<char>,
) -> Result<RunView, ErrorView> {
    match native_checked(language, r, env, facts) {
        Err(e) => Err(e),
        Ok(inputs) => {
            let generated = paths::join_path(
                builder::below_pit(r.project_dir, "generated"@),
                language::language_text(language),
            );
            let build_dir = builder::below_pit(r.project_dir, "build"@);
            let name = builder::artifact_name(r.project_dir, "native-component"@);
            let core = paths::join_path(build_dir, name + ".core.wasm"@);
            let artifact_path = paths::join_path(build_dir, name + ".wasm"@);
            Ok(
                RunView {
                    steps: seq![
                        BuildStepView::CreateDirectory(generated),
                        BuildStepView::CreateDirectory(build_dir),
                        BuildStepView::Run(bindings_command(env, generated, inputs.wit)),
                        BuildStepView::Run(compile_bindings_command(inputs.sdk, generated)),
                        BuildStepView::Run(compile_command(language, inputs, generated, core)),
                        BuildStepView::Adopt {
                            core,
                            artifact: artifact_path,
                            otherwise: componentize_command(env, core, artifact_path),
                        },
                        BuildStepView::Collect {
                            path: artifact_path,
                            complaint: "native builder produced a core module, expected a Component"@,
                        },
                    ],
                    draft: DraftView {
                        name,
                        language: language::language_text(language),
                        target: "wasm32-wasip2"@,
                        profile: r.profile,
                        fingerprint,
                        world: ComponentWorld::WasiHttpProxy,
                        execution: r.execution_defaults,
                        artifact_path,
                        toolchain,
                    },
                    manifest: None,
                },
            )
        },
    }
}

/// The compiler of a language.
fn compiler_in(sdk: &str, language: Language) -> (r: String)
    ensures
        r@ == native_compiler(sdk@, language),
{
    let name = match language {
        Language::C => "wasm32-wasip2-clang",
        _ => "wasm32-wasip2-clang++",
    };
    path_join(path_join(sdk, "bin").as_str(), name)
}

/// A command with these arguments.
fn command(program: String, args: &[&str], not_started: &str, failed: &str) -> (r: ToolCommand)
    ensures
        r@ == (CommandView {
            program: program@,
            args: tooling::args_view(args@),
            directory: None,
            not_started: not_started@,
            failed: failed@,
        }),
{
    ToolCommand {
        program,
        args: own_args(args),
        directory: None,
        not_started: not_started.to_owned(),
        failed: failed.to_owned(),
    }
}

/// Removes the files that follow a file of the same path.
fn dedup_files(files: Vec<SourceFile>) -> (r: Vec<SourceFile>)
    ensures
        fingerprint::files_view(r@) == ordering::dedup_by(
            fingerprint::files_view(files@),
            |f: (Seq<char>, Seq<u8>)| paths::path_key(f.0),
        ),
{
    let ghost key = |f: (Seq<char>, Seq<u8>)| paths::path_key(f.0);
    let ghost all = fingerprint::files_view(files@);
    let mut out: Vec<SourceFile> = Vec::new();
    assert(fingerprint::files_view(out@) =~= Seq::<(Seq<char>, Seq<u8>)>::empty());
    assert(all.take(0) =~= Seq::<(Seq<char>, Seq<u8>)>::empty());
    let mut i: usize = 0;
    while i < files.len()
        invariant
            i <= files@.len(),
            all == fingerprint::files_view(files@),
            key == (|f: (Seq<char>, Seq<u8>)| paths::path_key(f.0)),
            fingerprint::files_view(out@) == ordering::dedup_by(all.take(i as int), key),
        decreases files@.len() - i,
    {
        assert(all[i as int] == files@[i as int]@);
        assert(all.take(i + 1).drop_last() =~= all.take(i as int));
        let ghost before = fingerprint::files_view(out@);
        let repeated = if out.len() > 0 {
            assert(before.last() == out@.last()@);
            same_key(
                &key_of_path(out[out.len() - 1].path.as_str()),
                &key_of_path(files[i].path.as_str()),
            )
        } else {
            false
        };
        if !repeated {
            let mut contents: Vec<u8> = Vec::new();
            fingerprint::append_bytes(&mut contents, files[i].contents.as_slice());
            assert(contents@ =~= files@[i as int].contents@);
            let file = SourceFile { path: files[i].path.clone(), contents };
            out.push(file);
            assert(fingerprint::files_view(out@) =~= before.push(all[i as int]));
        }
        i = i + 1;
    }
    assert(all.take(i as int) =~= all);
    out
}

/// Whether two keys are equal.
fn same_key(a: &Vec<u32>, b: &Vec<u32>) -> (r: bool)
    ensures
        r == (a@ == b@),
{
    if a.len() != b.len() {
        return false;
    }
    let mut i: usize = 0;
    while i < a.len()
        invariant
            i <= a@.len() == b@.len(),
            forall|j: int| 0 <= j < i ==> a@[j] == b@[j],
        decreases a@.len() - i,
    {
        if a[i] != b[i] {
            return false;
        }
        i = i + 1;
    }
    assert(a@ =~= b@);
    true
}

/// What a build uses.
#[derive(Debug)]
pub struct NativeSetup {
    pub sdk: String,
    pub wit: String,
    pub source: String,
}

impl View for NativeSetup {
    type V = NativeInputs;

    open spec fn view(&self) -> NativeInputs {
        NativeInputs { sdk: self.sdk@, wit: self.wit@, source: self.source@ }
    }
}

impl NativeBuilder {
    /// The languages are C and C++.
    #[verifier::type_invariant]
    spec fn is_native(self) -> bool {
        self.language == Language::C || self.language == Language::Cpp
    }

    /// The builder of C projects.
    pub fn c() -> (r: Self)
        ensures
            r.builds() == Language::C,
    {
        NativeBuilder { language: Language::C }
    }

    /// The builder of C++ projects.
    pub fn cpp() -> (r: Self)
        ensures
            r.builds() == Language::Cpp,
    {
        NativeBuilder { language: Language::Cpp }
    }

    /// The WASI SDK.
    fn sdk(env: &ToolEnvironment) -> (r: Result<String, PitError>)
        ensures
            error::outcome(r) == native_sdk(*env),
    {
        match &env.wasi_sdk {
            Some(sdk) => Ok(sdk.clone()),
            None => Err(
                PitError::fixed(
                    ErrorKind::Request,
                    "PITFAST_WASI_SDK must point to a WASI SDK installation",
                ),
            ),
        }
    }

    /// The WIT files: those of the request, of the project or of the environment.
    pub fn wit(request: &BuildRequest, env: &ToolEnvironment, facts: &BuildFacts) -> (r: Result<
        String,
        PitError,
    >)
        ensures
            error::outcome(r) == native_wit(request@, *env, *facts),
    {
        let (path, found) = match &request.wit_path {
            Some(path) => (path.clone(), facts.request_wit_exists),
            None => if facts.listing.has_directory("wit") {
                (path_join(request.project_dir.as_str(), "wit"), true)
            } else {
                match &env.http_wit {
                    Some(path) => (path.clone(), facts.http_wit_exists),
                    None => {
                        return Err(
                            PitError::fixed(
                                ErrorKind::Request,
                                "HTTP builder needs a WIT directory; set [build].wit or PITFAST_HTTP_WIT",
                            ),
                        );
                    },
                }
            },
        };
        if !found {
            return Err(naming_path(ErrorKind::Request, "WIT path does not exist: ", path.as_str()));
        }
        Ok(path)
    }

    /// The source of a project.
    pub fn source(&self, project_dir: &str, listing: &DirectoryListing) -> (r: Result<
        String,
        PitError,
    >)
        ensures
            error::outcome(r) == native_source(self.builds(), project_dir@, listing@),
    {
        let ghost language = self.builds();
        let ghost all = listing@;
        let mut found: Vec<String> = Vec::new();
        assert(text::texts(found@) =~= Seq::<Seq<char>>::empty());
        assert(all.take(0) =~= Seq::empty());
        let mut i: usize = 0;
        while i < listing.entries.len()
            invariant
                i <= listing.entries@.len(),
                all == listing@,
                language == self.language,
                text::texts(found@) == sources(language, all.take(i as int)),
            decreases listing.entries@.len() - i,
        {
            let entry = &listing.entries[i];
            assert(all[i as int] == entry@);
            assert(all.take(i + 1).drop_last() =~= all.take(i as int));
            assert(all.take(i + 1).last() == entry@);
            let name = entry.name.as_str();
            let kind = match self.language {
                Language::C => has_extension(name, "c"),
                _ => has_extension(name, "cpp") || has_extension(name, "cc") || has_extension(
                    name,
                    "cxx",
                ),
            };
            if entry.kind == EntryKind::File && kind {
                let ghost before = text::texts(found@);
                found.push(entry.name.clone());
                assert(text::texts(found@) =~= before.push(entry.name@));
            }
            i = i + 1;
        }
        assert(all.take(i as int) =~= all);
        let sorted = sort_paths(found);
        assert(text::texts(sorted@).len() == sorted@.len());
        if sorted.len() == 0 {
            let mut t = self.language.as_str().to_owned();
            t.append(" project must contain a ");
            match self.language {
                Language::C => t.append("c"),
                _ => t.append("cpp, cc, cxx"),
            }
            t.append(" source file");
            return Err(PitError::new(ErrorKind::Request, t));
        }
        assert(text::texts(sorted@)[0] == sorted@[0]@);
        Ok(path_join(project_dir, sorted[0].as_str()))
    }

    /// The compiler, which must be there.
    pub fn compiler(&self, env: &ToolEnvironment, facts: &BuildFacts) -> (r: Result<
        String,
        PitError,
    >)
        ensures
            error::outcome(r) == match native_sdk(*env) {
                Err(e) => Err(e),
                Ok(sdk) => if facts.compiler_exists {
                    Ok(native_compiler(sdk, self.builds()))
                } else {
                    Err(
                        error::error(
                            ErrorKind::Tool,
                            "WASI SDK compiler is missing: "@ + native_compiler(
                                sdk,
                                self.builds(),
                            ),
                        ),
                    )
                },
            },
    {
        let sdk = match Self::sdk(env) {
            Ok(sdk) => sdk,
            Err(e) => {
                return Err(e);
            },
        };
        let compiler = compiler_in(sdk.as_str(), self.language);
        if !facts.compiler_exists {
            return Err(
                naming_path(ErrorKind::Tool, "WASI SDK compiler is missing: ", compiler.as_str()),
            );
        }
        Ok(compiler)
    }

    /// The commands that ask compiler, binding generator and component tool for
    /// their versions.
    pub fn probe_toolchain(&self, env: &ToolEnvironment, compiler: &str) -> (r: (
        ToolCommand,
        ToolCommand,
        ToolCommand,
    ))
        ensures
            r.0@ == native_probe(compiler@),
            r.1@ == native_probe(bindgen(*env)),
            r.2@ == native_probe(wasm_tools(*env)),
    {
        let version: [&str; 1] = ["--version"];
        assert(tooling::args_view(version@) =~= seq!["--version"@]);
        let generator = choose_tool(&env.wit_bindgen, "wit-bindgen");
        let tools = choose_tool(&env.wasm_tools, "wasm-tools");
        (
            ask_version(compiler, &version, "", " failed: "),
            ask_version(generator.as_str(), &version, "", " failed: "),
            ask_version(tools.as_str(), &version, "", " failed: "),
        )
    }

    /// The toolchain, from what its tools say of themselves.
    pub fn toolchain_for(
        &self,
        request: &BuildRequest,
        compiler_says: &str,
        bindgen_says: &str,
        tools_say: &str,
    ) -> (r: ToolchainInfo)
        ensures
            r@ == native_toolchain(request@.abi, compiler_says@, bindgen_says@, tools_say@),
    {
        let mut componentizer = first_line_or(bindgen_says, "wit-bindgen");
        componentizer.append("; ");
        componentizer.append(first_line_or(tools_say, "wasm-tools").as_str());
        ToolchainInfo {
            name: "wasi-sdk".to_owned(),
            version: first_line_or(compiler_says, "wasi-sdk"),
            compiler: Some(first_line_or(compiler_says, "clang")),
            componentizer: Some(componentizer),
            target: choose_target(&request.abi),
        }
    }

    /// The fingerprint of a build. `files` are the source and the WIT files.
    pub fn fingerprint(
        &self,
        request: &BuildRequest,
        toolchain: &ToolchainInfo,
        files: Vec<SourceFile>,
    ) -> (r: String)
        ensures
            r@ == fingerprint::portable_fingerprint(
                native_settings(self.builds(), request@, toolchain@.version),
                distinct_files(fingerprint::files_view(files@)),
            ),
            digest::is_digest_text(r@),
    {
        let mut settings: Vec<&str> = Vec::new();
        settings.push(BUILDER_CONTRACT);
        settings.push(self.language.as_str());
        settings.push(request.abi.as_str());
        settings.push(request.profile.as_str());
        settings.push(toolchain.version.as_str());
        settings.push(WASI_HTTP_PROXY_WORLD);
        assert(settings@.map_values(|v: &str| v@) =~= native_settings(
            self.builds(),
            request@,
            toolchain@.version,
        ));
        let distinct = dedup_files(sort_files(files));
        hash_portable(&settings, &distinct)
    }

    /// Checks a request: what a build would use.
    pub fn check(&self, request: &BuildRequest, env: &ToolEnvironment, facts: &BuildFacts) -> (r: Result<
        NativeSetup,
        PitError,
    >)
        ensures
            error::outcome(r) == native_checked(self.builds(), request@, *env, *facts),
    {
        if !text_eq(request.abi.as_str(), "wasi-preview2") {
            return Err(
                naming_path(
                    ErrorKind::Request,
                    self.language.as_str(),
                    " builder targets wasi-preview2 Components only",
                ),
            );
        }
        if choose_world(request.world) != ComponentWorld::WasiHttpProxy {
            return Err(
                naming_path(
                    ErrorKind::Request,
                    self.language.as_str(),
                    " builder currently supports wasi:http/proxy only",
                ),
            );
        }
        let sdk = match Self::sdk(env) {
            Ok(sdk) => sdk,
            Err(e) => {
                return Err(e);
            },
        };
        let wit = match Self::wit(request, env, facts) {
            Ok(wit) => wit,
            Err(e) => {
                return Err(e);
            },
        };
        match self.source(request.project_dir.as_str(), &facts.listing) {
            Ok(source) => Ok(NativeSetup { sdk, wit, source }),
            Err(e) => Err(e),
        }
    }

    /// The build of a project.
    pub fn build(
        &self,
        request: &BuildRequest,
        env: &ToolEnvironment,
        facts: &BuildFacts,
        toolchain: ToolchainInfo,
        fingerprint: &str,
    ) -> (r: Result<BuildRun, PitError>)
        ensures
            error::outcome(r) == native_plan(
                self.builds(),
                request@,
                *env,
                *facts,
                toolchain@,
                fingerprint@,
            ),
    {
        let setup = match self.check(request, env, facts) {
            Ok(setup) => setup,
            Err(e) => {
                return Err(e);
            },
        };
        let project_dir = request.project_dir.as_str();
        let generated = path_join(
            pit_directory(project_dir, "generated").as_str(),
            self.language.as_str(),
        );
        let build_dir = pit_directory(project_dir, "build");
        let name = name_artifact(project_dir, "native-component");
        let mut core_name = name.clone();
        core_name.append(".core.wasm");
        let core = path_join(build_dir.as_str(), core_name.as_str());
        let artifact_path = path_join(build_dir.as_str(), wasm_file(name.as_str()).as_str());
        let object = path_join(generated.as_str(), "bindings.o");
        let component_type = path_join(generated.as_str(), "proxy_component_type.o");
        let bindings_source = path_join(generated.as_str(), "proxy.c");

        let binding_args: [&str; 6] = [
            "c",
            "-w",
            WASI_HTTP_PROXY_WORLD,
            "--out-dir",
            generated.as_str(),
            setup.wit.as_str(),
        ];
        let bindings = command(
            choose_tool(&env.wit_bindgen, "wit-bindgen"),
            &binding_args,
            "failed to run wit-bindgen",
            "wit-bindgen failed: ",
        );
        assert(bindings@.args =~= bindings_command(*env, generated@, setup.wit@).args);

        let object_args: [&str; 6] = [
            "-I",
            generated.as_str(),
            "-c",
            bindings_source.as_str(),
            "-o",
            object.as_str(),
        ];
        let compile_bindings = command(
            compiler_in(setup.sdk.as_str(), Language::C),
            &object_args,
            "failed to compile generated C bindings",
            "generated C bindings failed: ",
        );
        assert(compile_bindings@.args =~= compile_bindings_command(setup.sdk@, generated@).args);

        let source_args: [&str; 7] = [
            "-I",
            generated.as_str(),
            setup.source.as_str(),
            object.as_str(),
            component_type.as_str(),
            "-o",
            core.as_str(),
        ];
        let compile = command(
            compiler_in(setup.sdk.as_str(), self.language),
            &source_args,
            "failed to compile native WASI source",
            "native compiler failed: ",
        );
        assert(compile@.args =~= compile_command(
            self.builds(),
            setup@,
            generated@,
            core@,
        ).args);

        let component_args: [&str; 5] = [
            "component",
            "new",
            core.as_str(),
            "-o",
            artifact_path.as_str(),
        ];
        let otherwise = command(
            choose_tool(&env.wasm_tools, "wasm-tools"),
            &component_args,
            "failed to componentize native WASI module",
            "wasm-tools component new failed: ",
        );
        assert(otherwise@.args =~= componentize_command(*env, core@, artifact_path@).args);

        let mut steps: Vec<BuildStep> = Vec::new();
        steps.push(BuildStep::CreateDirectory(generated));
        steps.push(BuildStep::CreateDirectory(build_dir));
        steps.push(BuildStep::Run(bindings));
        steps.push(BuildStep::Run(compile_bindings));
        steps.push(BuildStep::Run(compile));
        steps.push(BuildStep::Adopt { core, artifact: artifact_path.clone(), otherwise });
        steps.push(
            BuildStep::Collect {
                path: artifact_path.clone(),
                complaint: "native builder produced a core module, expected a Component".to_owned(),
            },
        );
        let draft = ManifestDraft {
            name,
            language: self.language.as_str().to_owned(),
            target: "wasm32-wasip2".to_owned(),
            profile: request.profile,
            fingerprint: fingerprint.to_owned(),
            world: ComponentWorld::WasiHttpProxy,
            execution: request.execution_defaults,
            artifact_path,
            toolchain,
        };
        assert(builder::build_steps_view(steps@) =~= native_plan(
            self.builds(),
            request@,
            *env,
            *facts,
            toolchain@,
            fingerprint@,
        )->Ok_0.steps);
        Ok(BuildRun::start(steps, draft))
    }
}

} // verus!
