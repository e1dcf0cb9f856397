//! The JavaScript and TypeScript builder, which uses ComponentizeJS.

use crate::artifact;
use crate::artifact::{ComponentWorld, WASI_HTTP_PROXY_WORLD};
use crate::builder;
use crate::builder::{
    choose_target, choose_world, name_artifact, pit_directory, wasm_file, BuildFacts, BuildRun,
    BuildStep, BuildStepView, DraftView, LanguageBuilder, ManifestDraft, RunView,
};
use crate::digest;
use crate::error;
use crate::error::{naming_path, ErrorKind, ErrorView, PitError};
use crate::fingerprint;
use crate::fingerprint::{hash_build, SourceFile};
use crate::language;
use crate::language::Language;
use crate::paths;
use crate::paths::path_join;
use crate::request::{BuildRequest, Detection, RequestView, ToolchainInfo, ToolchainView};
use crate::text;
use crate::text::{first_line_or, text_eq};
use crate::tooling;
use crate::tooling::{
    ask_version, choose_tool, own_args, CommandView, ToolCommand, ToolEnvironment, ToolOutput,
    ToolView,
};
use crate::walk;
use crate::walk::{DirectoryListing, EntryKind};
use vstd::prelude::*;

verus! {

/// What identifies the way in which this builder builds.
pub const BUILDER_CONTRACT: &'static str = "pit-builder-js-v1";

/// Builds JavaScript projects, or TypeScript projects.
#[derive(Debug, Clone, Copy)]
pub struct JsBuilder {
    language: Language,
}

/// The file that a project is built from.
pub open spec fn source_file(language: Language) -> Seq<char> {
    if language == Language::TypeScript {
        "main.ts"@
    } else {
        "main.js"@
    }
}

impl LanguageBuilder for JsBuilder {
    closed spec fn builds(&self) -> Language {
        self.language
    }

    open spec fn takes(&self, listing: Seq<(Seq<char>, EntryKind)>) -> Detection {
        if walk::lists_file(listing, "package.json"@) && (if self.builds() == Language::TypeScript {
            walk::lists_file(listing, "main.ts"@)
        } else {
            walk::lists_file(listing, "main.js"@) && !walk::lists_file(listing, "main.ts"@)
        }) {
            Detection::Yes
        } else {
            Detection::No
        }
    }

    fn language(&self) -> (r: Language) {
        self.language
    }

    fn detect(&self, listing: &DirectoryListing) -> (r: Detection) {
        let source = match self.language {
            Language::TypeScript => listing.has_file("main.ts"),
            _ => listing.has_file("main.js") && !listing.has_file("main.ts"),
        };
        if listing.has_file("package.json") && source {
            Detection::Yes
        } else {
            Detection::No
        }
    }
}

/// No project is taken for JavaScript and for TypeScript at once.
pub proof fn one_of_the_two_languages(
    javascript: JsBuilder,
    typescript: JsBuilder,
    listing: Seq<(Seq<char>, EntryKind)>,
)
    requires
        javascript.builds() == Language::JavaScript,
        typescript.builds() == Language::TypeScript,
    ensures
        !(javascript.takes(listing) == Detection::Yes && typescript.takes(listing)
            == Detection::Yes),
{
}

/// The JavaScript runtime.
pub open spec fn node(env: ToolEnvironment) -> Seq<char> {
    tooling::tool_or(text::option_view(env.node), "node"@)
}

/// The command that asks the runtime for its version.
pub open spec fn node_probe(env: ToolEnvironment) -> CommandView {
    tooling::version_command(node(env), seq!["--version"@], ""@, " failed: "@)
}

/// The command that asks the componentizer for its version.
pub open spec fn componentizer_probe(env: ToolEnvironment) -> CommandView {
    match text::option_view(env.componentize_js_script) {
        Some(script) => tooling::version_command(
            node(env),
            seq![script, "--version"@],
            ""@,
            " failed: "@,
        ),
        None => tooling::version_command(
            "componentize-js"@,
            seq!["--version"@],
            ""@,
            " failed: "@,
        ),
    }
}

/// What the componentizer says of itself. A script that does not say is taken for
/// a known version.
pub open spec fn componentizer_says(env: ToolEnvironment, reply: Option<ToolView>) -> Result<
    Seq<char>,
    ErrorView,
> {
    match tooling::command_outcome(componentizer_probe(env), reply) {
        Ok(t) => Ok(t),
        Err(e) => if env.componentize_js_script is Some {
            Ok("ComponentizeJS 0.22.0"@)
        } else {
            Err(e)
        },
    }
}

/// The toolchain, from what its tools say of themselves.
pub open spec fn js_toolchain(
    abi: Seq<char>,
    node_says: Seq<char>,
    componentizer_says: Seq<char>,
) -> ToolchainView {
    let version = text::first_line(componentizer_says, "componentize-js"@);
    ToolchainView {
        name: "componentize-js"@,
        version,
        compiler: Some(text::first_line(node_says, "node"@)),
        componentizer: Some(version),
        target: builder::target_or_default(abi),
    }
}

/// What identifies a build beside its files.
pub open spec fn js_settings(language: Language, r: RequestView, version: Seq<char>) -> Seq<
    Seq<char>,
> {
    seq![
        BUILDER_CONTRACT@,
        language::language_text(language),
        r.abi,
        artifact::profile_text(r.profile),
        version,
        WASI_HTTP_PROXY_WORLD@,
    ]
}

/// The WIT files: those of the project, or those that the environment names.
pub open spec fn js_wit(r: RequestView, env: ToolEnvironment, facts: BuildFacts) -> Result<
    Seq<char>,
    ErrorView,
> {
    if walk::lists_directory(facts.listing@, "wit"@) {
        Ok(paths::join_path(r.project_dir, "wit"@))
    } else if env.http_wit is Some && facts.http_wit_exists {
        Ok(env.http_wit->0@)
    } else {
        Err(
            error::error(
                ErrorKind::Request,
                "JavaScript builder needs project/wit or PITFAST_HTTP_WIT"@,
            ),
        )
    }
}

/// The outcome of checking a request: the WIT files and the source.
pub open spec fn js_checked(
    language: Language,
    r: RequestView,
    env: ToolEnvironment,
    facts: BuildFacts,
) -> Result<(Seq<char>, Seq<char>), ErrorView> {
    let source = paths::join_path(r.project_dir, source_file(language));
    if r.abi != "wasi-preview2"@ {
        Err(
            error::error(
                ErrorKind::Request,
                language::language_text(language)
                    + " builder targets wasi-preview2 Components only"@,
            ),
        )
    } else if builder::world_or_http(r.world) != ComponentWorld::WasiHttpProxy {
        Err(
            error::error(
                ErrorKind::Request,
                language::language_text(language) + " builder supports wasi:http/proxy only"@,
            ),
        )
    } else {
        match js_wit(r, env, facts) {
            Err(e) => Err(e),
            Ok(wit) => if walk::lists_file(facts.listing@, source_file(language)) {
                Ok((wit, source))
            } else {
                Err(
                    error::error(
                        ErrorKind::Request,
                        language::language_text(language) + " project must contain "@ + source,
                    ),
                )
            },
        }
    }
}

/// The command that compiles TypeScript.
pub open spec fn tsc_command(
    r: RequestView,
    env: ToolEnvironment,
    facts: BuildFacts,
    source: Seq<char>,
) -> CommandView {
    CommandView {
        program: tooling::tool_or(text::option_view(env.tsc), "tsc"@),
        args: seq![
            source,
            "--target"@,
            "ES2022"@,
            "--module"@,
            "ES2022"@,
            "--moduleResolution"@,
            "node"@,
            "--lib"@,
            "ESNext,DOM"@,
            "--skipLibCheck"@,
        ] + (if walk::lists_file(facts.listing@, "wasi-http.d.ts"@) {
            seq![paths::join_path(r.project_dir, "wasi-http.d.ts"@)]
        } else {
            Seq::empty()
        }) + seq!["--outDir"@, builder::below_pit(r.project_dir, "generated"@)],
        directory: None,
        not_started: "failed to run TypeScript compiler"@,
        failed: "TypeScript compilation failed: "@,
    }
}

/// The command that makes the component.
pub open spec fn componentize_command(
    r: RequestView,
    env: ToolEnvironment,
    js_source: Seq<char>,
    wit: Seq<char>,
    artifact_path: Seq<char>,
) -> CommandView {
    let args = seq![
        js_source,
        "--wit"@,
        wit,
        "--world-name"@,
        "proxy"@,
        "--out"@,
        artifact_path,
    ];
    CommandView {
        program: if env.componentize_js_script is Some {
            node(env)
        } else {
            "componentize-js"@
        },
        args: match text::option_view(env.componentize_js_script) {
            Some(script) => seq![script] + args,
            None => args,
        },
        directory: Some(r.project_dir),
        not_started: "failed to run ComponentizeJS"@,
        failed: "ComponentizeJS failed: "@,
    }
}

/// The plan of a build.
pub open spec fn js_plan(
    language: Language,
    r: RequestView,
    env: ToolEnvironment,
    facts: BuildFacts,
    toolchain: ToolchainView,
    fingerprint: Seq<char>,
) -> Result<RunView, ErrorView> {
    match js_checked(language, r, env, facts) {
        Err(e) => Err(e),
        Ok((wit, source)) => {
            let generated = builder::below_pit(r.project_dir, "generated"@);
            let build_dir = builder::below_pit(r.project_dir, "build"@);
            let name = builder::artifact_name(r.project_dir, "javascript-component"@);
            let artifact_path = paths::join_path(build_dir, name + ".wasm"@);
            let compiled = language == Language::TypeScript;
            let js_source = if compiled {
                paths::join_path(generated, "main.js"@)
            } else {
                source
            };
            Ok(
                RunView {
                    steps: seq![
                        BuildStepView::CreateDirectory(generated),
                        BuildStepView::CreateDirectory(build_dir),
                    ] + (if compiled {
                        seq![BuildStepView::Run(tsc_command(r, env, facts, source))]
                    } else {
                        Seq::empty()
                    }) + seq![
                        BuildStepView::Run(
                            componentize_command(r, env, js_source, wit, artifact_path),
                        ),
                        BuildStepView::Collect {
                            path: artifact_path,
                            complaint: "ComponentizeJS produced a core module, expected a Component"@,
                        },
                    ],
                    draft: DraftView {
                        name,
                        language: language::language_text(language),
                        target: "wasm32-wasip2"@,
                        profile: r.profile,
                        fingerprint,
                        world: ComponentWorld::WasiHttpProxy,
                        execution: r.execution_defaults,
                        artifact_path,
                        toolchain,
                    },
                    manifest: None,
                },
            )
        },
    }
}

/// The language's name with a text after it.
fn naming_language(language: Language, after: &str) -> (r: PitError)
    ensures
        r@ == error::error(ErrorKind::Request, language::language_text(language) + after@),
{
    naming_path(ErrorKind::Request, language.as_str(), after)
}

impl JsBuilder {
    /// The builder of JavaScript projects.
    pub fn javascript() -> (r: Self)
        ensures
            r.builds() == Language::JavaScript,
    {
        JsBuilder { language: Language::JavaScript }
    }

    /// The builder of TypeScript projects.
    pub fn typescript() -> (r: Self)
        ensures
            r.builds() == Language::TypeScript,
    {
        JsBuilder { language: Language::TypeScript }
    }

    /// The commands that ask runtime and componentizer for their versions.
    pub fn probe_toolchain(&self, env: &ToolEnvironment) -> (r: (ToolCommand, ToolCommand))
        ensures
            r.0@ == node_probe(*env),
            r.1@ == componentizer_probe(*env),
    {
        let program = choose_tool(&env.node, "node");
        let version: [&str; 1] = ["--version"];
        assert(tooling::args_view(version@) =~= seq!["--version"@]);
        let first = ask_version(program.as_str(), &version, "", " failed: ");
        let second = match &env.componentize_js_script {
            Some(script) => {
                let args: [&str; 2] = [script.as_str(), "--version"];
                assert(tooling::args_view(args@) =~= seq![script@, "--version"@]);
                ask_version(program.as_str(), &args, "", " failed: ")
            },
            None => ask_version("componentize-js", &version, "", " failed: "),
        };
        (first, second)
    }

    /// What the componentizer says of itself.
    pub fn componentizer_version(&self, env: &ToolEnvironment, reply: &Option<ToolOutput>) -> (r: Result<
        String,
        PitError,
    >)
        ensures
            error::outcome(r) == componentizer_says(*env, tooling::reply_view(*reply)),
    {
        let (_, command) = self.probe_toolchain(env);
        match command.outcome(reply) {
            Ok(t) => Ok(t),
            Err(e) => if env.componentize_js_script.is_some() {
                Ok("ComponentizeJS 0.22.0".to_owned())
            } else {
                Err(e)
            },
        }
    }

    /// The toolchain, from what its tools say of themselves.
    pub fn toolchain_for(&self, request: &BuildRequest, node_says: &str, componentizer_says: &str) -> (r: ToolchainInfo)
        ensures
            r@ == js_toolchain(request@.abi, node_says@, componentizer_says@),
    {
        ToolchainInfo {
            name: "componentize-js".to_owned(),
            version: first_line_or(componentizer_says, "componentize-js"),
            compiler: Some(first_line_or(node_says, "node")),
            componentizer: Some(first_line_or(componentizer_says, "componentize-js")),
            target: choose_target(&request.abi),
        }
    }

    /// The fingerprint of a build. `files` are those that a walk for JavaScript takes.
    pub fn fingerprint(
        &self,
        request: &BuildRequest,
        toolchain: &ToolchainInfo,
        files: Vec<SourceFile>,
    ) -> (r: String)
        ensures
            r@ == fingerprint::build_fingerprint(
                js_settings(self.builds(), request@, toolchain@.version),
                fingerprint::files_view(files@),
            ),
            digest::is_digest_text(r@),
    {
        let mut settings: Vec<&str> = Vec::new();
        settings.push(BUILDER_CONTRACT);
        settings.push(self.language.as_str());
        settings.push(request.abi.as_str());
        settings.push(request.profile.as_str());
        settings.push(toolchain.version.as_str());
        settings.push(WASI_HTTP_PROXY_WORLD);
        assert(settings@.map_values(|v: &str| v@) =~= js_settings(
            self.builds(),
            request@,
            toolchain@.version,
        ));
        hash_build(&settings, files)
    }

    /// Checks a request: the WIT files and the source that a build would use.
    pub fn check(&self, request: &BuildRequest, env: &ToolEnvironment, facts: &BuildFacts) -> (r: Result<
        (String, String),
        PitError,
    >)
        ensures
            error::outcome(r) == js_checked(self.builds(), request@, *env, *facts),
    {
        if !text_eq(request.abi.as_str(), "wasi-preview2") {
            return Err(
                naming_language(
                    self.language,
                    " builder targets wasi-preview2 Components only",
                ),
            );
        }
        if choose_world(request.world) != ComponentWorld::WasiHttpProxy {
            return Err(
                naming_language(self.language, " builder supports wasi:http/proxy only"),
            );
        }
        let wit = if facts.listing.has_directory("wit") {
            path_join(request.project_dir.as_str(), "wit")
        } else {
            match &env.http_wit {
                Some(path) if facts.http_wit_exists => path.clone(),
                _ => {
                    return Err(
                        PitError::fixed(
                            ErrorKind::Request,
                            "JavaScript builder needs project/wit or PITFAST_HTTP_WIT",
                        ),
                    );
                },
            }
        };
        let file = match self.language {
            Language::TypeScript => "main.ts",
            _ => "main.js",
        };
        let source = path_join(request.project_dir.as_str(), file);
        if !facts.listing.has_file(file) {
            let mut t = " project must contain ".to_owned();
            t.append(source.as_str());
            let ghost name = language::language_text(self.language);
            assert(name + (" project must contain "@ + source@) =~= name + " project must contain "@
                + source@);
            return Err(naming_language(self.language, t.as_str()));
        }
        Ok((wit, source))
    }

    /// The build of a project.
    pub fn build(
        &self,
        request: &BuildRequest,
        env: &ToolEnvironment,
        facts: &BuildFacts,
        toolchain: ToolchainInfo,
        fingerprint: &str,
    ) -> (r: Result<BuildRun, PitError>)
        ensures
            error::outcome(r) == js_plan(
                self.builds(),
                request@,
                *env,
                *facts,
                toolchain@,
                fingerprint@,
            ),
    {
        let (wit, source) = match self.check(request, env, facts) {
            Ok(found) => found,
            Err(e) => {
                return Err(e);
            },
        };
        let project_dir = request.project_dir.as_str();
        let generated = pit_directory(project_dir, "generated");
        let build_dir = pit_directory(project_dir, "build");
        let name = name_artifact(project_dir, "javascript-component");
        let artifact_path = path_join(build_dir.as_str(), wasm_file(name.as_str()).as_str());
        let compiled = self.language == Language::TypeScript;
        let mut steps: Vec<BuildStep> = Vec::new();
        steps.push(BuildStep::CreateDirectory(generated.clone()));
        steps.push(BuildStep::CreateDirectory(build_dir));
        let js_source = if compiled {
            let first: [&str; 10] = [
                source.as_str(),
                "--target",
                "ES2022",
                "--module",
                "ES2022",
                "--moduleResolution",
                "node",
                "--lib",
                "ESNext,DOM",
                "--skipLibCheck",
            ];
            let mut args = own_args(&first);
            assert(text::texts(args@) =~= seq![
                source@,
                "--target"@,
                "ES2022"@,
                "--module"@,
                "ES2022"@,
                "--moduleResolution"@,
                "node"@,
                "--lib"@,
                "ESNext,DOM"@,
                "--skipLibCheck"@,
            ]);
            if facts.listing.has_file("wasi-http.d.ts") {
                args.push(path_join(project_dir, "wasi-http.d.ts"));
            }
            args.push("--outDir".to_owned());
            args.push(generated.clone());
            let tsc = ToolCommand {
                program: choose_tool(&env.tsc, "tsc"),
                args,
                directory: None,
                not_started: "failed to run TypeScript compiler".to_owned(),
                failed: "TypeScript compilation failed: ".to_owned(),
            };
            assert(tsc@ =~= tsc_command(request@, *env, *facts, source@)) by {
                assert(tsc@.args =~= tsc_command(request@, *env, *facts, source@).args);
            }
            steps.push(BuildStep::Run(tsc));
            path_join(generated.as_str(), "main.js")
        } else {
            source
        };
        let mut args: Vec<String> = Vec::new();
        if let Some(script) = &env.componentize_js_script {
            args.push(script.clone());
        }
        args.push(js_source.clone());
        args.push("--wit".to_owned());
        args.push(wit.clone());
        args.push("--world-name".to_owned());
        args.push("proxy".to_owned());
        args.push("--out".to_owned());
        args.push(artifact_path.clone());
        let program = if env.componentize_js_script.is_some() {
            choose_tool(&env.node, "node")
        } else {
            "componentize-js".to_owned()
        };
        let command = ToolCommand {
            program,
            args,
            directory: Some(request.project_dir.clone()),
            not_started: "failed to run ComponentizeJS".to_owned(),
            failed: "ComponentizeJS failed: ".to_owned(),
        };
        assert(command@ =~= componentize_command(
            request@,
            *env,
            js_source@,
            wit@,
            artifact_path@,
        )) by {
            assert(command@.args =~= componentize_command(
                request@,
                *env,
                js_source@,
                wit@,
                artifact_path@,
            ).args);
        }
        steps.push(BuildStep::Run(command));
        steps.push(
            BuildStep::Collect {
                path: artifact_path.clone(),
                complaint: "ComponentizeJS produced a core module, expected a Component".to_owned(),
            },
        );
        let draft = ManifestDraft {
            name,
            language: self.language.as_str().to_owned(),
            target: "wasm32-wasip2".to_owned(),
            profile: request.profile,
            fingerprint: fingerprint.to_owned(),
            world: ComponentWorld::WasiHttpProxy,
            execution: request.execution_defaults,
            artifact_path,
            toolchain,
        };
        assert(builder::build_steps_view(steps@) =~= js_plan(
            self.builds(),
            request@,
            *env,
            *facts,
            toolchain@,
            fingerprint@,
        )->Ok_0.steps);
        Ok(BuildRun::start(steps, draft))
    }
}

} // verus!
