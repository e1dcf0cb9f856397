//! The Python builder, which uses componentize-py. The interpreter is embedded
//! in the component; no host interpreter runs an application.

use crate::artifact;
use crate::artifact::{ComponentWorld, WASI_HTTP_PROXY_WORLD};
use crate::builder;
use crate::builder::{
    choose_target, choose_world, name_artifact, pit_directory, wasm_file, BuildFacts, BuildRun,
    BuildStep, BuildStepView, DraftView, LanguageBuilder, ManifestDraft, RunView,
};
use crate::digest;
use crate::error;
use crate::error::{ErrorKind, ErrorView, PitError};
use crate::fingerprint;
use crate::fingerprint::{hash_build, SourceFile};
use crate::language::Language;
use crate::paths;
use crate::paths::path_join;
use crate::request::{BuildRequest, Detection, RequestView, ToolchainInfo, ToolchainView};
use crate::text;
use crate::text::{first_line_or, text_eq};
use crate::tooling;
use crate::tooling::{
    ask_version, choose_tool, own_args, CommandView, ToolCommand, ToolEnvironment,
};
use crate::walk;
use crate::walk::{DirectoryListing, EntryKind};
use vstd::prelude::*;

verus! {

/// What identifies the way in which this builder builds.
pub const BUILDER_CONTRACT: &'static str = "pit-builder-python-v1";

/// Builds Python projects.
#[derive(Debug, Clone, Copy)]
pub struct PythonBuilder;

impl Default for PythonBuilder {
    fn default() -> (r: Self)
        ensures
            r.builds() == Language::Python,
    {
        PythonBuilder
    }
}

impl LanguageBuilder for PythonBuilder {
    open spec fn builds(&self) -> Language {
        Language::Python
    }

    open spec fn takes(&self, listing: Seq<(Seq<char>, EntryKind)>) -> Detection {
        if walk::lists_file(listing, "pyproject.toml"@) || walk::lists_file(listing, "app.py"@) {
            Detection::Yes
        } else {
            Detection::No
        }
    }

    fn language(&self) -> (r: Language) {
        Language::Python
    }

    fn detect(&self, listing: &DirectoryListing) -> (r: Detection) {
        if listing.has_file("pyproject.toml") || listing.has_file("app.py") {
            Detection::Yes
        } else {
            Detection::No
        }
    }
}

/// The componentizer.
pub open spec fn componentizer(env: ToolEnvironment) -> Seq<char> {
    tooling::tool_or(text::option_view(env.componentize_py), "componentize-py"@)
}

/// The command that asks the componentizer for its version.
pub open spec fn componentizer_probe(env: ToolEnvironment) -> CommandView {
    tooling::version_command(componentizer(env), seq!["--version"@], ""@, " failed: "@)
}

/// The command that asks the interpreter for its version.
pub open spec fn python_probe(env: ToolEnvironment) -> CommandView {
    tooling::version_command(
        tooling::tool_or(text::option_view(env.python), "python3"@),
        seq!["--version"@],
        ""@,
        " failed: "@,
    )
}

/// The toolchain, from what its tools say of themselves.
pub open spec fn python_toolchain(
    abi: Seq<char>,
    componentizer_says: Seq<char>,
    python_says: Seq<char>,
) -> ToolchainView {
    let version = text::first_line(componentizer_says, "componentize-py"@);
    ToolchainView {
        name: "componentize-py"@,
        version,
        compiler: Some(text::first_line(python_says, "python"@)),
        componentizer: Some(version),
        target: builder::target_or_default(abi),
    }
}

/// What identifies a build beside its files.
pub open spec fn python_settings(r: RequestView, version: Seq<char>) -> Seq<Seq<char>> {
    seq![
        BUILDER_CONTRACT@,
        "python"@,
        r.abi,
        artifact::profile_text(r.profile),
        version,
        WASI_HTTP_PROXY_WORLD@,
    ]
}

/// The outcome of checking a request: the WIT files.
pub open spec fn python_checked(r: RequestView, facts: BuildFacts) -> Result<
    Seq<char>,
    ErrorView,
> {
    if r.abi != "wasi-preview2"@ {
        Err(
            error::error(
                ErrorKind::Request,
                "Python builder targets wasi-preview2 Components only"@,
            ),
        )
    } else if builder::world_or_http(r.world) != ComponentWorld::WasiHttpProxy {
        Err(error::error(ErrorKind::Request, "Python builder supports wasi:http/proxy only"@))
    } else if !walk::lists_directory(facts.listing@, "wit"@) {
        Err(
            error::error(
                ErrorKind::Request,
                "Python Component projects need a wit/ directory"@,
            ),
        )
    } else {
        Ok(paths::join_path(r.project_dir, "wit"@))
    }
}

/// The command that makes the component.
pub open spec fn componentize_command(
    r: RequestView,
    env: ToolEnvironment,
    wit: Seq<char>,
    artifact_path: Seq<char>,
) -> CommandView {
    CommandView {
        program: componentizer(env),
        args: seq![
            "-d"@,
            wit,
            "-w"@,
            "wasi:http/proxy@0.2.0"@,
            "componentize"@,
            "app"@,
            "-p"@,
            r.project_dir,
            "-o"@,
            artifact_path,
        ],
        directory: Some(r.project_dir),
        not_started: "failed to run componentize-py"@,
        failed: "componentize-py failed: "@,
    }
}

/// The plan of a build.
pub open spec fn python_plan(
    r: RequestView,
    env: ToolEnvironment,
    facts: BuildFacts,
    toolchain: ToolchainView,
    fingerprint: Seq<char>,
) -> Result<RunView, ErrorView> {
    match python_checked(r, facts) {
        Err(e) => Err(e),
        Ok(wit) => {
            let build_dir = builder::below_pit(r.project_dir, "build"@);
            let name = builder::artifact_name(r.project_dir, "python-component"@);
            let artifact_path = paths::join_path(build_dir, name + ".wasm"@);
            Ok(
                RunView {
                    steps: seq![
                        BuildStepView::CreateDirectory(build_dir),
                        BuildStepView::Run(componentize_command(r, env, wit, artifact_path)),
                        BuildStepView::Collect {
                            path: artifact_path,
                            complaint: "componentize-py produced a core module, expected a Component"@,
                        },
                    ],
                    draft: DraftView {
                        name,
                        language: "python"@,
                        target: "wasm32-wasip2"@,
                        profile: r.profile,
                        fingerprint,
                        world: ComponentWorld::WasiHttpProxy,
                        execution: r.execution_defaults,
                        artifact_path,
                        toolchain,
                    },
                    manifest: None,
                },
            )
        },
    }
}

impl PythonBuilder {
    /// The builder.
    pub fn new() -> (r: Self)
        ensures
            r.builds() == Language::Python,
    {
        PythonBuilder
    }

    /// The commands that ask componentizer and interpreter for their versions.
    pub fn probe_toolchain(&self, env: &ToolEnvironment) -> (r: (ToolCommand, ToolCommand))
        ensures
            r.0@ == componentizer_probe(*env),
            r.1@ == python_probe(*env),
    {
        let tool = choose_tool(&env.componentize_py, "componentize-py");
        let python = choose_tool(&env.python, "python3");
        let version: [&str; 1] = ["--version"];
        assert(tooling::args_view(version@) =~= seq!["--version"@]);
        (
            ask_version(tool.as_str(), &version, "", " failed: "),
            ask_version(python.as_str(), &version, "", " failed: "),
        )
    }

    /// The toolchain, from what its tools say of themselves.
    pub fn toolchain_for(
        &self,
        request: &BuildRequest,
        componentizer_says: &str,
        python_says: &str,
    ) -> (r: ToolchainInfo)
        ensures
            r@ == python_toolchain(request@.abi, componentizer_says@, python_says@),
    {
        ToolchainInfo {
            name: "componentize-py".to_owned(),
            version: first_line_or(componentizer_says, "componentize-py"),
            compiler: Some(first_line_or(python_says, "python")),
            componentizer: Some(first_line_or(componentizer_says, "componentize-py")),
            target: choose_target(&request.abi),
        }
    }

    /// The fingerprint of a build. `files` are those that a walk for Python takes.
    pub fn fingerprint(
        &self,
        request: &BuildRequest,
        toolchain: &ToolchainInfo,
        files: Vec<SourceFile>,
    ) -> (r: String)
        ensures
            r@ == fingerprint::build_fingerprint(
                python_settings(request@, toolchain@.version),
                fingerprint::files_view(files@),
            ),
            digest::is_digest_text(r@),
    {
        let mut settings: Vec<&str> = Vec::new();
        settings.push(BUILDER_CONTRACT);
        settings.push("python");
        settings.push(request.abi.as_str());
        settings.push(request.profile.as_str());
        settings.push(toolchain.version.as_str());
        settings.push(WASI_HTTP_PROXY_WORLD);
        assert(settings@.map_values(|v: &str| v@) =~= python_settings(
            request@,
            toolchain@.version,
        ));
        hash_build(&settings, files)
    }

    /// Checks a request: the WIT files that a build would use.
    pub fn check(&self, request: &BuildRequest, facts: &BuildFacts) -> (r: Result<String, PitError>)
        ensures
            error::outcome(r) == python_checked(request@, *facts),
    {
        if !text_eq(request.abi.as_str(), "wasi-preview2") {
            return Err(
                PitError::fixed(
                    ErrorKind::Request,
                    "Python builder targets wasi-preview2 Components only",
                ),
            );
        }
        if choose_world(request.world) != ComponentWorld::WasiHttpProxy {
            return Err(
                PitError::fixed(
                    ErrorKind::Request,
                    "Python builder supports wasi:http/proxy only",
                ),
            );
        }
        if !facts.listing.has_directory("wit") {
            return Err(
                PitError::fixed(
                    ErrorKind::Request,
                    "Python Component projects need a wit/ directory",
                ),
            );
        }
        Ok(path_join(request.project_dir.as_str(), "wit"))
    }

    /// The build of a project.
    pub fn build(
        &self,
        request: &BuildRequest,
        env: &ToolEnvironment,
        facts: &BuildFacts,
        toolchain: ToolchainInfo,
        fingerprint: &str,
    ) -> (r: Result<BuildRun, PitError>)
        ensures
            error::outcome(r) == python_plan(
                request@,
                *env,
                *facts,
                toolchain@,
                fingerprint@,
            ),
    {
        let wit = match self.check(request, facts) {
            Ok(wit) => wit,
            Err(e) => {
                return Err(e);
            },
        };
        let project_dir = request.project_dir.as_str();
        let build_dir = pit_directory(project_dir, "build");
        let name = name_artifact(project_dir, "python-component");
        let artifact_path = path_join(build_dir.as_str(), wasm_file(name.as_str()).as_str());
        let args: [&str; 10] = [
            "-d",
            wit.as_str(),
            "-w",
            "wasi:http/proxy@0.2.0",
            "componentize",
            "app",
            "-p",
            project_dir,
            "-o",
            artifact_path.as_str(),
        ];
        let command = ToolCommand {
            program: choose_tool(&env.componentize_py, "componentize-py"),
            args: own_args(&args),
            directory: Some(request.project_dir.clone()),
            not_started: "failed to run componentize-py".to_owned(),
            failed: "componentize-py failed: ".to_owned(),
        };
        assert(command@ =~= componentize_command(request@, *env, wit@, artifact_path@)) by {
            assert(command@.args =~= componentize_command(
                request@,
                *env,
                wit@,
                artifact_path@,
            ).args);
        }
        let mut steps: Vec<BuildStep> = Vec::new();
        steps.push(BuildStep::CreateDirectory(build_dir));
        steps.push(BuildStep::Run(command));
        steps.push(
            BuildStep::Collect {
                path: artifact_path.clone(),
                complaint: "componentize-py produced a core module, expected a Component".to_owned(),
            },
        );
        let draft = ManifestDraft {
            name,
            language: "python".to_owned(),
            target: "wasm32-wasip2".to_owned(),
            profile: request.profile,
            fingerprint: fingerprint.to_owned(),
            world: ComponentWorld::WasiHttpProxy,
            execution: request.execution_defaults,
            artifact_path,
            toolchain,
        };
        assert(builder::build_steps_view(steps@) =~= python_plan(
            request@,
            *env,
            *facts,
            toolchain@,
            fingerprint@,
        )->Ok_0.steps);
        Ok(BuildRun::start(steps, draft))
    }
}

} // verus!
