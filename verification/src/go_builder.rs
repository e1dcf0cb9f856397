//! The Go builder, which uses the componentize-go tool.

use crate::artifact;
use crate::builder;
use crate::builder::{
    choose_target, choose_world, name_artifact, pit_directory, wasm_file, BuildRun, BuildStep,
    BuildStepView, DraftView, LanguageBuilder, ManifestDraft, RunView,
};
use crate::digest;
use crate::error;
use crate::error::{ErrorKind, ErrorView, PitError};
use crate::fingerprint;
use crate::fingerprint::{hash_portable, sort_files, SourceFile};
use crate::language::Language;
use crate::paths;
use crate::paths::path_join;
use crate::request::{BuildRequest, Detection, RequestView, ToolchainInfo, ToolchainView};
use crate::text;
use crate::text::{first_line_or, text_eq, to_decimal};
use crate::tooling;
use crate::tooling::{
    ask_version, choose_tool, own_args, CommandView, ToolCommand, ToolEnvironment,
};
use crate::walk;
use crate::walk::{DirectoryListing, EntryKind};
use vstd::prelude::*;

verus! {

/// What identifies the way in which this builder builds.
pub const BUILDER_CONTRACT: &'static str = "pit-builder-go-v1";

/// Builds Go projects.
#[derive(Debug, Clone, Copy)]
pub struct GoBuilder;

impl Default for GoBuilder {
    fn default() -> (r: Self)
        ensures
            r.builds() == Language::Go,
    {
        GoBuilder
    }
}

impl LanguageBuilder for GoBuilder {
    open spec fn builds(&self) -> Language {
        Language::Go
    }

    open spec fn takes(&self, listing: Seq<(Seq<char>, EntryKind)>) -> Detection {
        if walk::lists_file(listing, "go.mod"@) {
            Detection::Yes
        } else {
            Detection::No
        }
    }

    fn language(&self) -> (r: Language) {
        Language::Go
    }

    fn detect(&self, listing: &DirectoryListing) -> (r: Detection) {
        if listing.has_file("go.mod") {
            Detection::Yes
        } else {
            Detection::No
        }
    }
}

/// The componentizer.
pub open spec fn componentizer(env: ToolEnvironment) -> Seq<char> {
    tooling::tool_or(text::option_view(env.componentize_go), "componentize-go"@)
}

/// The Go compiler.
pub open spec fn compiler(env: ToolEnvironment) -> Seq<char> {
    tooling::tool_or(text::option_view(env.go), "go"@)
}

/// The command that asks the componentizer for its version.
pub open spec fn componentizer_probe(env: ToolEnvironment) -> CommandView {
    tooling::version_command(
        componentizer(env),
        seq!["--version"@],
        "; install the Go Component toolchain"@,
        " probe failed: "@,
    )
}

/// The command that asks the compiler for its version.
pub open spec fn compiler_probe(env: ToolEnvironment) -> CommandView {
    tooling::version_command(
        compiler(env),
        seq!["version"@],
        "; install the Go Component toolchain"@,
        " probe failed: "@,
    )
}

/// The toolchain, from what its tools say of themselves.
pub open spec fn go_toolchain(
    abi: Seq<char>,
    componentizer_says: Seq<char>,
    compiler_says: Seq<char>,
) -> ToolchainView {
    let version = text::first_line(componentizer_says, "componentize-go"@);
    ToolchainView {
        name: "componentize-go"@,
        version,
        compiler: Some(text::first_line(compiler_says, "go"@)),
        componentizer: Some(version),
        target: builder::target_or_default(abi),
    }
}

/// What identifies a build beside its files.
pub open spec fn go_settings(r: RequestView, version: Seq<char>) -> Seq<Seq<char>> {
    seq![
        BUILDER_CONTRACT@,
        "go"@,
        r.abi,
        artifact::profile_text(r.profile),
        version,
        artifact::world_text(builder::world_or_http(r.world)),
    ]
}

/// The command that generates bindings.
pub open spec fn bindings_command(r: RequestView, env: ToolEnvironment) -> CommandView {
    CommandView {
        program: componentizer(env),
        args: seq![
            "--world"@,
            artifact::world_text(builder::world_or_http(r.world)),
            "bindings"@,
            "--format"@,
        ],
        directory: Some(r.project_dir),
        not_started: "failed to generate Go Component bindings"@,
        failed: "componentize-go bindings failed: "@,
    }
}

/// The command that builds the component.
pub open spec fn component_command(r: RequestView, env: ToolEnvironment, staging: Seq<char>) -> CommandView {
    CommandView {
        program: componentizer(env),
        args: seq![
            "--world"@,
            artifact::world_text(builder::world_or_http(r.world)),
            "build"@,
            "--output"@,
            staging,
        ] + (match text::option_view(env.go) {
            Some(go) => seq!["--go"@, go],
            None => Seq::empty(),
        }),
        directory: Some(r.project_dir),
        not_started: "failed to run componentize-go"@,
        failed: "componentize-go failed: "@,
    }
}

/// Where the component is built before it takes its place.
pub open spec fn go_staging(r: RequestView, process: u32) -> Seq<char> {
    paths::join_path(
        builder::below_pit(r.project_dir, "tmp"@),
        builder::artifact_name(r.project_dir, "go-component"@) + "."@ + text::decimal(
            process as nat,
        ) + ".wasm"@,
    )
}

/// Whether the builder takes a request.
pub open spec fn go_checked(r: RequestView) -> Result<(), ErrorView> {
    if r.abi != "wasi-preview2"@ {
        Err(
            error::error(
                ErrorKind::Request,
                "Go Component builder currently targets wasi-preview2; use the Rust builder for P1"@,
            ),
        )
    } else {
        Ok(())
    }
}

/// The plan of a build.
pub open spec fn go_plan(
    r: RequestView,
    env: ToolEnvironment,
    toolchain: ToolchainView,
    fingerprint: Seq<char>,
    process: u32,
) -> Result<RunView, ErrorView> {
    if let Err(e) = go_checked(r) {
        Err(e)
    } else {
        let name = builder::artifact_name(r.project_dir, "go-component"@);
        let staging = go_staging(r, process);
        let artifact_path = paths::join_path(builder::below_pit(r.project_dir, "build"@), name + ".wasm"@);
        Ok(
            RunView {
                steps: seq![
                    BuildStepView::CreateDirectory(builder::below_pit(r.project_dir, "tmp"@)),
                    BuildStepView::CreateDirectory(builder::below_pit(r.project_dir, "build"@)),
                    BuildStepView::Run(bindings_command(r, env)),
                    BuildStepView::Run(component_command(r, env, staging)),
                    BuildStepView::Collect {
                        path: staging,
                        complaint: "componentize-go produced a core module, expected a Component"@,
                    },
                    BuildStepView::Rename { from: staging, to: artifact_path },
                ],
                draft: DraftView {
                    name,
                    language: "go"@,
                    target: builder::target_or_default(r.abi),
                    profile: r.profile,
                    fingerprint,
                    world: builder::world_or_http(r.world),
                    execution: r.execution_defaults,
                    artifact_path,
                    toolchain,
                },
                manifest: None,
            },
        )
    }
}

impl GoBuilder {
    /// The builder.
    pub fn new() -> (r: Self)
        ensures
            r.builds() == Language::Go,
    {
        GoBuilder
    }

    /// The commands that ask componentizer and compiler for their versions.
    pub fn probe_toolchain(&self, env: &ToolEnvironment) -> (r: (ToolCommand, ToolCommand))
        ensures
            r.0@ == componentizer_probe(*env),
            r.1@ == compiler_probe(*env),
    {
        let tool = choose_tool(&env.componentize_go, "componentize-go");
        let go = choose_tool(&env.go, "go");
        let version: [&str; 1] = ["--version"];
        let plain: [&str; 1] = ["version"];
        assert(tooling::args_view(version@) =~= seq!["--version"@]);
        assert(tooling::args_view(plain@) =~= seq!["version"@]);
        (
            ask_version(
                tool.as_str(),
                &version,
                "; install the Go Component toolchain",
                " probe failed: ",
            ),
            ask_version(
                go.as_str(),
                &plain,
                "; install the Go Component toolchain",
                " probe failed: ",
            ),
        )
    }

    /// The toolchain, from what its tools say of themselves.
    pub fn toolchain_for(
        &self,
        request: &BuildRequest,
        componentizer_says: &str,
        compiler_says: &str,
    ) -> (r: ToolchainInfo)
        ensures
            r@ == go_toolchain(request@.abi, componentizer_says@, compiler_says@),
    {
        ToolchainInfo {
            name: "componentize-go".to_owned(),
            version: first_line_or(componentizer_says, "componentize-go"),
            compiler: Some(first_line_or(compiler_says, "go")),
            componentizer: Some(first_line_or(componentizer_says, "componentize-go")),
            target: choose_target(&request.abi),
        }
    }

    /// The fingerprint of a build. `files` are those that a walk for Go takes.
    pub fn fingerprint(
        &self,
        request: &BuildRequest,
        toolchain: &ToolchainInfo,
        files: Vec<SourceFile>,
    ) -> (r: String)
        ensures
            r@ == fingerprint::portable_fingerprint(
                go_settings(request@, toolchain@.version),
                fingerprint::sorted_files(fingerprint::files_view(files@)),
            ),
            digest::is_digest_text(r@),
    {
        let world = choose_world(request.world);
        let mut settings: Vec<&str> = Vec::new();
        settings.push(BUILDER_CONTRACT);
        settings.push("go");
        settings.push(request.abi.as_str());
        settings.push(request.profile.as_str());
        settings.push(toolchain.version.as_str());
        settings.push(world.as_str());
        assert(settings@.map_values(|v: &str| v@) =~= go_settings(request@, toolchain@.version));
        let sorted = sort_files(files);
        hash_portable(&settings, &sorted)
    }

    /// Checks a request.
    pub fn check(&self, request: &BuildRequest) -> (r: Result<(), PitError>)
        ensures
            error::outcome(r) == go_checked(request@),
    {
        if text_eq(request.abi.as_str(), "wasi-preview2") {
            Ok(())
        } else {
            Err(
                PitError::fixed(
                    ErrorKind::Request,
                    "Go Component builder currently targets wasi-preview2; use the Rust builder for P1",
                ),
            )
        }
    }

    /// The build of a project. `process` tells builds apart that run at one time.
    pub fn build(
        &self,
        request: &BuildRequest,
        env: &ToolEnvironment,
        toolchain: ToolchainInfo,
        fingerprint: &str,
        process: u32,
    ) -> (r: Result<BuildRun, PitError>)
        ensures
            error::outcome(r) == go_plan(
                request@,
                *env,
                toolchain@,
                fingerprint@,
                process,
            ),
    {
        if let Err(e) = self.check(request) {
            return Err(e);
        }
        let world = choose_world(request.world);
        let staging_dir = pit_directory(request.project_dir.as_str(), "tmp");
        let build_dir = pit_directory(request.project_dir.as_str(), "build");
        let name = name_artifact(request.project_dir.as_str(), "go-component");
        let mut staged = name.clone();
        staged.append(".");
        staged.append(to_decimal(process as u64).as_str());
        staged.append(".wasm");
        let staging = path_join(staging_dir.as_str(), staged.as_str());
        let artifact_path = path_join(build_dir.as_str(), wasm_file(name.as_str()).as_str());
        let tool = choose_tool(&env.componentize_go, "componentize-go");
        let binding_args: [&str; 4] = ["--world", world.as_str(), "bindings", "--format"];
        let bindings = ToolCommand {
            program: tool.clone(),
            args: own_args(&binding_args),
            directory: Some(request.project_dir.clone()),
            not_started: "failed to generate Go Component bindings".to_owned(),
            failed: "componentize-go bindings failed: ".to_owned(),
        };
        assert(bindings@ =~= bindings_command(request@, *env)) by {
            assert(bindings@.args =~= bindings_command(request@, *env).args);
        }
        let build_args: [&str; 5] = [
            "--world",
            world.as_str(),
            "build",
            "--output",
            staging.as_str(),
        ];
        let mut args = own_args(&build_args);
        assert(text::texts(args@) =~= seq![
            "--world"@,
            artifact::world_text(world),
            "build"@,
            "--output"@,
            staging@,
        ]);
        let ghost first = text::texts(args@);
        if let Some(go) = &env.go {
            args.push("--go".to_owned());
            args.push(go.clone());
        }
        let command = ToolCommand {
            program: tool,
            args,
            directory: Some(request.project_dir.clone()),
            not_started: "failed to run componentize-go".to_owned(),
            failed: "componentize-go failed: ".to_owned(),
        };
        assert(command@ =~= component_command(request@, *env, staging@)) by {
            assert(command@.args =~= component_command(request@, *env, staging@).args);
        }
        let mut steps: Vec<BuildStep> = Vec::new();
        steps.push(BuildStep::CreateDirectory(staging_dir));
        steps.push(BuildStep::CreateDirectory(build_dir));
        steps.push(BuildStep::Run(bindings));
        steps.push(BuildStep::Run(command));
        steps.push(
            BuildStep::Collect {
                path: staging.clone(),
                complaint: "componentize-go produced a core module, expected a Component".to_owned(),
            },
        );
        steps.push(BuildStep::Rename { from: staging, to: artifact_path.clone() });
        let draft = ManifestDraft {
            name,
            language: "go".to_owned(),
            target: choose_target(&request.abi),
            profile: request.profile,
            fingerprint: fingerprint.to_owned(),
            world,
            execution: request.execution_defaults,
            artifact_path,
            toolchain,
        };
        assert(builder::build_steps_view(steps@) =~= go_plan(
            request@,
            *env,
            toolchain@,
            fingerprint@,
            process,
        )->Ok_0.steps);
        Ok(BuildRun::start(steps, draft))
    }
}

} // verus!
