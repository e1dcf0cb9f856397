//! Builders of languages for which there is no toolchain yet that emits
//! standalone WASI components. They probe a compiler and say what is missing;
//! they never emit anything else in place of a component.

use crate::digest;
use crate::digest::sha256_hex;
use crate::error;
use crate::error::{naming_path, ErrorKind, ErrorView, PitError};
use crate::fingerprint;
use crate::fingerprint::{append_bytes, append_field};
use crate::builder::LanguageBuilder;
use crate::language;
use crate::language::Language;
use crate::request::{BuildOutput, Detection, ToolchainInfo};
use crate::text;
use crate::text::{first_line_or, trim};
use crate::tooling;
use crate::tooling::{
    choose_tool, from_lossy, own_args, CommandView, ToolCommand, ToolEnvironment, ToolOutput,
    ToolView,
};
use crate::walk;
use crate::walk::{DirectoryListing, EntryKind};
use vstd::prelude::*;
use vstd::utf8;

verus! {

/// What stands against C#.
pub const CSHARP_BLOCKER: &'static str = "the installed .NET workload exposes browser-wasm only; no maintained .NET wasm32-wasi/component backend is available to produce a standalone wasi:http/proxy Component";

/// What stands against Java.
pub const JAVA_BLOCKER: &'static str = "no installed or validated Java-to-wasm32-wasi Component toolchain was found; a JVM/browser WASM output would not satisfy the standalone PitFast Component contract";

/// Probes C#, or Java.
#[derive(Debug, Clone, Copy)]
pub struct ExperimentalBuilder {
    language: Language,
}

/// Whether a listing has what marks a project of the language.
pub open spec fn has_marker(language: Language, listing: Seq<(Seq<char>, EntryKind)>) -> bool {
    match language {
        Language::CSharp => walk::lists_suffix(listing, ".csproj"@) || walk::lists_suffix(
            listing,
            ".sln"@,
        ) || walk::lists_suffix(listing, ".slnx"@),
        Language::Java => walk::lists_file(listing, "pom.xml"@) || walk::lists_file(
            listing,
            "build.gradle"@,
        ) || walk::lists_file(listing, "build.gradle.kts"@) || walk::lists_suffix(
            listing,
            ".java"@,
        ),
        _ => false,
    }
}

impl LanguageBuilder for ExperimentalBuilder {
    closed spec fn builds(&self) -> Language {
        self.language
    }

    open spec fn takes(&self, listing: Seq<(Seq<char>, EntryKind)>) -> Detection {
        if has_marker(self.builds(), listing) {
            Detection::Yes
        } else {
            Detection::No
        }
    }

    fn language(&self) -> (r: Language) {
        self.language
    }

    fn detect(&self, listing: &DirectoryListing) -> (r: Detection) {
        let marked = match self.language {
            Language::CSharp => listing.has_suffix(".csproj") || listing.has_suffix(".sln")
                || listing.has_suffix(".slnx"),
            Language::Java => listing.has_file("pom.xml") || listing.has_file("build.gradle")
                || listing.has_file("build.gradle.kts") || listing.has_suffix(".java"),
            _ => false,
        };
        if marked {
            Detection::Yes
        } else {
            Detection::No
        }
    }
}

/// What stands against a language.
pub open spec fn blocker_text(language: Language) -> Seq<char> {
    if language == Language::CSharp {
        CSHARP_BLOCKER@
    } else {
        JAVA_BLOCKER@
    }
}

/// The command that asks the compiler for its version.
pub open spec fn compiler_probe(language: Language, env: ToolEnvironment) -> CommandView {
    CommandView {
        program: if language == Language::CSharp {
            tooling::tool_or(text::option_view(env.dotnet), "dotnet"@)
        } else {
            tooling::tool_or(text::option_view(env.javac), "javac"@)
        },
        args: seq![
            if language == Language::CSharp {
                "--version"@
            } else {
                "-version"@
            },
        ],
        directory: None,
        not_started: language::language_text(language) + " compiler is not installed"@,
        failed: language::language_text(language) + " compiler probe failed: "@,
    }
}

/// What the compiler says of itself: the first line that it prints.
pub open spec fn compiler_says(language: Language, reply: Option<ToolView>) -> Result<
    Seq<char>,
    ErrorView,
> {
    match reply {
        None => Err(
            error::error(
                ErrorKind::Tool,
                language::language_text(language) + " compiler is not installed"@,
            ),
        ),
        Some(o) => if !o.success {
            Err(
                error::error(
                    ErrorKind::Tool,
                    language::language_text(language) + " compiler probe failed: "@
                        + text::trimmed(tooling::lossy_text(o.stderr)),
                ),
            )
        } else {
            Ok(
                text::first_line(
                    tooling::lossy_text(
                        if o.stdout.len() == 0 {
                            o.stderr
                        } else {
                            o.stdout
                        },
                    ),
                    "unknown"@,
                ),
            )
        },
    }
}

/// What a probe of the toolchain always ends with.
pub open spec fn toolchain_error(language: Language, reply: Option<ToolView>) -> ErrorView {
    match compiler_says(language, reply) {
        Err(e) => e,
        Ok(compiler) => error::error(
            ErrorKind::Tool,
            language::language_text(language) + " compiler detected ("@ + compiler
                + "), but capability is blocked: "@ + blocker_text(language),
        ),
    }
}

/// What identifies a probe.
pub open spec fn probe_digest(language: Language, compiler: Seq<char>) -> Seq<char> {
    digest::sha256_text(
        fingerprint::field_bytes(language::language_text(language)) + utf8::encode_utf8(compiler),
    )
}

/// What a fingerprint always ends with.
pub open spec fn fingerprint_error(language: Language, reply: Option<ToolView>) -> ErrorView {
    match compiler_says(language, reply) {
        Err(e) => e,
        Ok(compiler) => error::error(
            ErrorKind::Tool,
            language::language_text(language)
                + " builder is experimental and cannot emit a PitFast Component: "@ + blocker_text(
                language,
            ) + " (probe fingerprint "@ + probe_digest(language, compiler) + ")"@,
        ),
    }
}

/// What a build always ends with.
pub open spec fn blocked_error(language: Language) -> ErrorView {
    error::error(
        ErrorKind::Tool,
        language::language_text(language) + " builder is blocked: "@ + blocker_text(language),
    )
}

impl ExperimentalBuilder {
    /// The languages are C# and Java.
    #[verifier::type_invariant]
    spec fn is_experimental(self) -> bool {
        self.language == Language::CSharp || self.language == Language::Java
    }

    /// The builder that probes C#.
    pub fn csharp() -> (r: Self)
        ensures
            r.builds() == Language::CSharp,
    {
        ExperimentalBuilder { language: Language::CSharp }
    }

    /// The builder that probes Java.
    pub fn java() -> (r: Self)
        ensures
            r.builds() == Language::Java,
    {
        ExperimentalBuilder { language: Language::Java }
    }

    /// What stands against the language.
    pub fn blocker(&self) -> (r: &'static str)
        ensures
            r@ == blocker_text(self.builds()),
    {
        match self.language {
            Language::CSharp => CSHARP_BLOCKER,
            _ => JAVA_BLOCKER,
        }
    }

    /// The command that asks the compiler for its version.
    pub fn probe_command(&self, env: &ToolEnvironment) -> (r: ToolCommand)
        ensures
            r@ == compiler_probe(self.builds(), *env),
    {
        let mut not_started = self.language.as_str().to_owned();
        not_started.append(" compiler is not installed");
        let mut failed = self.language.as_str().to_owned();
        failed.append(" compiler probe failed: ");
        let (program, argument) = match self.language {
            Language::CSharp => (choose_tool(&env.dotnet, "dotnet"), "--version"),
            _ => (choose_tool(&env.javac, "javac"), "-version"),
        };
        let args: [&str; 1] = [argument];
        assert(tooling::args_view(args@) =~= seq![argument@]);
        ToolCommand { program, args: own_args(&args), directory: None, not_started, failed }
    }

    /// What the compiler says of itself.
    pub fn probe_compiler(&self, reply: &Option<ToolOutput>) -> (r: Result<String, PitError>)
        ensures
            error::outcome(r) == compiler_says(self.builds(), tooling::reply_view(*reply)),
    {
        match reply {
            None => Err(
                naming_path(
                    ErrorKind::Tool,
                    self.language.as_str(),
                    " compiler is not installed",
                ),
            ),
            Some(o) => if !o.success {
                let mut t = self.language.as_str().to_owned();
                t.append(" compiler probe failed: ");
                t.append(trim(from_lossy(o.stderr.as_slice()).as_str()).as_str());
                Err(PitError::new(ErrorKind::Tool, t))
            } else {
                let printed = if o.stdout.len() == 0 {
                    from_lossy(o.stderr.as_slice())
                } else {
                    from_lossy(o.stdout.as_slice())
                };
                Ok(first_line_or(printed.as_str(), "unknown"))
            },
        }
    }

    /// Never succeeds: there is no toolchain.
    pub fn probe_toolchain(&self, reply: &Option<ToolOutput>) -> (r: Result<
        ToolchainInfo,
        PitError,
    >)
        ensures
            r matches Err(e) && e@ == toolchain_error(self.builds(), tooling::reply_view(*reply)),
    {
        let compiler = match self.probe_compiler(reply) {
            Ok(compiler) => compiler,
            Err(e) => {
                return Err(e);
            },
        };
        let mut t = self.language.as_str().to_owned();
        t.append(" compiler detected (");
        t.append(compiler.as_str());
        t.append("), but capability is blocked: ");
        t.append(self.blocker());
        Err(PitError::new(ErrorKind::Tool, t))
    }

    /// Never succeeds: what cannot be built has no fingerprint.
    pub fn fingerprint(&self, reply: &Option<ToolOutput>) -> (r: Result<String, PitError>)
        ensures
            r matches Err(e) && e@ == fingerprint_error(
                self.builds(),
                tooling::reply_view(*reply),
            ),
    {
        let compiler = match self.probe_compiler(reply) {
            Ok(compiler) => compiler,
            Err(e) => {
                return Err(e);
            },
        };
        let mut material: Vec<u8> = Vec::new();
        append_field(&mut material, self.language.as_str());
        append_bytes(&mut material, compiler.as_str().as_bytes());
        assert(material@ =~= fingerprint::field_bytes(language::language_text(self.builds()))
            + utf8::encode_utf8(compiler@));
        let mut t = self.language.as_str().to_owned();
        t.append(" builder is experimental and cannot emit a PitFast Component: ");
        t.append(self.blocker());
        t.append(" (probe fingerprint ");
        t.append(sha256_hex(material.as_slice()).as_str());
        t.append(")");
        Err(PitError::new(ErrorKind::Tool, t))
    }

    /// Never succeeds: the language is blocked.
    pub fn build(&self) -> (r: Result<BuildOutput, PitError>)
        ensures
            r matches Err(e) && e@ == blocked_error(self.builds()),
    {
        let mut t = self.language.as_str().to_owned();
        t.append(" builder is blocked: ");
        t.append(self.blocker());
        Err(PitError::new(ErrorKind::Tool, t))
    }
}

} // verus!
