//! The Rust builder, which uses Cargo.

use crate::artifact;
use crate::artifact::BuildProfile;
use crate::builder;
use crate::builder::{borrow_contents, wasm_file, LanguageBuilder};
use crate::digest;
use crate::digest::sha256_hex;
use crate::error;
use crate::error::{naming_path, ErrorKind, ErrorView, PitError};
use crate::forms;
use crate::forms::{read_document, Form};
use crate::json;
use crate::json::{get_field, get_text, get_texts, JsonView};
use crate::language::Language;
use crate::paths;
use crate::paths::path_join;
use crate::request::{BuildRequest, Detection};
use crate::text;
use crate::text::{clone_text, join, lines, text_eq, trim};
use crate::tooling;
use crate::tooling::{
    compiler_output, from_lossy, own_args, CommandView, ToolCommand, ToolOutput, ToolView,
};
use crate::walk;
use crate::walk::{DirectoryListing, EntryKind};
use crate::wasm;
use crate::wasm::validate_wasm;
use vstd::prelude::*;

verus! {

/// The compilation target of Rust projects.
pub const TARGET: &'static str = "wasm32-wasip1";

/// Builds Rust projects.
#[derive(Debug, Clone, Copy)]
pub struct RustBuilder;

impl Default for RustBuilder {
    fn default() -> (r: Self)
        ensures
            r.builds() == Language::Rust,
    {
        RustBuilder
    }
}

impl LanguageBuilder for RustBuilder {
    open spec fn builds(&self) -> Language {
        Language::Rust
    }

    open spec fn takes(&self, listing: Seq<(Seq<char>, EntryKind)>) -> Detection {
        if walk::lists_file(listing, "Cargo.toml"@) {
            Detection::Yes
        } else {
            Detection::No
        }
    }

    fn language(&self) -> (r: Language) {
        Language::Rust
    }

    fn detect(&self, listing: &DirectoryListing) -> (r: Detection) {
        if listing.has_file("Cargo.toml") {
            Detection::Yes
        } else {
            Detection::No
        }
    }
}

/// What Cargo says of a project: the targets of its packages, each with its name
/// and kinds, and where it builds.
#[derive(Debug)]
pub struct CargoMetadata {
    pub targets: Vec<CargoTarget>,
    pub target_directory: String,
}

/// A target of a package.
#[derive(Debug)]
pub struct CargoTarget {
    pub name: String,
    pub kind: Vec<String>,
}

/// The model of a `CargoTarget`.
#[verifier::ext_equal]
pub struct TargetView {
    pub name: Seq<char>,
    pub kind: Seq<Seq<char>>,
}

/// The model of a `CargoMetadata`.
#[verifier::ext_equal]
pub struct MetadataView {
    pub targets: Seq<TargetView>,
    pub target_directory: Seq<char>,
}

impl View for CargoTarget {
    type V = TargetView;

    open spec fn view(&self) -> TargetView {
        TargetView { name: self.name@, kind: text::texts(self.kind@) }
    }
}

/// The models of targets.
pub open spec fn targets_view(v: Seq<CargoTarget>) -> Seq<TargetView> {
    v.map_values(|t: CargoTarget| t@)
}

impl View for CargoMetadata {
    type V = MetadataView;

    open spec fn view(&self) -> MetadataView {
        MetadataView {
            targets: targets_view(self.targets@),
            target_directory: self.target_directory@,
        }
    }
}

/// The target that a document holds.
pub open spec fn decode_target(d: JsonView) -> Option<TargetView> {
    match (json::field_text(d, 0, "name"@), json::field(d, 1, "kind"@)) {
        (Some(name), Some(kind)) => match json::text_list(kind) {
            Some(kind) => if json::is_record(d, 2) {
                Some(TargetView { name, kind })
            } else {
                None
            },
            None => None,
        },
        _ => None,
    }
}

/// The targets that a list of documents holds.
pub open spec fn decode_targets(list: Seq<JsonView>) -> Option<Seq<TargetView>>
    decreases list.len(),
{
    if list.len() == 0 {
        Some(Seq::empty())
    } else {
        match (decode_targets(list.drop_last()), decode_target(list.last())) {
            (Some(rest), Some(target)) => Some(rest.push(target)),
            _ => None,
        }
    }
}

/// The targets of the package that a document holds.
pub open spec fn decode_package(d: JsonView) -> Option<Seq<TargetView>> {
    match json::field(d, 0, "targets"@) {
        Some(JsonView::List(list)) => if json::is_record(d, 1) {
            decode_targets(list)
        } else {
            None
        },
        _ => None,
    }
}

/// The targets of the packages that a list of documents holds.
pub open spec fn decode_packages(list: Seq<JsonView>) -> Option<Seq<TargetView>>
    decreases list.len(),
{
    if list.len() == 0 {
        Some(Seq::empty())
    } else {
        match (decode_packages(list.drop_last()), decode_package(list.last())) {
            (Some(rest), Some(targets)) => Some(rest + targets),
            _ => None,
        }
    }
}

/// What Cargo says of a project, from its document.
pub open spec fn decode_metadata(d: JsonView) -> Option<MetadataView> {
    match (json::field(d, 0, "packages"@), json::field_text(d, 1, "target_directory"@)) {
        (Some(JsonView::List(list)), Some(target_directory)) => match decode_packages(list) {
            Some(targets) => if json::is_record(d, 2) {
                Some(MetadataView { targets, target_directory })
            } else {
                None
            },
            None => None,
        },
        _ => None,
    }
}

fn read_target(v: &serde_json::Value) -> (r: Option<CargoTarget>)
    ensures
        match r {
            Some(t) => decode_target(json::json_view(*v)) == Some(t@),
            None => decode_target(json::json_view(*v)) is None,
        },
{
    match (get_text(v, 0, "name"), get_field(v, 1, "kind")) {
        (Some(name), Some(kind)) => match get_texts(kind) {
            Some(kind) => if json::check_record(v, 2) {
                Some(CargoTarget { name, kind })
            } else {
                None
            },
            None => None,
        },
        _ => None,
    }
}

/// Appends the targets that a list of documents holds, if all do.
fn read_targets(list: &Vec<serde_json::Value>, out: &mut Vec<CargoTarget>) -> (r: bool)
    ensures
        r == decode_targets(json::elements_view(list@)) is Some,
        r ==> targets_view(final(out)@) == targets_view(old(out)@) + decode_targets(
            json::elements_view(list@),
        )->0,
{
    let ghost start = targets_view(out@);
    let ghost all = json::elements_view(list@);
    assert(all.take(0) =~= Seq::<JsonView>::empty());
    assert(start + Seq::<TargetView>::empty() =~= start);
    let mut i: usize = 0;
    while i < list.len()
        invariant
            i <= list@.len(),
            all == json::elements_view(list@),
            decode_targets(all.take(i as int)) is Some,
            targets_view(out@) == start + decode_targets(all.take(i as int))->0,
        decreases list@.len() - i,
    {
        assert(all[i as int] == json::json_view(list@[i as int]));
        assert(all.take(i + 1).drop_last() =~= all.take(i as int));
        let ghost before = targets_view(out@);
        match read_target(&list[i]) {
            Some(target) => {
                out.push(target);
                assert(targets_view(out@) =~= before.push(target@));
                assert(targets_view(out@) =~= start + decode_targets(all.take(i + 1))->0);
            },
            None => {
                proof {
                    lemma_targets_prefix(all, i + 1);
                }
                return false;
            },
        }
        i = i + 1;
    }
    assert(all.take(i as int) =~= all);
    true
}

/// If a list can be read, so can its beginning.
proof fn lemma_targets_prefix(list: Seq<JsonView>, n: int)
    requires
        0 <= n <= list.len(),
        decode_targets(list.take(n)) is None,
    ensures
        decode_targets(list) is None,
    decreases list.len() - n,
{
    if n < list.len() {
        assert(list.take(n + 1).drop_last() =~= list.take(n));
        lemma_targets_prefix(list, n + 1);
    } else {
        assert(list.take(n) =~= list);
    }
}

proof fn lemma_packages_prefix(list: Seq<JsonView>, n: int)
    requires
        0 <= n <= list.len(),
        decode_packages(list.take(n)) is None,
    ensures
        decode_packages(list) is None,
    decreases list.len() - n,
{
    if n < list.len() {
        assert(list.take(n + 1).drop_last() =~= list.take(n));
        lemma_packages_prefix(list, n + 1);
    } else {
        assert(list.take(n) =~= list);
    }
}

/// Reads what Cargo says of a project.
fn read_metadata(v: &serde_json::Value) -> (r: Option<CargoMetadata>)
    ensures
        match r {
            Some(m) => decode_metadata(json::json_view(*v)) == Some(m@),
            None => decode_metadata(json::json_view(*v)) is None,
        },
{
    let list = match get_field(v, 0, "packages") {
        Some(packages) => match packages.as_array() {
            Some(list) => list,
            None => {
                return None;
            },
        },
        None => {
            return None;
        },
    };
    let target_directory = match get_text(v, 1, "target_directory") {
        Some(t) => t,
        None => {
            return None;
        },
    };
    let ghost all = json::elements_view(list@);
    let mut targets: Vec<CargoTarget> = Vec::new();
    assert(all.take(0) =~= Seq::<JsonView>::empty());
    assert(targets_view(targets@) =~= Seq::<TargetView>::empty());
    let mut i: usize = 0;
    while i < list.len()
        invariant
            i <= list@.len(),
            all == json::elements_view(list@),
            json::field(json::json_view(*v), 0, "packages"@) == Some(JsonView::List(all)),
            decode_packages(all.take(i as int)) == Some(targets_view(targets@)),
        decreases list@.len() - i,
    {
        assert(all[i as int] == json::json_view(list@[i as int]));
        assert(all.take(i + 1).drop_last() =~= all.take(i as int));
        let package = &list[i];
        let read = match get_field(package, 0, "targets") {
            Some(t) => match t.as_array() {
                Some(inner) => json::check_record(package, 1) && read_targets(inner, &mut targets),
                None => false,
            },
            None => false,
        };
        if !read {
            proof {
                assert(decode_packages(all.take(i + 1)) is None);
                lemma_packages_prefix(all, i + 1);
            }
            return None;
        }
        i = i + 1;
    }
    assert(all.take(i as int) =~= all);
    if json::check_record(v, 2) {
        Some(CargoMetadata { targets, target_directory })
    } else {
        None
    }
}

/// The names of the targets that are programs.
pub open spec fn binaries(targets: Seq<TargetView>) -> Seq<Seq<char>>
    decreases targets.len(),
{
    if targets.len() == 0 {
        Seq::empty()
    } else if targets.last().kind.contains("bin"@) {
        binaries(targets.drop_last()).push(targets.last().name)
    } else {
        binaries(targets.drop_last())
    }
}

/// The program to build: the one that is asked for, or the only one.
pub open spec fn selected_binary(m: MetadataView, bin: Option<Seq<char>>) -> Result<
    Seq<char>,
    ErrorView,
> {
    let all = binaries(m.targets);
    match bin {
        Some(name) => if all.contains(name) {
            Ok(name)
        } else {
            Err(
                error::error(
                    ErrorKind::Selection,
                    "binary target '"@ + name + "' was not found; available binaries: "@
                        + text::joined(all, ", "@),
                ),
            )
        },
        None => if all.len() == 1 {
            Ok(all[0])
        } else if all.len() == 0 {
            Err(
                error::error(
                    ErrorKind::Selection,
                    "Rust project has no runnable binary target"@,
                ),
            )
        } else {
            Err(
                error::error(
                    ErrorKind::Selection,
                    "Rust project has multiple binary targets ("@ + text::joined(all, ", "@)
                        + "); use pit build --bin <name>"@,
                ),
            )
        },
    }
}

/// Whether a list of texts holds the text.
fn list_has(list: &Vec<String>, name: &str) -> (r: bool)
    ensures
        r == text::texts(list@).contains(name@),
{
    let ghost all = text::texts(list@);
    let mut i: usize = 0;
    while i < list.len()
        invariant
            i <= list@.len(),
            all == text::texts(list@),
            forall|j: int| 0 <= j < i ==> all[j] != name@,
        decreases list@.len() - i,
    {
        assert(all[i as int] == list@[i as int]@);
        if text_eq(list[i].as_str(), name) {
            return true;
        }
        i = i + 1;
    }
    false
}

/// The command that asks Cargo about a project.
pub open spec fn metadata_command(project_dir: Seq<char>) -> CommandView {
    CommandView {
        program: "cargo"@,
        args: seq![
            "metadata"@,
            "--format-version"@,
            "1"@,
            "--no-deps"@,
            "--manifest-path"@,
            paths::join_path(project_dir, "Cargo.toml"@),
        ],
        directory: Some(project_dir),
        not_started: "failed to run cargo metadata"@,
        failed: "cargo metadata failed:\n"@,
    }
}

/// The command that lists the installed targets.
pub open spec fn targets_command() -> CommandView {
    CommandView {
        program: "rustup"@,
        args: seq!["target"@, "list"@, "--installed"@],
        directory: None,
        not_started: "failed to run rustup; install rustup and the Rust WASI target manually"@,
        failed: ""@,
    }
}

/// The command that compiles a project.
pub open spec fn compile_command(
    project_dir: Seq<char>,
    profile: BuildProfile,
    bin: Option<Seq<char>>,
) -> CommandView {
    CommandView {
        program: "cargo"@,
        args: seq!["build"@, "--target"@, TARGET@] + (if profile == BuildProfile::Release {
            seq!["--release"@]
        } else {
            Seq::empty()
        }) + (match bin {
            Some(name) => seq!["--bin"@, name],
            None => Seq::empty(),
        }),
        directory: Some(project_dir),
        not_started: "failed to run cargo build"@,
        failed: "cargo build failed with "@,
    }
}

/// The outcome of asking Cargo about a project.
pub open spec fn metadata_outcome(reply: Option<ToolView>) -> Result<MetadataView, ErrorView> {
    match reply {
        None => Err(error::error(ErrorKind::Tool, "failed to run cargo metadata"@)),
        Some(o) => if !o.success {
            Err(
                error::error(
                    ErrorKind::Tool,
                    "cargo metadata failed:\n"@ + tooling::compiler_text(
                        tooling::output_of(o.stdout, o.stderr),
                    ),
                ),
            )
        } else {
            match forms::document(o.stdout, Form::Metadata) {
                Some(d) => match decode_metadata(d) {
                    Some(m) => Ok(m),
                    None => Err(
                        error::error(
                            ErrorKind::Document,
                            "cargo metadata returned invalid JSON"@,
                        ),
                    ),
                },
                None => Err(
                    error::error(ErrorKind::Document, "cargo metadata returned invalid JSON"@),
                ),
            }
        },
    }
}

/// Whether a line of the text is the target.
pub open spec fn lists_target(printed: Seq<char>) -> bool {
    exists|i: int|
        0 <= i < text::lines_of(printed).len() && text::trimmed(
            #[trigger] text::lines_of(printed)[i],
        ) == TARGET@
}

/// Whether the target is installed.
pub open spec fn target_outcome(reply: Option<ToolView>) -> Result<bool, ErrorView> {
    match reply {
        None => Err(
            error::error(
                ErrorKind::Tool,
                "failed to run rustup; install rustup and the Rust WASI target manually"@,
            ),
        ),
        Some(o) => Ok(o.success && lists_target(tooling::lossy_text(o.stdout))),
    }
}

/// The outcome of compiling.
pub open spec fn compile_outcome(reply: Option<ToolView>) -> Result<(), ErrorView> {
    match reply {
        None => Err(error::error(ErrorKind::Tool, "failed to run cargo build"@)),
        Some(o) => if o.success {
            Ok(())
        } else {
            Err(
                error::error(
                    ErrorKind::Tool,
                    "cargo build failed with "@ + o.status + ":\n"@ + tooling::compiler_text(
                        tooling::output_of(o.stdout, o.stderr),
                    ),
                ),
            )
        },
    }
}

/// Where Cargo puts the program.
pub open spec fn cargo_artifact(
    target_directory: Seq<char>,
    profile: BuildProfile,
    name: Seq<char>,
) -> Seq<char> {
    paths::join_path(
        paths::join_path(
            paths::join_path(target_directory, TARGET@),
            artifact::profile_text(profile),
        ),
        name + ".wasm"@,
    )
}

/// A program that was built.
#[derive(Debug)]
pub struct RustArtifact {
    pub name: String,
    pub language: Language,
    pub target: String,
    pub profile: BuildProfile,
    pub artifact_path: String,
    pub sha256: String,
    pub size_bytes: u64,
}

/// The model of a `RustArtifact`.
#[verifier::ext_equal]
pub struct RustArtifactView {
    pub name: Seq<char>,
    pub language: Language,
    pub target: Seq<char>,
    pub profile: BuildProfile,
    pub artifact_path: Seq<char>,
    pub sha256: Seq<char>,
    pub size_bytes: u64,
}

impl View for RustArtifact {
    type V = RustArtifactView;

    open spec fn view(&self) -> RustArtifactView {
        RustArtifactView {
            name: self.name@,
            language: self.language,
            target: self.target@,
            profile: self.profile,
            artifact_path: self.artifact_path@,
            sha256: self.sha256@,
            size_bytes: self.size_bytes,
        }
    }
}

/// Where a build stands. `name` is the program that is built and `from` is where
/// Cargo puts it.
#[derive(Debug)]
enum Phase {
    Describe,
    Target { name: String },
    Compile { name: String },
    Locate { name: String },
    Find { name: String, from: String },
    Directory { name: String, from: String },
    Copy { name: String, from: String },
    Collect { name: String },
    Built(RustArtifact),
}

/// The model of where a build stands.
pub enum PhaseView {
    Describe,
    Target { name: Seq<char> },
    Compile { name: Seq<char> },
    Locate { name: Seq<char> },
    Find { name: Seq<char>, from: Seq<char> },
    Directory { name: Seq<char>, from: Seq<char> },
    Copy { name: Seq<char>, from: Seq<char> },
    Collect { name: Seq<char> },
    Built(RustArtifactView),
}

impl View for Phase {
    type V = PhaseView;

    closed spec fn view(&self) -> PhaseView {
        match *self {
            Phase::Describe => PhaseView::Describe,
            Phase::Target { name } => PhaseView::Target { name: name@ },
            Phase::Compile { name } => PhaseView::Compile { name: name@ },
            Phase::Locate { name } => PhaseView::Locate { name: name@ },
            Phase::Find { name, from } => PhaseView::Find { name: name@, from: from@ },
            Phase::Directory { name, from } => PhaseView::Directory { name: name@, from: from@ },
            Phase::Copy { name, from } => PhaseView::Copy { name: name@, from: from@ },
            Phase::Collect { name } => PhaseView::Collect { name: name@ },
            Phase::Built(a) => PhaseView::Built(a@),
        }
    }
}

/// What a build has to do next.
#[derive(Debug)]
pub enum RustStep {
    Run(ToolCommand),
    IsFile(String),
    CreateDirectory(String),
    Copy { from: String, to: String },
    Read(String),
}

/// The model of a `RustStep`.
pub enum RustStepView {
    Run(CommandView),
    IsFile(Seq<char>),
    CreateDirectory(Seq<char>),
    Copy { from: Seq<char>, to: Seq<char> },
    Read(Seq<char>),
}

impl View for RustStep {
    type V = RustStepView;

    open spec fn view(&self) -> RustStepView {
        match *self {
            RustStep::Run(command) => RustStepView::Run(command@),
            RustStep::IsFile(path) => RustStepView::IsFile(path@),
            RustStep::CreateDirectory(path) => RustStepView::CreateDirectory(path@),
            RustStep::Copy { from, to } => RustStepView::Copy { from: from@, to: to@ },
            RustStep::Read(path) => RustStepView::Read(path@),
        }
    }
}

/// What came of a step.
#[derive(Debug)]
pub enum RustReply {
    Command(Option<ToolOutput>),
    IsFile(bool),
    /// Whether the directory was created or the file copied.
    Done(bool),
    Contents(Option<Vec<u8>>),
}

/// The model of a `RustReply`.
pub enum RustReplyView {
    Command(Option<ToolView>),
    IsFile(bool),
    Done(bool),
    Contents(Option<Seq<u8>>),
}

impl View for RustReply {
    type V = RustReplyView;

    open spec fn view(&self) -> RustReplyView {
        match *self {
            RustReply::Command(o) => RustReplyView::Command(tooling::reply_view(o)),
            RustReply::IsFile(b) => RustReplyView::IsFile(b),
            RustReply::Done(b) => RustReplyView::Done(b),
            RustReply::Contents(c) => RustReplyView::Contents(builder::contents_view(c)),
        }
    }
}

/// Where the artifact of a program is put.
pub open spec fn output_dir(project_dir: Seq<char>) -> Seq<char> {
    paths::join_path(project_dir, ".pit/build"@)
}

/// Where the artifact of a program is put.
pub open spec fn output_path(project_dir: Seq<char>, name: Seq<char>) -> Seq<char> {
    paths::join_path(output_dir(project_dir), name + ".wasm"@)
}

/// A build of a Rust project on its way.
#[derive(Debug)]
pub struct RustBuild {
    project_dir: String,
    profile: BuildProfile,
    bin: Option<String>,
    phase: Phase,
}

/// The model of a `RustBuild`.
#[verifier::ext_equal]
pub struct RustBuildView {
    pub project_dir: Seq<char>,
    pub profile: BuildProfile,
    pub bin: Option<Seq<char>>,
    pub phase: PhaseView,
}

impl View for RustBuild {
    type V = RustBuildView;

    closed spec fn view(&self) -> RustBuildView {
        RustBuildView {
            project_dir: self.project_dir@,
            profile: self.profile,
            bin: text::option_view(self.bin),
            phase: self.phase@,
        }
    }
}

/// What a build has to do next; nothing when the program was built.
pub open spec fn rust_step(w: RustBuildView) -> Option<RustStepView> {
    match w.phase {
        PhaseView::Describe => Some(RustStepView::Run(metadata_command(w.project_dir))),
        PhaseView::Target { .. } => Some(RustStepView::Run(targets_command())),
        PhaseView::Compile { .. } => Some(
            RustStepView::Run(compile_command(w.project_dir, w.profile, w.bin)),
        ),
        PhaseView::Locate { .. } => Some(RustStepView::Run(metadata_command(w.project_dir))),
        PhaseView::Find { name, from } => Some(RustStepView::IsFile(from)),
        PhaseView::Directory { .. } => Some(
            RustStepView::CreateDirectory(output_dir(w.project_dir)),
        ),
        PhaseView::Copy { name, from } => Some(
            RustStepView::Copy { from, to: output_path(w.project_dir, name) },
        ),
        PhaseView::Collect { name } => Some(RustStepView::Read(output_path(w.project_dir, name))),
        PhaseView::Built(_) => None,
    }
}

/// What is said where the target is missing.
pub const TARGET_MISSING: &'static str = "Rust WASI target wasm32-wasip1 is not installed.\n\nInstall it with:\n\nrustup target add wasm32-wasip1";

/// What is said of a reply that does not belong to the step.
pub open spec fn unexpected_reply() -> ErrorView {
    error::error(ErrorKind::Host, "unexpected reply to a build step"@)
}

/// The outcome of collecting an artifact.
pub open spec fn rust_collected(
    w: RustBuildView,
    name: Seq<char>,
    contents: Option<Seq<u8>>,
) -> Result<RustArtifactView, ErrorView> {
    let path = output_path(w.project_dir, name);
    match contents {
        None => Err(error::error(ErrorKind::Host, "failed to read WASM artifact "@ + path)),
        Some(bytes) => if bytes.len() == 0 {
            Err(error::error(ErrorKind::Wasm, "WASM artifact is empty: "@ + path))
        } else if wasm::payloads_are_valid(wasm::wasm_payloads(bytes)) {
            Ok(
                RustArtifactView {
                    name,
                    language: Language::Rust,
                    target: TARGET@,
                    profile: w.profile,
                    artifact_path: path,
                    sha256: digest::sha256_text(bytes),
                    size_bytes: bytes.len() as u64,
                },
            )
        } else {
            Err(error::error(ErrorKind::Wasm, "invalid WebAssembly artifact "@ + path))
        },
    }
}

/// Where a build stands after the reply to its next step, or why it fails.
pub open spec fn rust_after(w: RustBuildView, reply: RustReplyView) -> Result<
    PhaseView,
    ErrorView,
> {
    match (w.phase, reply) {
        (PhaseView::Describe, RustReplyView::Command(o)) => match metadata_outcome(o) {
            Err(e) => Err(e),
            Ok(m) => match selected_binary(m, w.bin) {
                Err(e) => Err(e),
                Ok(name) => Ok(PhaseView::Target { name }),
            },
        },
        (PhaseView::Target { name }, RustReplyView::Command(o)) => match target_outcome(o) {
            Err(e) => Err(e),
            Ok(installed) => if installed {
                Ok(PhaseView::Compile { name })
            } else {
                Err(error::error(ErrorKind::Tool, TARGET_MISSING@))
            },
        },
        (PhaseView::Compile { name }, RustReplyView::Command(o)) => match compile_outcome(o) {
            Err(e) => Err(e),
            Ok(_) => Ok(PhaseView::Locate { name }),
        },
        (PhaseView::Locate { name }, RustReplyView::Command(o)) => match metadata_outcome(o) {
            Err(e) => Err(e),
            Ok(m) => Ok(
                PhaseView::Find {
                    name,
                    from: cargo_artifact(m.target_directory, w.profile, name),
                },
            ),
        },
        (PhaseView::Find { name, from }, RustReplyView::IsFile(found)) => if found {
            Ok(PhaseView::Directory { name, from })
        } else {
            Err(
                error::error(
                    ErrorKind::Tool,
                    "cargo build succeeded but expected WASM artifact was not found: "@ + from,
                ),
            )
        },
        (PhaseView::Directory { name, from }, RustReplyView::Done(done)) => if done {
            Ok(PhaseView::Copy { name, from })
        } else {
            Err(error::error(ErrorKind::Host, "failed to create "@ + output_dir(w.project_dir)))
        },
        (PhaseView::Copy { name, from }, RustReplyView::Done(done)) => if done {
            Ok(PhaseView::Collect { name })
        } else {
            Err(
                error::error(
                    ErrorKind::Host,
                    "failed to copy "@ + from + " to "@ + output_path(w.project_dir, name),
                ),
            )
        },
        (PhaseView::Collect { name }, RustReplyView::Contents(c)) => match rust_collected(
            w,
            name,
            c,
        ) {
            Err(e) => Err(e),
            Ok(a) => Ok(PhaseView::Built(a)),
        },
        _ => Err(unexpected_reply()),
    }
}

/// A program that is found is a target that is a program.
proof fn lemma_binaries(targets: Seq<TargetView>, name: Seq<char>)
    requires
        binaries(targets).contains(name),
    ensures
        exists|i: int|
            0 <= i < targets.len() && (#[trigger] targets[i]).name == name
                && targets[i].kind.contains("bin"@),
    decreases targets.len(),
{
    if targets.len() > 0 {
        let rest = targets.drop_last();
        let all = binaries(targets);
        let k = choose|k: int| 0 <= k < all.len() && all[k] == name;
        if k < binaries(rest).len() {
            assert(binaries(rest)[k] == name);
            lemma_binaries(rest, name);
            let i = choose|i: int|
                0 <= i < rest.len() && (#[trigger] rest[i]).name == name
                    && rest[i].kind.contains("bin"@);
            assert(targets[i] == rest[i]);
        } else {
            assert(targets[targets.len() - 1].name == name);
        }
    }
}

/// What is built is a program of the project, and the one that is asked for.
pub proof fn programs_of_the_project_are_built(m: MetadataView, bin: Option<Seq<char>>)
    requires
        selected_binary(m, bin) is Ok,
    ensures
        bin matches Some(name) ==> selected_binary(m, bin)->Ok_0 == name,
        exists|i: int|
            0 <= i < m.targets.len() && (#[trigger] m.targets[i]).name == selected_binary(
                m,
                bin,
            )->Ok_0 && m.targets[i].kind.contains("bin"@),
{
    let all = binaries(m.targets);
    let name = selected_binary(m, bin)->Ok_0;
    if bin is None {
        assert(all[0] == name);
    }
    lemma_binaries(m.targets, name);
}

/// A build gives a program only after its WebAssembly was read through, and
/// describes what was read.
pub proof fn built_programs_are_valid(w: RustBuildView, reply: RustReplyView)
    requires
        rust_after(w, reply) matches Ok(phase) && phase is Built,
    ensures
        w.phase is Collect,
        reply matches RustReplyView::Contents(Some(bytes)) && bytes.len() > 0
            && wasm::payloads_are_valid(wasm::wasm_payloads(bytes)) && rust_after(
            w,
            reply,
        )->Ok_0->Built_0.sha256 == digest::sha256_text(bytes),
{
}

impl RustBuilder {
    /// The builder.
    pub fn new() -> (r: Self)
        ensures
            r.builds() == Language::Rust,
    {
        RustBuilder
    }

    /// Whether the compilation target is installed, from what listing the
    /// installed targets gave.
    pub fn target_available(reply: &Option<ToolOutput>) -> (r: Result<bool, PitError>)
        ensures
            error::outcome(r) == target_outcome(tooling::reply_view(*reply)),
    {
        match reply {
            None => Err(
                PitError::fixed(
                    ErrorKind::Tool,
                    "failed to run rustup; install rustup and the Rust WASI target manually",
                ),
            ),
            Some(o) => {
                if !o.success {
                    return Ok(false);
                }
                Ok(Self::names_target(from_lossy(o.stdout.as_slice()).as_str()))
            },
        }
    }

    /// Whether a line of the text is the target.
    pub fn names_target(printed: &str) -> (r: bool)
        ensures
            r == lists_target(printed@),
    {
        let all = lines(printed);
        let ghost view = text::lines_of(printed@);
        let mut i: usize = 0;
        while i < all.len()
            invariant
                i <= all@.len(),
                view == text::texts(all@),
                view == text::lines_of(printed@),
                forall|j: int| 0 <= j < i ==> text::trimmed(#[trigger] view[j]) != TARGET@,
            decreases all@.len() - i,
        {
            assert(view[i as int] == all@[i as int]@);
            if text_eq(trim(all[i].as_str()).as_str(), TARGET) {
                assert(text::trimmed(view[i as int]) == TARGET@);
                return true;
            }
            i = i + 1;
        }
        false
    }

    /// The command that asks Cargo about a project.
    pub fn metadata_command(project_dir: &str) -> (r: ToolCommand)
        ensures
            r@ == metadata_command(project_dir@),
    {
        let file = path_join(project_dir, "Cargo.toml");
        let args: [&str; 6] = [
            "metadata",
            "--format-version",
            "1",
            "--no-deps",
            "--manifest-path",
            file.as_str(),
        ];
        let command = ToolCommand {
            program: "cargo".to_owned(),
            args: own_args(&args),
            directory: Some(project_dir.to_owned()),
            not_started: "failed to run cargo metadata".to_owned(),
            failed: "cargo metadata failed:\n".to_owned(),
        };
        assert(command@.args =~= metadata_command(project_dir@).args);
        command
    }

    /// What Cargo says of a project, from what asking it gave.
    pub fn metadata(reply: &Option<ToolOutput>) -> (r: Result<CargoMetadata, PitError>)
        ensures
            error::outcome(r) == metadata_outcome(tooling::reply_view(*reply)),
    {
        match reply {
            None => Err(PitError::fixed(ErrorKind::Tool, "failed to run cargo metadata")),
            Some(o) => {
                if !o.success {
                    return Err(
                        naming_path(
                            ErrorKind::Tool,
                            "cargo metadata failed:\n",
                            compiler_output(o.stdout.as_slice(), o.stderr.as_slice()).as_str(),
                        ),
                    );
                }
                let decoded = match read_document(o.stdout.as_slice(), Form::Metadata) {
                    Some(value) => read_metadata(&value),
                    None => None,
                };
                match decoded {
                    Some(m) => Ok(m),
                    None => Err(
                        PitError::fixed(
                            ErrorKind::Document,
                            "cargo metadata returned invalid JSON",
                        ),
                    ),
                }
            },
        }
    }

    /// The program to build: the one that is asked for, or the only one.
    pub fn select_binary(metadata: &CargoMetadata, bin: &Option<String>) -> (r: Result<
        String,
        PitError,
    >)
        ensures
            error::outcome(r) == selected_binary(metadata@, text::option_view(*bin)),
    {
        let ghost all = metadata@.targets;
        let mut found: Vec<String> = Vec::new();
        assert(text::texts(found@) =~= Seq::<Seq<char>>::empty());
        assert(all.take(0) =~= Seq::<TargetView>::empty());
        let mut i: usize = 0;
        while i < metadata.targets.len()
            invariant
                i <= metadata.targets@.len(),
                all == targets_view(metadata.targets@),
                text::texts(found@) == binaries(all.take(i as int)),
            decreases metadata.targets@.len() - i,
        {
            let target = &metadata.targets[i];
            assert(all[i as int] == target@);
            assert(all.take(i + 1).drop_last() =~= all.take(i as int));
            assert(all.take(i + 1).last() == target@);
            if list_has(&target.kind, "bin") {
                let ghost before = text::texts(found@);
                found.push(target.name.clone());
                assert(text::texts(found@) =~= before.push(target.name@));
            }
            i = i + 1;
        }
        assert(all.take(i as int) =~= all);
        assert(text::texts(found@).len() == found@.len());
        match bin {
            Some(name) => {
                if list_has(&found, name.as_str()) {
                    Ok(name.clone())
                } else {
                    let mut t = "binary target '".to_owned();
                    t.append(name.as_str());
                    t.append("' was not found; available binaries: ");
                    t.append(join(&found, ", ").as_str());
                    Err(PitError::new(ErrorKind::Selection, t))
                }
            },
            None => {
                if found.len() == 1 {
                    assert(text::texts(found@)[0] == found@[0]@);
                    Ok(found[0].clone())
                } else if found.len() == 0 {
                    Err(
                        PitError::fixed(
                            ErrorKind::Selection,
                            "Rust project has no runnable binary target",
                        ),
                    )
                } else {
                    let mut t = "Rust project has multiple binary targets (".to_owned();
                    t.append(join(&found, ", ").as_str());
                    t.append("); use pit build --bin <name>");
                    Err(PitError::new(ErrorKind::Selection, t))
                }
            },
        }
    }

    /// The build of a project.
    pub fn build(&self, request: &BuildRequest) -> (r: RustBuild)
        ensures
            r@ == (RustBuildView {
                project_dir: request@.project_dir,
                profile: request@.profile,
                bin: request@.bin,
                phase: PhaseView::Describe,
            }),
    {
        RustBuild {
            project_dir: request.project_dir.clone(),
            profile: request.profile,
            bin: clone_text(&request.bin),
            phase: Phase::Describe,
        }
    }
}

impl RustBuild {
    /// What the build has to do next; nothing when the program was built.
    pub fn next(&self) -> (r: Option<RustStep>)
        ensures
            match r {
                Some(s) => rust_step(self@) == Some(s@),
                None => rust_step(self@) is None,
            },
    {
        let project_dir = self.project_dir.as_str();
        match &self.phase {
            Phase::Describe => Some(RustStep::Run(RustBuilder::metadata_command(project_dir))),
            Phase::Target { .. } => {
                let args: [&str; 3] = ["target", "list", "--installed"];
                let command = ToolCommand {
                    program: "rustup".to_owned(),
                    args: own_args(&args),
                    directory: None,
                    not_started: "failed to run rustup; install rustup and the Rust WASI target manually".to_owned(),
                    failed: "".to_owned(),
                };
                assert(command@.args =~= targets_command().args);
                Some(RustStep::Run(command))
            },
            Phase::Compile { .. } => Some(RustStep::Run(self.compile())),
            Phase::Locate { .. } => Some(RustStep::Run(RustBuilder::metadata_command(project_dir))),
            Phase::Find { name, from } => Some(RustStep::IsFile(from.clone())),
            Phase::Directory { .. } => Some(
                RustStep::CreateDirectory(path_join(project_dir, ".pit/build")),
            ),
            Phase::Copy { name, from } => Some(
                RustStep::Copy { from: from.clone(), to: self.artifact_path(name.as_str()) },
            ),
            Phase::Collect { name } => Some(RustStep::Read(self.artifact_path(name.as_str()))),
            Phase::Built(_) => None,
        }
    }

    /// The command that compiles the project.
    fn compile(&self) -> (r: ToolCommand)
        ensures
            r@ == compile_command(self@.project_dir, self@.profile, self@.bin),
    {
        let first: [&str; 3] = ["build", "--target", TARGET];
        let mut args = own_args(&first);
        assert(text::texts(args@) =~= seq!["build"@, "--target"@, TARGET@]);
        match self.profile {
            BuildProfile::Release => {
                args.push("--release".to_owned());
            },
            BuildProfile::Debug => {},
        }
        if let Some(bin) = &self.bin {
            args.push("--bin".to_owned());
            args.push(bin.clone());
        }
        let command = ToolCommand {
            program: "cargo".to_owned(),
            args,
            directory: Some(self.project_dir.clone()),
            not_started: "failed to run cargo build".to_owned(),
            failed: "cargo build failed with ".to_owned(),
        };
        assert(command@.args =~= compile_command(
            self@.project_dir,
            self@.profile,
            self@.bin,
        ).args);
        command
    }

    /// Where the artifact is put.
    fn artifact_path(&self, name: &str) -> (r: String)
        ensures
            r@ == output_path(self@.project_dir, name@),
    {
        path_join(
            path_join(self.project_dir.as_str(), ".pit/build").as_str(),
            wasm_file(name).as_str(),
        )
    }

    /// Goes on with what came of the next step.
    pub fn replied(self, reply: RustReply) -> (r: Result<Self, PitError>)
        ensures
            error::outcome(r) == match rust_after(self@, reply@) {
                Ok(phase) => Ok(RustBuildView { phase, ..self@ }),
                Err(e) => Err(e),
            },
    {
        match self.advance(&reply) {
            Ok(phase) => Ok(
                RustBuild {
                    project_dir: self.project_dir,
                    profile: self.profile,
                    bin: self.bin,
                    phase,
                },
            ),
            Err(e) => Err(e),
        }
    }

    /// Where the build stands after the reply to its next step.
    fn advance(&self, reply: &RustReply) -> (r: Result<Phase, PitError>)
        ensures
            error::outcome(r) == rust_after(self@, reply@),
    {
        match (&self.phase, reply) {
            (Phase::Describe, RustReply::Command(o)) => match RustBuilder::metadata(o) {
                Err(e) => Err(e),
                Ok(m) => match RustBuilder::select_binary(&m, &self.bin) {
                    Err(e) => Err(e),
                    Ok(name) => Ok(Phase::Target { name }),
                },
            },
            (Phase::Target { name }, RustReply::Command(o)) => {
                match RustBuilder::target_available(o) {
                    Err(e) => Err(e),
                    Ok(installed) => if installed {
                        Ok(Phase::Compile { name: name.clone() })
                    } else {
                        Err(PitError::fixed(ErrorKind::Tool, TARGET_MISSING))
                    },
                }
            },
            (Phase::Compile { name }, RustReply::Command(o)) => match o {
                None => Err(PitError::fixed(ErrorKind::Tool, "failed to run cargo build")),
                Some(o) => if o.success {
                    Ok(Phase::Locate { name: name.clone() })
                } else {
                    let mut t = "cargo build failed with ".to_owned();
                    t.append(o.status.as_str());
                    t.append(":\n");
                    t.append(
                        compiler_output(o.stdout.as_slice(), o.stderr.as_slice()).as_str(),
                    );
                    Err(PitError::new(ErrorKind::Tool, t))
                },
            },
            (Phase::Locate { name }, RustReply::Command(o)) => match RustBuilder::metadata(o) {
                Err(e) => Err(e),
                Ok(m) => {
                    let place = path_join(
                        path_join(m.target_directory.as_str(), TARGET).as_str(),
                        self.profile.cargo_directory(),
                    );
                    let from = path_join(place.as_str(), wasm_file(name.as_str()).as_str());
                    Ok(Phase::Find { name: name.clone(), from })
                },
            },
            (Phase::Find { name, from }, RustReply::IsFile(found)) => if *found {
                Ok(Phase::Directory { name: name.clone(), from: from.clone() })
            } else {
                Err(
                    naming_path(
                        ErrorKind::Tool,
                        "cargo build succeeded but expected WASM artifact was not found: ",
                        from.as_str(),
                    ),
                )
            },
            (Phase::Directory { name, from }, RustReply::Done(done)) => if *done {
                Ok(Phase::Copy { name: name.clone(), from: from.clone() })
            } else {
                Err(
                    naming_path(
                        ErrorKind::Host,
                        "failed to create ",
                        path_join(self.project_dir.as_str(), ".pit/build").as_str(),
                    ),
                )
            },
            (Phase::Copy { name, from }, RustReply::Done(done)) => if *done {
                Ok(Phase::Collect { name: name.clone() })
            } else {
                let mut t = "failed to copy ".to_owned();
                t.append(from.as_str());
                t.append(" to ");
                t.append(self.artifact_path(name.as_str()).as_str());
                Err(PitError::new(ErrorKind::Host, t))
            },
            (Phase::Collect { name }, RustReply::Contents(contents)) => {
                let path = self.artifact_path(name.as_str());
                match validate_wasm(path.as_str(), borrow_contents(contents)) {
                    Err(e) => Err(e),
                    Ok(_) => match contents {
                        None => Err(
                            PitError::fixed(ErrorKind::Host, "unexpected reply to a build step"),
                        ),
                        Some(bytes) => Ok(
                            Phase::Built(
                                RustArtifact {
                                    name: name.clone(),
                                    language: Language::Rust,
                                    target: TARGET.to_owned(),
                                    profile: self.profile,
                                    artifact_path: path,
                                    sha256: sha256_hex(bytes.as_slice()),
                                    size_bytes: bytes.len() as u64,
                                },
                            ),
                        ),
                    },
                }
            },
            _ => Err(PitError::fixed(ErrorKind::Host, "unexpected reply to a build step")),
        }
    }

    /// The program, once it was built.
    pub fn finish(self) -> (r: Option<RustArtifact>)
        ensures
            match r {
                Some(a) => self@.phase == PhaseView::Built(a@),
                None => !(self@.phase is Built),
            },
    {
        match self.phase {
            Phase::Built(a) => Some(a),
            _ => None,
        }
    }
}

} // verus!
