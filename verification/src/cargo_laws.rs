//! What holds of every Rust build: Cargo builds the program of the project for the WASI
//! target, and what Cargo built is what is copied, read and described.

use crate::artifact::BuildProfile;
use crate::digest;
use crate::error::ErrorView;
use crate::language::Language;
use crate::paths;
use crate::plan_laws;
use crate::request::BuildRequest;
use crate::rust_builder;
use crate::rust_builder::{
    MetadataView, PhaseView, RustArtifactView, RustBuild, RustBuildView, RustBuilder,
    RustReplyView, RustStepView, TargetView,
};
use crate::text;
use crate::tooling;
use crate::tooling::ToolView;
use vstd::prelude::*;

verus! {

/// A build starts by asking Cargo about the manifest of the project.
pub proof fn builds_ask_cargo_first(b: RustBuilder, request: BuildRequest, build: RustBuild)
    requires
        call_ensures(RustBuilder::build, (&b, &request), build),
    ensures
        build@.project_dir == request@.project_dir,
        build@.profile == request@.profile,
        build@.bin == request@.bin,
        rust_builder::rust_step(build@) matches Some(RustStepView::Run(c)) && c.program
            == "cargo"@ && c.args.contains("metadata"@) && c.args.contains("--no-deps"@)
            && plan_laws::is_told(
            c,
            "--manifest-path"@,
            paths::join_path(request@.project_dir, "Cargo.toml"@),
        ) && plan_laws::is_told(c, "--format-version"@, "1"@),
{
    let c = rust_builder::metadata_command(request@.project_dir);
    assert(c.args[0] == "metadata"@);
    assert(c.args[1] == "--format-version"@ && c.args[2] == "1"@);
    assert(c.args[3] == "--no-deps"@);
    assert(c.args[4] == "--manifest-path"@);
}

/// The program is the one that is asked for or, where none is, the only one of the
/// project. It is built only where the target is installed.
pub proof fn programs_are_chosen_before_they_are_built(
    w: RustBuildView,
    reply: RustReplyView,
    next: PhaseView,
)
    requires
        w.phase is Describe || w.phase is Target,
        rust_builder::rust_after(w, reply) == Ok::<PhaseView, ErrorView>(next),
    ensures
        w.phase is Describe ==> next is Target && (w.bin matches Some(name)
            ==> next->Target_name == name),
        w.phase matches PhaseView::Target { name } ==> next == (PhaseView::Compile { name }),
        w.phase is Target ==> (reply matches RustReplyView::Command(Some(o)) && o.success
            && exists|i: int|
            0 <= i < text::lines_of(tooling::lossy_text(o.stdout)).len() && text::trimmed(
                #[trigger] text::lines_of(tooling::lossy_text(o.stdout))[i],
            ) == "wasm32-wasip1"@),
{
}

proof fn lemma_binaries_count(targets: Seq<TargetView>)
    ensures
        forall|i: int|
            0 <= i < targets.len() && (#[trigger] targets[i]).kind.contains("bin"@)
                ==> rust_builder::binaries(targets).contains(targets[i].name),
        (forall|i: int|
            0 <= i < targets.len() ==> !(#[trigger] targets[i]).kind.contains("bin"@))
            ==> rust_builder::binaries(targets).len() == 0,
    decreases targets.len(),
{
    if targets.len() > 0 {
        let rest = targets.drop_last();
        lemma_binaries_count(rest);
        let all = rust_builder::binaries(targets);
        let before = rust_builder::binaries(rest);
        assert forall|i: int|
            0 <= i < targets.len() && (#[trigger] targets[i]).kind.contains(
                "bin"@,
            ) implies all.contains(targets[i].name) by {
            if i < rest.len() {
                assert(rest[i] == targets[i]);
                let k = choose|k: int| 0 <= k < before.len() && before[k] == targets[i].name;
                assert(all[k] == targets[i].name);
            } else {
                assert(all.last() == targets[i].name);
            }
        }
        if forall|i: int| 0 <= i < targets.len() ==> !(#[trigger] targets[i]).kind.contains("bin"@) {
            assert forall|i: int| 0 <= i < rest.len() implies !(#[trigger] rest[i]).kind.contains(
                "bin"@,
            ) by {
                assert(targets[i] == rest[i]);
            }
            assert(!targets[targets.len() - 1].kind.contains("bin"@));
        }
    }
}

proof fn lemma_only_binary(targets: Seq<TargetView>, i: int)
    requires
        0 <= i < targets.len(),
        targets[i].kind.contains("bin"@),
        forall|j: int|
            0 <= j < targets.len() && j != i ==> !(#[trigger] targets[j]).kind.contains("bin"@),
    ensures
        rust_builder::binaries(targets) == seq![targets[i].name],
    decreases targets.len(),
{
    let rest = targets.drop_last();
    if i == targets.len() - 1 {
        assert forall|j: int| 0 <= j < rest.len() implies !(#[trigger] rest[j]).kind.contains(
            "bin"@,
        ) by {
            assert(targets[j] == rest[j]);
        }
        lemma_binaries_count(rest);
        assert(rust_builder::binaries(targets) =~= seq![targets[i].name]);
    } else {
        assert forall|j: int| 0 <= j < rest.len() && j != i implies !(
        #[trigger] rest[j]).kind.contains("bin"@) by {
            assert(targets[j] == rest[j]);
        }
        assert(rest[i] == targets[i]);
        lemma_only_binary(rest, i);
        assert(!targets[targets.len() - 1].kind.contains("bin"@));
    }
}

/// A project's only program is built without being named, every program where it is named,
/// and nothing where the project has no program.
pub proof fn programs_can_be_built(m: MetadataView, i: int)
    ensures
        0 <= i < m.targets.len() && m.targets[i].kind.contains("bin"@)
            ==> rust_builder::selected_binary(m, Some(m.targets[i].name)) == Ok::<
            Seq<char>,
            ErrorView,
        >(m.targets[i].name),
        0 <= i < m.targets.len() && m.targets[i].kind.contains("bin"@) && (forall|j: int|
            0 <= j < m.targets.len() && j != i ==> !(#[trigger] m.targets[j]).kind.contains(
                "bin"@,
            )) ==> rust_builder::selected_binary(m, None) == Ok::<
            Seq<char>,
            ErrorView,
        >(m.targets[i].name),
        (forall|j: int|
            0 <= j < m.targets.len() ==> !(#[trigger] m.targets[j]).kind.contains("bin"@))
            ==> rust_builder::selected_binary(m, None) is Err,
{
    lemma_binaries_count(m.targets);
    if 0 <= i < m.targets.len() && m.targets[i].kind.contains("bin"@) && (forall|j: int|
        0 <= j < m.targets.len() && j != i ==> !(#[trigger] m.targets[j]).kind.contains("bin"@)) {
        lemma_only_binary(m.targets, i);
    }
}

/// Cargo builds the project for the WASI target, with the profile and the program of the
/// request. A build that failed goes no further.
pub proof fn cargo_builds_what_is_asked_for(w: RustBuildView, name: Seq<char>, o: Option<ToolView>)
    requires
        w.phase == (PhaseView::Compile { name }),
    ensures
        rust_builder::rust_step(w) matches Some(RustStepView::Run(c)) && c.program == "cargo"@
            && c.args[0] == "build"@ && plan_laws::is_told(c, "--target"@, "wasm32-wasip1"@)
            && c.directory == Some(w.project_dir),
        rust_builder::rust_step(w) matches Some(RustStepView::Run(c)) && (w.profile
            == BuildProfile::Release ==> c.args.contains("--release"@)),
        rust_builder::rust_step(w) matches Some(RustStepView::Run(c)) && (w.profile
            == BuildProfile::Debug && w.bin is None ==> c.args.len() == 3),
        rust_builder::rust_step(w) matches Some(RustStepView::Run(c)) && (w.bin matches Some(bin)
            ==> plan_laws::is_told(c, "--bin"@, bin)),
        rust_builder::rust_after(w, RustReplyView::Command(o)) is Ok <==> (o matches Some(t)
            && t.success),
        rust_builder::rust_after(w, RustReplyView::Command(o)) matches Ok(next) ==> next == (
        PhaseView::Locate { name }),
{
    let c = rust_builder::compile_command(w.project_dir, w.profile, w.bin);
    assert(c.args[1] == "--target"@ && c.args[2] == "wasm32-wasip1"@);
    if w.profile == BuildProfile::Release {
        assert(c.args[3] == "--release"@);
    }
    if let Some(bin) = w.bin {
        let n = c.args.len() - 2;
        assert(c.args[n] == "--bin"@ && c.args[n + 1] == bin);
    }
}

/// Where Cargo puts a program.
pub open spec fn cargo_place(
    target_directory: Seq<char>,
    profile: BuildProfile,
    name: Seq<char>,
) -> Seq<char> {
    paths::join_path(
        paths::join_path(
            paths::join_path(target_directory, "wasm32-wasip1"@),
            if profile == BuildProfile::Release {
                "release"@
            } else {
                "debug"@
            },
        ),
        name + ".wasm"@,
    )
}

/// Where a build leaves a program.
pub open spec fn built_place(project_dir: Seq<char>, name: Seq<char>) -> Seq<char> {
    paths::join_path(paths::join_path(project_dir, ".pit/build"@), name + ".wasm"@)
}

/// What Cargo built is looked for where Cargo puts it, copied to the build directory and
/// read there.
pub proof fn what_cargo_built_is_collected(w: RustBuildView, m: MetadataView, o: ToolView)
    ensures
        w.phase matches PhaseView::Locate { name } && rust_builder::metadata_outcome(Some(o)) == Ok::<
            MetadataView,
            ErrorView,
        >(m) ==> rust_builder::rust_after(w, RustReplyView::Command(Some(o))) == Ok::<
            PhaseView,
            ErrorView,
        >(
            PhaseView::Find {
                name: w.phase->Locate_name,
                from: cargo_place(m.target_directory, w.profile, w.phase->Locate_name),
            },
        ),
        w.phase matches PhaseView::Find { name, from } ==> rust_builder::rust_step(w) == Some(
            RustStepView::IsFile(from),
        ) && rust_builder::rust_after(w, RustReplyView::IsFile(true)) == Ok::<
            PhaseView,
            ErrorView,
        >(PhaseView::Directory { name, from }) && rust_builder::rust_after(
            w,
            RustReplyView::IsFile(false),
        ) is Err,
        w.phase matches PhaseView::Directory { name, from } ==> rust_builder::rust_step(w) == Some(
            RustStepView::CreateDirectory(paths::join_path(w.project_dir, ".pit/build"@)),
        ) && rust_builder::rust_after(w, RustReplyView::Done(true)) == Ok::<
            PhaseView,
            ErrorView,
        >(PhaseView::Copy { name, from }) && rust_builder::rust_after(
            w,
            RustReplyView::Done(false),
        ) is Err,
        w.phase matches PhaseView::Copy { name, from } ==> rust_builder::rust_step(w) == Some(
            RustStepView::Copy { from, to: built_place(w.project_dir, name) },
        ) && rust_builder::rust_after(w, RustReplyView::Done(true)) == Ok::<
            PhaseView,
            ErrorView,
        >(PhaseView::Collect { name }) && rust_builder::rust_after(
            w,
            RustReplyView::Done(false),
        ) is Err,
        w.phase matches PhaseView::Collect { name } ==> rust_builder::rust_step(w) == Some(
            RustStepView::Read(built_place(w.project_dir, name)),
        ),
{
}

/// The program that a build gives is described by what was read of it.
pub proof fn built_programs_are_described(w: RustBuildView, bytes: Seq<u8>, a: RustArtifactView)
    requires
        rust_builder::rust_after(w, RustReplyView::Contents(Some(bytes))) == Ok::<
            PhaseView,
            ErrorView,
        >(PhaseView::Built(a)),
        bytes.len() <= u64::MAX,
    ensures
        w.phase matches PhaseView::Collect { name } && a.name == name && a.artifact_path
            == built_place(w.project_dir, name),
        a.language == Language::Rust,
        a.target == "wasm32-wasip1"@,
        a.profile == w.profile,
        a.sha256 == digest::hex(digest::sha256_bytes(bytes)),
        a.size_bytes as nat == bytes.len(),
{
}

} // verus!
