//! What holds of every component that is collected: its manifest describes the bytes that
//! were read and the build that was asked for, and names the file that was built.

use crate::artifact::{ArtifactFormat, ComponentWorld, ManifestView};
use crate::bridge_laws;
use crate::builder;
use crate::builder::{BuildStepView, DraftView, RunView, StepReplyView};
use crate::digest;
use crate::error::{ErrorKind, ErrorView};
use crate::paths;
use crate::plan_laws;
use crate::text;
use crate::tooling;
use crate::tooling::{CommandView, ToolView};
use crate::validation;
use crate::wasm;
use vstd::prelude::*;

verus! {

/// A step of a build that fails ends the build, with what the tool said; one that
/// succeeds is behind it, and nothing else of the build changes.
pub proof fn failed_tools_end_the_build(w: RunView, command: CommandView, o: ToolView)
    requires
        w.steps.len() > 0,
        w.steps[0] == BuildStepView::Run(command),
    ensures
        o.success ==> builder::run_after(w, StepReplyView::Command(Some(o))) == Ok::<
            RunView,
            ErrorView,
        >(RunView { steps: w.steps.drop_first(), draft: w.draft, manifest: w.manifest }),
        !o.success ==> (builder::run_after(w, StepReplyView::Command(Some(o))) matches Err(e)
            && e.kind == ErrorKind::Tool && command.failed.is_prefix_of(e.text)
            && text::has_text(e.text, tooling::output_of(o.stdout, o.stderr))),
        builder::run_after(w, StepReplyView::Command(None)) matches Err(e) && e.text
            == command.not_started,
{
    if !o.success {
        let said = tooling::output_of(o.stdout, o.stderr);
        let message = command.failed + said;
        let n = command.failed.len() as int;
        assert(message.subrange(0, n) =~= command.failed);
        assert(message.subrange(n, n + said.len()) =~= said);
        assert(text::occurs_at(message, said, n));
    }
}

/// Whether bytes begin with the magic number and the version of a component.
pub open spec fn begins_component(bytes: Seq<u8>) -> bool {
    bytes.len() >= 8 && bytes[0] == 0 && bytes[1] == 0x61 && bytes[2] == 0x73 && bytes[3] == 0x6d
        && bytes[4] == 0x0d && bytes[5] == 0 && bytes[6] == 1 && bytes[7] == 0
}

/// Whether bytes begin with the magic number and the version of a module.
pub open spec fn begins_module(bytes: Seq<u8>) -> bool {
    bytes.len() >= 8 && bytes[0] == 0 && bytes[1] == 0x61 && bytes[2] == 0x73 && bytes[3] == 0x6d
        && bytes[4] == 1 && bytes[5] == 0 && bytes[6] == 0 && bytes[7] == 0
}

/// What a file holds is told by its first bytes.
pub proof fn formats_are_told_by_the_header(path: Seq<char>, bytes: Seq<u8>)
    ensures
        wasm::detected_format(path, Some(bytes)) == Ok::<ArtifactFormat, ErrorView>(
            ArtifactFormat::Component,
        ) <==> begins_component(bytes),
        wasm::detected_format(path, Some(bytes)) == Ok::<ArtifactFormat, ErrorView>(
            ArtifactFormat::CoreModule,
        ) <==> begins_module(bytes),
        wasm::detected_format(path, None) is Err,
{
    let m = wasm::module_header();
    let c = wasm::component_header();
    if bytes.len() >= 8 {
        let first = bytes.subrange(0, 8);
        assert forall|i: int| 0 <= i < 8 implies first[i] == bytes[i] by {}
        if begins_module(bytes) {
            assert(first =~= m);
        }
        if begins_component(bytes) {
            assert(first =~= c);
        }
        if m.is_prefix_of(bytes) {
            assert(m == first);
            assert(m[4] == 1u8);
        }
        if c.is_prefix_of(bytes) {
            assert(c == first);
            assert(c[4] == 0x0du8);
        }
    }
}

/// Only a component is collected, and its manifest describes it: its name, its digest and
/// size, the build, and the world that it runs in.
pub proof fn collected_components_are_described(
    d: DraftView,
    path: Seq<char>,
    complaint: Seq<char>,
    bytes: Seq<u8>,
    m: ManifestView,
)
    requires
        builder::collected(d, path, complaint, Some(bytes)) == Ok::<ManifestView, ErrorView>(m),
        bytes.len() <= u64::MAX,
    ensures
        begins_component(bytes),
        validation::violation(m) is None,
        m.artifact.name == d.name,
        m.artifact.path == paths::join_path("build"@, d.name + ".wasm"@),
        m.artifact.sha256 == digest::hex(digest::sha256_bytes(bytes)),
        m.artifact.size_bytes as nat == bytes.len(),
        m.build.language == d.language,
        m.build.target == d.target,
        m.build.profile == d.profile,
        m.build.fingerprint == d.fingerprint,
        m.build.toolchain == Some(d.toolchain.name),
        m.build.toolchain_version == Some(d.toolchain.version),
        m.runtime.abi == "wasi-preview2"@,
        m.runtime.format == ArtifactFormat::Component,
        m.runtime.world == Some(d.world),
        m.runtime.entrypoint == (match d.world {
            ComponentWorld::WasiCliCommand => "wasi:cli/command"@,
            ComponentWorld::WasiHttpProxy => "wasi:http/proxy"@,
        }),
        m.execution == d.execution,
        m.capabilities == seq!["stdio"@, "args"@, "env"@],
{
    formats_are_told_by_the_header(path, bytes);
}

/// A component is collected wherever there is one and the draft names and identifies it.
pub proof fn components_are_collected(
    d: DraftView,
    path: Seq<char>,
    complaint: Seq<char>,
    bytes: Seq<u8>,
)
    requires
        bytes.len() <= u64::MAX,
    ensures
        begins_component(bytes) && validation::violation(builder::component_manifest(d, bytes))
            is None ==> builder::collected(d, path, complaint, Some(bytes)) is Ok,
        begins_module(bytes) ==> (builder::collected(d, path, complaint, Some(bytes)) matches Err(e)
            && e.text == complaint),
        builder::collected(d, path, complaint, None) is Err,
{
    formats_are_told_by_the_header(path, bytes);
}

/// The manifest of a component names the file that was built: the path that it gives, in
/// the directory of builds of the project, is that of the artifact.
pub proof fn manifests_name_what_was_built(
    project_dir: Seq<char>,
    default: Seq<char>,
    d: DraftView,
    bytes: Seq<u8>,
)
    requires
        d.name == builder::artifact_name(project_dir, default),
        d.name.len() > 0,
        d.name[0] != '/',
    ensures
        validation::artifact_place(builder::component_manifest(d, bytes), project_dir)
            == plan_laws::artifact_path(project_dir, default),
{
    reveal_strlit("build");
    reveal_strlit(".wasm");
    let file = d.name + ".wasm"@;
    let pit = paths::join_path(project_dir, ".pit"@);
    assert("build"@.last() == 'd');
    assert("build"@[0] == 'b');
    assert(file[0] == d.name[0]);
    bridge_laws::lemma_join(pit, "build"@, file);
    assert(paths::join_path("build"@, file) =~= "build"@.push('/') + file);
}

} // verus!
