//! What a build takes over and what it makes anew: an earlier artifact is looked at only
//! where everything that was asked for is as it was.

use crate::adapter::ApplicationAdapter;
use crate::artifact::{ArtifactFormat, ComponentWorld, ManifestView};
use crate::builder::LanguageBuilder;
use crate::cache;
use crate::digest;
use crate::error::ErrorView;
use crate::fingerprint;
use crate::fingerprint_laws;
use crate::identity_laws;
use crate::manifest_json;
use crate::paths;
use crate::raw_artifact;
use crate::request;
use crate::request::{BuildOutput, BuildRequest, OutputView, RequestView};
use crate::selection;
use crate::session;
use crate::session::{ActionView, ReplyView, SessionView, StageView, WorkView};
use crate::text;
use crate::validation;
use crate::validation::StoredView;
use vstd::prelude::*;
use vstd::utf8;

verus! {

/// The digest of the bridge that a request was prepared with.
pub open spec fn bridge_of(r: RequestView) -> Option<Seq<char>> {
    match r.adapter_workspace {
        Some(w) => Some(w.digest),
        None => None,
    }
}

/// Whether a manifest is of a build like the one that is asked for: same sources and
/// toolchain by their fingerprint, same profile, ABI, world, interface, adapter and bridge.
pub open spec fn is_of_the_same_build(
    m: ManifestView,
    r: RequestView,
    fingerprint: Seq<char>,
) -> bool {
    &&& m.build.fingerprint == fingerprint
    &&& m.build.profile == r.profile
    &&& m.runtime.abi == r.abi
    &&& r.abi == "wasi-preview1"@ ==> m.build.target == "wasm32-wasip1"@
    &&& r.abi == "wasi-preview2"@ ==> m.build.target == "wasm32-wasip2"@
    &&& r.abi == "wasi-preview2"@ && r.world is Some ==> m.runtime.world == r.world
    &&& m.build.application_interface == r.application_interface
    &&& m.build.adapter == r.adapter
    &&& m.build.adapter_digest == bridge_of(r)
}

/// Where the manifest of a project is.
pub open spec fn manifest_path(r: RequestView) -> Seq<char> {
    paths::join_path(r.project_dir, ".pit/artifact.json"@)
}

/// An earlier artifact is gone on with only if its manifest is of the same build.
pub proof fn other_builds_are_not_taken_over<B: LanguageBuilder, A: ApplicationAdapter>(
    w: SessionView<B, A>,
    contents: Option<Seq<u8>>,
    work: WorkView<B>,
    fingerprint: Seq<char>,
)
    requires
        w.stage == (StageView::<B, A>::Look { work, fingerprint }),
    ensures
        session::after(w, ReplyView::Contents(contents)) matches Ok(n) && n.context == w.context
            && (n.stage matches StageView::Check { work: k, fingerprint: f, manifest: m } ==> k
            == work && f == fingerprint && is_of_the_same_build(m, w.context.request, fingerprint)
            && validation::is_valid(m) && manifest_json::loaded(
            manifest_path(w.context.request),
            contents,
        ) == Ok::<ManifestView, ErrorView>(m)),
        session::after(w, ReplyView::Contents(contents)) matches Ok(n) && (!(n.stage is Check)
            ==> n.stage == (match work {
            WorkView::Source(builder) => StageView::<B, A>::Build { builder, fingerprint },
            WorkView::Raw(format) => StageView::<B, A>::RawDirectory { format, fingerprint },
        })),
{
    validation::lemma_abi_names();
    reveal(session::after_look);
    let r = w.context.request;
    if cache::cached_manifest(r, fingerprint, contents) is Some {
        cache::cached_manifest_is_valid(r, fingerprint, contents);
    }
}

/// Where the manifest of an earlier build says anything else than is asked for, or cannot be
/// read, the project is built anew.
pub proof fn changed_builds_are_made_anew<B: LanguageBuilder, A: ApplicationAdapter>(
    w: SessionView<B, A>,
    contents: Option<Seq<u8>>,
    work: WorkView<B>,
    fingerprint: Seq<char>,
    m: ManifestView,
)
    requires
        w.stage == (StageView::<B, A>::Look { work, fingerprint }),
        manifest_json::loaded(manifest_path(w.context.request), contents) is Err || (
        manifest_json::loaded(manifest_path(w.context.request), contents) == Ok::<
            ManifestView,
            ErrorView,
        >(m) && !is_of_the_same_build(m, w.context.request, fingerprint)),
    ensures
        session::after(w, ReplyView::Contents(contents)) matches Ok(n) && n.stage == (match work {
            WorkView::Source(builder) => StageView::<B, A>::Build { builder, fingerprint },
            WorkView::Raw(format) => StageView::<B, A>::RawDirectory { format, fingerprint },
        }),
{
    other_builds_are_not_taken_over(w, contents, work, fingerprint);
}

/// Where the manifest of an earlier build is of the same build, its artifact is looked at.
pub proof fn same_builds_are_looked_at<B: LanguageBuilder, A: ApplicationAdapter>(
    w: SessionView<B, A>,
    contents: Option<Seq<u8>>,
    work: WorkView<B>,
    fingerprint: Seq<char>,
    m: ManifestView,
)
    requires
        w.stage == (StageView::<B, A>::Look { work, fingerprint }),
        manifest_json::loaded(manifest_path(w.context.request), contents) == Ok::<
            ManifestView,
            ErrorView,
        >(m),
        is_of_the_same_build(m, w.context.request, fingerprint),
        w.context.request.abi == "wasi-preview1"@ || w.context.request.abi == "wasi-preview2"@,
    ensures
        session::after(w, ReplyView::Contents(contents)) matches Ok(n) && n.stage == (StageView::<
            B,
            A,
        >::Check { work, fingerprint, manifest: m }),
{
    validation::lemma_abi_names();
    reveal(session::after_look);
}

/// An artifact that was looked at is taken over as it is: of its manifest only the execution
/// defaults become those of the request, and the toolchain is the one that it names.
pub proof fn artifacts_are_taken_over_as_they_are<B: LanguageBuilder, A: ApplicationAdapter>(
    w: SessionView<B, A>,
    stored: StoredView,
    m: ManifestView,
)
    requires
        w.stage == (StageView::<B, A>::Reopen { manifest: m }),
    ensures
        session::after(w, ReplyView::Stored(stored)) matches Ok(n) ==> (n.stage
            matches StageView::Finished { output, reused } && reused && output.manifest == m
            && Some(output.artifact_path) == stored.path && output.toolchain.target
            == m.build.target && output.toolchain.name == (match m.build.toolchain {
            Some(t) => t,
            None => "unknown"@,
        }) && output.toolchain.version == (match m.build.toolchain_version {
            Some(t) => t,
            None => "unknown"@,
        })),
{
    reveal(session::after_reopen);
}

/// What a builder gives is recorded with the interface, the adapter and the bridge of the
/// request, and otherwise as it is, if it carries the fingerprint that was asked for.
pub proof fn built_artifacts_are_recorded<B: LanguageBuilder, A: ApplicationAdapter>(
    w: SessionView<B, A>,
    output: OutputView,
    builder: B,
    fingerprint: Seq<char>,
)
    requires
        w.stage == (StageView::<B, A>::Build { builder, fingerprint }),
    ensures
        session::after(w, ReplyView::Built(output)) matches Ok(n) ==> (n.stage
            matches StageView::Confirm { output: o } && o.artifact_path == output.artifact_path
            && o.toolchain == output.toolchain && o.manifest.artifact == output.manifest.artifact
            && o.manifest.runtime == output.manifest.runtime && o.manifest.execution
            == output.manifest.execution && o.manifest.capabilities
            == output.manifest.capabilities && o.manifest.build.language
            == output.manifest.build.language && o.manifest.build.target
            == output.manifest.build.target && o.manifest.build.profile
            == output.manifest.build.profile && o.manifest.build.toolchain
            == output.manifest.build.toolchain && o.manifest.build.toolchain_version
            == output.manifest.build.toolchain_version && o.manifest.build.application_interface
            == w.context.request.application_interface && o.manifest.build.adapter
            == w.context.request.adapter && o.manifest.build.adapter_digest == bridge_of(
            w.context.request,
        ) && o.manifest.build.fingerprint == fingerprint),
        output.manifest.build.fingerprint != fingerprint ==> session::after(
            w,
            ReplyView::Built(output),
        ) is Err,
{
    reveal(session::after_build);
}

/// What a build asks for at each stage: where manifests are read and written, and which
/// files are looked at.
pub proof fn builds_ask_for_the_right_files<B: LanguageBuilder, A: ApplicationAdapter>(
    w: SessionView<B, A>,
)
    ensures
        ({
            let r = w.context.request;
            let pit = paths::join_path(r.project_dir, ".pit"@);
            let asked = session::asks(w);
            &&& w.stage is Locate ==> asked == Some(ActionView::<B>::Resolve(r.project_dir))
            &&& w.stage is Directory ==> asked == Some(ActionView::<B>::IsDirectory(r.project_dir))
            &&& w.stage is Discover ==> asked == Some(ActionView::<B>::Discover(r.project_dir))
            &&& w.stage is LocateRaw && r.raw_artifact is Some ==> asked == Some(
                ActionView::<B>::Resolve(r.raw_artifact->0),
            )
            &&& w.stage is Open && r.adapter is Some ==> asked == Some(
                ActionView::<B>::OpenAdapter(paths::join_path(r.project_dir, r.adapter->0)),
            )
            &&& w.stage is Look ==> asked == Some(ActionView::<B>::Read(manifest_path(r)))
            &&& w.stage matches StageView::Check { work, fingerprint, manifest } ==> asked == Some(
                ActionView::<B>::Inspect {
                    pit_root: pit,
                    path: paths::join_path(pit, manifest.artifact.path),
                },
            )
            &&& w.stage matches StageView::Confirm { output } ==> asked == Some(
                ActionView::<B>::Inspect {
                    pit_root: pit,
                    path: paths::join_path(pit, output.manifest.artifact.path),
                },
            )
            &&& w.stage matches StageView::Renew { manifest } ==> asked == Some(
                ActionView::<B>::Write { manifest, path: manifest_path(r) },
            )
            &&& w.stage matches StageView::Record { output } ==> asked == Some(
                ActionView::<B>::Write { manifest: output.manifest, path: manifest_path(r) },
            )
            &&& w.stage matches StageView::Fingerprint { builder } ==> asked == Some(
                ActionView::<B>::Fingerprint { builder, request: r },
            )
            &&& w.stage matches StageView::Build { builder, fingerprint } ==> asked == Some(
                ActionView::<B>::Build { builder, request: r, fingerprint },
            )
        }),
{
}

/// The fingerprint that a build goes on with.
pub open spec fn fingerprint_of<B, A>(stage: StageView<B, A>) -> Option<Seq<char>> {
    match stage {
        StageView::Look { work, fingerprint } => Some(fingerprint),
        StageView::Build { builder, fingerprint } => Some(fingerprint),
        StageView::RawDirectory { format, fingerprint } => Some(fingerprint),
        _ => None,
    }
}

proof fn lemma_middle_of_texts(before: Seq<char>, a: Seq<char>, b: Seq<char>, behind: Seq<char>)
    requires
        a != b,
    ensures
        before + a + behind != before + b + behind,
{
    let x = before + a + behind;
    let y = before + b + behind;
    if x == y {
        assert(x.len() == before.len() + a.len() + behind.len());
        assert(y.len() == before.len() + b.len() + behind.len());
        assert forall|i: int| 0 <= i < a.len() implies a[i] == b[i] by {
            assert(x[before.len() + i] == a[i]);
            assert(y[before.len() + i] == b[i]);
        }
        assert(a =~= b);
    }
}

/// Whether two requests differ in one thing: the interface, the entrypoint, the adapter or
/// the bridge.
pub open spec fn are_adapted_differently(r: RequestView, s: RequestView) -> bool {
    let interface = r.application_interface != s.application_interface;
    let entrypoint = r.entrypoint != s.entrypoint;
    let adapter = r.adapter != s.adapter;
    let bridge = bridge_of(r) != bridge_of(s);
    &&& r.application_interface is Some && s.application_interface is Some
    &&& r.entrypoint is Some && s.entrypoint is Some
    &&& r.adapter is Some && s.adapter is Some
    &&& bridge_of(r) is Some && bridge_of(s) is Some
    &&& (interface && !entrypoint && !adapter && !bridge) || (!interface && entrypoint && !adapter
        && !bridge) || (!interface && !entrypoint && adapter && !bridge) || (!interface
        && !entrypoint && !adapter && bridge)
}

proof fn lemma_material(r: RequestView, s: RequestView)
    requires
        are_adapted_differently(r, s),
    ensures
        request::adaptation_material(r) != request::adaptation_material(s),
{
    let (i, e, a, d) = (
        text::text_or_empty(r.application_interface),
        text::text_or_empty(r.entrypoint),
        text::text_or_empty(r.adapter),
        text::text_or_empty(bridge_of(r)),
    );
    let (j, f, b, g) = (
        text::text_or_empty(s.application_interface),
        text::text_or_empty(s.entrypoint),
        text::text_or_empty(s.adapter),
        text::text_or_empty(bridge_of(s)),
    );
    let none = Seq::<char>::empty();
    let x = request::adaptation_material(r);
    let y = request::adaptation_material(s);
    if i != j {
        let behind = ";entry="@ + e + ";adapter="@ + a + ";adapter_digest="@ + d;
        assert(x =~= "interface="@ + i + behind);
        assert(y =~= "interface="@ + j + behind);
        lemma_middle_of_texts("interface="@, i, j, behind);
    } else if e != f {
        let before = "interface="@ + i + ";entry="@;
        let behind = ";adapter="@ + a + ";adapter_digest="@ + d;
        assert(x =~= before + e + behind);
        assert(y =~= before + f + behind);
        lemma_middle_of_texts(before, e, f, behind);
    } else if a != b {
        let before = "interface="@ + i + ";entry="@ + e + ";adapter="@;
        let behind = ";adapter_digest="@ + d;
        assert(x =~= before + a + behind);
        assert(y =~= before + b + behind);
        lemma_middle_of_texts(before, a, b, behind);
    } else {
        let before = "interface="@ + i + ";entry="@ + e + ";adapter="@ + a + ";adapter_digest="@;
        assert(x =~= before + d + none);
        assert(y =~= before + g + none);
        lemma_middle_of_texts(before, d, g, none);
    }
}

/// A build has another fingerprint where the builder's is another, and where it is asked for
/// with another interface, entrypoint, adapter or bridge.
pub proof fn adaptations_change_the_fingerprint<B: LanguageBuilder, A: ApplicationAdapter>(
    w: SessionView<B, A>,
    v: SessionView<B, A>,
    first: Seq<char>,
    second: Seq<char>,
)
    requires
        w.stage is Fingerprint,
        v.stage is Fingerprint,
        (first != second && w.context.request == v.context.request) || (first == second
            && are_adapted_differently(w.context.request, v.context.request)),
    ensures
        session::after(w, ReplyView::Fingerprint(first)) matches Ok(n) && session::after(
            v,
            ReplyView::Fingerprint(second),
        ) matches Ok(m) && fingerprint_of(n.stage) is Some && fingerprint_of(m.stage) is Some
            && fingerprint_laws::are_of_different_bytes(
            fingerprint_of(n.stage)->0,
            fingerprint_of(m.stage)->0,
        ),
{
    let r = w.context.request;
    let s = v.context.request;
    let x = cache::adaptation_bytes(first, r);
    let y = cache::adaptation_bytes(second, s);
    if first != second {
        identity_laws::builders_take_part_in_the_identity(first, second, r);
    } else {
        lemma_material(r, s);
        if x == y {
            let none = Seq::<u8>::empty();
            let a = utf8::encode_utf8(request::adaptation_material(r));
            let b = utf8::encode_utf8(request::adaptation_material(s));
            assert(fingerprint::field_bytes(first) + a + none =~= x);
            assert(fingerprint::field_bytes(first) + b + none =~= y);
            identity_laws::lemma_middle(fingerprint::field_bytes(first), a, b, none);
            identity_laws::lemma_utf8_injective(
                request::adaptation_material(r),
                request::adaptation_material(s),
            );
        }
    }
    let n = session::after(w, ReplyView::Fingerprint(first))->Ok_0;
    let m = session::after(v, ReplyView::Fingerprint(second))->Ok_0;
    assert(fingerprint_of(n.stage)->0 == digest::hex(digest::sha256_bytes(x)));
    assert(fingerprint_of(m.stage)->0 == digest::hex(digest::sha256_bytes(y)));
}

/// A provided artifact has another fingerprint where its contents are others.
pub proof fn provided_contents_change_the_fingerprint<B: LanguageBuilder, A: ApplicationAdapter>(
    w: SessionView<B, A>,
    first: Seq<u8>,
    second: Seq<u8>,
    n: SessionView<B, A>,
    m: SessionView<B, A>,
)
    requires
        w.stage is ReadRaw,
        first != second,
        session::after(w, ReplyView::Contents(Some(first))) == Ok::<SessionView<B, A>, ErrorView>(n),
        session::after(w, ReplyView::Contents(Some(second))) == Ok::<SessionView<B, A>, ErrorView>(m),
        n.context == m.context,
        fingerprint_of(n.stage) is Some,
        fingerprint_of(m.stage) is Some,
        raw_format(n.stage) == raw_format(m.stage),
    ensures
        fingerprint_laws::are_of_different_bytes(
            fingerprint_of(n.stage)->0,
            fingerprint_of(m.stage)->0,
        ),
{
    let r = n.context.request;
    let format = raw_format(n.stage)->0;
    identity_laws::provided_artifacts_take_part_in_the_identity(
        r,
        format,
        first,
        r,
        format,
        second,
    );
    let x = cache::raw_bytes(r, format, first);
    let y = cache::raw_bytes(r, format, second);
    assert(fingerprint_of(n.stage)->0 == digest::hex(digest::sha256_bytes(x)));
    assert(fingerprint_of(m.stage)->0 == digest::hex(digest::sha256_bytes(y)));
}

/// The format of a provided artifact that a build goes on with.
pub open spec fn raw_format<B, A>(stage: StageView<B, A>) -> Option<ArtifactFormat> {
    match stage {
        StageView::Look { work: WorkView::Raw(format), fingerprint } => Some(format),
        StageView::RawDirectory { format, fingerprint } => Some(format),
        _ => None,
    }
}

/// A provided artifact is wrapped as what it is: a component serves HTTP on the second
/// preview, a module runs on the first. Its manifest describes the bytes.
pub proof fn provided_artifacts_are_described(
    request: BuildRequest,
    format: ArtifactFormat,
    fingerprint: &str,
    contents: &[u8],
    output: BuildOutput,
)
    requires
        call_ensures(
            raw_artifact::build_raw_artifact,
            (&request, format, fingerprint, contents),
            output,
        ),
        contents@.len() <= u64::MAX,
    ensures
        ({
            let m = output@.manifest;
            &&& m.artifact.sha256 == digest::hex(digest::sha256_bytes(contents@))
            &&& m.artifact.size_bytes as nat == contents@.len()
            &&& m.artifact.name == text::replaced(
                match paths::file_name(request@.project_dir) {
                    Some(name) => name,
                    None => "raw-component"@,
                },
                seq!['-'],
                '_',
            )
            &&& m.build.language == (match request.language {
                Some(l) => crate::language::language_text(l),
                None => "raw"@,
            })
            &&& m.build.fingerprint == fingerprint@
            &&& m.build.profile == request.profile
            &&& m.build.application_interface == request@.application_interface
            &&& m.build.adapter is None
            &&& m.execution == request.execution_defaults
            &&& m.runtime.format == format
            &&& format == ArtifactFormat::Component ==> m.runtime.abi == "wasi-preview2"@
                && m.runtime.entrypoint == "wasi:http/proxy"@ && m.runtime.world == Some(
                ComponentWorld::WasiHttpProxy,
            ) && m.build.target == "wasm32-wasip2"@
            &&& format == ArtifactFormat::CoreModule ==> m.runtime.abi == "wasi-preview1"@
                && m.runtime.entrypoint == "_start"@ && m.runtime.world is None && m.build.target
                == "wasm32-wasip1"@
            &&& m.capabilities.len() == 0
            &&& output@.artifact_path == paths::join_path(
                paths::join_path(request@.project_dir, ".pit/build"@),
                m.artifact.name + ".wasm"@,
            )
            &&& m.artifact.path == paths::join_path("build"@, m.artifact.name + ".wasm"@)
            &&& output@.toolchain.name == "provided"@
        }),
{
}

/// A provided artifact is taken only for the ABI and the world that it is for.
pub proof fn provided_artifacts_fit_the_request(
    request: BuildRequest,
    format: ArtifactFormat,
    r: Result<(), crate::error::PitError>,
)
    requires
        call_ensures(raw_artifact::check_raw_artifact, (&request, format), r),
    ensures
        format == ArtifactFormat::Component ==> (r is Ok <==> request@.abi == "wasi-preview2"@
            && request@.world != Some(ComponentWorld::WasiCliCommand)),
        format == ArtifactFormat::CoreModule ==> (r is Ok <==> request@.abi == "wasi-preview1"@
            && request@.world is None),
{
}

/// A provided artifact is copied aside first, then moved to where it is read and described.
pub proof fn provided_artifacts_are_copied_whole<B: LanguageBuilder, A: ApplicationAdapter>(
    w: SessionView<B, A>,
    raw: Seq<char>,
)
    requires
        w.context.request.raw_artifact == Some(raw),
    ensures
        ({
            let r = w.context.request;
            let directory = paths::join_path(r.project_dir, ".pit/build"@);
            let place = raw_artifact::raw_place(r.project_dir);
            let aside = raw_artifact::raw_temporary(r.project_dir, w.context.process);
            let asked = session::asks(w);
            &&& w.stage is ReadRaw ==> asked == Some(ActionView::<B>::Read(raw))
            &&& w.stage is RawDirectory ==> asked == Some(
                ActionView::<B>::CreateDirectory(directory),
            )
            &&& w.stage is RawCopy ==> asked == Some(ActionView::<B>::Copy { from: raw, to: aside })
            &&& w.stage is RawRename ==> asked == Some(
                ActionView::<B>::Rename { from: aside, to: place },
            )
            &&& w.stage is RawCollect ==> asked == Some(ActionView::<B>::Read(place))
            &&& exists|name: Seq<char>| place == #[trigger] paths::join_path(directory, name)
                && ".wasm"@.is_suffix_of(name)
            &&& exists|name: Seq<char>| aside == #[trigger] paths::join_path(directory, name)
                && ".tmp"@.is_suffix_of(name)
        }),
{
    let r = w.context.request;
    let directory = paths::join_path(r.project_dir, ".pit/build"@);
    let name = raw_artifact::raw_name(r.project_dir);
    let a = name + ".wasm"@;
    let first = "."@ + name + "."@ + text::decimal(w.context.process as nat);
    let b = first + ".tmp"@;
    assert(a.subrange(name.len() as int, a.len() as int) =~= ".wasm"@);
    assert(b.subrange(first.len() as int, b.len() as int) =~= ".tmp"@);
    assert(raw_artifact::raw_place(r.project_dir) == paths::join_path(directory, a));
    assert(raw_artifact::raw_temporary(r.project_dir, w.context.process) == paths::join_path(
        directory,
        b,
    ));
}

/// Without an adapter a project is taken to have the interface of its world.
pub proof fn plain_projects_have_the_interface_of_their_world<
    B: LanguageBuilder,
    A: ApplicationAdapter,
>(
    c: session::ContextView<B, A>,
    builder: B,
    candidate: Option<crate::project::CandidateView>,
    project: crate::project::ProjectView,
    host: crate::adapter::HostView,
)
    ensures
        session::adapted(c, builder, candidate, project, host, None) matches Ok(n) && n.stage == (
        StageView::<B, A>::Fingerprint { builder }) && (c.request.application_interface is Some
            ==> n.context.request == c.request) && (c.request.application_interface is None
            && c.request.world == Some(ComponentWorld::WasiHttpProxy)
            ==> n.context.request.application_interface == Some("wasi-http"@)) && (
        c.request.application_interface is None && c.request.world != Some(
            ComponentWorld::WasiHttpProxy,
        ) ==> n.context.request.application_interface == Some("wasi-cli"@)),
{
}

/// With an adapter a project is built with the interface and the entrypoint of its model,
/// under the adapter's name; the bridge that was prepared is what the build goes on with.
pub proof fn adapted_projects_carry_their_adapter<B: LanguageBuilder, A: ApplicationAdapter>(
    c: session::ContextView<B, A>,
    builder: B,
    candidate: Option<crate::project::CandidateView>,
    project: crate::project::ProjectView,
    host: crate::adapter::HostView,
    s: selection::SelectedView<A>,
    n: SessionView<B, A>,
    files: Seq<(Seq<char>, Seq<u8>)>,
)
    requires
        session::adapted(c, builder, candidate, project, host, Some(s)) == Ok::<
            SessionView<B, A>,
            ErrorView,
        >(n),
    ensures
        ({
            let model = selection::built_model(c.request, candidate, builder.builds(), s);
            &&& n.context.request.adapter == Some(s.id())
            &&& n.context.request.application_interface == model.application_interface
            &&& n.context.request.entrypoint == model.entrypoint
            &&& n.context.request.project_dir == c.request.project_dir
            &&& n.context.request.profile == c.request.profile
            &&& n.context.request.abi == c.request.abi
            &&& n.context.request.world == c.request.world
            &&& n.context.request.force == c.request.force
            &&& session::asks(n) matches Some(ActionView::Prepare(plan)) && s.planned(
                project,
                model,
                host,
            ) == Ok::<crate::adapter::PlanView, ErrorView>(plan)
            &&& s.completed(project, model, host, files) matches Ok(done) ==> (session::after(
                n,
                ReplyView::Prepared(files),
            ) matches Ok(next) && next.context.request.adapter_workspace == Some(done.0)
                && next.stage == (StageView::<B, A>::Fingerprint { builder }))
        }),
{
}

/// A new build ends with what was recorded.
pub proof fn new_builds_end_with_what_was_recorded<B: LanguageBuilder, A: ApplicationAdapter>(
    w: SessionView<B, A>,
    output: OutputView,
    stored: StoredView,
)
    ensures
        w.stage == (StageView::<B, A>::Record { output }) ==> session::after(w, ReplyView::Done)
            == Ok::<SessionView<B, A>, ErrorView>(
            SessionView {
                context: w.context,
                stage: StageView::<B, A>::Finished { output, reused: false },
            },
        ),
        w.stage == (StageView::<B, A>::Confirm { output }) && validation::verified(
            output.manifest,
            w.context.request.project_dir,
            stored,
        ) is Ok ==> session::after(w, ReplyView::Stored(stored)) == Ok::<
            SessionView<B, A>,
            ErrorView,
        >(SessionView { context: w.context, stage: StageView::<B, A>::Record { output } }),
        w.stage == (StageView::<B, A>::Confirm { output }) && validation::verified(
            output.manifest,
            w.context.request.project_dir,
            stored,
        ) is Err ==> session::after(w, ReplyView::Stored(stored)) is Err,
{
    reveal(session::after_confirm);
}

/// A provided artifact goes from where it is to the directory of builds, unless it is there,
/// and is then described from what was read there, if it fits the request.
pub proof fn provided_artifacts_are_put_in_place<B: LanguageBuilder, A: ApplicationAdapter>(
    w: SessionView<B, A>,
    format: ArtifactFormat,
    fingerprint: Seq<char>,
    raw: Seq<char>,
    bytes: Seq<u8>,
)
    requires
        w.context.request.raw_artifact == Some(raw),
        bytes.len() <= u64::MAX,
    ensures
        ({
            let r = w.context.request;
            let there = paths::same_path(raw, raw_artifact::raw_place(r.project_dir));
            let fits = raw_artifact::raw_checked(r, format) is Ok;
            let collect = Ok::<SessionView<B, A>, ErrorView>(
                SessionView {
                    context: w.context,
                    stage: StageView::<B, A>::RawCollect { format, fingerprint },
                },
            );
            &&& w.stage == (StageView::<B, A>::RawDirectory { format, fingerprint }) && !there
                ==> session::after(w, ReplyView::Done) == Ok::<SessionView<B, A>, ErrorView>(
                SessionView {
                    context: w.context,
                    stage: StageView::<B, A>::RawCopy { format, fingerprint },
                },
            )
            &&& w.stage == (StageView::<B, A>::RawDirectory { format, fingerprint }) && there
                && fits ==> session::after(w, ReplyView::Done) == collect
            &&& w.stage == (StageView::<B, A>::RawCopy { format, fingerprint })
                ==> session::after(w, ReplyView::Done) == Ok::<SessionView<B, A>, ErrorView>(
                SessionView {
                    context: w.context,
                    stage: StageView::<B, A>::RawRename { format, fingerprint },
                },
            )
            &&& w.stage == (StageView::<B, A>::RawRename { format, fingerprint }) && fits
                ==> session::after(w, ReplyView::Done) == collect
            &&& (w.stage == (StageView::<B, A>::RawRename { format, fingerprint }) || (w.stage == (
            StageView::<B, A>::RawDirectory { format, fingerprint }) && there)) && !fits
                ==> session::after(w, ReplyView::Done) is Err
            &&& w.stage == (StageView::<B, A>::RawCollect { format, fingerprint }) ==> (
            session::after(w, ReplyView::Contents(Some(bytes))) matches Ok(n) ==> n.stage is Confirm
                && n.stage->Confirm_output.manifest.artifact.sha256 == digest::hex(
                digest::sha256_bytes(bytes),
            ) && n.stage->Confirm_output.manifest.artifact.size_bytes as nat == bytes.len()
                && n.stage->Confirm_output.manifest.build.fingerprint == fingerprint
                && n.stage->Confirm_output.manifest.runtime.format == format
                && validation::is_valid(n.stage->Confirm_output.manifest))
        }),
{
    reveal(session::after_raw_collect);
    validation::valid_iff_no_violation(
        raw_artifact::raw_manifest(w.context.request, format, fingerprint, bytes),
    );
}

/// The builder that a build goes on with.
pub open spec fn builder_of<B, A>(stage: StageView<B, A>) -> Option<B> {
    match stage {
        StageView::Open { builder, candidate, project, host } => Some(builder),
        StageView::Prepare { builder, selected, project, host, model } => Some(builder),
        StageView::Fingerprint { builder } => Some(builder),
        _ => None,
    }
}

/// A project is built by a builder of the crew that takes it, in the language that is asked
/// for; an adapter that is named is opened first.
pub proof fn projects_are_built_by_who_takes_them<B: LanguageBuilder, A: ApplicationAdapter>(
    w: SessionView<B, A>,
    listing: Seq<(Seq<char>, crate::walk::EntryKind)>,
    project: crate::project::ProjectView,
    host: crate::adapter::HostView,
)
    requires
        w.stage is Discover,
    ensures
        session::after(w, ReplyView::Project { listing, project, host }) matches Ok(n) ==> (
        builder_of(n.stage) matches Some(b) && w.context.crew.builders.contains(b) && b.takes(
            listing,
        ) == crate::request::Detection::Yes && (w.context.request.language matches Some(l)
            ==> b.builds() == l) && (w.context.request.adapter is Some ==> n.stage is Open
            && n.context == w.context)),
        session::after(w, ReplyView::Project { listing, project, host }) matches Ok(n) ==> (n.stage
            matches StageView::Open { builder, candidate, project: p, host: h } ==> p == project
            && h == host && (candidate matches Some(c) ==> (w.context.request.language
            matches Some(l) ==> c.language == l) && (w.context.request.application_interface
            matches Some(i) ==> c.application_interface == Some(i)) && exists|i: int|
            0 <= i < w.context.crew.adapters.len() && (
            #[trigger] w.context.crew.adapters[i]).detected(project) == Some(c))),
{
    reveal(session::after_discover);
    let r = w.context.request;
    let c = w.context;
    crate::choice_laws::chosen_builders_take_the_project(
        c.crew.builders,
        r.project_dir,
        listing,
        r.language,
    );
    let found = selection::found_by(c.crew.adapters, project, r.language);
    crate::choice_laws::applications_are_chosen_without_doubt(r.application_interface, found, 0);
    if let Ok(Some(chosen)) = selection::chosen_candidate(r.application_interface, found) {
        crate::choice_laws::every_application_is_found(
            c.crew.adapters,
            project,
            r.language,
            chosen,
        );
    }
}

/// The compatibility that a crew reports is what the adapter of the project says; where no
/// adapter fits there is nothing to report.
pub proof fn crews_report_what_the_adapter_says<A: ApplicationAdapter>(
    adapters: Seq<A>,
    project: crate::project::ProjectView,
    r: RequestView,
    directory: Option<selection::AdapterDirectoryView>,
    candidate: Option<crate::project::CandidateView>,
    s: selection::SelectedView<A>,
    report: crate::project::ReportView,
)
    requires
        selection::chosen_candidate(
            r.application_interface,
            selection::found_by(adapters, project, r.language),
        ) == Ok::<Option<crate::project::CandidateView>, ErrorView>(candidate),
    ensures
        selection::selected(adapters, r, candidate, directory) == Ok::<
            Option<selection::SelectedView<A>>,
            ErrorView,
        >(Some(s)) && s.inspected(project, selection::inspected_model(r, candidate, s)) == Ok::<
            crate::project::ReportView,
            ErrorView,
        >(report) ==> crate::crew::compatibility_outcome(adapters, project, r, directory) == Ok::<
            Option<crate::project::ReportView>,
            ErrorView,
        >(Some(report)),
        selection::selected(adapters, r, candidate, directory) == Ok::<
            Option<selection::SelectedView<A>>,
            ErrorView,
        >(None) ==> crate::crew::compatibility_outcome(adapters, project, r, directory) == Ok::<
            Option<crate::project::ReportView>,
            ErrorView,
        >(None),
        selection::selected(adapters, r, candidate, directory) is Err
            ==> crate::crew::compatibility_outcome(adapters, project, r, directory) is Err,
{
}

proof fn lemma_ends_differ(dir: Seq<char>, first: Seq<char>, a: Seq<char>, b: Seq<char>, last: Seq<char>)
    requires
        a != b,
        first.len() > 0,
    ensures
        paths::join_path(dir, first + a + last) != paths::join_path(dir, first + b + last),
{
    lemma_middle_of_texts(first, a, b, last);
    let x = first + a + last;
    let y = first + b + last;
    assert(x[0] == first[0] && y[0] == first[0]);
    if paths::join_path(dir, x) == paths::join_path(dir, y) && x != y {
        let n = (paths::join_path(dir, x).len() - x.len()) as int;
        assert(paths::join_path(dir, x).skip(n) =~= x);
        assert(paths::join_path(dir, y).skip(n) =~= y);
    }
}

proof fn lemma_numbers_differ(a: nat, b: nat)
    requires
        a != b,
    ensures
        text::decimal(a) != text::decimal(b),
{
    crate::path_laws::digits_stand_for_the_number(a);
    crate::path_laws::digits_stand_for_the_number(b);
}

/// Two processes that put one artifact in place, or write one manifest, do not use one file
/// for it before it is renamed.
pub proof fn processes_keep_apart(
    project_dir: Seq<char>,
    path: Seq<char>,
    first: u32,
    second: u32,
    counter: u64,
    other: u64,
)
    ensures
        first != second ==> raw_artifact::raw_temporary(project_dir, first)
            != raw_artifact::raw_temporary(project_dir, second),
        first != second ==> manifest_json::temporary_name(path, first, counter)
            != manifest_json::temporary_name(path, second, counter),
        counter != other ==> manifest_json::temporary_name(path, first, counter)
            != manifest_json::temporary_name(path, first, other),
{
    reveal_strlit(".");
    let name = match paths::file_name(path) {
        Some(name) => name,
        None => "manifest"@,
    };
    let before = "."@ + name + "."@;
    if first != second {
        lemma_numbers_differ(first as nat, second as nat);
        let (a, b) = (text::decimal(first as nat), text::decimal(second as nat));
        lemma_ends_differ(
            raw_artifact::raw_directory(project_dir),
            "."@ + raw_artifact::raw_name(project_dir) + "."@,
            a,
            b,
            ".tmp"@,
        );
        let behind = "."@ + text::decimal(counter as nat) + ".tmp"@;
        lemma_middle_of_texts(before, a, b, behind);
        assert(manifest_json::temporary_name(path, first, counter) =~= before + a + behind);
        assert(manifest_json::temporary_name(path, second, counter) =~= before + b + behind);
    }
    if counter != other {
        lemma_numbers_differ(counter as nat, other as nat);
        let (a, b) = (text::decimal(counter as nat), text::decimal(other as nat));
        let start = before + text::decimal(first as nat) + "."@;
        lemma_middle_of_texts(start, a, b, ".tmp"@);
        assert(manifest_json::temporary_name(path, first, counter) =~= start + a + ".tmp"@);
        assert(manifest_json::temporary_name(path, first, other) =~= start + b + ".tmp"@);
    }
}

/// Two processes that build one Go project do not write to one file before it is renamed.
pub proof fn go_builds_keep_apart(r: RequestView, first: u32, second: u32)
    requires
        first != second,
        crate::builder::artifact_name(r.project_dir, "go-component"@).len() > 0,
    ensures
        crate::go_builder::go_staging(r, first) != crate::go_builder::go_staging(r, second),
{
    lemma_numbers_differ(first as nat, second as nat);
    lemma_ends_differ(
        crate::builder::below_pit(r.project_dir, "tmp"@),
        crate::builder::artifact_name(r.project_dir, "go-component"@) + "."@,
        text::decimal(first as nat),
        text::decimal(second as nat),
        ".wasm"@,
    );
}

} // verus!
