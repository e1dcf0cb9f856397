//! What holds of every bridge that was prepared: the builder is pointed to what was
//! written, and the bridge is identified by what it is made of.

use crate::adapter;
use crate::adapter::{ApplicationAdapter, HostView, PlanView, StepView};
use crate::artifact::ComponentWorld;
use crate::digest;
use crate::error::ErrorView;
use crate::external_adapter;
use crate::external_adapter::ExternalView;
use crate::fingerprint;
use crate::go_net_http;
use crate::go_net_http::GoNetHttpAdapter;
use crate::identity_laws;
use crate::javascript_fetch;
use crate::javascript_fetch::JavaScriptFetchAdapter;
use crate::language;
use crate::language::Language;
use crate::paths;
use crate::project::{CandidateView, ProjectView, WorkspaceView};
use crate::python_asgi;
use crate::python_asgi::PythonAsgiAdapter;
use crate::text;
use vstd::prelude::*;

verus! {

/// Whether a plan writes a file at `path`.
pub open spec fn writes_at(plan: PlanView, path: Seq<char>) -> bool {
    exists|i: int|
        0 <= i < plan.steps.len() && (#[trigger] plan.steps[i]) is WriteFile
            && plan.steps[i]->WriteFile_path == path
}

/// Whether a workspace is the one that a plan prepares, with the project behind it.
pub open spec fn is_prepared(
    w: WorkspaceView,
    plan: PlanView,
    project: ProjectView,
    id: Seq<char>,
) -> bool {
    &&& w.root == plan.root
    &&& w.source_roots == seq![plan.root, project.root]
    &&& w.adapter == id
    &&& plan.steps.contains(StepView::CreateDirectory(plan.root)) || exists|i: int|
        0 <= i < plan.steps.len() && (#[trigger] plan.steps[i]) is CreateDirectory
            && paths::lies_below(plan.steps[i]->CreateDirectory_0, plan.root)
}

/// The workspace of an ASGI application has the bridge as the module of its entrypoint, and
/// the WIT files that were put beside it.
pub proof fn asgi_workspaces_hold_the_bridge(
    a: PythonAsgiAdapter,
    project: ProjectView,
    model: CandidateView,
    host: HostView,
    files: Seq<(Seq<char>, Seq<u8>)>,
    plan: PlanView,
)
    requires
        a.planned(project, model, host) == Ok::<PlanView, ErrorView>(plan),
    ensures
        a.completed(project, model, host, files) matches Ok(done) && is_prepared(
            done.0,
            plan,
            project,
            a.id_text(),
        ) && writes_at(plan, paths::join_path(done.0.root, done.0.entrypoint + ".py"@))
            && done.0.wit_path is Some && plan.steps.contains(
            StepView::CopyTree { source: host.wit_template, destination: done.0.wit_path->0 },
        ) && done.0.generated_files.len() == files.len() && done.1 == ComponentWorld::WasiHttpProxy,
{
    reveal_strlit("app");
    reveal_strlit(".py");
    reveal_strlit("app.py");
    assert("app"@ + ".py"@ =~= "app.py"@);
    let done = a.completed(project, model, host, files)->Ok_0;
    assert(plan.steps[0] == StepView::CreateDirectory(plan.root));
    assert(plan.steps[2] == (StepView::CopyTree {
        source: host.wit_template,
        destination: done.0.wit_path->0,
    }));
    assert(plan.steps[3] is WriteFile);
    let key = |f: (Seq<char>, Seq<u8>)| paths::path_key(f.0);
    crate::ordering::stable_sort_sorts(files, key);
}

/// The workspace of a Fetch handler has the bridge as its main file.
pub proof fn fetch_workspaces_hold_the_bridge(
    a: JavaScriptFetchAdapter,
    project: ProjectView,
    model: CandidateView,
    host: HostView,
    files: Seq<(Seq<char>, Seq<u8>)>,
    plan: PlanView,
)
    requires
        a.planned(project, model, host) == Ok::<PlanView, ErrorView>(plan),
    ensures
        a.completed(project, model, host, files) matches Ok(done) && is_prepared(
            done.0,
            plan,
            project,
            a.id_text(),
        ) && writes_at(plan, paths::join_path(done.0.root, done.0.entrypoint))
            && done.0.generated_files.len() == files.len() && done.1
            == ComponentWorld::WasiHttpProxy,
{
    assert(plan.steps[0] == StepView::CreateDirectory(plan.root));
    assert(plan.steps[1] is WriteFile);
    let key = |f: (Seq<char>, Seq<u8>)| paths::path_key(f.0);
    crate::ordering::stable_sort_sorts(files, key);
}

/// The workspace of a Go handler has the bridge in the package of its exports.
pub proof fn go_workspaces_hold_the_bridge(
    a: GoNetHttpAdapter,
    project: ProjectView,
    model: CandidateView,
    host: HostView,
    files: Seq<(Seq<char>, Seq<u8>)>,
    plan: PlanView,
)
    requires
        a.planned(project, model, host) == Ok::<PlanView, ErrorView>(plan),
    ensures
        a.completed(project, model, host, files) matches Ok(done) && is_prepared(
            done.0,
            plan,
            project,
            a.id_text(),
        ) && writes_at(
            plan,
            paths::join_path(
                paths::join_path(done.0.root, "export_wasi_http_incoming_handler"@),
                "handler.go"@,
            ),
        ) && plan.steps.contains(
            StepView::CreateDirectory(
                paths::join_path(done.0.root, "export_wasi_http_incoming_handler"@),
            ),
        ) && done.0.generated_files.len() == files.len() && done.1
            == ComponentWorld::WasiHttpProxy,
{
    let package = "export_wasi_http_incoming_handler"@;
    reveal_strlit("export_wasi_http_incoming_handler");
    assert(package.len() == 33);
    assert(!package.contains('/'));
    assert(package[0] == 'e');
    assert(crate::path_laws::is_plain_name(package)) by {
        if package == seq!['.'] || package == seq!['.', '.'] {
            assert(package[0] == '.');
        }
    }
    crate::path_laws::files_have_their_names(plan.root, package);
    assert(plan.steps[0] == StepView::CreateDirectory(paths::join_path(plan.root, package)));
    assert(plan.steps[1] is WriteFile);
    let key = |f: (Seq<char>, Seq<u8>)| paths::path_key(f.0);
    crate::ordering::stable_sort_sorts(files, key);
}

/// Whether two digests of bridges are of different bytes.
pub open spec fn are_of_different_bridges(a: Seq<char>, b: Seq<char>) -> bool {
    exists|x: Seq<u8>, y: Seq<u8>|
        x != y && a == "sha256:"@ + #[trigger] digest::hex(digest::sha256_bytes(x)) && b
            == "sha256:"@ + #[trigger] digest::hex(digest::sha256_bytes(y))
}

/// The bytes of a bridge differ where one of its files does.
proof fn lemma_bridge_files(
    version: Seq<char>,
    id: Seq<char>,
    interface: Seq<char>,
    entrypoint: Seq<char>,
    files: Seq<(Seq<char>, Seq<u8>)>,
    i: int,
    contents: Seq<u8>,
)
    requires
        0 <= i < files.len(),
        contents != files[i].1,
        identity_laws::paths_differ(files),
    ensures
        are_of_different_bridges(
            adapter::bridge_digest(
                version,
                id,
                interface,
                entrypoint,
                fingerprint::sorted_files(files),
            ),
            adapter::bridge_digest(
                version,
                id,
                interface,
                entrypoint,
                fingerprint::sorted_files(files.update(i, (files[i].0, contents))),
            ),
        ),
{
    let sorted = fingerprint::sorted_files(files);
    let k = identity_laws::lemma_sorted_change(files, i, contents);
    identity_laws::adapters_take_part_in_the_identity(
        version,
        id,
        interface,
        entrypoint,
        sorted,
        version,
        k,
        contents,
    );
    let x = identity_laws::bridge_bytes(version, id, interface, entrypoint, sorted);
    let y = identity_laws::bridge_bytes(
        version,
        id,
        interface,
        entrypoint,
        sorted.update(k, (sorted[k].0, contents)),
    );
    assert(adapter::bridge_digest(version, id, interface, entrypoint, sorted) == "sha256:"@
        + digest::hex(digest::sha256_bytes(x)));
    assert(adapter::bridge_digest(
        version,
        id,
        interface,
        entrypoint,
        sorted.update(k, (sorted[k].0, contents)),
    ) == "sha256:"@ + digest::hex(digest::sha256_bytes(y)));
}

/// A bridge has another digest where one of the generated files is another.
pub proof fn generated_files_change_the_bridge(
    a: PythonAsgiAdapter,
    b: JavaScriptFetchAdapter,
    c: GoNetHttpAdapter,
    project: ProjectView,
    model: CandidateView,
    host: HostView,
    files: Seq<(Seq<char>, Seq<u8>)>,
    i: int,
    contents: Seq<u8>,
)
    requires
        0 <= i < files.len(),
        contents != files[i].1,
        identity_laws::paths_differ(files),
    ensures
        ({
            let edited = files.update(i, (files[i].0, contents));
            &&& a.completed(project, model, host, files) matches Ok(before) ==> (a.completed(
                project,
                model,
                host,
                edited,
            ) matches Ok(after) ==> are_of_different_bridges(before.0.digest, after.0.digest))
            &&& b.completed(project, model, host, files) matches Ok(before) ==> (b.completed(
                project,
                model,
                host,
                edited,
            ) matches Ok(after) ==> are_of_different_bridges(before.0.digest, after.0.digest))
            &&& c.completed(project, model, host, files) matches Ok(before) ==> (c.completed(
                project,
                model,
                host,
                edited,
            ) matches Ok(after) ==> are_of_different_bridges(before.0.digest, after.0.digest))
        }),
{
    reveal_strlit("");
    let entrypoint = text::text_or_empty(model.entrypoint);
    lemma_bridge_files(
        python_asgi::ASGI_ADAPTER_VERSION@,
        a.id_text(),
        a.interface_text(),
        entrypoint,
        files,
        i,
        contents,
    );
    if let Ok((module, attribute)) = adapter::entrypoint_parts(entrypoint) {
        lemma_bridge_files(
            javascript_fetch::FETCH_ADAPTER_VERSION@,
            b.id_text(),
            b.interface_text(),
            module + ":"@ + attribute,
            files,
            i,
            contents,
        );
    }
    lemma_bridge_files(
        go_net_http::GO_NET_HTTP_ADAPTER_VERSION@,
        c.id_text(),
        c.interface_text(),
        entrypoint,
        files,
        i,
        contents,
    );
}

/// A bridge has another digest where the entrypoint is another.
pub proof fn entrypoints_change_the_bridge(
    a: PythonAsgiAdapter,
    c: GoNetHttpAdapter,
    project: ProjectView,
    model: CandidateView,
    other: CandidateView,
    host: HostView,
    files: Seq<(Seq<char>, Seq<u8>)>,
)
    requires
        model.entrypoint is Some,
        other.entrypoint is Some,
        model.entrypoint != other.entrypoint,
    ensures
        a.completed(project, model, host, files) matches Ok(before) ==> (a.completed(
            project,
            other,
            host,
            files,
        ) matches Ok(after) ==> are_of_different_bridges(before.0.digest, after.0.digest)),
        c.completed(project, model, host, files) matches Ok(before) ==> (c.completed(
            project,
            other,
            host,
            files,
        ) matches Ok(after) ==> are_of_different_bridges(before.0.digest, after.0.digest)),
{
    let sorted = fingerprint::sorted_files(files);
    lemma_bridge_entrypoint(
        python_asgi::ASGI_ADAPTER_VERSION@,
        a.id_text(),
        a.interface_text(),
        model.entrypoint->0,
        other.entrypoint->0,
        sorted,
    );
    lemma_bridge_entrypoint(
        go_net_http::GO_NET_HTTP_ADAPTER_VERSION@,
        c.id_text(),
        c.interface_text(),
        model.entrypoint->0,
        other.entrypoint->0,
        sorted,
    );
}

proof fn lemma_bridge_entrypoint(
    version: Seq<char>,
    id: Seq<char>,
    interface: Seq<char>,
    entrypoint: Seq<char>,
    other: Seq<char>,
    files: Seq<(Seq<char>, Seq<u8>)>,
)
    requires
        other != entrypoint,
    ensures
        are_of_different_bridges(
            adapter::bridge_digest(version, id, interface, entrypoint, files),
            adapter::bridge_digest(version, id, interface, other, files),
        ),
{
    identity_laws::adapters_take_part_in_the_identity(
        version,
        id,
        interface,
        entrypoint,
        files,
        other,
        0,
        Seq::empty(),
    );
    let x = identity_laws::bridge_bytes(version, id, interface, entrypoint, files);
    let y = identity_laws::bridge_bytes(version, id, interface, other, files);
    assert(adapter::bridge_digest(version, id, interface, entrypoint, files) == "sha256:"@
        + digest::hex(digest::sha256_bytes(x)));
    assert(adapter::bridge_digest(version, id, interface, other, files) == "sha256:"@
        + digest::hex(digest::sha256_bytes(y)));
}

/// Whether a file stays in its directory.
pub open spec fn stays_inside(file: Seq<char>) -> bool {
    !paths::is_absolute(file) && !paths::climbs(file)
}

proof fn lemma_asset(adapter_root: Seq<char>, root: Seq<char>, files: Seq<Seq<char>>, i: int)
    requires
        0 <= i < files.len(),
        forall|k: int| 0 <= k < i ==> stays_inside(#[trigger] files[k]),
    ensures
        i < external_adapter::asset_steps(adapter_root, root, files).len(),
        stays_inside(files[i]) ==> external_adapter::asset_steps(adapter_root, root, files)[i] == (
        StepView::CopyAsset {
            source: paths::join_path(adapter_root, files[i]),
            directory: paths::parent(paths::join_path(root, files[i])),
            destination: paths::join_path(root, files[i]),
        }),
        !stays_inside(files[i]) ==> external_adapter::asset_steps(
            adapter_root,
            root,
            files,
        )[i] is Refuse,
    decreases files.len(),
{
    if i > 0 {
        assert(stays_inside(files[0]));
        let rest = files.drop_first();
        assert forall|k: int| 0 <= k < i - 1 implies stays_inside(#[trigger] rest[k]) by {
            assert(rest[k] == files[k + 1]);
        }
        assert(rest[i - 1] == files[i]);
        lemma_asset(adapter_root, root, rest, i - 1);
    }
}

/// Where a local adapter generates: a directory of its own, named after it.
pub open spec fn local_root(project_root: Seq<char>, id: Seq<char>) -> Seq<char> {
    paths::join_path(
        paths::join_path(project_root, ".pit/generated/adapters/external"@),
        text::replaced(id, seq!['/', '\\'], '_'),
    )
}

/// A local adapter copies every file that it lists to the same place below its directory;
/// a file that leads out of it is refused, and nothing behind it is copied.
pub proof fn local_adapters_copy_what_they_list(
    adapter_root: Seq<char>,
    m: ExternalView,
    project: ProjectView,
    model: CandidateView,
    plan: PlanView,
    i: int,
)
    requires
        external_adapter::external_planned(adapter_root, m, project, model) == Ok::<
            PlanView,
            ErrorView,
        >(plan),
        0 <= i < m.files.len(),
        forall|k: int| 0 <= k < i ==> stays_inside(#[trigger] m.files[k]),
    ensures
        plan.root == local_root(project.root, m.id),
        plan.steps[0] == StepView::CreateDirectory(plan.root),
        stays_inside(m.files[i]) ==> plan.steps[i + 1] == (StepView::CopyAsset {
            source: paths::join_path(adapter_root, m.files[i]),
            directory: paths::parent(paths::join_path(plan.root, m.files[i])),
            destination: paths::join_path(plan.root, m.files[i]),
        }),
        plan.assets matches Some(assets) && assets.contains(
            paths::join_path(plan.root, m.files[i]),
        ),
        !stays_inside(m.files[i]) ==> plan.steps[i + 1] is Refuse,
{
    lemma_asset(adapter_root, plan.root, m.files, i);
    let assets = plan.assets->0;
    assert(assets[i] == paths::join_path(plan.root, m.files[i]));
}

/// A local adapter is taken for applications of its language and interface, and no others.
pub proof fn local_adapters_take_their_own(
    adapter_root: Seq<char>,
    m: ExternalView,
    project: ProjectView,
    model: CandidateView,
    host: HostView,
    files: Seq<(Seq<char>, Seq<u8>)>,
)
    ensures
        external_adapter::external_checked(m, model) is Ok <==> model.language == m.language
            && model.application_interface == Some(m.interface),
        external_adapter::external_planned(adapter_root, m, project, model) is Ok
            <==> external_adapter::external_checked(m, model) is Ok,
        external_adapter::external_completed(m, project, model, host, files) is Ok
            <==> external_adapter::external_checked(m, model) is Ok,
        external_adapter::external_completed(m, project, model, host, files) matches Ok(done)
            ==> done.0.root == local_root(project.root, m.id) && done.0.entrypoint == m.entrypoint
            && done.0.adapter == m.id && done.0.source_roots == seq![done.0.root, project.root]
            && done.0.generated_files.len() == files.len() && done.1
            == ComponentWorld::WasiHttpProxy && (host.project_has_wit ==> done.0.wit_path == Some(
            paths::join_path(project.root, "wit"@),
        )) && (!host.project_has_wit && host.template_exists ==> done.0.wit_path == Some(
            host.wit_template,
        )) && (!host.project_has_wit && !host.template_exists ==> done.0.wit_path is None),
{
}

/// A local adapter is loaded only if it is of the known schema, is named properly, targets
/// the HTTP world, is a template and lists files.
pub proof fn local_adapters_are_checked(
    root: Seq<char>,
    canonical: Option<Seq<char>>,
    contents: Option<Seq<char>>,
    place: Seq<char>,
    m: ExternalView,
)
    requires
        external_adapter::external_loaded(root, canonical, contents) == Ok::<
            (Seq<char>, ExternalView),
            ErrorView,
        >((place, m)),
    ensures
        canonical == Some(place),
        contents is Some,
        m.schema == 1,
        m.target == "wasi:http/proxy"@,
        m.kind == "python-template"@,
        m.files.len() > 0,
        language::is_identifier(m.id),
        language::is_identifier(m.interface),
{
}

/// An identifier is made of lower-case letters and digits with hyphens, underscores, slashes
/// and dots between them, and is not longer than 128 characters.
pub proof fn identifiers_are_plain(s: Seq<char>)
    ensures
        language::is_identifier(s) <==> 1 <= s.len() <= 128 && (forall|i: int|
            0 <= i < s.len() ==> ('a' <= #[trigger] s[i] <= 'z' || '0' <= s[i] <= '9' || s[i] == '-'
                || s[i] == '_' || s[i] == '/' || s[i] == '.')) && ('a' <= s[0] <= 'z' || '0' <= s[0]
            <= '9') && ('a' <= s.last() <= 'z' || '0' <= s.last() <= '9'),
{
}

/// The adapters take applications of their own language and interface with an entrypoint,
/// and no others.
pub proof fn adapters_take_their_own(
    a: PythonAsgiAdapter,
    b: JavaScriptFetchAdapter,
    c: GoNetHttpAdapter,
    m: CandidateView,
)
    ensures
        a.validated(m) is Ok <==> m.language == Language::Python && m.application_interface == Some(
            a.interface_text(),
        ) && m.entrypoint is Some && m.entrypoint->0.len() > 0,
        b.validated(m) is Ok <==> m.language == b.takes_language() && m.application_interface
            == Some(b.interface_text()) && m.entrypoint is Some && m.entrypoint->0.len() > 0,
        c.validated(m) is Ok ==> m.language == Language::Go && m.application_interface == Some(
            c.interface_text(),
        ) && m.entrypoint is Some && text::has_text(m.entrypoint->0, ":"@),
{
    reveal_strlit("");
    reveal_strlit(":");
    if m.entrypoint is None && text::has_text(""@, ":"@) {
        let i = choose|i: int| text::occurs_at(""@, ":"@, i);
        assert(false);
    }
}

/// The bridge of a local adapter has another digest where one of its files is another, or
/// where the adapter is of another version.
pub proof fn local_files_change_the_bridge(
    m: ExternalView,
    other: ExternalView,
    project: ProjectView,
    model: CandidateView,
    host: HostView,
    files: Seq<(Seq<char>, Seq<u8>)>,
    i: int,
    contents: Seq<u8>,
    before: WorkspaceView,
    after: WorkspaceView,
)
    requires
        external_adapter::external_completed(m, project, model, host, files) == Ok::<
            (WorkspaceView, ComponentWorld),
            ErrorView,
        >((before, ComponentWorld::WasiHttpProxy)),
        (0 <= i < files.len() && contents != files[i].1
            && external_adapter::external_completed(
            m,
            project,
            model,
            host,
            files.update(i, (files[i].0, contents)),
        ) == Ok::<(WorkspaceView, ComponentWorld), ErrorView>(
            (after, ComponentWorld::WasiHttpProxy),
        )) || (other.version != m.version && other.version.len() == m.version.len() && other == (
        ExternalView { version: other.version, ..m }) && external_adapter::external_completed(
            other,
            project,
            model,
            host,
            files,
        ) == Ok::<(WorkspaceView, ComponentWorld), ErrorView>(
            (after, ComponentWorld::WasiHttpProxy),
        )),
    ensures
        are_of_different_bridges(before.digest, after.digest),
{
    let version = external_adapter::external_version(m);
    let entrypoint = text::text_or_empty(model.entrypoint);
    let second = external_adapter::external_version(other);
    let n = m.version.len() as int;
    if other.version != m.version && other.version.len() == m.version.len() {
        assert(version.take(n) =~= m.version);
        assert(second.take(n) =~= other.version);
    }
    identity_laws::adapters_take_part_in_the_identity(
        version,
        m.id,
        m.interface,
        entrypoint,
        files,
        second,
        i,
        contents,
    );
    let x = identity_laws::bridge_bytes(version, m.id, m.interface, entrypoint, files);
    assert(before.digest == "sha256:"@ + digest::hex(digest::sha256_bytes(x)));
    if 0 <= i < files.len() && contents != files[i].1 && external_adapter::external_completed(
        m,
        project,
        model,
        host,
        files.update(i, (files[i].0, contents)),
    ) == Ok::<(WorkspaceView, ComponentWorld), ErrorView>((after, ComponentWorld::WasiHttpProxy)) {
        let y = identity_laws::bridge_bytes(
            version,
            m.id,
            m.interface,
            entrypoint,
            files.update(i, (files[i].0, contents)),
        );
        assert(after.digest == "sha256:"@ + digest::hex(digest::sha256_bytes(y)));
    } else {
        let y = identity_laws::bridge_bytes(second, m.id, m.interface, entrypoint, files);
        assert(after.digest == "sha256:"@ + digest::hex(digest::sha256_bytes(y)));
    }
}

} // verus!
