//! What holds of every build: when an artifact is reused, what is written, and
//! that a build comes to its end.

use crate::adapter::{ApplicationAdapter, HostView};
use crate::artifact;
use crate::artifact::ManifestView;
use crate::builder;
use crate::builder::{DraftView, LanguageBuilder};
use crate::cache;
use crate::error::{ErrorKind, ErrorView};
use crate::manifest_json;
use crate::project;
use crate::project::{CandidateView, ProjectView};
use crate::request;
use crate::request::{OutputView, RequestView};
use crate::selection;
use crate::selection::SelectedView;
use crate::session;
use crate::session::{ActionView, ContextView, ReplyView, SessionView, StageView, WorkView};
use crate::validation;
use crate::validation::StoredView;
use vstd::prelude::*;

verus! {

/// How many replies a build may still need.
pub open spec fn rank<B, A>(stage: StageView<B, A>) -> nat {
    match stage {
        StageView::Locate => 19,
        StageView::Directory => 18,
        StageView::LocateRaw => 17,
        StageView::ReadRaw => 16,
        StageView::Discover => 15,
        StageView::Open { .. } => 14,
        StageView::Prepare { .. } => 13,
        StageView::Fingerprint { .. } => 12,
        StageView::Look { .. } => 11,
        StageView::Check { .. } => 10,
        StageView::RawDirectory { .. } => 9,
        StageView::RawCopy { .. } => 8,
        StageView::RawRename { .. } => 7,
        StageView::RawCollect { .. } => 6,
        StageView::Build { .. } => 5,
        StageView::Confirm { .. } => 4,
        StageView::Record { .. } => 3,
        StageView::Renew { .. } => 2,
        StageView::Reopen { .. } => 1,
        StageView::Finished { .. } => 0,
    }
}

/// Every reply that a build goes on with brings it closer to its end: a build ends
/// after at most nineteen replies.
pub proof fn builds_come_to_an_end<B: LanguageBuilder, A: ApplicationAdapter>(
    w: SessionView<B, A>,
    reply: ReplyView,
)
    requires
        session::after(w, reply) is Ok,
    ensures
        rank(session::after(w, reply)->Ok_0.stage) < rank(w.stage),
{
    reveal(session::after_discover);
    reveal(session::after_open);
    reveal(session::after_look);
    reveal(session::after_check);
    reveal(session::after_reopen);
    reveal(session::after_build);
    reveal(session::after_raw_collect);
    reveal(session::after_confirm);
}

/// Whether a request for what there is to build is one that the work belongs to.
pub open spec fn work_fits<B>(r: RequestView, work: WorkView<B>) -> bool {
    work is Raw <==> r.raw_artifact is Some
}

/// Whether a manifest of an earlier build may be taken over by a request: nothing is
/// forced, the manifest is valid and describes what is asked for.
pub open spec fn may_be_reused(r: RequestView, m: ManifestView, fingerprint: Seq<char>) -> bool {
    !r.force && validation::is_valid(m) && cache::cache_fits(m, r, fingerprint)
}

/// What holds of a build wherever it stands.
pub open spec fn is_sound<B: LanguageBuilder, A: ApplicationAdapter>(w: SessionView<B, A>) -> bool {
    let r = w.context.request;
    match w.stage {
        StageView::Locate | StageView::Directory => true,
        StageView::LocateRaw | StageView::ReadRaw => r.raw_artifact is Some,
        StageView::Discover | StageView::Open { .. } | StageView::Fingerprint { .. }
        | StageView::Build { .. } => r.raw_artifact is None,
        StageView::Prepare { builder, selected, project, host, model } => {
            &&& r.raw_artifact is None
            &&& selected.planned(project, model, host) is Ok
            &&& selected.inspected(project, model) matches Ok(report)
                && !project::any_blocks(report.findings)
            &&& r.adapter == Some(selected.id())
        },
        StageView::Look { work, fingerprint } => !r.force && work_fits(r, work),
        StageView::Check { work, fingerprint, manifest } => may_be_reused(r, manifest, fingerprint)
            && work_fits(r, work),
        StageView::Renew { manifest } | StageView::Reopen { manifest } => may_be_reused(
            r,
            manifest,
            manifest.build.fingerprint,
        ) && manifest.execution == r.execution_defaults,
        StageView::RawDirectory { .. } | StageView::RawCopy { .. } | StageView::RawRename { .. }
        | StageView::RawCollect { .. } => r.raw_artifact is Some,
        StageView::Confirm { output } | StageView::Record { output } => validation::is_valid(
            output.manifest,
        ),
        StageView::Finished { output, reused } => validation::is_valid(output.manifest) && (reused
            ==> may_be_reused(r, output.manifest, output.manifest.build.fingerprint)
            && output.manifest.execution == r.execution_defaults),
    }
}

proof fn lemma_adapted_sound<B: LanguageBuilder, A: ApplicationAdapter>(
    c: ContextView<B, A>,
    builder: B,
    candidate: Option<CandidateView>,
    project: ProjectView,
    host: HostView,
    selected: Option<SelectedView<A>>,
)
    requires
        c.request.raw_artifact is None,
    ensures
        session::adapted(c, builder, candidate, project, host, selected) matches Ok(w)
            ==> is_sound(w),
{
}

proof fn lemma_search_sound<B: LanguageBuilder, A: ApplicationAdapter>(
    w: SessionView<B, A>,
    reply: ReplyView,
)
    requires
        is_sound(w),
        w.stage is Look || w.stage is Check || w.stage is Reopen,
    ensures
        session::after(w, reply) matches Ok(n) ==> is_sound(n),
{
    let r = w.context.request;
    match w.stage {
        StageView::Look { work, fingerprint } => {
            reveal(session::after_look);
            if let ReplyView::Contents(contents) = reply {
                if cache::cached_manifest(r, fingerprint, contents) is Some {
                    cache::cached_manifest_is_valid(r, fingerprint, contents);
                }
            }
        },
        StageView::Check { work, fingerprint, manifest } => {
            reveal(session::after_check);
            let renewed = ManifestView { execution: r.execution_defaults, ..manifest };
            assert(validation::is_valid(renewed));
        },
        StageView::Reopen { manifest } => {
            reveal(session::after_reopen);
        },
        _ => {},
    }
}

proof fn lemma_make_sound<B: LanguageBuilder, A: ApplicationAdapter>(
    w: SessionView<B, A>,
    reply: ReplyView,
)
    requires
        is_sound(w),
        w.stage is Build || w.stage is RawCollect || w.stage is Confirm,
    ensures
        session::after(w, reply) matches Ok(n) ==> is_sound(n),
{
    match w.stage {
        StageView::Build { builder, fingerprint } => {
            reveal(session::after_build);
            if let ReplyView::Built(output) = reply {
                validation::valid_iff_no_violation(
                    session::patched(output.manifest, w.context.request),
                );
            }
        },
        StageView::RawCollect { format, fingerprint } => {
            reveal(session::after_raw_collect);
            if let ReplyView::Contents(Some(bytes)) = reply {
                validation::valid_iff_no_violation(
                    crate::raw_artifact::raw_manifest(
                        w.context.request,
                        format,
                        fingerprint,
                        bytes,
                    ),
                );
            }
        },
        StageView::Confirm { output } => {
            reveal(session::after_confirm);
        },
        _ => {},
    }
}

/// A build starts sound.
pub proof fn builds_start_sound<B: LanguageBuilder, A: ApplicationAdapter>(c: ContextView<B, A>)
    ensures
        is_sound(SessionView { context: c, stage: StageView::<B, A>::Locate }),
{
}

/// A build stays sound, whatever the replies are.
pub proof fn builds_stay_sound<B: LanguageBuilder, A: ApplicationAdapter>(
    w: SessionView<B, A>,
    reply: ReplyView,
)
    requires
        is_sound(w),
    ensures
        session::after(w, reply) matches Ok(n) ==> is_sound(n),
{
    match w.stage {
        StageView::Look { .. } | StageView::Check { .. } | StageView::Reopen { .. } => {
            lemma_search_sound(w, reply);
        },
        StageView::Build { .. } | StageView::RawCollect { .. } | StageView::Confirm { .. } => {
            lemma_make_sound(w, reply);
        },
        StageView::Discover => {
            reveal(session::after_discover);
            if let ReplyView::Project { listing, project, host } = reply {
                let r = w.context.request;
                let found = selection::found_by(w.context.crew.adapters, project, r.language);
                if let (Ok(builder), Ok(candidate)) = (
                    crate::crew::chosen_builder(
                        w.context.crew.builders,
                        r.project_dir,
                        listing,
                        r.language,
                    ),
                    selection::chosen_candidate(r.application_interface, found),
                ) {
                    if let Ok(s) = selection::selected(w.context.crew.adapters, r, candidate, None) {
                        lemma_adapted_sound(w.context, builder, candidate, project, host, s);
                    }
                }
            }
        },
        StageView::Open { builder, candidate, project, host } => {
            reveal(session::after_open);
            if let ReplyView::Adapter(directory) = reply {
                if let Ok(s) = selection::selected(
                    w.context.crew.adapters,
                    w.context.request,
                    candidate,
                    directory,
                ) {
                    lemma_adapted_sound(w.context, builder, candidate, project, host, s);
                }
            }
        },
        _ => {},
    }
}

/// A build asks for something until it is over.
pub proof fn builds_ask_until_they_are_over<B: LanguageBuilder, A: ApplicationAdapter>(
    w: SessionView<B, A>,
)
    requires
        is_sound(w),
    ensures
        session::asks(w) is None <==> w.stage is Finished,
{
}

/// A forced build reuses nothing and does not even look for an earlier one.
pub proof fn forced_builds_reuse_nothing<B: LanguageBuilder, A: ApplicationAdapter>(
    w: SessionView<B, A>,
)
    requires
        is_sound(w),
        w.context.request.force,
    ensures
        !(w.stage is Look || w.stage is Check || w.stage is Renew || w.stage is Reopen),
        w.stage matches StageView::Finished { output, reused } ==> !reused,
{
}

/// A build from a provided artifact inspects no project and runs no builder.
pub proof fn provided_artifacts_need_no_detection<B: LanguageBuilder, A: ApplicationAdapter>(
    w: SessionView<B, A>,
)
    requires
        is_sound(w),
        w.context.request.raw_artifact is Some,
    ensures
        session::asks(w) matches Some(action) ==> !(action is Discover || action is OpenAdapter
            || action is Prepare || action is Fingerprint || action is Build),
{
}

/// A build writes valid manifests only, and only to the project's manifest.
pub proof fn only_valid_manifests_are_written<B: LanguageBuilder, A: ApplicationAdapter>(
    w: SessionView<B, A>,
)
    requires
        is_sound(w),
    ensures
        session::asks(w) matches Some(ActionView::Write { manifest, path })
            ==> validation::is_valid(manifest) && path == artifact::manifest_location(
            w.context.request.project_dir,
        ),
{
}

/// The manifest of a new build is written only after the artifact was held against
/// it; it is then the manifest that the build gives.
pub proof fn new_artifacts_are_verified<B: LanguageBuilder, A: ApplicationAdapter>(
    w: SessionView<B, A>,
    reply: ReplyView,
)
    requires
        session::after(w, reply) matches Ok(n) && n.stage is Record,
    ensures
        w.stage matches StageView::Confirm { output } && reply matches ReplyView::Stored(s)
            && validation::verified(output.manifest, w.context.request.project_dir, s) is Ok
            && session::after(w, reply)->Ok_0.stage == (StageView::<B, A>::Record { output }),
{
    reveal(session::after_discover);
    reveal(session::after_open);
    reveal(session::after_look);
    reveal(session::after_check);
    reveal(session::after_reopen);
    reveal(session::after_build);
    reveal(session::after_raw_collect);
    reveal(session::after_confirm);
}

/// An earlier artifact is taken over only after it was held against its manifest,
/// which describes what is asked for and carries the fingerprint of the build. Of
/// that manifest only the execution defaults change.
pub proof fn reused_artifacts_are_verified<B: LanguageBuilder, A: ApplicationAdapter>(
    w: SessionView<B, A>,
    reply: ReplyView,
)
    requires
        is_sound(w),
        session::after(w, reply) matches Ok(n) && n.stage is Renew,
    ensures
        w.stage matches StageView::Check { work, fingerprint, manifest }
            && reply matches ReplyView::Stored(s) && validation::verified(
            manifest,
            w.context.request.project_dir,
            s,
        ) is Ok && may_be_reused(w.context.request, manifest, fingerprint) && session::after(
            w,
            reply,
        )->Ok_0.stage == (StageView::<B, A>::Renew {
            manifest: ManifestView {
                execution: w.context.request.execution_defaults,
                ..manifest
            },
        }),
{
    reveal(session::after_discover);
    reveal(session::after_open);
    reveal(session::after_look);
    reveal(session::after_check);
    reveal(session::after_reopen);
    reveal(session::after_build);
    reveal(session::after_raw_collect);
    reveal(session::after_confirm);
}

/// What a builder gives is accepted only if its manifest is valid and carries the
/// fingerprint that was asked for; interface, adapter and bridge are those of the
/// request.
pub proof fn built_artifacts_carry_their_identity<B: LanguageBuilder, A: ApplicationAdapter>(
    w: SessionView<B, A>,
    output: OutputView,
)
    requires
        w.stage is Build,
        session::after(w, ReplyView::Built(output)) is Ok,
    ensures
        session::after(w, ReplyView::Built(output))->Ok_0.stage matches StageView::Confirm {
            output: o,
        } && o.manifest == session::patched(output.manifest, w.context.request)
            && validation::is_valid(o.manifest) && o.manifest.build.fingerprint
            == w.stage->Build_fingerprint,
{
    reveal(session::after_build);
    validation::valid_iff_no_violation(session::patched(output.manifest, w.context.request));
}

/// An application with a finding that stops the build is not built.
pub proof fn blocked_applications_are_not_built<B: LanguageBuilder, A: ApplicationAdapter>(
    c: ContextView<B, A>,
    builder: B,
    candidate: Option<CandidateView>,
    project: ProjectView,
    host: HostView,
    s: SelectedView<A>,
)
    requires
        s.inspected(
            project,
            selection::built_model(c.request, candidate, builder.builds(), s),
        ) matches Ok(report) && project::any_blocks(report.findings),
    ensures
        session::adapted(c, builder, candidate, project, host, Some(s)) matches Err(e) && e.kind
            == ErrorKind::Compatibility,
{
}

/// The build that goes on from a sequence of replies.
pub open spec fn after_all<B: LanguageBuilder, A: ApplicationAdapter>(
    w: SessionView<B, A>,
    replies: Seq<ReplyView>,
) -> Result<SessionView<B, A>, ErrorView>
    decreases replies.len(),
{
    if replies.len() == 0 {
        Ok(w)
    } else {
        match session::after(w, replies[0]) {
            Err(e) => Err(e),
            Ok(n) => after_all(n, replies.drop_first()),
        }
    }
}

/// A build takes over what an earlier one left, if the manifest that it wrote is
/// read back, describes what is asked for under the same fingerprint, and still
/// holds of the artifact.
pub proof fn unchanged_builds_are_reused<B: LanguageBuilder, A: ApplicationAdapter>(
    w: SessionView<B, A>,
    m: ManifestView,
    contents: Seq<u8>,
    stored: StoredView,
)
    requires
        w.stage matches StageView::Look { work, fingerprint } && cache::cache_fits(
            m,
            w.context.request,
            fingerprint,
        ),
        manifest_json::loaded(
            artifact::manifest_location(w.context.request.project_dir),
            Some(contents),
        ) == Ok::<ManifestView, ErrorView>(m),
        validation::verified(m, w.context.request.project_dir, stored) is Ok,
    ensures
        after_all(
            w,
            seq![
                ReplyView::Contents(Some(contents)),
                ReplyView::Stored(stored),
                ReplyView::Done,
                ReplyView::Stored(stored),
            ],
        ) matches Ok(n) && n.context == w.context && n.stage == (StageView::<B, A>::Finished {
            output: OutputView {
                manifest: ManifestView {
                    execution: w.context.request.execution_defaults,
                    ..m
                },
                artifact_path: stored.path->0,
                toolchain: request::manifest_toolchain(m),
            },
            reused: true,
        }),
{
    let r = w.context.request;
    let renewed = ManifestView { execution: r.execution_defaults, ..m };
    let c = w.context;
    let replies = seq![
        ReplyView::Contents(Some(contents)),
        ReplyView::Stored(stored),
        ReplyView::Done,
        ReplyView::Stored(stored),
    ];
    let work = w.stage->Look_work;
    let fingerprint = w.stage->Look_fingerprint;
    let w1 = SessionView {
        context: c,
        stage: StageView::<B, A>::Check { work, fingerprint, manifest: m },
    };
    let w2 = SessionView { context: c, stage: StageView::<B, A>::Renew { manifest: renewed } };
    let w3 = SessionView { context: c, stage: StageView::<B, A>::Reopen { manifest: renewed } };
    validation::verified_artifact_is_intact(m, r.project_dir, stored);
    validation::valid_iff_no_violation(renewed);
    assert(session::after(w, replies[0]) == Ok::<SessionView<B, A>, ErrorView>(w1)) by {
        reveal(session::after_look);
    }
    assert(session::after(w1, replies[1]) == Ok::<SessionView<B, A>, ErrorView>(w2)) by {
        reveal(session::after_check);
    }
    assert(session::after(w2, replies[2]) == Ok::<SessionView<B, A>, ErrorView>(w3));
    let output = OutputView {
        manifest: renewed,
        artifact_path: stored.path->0,
        toolchain: request::manifest_toolchain(m),
    };
    let w4 = SessionView {
        context: c,
        stage: StageView::<B, A>::Finished { output, reused: true },
    };
    assert(session::after(w3, replies[3]) == Ok::<SessionView<B, A>, ErrorView>(w4)) by {
        reveal(session::after_reopen);
    }
    let r1 = replies.drop_first();
    let r2 = r1.drop_first();
    let r3 = r2.drop_first();
    assert(r1[0] == replies[1] && r2[0] == replies[2] && r3[0] == replies[3]);
    assert(after_all(w4, r3.drop_first()) == Ok::<SessionView<B, A>, ErrorView>(w4));
    assert(after_all(w3, r3) == Ok::<SessionView<B, A>, ErrorView>(w4));
    assert(after_all(w2, r2) == Ok::<SessionView<B, A>, ErrorView>(w4));
    assert(after_all(w1, r1) == Ok::<SessionView<B, A>, ErrorView>(w4));
}

/// An earlier artifact that does not hold against its manifest is built anew.
pub proof fn changed_artifacts_are_built_anew<B: LanguageBuilder, A: ApplicationAdapter>(
    w: SessionView<B, A>,
    stored: StoredView,
)
    requires
        w.stage matches StageView::Check { work, fingerprint, manifest } && validation::verified(
            manifest,
            w.context.request.project_dir,
            stored,
        ) is Err,
    ensures
        session::after(w, ReplyView::Stored(stored)) matches Ok(n) && n.context == w.context
            && n.stage == session::fresh::<B, A>(
            w.stage->Check_work,
            w.stage->Check_fingerprint,
        ),
{
    reveal(session::after_check);
}

/// What a builder built for a request is found again by that request, if profile,
/// target, interface and world are those of the request.
pub proof fn built_artifacts_are_found_again(m: ManifestView, r: RequestView)
    requires
        m.build.profile == r.profile,
        m.build.target == cache::target_or_empty(r.abi),
        m.runtime.abi == r.abi,
        r.abi == "wasi-preview2"@ && r.world is Some ==> m.runtime.world == r.world,
    ensures
        cache::cache_fits(session::patched(m, r), r, m.build.fingerprint),
{
}

/// The components of the library's builders are found again by the request that
/// they were built for.
pub proof fn built_components_are_found_again(d: DraftView, r: RequestView, contents: Seq<u8>)
    requires
        d.profile == r.profile,
        d.target == builder::target_or_default(r.abi),
        r.abi == "wasi-preview2"@,
        d.world == builder::world_or_http(r.world),
    ensures
        cache::cache_fits(
            session::patched(builder::component_manifest(d, contents), r),
            r,
            d.fingerprint,
        ),
{
    validation::lemma_abi_names();
    built_artifacts_are_found_again(builder::component_manifest(d, contents), r);
}

} // verus!
