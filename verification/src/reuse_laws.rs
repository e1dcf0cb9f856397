//! What holds of two builds, one after the other: the second takes over what the
//! first built.

use crate::adapter::ApplicationAdapter;
use crate::artifact;
use crate::artifact::{ArtifactFormat, ManifestView};
use crate::build_laws;
use crate::builder::LanguageBuilder;
use crate::cache;
use crate::crew;
use crate::error::ErrorView;
use crate::manifest_json;
use crate::raw_artifact;
use crate::request::{OutputView, RequestView};
use crate::selection;
use crate::session;
use crate::session::{ContextView, ReplyView, SessionView, StageView};
use crate::validation;
use crate::validation::StoredView;
use vstd::prelude::*;

verus! {

/// The build of a request, before any reply.
pub open spec fn build_start<B: LanguageBuilder, A: ApplicationAdapter>(
    c: ContextView<B, A>,
) -> SessionView<B, A> {
    SessionView { context: c, stage: StageView::<B, A>::Locate }
}

/// A build goes on from two sequences of replies as from one after the other.
proof fn lemma_after_both<B: LanguageBuilder, A: ApplicationAdapter>(
    w: SessionView<B, A>,
    a: Seq<ReplyView>,
    b: Seq<ReplyView>,
)
    ensures
        build_laws::after_all(w, a + b) == match build_laws::after_all(w, a) {
            Err(e) => Err::<SessionView<B, A>, ErrorView>(e),
            Ok(n) => build_laws::after_all(n, b),
        },
    decreases a.len(),
{
    if a.len() == 0 {
        assert(a + b =~= b);
    } else {
        assert((a + b)[0] == a[0]);
        assert((a + b).drop_first() =~= a.drop_first() + b);
        if let Ok(n) = session::after(w, a[0]) {
            lemma_after_both(n, a.drop_first(), b);
        }
    }
}

/// A build goes on from its last reply.
proof fn lemma_after_last<B: LanguageBuilder, A: ApplicationAdapter>(
    w: SessionView<B, A>,
    replies: Seq<ReplyView>,
)
    requires
        replies.len() > 0,
    ensures
        build_laws::after_all(w, replies) == match build_laws::after_all(w, replies.drop_last()) {
            Err(e) => Err::<SessionView<B, A>, ErrorView>(e),
            Ok(n) => session::after(n, replies.last()),
        },
{
    let last = seq![replies.last()];
    assert(replies.drop_last() + last =~= replies);
    lemma_after_both(w, replies.drop_last(), last);
    if let Ok(n) = build_laws::after_all(w, replies.drop_last()) {
        assert(last.drop_first() =~= Seq::<ReplyView>::empty());
        if let Ok(m) = session::after(n, last[0]) {
            assert(build_laws::after_all(m, last.drop_first()) == Ok::<
                SessionView<B, A>,
                ErrorView,
            >(m));
        }
    }
}

/// Whether a build that is not forced is not identified yet.
spec fn is_early<B: LanguageBuilder, A: ApplicationAdapter>(w: SessionView<B, A>) -> bool {
    let raw = w.context.request.raw_artifact is Some;
    &&& !w.context.request.force
    &&& match w.stage {
        StageView::Locate | StageView::Directory => true,
        StageView::LocateRaw | StageView::ReadRaw => raw,
        StageView::Discover | StageView::Open { .. } | StageView::Prepare { .. }
        | StageView::Fingerprint { .. } => !raw,
        _ => false,
    }
}

/// Whether a build looks for an earlier one.
spec fn looks<B: LanguageBuilder, A: ApplicationAdapter>(w: SessionView<B, A>) -> bool {
    w.stage matches StageView::Look { work, fingerprint } && build_laws::work_fits(
        w.context.request,
        work,
    )
}

/// A build that is not identified yet stays so, or looks for an earlier one.
proof fn lemma_early_step<B: LanguageBuilder, A: ApplicationAdapter>(
    w: SessionView<B, A>,
    reply: ReplyView,
)
    requires
        is_early(w),
    ensures
        session::after(w, reply) matches Ok(n) ==> (is_early(n) || looks(n))
            && n.context.request.raw_artifact is Some == w.context.request.raw_artifact is Some,
{
    let r = w.context.request;
    match w.stage {
        StageView::Discover => {
            reveal(session::after_discover);
            if let ReplyView::Project { listing, project, host } = reply {
                let found = selection::found_by(w.context.crew.adapters, project, r.language);
                if let (Ok(builder), Ok(candidate)) = (
                    crew::chosen_builder(
                        w.context.crew.builders,
                        r.project_dir,
                        listing,
                        r.language,
                    ),
                    selection::chosen_candidate(r.application_interface, found),
                ) {
                    if let Ok(s) = selection::selected(
                        w.context.crew.adapters,
                        r,
                        candidate,
                        None,
                    ) {
                        let next = session::adapted(
                            w.context,
                            builder,
                            candidate,
                            project,
                            host,
                            s,
                        );
                        assert(next matches Ok(n) ==> is_early(n)
                            && n.context.request.raw_artifact == r.raw_artifact);
                    }
                }
            }
        },
        StageView::Open { builder, candidate, project, host } => {
            reveal(session::after_open);
            if let ReplyView::Adapter(directory) = reply {
                if let Ok(s) = selection::selected(
                    w.context.crew.adapters,
                    r,
                    candidate,
                    directory,
                ) {
                    let next = session::adapted(w.context, builder, candidate, project, host, s);
                    assert(next matches Ok(n) ==> is_early(n)
                        && n.context.request.raw_artifact == r.raw_artifact);
                }
            }
        },
        _ => {},
    }
}

/// A build that comes to its end has looked for an earlier one, unless it is forced:
/// after the first `k` replies. Whether it is a build from a provided artifact does
/// not change.
proof fn lemma_builds_look<B: LanguageBuilder, A: ApplicationAdapter>(
    w: SessionView<B, A>,
    replies: Seq<ReplyView>,
) -> (k: int)
    requires
        is_early(w),
        build_laws::after_all(w, replies) matches Ok(n) && n.stage is Finished,
    ensures
        0 <= k <= replies.len(),
        build_laws::after_all(w, replies.take(k)) matches Ok(n) && looks(n)
            && n.context.request.raw_artifact is Some == w.context.request.raw_artifact is Some,
    decreases replies.len(),
{
    let n = session::after(w, replies[0])->Ok_0;
    lemma_early_step(w, replies[0]);
    if looks(n) {
        let one = replies.take(1);
        assert(one.drop_first() =~= Seq::<ReplyView>::empty());
        assert(build_laws::after_all(n, one.drop_first()) == Ok::<SessionView<B, A>, ErrorView>(n));
        1
    } else {
        let k = lemma_builds_look(n, replies.drop_first());
        assert(replies.take(k + 1).drop_first() =~= replies.drop_first().take(k));
        k + 1
    }
}

/// Whether a manifest is one that a provided artifact was wrapped in.
spec fn is_wrapped_for(
    m: ManifestView,
    r: RequestView,
    fingerprint: Seq<char>,
    format: ArtifactFormat,
    contents: Seq<u8>,
) -> bool {
    raw_artifact::raw_checked(r, format) is Ok && m == raw_artifact::raw_manifest(
        r,
        format,
        fingerprint,
        contents,
    )
}

/// Whether a manifest is one that was made for a request under a fingerprint.
spec fn is_made_for(m: ManifestView, r: RequestView, fingerprint: Seq<char>) -> bool {
    if r.raw_artifact is Some {
        exists|format: ArtifactFormat, contents: Seq<u8>|
            is_wrapped_for(m, r, fingerprint, format, contents)
    } else {
        m.build.fingerprint == fingerprint && session::patched(m, r) == m
    }
}

/// What holds of a build from where it looks for an earlier one.
spec fn keeps_identity<B: LanguageBuilder, A: ApplicationAdapter>(
    w: SessionView<B, A>,
    c: ContextView<B, A>,
    fingerprint: Seq<char>,
) -> bool {
    &&& w.context == c
    &&& match w.stage {
        StageView::Look { work, fingerprint: f } => build_laws::work_fits(c.request, work) && f
            == fingerprint,
        StageView::Check { work, fingerprint: f, manifest } => build_laws::work_fits(
            c.request,
            work,
        ) && f == fingerprint && cache::cache_fits(manifest, c.request, fingerprint),
        StageView::Renew { manifest } | StageView::Reopen { manifest } => cache::cache_fits(
            manifest,
            c.request,
            fingerprint,
        ),
        StageView::Build { builder, fingerprint: f } => c.request.raw_artifact is None && f
            == fingerprint,
        StageView::RawDirectory { format, fingerprint: f }
        | StageView::RawCopy { format, fingerprint: f }
        | StageView::RawRename { format, fingerprint: f } => c.request.raw_artifact is Some && f
            == fingerprint,
        StageView::RawCollect { format, fingerprint: f } => c.request.raw_artifact is Some && f
            == fingerprint && raw_artifact::raw_checked(c.request, format) is Ok,
        StageView::Confirm { output } | StageView::Record { output } => is_made_for(
            output.manifest,
            c.request,
            fingerprint,
        ),
        StageView::Finished { output, reused } => if reused {
            cache::cache_fits(output.manifest, c.request, fingerprint)
        } else {
            is_made_for(output.manifest, c.request, fingerprint)
        },
        _ => false,
    }
}

proof fn lemma_identity_step<B: LanguageBuilder, A: ApplicationAdapter>(
    w: SessionView<B, A>,
    c: ContextView<B, A>,
    fingerprint: Seq<char>,
    reply: ReplyView,
)
    requires
        keeps_identity(w, c, fingerprint),
    ensures
        session::after(w, reply) matches Ok(n) ==> keeps_identity(n, c, fingerprint),
{
    match w.stage {
        StageView::Look { .. } => {
            reveal(session::after_look);
        },
        StageView::Check { .. } => {
            reveal(session::after_check);
        },
        StageView::Reopen { .. } => {
            reveal(session::after_reopen);
        },
        StageView::Build { .. } => {
            reveal(session::after_build);
        },
        StageView::RawCollect { format, .. } => {
            reveal(session::after_raw_collect);
            if let ReplyView::Contents(Some(bytes)) = reply {
                assert(is_wrapped_for(
                    raw_artifact::raw_manifest(c.request, format, fingerprint, bytes),
                    c.request,
                    fingerprint,
                    format,
                    bytes,
                ));
            }
        },
        StageView::Confirm { .. } => {
            reveal(session::after_confirm);
        },
        _ => {},
    }
}

proof fn lemma_identity<B: LanguageBuilder, A: ApplicationAdapter>(
    w: SessionView<B, A>,
    c: ContextView<B, A>,
    fingerprint: Seq<char>,
    replies: Seq<ReplyView>,
)
    requires
        keeps_identity(w, c, fingerprint),
    ensures
        build_laws::after_all(w, replies) matches Ok(n) ==> keeps_identity(n, c, fingerprint),
    decreases replies.len(),
{
    if replies.len() > 0 {
        lemma_identity_step(w, c, fingerprint, replies[0]);
        if let Ok(n) = session::after(w, replies[0]) {
            lemma_identity(n, c, fingerprint, replies.drop_first());
        }
    }
}

/// A build that ends with a new artifact ends from the record of its manifest.
proof fn lemma_ends_from_record<B: LanguageBuilder, A: ApplicationAdapter>(
    w: SessionView<B, A>,
    reply: ReplyView,
)
    requires
        session::after(w, reply) matches Ok(n) && n.stage matches StageView::Finished {
            output,
            reused,
        } && !reused,
    ensures
        w.stage matches StageView::Record { output } && session::after(w, reply)->Ok_0 == (
        SessionView {
            context: w.context,
            stage: StageView::<B, A>::Finished { output, reused: false },
        }),
{
    reveal(session::after_discover);
    reveal(session::after_open);
    reveal(session::after_look);
    reveal(session::after_check);
    reveal(session::after_reopen);
    reveal(session::after_build);
    reveal(session::after_raw_collect);
    reveal(session::after_confirm);
}

/// A build that looked for an earlier one and ends with a new artifact was given the
/// artifact before its last reply; it holds against the manifest, which was made for
/// the request.
proof fn lemma_confirmed<B: LanguageBuilder, A: ApplicationAdapter>(
    w: SessionView<B, A>,
    replies: Seq<ReplyView>,
)
    requires
        looks(w),
        build_laws::after_all(w, replies) matches Ok(n) && n.stage matches StageView::Finished {
            output,
            reused,
        } && !reused,
    ensures
        replies.len() >= 2,
        build_laws::after_all(w, replies)->Ok_0.context == w.context,
        replies[replies.len() - 2] matches ReplyView::Stored(stored) && validation::verified(
            build_laws::after_all(w, replies)->Ok_0.stage->Finished_output.manifest,
            w.context.request.project_dir,
            stored,
        ) is Ok,
        is_made_for(
            build_laws::after_all(w, replies)->Ok_0.stage->Finished_output.manifest,
            w.context.request,
            w.stage->Look_fingerprint,
        ),
{
    let c = w.context;
    let fingerprint = w.stage->Look_fingerprint;
    let most = replies.drop_last();
    lemma_identity(w, c, fingerprint, replies);
    assert(replies.len() > 0);
    lemma_after_last(w, replies);
    let y = build_laws::after_all(w, most)->Ok_0;
    lemma_ends_from_record(y, replies.last());
    assert(most.len() > 0);
    lemma_after_last(w, most);
    let x = build_laws::after_all(w, most.drop_last())->Ok_0;
    lemma_identity(w, c, fingerprint, most.drop_last());
    build_laws::new_artifacts_are_verified(x, most.last());
    assert(most.last() == replies[replies.len() - 2]);
}

/// How a build comes to take over an earlier artifact.
proof fn lemma_takes_over<B: LanguageBuilder, A: ApplicationAdapter>(
    w: SessionView<B, A>,
    reply: ReplyView,
)
    requires
        session::after(w, reply) is Ok,
    ensures
        session::after(w, reply)->Ok_0.stage matches StageView::Finished { output, reused } ==> (
        reused ==> w.stage == (StageView::<B, A>::Reopen { manifest: output.manifest })),
        session::after(w, reply)->Ok_0.stage matches StageView::Reopen { manifest } ==> w.stage
            == (StageView::<B, A>::Renew { manifest }),
        session::after(w, reply)->Ok_0.stage matches StageView::Renew { manifest }
            ==> w.stage matches StageView::Check { work, fingerprint, manifest: m }
            && reply matches ReplyView::Stored(stored) && validation::verified(
            m,
            w.context.request.project_dir,
            stored,
        ) is Ok && manifest == (ManifestView {
            execution: w.context.request.execution_defaults,
            ..m
        }),
{
    reveal(session::after_discover);
    reveal(session::after_open);
    reveal(session::after_look);
    reveal(session::after_check);
    reveal(session::after_reopen);
    reveal(session::after_build);
    reveal(session::after_raw_collect);
    reveal(session::after_confirm);
}

/// A build that looked for an earlier one and takes its artifact over was given the
/// artifact three replies before its end; it holds against the manifest, which
/// describes what is asked for.
proof fn lemma_taken_over<B: LanguageBuilder, A: ApplicationAdapter>(
    w: SessionView<B, A>,
    replies: Seq<ReplyView>,
)
    requires
        looks(w),
        build_laws::after_all(w, replies) matches Ok(n) && n.stage matches StageView::Finished {
            output,
            reused,
        } && reused,
    ensures
        replies.len() >= 3,
        replies[replies.len() - 3] matches ReplyView::Stored(stored) && validation::verified(
            build_laws::after_all(w, replies)->Ok_0.stage->Finished_output.manifest,
            w.context.request.project_dir,
            stored,
        ) is Ok,
        cache::cache_fits(
            build_laws::after_all(w, replies)->Ok_0.stage->Finished_output.manifest,
            w.context.request,
            w.stage->Look_fingerprint,
        ),
{
    let c = w.context;
    let fingerprint = w.stage->Look_fingerprint;
    let m = build_laws::after_all(w, replies)->Ok_0.stage->Finished_output.manifest;
    let a = replies.drop_last();
    let b = a.drop_last();
    lemma_identity(w, c, fingerprint, replies);
    assert(replies.len() > 0);
    lemma_after_last(w, replies);
    let reopen = build_laws::after_all(w, a)->Ok_0;
    lemma_takes_over(reopen, replies.last());
    assert(a.len() > 0);
    lemma_after_last(w, a);
    let renew = build_laws::after_all(w, b)->Ok_0;
    lemma_takes_over(renew, a.last());
    assert(b.len() > 0);
    lemma_after_last(w, b);
    let check = build_laws::after_all(w, b.drop_last())->Ok_0;
    lemma_takes_over(check, b.last());
    lemma_identity(w, c, fingerprint, b.drop_last());
    assert(b.last() == replies[replies.len() - 3]);
    let earlier = check.stage->Check_manifest;
    assert(m == (ManifestView { execution: c.request.execution_defaults, ..earlier }));
    lemma_still_verified(earlier, m, c.request.project_dir, b.last()->Stored_0);
}

/// Whether an artifact holds against a manifest does not depend on the execution
/// defaults, nor on how the entrypoint is held.
proof fn lemma_still_verified(
    m: ManifestView,
    other: ManifestView,
    project_dir: Seq<char>,
    stored: StoredView,
)
    requires
        artifact::with_named_entrypoint(other) == artifact::with_named_entrypoint(
            ManifestView { execution: other.execution, ..m },
        ),
        validation::verified(m, project_dir, stored) is Ok,
    ensures
        validation::verified(other, project_dir, stored) is Ok,
{
    validation::valid_iff_no_violation(m);
    validation::valid_iff_no_violation(other);
    assert(validation::is_valid(m) == validation::is_valid(other));
}

/// Whether a build makes a new artifact.
pub open spec fn makes_new<B, A>(stage: StageView<B, A>) -> bool {
    match stage {
        StageView::Build { .. } | StageView::RawDirectory { .. } | StageView::RawCopy { .. }
        | StageView::RawRename { .. } | StageView::RawCollect { .. } | StageView::Confirm { .. }
        | StageView::Record { .. } => true,
        StageView::Finished { output, reused } => !reused,
        _ => false,
    }
}

proof fn lemma_new_stays_new<B: LanguageBuilder, A: ApplicationAdapter>(
    w: SessionView<B, A>,
    replies: Seq<ReplyView>,
)
    requires
        makes_new(w.stage),
    ensures
        build_laws::after_all(w, replies) matches Ok(n) ==> makes_new(n.stage),
    decreases replies.len(),
{
    if replies.len() > 0 {
        reveal(session::after_build);
        reveal(session::after_raw_collect);
        reveal(session::after_confirm);
        if let Ok(n) = session::after(w, replies[0]) {
            assert(makes_new(n.stage));
            lemma_new_stays_new(n, replies.drop_first());
        }
    }
}

/// A build that takes over an earlier artifact never asks for one to be built.
pub proof fn reused_builds_build_nothing<B: LanguageBuilder, A: ApplicationAdapter>(
    w: SessionView<B, A>,
    replies: Seq<ReplyView>,
    j: int,
)
    requires
        build_laws::after_all(w, replies) matches Ok(n) && n.stage matches StageView::Finished {
            output,
            reused,
        } && reused,
        0 <= j <= replies.len(),
    ensures
        build_laws::after_all(w, replies.take(j)) matches Ok(n) && !makes_new(n.stage) && !(
        session::asks(n) matches Some(action) && (action is Build || action is Copy)),
{
    assert(replies.take(j) + replies.skip(j) =~= replies);
    lemma_after_both(w, replies.take(j), replies.skip(j));
    if let Ok(n) = build_laws::after_all(w, replies.take(j)) {
        if makes_new(n.stage) {
            lemma_new_stays_new(n, replies.skip(j));
        }
    }
}

/// What the first of two builds gave, which ended with a new artifact after these
/// replies.
pub open spec fn first_output<B: LanguageBuilder, A: ApplicationAdapter>(
    c: ContextView<B, A>,
    replies: Seq<ReplyView>,
) -> OutputView {
    build_laws::after_all(build_start(c), replies)->Ok_0.stage->Finished_output
}

/// The manifest of the first build, as it is read back.
pub open spec fn first_manifest<B: LanguageBuilder, A: ApplicationAdapter>(
    c: ContextView<B, A>,
    replies: Seq<ReplyView>,
) -> ManifestView {
    artifact::with_named_entrypoint(first_output(c, replies).manifest)
}

/// The request as the first of two builds left it.
pub open spec fn first_request<B: LanguageBuilder, A: ApplicationAdapter>(
    c: ContextView<B, A>,
    replies: Seq<ReplyView>,
) -> RequestView {
    build_laws::after_all(build_start(c), replies)->Ok_0.context.request
}

/// Whether a build that is not forced ended, with a new artifact or a reused one, and
/// what is read of the manifest is what it wrote.
pub open spec fn is_first_build<B: LanguageBuilder, A: ApplicationAdapter>(
    c: ContextView<B, A>,
    replies: Seq<ReplyView>,
    reused: bool,
    contents: Seq<u8>,
) -> bool {
    &&& !c.request.force
    &&& build_laws::after_all(build_start(c), replies) matches Ok(n)
        && n.stage matches StageView::Finished { output, reused: taken } && taken == reused
    &&& manifest_json::loaded(
        artifact::manifest_location(first_request(c, replies).project_dir),
        Some(contents),
    ) == Ok::<ManifestView, ErrorView>(first_manifest(c, replies))
}

/// The replies of a build that is repeated: the first `k` of those of the first
/// build, then the manifest that it wrote, and the artifact that it was given.
pub open spec fn repeated(
    replies: Seq<ReplyView>,
    k: int,
    contents: Seq<u8>,
    artifact: ReplyView,
) -> Seq<ReplyView> {
    replies.take(k) + seq![
        ReplyView::Contents(Some(contents)),
        artifact,
        ReplyView::Done,
        artifact,
    ]
}

/// Whether a build ends with what the first build gave; of the manifest only the
/// execution defaults may differ.
pub open spec fn takes_first_over<B: LanguageBuilder, A: ApplicationAdapter>(
    c: ContextView<B, A>,
    replies: Seq<ReplyView>,
    again: Seq<ReplyView>,
) -> bool {
    build_laws::after_all(build_start(c), again) matches Ok(n)
        && n.stage matches StageView::Finished { output, reused } && reused && output.manifest == (
    ManifestView {
        execution: n.context.request.execution_defaults,
        ..first_manifest(c, replies)
    })
}

proof fn lemma_repeat<B: LanguageBuilder, A: ApplicationAdapter>(
    c: ContextView<B, A>,
    replies: Seq<ReplyView>,
    contents: Seq<u8>,
) -> (k: int)
    requires
        is_first_build(c, replies, false, contents),
        forall|fingerprint: Seq<char>| #[trigger]
            is_made_for(
                first_output(c, replies).manifest,
                first_request(c, replies),
                fingerprint,
            ) ==> cache::cache_fits(
                first_output(c, replies).manifest,
                first_request(c, replies),
                fingerprint,
            ),
    ensures
        0 <= k <= replies.len() - 2,
        replies[replies.len() - 2] is Stored,
        takes_first_over(
            c,
            replies,
            repeated(replies, k, contents, replies[replies.len() - 2]),
        ),
{
    let start = build_start(c);
    let m = first_output(c, replies).manifest;
    let k = lemma_builds_look(start, replies);
    let before = replies.take(k);
    let rest = replies.skip(k);
    let w = build_laws::after_all(start, before)->Ok_0;
    assert(before + rest =~= replies);
    lemma_after_both(start, before, rest);
    lemma_confirmed(w, rest);
    let confirmed = rest[rest.len() - 2];
    assert(confirmed == replies[replies.len() - 2]);
    let stored = confirmed->Stored_0;
    let named = first_manifest(c, replies);
    lemma_still_verified(m, named, w.context.request.project_dir, stored);
    build_laws::unchanged_builds_are_reused(w, named, contents, stored);
    let tail = seq![
        ReplyView::Contents(Some(contents)),
        ReplyView::Stored(stored),
        ReplyView::Done,
        ReplyView::Stored(stored),
    ];
    lemma_after_both(start, before, tail);
    k
}

/// A build of sources that is repeated takes over what the first one built. Up to
/// where an earlier build is looked for, after `k` replies, the replies are those of
/// the first build; then the manifest that it wrote is read back, and the artifact is
/// the one that it was confirmed with. The manifest must have profile, target,
/// interface and world of the request.
pub proof fn repeated_builds_are_reused<B: LanguageBuilder, A: ApplicationAdapter>(
    c: ContextView<B, A>,
    replies: Seq<ReplyView>,
    contents: Seq<u8>,
) -> (k: int)
    requires
        is_first_build(c, replies, false, contents),
        c.request.raw_artifact is None,
        ({
            let r = first_request(c, replies);
            let m = first_output(c, replies).manifest;
            &&& m.build.profile == r.profile
            &&& m.build.target == cache::target_or_empty(r.abi)
            &&& m.runtime.abi == r.abi
            &&& r.abi == "wasi-preview2"@ && r.world is Some ==> m.runtime.world == r.world
        }),
    ensures
        0 <= k <= replies.len() - 2,
        replies[replies.len() - 2] is Stored,
        takes_first_over(
            c,
            replies,
            repeated(replies, k, contents, replies[replies.len() - 2]),
        ),
{
    lemma_same_kind(c, replies);
    build_laws::built_artifacts_are_found_again(
        first_output(c, replies).manifest,
        first_request(c, replies),
    );
    lemma_repeat(c, replies, contents)
}

/// A build from a provided artifact that is repeated takes over what the first one
/// wrapped, unless the request names an adapter.
pub proof fn repeated_wrappings_are_reused<B: LanguageBuilder, A: ApplicationAdapter>(
    c: ContextView<B, A>,
    replies: Seq<ReplyView>,
    contents: Seq<u8>,
) -> (k: int)
    requires
        is_first_build(c, replies, false, contents),
        c.request.raw_artifact is Some,
        first_request(c, replies).adapter is None,
        first_request(c, replies).adapter_workspace is None,
    ensures
        0 <= k <= replies.len() - 2,
        replies[replies.len() - 2] is Stored,
        takes_first_over(
            c,
            replies,
            repeated(replies, k, contents, replies[replies.len() - 2]),
        ),
{
    let r = first_request(c, replies);
    let m = first_output(c, replies).manifest;
    lemma_same_kind(c, replies);
    assert forall|fingerprint: Seq<char>| #[trigger]
        is_made_for(m, r, fingerprint) implies cache::cache_fits(m, r, fingerprint) by {
        let (format, bytes) = choose|format: ArtifactFormat, bytes: Seq<u8>|
            is_wrapped_for(m, r, fingerprint, format, bytes);
        raw_artifact::wrapped_artifact_is_found_again(r, format, fingerprint, bytes);
    }
    lemma_repeat(c, replies, contents)
}

/// A build from a provided artifact stays one, and a build of sources stays one.
proof fn lemma_same_kind<B: LanguageBuilder, A: ApplicationAdapter>(
    c: ContextView<B, A>,
    replies: Seq<ReplyView>,
)
    requires
        !c.request.force,
        build_laws::after_all(build_start(c), replies) matches Ok(n) && n.stage is Finished,
    ensures
        first_request(c, replies).raw_artifact is Some == c.request.raw_artifact is Some,
{
    let start = build_start(c);
    let k = lemma_builds_look(start, replies);
    let w = build_laws::after_all(start, replies.take(k))->Ok_0;
    assert(replies.take(k) + replies.skip(k) =~= replies);
    lemma_after_both(start, replies.take(k), replies.skip(k));
    lemma_identity(w, w.context, w.stage->Look_fingerprint, replies.skip(k));
}

/// A build that took over an earlier artifact is itself repeated in this way.
pub proof fn reused_builds_are_reused_again<B: LanguageBuilder, A: ApplicationAdapter>(
    c: ContextView<B, A>,
    replies: Seq<ReplyView>,
    contents: Seq<u8>,
) -> (k: int)
    requires
        is_first_build(c, replies, true, contents),
    ensures
        0 <= k <= replies.len() - 3,
        replies[replies.len() - 3] is Stored,
        takes_first_over(
            c,
            replies,
            repeated(replies, k, contents, replies[replies.len() - 3]),
        ),
{
    let start = build_start(c);
    let m = first_output(c, replies).manifest;
    let k = lemma_builds_look(start, replies);
    let before = replies.take(k);
    let rest = replies.skip(k);
    let w = build_laws::after_all(start, before)->Ok_0;
    assert(before + rest =~= replies);
    lemma_after_both(start, before, rest);
    lemma_taken_over(w, rest);
    lemma_identity(w, w.context, w.stage->Look_fingerprint, rest);
    let checked = rest[rest.len() - 3];
    assert(checked == replies[replies.len() - 3]);
    let stored = checked->Stored_0;
    let named = first_manifest(c, replies);
    lemma_still_verified(m, named, w.context.request.project_dir, stored);
    build_laws::unchanged_builds_are_reused(w, named, contents, stored);
    let tail = seq![
        ReplyView::Contents(Some(contents)),
        ReplyView::Stored(stored),
        ReplyView::Done,
        ReplyView::Stored(stored),
    ];
    lemma_after_both(start, before, tail);
    k
}

} // verus!
