//! What callers get: the properties of declared dependencies, reports, entrypoints,
//! manifests and builds, stated of the functions that give them.

use crate::adapter;
use crate::adapter::ApplicationAdapter;
use crate::artifact;
use crate::artifact::ArtifactManifest;
use crate::builder;
use crate::builder::{BuildRun, BuildStep, LanguageBuilder, StepReply};
use crate::choice_laws;
use crate::crew::PitCrew;
use crate::error::PitError;
use crate::handler_laws;
use crate::language::Language;
use crate::manifest_json;
use crate::ordering;
use crate::paths;
use crate::project;
use crate::project::{
    CompatibilityReport, CompatibilityStatus, DetectionCandidate, DistributionView,
    ProjectInspection, PythonDistribution,
};
use crate::python_deps;
use crate::python_report;
use crate::report_laws;
use crate::request::{BuildOutput, Detection};
use crate::requirement_laws;
use crate::requirement_laws::{is_constraint, is_distribution, is_round};
use crate::rust_builder;
use crate::rust_builder::{PhaseView, RustArtifact, RustBuild, RustReply, RustStep};
use crate::session;
use crate::session::{BuildAction, BuildReply, BuildSession, StageView};
use crate::text;
use crate::validation;
use crate::walk::{DirectoryListing, Walk};
use vstd::prelude::*;

verus! {

/// An item of a list is read as the distribution that it names.
pub proof fn items_are_read_as_names(
    value: &str,
    lead: Seq<char>,
    name: Seq<char>,
    tail: Seq<char>,
    r: Option<String>,
)
    requires
        call_ensures(python_deps::parse_dependency_token, (value,), r),
        value@ == lead + name + tail,
        is_round(lead),
        is_distribution(name),
        is_constraint(tail) || is_round(tail),
    ensures
        r matches Some(t) && t@ == name,
{
    requirement_laws::items_declare_what_they_name(lead, name, tail);
}

/// A line of `requirements.txt` gives a dependency, under a name that is compared as the
/// one of the line.
pub proof fn requirements_are_given(
    p: ProjectInspection,
    contents: Seq<char>,
    i: int,
    lead: Seq<char>,
    name: Seq<char>,
    tail: Seq<char>,
    r: Vec<String>,
)
    requires
        call_ensures(python_deps::python_direct_dependencies, (&p,), r),
        project::source_text(p@, "requirements.txt"@) == Some(contents),
        0 <= i < text::lines_of(contents).len(),
        text::lines_of(contents)[i] == lead + name + tail,
        is_round(lead),
        is_distribution(name),
        is_constraint(tail) || is_round(tail),
    ensures
        exists|k: int|
            0 <= k < r@.len() && python_deps::normalized((#[trigger] r@[k])@)
                == python_deps::normalized(name),
{
    requirement_laws::requirement_lines_are_dependencies(p@, contents, i, lead, name, tail);
    let all = python_deps::direct_dependencies(p@);
    let k = choose|k: int|
        0 <= k < all.len() && python_deps::normalized(#[trigger] all[k]) == python_deps::normalized(
            name,
        );
    assert(text::texts(r@)[k] == r@[k]@);
}

/// Names that differ only in the case of letters, or in hyphens, underscores and dots, are
/// given one form; other names are given another.
pub proof fn names_are_given_one_form(a: &str, b: &str, x: String, y: String)
    requires
        call_ensures(python_deps::normalize_distribution_name, (a,), x),
        call_ensures(python_deps::normalize_distribution_name, (b,), y),
        is_distribution(a@),
        is_distribution(b@),
    ensures
        x@ == y@ <==> (a@.len() == b@.len() && forall|i: int|
            0 <= i < a@.len() ==> report_laws::are_alike(#[trigger] a@[i], b@[i])),
{
    report_laws::names_are_compared_loosely(a@, b@);
}

/// The report on a project that depends on a native extension blocks the build.
pub proof fn reports_block_native_dependencies(
    p: ProjectInspection,
    names: Seq<Seq<char>>,
    d: DistributionView,
    r: CompatibilityReport,
)
    requires
        call_ensures(python_report::inspect_python_dependencies, (&p,), r),
        report_laws::are_distinct(p@.packages),
        names.len() > 0,
        requirement_laws::is_dependency(p@, names[0]),
        report_laws::is_chain(p@.packages, names),
        report_laws::is_installed(p@.packages, d, names.last()),
        d.native is Some,
    ensures
        r.status == CompatibilityStatus::Unsupported,
        exists|i: int| 0 <= i < r@.findings.len() && (#[trigger] r@.findings[i]).blocks_build,
{
    report_laws::native_dependencies_block_the_build(p@, names, d);
}

/// An entrypoint of two words is split into them.
pub proof fn entrypoints_are_split(
    entrypoint: &str,
    module: Seq<char>,
    attribute: Seq<char>,
    r: Result<(String, String), PitError>,
)
    requires
        call_ensures(adapter::split_entrypoint, (entrypoint,), r),
        entrypoint@ == module + seq![':'] + attribute,
        handler_laws::is_word(module),
        handler_laws::is_word(attribute),
    ensures
        r matches Ok(parts) && parts.0@ == module && parts.1@ == attribute,
{
    handler_laws::entrypoints_name_module_and_attribute(module, attribute);
}

/// A manifest that is valid is written, and what was written is read as that manifest, with
/// the entrypoint that its name stands for.
pub proof fn manifests_are_read_as_written(
    m: ArtifactManifest,
    written: Result<String, PitError>,
    path: &str,
    bytes: &[u8],
    read: Result<ArtifactManifest, PitError>,
)
    requires
        call_ensures(ArtifactManifest::to_json, (&m,), written),
        written matches Ok(t) ==> bytes@ == vstd::utf8::encode_utf8(t@),
        call_ensures(ArtifactManifest::load, (path, Some(bytes)), read),
    ensures
        written is Ok <==> validation::is_valid(m@),
        written is Ok ==> (read matches Ok(n) && n@ == artifact::with_named_entrypoint(m@)),
{
    validation::valid_iff_no_violation(m@);
    if let Ok(t) = written {
        assert(manifest_json::loaded(path@, Some(vstd::utf8::encode_utf8(t@))) is Ok);
    }
}

/// A crew finds every application that one of its adapters finds.
pub proof fn crews_find_every_application<B: LanguageBuilder, A: ApplicationAdapter>(
    crew: PitCrew<B, A>,
    p: ProjectInspection,
    r: Vec<DetectionCandidate>,
    i: int,
)
    requires
        call_ensures(PitCrew::<B, A>::inspect, (&crew, &p), r),
        0 <= i < crew@.adapters.len(),
        crew@.adapters[i].detected(p@) is Some,
    ensures
        exists|k: int|
            0 <= k < r@.len() && crew@.adapters[i].detected(p@) == Some((#[trigger] r@[k])@),
{
    let c = crew@.adapters[i].detected(p@)->0;
    choice_laws::every_application_is_found(crew@.adapters, p@, None, c);
    let all = project::candidates_view(r@);
    let k = choose|k: int| 0 <= k < all.len() && all[k] == c;
    assert(all[k] == r@[k]@);
}

/// The builder that a crew chooses takes the project, in the language that is asked for.
pub proof fn crews_choose_who_takes_the_project<B: LanguageBuilder, A: ApplicationAdapter>(
    crew: PitCrew<B, A>,
    project_dir: &str,
    listing: DirectoryListing,
    wanted: Option<Language>,
    b: B,
)
    requires
        call_ensures(
            PitCrew::<B, A>::choose_builder,
            (&crew, project_dir, &listing, wanted),
            Ok::<&B, PitError>(&b),
        ),
    ensures
        crew@.builders.contains(b),
        b.takes(listing@) == Detection::Yes,
        wanted matches Some(l) ==> b.builds() == l,
{
    choice_laws::chosen_builders_take_the_project(
        crew@.builders,
        project_dir@,
        listing@,
        wanted,
    );
}

/// A project has the files that were listed, and their texts.
pub proof fn projects_give_their_files(
    p: ProjectInspection,
    relative: &str,
    there: bool,
    source: Option<&str>,
    i: int,
)
    requires
        call_ensures(ProjectInspection::has_file, (&p, relative), there),
        call_ensures(ProjectInspection::source, (&p, relative), source),
    ensures
        0 <= i < p@.files.len() && p@.files[i] == relative@ ==> there,
        there ==> exists|k: int|
            0 <= k < p@.files.len() && paths::same_path(#[trigger] p@.files[k], relative@),
        source matches Some(t) ==> exists|k: int|
            0 <= k < p@.sources.len() && paths::same_path((#[trigger] p@.sources[k]).0, relative@)
                && p@.sources[k].1 == t@,
{
    if 0 <= i < p@.files.len() && p@.files[i] == relative@ {
        assert(paths::same_path(p@.files[i], relative@));
    }
    if source is Some {
        lemma_source_is_there(p@.sources, relative@);
    }
}

proof fn lemma_source_is_there(sources: Seq<(Seq<char>, Seq<char>)>, relative: Seq<char>)
    ensures
        project::source_among(sources, relative) matches Some(t) ==> exists|k: int|
            0 <= k < sources.len() && paths::same_path((#[trigger] sources[k]).0, relative)
                && sources[k].1 == t,
    decreases sources.len(),
{
    if sources.len() > 0 {
        if paths::same_path(sources[0].0, relative) {
            assert(sources[0].1 == sources[0].1);
        } else {
            let rest = sources.drop_first();
            lemma_source_is_there(rest, relative);
            if let Some(t) = project::source_among(rest, relative) {
                let k = choose|k: int|
                    0 <= k < rest.len() && paths::same_path((#[trigger] rest[k]).0, relative)
                        && rest[k].1 == t;
                assert(sources[k + 1] == rest[k]);
            }
        }
    }
}

/// A build that is planned asks for its steps one by one, goes on with what came of them,
/// and gives what was collected.
pub proof fn runs_go_step_by_step(
    run: BuildRun,
    step: Option<BuildStep>,
    reply: StepReply,
    next: Result<BuildRun, PitError>,
    output: Option<BuildOutput>,
)
    requires
        call_ensures(BuildRun::next, (&run,), step),
        call_ensures(BuildRun::replied, (run, reply), next),
        call_ensures(BuildRun::finish, (run,), output),
    ensures
        run@.steps.len() > 0 ==> (step matches Some(s) && s@ == run@.steps[0]),
        run@.steps.len() == 0 ==> step is None,
        next matches Ok(n) ==> builder::run_after(run@, reply@) == Ok::<
            builder::RunView,
            crate::error::ErrorView,
        >(n@),
        next is Err ==> builder::run_after(run@, reply@) is Err,
        output matches Some(o) ==> run@.steps.len() == 0 && run@.manifest == Some(o@.manifest)
            && o@.artifact_path == run@.draft.artifact_path && o@.toolchain
            == run@.draft.toolchain,
        output is None ==> run@.steps.len() > 0 || run@.manifest is None,
{
}

/// A Rust build asks for its steps one by one and gives the program that was built.
pub proof fn rust_builds_go_step_by_step(
    build: RustBuild,
    step: Option<RustStep>,
    reply: RustReply,
    next: Result<RustBuild, PitError>,
    built: Option<RustArtifact>,
)
    requires
        call_ensures(RustBuild::next, (&build,), step),
        call_ensures(RustBuild::replied, (build, reply), next),
        call_ensures(RustBuild::finish, (build,), built),
    ensures
        step matches Some(s) ==> rust_builder::rust_step(build@) == Some(s@),
        step is None <==> build@.phase is Built,
        next matches Ok(n) ==> n@.project_dir == build@.project_dir && n@.profile == build@.profile
            && n@.bin == build@.bin && rust_builder::rust_after(build@, reply@) == Ok::<
            PhaseView,
            crate::error::ErrorView,
        >(n@.phase),
        next is Err ==> rust_builder::rust_after(build@, reply@) is Err,
        built matches Some(a) ==> build@.phase == PhaseView::Built(a@),
        built is None ==> !(build@.phase is Built),
{
}

/// A session asks for what its build needs, goes on with the replies, and gives what the
/// build ended with.
pub proof fn sessions_go_reply_by_reply<'a, B: LanguageBuilder, A: ApplicationAdapter>(
    s: BuildSession<'a, B, A>,
    action: Option<BuildAction<'a, B>>,
    reply: BuildReply,
    next: Result<BuildSession<'a, B, A>, PitError>,
    outcome: Option<session::BuildOutcome>,
)
    requires
        call_ensures(BuildSession::<'a, B, A>::next, (&s,), action),
        call_ensures(BuildSession::<'a, B, A>::replied, (s, reply), next),
        call_ensures(BuildSession::<'a, B, A>::finish, (s,), outcome),
    ensures
        action matches Some(x) ==> session::asks(s@) == Some(x@),
        action is None ==> session::asks(s@) is None,
        next matches Ok(n) ==> session::after(s@, reply@) == Ok::<
            session::SessionView<B, A>,
            crate::error::ErrorView,
        >(n@),
        next is Err ==> session::after(s@, reply@) is Err,
        outcome matches Some(o) ==> s@.stage == (StageView::<B, A>::Finished {
            output: o.artifact@,
            reused: o.reused,
        }),
        outcome is None ==> !(s@.stage is Finished),
{
}

/// A project that was discovered has the files that the walk found, each as often, and the
/// sources and packages that were read.
pub proof fn discovered_projects_have_what_was_found(
    root: &str,
    walk: Walk,
    sources: Vec<(String, String)>,
    packages: Vec<PythonDistribution>,
    p: ProjectInspection,
    i: int,
)
    requires
        call_ensures(ProjectInspection::discover, (root, walk, sources, packages), p),
    ensures
        p@.root == root@,
        p@.files.to_multiset() == walk@.found.to_multiset(),
        p@.sources.len() == sources@.len() && p@.packages.len() == packages@.len(),
        0 <= i < sources@.len() ==> p@.sources[i] == (sources@[i].0@, sources@[i].1@),
        0 <= i < packages@.len() ==> p@.packages[i] == packages@[i]@,
{
    let key = |f: Seq<char>| paths::path_key(f);
    ordering::stable_sort_sorts(walk@.found, key);
}

} // verus!
