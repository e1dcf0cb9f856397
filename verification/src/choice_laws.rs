//! What is chosen for a project: the applications that adapters find in it, the adapter that
//! bridges one of them, and the builder that takes it.

use crate::adapter::ApplicationAdapter;
use crate::builder::LanguageBuilder;
use crate::crew;
use crate::crew::PitCrew;
use crate::error::ErrorView;
use crate::experimental_builder::ExperimentalBuilder;
use crate::external_adapter;
use crate::go_builder::GoBuilder;
use crate::js_builder::JsBuilder;
use crate::language::Language;
use crate::native_builder::NativeBuilder;
use crate::paths;
use crate::project::{CandidateView, ProjectView};
use crate::python_builder::PythonBuilder;
use crate::request::{Detection, RequestView};
use crate::rust_builder::RustBuilder;
use crate::selection;
use crate::selection::{AdapterDirectoryView, SelectedView};
use crate::source_laws;
use crate::standard_adapter::StandardAdapter;
use crate::walk::EntryKind;
use vstd::prelude::*;

verus! {

/// Whether a listing has a file of that name.
pub open spec fn lists(listing: Seq<(Seq<char>, EntryKind)>, name: Seq<char>) -> bool {
    listing.contains((name, EntryKind::File))
}

/// Whether a listing has an entry whose name ends like that.
pub open spec fn has_ending(listing: Seq<(Seq<char>, EntryKind)>, ending: Seq<char>) -> bool {
    exists|i: int|
        0 <= i < listing.len() && source_laws::ends_in((#[trigger] listing[i]).0, ending)
}

proof fn lemma_listed(listing: Seq<(Seq<char>, EntryKind)>, wanted: Seq<char>, ending: Seq<char>)
    requires
        wanted.len() > 0,
        !wanted.contains('.'),
        ending == seq!['.'] + wanted,
    ensures
        crate::walk::lists_extension(listing, wanted) <==> has_ending(listing, ending),
{
    assert forall|i: int| 0 <= i < listing.len() implies (paths::extension(
        (#[trigger] listing[i]).0,
    ) == Some(wanted)) == source_laws::ends_in(listing[i].0, ending) by {
        source_laws::extensions_follow_the_dot(listing[i].0, wanted);
    }
    if crate::walk::lists_extension(listing, wanted) {
        let i = choose|i: int|
            0 <= i < listing.len() && paths::extension((#[trigger] listing[i]).0) == Some(wanted);
        assert(source_laws::ends_in(listing[i].0, ending));
    }
    if has_ending(listing, ending) {
        let i = choose|i: int|
            0 <= i < listing.len() && source_laws::ends_in((#[trigger] listing[i]).0, ending);
        assert(paths::extension(listing[i].0) == Some(wanted));
    }
}

proof fn lemma_native_listed(listing: Seq<(Seq<char>, EntryKind)>)
    ensures
        crate::walk::lists_extension(listing, "c"@) <==> has_ending(listing, ".c"@),
        crate::walk::lists_extension(listing, "cpp"@) <==> has_ending(listing, ".cpp"@),
        crate::walk::lists_extension(listing, "cc"@) <==> has_ending(listing, ".cc"@),
        crate::walk::lists_extension(listing, "cxx"@) <==> has_ending(listing, ".cxx"@),
{
    reveal_strlit("c");
    reveal_strlit(".c");
    reveal_strlit("cpp");
    reveal_strlit(".cpp");
    reveal_strlit("cc");
    reveal_strlit(".cc");
    reveal_strlit("cxx");
    reveal_strlit(".cxx");
    assert(seq!['.'] + "c"@ =~= ".c"@);
    assert(seq!['.'] + "cpp"@ =~= ".cpp"@);
    assert(seq!['.'] + "cc"@ =~= ".cc"@);
    assert(seq!['.'] + "cxx"@ =~= ".cxx"@);
    lemma_listed(listing, "c"@, ".c"@);
    lemma_listed(listing, "cpp"@, ".cpp"@);
    lemma_listed(listing, "cc"@, ".cc"@);
    lemma_listed(listing, "cxx"@, ".cxx"@);
}

/// Which projects the builders take, and what they build.
pub proof fn builders_take_projects_by_their_files(
    rust: RustBuilder,
    go: GoBuilder,
    python: PythonBuilder,
    js: JsBuilder,
    native: NativeBuilder,
    listing: Seq<(Seq<char>, EntryKind)>,
)
    ensures
        rust.builds() == Language::Rust,
        rust.takes(listing) == Detection::Yes <==> lists(listing, "Cargo.toml"@),
        go.builds() == Language::Go,
        go.takes(listing) == Detection::Yes <==> lists(listing, "go.mod"@),
        python.builds() == Language::Python,
        python.takes(listing) == Detection::Yes <==> lists(listing, "pyproject.toml"@) || lists(
            listing,
            "app.py"@,
        ),
        js.builds() == Language::TypeScript ==> (js.takes(listing) == Detection::Yes <==> lists(
            listing,
            "package.json"@,
        ) && lists(listing, "main.ts"@)),
        js.builds() == Language::JavaScript ==> (js.takes(listing) == Detection::Yes <==> lists(
            listing,
            "package.json"@,
        ) && lists(listing, "main.js"@) && !lists(listing, "main.ts"@)),
        native.builds() == Language::C ==> (native.takes(listing) == Detection::Yes <==> has_ending(
            listing,
            ".c"@,
        )),
        native.builds() == Language::Cpp ==> (native.takes(listing) == Detection::Yes
            <==> has_ending(listing, ".cpp"@) || has_ending(listing, ".cc"@) || has_ending(
            listing,
            ".cxx"@,
        )),
{
    lemma_native_listed(listing);
    reveal_strlit("main.c");
    reveal_strlit(".c");
    reveal_strlit("main.cpp");
    reveal_strlit(".cpp");
    if lists(listing, "main.c"@) {
        let i = choose|i: int| 0 <= i < listing.len() && listing[i] == ("main.c"@, EntryKind::File);
        assert("main.c"@.subrange(4, 6) =~= ".c"@);
        assert(source_laws::ends_in(listing[i].0, ".c"@));
    }
    if lists(listing, "main.cpp"@) {
        let i = choose|i: int|
            0 <= i < listing.len() && listing[i] == ("main.cpp"@, EntryKind::File);
        assert("main.cpp"@.subrange(4, 8) =~= ".cpp"@);
        assert(source_laws::ends_in(listing[i].0, ".cpp"@));
    }
}

/// The builder of a project takes it, and is of the language that was asked for.
pub proof fn chosen_builders_take_the_project<B: LanguageBuilder>(
    builders: Seq<B>,
    project_dir: Seq<char>,
    listing: Seq<(Seq<char>, EntryKind)>,
    wanted: Option<Language>,
)
    ensures
        crew::chosen_builder(builders, project_dir, listing, wanted) matches Ok(b)
            ==> builders.contains(b) && b.takes(listing) == Detection::Yes && (wanted
            matches Some(l) ==> b.builds() == l),
        forall|i: int|
            0 <= i < builders.len() && (#[trigger] builders[i]).takes(listing) == Detection::Yes && (
            wanted is None || wanted == Some(builders[i].builds())) && (forall|j: int|
                0 <= j < builders.len() && j != i ==> (#[trigger] builders[j]).takes(listing)
                    != Detection::Yes || (wanted is Some && wanted != Some(builders[j].builds())))
                ==> crew::chosen_builder(builders, project_dir, listing, wanted) == Ok::<
                B,
                ErrorView,
            >(builders[i]),
{
    crew::ambiguous_projects_are_refused(builders, project_dir, listing, wanted);
    assert forall|i: int|
        0 <= i < builders.len() && (#[trigger] builders[i]).takes(listing) == Detection::Yes && (
        wanted is None || wanted == Some(builders[i].builds())) && (forall|j: int|
            0 <= j < builders.len() && j != i ==> (#[trigger] builders[j]).takes(listing)
                != Detection::Yes || (wanted is Some && wanted != Some(
                builders[j].builds(),
            ))) implies crew::chosen_builder(builders, project_dir, listing, wanted) == Ok::<
        B,
        ErrorView,
    >(builders[i]) by {
        assert(crew::is_only_plausible(builders, listing, wanted, i));
        if let Ok(b) = crew::chosen_builder(builders, project_dir, listing, wanted) {
            let k = choose|k: int|
                #[trigger] crew::is_only_plausible(builders, listing, wanted, k) && builders[k] == b;
            if k != i {
                assert(!crew::is_plausible(builders[i], listing, wanted));
            }
        }
    }
    if let Ok(b) = crew::chosen_builder(builders, project_dir, listing, wanted) {
        let k = choose|k: int|
            #[trigger] crew::is_only_plausible(builders, listing, wanted, k) && builders[k] == b;
        assert(builders[k] == b);
    }
}

/// The applications of a project are those that its adapters find, of the language that is
/// asked for.
pub proof fn every_application_is_found<A: ApplicationAdapter>(
    adapters: Seq<A>,
    project: ProjectView,
    wanted: Option<Language>,
    c: CandidateView,
)
    ensures
        selection::found_by(adapters, project, wanted).contains(c) <==> (wanted is None || wanted
            == Some(c.language)) && exists|i: int|
            0 <= i < adapters.len() && (#[trigger] adapters[i]).detected(project) == Some(c),
    decreases adapters.len(),
{
    if adapters.len() > 0 {
        let before = adapters.drop_last();
        let rest = selection::found_by(before, project, wanted);
        let all = selection::found_by(adapters, project, wanted);
        every_application_is_found(before, project, wanted, c);
        assert(adapters[adapters.len() - 1] == adapters.last());
        if rest.contains(c) {
            let k = choose|k: int| 0 <= k < rest.len() && rest[k] == c;
            assert(all[k] == c);
            let i = choose|i: int|
                0 <= i < before.len() && (#[trigger] before[i]).detected(project) == Some(c);
            assert(adapters[i].detected(project) == Some(c));
        }
        if all.contains(c) && !rest.contains(c) {
            let k = choose|k: int| 0 <= k < all.len() && all[k] == c;
            if k < rest.len() {
                assert(rest[k] == c);
            }
            assert(adapters[adapters.len() - 1].detected(project) == Some(c));
        }
        if (wanted is None || wanted == Some(c.language)) && exists|i: int|
            0 <= i < adapters.len() && (#[trigger] adapters[i]).detected(project) == Some(c) {
            let i = choose|i: int|
                0 <= i < adapters.len() && (#[trigger] adapters[i]).detected(project) == Some(c);
            if i < before.len() {
                assert(before[i].detected(project) == Some(c));
            } else {
                assert(all.last() == c);
            }
        }
    }
}

proof fn lemma_with_interface(candidates: Seq<CandidateView>, interface: Seq<char>, i: int)
    requires
        0 <= i < candidates.len(),
        candidates[i].application_interface == Some(interface),
        forall|j: int|
            0 <= j < candidates.len() && j != i ==> (
            #[trigger] candidates[j]).application_interface != Some(interface),
    ensures
        selection::with_interface(candidates, interface) == seq![candidates[i]],
    decreases candidates.len(),
{
    let rest = candidates.drop_last();
    if i == candidates.len() - 1 {
        assert forall|j: int| 0 <= j < rest.len() implies (
        #[trigger] rest[j]).application_interface != Some(interface) by {
            assert(rest[j] == candidates[j]);
        }
        lemma_without_interface(rest, interface);
        assert(selection::with_interface(candidates, interface) =~= seq![candidates[i]]);
    } else {
        assert(candidates[candidates.len() - 1] == candidates.last());
        assert(rest[i] == candidates[i]);
        assert forall|j: int| 0 <= j < rest.len() && j != i implies (
        #[trigger] rest[j]).application_interface != Some(interface) by {
            assert(rest[j] == candidates[j]);
        }
        lemma_with_interface(rest, interface, i);
    }
}

proof fn lemma_without_interface(candidates: Seq<CandidateView>, interface: Seq<char>)
    requires
        forall|j: int|
            0 <= j < candidates.len() ==> (#[trigger] candidates[j]).application_interface != Some(
                interface,
            ),
    ensures
        selection::with_interface(candidates, interface).len() == 0,
    decreases candidates.len(),
{
    if candidates.len() > 0 {
        let rest = candidates.drop_last();
        assert(candidates[candidates.len() - 1] == candidates.last());
        assert forall|j: int| 0 <= j < rest.len() implies (
        #[trigger] rest[j]).application_interface != Some(interface) by {
            assert(rest[j] == candidates[j]);
        }
        lemma_without_interface(rest, interface);
    }
}

proof fn lemma_interfaces_kept(candidates: Seq<CandidateView>, interface: Seq<char>, c: CandidateView)
    ensures
        selection::with_interface(candidates, interface).contains(c) ==> candidates.contains(c)
            && c.application_interface == Some(interface),
    decreases candidates.len(),
{
    if candidates.len() > 0 {
        let before = candidates.drop_last();
        let rest = selection::with_interface(before, interface);
        let all = selection::with_interface(candidates, interface);
        lemma_interfaces_kept(before, interface, c);
        assert(candidates[candidates.len() - 1] == candidates.last());
        if all.contains(c) {
            let k = choose|k: int| 0 <= k < all.len() && all[k] == c;
            if k < rest.len() {
                assert(rest[k] == c);
                let j = choose|j: int| 0 <= j < before.len() && before[j] == c;
                assert(candidates[j] == c);
            }
        }
    }
}

/// The application that is built is one that was found, and has the interface that is asked
/// for. The only one is chosen; nothing is chosen at random.
pub proof fn applications_are_chosen_without_doubt(
    interface: Option<Seq<char>>,
    candidates: Seq<CandidateView>,
    i: int,
)
    ensures
        selection::chosen_candidate(interface, candidates) matches Ok(Some(c)) ==> candidates.contains(
            c,
        ) && (interface matches Some(name) ==> c.application_interface == Some(name)),
        candidates.len() == 0 ==> selection::chosen_candidate(interface, candidates) == Ok::<
            Option<CandidateView>,
            ErrorView,
        >(None),
        interface is None && candidates.len() == 1 ==> selection::chosen_candidate(
            interface,
            candidates,
        ) == Ok::<Option<CandidateView>, ErrorView>(Some(candidates[0])),
        interface is None && candidates.len() > 1 ==> selection::chosen_candidate(
            interface,
            candidates,
        ) is Err,
        interface is Some && 0 <= i < candidates.len() && candidates[i].application_interface
            == interface && (forall|j: int|
            0 <= j < candidates.len() && j != i ==> (
            #[trigger] candidates[j]).application_interface != interface)
            ==> selection::chosen_candidate(interface, candidates) == Ok::<
            Option<CandidateView>,
            ErrorView,
        >(Some(candidates[i])),
        interface is Some && (forall|j: int|
            0 <= j < candidates.len() ==> (#[trigger] candidates[j]).application_interface
                != interface) ==> selection::chosen_candidate(interface, candidates) == Ok::<
            Option<CandidateView>,
            ErrorView,
        >(None),
{
    if let Some(name) = interface {
        let matching = selection::with_interface(candidates, name);
        if matching.len() == 1 {
            assert(matching.contains(matching[0]));
            lemma_interfaces_kept(candidates, name, matching[0]);
        }
        if 0 <= i < candidates.len() && candidates[i].application_interface == interface && (
        forall|j: int|
            0 <= j < candidates.len() && j != i ==> (
            #[trigger] candidates[j]).application_interface != interface) {
            lemma_with_interface(candidates, name, i);
        }
        if forall|j: int|
            0 <= j < candidates.len() ==> (#[trigger] candidates[j]).application_interface
                != interface {
            lemma_without_interface(candidates, name);
        }
    } else if candidates.len() == 1 {
        assert(candidates.contains(candidates[0]));
    }
}

proof fn lemma_with_id<A: ApplicationAdapter>(adapters: Seq<A>, id: Seq<char>)
    ensures
        selection::with_id(adapters, id) matches Some(a) ==> adapters.contains(a) && a.id_text()
            == id,
        selection::with_id(adapters, id) is None ==> forall|i: int|
            0 <= i < adapters.len() ==> (#[trigger] adapters[i]).id_text() != id,
    decreases adapters.len(),
{
    if adapters.len() > 0 && adapters[0].id_text() != id {
        let rest = adapters.drop_first();
        lemma_with_id(rest, id);
        if let Some(a) = selection::with_id(rest, id) {
            let k = choose|k: int| 0 <= k < rest.len() && rest[k] == a;
            assert(adapters[k + 1] == a);
        } else {
            assert forall|i: int| 0 <= i < adapters.len() implies (#[trigger] adapters[i]).id_text()
                != id by {
                if i > 0 {
                    assert(rest[i - 1] == adapters[i]);
                }
            }
        }
    }
}

proof fn lemma_fitting<A: ApplicationAdapter>(
    adapters: Seq<A>,
    language: Language,
    interface: Seq<char>,
    a: A,
)
    ensures
        selection::fitting(adapters, language, interface).contains(a) <==> adapters.contains(a)
            && a.takes_language() == language && a.interface_text() == interface,
    decreases adapters.len(),
{
    if adapters.len() > 0 {
        let before = adapters.drop_last();
        let rest = selection::fitting(before, language, interface);
        let all = selection::fitting(adapters, language, interface);
        lemma_fitting(before, language, interface, a);
        assert(adapters[adapters.len() - 1] == adapters.last());
        if all.contains(a) {
            let k = choose|k: int| 0 <= k < all.len() && all[k] == a;
            if k < rest.len() {
                assert(rest[k] == a);
                let j = choose|j: int| 0 <= j < before.len() && before[j] == a;
                assert(adapters[j] == a);
            }
        }
        if rest.contains(a) {
            let k = choose|k: int| 0 <= k < rest.len() && rest[k] == a;
            assert(all[k] == a);
        }
        if adapters.contains(a) && a.takes_language() == language && a.interface_text()
            == interface {
            let j = choose|j: int| 0 <= j < adapters.len() && adapters[j] == a;
            if j < before.len() {
                assert(before[j] == a);
            } else {
                assert(all.last() == a);
            }
        }
    }
}

/// The adapter of a project is the one that is named, by its name or by its directory;
/// where none is named, one for the language and the interface of the application.
pub proof fn adapters_fit_what_is_asked_for<A: ApplicationAdapter>(
    adapters: Seq<A>,
    r: RequestView,
    candidate: Option<CandidateView>,
    directory: Option<AdapterDirectoryView>,
)
    ensures
        r.adapter is Some && directory is None ==> (selection::selected(
            adapters,
            r,
            candidate,
            directory,
        ) matches Ok(s) ==> (s matches Some(SelectedView::Registered(a)) && adapters.contains(a)
            && Some(a.id_text()) == r.adapter)),
        r.adapter is Some && directory is None && (forall|i: int|
            0 <= i < adapters.len() ==> Some((#[trigger] adapters[i]).id_text()) != r.adapter)
            ==> selection::selected(adapters, r, candidate, directory) is Err,
        r.adapter is Some && directory is None && (exists|i: int|
            0 <= i < adapters.len() && Some((#[trigger] adapters[i]).id_text()) == r.adapter)
            ==> selection::selected(adapters, r, candidate, directory) is Ok,
        r.adapter is Some && directory is Some ==> (selection::selected(
            adapters,
            r,
            candidate,
            directory,
        ) matches Ok(s) ==> (s matches Some(SelectedView::Local(root, m)) && directory->0.canonical
            == Some(root) && external_adapter::external_violation(m) is None)),
        r.adapter is None ==> (selection::selected(adapters, r, candidate, directory) matches Ok(
            Some(s),
        ) ==> (s matches SelectedView::Registered(a) && adapters.contains(a) && (candidate
            matches Some(c) ==> a.takes_language() == c.language && (c.application_interface
            matches Some(i) ==> a.interface_text() == i)) && (candidate is None ==> Some(
            a.takes_language(),
        ) == r.language && Some(a.interface_text()) == r.application_interface))),
        r.adapter is None && candidate is None && r.application_interface is None
            ==> selection::selected(adapters, r, candidate, directory) == Ok::<
            Option<SelectedView<A>>,
            ErrorView,
        >(None),
{
    if let Some(value) = r.adapter {
        lemma_with_id(adapters, value);
    } else if let Some(interface) = selection::wanted_interface(r, candidate) {
        if let Some(language) = selection::wanted_language(r, candidate) {
            let found = selection::fitting(adapters, language, interface);
            if found.len() == 1 {
                assert(found.contains(found[0]));
                lemma_fitting(adapters, language, interface, found[0]);
            }
        }
    }
}

/// The model of an application is what was found, with the interface and the entrypoint
/// that are asked for; where nothing was found, what is asked for of the adapter.
pub proof fn models_follow_the_request<A: ApplicationAdapter>(
    r: RequestView,
    candidate: Option<CandidateView>,
    builder: Language,
    s: SelectedView<A>,
)
    ensures
        ({
            let m = selection::built_model(r, candidate, builder, s);
            &&& r.entrypoint is Some ==> m.entrypoint == r.entrypoint
            &&& r.application_interface is Some ==> m.application_interface
                == r.application_interface
            &&& candidate matches Some(c) ==> m.language == c.language && m.framework_hint
                == c.framework_hint && m.confidence == c.confidence && (r.entrypoint is None
                ==> m.entrypoint == c.entrypoint) && (r.application_interface is None
                ==> m.application_interface == c.application_interface)
            &&& candidate is None ==> m.language == builder && (r.application_interface is None
                ==> m.application_interface == Some(s.interface())) && (r.entrypoint is None
                ==> m.entrypoint is None)
        }),
{
}

/// The adapters that come with the crew: one for ASGI applications, one each for Fetch
/// handlers in JavaScript and in TypeScript, and one for Go handlers.
pub proof fn crews_come_with_adapters<B: LanguageBuilder>(
    builders: Vec<B>,
    crew: PitCrew<B, StandardAdapter>,
)
    requires
        call_ensures(PitCrew::<B, StandardAdapter>::with_default_adapters, (builders,), crew),
    ensures
        crew@.builders == builders@,
        exists|i: int|
            0 <= i < crew@.adapters.len() && (#[trigger] crew@.adapters[i]) is PythonAsgi
                && crew@.adapters[i].id_text() == "python/asgi"@ && crew@.adapters[i].interface_text()
                == "asgi"@ && crew@.adapters[i].takes_language() == Language::Python,
        exists|i: int|
            0 <= i < crew@.adapters.len() && (#[trigger] crew@.adapters[i]) is JavaScriptFetch
                && crew@.adapters[i].interface_text() == "fetch"@
                && crew@.adapters[i].takes_language() == Language::JavaScript,
        exists|i: int|
            0 <= i < crew@.adapters.len() && (#[trigger] crew@.adapters[i]) is JavaScriptFetch
                && crew@.adapters[i].interface_text() == "fetch"@
                && crew@.adapters[i].takes_language() == Language::TypeScript,
        exists|i: int|
            0 <= i < crew@.adapters.len() && (#[trigger] crew@.adapters[i]) is GoNetHttp
                && crew@.adapters[i].id_text() == "go/net-http"@ && crew@.adapters[i].interface_text()
                == "net-http"@ && crew@.adapters[i].takes_language() == Language::Go,
{
    let all = crew@.adapters;
    assert(all[0] is PythonAsgi && all[1] is JavaScriptFetch && all[2] is JavaScriptFetch && all[3]
        is GoNetHttp);
}

/// Whether a listing has a file whose name ends like that.
pub open spec fn lists_ending(listing: Seq<(Seq<char>, EntryKind)>, ending: Seq<char>) -> bool {
    exists|i: int|
        0 <= i < listing.len() && (#[trigger] listing[i]).1 == EntryKind::File
            && ending.is_suffix_of(listing[i].0)
}

/// Which projects the experimental builders take.
pub proof fn experimental_builders_take_projects_by_their_files(
    b: ExperimentalBuilder,
    listing: Seq<(Seq<char>, EntryKind)>,
)
    ensures
        b.builds() == Language::CSharp ==> (b.takes(listing) == Detection::Yes <==> lists_ending(
            listing,
            ".csproj"@,
        ) || lists_ending(listing, ".sln"@) || lists_ending(listing, ".slnx"@)),
        b.builds() == Language::Java ==> (b.takes(listing) == Detection::Yes <==> lists(
            listing,
            "pom.xml"@,
        ) || lists(listing, "build.gradle"@) || lists(listing, "build.gradle.kts"@) || lists_ending(
            listing,
            ".java"@,
        )),
{
}

} // verus!
