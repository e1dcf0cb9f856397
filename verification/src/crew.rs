//! The builders and adapters that work together, and what they find in a project.

use crate::adapter::ApplicationAdapter;
use crate::builder::LanguageBuilder;
use crate::error;
use crate::error::{ErrorKind, ErrorView, PitError};
use crate::go_net_http::GoNetHttpAdapter;
use crate::javascript_fetch::JavaScriptFetchAdapter;
use crate::language;
use crate::language::Language;
use crate::ordering;
use crate::ordering::{key_of_text, sort_by_keys};
use crate::project;
use crate::project::{
    CandidateView, CompatibilityReport, DetectionCandidate, ProjectInspection, ProjectView,
    ReportView,
};
use crate::python_asgi::PythonAsgiAdapter;
use crate::request::{BuildRequest, Detection, RequestView};
use crate::selection;
use crate::selection::{
    choose_candidate, find_applications, fits_language, model_to_inspect,
    select_application_adapter, AdapterDirectory, AdapterDirectoryView,
};
use crate::standard_adapter::StandardAdapter;
use crate::walk::{DirectoryListing, EntryKind};
use vstd::prelude::*;

verus! {

/// Builders and application adapters.
pub struct PitCrew<B, A> {
    adapters: Vec<B>,
    application_adapters: Vec<A>,
}

/// The model of a `PitCrew`.
#[verifier::ext_equal]
pub struct CrewView<B, A> {
    pub builders: Seq<B>,
    pub adapters: Seq<A>,
}

impl<B, A> View for PitCrew<B, A> {
    type V = CrewView<B, A>;

    closed spec fn view(&self) -> CrewView<B, A> {
        CrewView { builders: self.adapters@, adapters: self.application_adapters@ }
    }
}

/// The languages of the builders that take a project.
pub open spec fn builder_languages<B: LanguageBuilder>(
    builders: Seq<B>,
    listing: Seq<(Seq<char>, EntryKind)>,
) -> Seq<Language>
    decreases builders.len(),
{
    if builders.len() == 0 {
        Seq::empty()
    } else {
        let rest = builder_languages(builders.drop_last(), listing);
        if builders.last().takes(listing) == Detection::Yes {
            rest.push(builders.last().builds())
        } else {
            rest
        }
    }
}

/// The languages of candidates.
pub open spec fn candidate_languages(candidates: Seq<CandidateView>) -> Seq<Language> {
    candidates.map_values(|c: CandidateView| c.language)
}

/// The order of languages: that of their names.
pub open spec fn language_key(l: Language) -> Seq<u32> {
    ordering::text_key(language::language_text(l))
}

/// The languages in the order of their names, each once.
pub open spec fn in_order(languages: Seq<Language>) -> Seq<Language> {
    let key = |l: Language| language_key(l);
    ordering::dedup_by(ordering::stable_sort(languages, key), key)
}

/// The languages that are found in a project.
pub open spec fn detected_languages<B: LanguageBuilder, A: ApplicationAdapter>(
    crew: CrewView<B, A>,
    listing: Seq<(Seq<char>, EntryKind)>,
    project: ProjectView,
) -> Seq<Language> {
    in_order(
        builder_languages(crew.builders, listing) + candidate_languages(
            selection::found_by(crew.adapters, project, None),
        ),
    )
}

/// The languages in the order of their names, each once.
fn order_languages(languages: Vec<Language>) -> (r: Vec<Language>)
    ensures
        r@ == in_order(languages@),
{
    let ghost key = |l: Language| language_key(l);
    let mut keys: Vec<Vec<u32>> = Vec::new();
    let mut i: usize = 0;
    while i < languages.len()
        invariant
            i <= languages@.len(),
            keys@.len() == i,
            forall|j: int| 0 <= j < i ==> (#[trigger] keys@[j])@ == language_key(languages@[j]),
        decreases languages@.len() - i,
    {
        keys.push(key_of_text(languages[i].as_str()));
        i = i + 1;
    }
    let sorted = sort_by_keys(languages, keys, Ghost(|l: Language| language_key(l)));
    let ghost all = sorted@;
    let mut out: Vec<Language> = Vec::new();
    assert(all.take(0) =~= Seq::<Language>::empty());
    let mut i: usize = 0;
    while i < sorted.len()
        invariant
            i <= sorted@.len(),
            all == sorted@,
            key == (|l: Language| language_key(l)),
            out@ == ordering::dedup_by(all.take(i as int), key),
        decreases sorted@.len() - i,
    {
        let language = sorted[i];
        assert(all.take(i + 1).drop_last() =~= all.take(i as int));
        assert(all.take(i + 1).last() == language);
        let known = out.len() > 0 && out[out.len() - 1] == language;
        proof {
            if out@.len() > 0 && language_key(out@.last()) == language_key(language) {
                ordering::text_key_injective(
                    language::language_text(out@.last()),
                    language::language_text(language),
                );
                language::language_names_differ(out@.last(), language);
            }
        }
        if !known {
            out.push(language);
        }
        i = i + 1;
    }
    assert(all.take(i as int) =~= all);
    out
}

/// Every language that is found is listed once, in the order of the names, and no
/// other is.
pub proof fn languages_are_listed_once<B: LanguageBuilder, A: ApplicationAdapter>(
    crew: CrewView<B, A>,
    listing: Seq<(Seq<char>, EntryKind)>,
    project: ProjectView,
)
    ensures
        ordering::is_sorted(
            detected_languages(crew, listing, project),
            |l: Language| language_key(l),
        ),
        detected_languages(crew, listing, project).no_duplicates(),
        forall|l: Language| #[trigger]
            detected_languages(crew, listing, project).contains(l) <==> (builder_languages(
                crew.builders,
                listing,
            ).contains(l) || candidate_languages(
                selection::found_by(crew.adapters, project, None),
            ).contains(l)),
{
    broadcast use vstd::seq_lib::group_to_multiset_ensures;

    let a = builder_languages(crew.builders, listing);
    let b = candidate_languages(selection::found_by(crew.adapters, project, None));
    let all = a + b;
    let key = |l: Language| language_key(l);
    let sorted = ordering::stable_sort(all, key);
    let d = ordering::dedup_by(sorted, key);
    ordering::stable_sort_sorts(all, key);
    ordering::dedup_keeps_each_key_once(sorted, key);
    assert forall|i: int, j: int| 0 <= i < d.len() && 0 <= j < d.len() && i != j implies d[i]
        != d[j] by {
        if i < j {
            assert(key(d[i]) != key(d[j]));
        } else {
            assert(key(d[j]) != key(d[i]));
        }
    }
    assert forall|l: Language| #[trigger] d.contains(l) <==> (a.contains(l) || b.contains(l)) by {
        assert(sorted.to_multiset().contains(l) == all.to_multiset().contains(l));
        if d.contains(l) {
            let i = choose|i: int| 0 <= i < d.len() && d[i] == l;
            assert(sorted.contains(d[i]));
            assert(all.contains(l));
            let k = choose|k: int| 0 <= k < all.len() && all[k] == l;
            if k < a.len() {
                assert(a[k] == l);
            } else {
                assert(b[k - a.len()] == l);
            }
        }
        if a.contains(l) || b.contains(l) {
            assert(all.contains(l)) by {
                if a.contains(l) {
                    let k = choose|k: int| 0 <= k < a.len() && a[k] == l;
                    assert(all[k] == l);
                } else {
                    let k = choose|k: int| 0 <= k < b.len() && b[k] == l;
                    assert(all[a.len() + k] == l);
                }
            }
            assert(sorted.contains(l));
            let i = choose|i: int| 0 <= i < sorted.len() && sorted[i] == l;
            let j = choose|j: int| 0 <= j < d.len() && key(#[trigger] d[j]) == key(sorted[i]);
            ordering::text_key_injective(
                language::language_text(d[j]),
                language::language_text(l),
            );
            language::language_names_differ(d[j], l);
            assert(d[j] == l);
        }
    }
}

/// Whether a builder takes a project and builds the wanted language.
pub open spec fn is_plausible<B: LanguageBuilder>(
    builder: B,
    listing: Seq<(Seq<char>, EntryKind)>,
    wanted: Option<Language>,
) -> bool {
    selection::language_fits(wanted, builder.builds()) && builder.takes(listing) == Detection::Yes
}

/// The builders that take a project and build the wanted language.
pub open spec fn takers<B: LanguageBuilder>(
    builders: Seq<B>,
    listing: Seq<(Seq<char>, EntryKind)>,
    wanted: Option<Language>,
) -> Seq<B>
    decreases builders.len(),
{
    if builders.len() == 0 {
        Seq::empty()
    } else {
        let rest = takers(builders.drop_last(), listing, wanted);
        if is_plausible(builders.last(), listing, wanted) {
            rest.push(builders.last())
        } else {
            rest
        }
    }
}

/// The outcome of choosing a builder: the only one that takes the project.
pub open spec fn chosen_builder<B: LanguageBuilder>(
    builders: Seq<B>,
    project_dir: Seq<char>,
    listing: Seq<(Seq<char>, EntryKind)>,
    wanted: Option<Language>,
) -> Result<B, ErrorView> {
    let found = takers(builders, listing, wanted);
    if found.len() == 1 {
        Ok(found[0])
    } else if found.len() == 0 {
        Err(error::error(ErrorKind::Selection, "no PitCrew builder detected for "@ + project_dir))
    } else {
        Err(
            error::error(
                ErrorKind::Selection,
                "multiple PitCrew languages detected for "@ + project_dir + "; select --language"@,
            ),
        )
    }
}

/// Whether the builder at `i` is the only plausible one.
pub open spec fn is_only_plausible<B: LanguageBuilder>(
    builders: Seq<B>,
    listing: Seq<(Seq<char>, EntryKind)>,
    wanted: Option<Language>,
    i: int,
) -> bool {
    &&& 0 <= i < builders.len()
    &&& is_plausible(builders[i], listing, wanted)
    &&& forall|j: int|
        0 <= j < builders.len() && j != i ==> !is_plausible(
            #[trigger] builders[j],
            listing,
            wanted,
        )
}

/// One builder is found exactly if one is the only plausible one, and none is
/// found exactly if none is plausible.
proof fn lemma_takers<B: LanguageBuilder>(
    builders: Seq<B>,
    listing: Seq<(Seq<char>, EntryKind)>,
    wanted: Option<Language>,
) -> (i: int)
    ensures
        takers(builders, listing, wanted).len() == 0 <==> forall|j: int|
            0 <= j < builders.len() ==> !is_plausible(#[trigger] builders[j], listing, wanted),
        takers(builders, listing, wanted).len() == 1 ==> is_only_plausible(
            builders,
            listing,
            wanted,
            i,
        ) && builders[i] == takers(builders, listing, wanted)[0],
        takers(builders, listing, wanted).len() > 1 ==> forall|j: int| !#[trigger]
            is_only_plausible(builders, listing, wanted, j),
    decreases builders.len(),
{
    if builders.len() == 0 {
        0
    } else {
        let n = builders.len() - 1;
        let rest = builders.drop_last();
        let before = takers(rest, listing, wanted);
        let found = takers(builders, listing, wanted);
        let k = lemma_takers(rest, listing, wanted);
        assert forall|j: int| 0 <= j < n implies rest[j] == #[trigger] builders[j] by {}
        let here = is_plausible(builders[n], listing, wanted);
        let i = if here {
            n
        } else {
            k
        };
        if found.len() == 0 {
            assert forall|j: int| 0 <= j < builders.len() implies !is_plausible(
                #[trigger] builders[j],
                listing,
                wanted,
            ) by {
                if j < n {
                    assert(rest[j] == builders[j]);
                }
            }
        }
        if !here && before.len() == 1 {
            assert(builders[k] == rest[k]);
            assert forall|j: int| 0 <= j < builders.len() && j != k implies !is_plausible(
                #[trigger] builders[j],
                listing,
                wanted,
            ) by {
                if j < n {
                    assert(rest[j] == builders[j]);
                }
            }
        }
        if here && before.len() == 0 {
            assert forall|j: int| 0 <= j < builders.len() && j != n implies !is_plausible(
                #[trigger] builders[j],
                listing,
                wanted,
            ) by {
                assert(rest[j] == builders[j]);
            }
        }
        if found.len() > 1 {
            assert forall|j: int| !#[trigger] is_only_plausible(builders, listing, wanted, j) by {
                if is_only_plausible(builders, listing, wanted, j) {
                    if here {
                        assert(j == n);
                        assert forall|l: int| 0 <= l < rest.len() implies !is_plausible(
                            #[trigger] rest[l],
                            listing,
                            wanted,
                        ) by {
                            assert(rest[l] == builders[l]);
                        }
                        assert(false);
                    } else {
                        assert(j < n);
                        assert forall|l: int| 0 <= l < rest.len() && l != j implies !is_plausible(
                            #[trigger] rest[l],
                            listing,
                            wanted,
                        ) by {
                            assert(rest[l] == builders[l]);
                        }
                        assert(rest[j] == builders[j]);
                        assert(is_only_plausible(rest, listing, wanted, j));
                        assert(false);
                    }
                }
            }
        }
        if found.len() != 0 {
            if here {
                assert(is_plausible(builders[n], listing, wanted));
            } else {
                let j = choose|j: int|
                    0 <= j < rest.len() && is_plausible(#[trigger] rest[j], listing, wanted);
                assert(rest[j] == builders[j]);
            }
        }
        i
    }
}

/// A builder is chosen exactly if it is the only plausible one: a project with
/// several plausible builders is refused, and so is one with none.
pub proof fn ambiguous_projects_are_refused<B: LanguageBuilder>(
    builders: Seq<B>,
    project_dir: Seq<char>,
    listing: Seq<(Seq<char>, EntryKind)>,
    wanted: Option<Language>,
)
    ensures
        match chosen_builder(builders, project_dir, listing, wanted) {
            Ok(b) => exists|i: int|
                #[trigger] is_only_plausible(builders, listing, wanted, i) && builders[i] == b,
            Err(_) => forall|i: int| !#[trigger] is_only_plausible(builders, listing, wanted, i),
        },
{
    let i = lemma_takers(builders, listing, wanted);
    if takers(builders, listing, wanted).len() == 1 {
        assert(is_only_plausible(builders, listing, wanted, i));
    }
}

/// The outcome of inspecting the compatibility of a project's application.
pub open spec fn compatibility_outcome<A: ApplicationAdapter>(
    adapters: Seq<A>,
    project: ProjectView,
    r: RequestView,
    directory: Option<AdapterDirectoryView>,
) -> Result<Option<ReportView>, ErrorView> {
    match selection::chosen_candidate(
        r.application_interface,
        selection::found_by(adapters, project, r.language),
    ) {
        Err(e) => Err(e),
        Ok(candidate) => match selection::selected(adapters, r, candidate, directory) {
            Err(e) => Err(e),
            Ok(None) => Ok(None),
            Ok(Some(s)) => match s.inspected(project, selection::inspected_model(r, candidate, s)) {
                Err(e) => Err(e),
                Ok(report) => Ok(Some(report)),
            },
        },
    }
}

/// The model of what inspecting compatibility gives.
pub open spec fn reports_view(r: Result<Option<CompatibilityReport>, PitError>) -> Result<
    Option<ReportView>,
    ErrorView,
> {
    match r {
        Ok(Some(report)) => Ok(Some(report@)),
        Ok(None) => Ok(None),
        Err(e) => Err(e@),
    }
}

impl<B: LanguageBuilder, A: ApplicationAdapter> PitCrew<B, A> {
    /// A crew with these builders and no adapter.
    pub fn new(adapters: Vec<B>) -> (r: Self)
        ensures
            r@ == (CrewView { builders: adapters@, adapters: Seq::<A>::empty() }),
    {
        PitCrew { adapters, application_adapters: Vec::new() }
    }

    /// A crew with this builder and no adapter.
    pub fn with_adapter(adapter: B) -> (r: Self)
        ensures
            r@ == (CrewView { builders: seq![adapter], adapters: Seq::<A>::empty() }),
    {
        let mut adapters: Vec<B> = Vec::new();
        adapters.push(adapter);
        assert(adapters@ =~= seq![adapter]);
        PitCrew { adapters, application_adapters: Vec::new() }
    }

    /// The crew with one more adapter.
    pub fn with_application_adapter(self, adapter: A) -> (r: Self)
        ensures
            r@ == (CrewView { adapters: self@.adapters.push(adapter), ..self@ }),
    {
        let mut application_adapters = self.application_adapters;
        application_adapters.push(adapter);
        PitCrew { adapters: self.adapters, application_adapters }
    }

    /// The builders.
    pub fn builders(&self) -> (r: &Vec<B>)
        ensures
            r@ == self@.builders,
    {
        &self.adapters
    }

    /// The application adapters.
    pub fn application_adapters(&self) -> (r: &Vec<A>)
        ensures
            r@ == self@.adapters,
    {
        &self.application_adapters
    }

    /// The applications that are found in a project.
    pub fn inspect(&self, project: &ProjectInspection) -> (r: Vec<DetectionCandidate>)
        ensures
            project::candidates_view(r@) == selection::found_by(self@.adapters, project@, None),
    {
        find_applications(&self.application_adapters, project, None)
    }

    /// The languages that are found in a project, in the order of their names.
    pub fn detect_languages(&self, listing: &DirectoryListing, project: &ProjectInspection) -> (r:
        Vec<Language>)
        ensures
            r@ == detected_languages(self@, listing@, project@),
    {
        let ghost all = self.adapters@;
        let mut languages: Vec<Language> = Vec::new();
        assert(all.take(0) =~= Seq::<B>::empty());
        let mut i: usize = 0;
        while i < self.adapters.len()
            invariant
                i <= self.adapters@.len(),
                all == self.adapters@,
                languages@ == builder_languages(all.take(i as int), listing@),
            decreases self.adapters@.len() - i,
        {
            assert(all.take(i + 1).drop_last() =~= all.take(i as int));
            assert(all.take(i + 1).last() == all[i as int]);
            if self.adapters[i].detect(listing) == Detection::Yes {
                languages.push(self.adapters[i].language());
            }
            i = i + 1;
        }
        assert(all.take(i as int) =~= all);
        let ghost built = languages@;
        let found = self.inspect(project);
        let ghost named = candidate_languages(project::candidates_view(found@));
        assert(built + named.take(0) =~= built);
        let mut i: usize = 0;
        while i < found.len()
            invariant
                i <= found@.len(),
                named == candidate_languages(project::candidates_view(found@)),
                languages@ == built + named.take(i as int),
            decreases found@.len() - i,
        {
            assert(named[i as int] == found@[i as int].language);
            languages.push(found[i].language);
            assert(built + named.take(i + 1) =~= (built + named.take(i as int)).push(
                named[i as int],
            ));
            i = i + 1;
        }
        assert(named.take(i as int) =~= named);
        order_languages(languages)
    }

    /// Inspects the compatibility of the application that a request is about.
    /// `directory` is what is known of the directory at the place of the request's
    /// adapter, if there is one.
    pub fn compatibility(
        &self,
        project: &ProjectInspection,
        request: &BuildRequest,
        directory: &Option<AdapterDirectory>,
    ) -> (r: Result<Option<CompatibilityReport>, PitError>)
        ensures
            reports_view(r) == compatibility_outcome(
                self@.adapters,
                project@,
                request@,
                selection::directory_view(*directory),
            ),
    {
        let found = find_applications(&self.application_adapters, project, request.language);
        let candidate = match choose_candidate(request, &found) {
            Ok(c) => c,
            Err(e) => {
                return Err(e);
            },
        };
        match select_application_adapter(
            &self.application_adapters,
            request,
            &candidate,
            directory,
        ) {
            Err(e) => Err(e),
            Ok(None) => Ok(None),
            Ok(Some(s)) => {
                let model = model_to_inspect(request, candidate, &s);
                match s.inspect_compatibility(project, &model) {
                    Ok(report) => Ok(Some(report)),
                    Err(e) => Err(e),
                }
            },
        }
    }

    /// Chooses the builder of a project.
    pub fn choose_builder(
        &self,
        project_dir: &str,
        listing: &DirectoryListing,
        wanted: Option<Language>,
    ) -> (r: Result<&B, PitError>)
        ensures
            match r {
                Ok(b) => chosen_builder(self@.builders, project_dir@, listing@, wanted) == Ok::<
                    B,
                    ErrorView,
                >(*b),
                Err(e) => chosen_builder(self@.builders, project_dir@, listing@, wanted) == Err::<
                    B,
                    ErrorView,
                >(e@),
            },
    {
        let ghost all = self.adapters@;
        let mut count: usize = 0;
        let mut first: Option<&B> = None;
        assert(all.take(0) =~= Seq::<B>::empty());
        let mut i: usize = 0;
        while i < self.adapters.len()
            invariant
                i <= self.adapters@.len(),
                all == self.adapters@,
                count <= i,
                takers(all.take(i as int), listing@, wanted).len() == count,
                first is Some <==> count > 0,
                first matches Some(b) ==> *b == takers(all.take(i as int), listing@, wanted)[0],
            decreases self.adapters@.len() - i,
        {
            let b = &self.adapters[i];
            assert(all.take(i + 1).drop_last() =~= all.take(i as int));
            assert(all.take(i + 1).last() == *b);
            if fits_language(wanted, b.language()) && b.detect(listing) == Detection::Yes {
                if count == 0 {
                    first = Some(b);
                }
                count = count + 1;
            }
            i = i + 1;
        }
        assert(all.take(i as int) =~= all);
        if count > 1 {
            return Err(
                PitError::naming(
                    ErrorKind::Selection,
                    "multiple PitCrew languages detected for ",
                    project_dir,
                    "; select --language",
                ),
            );
        }
        match first {
            Some(b) => Ok(b),
            None => Err(
                error::naming_path(
                    ErrorKind::Selection,
                    "no PitCrew builder detected for ",
                    project_dir,
                ),
            ),
        }
    }
}

impl<B: LanguageBuilder> PitCrew<B, StandardAdapter> {
    /// A crew with these builders and the adapters that come with the library.
    pub fn with_default_adapters(adapters: Vec<B>) -> (r: Self)
        ensures
            r@.builders == adapters@,
            r@.adapters.len() == 4,
            r@.adapters[0] is PythonAsgi,
            r@.adapters[1] is JavaScriptFetch,
            r@.adapters[1].takes_language() == Language::JavaScript,
            r@.adapters[2] is JavaScriptFetch,
            r@.adapters[2].takes_language() == Language::TypeScript,
            r@.adapters[3] is GoNetHttp,
            forall|i: int| #![trigger r@.adapters[i]]
                0 <= i < 4 ==> r@.adapters[i].id_text() == seq![
                    "python/asgi"@,
                    "javascript/fetch"@,
                    "javascript/fetch"@,
                    "go/net-http"@,
                ][i] && r@.adapters[i].interface_text() == seq![
                    "asgi"@,
                    "fetch"@,
                    "fetch"@,
                    "net-http"@,
                ][i],
    {
        let mut application_adapters: Vec<StandardAdapter> = Vec::new();
        application_adapters.push(StandardAdapter::PythonAsgi(PythonAsgiAdapter::new()));
        application_adapters.push(
            StandardAdapter::JavaScriptFetch(JavaScriptFetchAdapter::new(Language::JavaScript)),
        );
        application_adapters.push(
            StandardAdapter::JavaScriptFetch(JavaScriptFetchAdapter::new(Language::TypeScript)),
        );
        application_adapters.push(StandardAdapter::GoNetHttp(GoNetHttpAdapter::new()));
        PitCrew { adapters, application_adapters }
    }
}

} // verus!
