//! Whether the packages that a Python project depends on can be loaded by the
//! embedded runtime. Only what package metadata and sources show is reported;
//! confirmed native files and unresolved packages are told apart.

use crate::paths;
use crate::paths::path_has_extension;
use crate::project;
use crate::project::{
    findings_block, CompatibilityCertainty, CompatibilityFinding, CompatibilityReport,
    CompatibilitySeverity, CompatibilityStatus, DetectionEvidence, DistributionView, EvidenceView,
    FindingView, ProjectInspection, ProjectView, PythonDistribution, ReportView,
};
use crate::python_deps;
use crate::python_deps::{normalize_distribution_name, python_direct_dependencies};
use crate::text;
use crate::text::{
    clone_texts, contains, ends_with, join, lines, starts_with, text_eq, to_lower, trim_start,
};
use vstd::prelude::*;

verus! {

/// The package of that normalized name; of several, the last.
pub open spec fn package_named(packages: Seq<DistributionView>, name: Seq<char>) -> Option<
    DistributionView,
>
    decreases packages.len(),
{
    if packages.len() == 0 {
        None
    } else if python_deps::normalized(packages.last().name) == name {
        Some(packages.last())
    } else {
        package_named(packages.drop_last(), name)
    }
}

/// How many packages have a name that is not among `visited`.
pub open spec fn unvisited(packages: Seq<DistributionView>, visited: Seq<Seq<char>>) -> nat
    decreases packages.len(),
{
    if packages.len() == 0 {
        0
    } else {
        unvisited(packages.drop_last(), visited) + if visited.contains(
            python_deps::normalized(packages.last().name),
        ) {
            0nat
        } else {
            1nat
        }
    }
}

/// Visiting a name visits the packages of that name.
pub proof fn lemma_visit(packages: Seq<DistributionView>, visited: Seq<Seq<char>>, name: Seq<char>)
    requires
        !visited.contains(name),
    ensures
        unvisited(packages, visited.push(name)) <= unvisited(packages, visited),
        package_named(packages, name) is Some ==> unvisited(packages, visited.push(name))
            < unvisited(packages, visited),
    decreases packages.len(),
{
    if packages.len() > 0 {
        lemma_visit(packages.drop_last(), visited, name);
        let last = python_deps::normalized(packages.last().name);
        let more = visited.push(name);
        assert(more[visited.len() as int] == name);
        if visited.contains(last) {
            let i = choose|i: int| 0 <= i < visited.len() && visited[i] == last;
            assert(more[i] == last);
        }
    }
}

/// What is reported of a package that is not installed.
pub open spec fn unresolved(name: Seq<char>, path: Seq<Seq<char>>) -> FindingView {
    FindingView {
        category: "dependency-resolution"@,
        severity: CompatibilitySeverity::Warning,
        certainty: CompatibilityCertainty::Unknown,
        package: Some(name),
        dependency_path: path,
        evidence: seq![
            EvidenceView {
                source: "Python project metadata"@,
                detail: "no installed dist-info metadata was visible to PitCrew"@,
            },
        ],
        reason: "dependency '"@ + name + "' could not be inspected locally"@,
        recommendation: "run the build in the same environment used by componentize-py or provide a lock/materialization"@,
        blocks_build: false,
    }
}

/// The wheel tags of a package, or `unknown`.
pub open spec fn tags_text(d: DistributionView) -> Seq<char> {
    if d.wheel_tags.len() == 0 {
        "unknown"@
    } else {
        text::joined(d.wheel_tags, ", "@)
    }
}

/// What speaks for a native extension in a package.
pub open spec fn native_evidence(d: DistributionView, native: Seq<char>) -> Seq<EvidenceView> {
    let found = EvidenceView {
        source: native,
        detail: d.name + " contains a native extension; wheel tags: "@ + tags_text(d),
    };
    if text::lower(d.name) == "pydantic_core"@ {
        seq![
            found,
            EvidenceView {
                source: "pydantic_core package metadata"@,
                detail: "maturin wheel targets CPython/Linux rather than the embedded WASI Python runtime"@,
            },
        ]
    } else {
        seq![found]
    }
}

/// What is reported of a package with a native extension.
pub open spec fn native_finding(
    d: DistributionView,
    native: Seq<char>,
    path: Seq<Seq<char>>,
) -> FindingView {
    FindingView {
        category: "native-extension"@,
        severity: CompatibilitySeverity::Error,
        certainty: CompatibilityCertainty::Confirmed,
        package: Some(d.name),
        dependency_path: path,
        evidence: native_evidence(d, native),
        reason: d.name
            + " loads a CPython/native shared object that the current componentize-py WASI runtime cannot load"@,
        recommendation: "use a pure-Python dependency or a wheel/source build explicitly targeting the current WASI Python toolchain"@,
        blocks_build: true,
    }
}

/// Whether a package was installed from a wheel for some platform only: the
/// wheel has tags, and none of them is for any platform.
pub open spec fn is_platform_wheel(d: DistributionView) -> bool {
    d.wheel_tags.len() > 0 && forall|i: int|
        0 <= i < d.wheel_tags.len() ==> !"-any"@.is_suffix_of(#[trigger] d.wheel_tags[i])
}

/// What is reported of a package from a wheel for some platform, in which no
/// native extension was found.
pub open spec fn platform_finding(d: DistributionView, path: Seq<Seq<char>>) -> FindingView {
    FindingView {
        category: "platform-wheel"@,
        severity: CompatibilitySeverity::Warning,
        certainty: CompatibilityCertainty::Unknown,
        package: Some(d.name),
        dependency_path: path,
        evidence: seq![
            EvidenceView {
                source: "Python wheel metadata"@,
                detail: d.name + " wheel tags: "@ + tags_text(d),
            },
        ],
        reason: d.name + " was installed from a wheel for a specific platform"@,
        recommendation: "use a wheel for any platform or check that the build resolves the package"@,
        blocks_build: false,
    }
}

/// What is reported of an installed package.
pub open spec fn package_findings(d: DistributionView, path: Seq<Seq<char>>) -> Seq<FindingView> {
    match d.native {
        Some(native) => seq![native_finding(d, native, path)],
        None => if is_platform_wheel(d) {
            seq![platform_finding(d, path)]
        } else {
            Seq::empty()
        },
    }
}

/// A dependency to look at, and the names that led to it.
pub struct Need {
    pub name: Seq<char>,
    pub path: Seq<Seq<char>>,
}

/// What a package of the given path needs in turn.
pub open spec fn needs_of(required: Seq<Seq<char>>, path: Seq<Seq<char>>) -> Seq<Need> {
    required.map_values(
        |r: Seq<char>| Need { name: python_deps::normalized(r), path: path.push(r) },
    )
}

/// What a project needs itself.
pub open spec fn first_needs(direct: Seq<Seq<char>>) -> Seq<Need> {
    direct.map_values(|d: Seq<char>| Need { name: python_deps::normalized(d), path: seq![d] })
}

/// What is reported of everything that `queue` leads to, nearest first, each
/// name once. `visited` holds the names that were looked at before.
pub open spec fn survey(
    packages: Seq<DistributionView>,
    queue: Seq<Need>,
    visited: Seq<Seq<char>>,
) -> Seq<FindingView>
    decreases unvisited(packages, visited), queue.len(),
{
    if queue.len() == 0 {
        Seq::empty()
    } else {
        let need = queue[0];
        let rest = queue.drop_first();
        proof {
            if !visited.contains(need.name) {
                lemma_visit(packages, visited, need.name);
            }
        }
        if visited.contains(need.name) {
            survey(packages, rest, visited)
        } else {
            match package_named(packages, need.name) {
                None => seq![unresolved(need.name, need.path)] + survey(
                    packages,
                    rest,
                    visited.push(need.name),
                ),
                Some(d) => package_findings(d, need.path) + survey(
                    packages,
                    rest + needs_of(d.required, need.path),
                    visited.push(need.name),
                ),
            }
        }
    }
}

/// Whether a line of Python imports something with `token` in its line.
pub open spec fn imports(line: Seq<char>, token: Seq<char>) -> bool {
    ("import "@.is_prefix_of(text::trimmed_start(line)) || "from "@.is_prefix_of(
        text::trimmed_start(line),
    )) && text::has_text(line, token)
}

/// Whether a text has a line that imports `token`.
pub open spec fn text_imports(source: Seq<char>, token: Seq<char>) -> bool {
    exists|i: int|
        0 <= i < text::lines_of(source).len() && imports(
            #[trigger] text::lines_of(source)[i],
            token,
        )
}

/// Whether a Python file of the project imports `token`.
pub open spec fn project_imports(p: ProjectView, token: Seq<char>) -> bool {
    exists|i: int|
        0 <= i < p.files.len() && paths::path_extension(#[trigger] p.files[i]) == Some("py"@)
            && match project::source_text(p, p.files[i]) {
            Some(source) => text_imports(source, token),
            None => false,
        }
}

/// What is reported of an import that hints at a missing capability.
pub open spec fn import_finding(
    category: Seq<char>,
    token: Seq<char>,
    recommendation: Seq<char>,
) -> FindingView {
    FindingView {
        category,
        severity: CompatibilitySeverity::Warning,
        certainty: CompatibilityCertainty::Potential,
        package: None,
        dependency_path: Seq::empty(),
        evidence: seq![
            EvidenceView {
                source: "Python source inspection"@,
                detail: "found '"@ + token + "' in project source"@,
            },
        ],
        reason: "project may rely on "@ + token
            + " capabilities outside the default guest contract"@,
        recommendation,
        blocks_build: false,
    }
}

/// What is reported of an import, if the project has it.
pub open spec fn import_findings(
    p: ProjectView,
    category: Seq<char>,
    token: Seq<char>,
    recommendation: Seq<char>,
) -> Seq<FindingView> {
    if project_imports(p, token) {
        seq![import_finding(category, token, recommendation)]
    } else {
        Seq::empty()
    }
}

/// What is reported of imports that reach out of the guest.
pub open spec fn outward_findings(p: ProjectView) -> Seq<FindingView> {
    import_findings(
        p,
        "subprocess"@,
        "subprocess"@,
        "replace host process execution with a guest-native API; host exec is unavailable"@,
    ) + import_findings(
        p,
        "raw-socket"@,
        "socket"@,
        "use WASI HTTP or an explicitly configured resource capability"@,
    ) + import_findings(
        p,
        "dynamic-loading"@,
        "ctypes"@,
        "verify that the dependency does not require host shared libraries"@,
    ) + import_findings(
        p,
        "dynamic-loading"@,
        "cffi"@,
        "verify that the dependency does not require host shared libraries"@,
    )
}

/// What is reported of imports that rely on what a host offers.
pub open spec fn host_findings(p: ProjectView) -> Seq<FindingView> {
    import_findings(
        p,
        "thread"@,
        "threading"@,
        "verify that the application does not rely on host threads"@,
    ) + import_findings(
        p,
        "filesystem"@,
        "pathlib"@,
        "verify that the files are available to the guest"@,
    ) + import_findings(
        p,
        "filesystem"@,
        "shutil"@,
        "verify that the files are available to the guest"@,
    ) + import_findings(
        p,
        "filesystem"@,
        "tempfile"@,
        "verify that the files are available to the guest"@,
    )
}

/// What is reported of a project's imports.
pub open spec fn source_findings(p: ProjectView) -> Seq<FindingView> {
    outward_findings(p) + host_findings(p)
}

/// What is reported of a project's dependencies and sources.
pub open spec fn python_findings(p: ProjectView) -> Seq<FindingView> {
    survey(p.packages, first_needs(python_deps::direct_dependencies(p)), Seq::empty())
        + source_findings(p)
}

/// Whether a finding is not confirmed.
pub open spec fn any_uncertain(findings: Seq<FindingView>) -> bool {
    exists|i: int|
        0 <= i < findings.len() && (#[trigger] findings[i]).certainty
            != CompatibilityCertainty::Confirmed
}

/// The report on a project's dependencies and sources.
pub open spec fn python_report(p: ProjectView) -> ReportView {
    let findings = python_findings(p);
    let first = if python_deps::direct_dependencies(p).len() == 0 {
        seq!["no declared Python dependencies to inspect"@]
    } else {
        Seq::empty()
    };
    if project::any_blocks(findings) {
        ReportView {
            status: CompatibilityStatus::Unsupported,
            messages: first.push(
                "one or more dependencies are confirmed incompatible with the current WASI Python target"@,
            ),
            findings,
        }
    } else if any_uncertain(findings) {
        ReportView {
            status: CompatibilityStatus::PotentiallyUnsupported,
            messages: first.push(
                "dependency compatibility has potential or unresolved findings"@,
            ),
            findings,
        }
    } else {
        ReportView {
            status: CompatibilityStatus::Supported,
            messages: first.push(
                "declared Python dependencies have no confirmed native incompatibility"@,
            ),
            findings,
        }
    }
}

/// A dependency to look at.
struct PendingNeed {
    name: String,
    path: Vec<String>,
}

impl View for PendingNeed {
    type V = Need;

    closed spec fn view(&self) -> Need {
        Need { name: self.name@, path: text::texts(self.path@) }
    }
}

/// The models of needs.
spec fn needs_view(v: Seq<PendingNeed>) -> Seq<Need> {
    v.map_values(|n: PendingNeed| n@)
}

/// The place of the package of that normalized name. `names` holds the
/// normalized names of the packages.
fn find_package(
    packages: &Vec<PythonDistribution>,
    names: &Vec<String>,
    name: &str,
) -> (r: Option<usize>)
    requires
        names@.len() == packages@.len(),
        forall|i: int|
            0 <= i < names@.len() ==> (#[trigger] names@[i])@ == python_deps::normalized(
                packages@[i].name@,
            ),
    ensures
        match r {
            Some(i) => i < packages@.len() && package_named(
                project::packages_view(packages@),
                name@,
            ) == Some(packages@[i as int]@),
            None => package_named(project::packages_view(packages@), name@) is None,
        },
{
    let ghost all = project::packages_view(packages@);
    let mut i: usize = packages.len();
    assert(all.take(all.len() as int) =~= all);
    while i > 0
        invariant
            i <= packages@.len(),
            names@.len() == packages@.len(),
            forall|i: int|
                0 <= i < names@.len() ==> (#[trigger] names@[i])@ == python_deps::normalized(
                    packages@[i].name@,
                ),
            all == project::packages_view(packages@),
            package_named(all, name@) == package_named(all.take(i as int), name@),
        decreases i,
    {
        i = i - 1;
        assert(all.take(i + 1).drop_last() =~= all.take(i as int));
        assert(all.take(i + 1).last() == packages@[i as int]@);
        assert(names@[i as int]@ == python_deps::normalized(packages@[i as int].name@));
        if text_eq(names[i].as_str(), name) {
            return Some(i);
        }
    }
    None
}

/// Whether a list of texts holds the text.
fn has_name(list: &Vec<String>, name: &str) -> (r: bool)
    ensures
        r == text::texts(list@).contains(name@),
{
    let ghost all = text::texts(list@);
    let mut i: usize = 0;
    while i < list.len()
        invariant
            i <= list@.len(),
            all == text::texts(list@),
            forall|j: int| 0 <= j < i ==> all[j] != name@,
        decreases list@.len() - i,
    {
        assert(all[i as int] == list@[i as int]@);
        if text_eq(list[i].as_str(), name) {
            return true;
        }
        i = i + 1;
    }
    false
}

/// One piece of evidence as a list.
fn one_evidence(e: DetectionEvidence) -> (r: Vec<DetectionEvidence>)
    ensures
        r@ == seq![e],
        project::evidence_view(r@) == seq![e@],
{
    let mut v: Vec<DetectionEvidence> = Vec::new();
    v.push(e);
    assert(project::evidence_view(v@) =~= seq![e@]);
    v
}

/// What is reported of a package that is not installed.
fn report_unresolved(name: &str, path: Vec<String>) -> (r: CompatibilityFinding)
    ensures
        r@ == unresolved(name@, text::texts(path@)),
{
    let mut reason = "dependency '".to_owned();
    reason.append(name);
    reason.append("' could not be inspected locally");
    CompatibilityFinding {
        category: "dependency-resolution".to_owned(),
        severity: CompatibilitySeverity::Warning,
        certainty: CompatibilityCertainty::Unknown,
        package: Some(name.to_owned()),
        dependency_path: path,
        evidence: one_evidence(
            DetectionEvidence::new(
                "Python project metadata",
                "no installed dist-info metadata was visible to PitCrew",
            ),
        ),
        reason,
        recommendation: "run the build in the same environment used by componentize-py or provide a lock/materialization".to_owned(),
        blocks_build: false,
    }
}

/// What is reported of a package with a native extension.
fn report_native(d: &PythonDistribution, native: &str, path: Vec<String>) -> (r: CompatibilityFinding)
    ensures
        r@ == native_finding(d@, native@, text::texts(path@)),
{
    let mut detail = d.name.clone();
    detail.append(" contains a native extension; wheel tags: ");
    detail.append(list_tags(d).as_str());
    let mut evidence = one_evidence(DetectionEvidence::new(native, detail.as_str()));
    if text_eq(to_lower(d.name.as_str()).as_str(), "pydantic_core") {
        evidence.push(
            DetectionEvidence::new(
                "pydantic_core package metadata",
                "maturin wheel targets CPython/Linux rather than the embedded WASI Python runtime",
            ),
        );
    }
    assert(project::evidence_view(evidence@) =~= native_evidence(d@, native@));
    let mut reason = d.name.clone();
    reason.append(
        " loads a CPython/native shared object that the current componentize-py WASI runtime cannot load",
    );
    CompatibilityFinding {
        category: "native-extension".to_owned(),
        severity: CompatibilitySeverity::Error,
        certainty: CompatibilityCertainty::Confirmed,
        package: Some(d.name.clone()),
        dependency_path: path,
        evidence,
        reason,
        recommendation: "use a pure-Python dependency or a wheel/source build explicitly targeting the current WASI Python toolchain".to_owned(),
        blocks_build: true,
    }
}

/// Whether a package was installed from a wheel for some platform only.
fn has_platform_wheel(d: &PythonDistribution) -> (r: bool)
    ensures
        r == is_platform_wheel(d@),
{
    let ghost all = d@.wheel_tags;
    assert(all.len() == d.wheel_tags@.len());
    let mut i: usize = 0;
    while i < d.wheel_tags.len()
        invariant
            i <= d.wheel_tags@.len(),
            all == text::texts(d.wheel_tags@),
            forall|j: int| 0 <= j < i ==> !"-any"@.is_suffix_of(#[trigger] all[j]),
        decreases d.wheel_tags@.len() - i,
    {
        assert(all[i as int] == d.wheel_tags@[i as int]@);
        if ends_with(d.wheel_tags[i].as_str(), "-any") {
            return false;
        }
        i = i + 1;
    }
    d.wheel_tags.len() > 0
}

/// The wheel tags of a package, or `unknown`.
fn list_tags(d: &PythonDistribution) -> (r: String)
    ensures
        r@ == tags_text(d@),
{
    assert(d@.wheel_tags.len() == d.wheel_tags@.len());
    if d.wheel_tags.len() == 0 {
        "unknown".to_owned()
    } else {
        join(&d.wheel_tags, ", ")
    }
}

/// What is reported of a package from a wheel for some platform.
fn report_platform(d: &PythonDistribution, path: Vec<String>) -> (r: CompatibilityFinding)
    ensures
        r@ == platform_finding(d@, text::texts(path@)),
{
    let mut detail = d.name.clone();
    detail.append(" wheel tags: ");
    detail.append(list_tags(d).as_str());
    let mut reason = d.name.clone();
    reason.append(" was installed from a wheel for a specific platform");
    CompatibilityFinding {
        category: "platform-wheel".to_owned(),
        severity: CompatibilitySeverity::Warning,
        certainty: CompatibilityCertainty::Unknown,
        package: Some(d.name.clone()),
        dependency_path: path,
        evidence: one_evidence(DetectionEvidence::new("Python wheel metadata", detail.as_str())),
        reason,
        recommendation: "use a wheel for any platform or check that the build resolves the package".to_owned(),
        blocks_build: false,
    }
}

/// Appends what a package needs in turn.
fn add_needs(queue: &mut Vec<PendingNeed>, required: &Vec<String>, path: &Vec<String>)
    ensures
        needs_view(final(queue)@) == needs_view(old(queue)@) + needs_of(
            text::texts(required@),
            text::texts(path@),
        ),
{
    let ghost start = needs_view(queue@);
    let ghost all = needs_of(text::texts(required@), text::texts(path@));
    assert(start + all.take(0) =~= start);
    let mut i: usize = 0;
    while i < required.len()
        invariant
            i <= required@.len(),
            all == needs_of(text::texts(required@), text::texts(path@)),
            needs_view(queue@) == start + all.take(i as int),
        decreases required@.len() - i,
    {
        let mut longer = clone_texts(path);
        longer.push(required[i].clone());
        assert(text::texts(longer@) =~= text::texts(path@).push(required@[i as int]@));
        let need = PendingNeed {
            name: normalize_distribution_name(required[i].as_str()),
            path: longer,
        };
        let ghost before = needs_view(queue@);
        queue.push(need);
        assert(needs_view(queue@) =~= before.push(need@));
        assert(all[i as int] == need@);
        assert(start + all.take(i + 1) =~= (start + all.take(i as int)).push(need@));
        i = i + 1;
    }
    assert(all.take(i as int) =~= all);
}

/// What is reported of everything that the direct dependencies lead to.
fn survey_packages(packages: &Vec<PythonDistribution>, direct: &Vec<String>) -> (r: Vec<
    CompatibilityFinding,
>)
    ensures
        project::findings_view(r@) == survey(
            project::packages_view(packages@),
            first_needs(text::texts(direct@)),
            Seq::empty(),
        ),
{
    let ghost all = project::packages_view(packages@);
    let mut names: Vec<String> = Vec::new();
    let mut i: usize = 0;
    while i < packages.len()
        invariant
            i <= packages@.len(),
            names@.len() == i,
            forall|j: int|
                0 <= j < i ==> (#[trigger] names@[j])@ == python_deps::normalized(
                    packages@[j].name@,
                ),
        decreases packages@.len() - i,
    {
        names.push(normalize_distribution_name(packages[i].name.as_str()));
        i = i + 1;
    }
    let mut queue: Vec<PendingNeed> = Vec::new();
    let ghost first = first_needs(text::texts(direct@));
    assert(needs_view(queue@) =~= first.take(0));
    let mut i: usize = 0;
    while i < direct.len()
        invariant
            i <= direct@.len(),
            first == first_needs(text::texts(direct@)),
            needs_view(queue@) == first.take(i as int),
        decreases direct@.len() - i,
    {
        let mut path: Vec<String> = Vec::new();
        path.push(direct[i].clone());
        assert(text::texts(path@) =~= seq![direct@[i as int]@]);
        let need = PendingNeed { name: normalize_distribution_name(direct[i].as_str()), path };
        queue.push(need);
        assert(first[i as int] == need@);
        assert(needs_view(queue@) =~= first.take(i as int).push(need@));
        assert(first.take(i + 1) =~= first.take(i as int).push(need@));
        i = i + 1;
    }
    assert(first.take(i as int) =~= first);
    let mut findings: Vec<CompatibilityFinding> = Vec::new();
    let mut visited: Vec<String> = Vec::new();
    let mut head: usize = 0;
    assert(needs_view(queue@).skip(0) =~= first);
    assert(text::texts(visited@) =~= Seq::<Seq<char>>::empty());
    assert(project::findings_view(findings@) + survey(all, first, Seq::empty()) =~= survey(
        all,
        first,
        Seq::empty(),
    ));
    while head < queue.len()
        invariant
            head <= queue@.len(),
            all == project::packages_view(packages@),
            names@.len() == packages@.len(),
            forall|i: int|
                0 <= i < names@.len() ==> (#[trigger] names@[i])@ == python_deps::normalized(
                    packages@[i].name@,
                ),
            survey(all, first, Seq::empty()) == project::findings_view(findings@) + survey(
                all,
                needs_view(queue@).skip(head as int),
                text::texts(visited@),
            ),
        decreases unvisited(all, text::texts(visited@)), queue@.len() - head,
    {
        let ghost pending = needs_view(queue@).skip(head as int);
        let ghost seen = text::texts(visited@);
        let ghost before = project::findings_view(findings@);
        let name = queue[head].name.clone();
        let path = clone_texts(&queue[head].path);
        assert(pending[0].name == name@ && pending[0].path == text::texts(path@));
        assert(pending.drop_first() =~= needs_view(queue@).skip(head + 1));
        head = head + 1;
        if !has_name(&visited, name.as_str()) {
            proof {
                lemma_visit(all, seen, name@);
            }
            visited.push(name.clone());
            assert(text::texts(visited@) =~= seen.push(name@));
            match find_package(packages, &names, name.as_str()) {
                None => {
                    let finding = report_unresolved(name.as_str(), path);
                    findings.push(finding);
                    assert(project::findings_view(findings@) =~= before + seq![finding@]);
                    assert(survey(all, pending, seen) == seq![finding@] + survey(
                        all,
                        pending.drop_first(),
                        seen.push(name@),
                    ));
                },
                Some(place) => {
                    let d = &packages[place];
                    assert(package_named(all, name@) == Some(d@));
                    if let Some(native) = &d.native {
                        let finding = report_native(d, native.as_str(), clone_texts(&path));
                        findings.push(finding);
                        assert(project::findings_view(findings@) =~= before + package_findings(
                            d@,
                            text::texts(path@),
                        ));
                    } else if has_platform_wheel(d) {
                        let finding = report_platform(d, clone_texts(&path));
                        findings.push(finding);
                        assert(project::findings_view(findings@) =~= before + package_findings(
                            d@,
                            text::texts(path@),
                        ));
                    } else {
                        assert(before + package_findings(d@, text::texts(path@)) =~= before);
                    }
                    add_needs(&mut queue, &d.required, &path);
                    assert(needs_view(queue@).skip(head as int) =~= pending.drop_first() + needs_of(
                        d@.required,
                        text::texts(path@),
                    ));
                },
            }
            assert(project::findings_view(findings@) + survey(
                all,
                needs_view(queue@).skip(head as int),
                text::texts(visited@),
            ) =~= before + survey(all, pending, seen));
        }
    }
    assert(needs_view(queue@).skip(head as int) =~= Seq::<Need>::empty());
    assert(project::findings_view(findings@) + Seq::<FindingView>::empty()
        =~= project::findings_view(findings@));
    findings
}

/// Whether a Python file of the project imports `token`.
pub fn project_python_source_contains(project: &ProjectInspection, token: &str) -> (r: bool)
    ensures
        r == project_imports(project@, token@),
{
    let ghost p = project@;
    let mut i: usize = 0;
    while i < project.files.len()
        invariant
            i <= project.files@.len(),
            p == project@,
            forall|j: int|
                0 <= j < i ==> !(paths::path_extension(#[trigger] p.files[j]) == Some("py"@)
                    && match project::source_text(p, p.files[j]) {
                    Some(source) => text_imports(source, token@),
                    None => false,
                }),
        decreases project.files@.len() - i,
    {
        assert(p.files[i as int] == project.files@[i as int]@);
        let file = project.files[i].as_str();
        if path_has_extension(file, "py") {
            if let Some(source) = project.source(file) {
                if source_imports(source, token) {
                    assert(paths::path_extension(p.files[i as int]) == Some("py"@));
                    return true;
                }
            }
        }
        i = i + 1;
    }
    false
}

/// Whether a text has a line that imports `token`.
fn source_imports(source: &str, token: &str) -> (r: bool)
    ensures
        r == text_imports(source@, token@),
{
    let all = lines(source);
    let ghost view = text::lines_of(source@);
    let mut i: usize = 0;
    while i < all.len()
        invariant
            i <= all@.len(),
            view == text::texts(all@),
            view == text::lines_of(source@),
            forall|j: int| 0 <= j < i ==> !imports(#[trigger] view[j], token@),
        decreases all@.len() - i,
    {
        assert(view[i as int] == all@[i as int]@);
        let line = all[i].as_str();
        let start = trim_start(line);
        if (starts_with(start.as_str(), "import ") || starts_with(start.as_str(), "from "))
            && contains(line, token) {
            assert(imports(view[i as int], token@));
            return true;
        }
        i = i + 1;
    }
    false
}

/// Appends what is reported of an import, if the project has it.
fn add_import(
    findings: &mut Vec<CompatibilityFinding>,
    project: &ProjectInspection,
    category: &str,
    token: &str,
    recommendation: &str,
)
    ensures
        project::findings_view(final(findings)@) == project::findings_view(old(findings)@)
            + import_findings(project@, category@, token@, recommendation@),
{
    let ghost before = project::findings_view(findings@);
    if project_python_source_contains(project, token) {
        let mut detail = "found '".to_owned();
        detail.append(token);
        detail.append("' in project source");
        let mut reason = "project may rely on ".to_owned();
        reason.append(token);
        reason.append(" capabilities outside the default guest contract");
        let finding = CompatibilityFinding {
            category: category.to_owned(),
            severity: CompatibilitySeverity::Warning,
            certainty: CompatibilityCertainty::Potential,
            package: None,
            dependency_path: Vec::new(),
            evidence: one_evidence(
                DetectionEvidence::new("Python source inspection", detail.as_str()),
            ),
            reason,
            recommendation: recommendation.to_owned(),
            blocks_build: false,
        };
        assert(text::texts(finding.dependency_path@) =~= Seq::<Seq<char>>::empty());
        assert(finding@ == import_finding(category@, token@, recommendation@));
        findings.push(finding);
        assert(project::findings_view(findings@) =~= before + seq![finding@]);
    } else {
        assert(before + Seq::<FindingView>::empty() =~= before);
    }
}

/// Appends what is reported of imports that reach out of the guest.
fn add_outward_imports(findings: &mut Vec<CompatibilityFinding>, project: &ProjectInspection)
    ensures
        project::findings_view(final(findings)@) == project::findings_view(old(findings)@)
            + outward_findings(project@),
{
    let ghost before = project::findings_view(findings@);
    add_import(
        findings,
        project,
        "subprocess",
        "subprocess",
        "replace host process execution with a guest-native API; host exec is unavailable",
    );
    add_import(
        findings,
        project,
        "raw-socket",
        "socket",
        "use WASI HTTP or an explicitly configured resource capability",
    );
    add_import(
        findings,
        project,
        "dynamic-loading",
        "ctypes",
        "verify that the dependency does not require host shared libraries",
    );
    add_import(
        findings,
        project,
        "dynamic-loading",
        "cffi",
        "verify that the dependency does not require host shared libraries",
    );
    assert(project::findings_view(findings@) =~= before + outward_findings(project@));
}

/// Appends what is reported of imports that rely on what a host offers.
fn add_host_imports(findings: &mut Vec<CompatibilityFinding>, project: &ProjectInspection)
    ensures
        project::findings_view(final(findings)@) == project::findings_view(old(findings)@)
            + host_findings(project@),
{
    let ghost before = project::findings_view(findings@);
    add_import(
        findings,
        project,
        "thread",
        "threading",
        "verify that the application does not rely on host threads",
    );
    add_import(
        findings,
        project,
        "filesystem",
        "pathlib",
        "verify that the files are available to the guest",
    );
    add_import(
        findings,
        project,
        "filesystem",
        "shutil",
        "verify that the files are available to the guest",
    );
    add_import(
        findings,
        project,
        "filesystem",
        "tempfile",
        "verify that the files are available to the guest",
    );
    assert(project::findings_view(findings@) =~= before + host_findings(project@));
}

/// Whether a finding is not confirmed.
fn findings_uncertain(findings: &Vec<CompatibilityFinding>) -> (r: bool)
    ensures
        r == any_uncertain(project::findings_view(findings@)),
{
    let ghost all = project::findings_view(findings@);
    let mut i: usize = 0;
    while i < findings.len()
        invariant
            i <= findings@.len(),
            all == project::findings_view(findings@),
            forall|j: int|
                0 <= j < i ==> (#[trigger] all[j]).certainty == CompatibilityCertainty::Confirmed,
        decreases findings@.len() - i,
    {
        assert(all[i as int] == findings@[i as int]@);
        if findings[i].certainty != CompatibilityCertainty::Confirmed {
            return true;
        }
        i = i + 1;
    }
    false
}

/// The report on a project's dependencies and sources.
pub fn inspect_python_dependencies(project: &ProjectInspection) -> (r: CompatibilityReport)
    ensures
        r@ == python_report(project@),
{
    let direct = python_direct_dependencies(project);
    let mut messages: Vec<String> = Vec::new();
    if direct.len() == 0 {
        messages.push("no declared Python dependencies to inspect".to_owned());
    }
    assert(text::texts(direct@).len() == direct@.len());
    let ghost first = text::texts(messages@);
    let mut findings = survey_packages(&project.packages, &direct);
    let ghost found = project::findings_view(findings@);
    add_outward_imports(&mut findings, project);
    add_host_imports(&mut findings, project);
    assert(project::findings_view(findings@) =~= found + source_findings(project@));
    let status = if findings_block(&findings) {
        messages.push(
            "one or more dependencies are confirmed incompatible with the current WASI Python target".to_owned(),
        );
        CompatibilityStatus::Unsupported
    } else if findings_uncertain(&findings) {
        messages.push("dependency compatibility has potential or unresolved findings".to_owned());
        CompatibilityStatus::PotentiallyUnsupported
    } else {
        messages.push(
            "declared Python dependencies have no confirmed native incompatibility".to_owned(),
        );
        CompatibilityStatus::Supported
    };
    assert(text::texts(messages@).drop_last() =~= first);
    let r = CompatibilityReport { status, messages, findings };
    assert(r@ =~= python_report(project@));
    r
}

/// Whether `from` leads to `to` in `steps` steps from a package to what it requires.
pub open spec fn leads(
    packages: Seq<DistributionView>,
    from: Seq<char>,
    to: Seq<char>,
    steps: nat,
) -> bool
    decreases steps,
{
    if steps == 0 {
        from == to
    } else {
        match package_named(packages, from) {
            Some(d) => exists|i: int|
                0 <= i < d.required.len() && leads(
                    packages,
                    python_deps::normalized(#[trigger] d.required[i]),
                    to,
                    (steps - 1) as nat,
                ),
            None => false,
        }
    }
}

/// Whether the package of that normalized name has a native extension.
pub open spec fn is_native(packages: Seq<DistributionView>, name: Seq<char>) -> bool {
    package_named(packages, name) is Some && package_named(packages, name)->0.native is Some
}

/// Whether `queue` leads to `name`.
pub open spec fn queue_leads(
    packages: Seq<DistributionView>,
    queue: Seq<Need>,
    name: Seq<char>,
) -> bool {
    exists|i: int, steps: nat|
        0 <= i < queue.len() && #[trigger] leads(packages, queue[i].name, name, steps)
}

/// Whether what visited packages require was visited or waits in the queue.
spec fn is_closed(packages: Seq<DistributionView>, queue: Seq<Need>, visited: Seq<Seq<char>>) -> bool {
    forall|v: Seq<char>, i: int|
        visited.contains(v) && package_named(packages, v) is Some && 0 <= i < package_named(
            packages,
            v,
        )->0.required.len() ==> child_known(
            queue,
            visited,
            #[trigger] package_child(packages, v, i),
        )
}

/// The normalized name of what a package requires.
spec fn package_child(packages: Seq<DistributionView>, v: Seq<char>, i: int) -> Seq<char> {
    python_deps::normalized(package_named(packages, v)->0.required[i])
}

/// Whether a name was visited or waits in the queue.
spec fn child_known(queue: Seq<Need>, visited: Seq<Seq<char>>, name: Seq<char>) -> bool {
    visited.contains(name) || exists|k: int| 0 <= k < queue.len() && (#[trigger] queue[k]).name == name
}

/// From a visited name, what was not visited is reached through the queue.
proof fn lemma_through_queue(
    packages: Seq<DistributionView>,
    queue: Seq<Need>,
    visited: Seq<Seq<char>>,
    from: Seq<char>,
    to: Seq<char>,
    steps: nat,
)
    requires
        is_closed(packages, queue, visited),
        visited.contains(from),
        !visited.contains(to),
        leads(packages, from, to, steps),
    ensures
        queue_leads(packages, queue, to),
    decreases steps,
{
    let d = package_named(packages, from)->0;
    let i = choose|i: int|
        0 <= i < d.required.len() && leads(
            packages,
            python_deps::normalized(#[trigger] d.required[i]),
            to,
            (steps - 1) as nat,
        );
    let child = package_child(packages, from, i);
    assert(child_known(queue, visited, child));
    if visited.contains(child) {
        lemma_through_queue(packages, queue, visited, child, to, (steps - 1) as nat);
    } else {
        let k = choose|k: int| 0 <= k < queue.len() && (#[trigger] queue[k]).name == child;
        assert(leads(packages, queue[k].name, to, (steps - 1) as nat));
    }
}

/// Whether something native that was not visited is reached from the queue.
spec fn native_ahead(
    packages: Seq<DistributionView>,
    queue: Seq<Need>,
    visited: Seq<Seq<char>>,
) -> bool {
    exists|x: Seq<char>| #[trigger]
        queue_leads(packages, queue, x) && !visited.contains(x) && is_native(packages, x)
}

proof fn lemma_any_blocks_concat(a: Seq<FindingView>, b: Seq<FindingView>)
    ensures
        project::any_blocks(a + b) <==> project::any_blocks(a) || project::any_blocks(b),
{
    let c = a + b;
    if project::any_blocks(a) {
        let i = choose|i: int| 0 <= i < a.len() && (#[trigger] a[i]).blocks_build;
        assert(c[i].blocks_build);
    }
    if project::any_blocks(b) {
        let i = choose|i: int| 0 <= i < b.len() && (#[trigger] b[i]).blocks_build;
        assert(c[a.len() + i].blocks_build);
    }
    if project::any_blocks(c) {
        let i = choose|i: int| 0 <= i < c.len() && (#[trigger] c[i]).blocks_build;
        if i < a.len() {
            assert(a[i].blocks_build);
        } else {
            assert(b[i - a.len()].blocks_build);
        }
    }
}

/// The survey blocks exactly if something native is ahead.
proof fn lemma_survey_blocks(
    packages: Seq<DistributionView>,
    queue: Seq<Need>,
    visited: Seq<Seq<char>>,
)
    requires
        is_closed(packages, queue, visited),
    ensures
        project::any_blocks(survey(packages, queue, visited)) <==> native_ahead(
            packages,
            queue,
            visited,
        ),
    decreases unvisited(packages, visited), queue.len(),
{
    if queue.len() > 0 {
        let need = queue[0];
        let name = need.name;
        let rest = queue.drop_first();
        if visited.contains(name) {
            assert(is_closed(packages, rest, visited)) by {
                assert forall|v: Seq<char>, i: int|
                    visited.contains(v) && package_named(packages, v) is Some && 0 <= i
                        < package_named(packages, v)->0.required.len() implies child_known(
                    rest,
                    visited,
                    #[trigger] package_child(packages, v, i),
                ) by {
                    let c = package_child(packages, v, i);
                    assert(child_known(queue, visited, c));
                    if !visited.contains(c) {
                        let k = choose|k: int|
                            0 <= k < queue.len() && (#[trigger] queue[k]).name == c;
                        assert(rest[k - 1] == queue[k]);
                    }
                }
            }
            lemma_survey_blocks(packages, rest, visited);
            assert forall|x: Seq<char>| !visited.contains(x) implies #[trigger] queue_leads(
                packages,
                queue,
                x,
            ) == queue_leads(packages, rest, x) by {
                lemma_queue_first(packages, queue, x);
                if queue_leads(packages, queue, x) && !queue_leads(packages, rest, x) {
                    let steps = choose|steps: nat| leads(packages, name, x, steps);
                    lemma_through_queue(packages, rest, visited, name, x, steps);
                }
            }
            if native_ahead(packages, queue, visited) {
                let x = choose|x: Seq<char>| #[trigger]
                    queue_leads(packages, queue, x) && !visited.contains(x) && is_native(
                        packages,
                        x,
                    );
                assert(queue_leads(packages, rest, x));
            }
            if native_ahead(packages, rest, visited) {
                let x = choose|x: Seq<char>| #[trigger]
                    queue_leads(packages, rest, x) && !visited.contains(x) && is_native(packages, x);
                assert(queue_leads(packages, queue, x));
            }
        } else {
            lemma_visit(packages, visited, name);
            let more = visited.push(name);
            assert(more[visited.len() as int] == name);
            assert forall|x: Seq<char>| #[trigger] more.contains(x) == (visited.contains(x) || x
                == name) by {
                if visited.contains(x) {
                    let i = choose|i: int| 0 <= i < visited.len() && visited[i] == x;
                    assert(more[i] == x);
                }
            }
            match package_named(packages, name) {
                None => {
                    lemma_still_closed(packages, queue, visited, rest);
                    lemma_survey_blocks(packages, rest, more);
                    let head = seq![unresolved(name, need.path)];
                    lemma_any_blocks_concat(head, survey(packages, rest, more));
                    assert(!project::any_blocks(head));
                    lemma_ahead_moves(packages, queue, visited, rest);
                },
                Some(d) => {
                    let children = needs_of(d.required, need.path);
                    let next = rest + children;
                    lemma_still_closed(packages, queue, visited, next);
                    lemma_survey_blocks(packages, next, more);
                    let head = package_findings(d, need.path);
                    lemma_any_blocks_concat(head, survey(packages, next, more));
                    if d.native is Some {
                        assert(head[0].blocks_build);
                        assert(project::any_blocks(head));
                        assert(leads(packages, queue[0].name, name, 0));
                        assert(queue_leads(packages, queue, name));
                        assert(native_ahead(packages, queue, visited));
                    } else {
                        assert(!project::any_blocks(head));
                        lemma_ahead_moves(packages, queue, visited, next);
                    }
                },
            }
        }
    } else {
        assert(survey(packages, queue, visited) =~= Seq::<FindingView>::empty());
    }
}

/// A queue leads where its first need or its rest leads.
proof fn lemma_queue_first(packages: Seq<DistributionView>, queue: Seq<Need>, x: Seq<char>)
    requires
        queue.len() > 0,
    ensures
        queue_leads(packages, queue, x) <==> (exists|steps: nat|
            leads(packages, queue[0].name, x, steps)) || queue_leads(
            packages,
            queue.drop_first(),
            x,
        ),
{
    let rest = queue.drop_first();
    if queue_leads(packages, queue, x) {
        let (i, steps) = choose|i: int, steps: nat|
            0 <= i < queue.len() && #[trigger] leads(packages, queue[i].name, x, steps);
        if i > 0 {
            assert(leads(packages, rest[i - 1].name, x, steps));
        }
    }
    if exists|steps: nat| leads(packages, queue[0].name, x, steps) {
        let steps = choose|steps: nat| leads(packages, queue[0].name, x, steps);
        assert(leads(packages, queue[0].name, x, steps));
    }
    if queue_leads(packages, rest, x) {
        let (i, steps) = choose|i: int, steps: nat|
            0 <= i < rest.len() && #[trigger] leads(packages, rest[i].name, x, steps);
        assert(leads(packages, queue[i + 1].name, x, steps));
    }
}

/// What the first need, not visited before, leaves in the queue.
spec fn queue_after(packages: Seq<DistributionView>, queue: Seq<Need>, next: Seq<Need>) -> bool {
    match package_named(packages, queue[0].name) {
        None => next == queue.drop_first(),
        Some(d) => next == queue.drop_first() + needs_of(d.required, queue[0].path),
    }
}

proof fn lemma_still_closed(
    packages: Seq<DistributionView>,
    queue: Seq<Need>,
    visited: Seq<Seq<char>>,
    next: Seq<Need>,
)
    requires
        queue.len() > 0,
        is_closed(packages, queue, visited),
        queue_after(packages, queue, next),
    ensures
        is_closed(packages, next, visited.push(queue[0].name)),
{
    let name = queue[0].name;
    let rest = queue.drop_first();
    let more = visited.push(name);
    assert(more[visited.len() as int] == name);
    assert forall|v: Seq<char>, i: int|
        more.contains(v) && package_named(packages, v) is Some && 0 <= i < package_named(
            packages,
            v,
        )->0.required.len() implies child_known(
        next,
        more,
        #[trigger] package_child(packages, v, i),
    ) by {
        let c = package_child(packages, v, i);
        if v == name {
            let d = package_named(packages, name)->0;
            let k = rest.len() + i;
            assert(next[k] == needs_of(d.required, queue[0].path)[i]);
            assert(next[k].name == c);
        } else {
            let j = choose|j: int| 0 <= j < more.len() && more[j] == v;
            assert(visited[j] == v);
            assert(child_known(queue, visited, c));
            if visited.contains(c) {
                let j = choose|j: int| 0 <= j < visited.len() && visited[j] == c;
                assert(more[j] == c);
            } else {
                let k = choose|k: int| 0 <= k < queue.len() && (#[trigger] queue[k]).name == c;
                if k > 0 {
                    assert(next[k - 1] == queue[k]);
                }
            }
        }
    }
}

/// Unless the first need is native itself, what is ahead stays ahead.
proof fn lemma_ahead_moves(
    packages: Seq<DistributionView>,
    queue: Seq<Need>,
    visited: Seq<Seq<char>>,
    next: Seq<Need>,
)
    requires
        queue.len() > 0,
        !visited.contains(queue[0].name),
        !is_native(packages, queue[0].name),
        queue_after(packages, queue, next),
    ensures
        native_ahead(packages, queue, visited) <==> native_ahead(
            packages,
            next,
            visited.push(queue[0].name),
        ),
{
    let name = queue[0].name;
    let rest = queue.drop_first();
    let more = visited.push(name);
    assert(more[visited.len() as int] == name);
    assert forall|x: Seq<char>| #[trigger] more.contains(x) == (visited.contains(x) || x == name) by {
        if visited.contains(x) {
            let i = choose|i: int| 0 <= i < visited.len() && visited[i] == x;
            assert(more[i] == x);
        }
    }
    if native_ahead(packages, queue, visited) {
        let x = choose|x: Seq<char>| #[trigger]
            queue_leads(packages, queue, x) && !visited.contains(x) && is_native(packages, x);
        assert(x != name);
        let (i, steps) = choose|i: int, steps: nat|
            0 <= i < queue.len() && #[trigger] leads(packages, queue[i].name, x, steps);
        if i > 0 {
            assert(next[i - 1] == queue[i]);
            assert(leads(packages, next[i - 1].name, x, steps));
        } else {
            let d = package_named(packages, name)->0;
            let j = choose|j: int|
                0 <= j < d.required.len() && leads(
                    packages,
                    python_deps::normalized(#[trigger] d.required[j]),
                    x,
                    (steps - 1) as nat,
                );
            let k = rest.len() + j;
            assert(next[k] == needs_of(d.required, queue[0].path)[j]);
            assert(leads(packages, next[k].name, x, (steps - 1) as nat));
        }
        assert(queue_leads(packages, next, x));
    }
    if native_ahead(packages, next, more) {
        let x = choose|x: Seq<char>| #[trigger]
            queue_leads(packages, next, x) && !more.contains(x) && is_native(packages, x);
        let (i, steps) = choose|i: int, steps: nat|
            0 <= i < next.len() && #[trigger] leads(packages, next[i].name, x, steps);
        if i < rest.len() {
            assert(queue[i + 1] == next[i]);
            assert(leads(packages, queue[i + 1].name, x, steps));
        } else {
            let d = package_named(packages, name)->0;
            let j = i - rest.len();
            assert(next[i] == needs_of(d.required, queue[0].path)[j]);
            assert(leads(packages, python_deps::normalized(d.required[j]), x, steps));
            assert(leads(packages, queue[0].name, x, steps + 1));
        }
        assert(queue_leads(packages, queue, x));
    }
}

/// Whether a project depends on a package, directly or through other packages.
pub open spec fn depends_on(p: ProjectView, name: Seq<char>) -> bool {
    exists|i: int, steps: nat|
        0 <= i < python_deps::direct_dependencies(p).len() && #[trigger] leads(
            p.packages,
            python_deps::normalized(python_deps::direct_dependencies(p)[i]),
            name,
            steps,
        )
}

/// The report blocks the build exactly if the project depends, directly or
/// through other packages, on a package with a native extension.
pub proof fn build_is_blocked_by_native_dependencies(p: ProjectView)
    ensures
        project::any_blocks(python_report(p).findings) <==> exists|name: Seq<char>| #[trigger]
            depends_on(p, name) && is_native(p.packages, name),
        python_report(p).status == CompatibilityStatus::Unsupported <==> project::any_blocks(
            python_report(p).findings,
        ),
{
    let direct = python_deps::direct_dependencies(p);
    let queue = first_needs(direct);
    let none = Seq::<Seq<char>>::empty();
    lemma_survey_blocks(p.packages, queue, none);
    lemma_any_blocks_concat(survey(p.packages, queue, none), source_findings(p));
    assert(!project::any_blocks(source_findings(p)));
    assert forall|name: Seq<char>| #[trigger] depends_on(p, name) == queue_leads(
        p.packages,
        queue,
        name,
    ) by {
        if depends_on(p, name) {
            let (i, steps) = choose|i: int, steps: nat|
                0 <= i < direct.len() && #[trigger] leads(
                    p.packages,
                    python_deps::normalized(direct[i]),
                    name,
                    steps,
                );
            assert(leads(p.packages, queue[i].name, name, steps));
        }
        if queue_leads(p.packages, queue, name) {
            let (i, steps) = choose|i: int, steps: nat|
                0 <= i < queue.len() && #[trigger] leads(p.packages, queue[i].name, name, steps);
            assert(leads(p.packages, python_deps::normalized(direct[i]), name, steps));
        }
    }
    if native_ahead(p.packages, queue, none) {
        let x = choose|x: Seq<char>| #[trigger]
            queue_leads(p.packages, queue, x) && !none.contains(x) && is_native(p.packages, x);
        assert(depends_on(p, x));
    }
    if exists|name: Seq<char>| #[trigger] depends_on(p, name) && is_native(p.packages, name) {
        let x = choose|name: Seq<char>| #[trigger]
            depends_on(p, name) && is_native(p.packages, name);
        assert(queue_leads(p.packages, queue, x));
    }
}

} // verus!
