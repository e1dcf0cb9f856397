//! What the report on a Python project says: a native extension that the project depends
//! on blocks the build, and what may stand against running the project is named.

use crate::paths;
use crate::project;
use crate::project::{
    CompatibilityCertainty, CompatibilitySeverity, CompatibilityStatus, DistributionView,
    FindingView, ProjectInspection, ProjectView,
};
use crate::python_deps;
use crate::python_report;
use crate::python_report::Need;
use crate::requirement_laws;
use crate::requirement_laws::{is_dependency, is_distribution};
use crate::text;
use vstd::prelude::*;

verus! {

/// Whether two characters are one in the names of distributions: the same letter in any
/// case, or a hyphen, an underscore or a dot each.
pub open spec fn are_alike(c: char, d: char) -> bool {
    ||| c == d
    ||| 'a' <= c <= 'z' && 'A' <= d <= 'Z' && c as u32 == d as u32 + 32
    ||| 'A' <= c <= 'Z' && 'a' <= d <= 'z' && d as u32 == c as u32 + 32
    ||| (c == '-' || c == '_' || c == '.') && (d == '-' || d == '_' || d == '.')
}

pub proof fn lemma_normalized(name: Seq<char>)
    requires
        is_distribution(name),
    ensures
        python_deps::normalized(name).len() == name.len(),
        forall|i: int|
            0 <= i < name.len() ==> #[trigger] python_deps::normalized(name)[i] == (if name[i]
                == '_' || name[i] == '.' {
                '-'
            } else {
                text::ascii_lower(name[i])
            }),
{
    let none = Seq::<char>::empty();
    requirement_laws::lemma_trim_spaces(name, none);
    assert(name + none =~= name);
    let set = seq!['_', '.'];
    assert(set[0] == '_' && set[1] == '.');
    let lowered = text::lower(name);
    let n = python_deps::normalized(name);
    assert forall|i: int| 0 <= i < name.len() implies #[trigger] n[i] == (if name[i] == '_'
        || name[i] == '.' {
        '-'
    } else {
        text::ascii_lower(name[i])
    }) by {
        assert(requirement_laws::is_name_char(name[i]));
        assert(lowered[i] == text::ascii_lower(name[i]));
        if set.contains(lowered[i]) {
            assert(lowered[i] == '_' || lowered[i] == '.');
        }
    }
}

proof fn lemma_alike(c: char, d: char)
    requires
        requirement_laws::is_name_char(c),
        requirement_laws::is_name_char(d),
    ensures
        ((if c == '_' || c == '.' {
            '-'
        } else {
            text::ascii_lower(c)
        }) == (if d == '_' || d == '.' {
            '-'
        } else {
            text::ascii_lower(d)
        })) <==> are_alike(c, d),
{
    vstd::utf8::char_u32_cast(c, c as u32);
    vstd::utf8::char_u32_cast(d, d as u32);
}

/// Two names are compared without regard to the case of letters, and to which of hyphen,
/// underscore and dot stands between them.
pub proof fn names_are_compared_loosely(a: Seq<char>, b: Seq<char>)
    requires
        is_distribution(a),
        is_distribution(b),
    ensures
        python_deps::normalized(a) == python_deps::normalized(b) <==> (a.len() == b.len() && forall|
            i: int,
        |
            0 <= i < a.len() ==> are_alike(#[trigger] a[i], b[i])),
{
    lemma_normalized(a);
    lemma_normalized(b);
    let x = python_deps::normalized(a);
    let y = python_deps::normalized(b);
    assert forall|i: int| 0 <= i < a.len() && i < b.len() implies (x[i] == y[i]) == are_alike(
        #[trigger] a[i],
        b[i],
    ) by {
        assert(requirement_laws::is_name_char(a[i]) && requirement_laws::is_name_char(b[i]));
        lemma_alike(a[i], b[i]);
        assert(x[i] == x[i] && y[i] == y[i]);
    }
    if x == y {
        assert forall|i: int| 0 <= i < a.len() implies are_alike(#[trigger] a[i], b[i]) by {
            assert(x[i] == y[i]);
        }
    }
    if a.len() == b.len() && (forall|i: int| 0 <= i < a.len() ==> are_alike(#[trigger] a[i], b[i])) {
        assert forall|i: int| 0 <= i < x.len() implies x[i] == y[i] by {
            assert(are_alike(a[i], b[i]));
        }
        assert(x =~= y);
    }
}

/// Whether a package is installed under the name.
pub open spec fn is_installed(
    packages: Seq<DistributionView>,
    d: DistributionView,
    name: Seq<char>,
) -> bool {
    packages.contains(d) && python_deps::normalized(d.name) == python_deps::normalized(name)
}

/// Whether no two packages have one name.
pub open spec fn are_distinct(packages: Seq<DistributionView>) -> bool {
    forall|i: int, j: int|
        0 <= i < j < packages.len() ==> python_deps::normalized((#[trigger] packages[i]).name)
            != python_deps::normalized((#[trigger] packages[j]).name)
}

proof fn lemma_package(packages: Seq<DistributionView>, d: DistributionView, name: Seq<char>)
    requires
        are_distinct(packages),
        is_installed(packages, d, name),
    ensures
        python_report::package_named(packages, python_deps::normalized(name)) == Some(d),
    decreases packages.len(),
{
    let k = choose|k: int| 0 <= k < packages.len() && packages[k] == d;
    let rest = packages.drop_last();
    if k < rest.len() {
        assert(rest[k] == d);
        assert(python_deps::normalized(packages[k].name) != python_deps::normalized(
            packages[packages.len() - 1].name,
        ));
        assert forall|i: int, j: int| 0 <= i < j < rest.len() implies python_deps::normalized(
            (#[trigger] rest[i]).name,
        ) != python_deps::normalized((#[trigger] rest[j]).name) by {
            assert(rest[i] == packages[i] && rest[j] == packages[j]);
        }
        lemma_package(rest, d, name);
    }
}

proof fn lemma_not_installed(packages: Seq<DistributionView>, name: Seq<char>)
    requires
        forall|d: DistributionView| !#[trigger] is_installed(packages, d, name),
    ensures
        python_report::package_named(packages, python_deps::normalized(name)) is None,
    decreases packages.len(),
{
    if packages.len() > 0 {
        let rest = packages.drop_last();
        assert(packages[packages.len() - 1] == packages.last());
        assert(!is_installed(packages, packages.last(), name));
        assert forall|d: DistributionView| !#[trigger] is_installed(rest, d, name) by {
            if rest.contains(d) {
                let k = choose|k: int| 0 <= k < rest.len() && rest[k] == d;
                assert(packages[k] == d);
                assert(!is_installed(packages, d, name));
            }
        }
        lemma_not_installed(rest, name);
    }
}

/// Whether each package requires the next one.
pub open spec fn is_chain(packages: Seq<DistributionView>, names: Seq<Seq<char>>) -> bool {
    forall|k: int|
        0 <= k < names.len() - 1 ==> exists|d: DistributionView|
            is_installed(packages, d, #[trigger] names[k]) && #[trigger] d.required.contains(
                names[k + 1],
            )
}

proof fn lemma_chain_leads(packages: Seq<DistributionView>, names: Seq<Seq<char>>, k: int)
    requires
        are_distinct(packages),
        is_chain(packages, names),
        0 <= k < names.len(),
    ensures
        python_report::leads(
            packages,
            python_deps::normalized(names[k]),
            python_deps::normalized(names.last()),
            (names.len() - 1 - k) as nat,
        ),
    decreases names.len() - k,
{
    if k < names.len() - 1 {
        lemma_chain_leads(packages, names, k + 1);
        let d = choose|d: DistributionView|
            is_installed(packages, d, names[k]) && #[trigger] d.required.contains(names[k + 1]);
        lemma_package(packages, d, names[k]);
        let i = choose|i: int| 0 <= i < d.required.len() && d.required[i] == names[k + 1];
        assert(python_report::leads(
            packages,
            python_deps::normalized(d.required[i]),
            python_deps::normalized(names.last()),
            (names.len() - 2 - k) as nat,
        ));
    }
}

/// A native extension blocks the build of every project that depends on it, directly or
/// through any chain of packages, each of which requires the next.
pub proof fn native_dependencies_block_the_build(
    p: ProjectView,
    names: Seq<Seq<char>>,
    d: DistributionView,
)
    requires
        are_distinct(p.packages),
        names.len() > 0,
        is_dependency(p, names[0]),
        is_chain(p.packages, names),
        is_installed(p.packages, d, names.last()),
        d.native is Some,
    ensures
        project::any_blocks(python_report::python_report(p).findings),
        python_report::python_report(p).status == CompatibilityStatus::Unsupported,
{
    let direct = python_deps::direct_dependencies(p);
    let last = python_deps::normalized(names.last());
    let i = choose|i: int|
        0 <= i < direct.len() && python_deps::normalized(#[trigger] direct[i])
            == python_deps::normalized(names[0]);
    lemma_chain_leads(p.packages, names, 0);
    lemma_package(p.packages, d, names.last());
    assert(python_report::leads(
        p.packages,
        python_deps::normalized(direct[i]),
        last,
        (names.len() - 1) as nat,
    ));
    assert(python_report::depends_on(p, last) && python_report::is_native(p.packages, last));
    python_report::build_is_blocked_by_native_dependencies(p);
}

proof fn lemma_package_is_there(packages: Seq<DistributionView>, name: Seq<char>)
    ensures
        python_report::package_named(packages, name) matches Some(d) ==> packages.contains(d),
    decreases packages.len(),
{
    if packages.len() > 0 {
        let rest = packages.drop_last();
        lemma_package_is_there(rest, name);
        assert(packages[packages.len() - 1] == packages.last());
        if let Some(d) = python_report::package_named(rest, name) {
            let k = choose|k: int| 0 <= k < rest.len() && rest[k] == d;
            assert(packages[k] == d);
        }
    }
}

/// A project without native extensions among its packages is not blocked.
pub proof fn pure_dependencies_do_not_block(p: ProjectView)
    requires
        forall|i: int| 0 <= i < p.packages.len() ==> (#[trigger] p.packages[i]).native is None,
    ensures
        !project::any_blocks(python_report::python_report(p).findings),
        python_report::python_report(p).status != CompatibilityStatus::Unsupported,
{
    python_report::build_is_blocked_by_native_dependencies(p);
    if project::any_blocks(python_report::python_report(p).findings) {
        let name = choose|name: Seq<char>| #[trigger]
            python_report::depends_on(p, name) && python_report::is_native(p.packages, name);
        lemma_package_is_there(p.packages, name);
        let d = python_report::package_named(p.packages, name)->0;
        let k = choose|k: int| 0 <= k < p.packages.len() && p.packages[k] == d;
        assert(p.packages[k].native is None);
    }
}

/// What is said of a need that waits stands in the survey.
proof fn lemma_surveyed(
    packages: Seq<DistributionView>,
    queue: Seq<Need>,
    visited: Seq<Seq<char>>,
    k: int,
) -> (path: Seq<Seq<char>>)
    requires
        0 <= k < queue.len(),
        !visited.contains(queue[k].name),
    ensures
        python_report::package_named(packages, queue[k].name) is None ==> python_report::survey(
            packages,
            queue,
            visited,
        ).contains(python_report::unresolved(queue[k].name, path)),
        python_report::package_named(packages, queue[k].name) matches Some(d) ==> forall|i: int|
            0 <= i < python_report::package_findings(d, path).len() ==> python_report::survey(
                packages,
                queue,
                visited,
            ).contains(#[trigger] python_report::package_findings(d, path)[i]),
    decreases python_report::unvisited(packages, visited), queue.len(),
{
    let name = queue[k].name;
    let need = queue[0];
    let rest = queue.drop_first();
    let all = python_report::survey(packages, queue, visited);
    if visited.contains(need.name) {
        assert(rest[k - 1] == queue[k]);
        lemma_surveyed(packages, rest, visited, k - 1)
    } else {
        python_report::lemma_visit(packages, visited, need.name);
        let more = visited.push(need.name);
        match python_report::package_named(packages, need.name) {
            None => {
                let later = python_report::survey(packages, rest, more);
                let first = python_report::unresolved(need.name, need.path);
                assert(all =~= seq![first] + later);
                if name == need.name {
                    assert(all[0] == first);
                    need.path
                } else {
                    assert(rest[k - 1] == queue[k]);
                    assert(!more.contains(name));
                    let path = lemma_surveyed(packages, rest, more, k - 1);
                    assert forall|f: FindingView| later.contains(f) implies all.contains(f) by {
                        let i = choose|i: int| 0 <= i < later.len() && later[i] == f;
                        assert(all[i + 1] == f);
                    }
                    path
                }
            },
            Some(d) => {
                let next = rest + python_report::needs_of(d.required, need.path);
                let first = python_report::package_findings(d, need.path);
                let later = python_report::survey(packages, next, more);
                assert(all =~= first + later);
                if name == need.name {
                    assert forall|i: int| 0 <= i < first.len() implies all.contains(
                        #[trigger] first[i],
                    ) by {
                        assert(all[i] == first[i]);
                    }
                    need.path
                } else {
                    assert(next[k - 1] == queue[k]);
                    assert(!more.contains(name));
                    let path = lemma_surveyed(packages, next, more, k - 1);
                    assert forall|f: FindingView| later.contains(f) implies all.contains(f) by {
                        let i = choose|i: int| 0 <= i < later.len() && later[i] == f;
                        assert(all[first.len() + i] == f);
                    }
                    path
                }
            },
        }
    }
}

/// Whether the report has the finding.
pub open spec fn reports(p: ProjectView, f: FindingView) -> bool {
    python_report::python_report(p).findings.contains(f)
}

proof fn lemma_reported(p: ProjectView, name: Seq<char>) -> (path: Seq<Seq<char>>)
    requires
        is_dependency(p, name),
    ensures
        python_report::package_named(p.packages, python_deps::normalized(name)) is None ==> reports(
            p,
            python_report::unresolved(python_deps::normalized(name), path),
        ),
        python_report::package_named(p.packages, python_deps::normalized(name)) matches Some(d)
            ==> forall|i: int|
            0 <= i < python_report::package_findings(d, path).len() ==> reports(
                p,
                #[trigger] python_report::package_findings(d, path)[i],
            ),
{
    let direct = python_deps::direct_dependencies(p);
    let queue = python_report::first_needs(direct);
    let i = choose|i: int|
        0 <= i < direct.len() && python_deps::normalized(#[trigger] direct[i])
            == python_deps::normalized(name);
    assert(queue[i].name == python_deps::normalized(name));
    let none = Seq::<Seq<char>>::empty();
    let found = python_report::survey(p.packages, queue, none);
    let all = python_report::python_findings(p);
    let path = lemma_surveyed(p.packages, queue, none, i);
    assert forall|f: FindingView| found.contains(f) implies all.contains(f) by {
        let k = choose|k: int| 0 <= k < found.len() && found[k] == f;
        assert(all[k] == f);
    }
    path
}

/// A dependency that is not installed is reported as one that could not be looked into; the
/// project is then not said to be supported.
pub proof fn missing_dependencies_are_reported(p: ProjectView, name: Seq<char>) -> (f: FindingView)
    requires
        is_dependency(p, name),
        forall|d: DistributionView| !#[trigger] is_installed(p.packages, d, name),
    ensures
        reports(p, f),
        f.category == "dependency-resolution"@,
        f.package == Some(python_deps::normalized(name)),
        f.certainty == CompatibilityCertainty::Unknown,
        !f.blocks_build,
        python_report::python_report(p).status != CompatibilityStatus::Supported,
{
    lemma_not_installed(p.packages, name);
    let path = lemma_reported(p, name);
    let f = python_report::unresolved(python_deps::normalized(name), path);
    let all = python_report::python_findings(p);
    let k = choose|k: int| 0 <= k < all.len() && all[k] == f;
    assert(all[k].certainty != CompatibilityCertainty::Confirmed);
    f
}

/// A dependency with a native extension is reported with the file that was found.
pub proof fn native_dependencies_are_reported(
    p: ProjectView,
    name: Seq<char>,
    d: DistributionView,
) -> (f: FindingView)
    requires
        is_dependency(p, name),
        are_distinct(p.packages),
        is_installed(p.packages, d, name),
        d.native is Some,
    ensures
        reports(p, f),
        f.category == "native-extension"@,
        f.package == Some(d.name),
        f.severity == CompatibilitySeverity::Error,
        f.certainty == CompatibilityCertainty::Confirmed,
        f.blocks_build,
        f.evidence.len() > 0 && f.evidence[0].source == d.native->0,
{
    lemma_package(p.packages, d, name);
    let path = lemma_reported(p, name);
    let f = python_report::native_finding(d, d.native->0, path);
    assert(python_report::package_findings(d, path)[0] == f);
    f
}

/// A dependency that was installed from wheels for platforms alone is reported.
pub proof fn platform_wheels_are_reported(
    p: ProjectView,
    name: Seq<char>,
    d: DistributionView,
) -> (f: FindingView)
    requires
        is_dependency(p, name),
        are_distinct(p.packages),
        is_installed(p.packages, d, name),
        d.native is None,
        d.wheel_tags.len() > 0,
        forall|i: int|
            0 <= i < d.wheel_tags.len() ==> !"-any"@.is_suffix_of(#[trigger] d.wheel_tags[i]),
    ensures
        reports(p, f),
        f.category == "platform-wheel"@,
        f.package == Some(d.name),
        f.certainty == CompatibilityCertainty::Unknown,
        !f.blocks_build,
{
    lemma_package(p.packages, d, name);
    let path = lemma_reported(p, name);
    let f = python_report::platform_finding(d, path);
    assert(python_report::package_findings(d, path)[0] == f);
    f
}

/// What the status of a report says of its findings.
pub proof fn status_follows_the_findings(p: ProjectView)
    ensures
        ({
            let r = python_report::python_report(p);
            let blocked = exists|i: int|
                0 <= i < r.findings.len() && (#[trigger] r.findings[i]).blocks_build;
            let doubtful = exists|i: int|
                0 <= i < r.findings.len() && (#[trigger] r.findings[i]).certainty
                    != CompatibilityCertainty::Confirmed;
            &&& r.status == CompatibilityStatus::Unsupported <==> blocked
            &&& r.status == CompatibilityStatus::PotentiallyUnsupported <==> !blocked && doubtful
            &&& r.status == CompatibilityStatus::Supported <==> !blocked && !doubtful
            &&& r.messages.len() > 0
        }),
{
}

/// What an import of a module is taken for.
pub open spec fn category_of(module: Seq<char>) -> Option<Seq<char>> {
    if module == "subprocess"@ {
        Some("subprocess"@)
    } else if module == "socket"@ {
        Some("raw-socket"@)
    } else if module == "ctypes"@ || module == "cffi"@ {
        Some("dynamic-loading"@)
    } else if module == "threading"@ {
        Some("thread"@)
    } else if module == "pathlib"@ || module == "shutil"@ || module == "tempfile"@ {
        Some("filesystem"@)
    } else {
        None
    }
}

/// A project whose Python sources import a module that reaches outside the guest is told
/// so, under the category of the module. It is not blocked for that.
pub proof fn outward_imports_are_reported(
    p: ProjectView,
    i: int,
    source: Seq<char>,
    k: int,
    pad: Seq<char>,
    rest: Seq<char>,
    module: Seq<char>,
) -> (f: FindingView)
    requires
        0 <= i < p.files.len(),
        paths::path_extension(p.files[i]) == Some("py"@),
        project::source_text(p, p.files[i]) == Some(source),
        0 <= k < text::lines_of(source).len(),
        text::is_blank(pad),
        text::lines_of(source)[k] == pad + ("import "@ + rest) || text::lines_of(source)[k] == pad
            + ("from "@ + rest),
        text::has_text(rest, module),
        category_of(module) is Some,
    ensures
        reports(p, f),
        f.category == category_of(module)->0,
        f.certainty == CompatibilityCertainty::Potential,
        !f.blocks_build,
        python_report::python_report(p).status != CompatibilityStatus::Supported,
{
    let line = text::lines_of(source)[k];
    lemma_import_line(line, pad, rest, module);
    assert(python_report::imports(line, module));
    assert(python_report::text_imports(source, module));
    assert(python_report::project_imports(p, module));
    let found = lemma_import_finding(p, module);
    let all = python_report::python_findings(p);
    let n = choose|n: int|
        0 <= n < python_report::source_findings(p).len() && python_report::source_findings(p)[n]
            == found;
    let survey = python_report::survey(
        p.packages,
        python_report::first_needs(python_deps::direct_dependencies(p)),
        Seq::empty(),
    );
    assert(all[survey.len() + n] == found);
    found
}

proof fn lemma_import_line(line: Seq<char>, pad: Seq<char>, rest: Seq<char>, module: Seq<char>)
    requires
        text::is_blank(pad),
        line == pad + ("import "@ + rest) || line == pad + ("from "@ + rest),
        text::has_text(rest, module),
    ensures
        python_report::imports(line, module),
{
    let white = |c: char| text::is_white(c);
    reveal_strlit("import ");
    reveal_strlit("from ");
    let word = if line == pad + ("import "@ + rest) {
        "import "@
    } else {
        "from "@
    };
    let code = word + rest;
    assert forall|i: int| 0 <= i < pad.len() implies white(#[trigger] pad[i]) by {}
    requirement_laws::lemma_trim_start_all(pad, code, white);
    assert(code[0] == word[0] && !white(word[0]));
    assert(text::trimmed_start(line) == code);
    assert(code.subrange(0, word.len() as int) =~= word);
    let i = choose|i: int| text::occurs_at(rest, module, i);
    let n = (pad.len() + word.len()) as int;
    assert(line.subrange(n + i, n + i + module.len()) =~= rest.subrange(i, i + module.len()));
    assert(text::occurs_at(line, module, n + i));
}

proof fn lemma_import_finding(p: ProjectView, module: Seq<char>) -> (f: FindingView)
    requires
        python_report::project_imports(p, module),
        category_of(module) is Some,
    ensures
        python_report::source_findings(p).contains(f),
        f.category == category_of(module)->0,
        f.certainty == CompatibilityCertainty::Potential,
        !f.blocks_build,
{
    let all = python_report::source_findings(p);
    let none = Seq::<FindingView>::empty();
    let shared = "verify that the dependency does not require host shared libraries"@;
    let files = "verify that the files are available to the guest"@;
    let a = python_report::import_findings(
        p,
        "subprocess"@,
        "subprocess"@,
        "replace host process execution with a guest-native API; host exec is unavailable"@,
    );
    let b = python_report::import_findings(
        p,
        "raw-socket"@,
        "socket"@,
        "use WASI HTTP or an explicitly configured resource capability"@,
    );
    let c = python_report::import_findings(p, "dynamic-loading"@, "ctypes"@, shared);
    let d = python_report::import_findings(p, "dynamic-loading"@, "cffi"@, shared);
    let e = python_report::import_findings(
        p,
        "thread"@,
        "threading"@,
        "verify that the application does not rely on host threads"@,
    );
    let f = python_report::import_findings(p, "filesystem"@, "pathlib"@, files);
    let g = python_report::import_findings(p, "filesystem"@, "shutil"@, files);
    let h = python_report::import_findings(p, "filesystem"@, "tempfile"@, files);
    assert(all =~= (a + b + c + d) + (e + f + g + h));
    if module == "subprocess"@ {
        assert(all[0] == a[0]);
        a[0]
    } else if module == "socket"@ {
        assert(all[a.len() as int] == b[0]);
        b[0]
    } else if module == "ctypes"@ {
        assert(all[(a + b).len() as int] == c[0]);
        c[0]
    } else if module == "cffi"@ {
        assert(all[(a + b + c).len() as int] == d[0]);
        d[0]
    } else if module == "threading"@ {
        assert(all[(a + b + c + d).len() as int] == e[0]);
        e[0]
    } else if module == "pathlib"@ {
        assert(all[(a + b + c + d + e).len() as int] == f[0]);
        f[0]
    } else if module == "shutil"@ {
        assert(all[(a + b + c + d + e + f).len() as int] == g[0]);
        g[0]
    } else {
        assert(all[(a + b + c + d + e + f + g).len() as int] == h[0]);
        h[0]
    }
}

/// A project that declares nothing and imports none of those modules is supported, with no
/// findings at all.
pub proof fn plain_projects_are_supported(p: ProjectView)
    requires
        python_deps::declared(p).len() == 0,
        forall|module: Seq<char>|
            category_of(module) is Some ==> !#[trigger] python_report::project_imports(p, module),
    ensures
        python_report::python_report(p).findings.len() == 0,
        python_report::python_report(p).status == CompatibilityStatus::Supported,
{
    python_deps::direct_dependencies_are_distinct(p);
    let direct = python_deps::direct_dependencies(p);
    if direct.len() > 0 {
        assert(python_deps::declared(p).contains(direct[0]));
    }
    assert(python_report::first_needs(direct) =~= Seq::<Need>::empty());
    assert(category_of("subprocess"@) is Some && category_of("socket"@) is Some);
    assert(category_of("ctypes"@) is Some && category_of("cffi"@) is Some);
    assert(category_of("threading"@) is Some && category_of("pathlib"@) is Some);
    assert(category_of("shutil"@) is Some && category_of("tempfile"@) is Some);
    assert(python_report::python_findings(p) =~= Seq::<FindingView>::empty());
}

/// A module is taken to be imported only where a line of a Python source begins with an
/// import and speaks of it.
pub proof fn imports_are_lines_of_sources(
    project: ProjectInspection,
    module: &str,
    imported: bool,
)
    requires
        call_ensures(python_report::project_python_source_contains, (&project, module), imported),
    ensures
        imported ==> exists|i: int, k: int, source: Seq<char>|
            #[trigger] is_line(project@, i, source, k) && (("import "@.is_prefix_of(
                text::trimmed_start(text::lines_of(source)[k]),
            )) || "from "@.is_prefix_of(text::trimmed_start(text::lines_of(source)[k])))
                && text::has_text(text::lines_of(source)[k], module@),
{
    if imported {
        let p = project@;
        let i = choose|i: int|
            0 <= i < p.files.len() && paths::path_extension(#[trigger] p.files[i]) == Some("py"@)
                && match project::source_text(p, p.files[i]) {
                Some(source) => python_report::text_imports(source, module@),
                None => false,
            };
        let source = project::source_text(p, p.files[i])->0;
        let k = choose|k: int|
            0 <= k < text::lines_of(source).len() && python_report::imports(
                #[trigger] text::lines_of(source)[k],
                module@,
            );
        assert(is_line(p, i, source, k));
    }
}

/// Whether a project has a Python source with so many lines.
pub open spec fn is_line(p: ProjectView, i: int, source: Seq<char>, k: int) -> bool {
    0 <= i < p.files.len() && paths::path_extension(p.files[i]) == Some("py"@)
        && project::source_text(p, p.files[i]) == Some(source) && 0 <= k < text::lines_of(
        source,
    ).len()
}

} // verus!
