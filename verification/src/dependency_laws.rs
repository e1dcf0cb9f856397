//! How the findings on packages are explained: by the shortest way from what a
//! project declares.

use crate::project::{DistributionView, FindingView, ProjectView};
use crate::python_deps;
use crate::python_report;
use crate::python_report::Need;
use vstd::prelude::*;

verus! {

/// Whether the package `from` is installed and requires `to`.
pub open spec fn requires_next(
    packages: Seq<DistributionView>,
    from: Seq<char>,
    to: Seq<char>,
) -> bool {
    python_report::package_named(packages, python_deps::normalized(from)) matches Some(d)
        && d.required.contains(to)
}

/// Whether a path starts at a declared dependency and goes on, step by step, to
/// what the package before requires.
pub open spec fn is_path(
    packages: Seq<DistributionView>,
    direct: Seq<Seq<char>>,
    path: Seq<Seq<char>>,
) -> bool {
    &&& path.len() > 0
    &&& direct.contains(path[0])
    &&& forall|i: int|
        0 <= i < path.len() - 1 ==> requires_next(packages, #[trigger] path[i], path[i + 1])
}

/// Whether no way from a declared dependency to the end of the path is shorter.
pub open spec fn is_shortest(
    packages: Seq<DistributionView>,
    direct: Seq<Seq<char>>,
    path: Seq<Seq<char>>,
) -> bool {
    forall|i: int, steps: nat|
        0 <= i < direct.len() && #[trigger] python_report::leads(
            packages,
            python_deps::normalized(direct[i]),
            python_deps::normalized(path.last()),
            steps,
        ) ==> path.len() <= steps + 1
}

/// Whether a finding speaks of the package at the end of its path: of the installed
/// one, or of the name under which none is installed.
pub open spec fn speaks_of_the_end(packages: Seq<DistributionView>, f: FindingView) -> bool {
    let end = python_deps::normalized(f.dependency_path.last());
    f.package == Some(
        match python_report::package_named(packages, end) {
            Some(d) => d.name,
            None => end,
        },
    )
}

/// Whether a finding on a package is explained by its path.
pub open spec fn is_explained(
    packages: Seq<DistributionView>,
    direct: Seq<Seq<char>>,
    f: FindingView,
) -> bool {
    &&& is_path(packages, direct, f.dependency_path)
    &&& is_shortest(packages, direct, f.dependency_path)
    &&& speaks_of_the_end(packages, f)
}

/// Whether every need of a queue has a path that ends at its name.
spec fn paths_hold(
    packages: Seq<DistributionView>,
    direct: Seq<Seq<char>>,
    queue: Seq<Need>,
) -> bool {
    forall|k: int|
        0 <= k < queue.len() ==> is_path(packages, direct, (#[trigger] queue[k]).path)
            && queue[k].name == python_deps::normalized(queue[k].path.last())
}

/// Whether the paths of a queue do not become shorter, and by one step longer at most.
spec fn in_layers(queue: Seq<Need>) -> bool {
    forall|j: int, k: int|
        0 <= j <= k < queue.len() ==> (#[trigger] queue[j]).path.len() <= (
        #[trigger] queue[k]).path.len() <= queue[j].path.len() + 1
}

/// Whether a name waits in the queue with a path of at most `length`.
spec fn waits(queue: Seq<Need>, name: Seq<char>, length: nat) -> bool {
    exists|k: int| 0 <= k < queue.len() && (#[trigger] queue[k]).name == name && queue[k].path.len()
        <= length
}

/// The normalized name of what a package requires.
spec fn child(packages: Seq<DistributionView>, v: Seq<char>, i: int) -> Seq<char> {
    python_deps::normalized(python_report::package_named(packages, v)->0.required[i])
}

/// Whether what visited packages require was visited or waits with a path that is
/// one step longer than `length` at most.
spec fn children_wait(
    packages: Seq<DistributionView>,
    queue: Seq<Need>,
    visited: Seq<Seq<char>>,
    length: nat,
) -> bool {
    forall|v: Seq<char>, i: int|
        visited.contains(v) && python_report::package_named(packages, v) is Some && 0 <= i
            < python_report::package_named(packages, v)->0.required.len() ==> visited.contains(
            #[trigger] child(packages, v, i),
        ) || waits(queue, child(packages, v, i), length + 1)
}

/// Whether the queue leads to `to` over at most `length` names.
spec fn within(
    packages: Seq<DistributionView>,
    queue: Seq<Need>,
    to: Seq<char>,
    length: nat,
) -> bool {
    exists|k: int, t: nat|
        0 <= k < queue.len() && #[trigger] python_report::leads(packages, queue[k].name, to, t)
            && queue[k].path.len() + t <= length
}

/// Whether every way from a declared dependency to a name that was not visited leads
/// through the queue without becoming longer.
spec fn ways_lead_through(
    packages: Seq<DistributionView>,
    direct: Seq<Seq<char>>,
    queue: Seq<Need>,
    visited: Seq<Seq<char>>,
) -> bool {
    forall|i: int, to: Seq<char>, steps: nat|
        0 <= i < direct.len() && !visited.contains(to) && #[trigger] python_report::leads(
            packages,
            python_deps::normalized(direct[i]),
            to,
            steps,
        ) ==> within(packages, queue, to, steps + 1)
}

/// From a visited name, what was not visited is reached through the queue.
proof fn lemma_within(
    packages: Seq<DistributionView>,
    queue: Seq<Need>,
    visited: Seq<Seq<char>>,
    length: nat,
    from: Seq<char>,
    to: Seq<char>,
    steps: nat,
)
    requires
        children_wait(packages, queue, visited, length),
        visited.contains(from),
        !visited.contains(to),
        python_report::leads(packages, from, to, steps),
    ensures
        within(packages, queue, to, length + steps),
    decreases steps,
{
    let d = python_report::package_named(packages, from)->0;
    let i = choose|i: int|
        0 <= i < d.required.len() && python_report::leads(
            packages,
            python_deps::normalized(#[trigger] d.required[i]),
            to,
            (steps - 1) as nat,
        );
    let c = child(packages, from, i);
    if visited.contains(c) {
        lemma_within(packages, queue, visited, length, c, to, (steps - 1) as nat);
        let (k, t) = choose|k: int, t: nat|
            0 <= k < queue.len() && #[trigger] python_report::leads(packages, queue[k].name, to, t)
                && queue[k].path.len() + t <= length + (steps - 1) as nat;
        assert(python_report::leads(packages, queue[k].name, to, t));
    } else {
        assert(waits(queue, c, length + 1));
        let k = choose|k: int|
            0 <= k < queue.len() && (#[trigger] queue[k]).name == c && queue[k].path.len() <= length
                + 1;
        assert(python_report::leads(packages, queue[k].name, to, (steps - 1) as nat));
    }
}

/// What holds of a queue while packages are looked at.
spec fn is_survey(
    packages: Seq<DistributionView>,
    direct: Seq<Seq<char>>,
    queue: Seq<Need>,
    visited: Seq<Seq<char>>,
    length: nat,
) -> bool {
    &&& paths_hold(packages, direct, queue)
    &&& in_layers(queue)
    &&& children_wait(packages, queue, visited, length)
    &&& ways_lead_through(packages, direct, queue, visited)
    &&& queue.len() > 0 ==> length <= queue[0].path.len()
}

/// A need whose name was visited can be left out.
proof fn lemma_skip(
    packages: Seq<DistributionView>,
    direct: Seq<Seq<char>>,
    queue: Seq<Need>,
    visited: Seq<Seq<char>>,
    length: nat,
)
    requires
        is_survey(packages, direct, queue, visited, length),
        queue.len() > 0,
        visited.contains(queue[0].name),
    ensures
        is_survey(packages, direct, queue.drop_first(), visited, length),
{
    let rest = queue.drop_first();
    assert forall|k: int| 0 <= k < rest.len() implies #[trigger] rest[k] == queue[k + 1] by {}
    assert forall|v: Seq<char>, i: int|
        visited.contains(v) && python_report::package_named(packages, v) is Some && 0 <= i
            < python_report::package_named(packages, v)->0.required.len() implies visited.contains(
        #[trigger] child(packages, v, i),
    ) || waits(rest, child(packages, v, i), length + 1) by {
        let c = child(packages, v, i);
        if !visited.contains(c) {
            let k = choose|k: int|
                0 <= k < queue.len() && (#[trigger] queue[k]).name == c && queue[k].path.len()
                    <= length + 1;
            assert(rest[k - 1] == queue[k]);
        }
    }
    assert forall|i: int, to: Seq<char>, steps: nat|
        0 <= i < direct.len() && !visited.contains(to) && #[trigger] python_report::leads(
            packages,
            python_deps::normalized(direct[i]),
            to,
            steps,
        ) implies within(packages, rest, to, steps + 1) by {
        let (k, t) = choose|k: int, t: nat|
            0 <= k < queue.len() && #[trigger] python_report::leads(packages, queue[k].name, to, t)
                && queue[k].path.len() + t <= steps + 1;
        if k > 0 {
            assert(python_report::leads(packages, rest[k - 1].name, to, t));
        } else {
            lemma_within(packages, rest, visited, length, queue[0].name, to, t);
            let (j, u) = choose|j: int, u: nat|
                0 <= j < rest.len() && #[trigger] python_report::leads(
                    packages,
                    rest[j].name,
                    to,
                    u,
                ) && rest[j].path.len() + u <= length + t;
            assert(python_report::leads(packages, rest[j].name, to, u));
        }
    }
}

/// What a package that is visited leaves in the queue.
spec fn next_queue(packages: Seq<DistributionView>, queue: Seq<Need>) -> Seq<Need> {
    match python_report::package_named(packages, queue[0].name) {
        None => queue.drop_first(),
        Some(d) => queue.drop_first() + python_report::needs_of(d.required, queue[0].path),
    }
}

/// The needs of a package have paths, one step longer than its own.
proof fn lemma_next_paths(
    packages: Seq<DistributionView>,
    direct: Seq<Seq<char>>,
    queue: Seq<Need>,
)
    requires
        paths_hold(packages, direct, queue),
        in_layers(queue),
        queue.len() > 0,
    ensures
        paths_hold(packages, direct, next_queue(packages, queue)),
        in_layers(next_queue(packages, queue)),
        next_queue(packages, queue).len() > 0 ==> queue[0].path.len() <= next_queue(
            packages,
            queue,
        )[0].path.len(),
{
    let rest = queue.drop_first();
    let next = next_queue(packages, queue);
    let path = queue[0].path;
    assert forall|k: int| 0 <= k < next.len() implies is_path(
        packages,
        direct,
        (#[trigger] next[k]).path,
    ) && next[k].name == python_deps::normalized(next[k].path.last()) && path.len()
        <= next[k].path.len() <= path.len() + 1 && (k < rest.len() ==> next[k] == queue[k + 1])
        && (k >= rest.len() ==> next[k].path.len() == path.len() + 1) by {
        if k < rest.len() {
            assert(next[k] == queue[k + 1]);
        } else {
            let d = python_report::package_named(packages, queue[0].name)->0;
            let j = k - rest.len();
            let name = d.required[j];
            let longer = path.push(name);
            assert(next[k] == python_report::needs_of(d.required, path)[j]);
            assert(next[k].path == longer);
            assert(d.required.contains(name));
            assert(longer[0] == path[0]);
            assert forall|i: int| 0 <= i < longer.len() - 1 implies requires_next(
                packages,
                #[trigger] longer[i],
                longer[i + 1],
            ) by {
                if i < path.len() - 1 {
                    assert(requires_next(packages, path[i], path[i + 1]));
                } else {
                    assert(longer[i] == path.last());
                }
            }
        }
    }
    assert forall|j: int, k: int| 0 <= j <= k < next.len() implies (
    #[trigger] next[j]).path.len() <= (#[trigger] next[k]).path.len() <= next[j].path.len() + 1 by {
        if k < rest.len() {
            assert(next[j] == queue[j + 1] && next[k] == queue[k + 1]);
        }
    }
}

/// Visiting a package keeps what holds of the queue.
proof fn lemma_step(
    packages: Seq<DistributionView>,
    direct: Seq<Seq<char>>,
    queue: Seq<Need>,
    visited: Seq<Seq<char>>,
    length: nat,
)
    requires
        is_survey(packages, direct, queue, visited, length),
        queue.len() > 0,
        !visited.contains(queue[0].name),
    ensures
        is_survey(
            packages,
            direct,
            next_queue(packages, queue),
            visited.push(queue[0].name),
            queue[0].path.len(),
        ),
{
    let name = queue[0].name;
    let path = queue[0].path;
    let rest = queue.drop_first();
    let next = next_queue(packages, queue);
    let more = visited.push(name);
    let size = path.len();
    lemma_next_paths(packages, direct, queue);
    assert(more[visited.len() as int] == name);
    assert forall|x: Seq<char>| #[trigger] more.contains(x) == (visited.contains(x) || x
        == name) by {
        if visited.contains(x) {
            let i = choose|i: int| 0 <= i < visited.len() && visited[i] == x;
            assert(more[i] == x);
        }
    }
    assert forall|v: Seq<char>, i: int|
        more.contains(v) && python_report::package_named(packages, v) is Some && 0 <= i
            < python_report::package_named(packages, v)->0.required.len() implies more.contains(
        #[trigger] child(packages, v, i),
    ) || waits(next, child(packages, v, i), size + 1) by {
        let c = child(packages, v, i);
        if v == name {
            let d = python_report::package_named(packages, name)->0;
            let k = rest.len() + i;
            assert(next[k] == python_report::needs_of(d.required, path)[i]);
            assert(next[k].name == c && next[k].path.len() <= size + 1);
        } else if !more.contains(c) {
            assert(waits(queue, c, length + 1));
            let k = choose|k: int|
                0 <= k < queue.len() && (#[trigger] queue[k]).name == c && queue[k].path.len()
                    <= length + 1;
            assert(next[k - 1] == queue[k]);
        }
    }
    assert forall|i: int, to: Seq<char>, steps: nat|
        0 <= i < direct.len() && !more.contains(to) && #[trigger] python_report::leads(
            packages,
            python_deps::normalized(direct[i]),
            to,
            steps,
        ) implies within(packages, next, to, steps + 1) by {
        assert(within(packages, queue, to, steps + 1));
        let (k, t) = choose|k: int, t: nat|
            0 <= k < queue.len() && #[trigger] python_report::leads(packages, queue[k].name, to, t)
                && queue[k].path.len() + t <= steps + 1;
        if k > 0 {
            assert(next[k - 1] == queue[k]);
            assert(python_report::leads(packages, next[k - 1].name, to, t));
        } else {
            let d = python_report::package_named(packages, name)->0;
            let j = choose|j: int|
                0 <= j < d.required.len() && python_report::leads(
                    packages,
                    python_deps::normalized(#[trigger] d.required[j]),
                    to,
                    (t - 1) as nat,
                );
            let m = rest.len() + j;
            assert(next[m] == python_report::needs_of(d.required, path)[j]);
            assert(python_report::leads(packages, next[m].name, to, (t - 1) as nat));
        }
    }
}

/// No way to the first need is shorter than its path.
proof fn lemma_first_is_shortest(
    packages: Seq<DistributionView>,
    direct: Seq<Seq<char>>,
    queue: Seq<Need>,
    visited: Seq<Seq<char>>,
    length: nat,
)
    requires
        is_survey(packages, direct, queue, visited, length),
        queue.len() > 0,
        !visited.contains(queue[0].name),
    ensures
        is_shortest(packages, direct, queue[0].path),
{
    let path = queue[0].path;
    assert forall|i: int, steps: nat|
        0 <= i < direct.len() && #[trigger] python_report::leads(
            packages,
            python_deps::normalized(direct[i]),
            python_deps::normalized(path.last()),
            steps,
        ) implies path.len() <= steps + 1 by {
        assert(within(packages, queue, queue[0].name, steps + 1));
        let (k, t) = choose|k: int, t: nat|
            0 <= k < queue.len() && #[trigger] python_report::leads(
                packages,
                queue[k].name,
                queue[0].name,
                t,
            ) && queue[k].path.len() + t <= steps + 1;
        assert(queue[0].path.len() <= queue[k].path.len());
    }
}

/// Whether every finding is explained.
spec fn all_explained(
    packages: Seq<DistributionView>,
    direct: Seq<Seq<char>>,
    findings: Seq<FindingView>,
) -> bool {
    forall|i: int|
        0 <= i < findings.len() ==> is_explained(packages, direct, #[trigger] findings[i])
}

/// Every finding of a survey is explained.
proof fn lemma_survey_is_explained(
    packages: Seq<DistributionView>,
    direct: Seq<Seq<char>>,
    queue: Seq<Need>,
    visited: Seq<Seq<char>>,
    length: nat,
)
    requires
        is_survey(packages, direct, queue, visited, length),
    ensures
        all_explained(packages, direct, python_report::survey(packages, queue, visited)),
    decreases python_report::unvisited(packages, visited), queue.len(),
{
    if queue.len() > 0 {
        let need = queue[0];
        if visited.contains(need.name) {
            lemma_skip(packages, direct, queue, visited, length);
            lemma_survey_is_explained(packages, direct, queue.drop_first(), visited, length);
            assert(python_report::survey(packages, queue, visited) == python_report::survey(
                packages,
                queue.drop_first(),
                visited,
            ));
        } else {
            python_report::lemma_visit(packages, visited, need.name);
            lemma_step(packages, direct, queue, visited, length);
            lemma_first_is_shortest(packages, direct, queue, visited, length);
            let next = next_queue(packages, queue);
            let more = visited.push(need.name);
            lemma_survey_is_explained(packages, direct, next, more, need.path.len());
            let tail = python_report::survey(packages, next, more);
            let head = match python_report::package_named(packages, need.name) {
                None => seq![python_report::unresolved(need.name, need.path)],
                Some(d) => python_report::package_findings(d, need.path),
            };
            assert(python_report::survey(packages, queue, visited) == head + tail);
            assert forall|i: int| 0 <= i < (head + tail).len() implies is_explained(
                packages,
                direct,
                #[trigger] (head + tail)[i],
            ) by {
                if i >= head.len() {
                    assert((head + tail)[i] == tail[i - head.len()]);
                } else {
                    assert((head + tail)[i] == head[0]);
                    assert(head[0].dependency_path == need.path);
                }
            }
        }
    } else {
        assert(python_report::survey(packages, queue, visited) =~= Seq::<FindingView>::empty());
    }
}

/// Every finding on a package is explained: its path starts at a dependency that
/// the project declares, follows what installed packages require, ends at the
/// package, and no other way there is shorter.
pub proof fn findings_are_explained(p: ProjectView, i: int)
    requires
        0 <= i < python_report::python_report(p).findings.len(),
        python_report::python_report(p).findings[i].package is Some,
    ensures
        is_explained(
            p.packages,
            python_deps::direct_dependencies(p),
            python_report::python_report(p).findings[i],
        ),
{
    let direct = python_deps::direct_dependencies(p);
    let queue = python_report::first_needs(direct);
    let none = Seq::<Seq<char>>::empty();
    assert forall|k: int| 0 <= k < queue.len() implies is_path(
        p.packages,
        direct,
        (#[trigger] queue[k]).path,
    ) && queue[k].name == python_deps::normalized(queue[k].path.last()) && queue[k].path.len()
        == 1 by {
        assert(queue[k].path == seq![direct[k]]);
        assert(direct.contains(direct[k]));
    }
    assert forall|k: int, to: Seq<char>, steps: nat|
        0 <= k < direct.len() && !none.contains(to) && #[trigger] python_report::leads(
            p.packages,
            python_deps::normalized(direct[k]),
            to,
            steps,
        ) implies within(p.packages, queue, to, steps + 1) by {
        assert(python_report::leads(p.packages, queue[k].name, to, steps));
    }
    lemma_survey_is_explained(p.packages, direct, queue, none, 0);
    let found = python_report::survey(p.packages, queue, none);
    let hints = python_report::source_findings(p);
    let all = python_report::python_report(p).findings;
    assert(all == found + hints);
    if i >= found.len() {
        assert(all[i] == hints[i - found.len()]);
        lemma_hints_name_no_package(p, i - found.len());
    } else {
        assert(all[i] == found[i]);
    }
}

/// What is reported of imports names no package.
proof fn lemma_hints_name_no_package(p: ProjectView, i: int)
    requires
        0 <= i < python_report::source_findings(p).len(),
    ensures
        python_report::source_findings(p)[i].package is None,
{
    let a = python_report::outward_findings(p);
    let b = python_report::host_findings(p);
    assert(forall|k: int| 0 <= k < a.len() ==> (#[trigger] a[k]).package is None);
    assert(forall|k: int| 0 <= k < b.len() ==> (#[trigger] b[k]).package is None);
    if i < a.len() {
        assert((a + b)[i] == a[i]);
    } else {
        assert((a + b)[i] == b[i - a.len()]);
    }
}

} // verus!
