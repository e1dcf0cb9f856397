//! Which files of a project its build is identified by: those that the build reads,
//! wherever in the project they stand, and nothing that a build has written.

use crate::paths;
use crate::walk;
use crate::walk::{EntryKind, WalkPolicy, WalkView};
use vstd::prelude::*;

verus! {

/// The path that leads through the directories, from the root.
pub open spec fn path_through(dirs: Seq<Seq<char>>) -> Seq<char>
    decreases dirs.len(),
{
    if dirs.len() == 0 {
        Seq::empty()
    } else {
        paths::join_path(path_through(dirs.drop_last()), dirs.last())
    }
}

/// Whether the directories lead, one below the other, from the root to a file.
pub open spec fn leads_to(
    disk: spec_fn(Seq<char>) -> Seq<(Seq<char>, EntryKind)>,
    dirs: Seq<Seq<char>>,
    name: Seq<char>,
) -> bool {
    &&& forall|i: int|
        0 <= i < dirs.len() ==> disk(path_through(dirs.take(i))).contains(
            (#[trigger] dirs[i], EntryKind::Directory),
        )
    &&& disk(path_through(dirs)).contains((name, EntryKind::File))
}

/// A walk after so many listings.
pub open spec fn walked(
    policy: WalkPolicy,
    disk: spec_fn(Seq<char>) -> Seq<(Seq<char>, EntryKind)>,
    listings: nat,
) -> WalkView
    decreases listings,
{
    if listings == 0 {
        walk::walk_start(policy)
    } else {
        let w = walked(policy, disk, (listings - 1) as nat);
        walk::walk_step(w, disk(w.pending.last()))
    }
}

/// Whether a name ends with `ending` and has something before it.
pub open spec fn ends_in(name: Seq<char>, ending: Seq<char>) -> bool {
    ending.len() < name.len() && ending.is_suffix_of(name)
}

proof fn lemma_last_dot(name: Seq<char>, i: int)
    requires
        0 <= i < name.len(),
        name[i] == '.',
        forall|j: int| i < j < name.len() ==> name[j] != '.',
    ensures
        paths::last_dot(name) == i,
    decreases name.len(),
{
    if i < name.len() - 1 {
        assert(name.last() == name[name.len() - 1]);
        lemma_last_dot(name.drop_last(), i);
    }
}

proof fn lemma_last_dot_is(name: Seq<char>)
    ensures
        -1 <= paths::last_dot(name) < name.len(),
        paths::last_dot(name) >= 0 ==> name[paths::last_dot(name)] == '.',
    decreases name.len(),
{
    if name.len() > 0 && name.last() != '.' {
        lemma_last_dot_is(name.drop_last());
    }
}

/// The extension of a name is what follows its last dot, where something precedes it.
pub proof fn extensions_follow_the_dot(name: Seq<char>, wanted: Seq<char>)
    requires
        wanted.len() > 0,
        !wanted.contains('.'),
    ensures
        paths::extension(name) == Some(wanted) <==> ends_in(name, seq!['.'] + wanted),
{
    let ending = seq!['.'] + wanted;
    lemma_last_dot_is(name);
    if ends_in(name, ending) {
        let i = name.len() - ending.len();
        assert(name.skip(i) =~= ending);
        assert(name[i] == name.skip(i)[0]);
        assert forall|j: int| i < j < name.len() implies name[j] != '.' by {
            assert(name[j] == name.skip(i)[j - i]);
            assert(wanted.contains(wanted[j - i - 1]));
        }
        lemma_last_dot(name, i);
        assert(name.skip(i + 1) =~= name.skip(i).skip(1));
        assert(ending.skip(1) =~= wanted);
        if name == seq!['.', '.'] {
            assert(name[name.len() - 1] == '.');
            assert(wanted.contains(wanted[wanted.len() - 1]));
            assert(name[name.len() - 1] == wanted[wanted.len() - 1]);
        }
    }
    if paths::extension(name) == Some(wanted) {
        let i = paths::last_dot(name);
        assert(name.skip(i) =~= ending);
        assert(name.subrange(i, name.len() as int) =~= ending);
    }
}

proof fn lemma_entries(
    policy: WalkPolicy,
    dir: Seq<char>,
    listing: Seq<(Seq<char>, EntryKind)>,
    name: Seq<char>,
)
    ensures
        listing.contains((name, EntryKind::Directory)) && walk::enters(policy, name)
            ==> walk::entered(policy, dir, listing).contains(paths::join_path(dir, name)),
        listing.contains((name, EntryKind::File)) && walk::takes(policy, name) ==> walk::taken(
            policy,
            dir,
            listing,
        ).contains(paths::join_path(dir, name)),
    decreases listing.len(),
{
    if listing.len() > 0 {
        let before = listing.drop_last();
        lemma_entries(policy, dir, before, name);
        let path = paths::join_path(dir, name);
        let (dirs, more_dirs) = (
            walk::entered(policy, dir, before),
            walk::entered(policy, dir, listing),
        );
        let (files, more_files) = (
            walk::taken(policy, dir, before),
            walk::taken(policy, dir, listing),
        );
        if listing.contains((name, EntryKind::Directory)) && walk::enters(policy, name) {
            let k = choose|k: int|
                0 <= k < listing.len() && listing[k] == (name, EntryKind::Directory);
            if k < before.len() {
                assert(before[k] == listing[k]);
                let j = choose|j: int| 0 <= j < dirs.len() && dirs[j] == path;
                assert(more_dirs[j] == path);
            } else {
                assert(more_dirs.last() == path);
            }
        }
        if listing.contains((name, EntryKind::File)) && walk::takes(policy, name) {
            let k = choose|k: int| 0 <= k < listing.len() && listing[k] == (name, EntryKind::File);
            if k < before.len() {
                assert(before[k] == listing[k]);
                let j = choose|j: int| 0 <= j < files.len() && files[j] == path;
                assert(more_files[j] == path);
            } else {
                assert(more_files.last() == path);
            }
        }
    }
}

/// The directory of the listing that an entered path stands for.
proof fn lemma_entered_from(
    policy: WalkPolicy,
    dir: Seq<char>,
    listing: Seq<(Seq<char>, EntryKind)>,
    path: Seq<char>,
) -> (name: Seq<char>)
    requires
        walk::entered(policy, dir, listing).contains(path),
    ensures
        path == paths::join_path(dir, name),
        listing.contains((name, EntryKind::Directory)),
        walk::enters(policy, name),
    decreases listing.len(),
{
    let all = walk::entered(policy, dir, listing);
    let k = choose|k: int| 0 <= k < all.len() && all[k] == path;
    let before = listing.drop_last();
    let rest = walk::entered(policy, dir, before);
    assert(listing[listing.len() - 1] == listing.last());
    if k < rest.len() {
        assert(rest[k] == path);
        let name = lemma_entered_from(policy, dir, before, path);
        let j = choose|j: int| 0 <= j < before.len() && before[j] == (name, EntryKind::Directory);
        assert(listing[j] == (name, EntryKind::Directory));
        name
    } else {
        listing.last().0
    }
}

/// The file of the listing that a taken path stands for.
proof fn lemma_taken_from(
    policy: WalkPolicy,
    dir: Seq<char>,
    listing: Seq<(Seq<char>, EntryKind)>,
    path: Seq<char>,
) -> (name: Seq<char>)
    requires
        walk::taken(policy, dir, listing).contains(path),
    ensures
        path == paths::join_path(dir, name),
        listing.contains((name, EntryKind::File)),
        walk::takes(policy, name),
    decreases listing.len(),
{
    let all = walk::taken(policy, dir, listing);
    let k = choose|k: int| 0 <= k < all.len() && all[k] == path;
    let before = listing.drop_last();
    let rest = walk::taken(policy, dir, before);
    assert(listing[listing.len() - 1] == listing.last());
    if k < rest.len() {
        assert(rest[k] == path);
        let name = lemma_taken_from(policy, dir, before, path);
        let j = choose|j: int| 0 <= j < before.len() && before[j] == (name, EntryKind::File);
        assert(listing[j] == (name, EntryKind::File));
        name
    } else {
        listing.last().0
    }
}

proof fn lemma_on_the_way(
    policy: WalkPolicy,
    disk: spec_fn(Seq<char>) -> Seq<(Seq<char>, EntryKind)>,
    listings: nat,
)
    ensures
        walk::on_the_way(walked(policy, disk, listings), disk),
        walked(policy, disk, listings).policy == policy,
    decreases listings,
{
    if listings == 0 {
        walk::walk_starts_on_the_way(policy, disk);
    } else {
        lemma_on_the_way(policy, disk, (listings - 1) as nat);
        let w = walked(policy, disk, (listings - 1) as nat);
        if w.pending.len() > 0 {
            walk::walk_stays_on_the_way(w, disk);
        }
    }
}

proof fn lemma_reached_through(
    policy: WalkPolicy,
    disk: spec_fn(Seq<char>) -> Seq<(Seq<char>, EntryKind)>,
    dirs: Seq<Seq<char>>,
    name: Seq<char>,
    k: int,
)
    requires
        0 <= k <= dirs.len(),
        leads_to(disk, dirs, name),
        forall|i: int| 0 <= i < dirs.len() ==> walk::enters(policy, #[trigger] dirs[i]),
        walk::takes(policy, name),
    ensures
        walk::reachable(
            policy,
            disk,
            path_through(dirs.take(k)),
            paths::join_path(path_through(dirs), name),
        ),
    decreases dirs.len() - k,
{
    let file = paths::join_path(path_through(dirs), name);
    let dir = path_through(dirs.take(k));
    walk::lemma_reachable(policy, disk, dir, file);
    if k == dirs.len() {
        assert(dirs.take(k) =~= dirs);
        lemma_entries(policy, dir, disk(dir), name);
    } else {
        lemma_reached_through(policy, disk, dirs, name, k + 1);
        assert(dirs.take(k + 1).drop_last() =~= dirs.take(k));
        lemma_entries(policy, dir, disk(dir), dirs[k]);
        let below = walk::entered(policy, dir, disk(dir));
        let next = path_through(dirs.take(k + 1));
        assert(next == paths::join_path(dir, dirs[k]));
        let i = choose|i: int| 0 <= i < below.len() && below[i] == next;
        assert(walk::reachable(policy, disk, below[i], file));
    }
}

/// A file that stands where the walk goes, and that the walk takes, is found.
proof fn lemma_found(
    policy: WalkPolicy,
    disk: spec_fn(Seq<char>) -> Seq<(Seq<char>, EntryKind)>,
    listings: nat,
    dirs: Seq<Seq<char>>,
    name: Seq<char>,
)
    requires
        walked(policy, disk, listings).pending.len() == 0,
        leads_to(disk, dirs, name),
        forall|i: int| 0 <= i < dirs.len() ==> walk::enters(policy, #[trigger] dirs[i]),
        walk::takes(policy, name),
    ensures
        walked(policy, disk, listings).found.contains(paths::join_path(path_through(dirs), name)),
{
    lemma_on_the_way(policy, disk, listings);
    lemma_reached_through(policy, disk, dirs, name, 0);
    assert(dirs.take(0) =~= Seq::<Seq<char>>::empty());
    walk::walk_finds_what_is_reachable(
        walked(policy, disk, listings),
        disk,
        paths::join_path(path_through(dirs), name),
    );
}

proof fn lemma_way_to(
    policy: WalkPolicy,
    disk: spec_fn(Seq<char>) -> Seq<(Seq<char>, EntryKind)>,
    dirs: Seq<Seq<char>>,
    file: Seq<char>,
    depth: nat,
) -> (r: (Seq<Seq<char>>, Seq<char>))
    requires
        walk::visible(policy, disk, path_through(dirs), file, depth),
        forall|i: int| 0 <= i < dirs.len() ==> walk::enters(policy, #[trigger] dirs[i]),
        forall|i: int|
            0 <= i < dirs.len() ==> disk(path_through(dirs.take(i))).contains(
                (#[trigger] dirs[i], EntryKind::Directory),
            ),
    ensures
        leads_to(disk, r.0, r.1),
        file == paths::join_path(path_through(r.0), r.1),
        forall|i: int| 0 <= i < r.0.len() ==> walk::enters(policy, #[trigger] r.0[i]),
        walk::takes(policy, r.1),
    decreases depth,
{
    let dir = path_through(dirs);
    if walk::taken(policy, dir, disk(dir)).contains(file) {
        (dirs, lemma_taken_from(policy, dir, disk(dir), file))
    } else {
        let below = walk::entered(policy, dir, disk(dir));
        let i = choose|i: int|
            0 <= i < below.len() && walk::visible(
                policy,
                disk,
                #[trigger] below[i],
                file,
                (depth - 1) as nat,
            );
        let name = lemma_entered_from(policy, dir, disk(dir), below[i]);
        let more = dirs.push(name);
        assert(more.drop_last() =~= dirs);
        assert forall|j: int| 0 <= j < more.len() implies disk(
            path_through(more.take(j)),
        ).contains((#[trigger] more[j], EntryKind::Directory)) by {
            if j < dirs.len() {
                assert(more.take(j) =~= dirs.take(j));
                assert(more[j] == dirs[j]);
            } else {
                assert(more.take(j) =~= dirs);
            }
        }
        assert forall|j: int| 0 <= j < more.len() implies walk::enters(
            policy,
            #[trigger] more[j],
        ) by {
            if j < dirs.len() {
                assert(more[j] == dirs[j]);
            }
        }
        lemma_way_to(policy, disk, more, file, (depth - 1) as nat)
    }
}

/// A file that a walk finds stands where the walk goes.
proof fn lemma_found_from(
    policy: WalkPolicy,
    disk: spec_fn(Seq<char>) -> Seq<(Seq<char>, EntryKind)>,
    listings: nat,
    file: Seq<char>,
) -> (r: (Seq<Seq<char>>, Seq<char>))
    requires
        walked(policy, disk, listings).found.contains(file),
    ensures
        leads_to(disk, r.0, r.1),
        file == paths::join_path(path_through(r.0), r.1),
        forall|i: int| 0 <= i < r.0.len() ==> walk::enters(policy, #[trigger] r.0[i]),
        walk::takes(policy, r.1),
{
    lemma_on_the_way(policy, disk, listings);
    let none = Seq::<Seq<char>>::empty();
    assert(walk::reachable(policy, disk, Seq::empty(), file));
    let depth = choose|depth: nat| walk::visible(policy, disk, Seq::empty(), file, depth);
    assert(path_through(none) =~= Seq::<char>::empty());
    lemma_way_to(policy, disk, none, file, depth)
}

/// The names of directories that hold no source of any kind.
pub open spec fn is_set_apart(name: Seq<char>) -> bool {
    name == ".git"@ || name == ".pit"@
}

/// Whether a Python build reads the file.
pub open spec fn is_python_input(name: Seq<char>) -> bool {
    ends_in(name, ".py"@) || ends_in(name, ".wit"@) || ends_in(name, ".toml"@)
}

/// Whether a Go build reads the file. The exports are generated.
pub open spec fn is_go_input(name: Seq<char>) -> bool {
    name != "wit_exports.go"@ && (ends_in(name, ".go"@) || ends_in(name, ".wit"@) || name
        == "go.mod"@ || name == "go.sum"@ || name == "componentize-go.toml"@)
}

/// Whether a JavaScript or TypeScript build reads the file.
pub open spec fn is_js_input(name: Seq<char>) -> bool {
    name == "main.js"@ || name == "main.ts"@ || name == "package.json"@ || name
        == "package-lock.json"@ || name == "pnpm-lock.yaml"@ || ends_in(name, ".wit"@)
}

/// Whether none of the directories is set apart, or named `a` or `b`.
pub open spec fn avoids(dirs: Seq<Seq<char>>, a: Seq<char>, b: Seq<char>) -> bool {
    forall|i: int|
        0 <= i < dirs.len() ==> !is_set_apart(#[trigger] dirs[i]) && dirs[i] != a && dirs[i] != b
}

proof fn lemma_dots(name: Seq<char>)
    ensures
        paths::extension(name) == Some("py"@) <==> ends_in(name, ".py"@),
        paths::extension(name) == Some("wit"@) <==> ends_in(name, ".wit"@),
        paths::extension(name) == Some("toml"@) <==> ends_in(name, ".toml"@),
        paths::extension(name) == Some("go"@) <==> ends_in(name, ".go"@),
{
    reveal_strlit("py");
    reveal_strlit(".py");
    reveal_strlit("wit");
    reveal_strlit(".wit");
    reveal_strlit("toml");
    reveal_strlit(".toml");
    reveal_strlit("go");
    reveal_strlit(".go");
    assert(seq!['.'] + "py"@ =~= ".py"@);
    assert(seq!['.'] + "wit"@ =~= ".wit"@);
    assert(seq!['.'] + "toml"@ =~= ".toml"@);
    assert(seq!['.'] + "go"@ =~= ".go"@);
    extensions_follow_the_dot(name, "py"@);
    extensions_follow_the_dot(name, "wit"@);
    extensions_follow_the_dot(name, "toml"@);
    extensions_follow_the_dot(name, "go"@);
}

/// Every Python source, WIT file and TOML file of a project is found, wherever it
/// stands but in version control, in what a build has written, in a cache or in an
/// environment; and nothing else is.
pub proof fn python_walks_find_the_sources(
    disk: spec_fn(Seq<char>) -> Seq<(Seq<char>, EntryKind)>,
    listings: nat,
    file: Seq<char>,
)
    requires
        walked(WalkPolicy::Python, disk, listings).pending.len() == 0,
    ensures
        walked(WalkPolicy::Python, disk, listings).found.contains(file) <==> exists|
            dirs: Seq<Seq<char>>,
            name: Seq<char>,
        |
            #[trigger] leads_to(disk, dirs, name) && avoids(dirs, "__pycache__"@, "venv"@)
                && is_python_input(name) && file == paths::join_path(path_through(dirs), name),
{
    let found = walked(WalkPolicy::Python, disk, listings).found;
    if found.contains(file) {
        let (dirs, name) = lemma_found_from(WalkPolicy::Python, disk, listings, file);
        lemma_dots(name);
        assert(leads_to(disk, dirs, name));
    }
    assert forall|dirs: Seq<Seq<char>>, name: Seq<char>|
        #[trigger] leads_to(disk, dirs, name) && avoids(dirs, "__pycache__"@, "venv"@)
            && is_python_input(name) && file == paths::join_path(
            path_through(dirs),
            name,
        ) implies found.contains(file) by {
        lemma_dots(name);
        lemma_found(WalkPolicy::Python, disk, listings, dirs, name);
    }
}

/// Every Go source, WIT file and module file of a project is found, wherever it
/// stands but in version control, in what a build has written, in vendored packages
/// or in generated bindings; and nothing else is.
pub proof fn go_walks_find_the_sources(
    disk: spec_fn(Seq<char>) -> Seq<(Seq<char>, EntryKind)>,
    listings: nat,
    file: Seq<char>,
)
    requires
        walked(WalkPolicy::Go, disk, listings).pending.len() == 0,
    ensures
        walked(WalkPolicy::Go, disk, listings).found.contains(file) <==> exists|
            dirs: Seq<Seq<char>>,
            name: Seq<char>,
        |
            #[trigger] leads_to(disk, dirs, name) && avoids(dirs, "target"@, "vendor"@) && (forall|
                i: int,
            |
                0 <= i < dirs.len() ==> !"wasi_"@.is_prefix_of(#[trigger] dirs[i]))
                && is_go_input(name) && file == paths::join_path(path_through(dirs), name),
{
    let found = walked(WalkPolicy::Go, disk, listings).found;
    if found.contains(file) {
        let (dirs, name) = lemma_found_from(WalkPolicy::Go, disk, listings, file);
        lemma_dots(name);
        assert(leads_to(disk, dirs, name));
    }
    assert forall|dirs: Seq<Seq<char>>, name: Seq<char>|
        #[trigger] leads_to(disk, dirs, name) && avoids(dirs, "target"@, "vendor"@) && (forall|
            i: int,
        |
            0 <= i < dirs.len() ==> !"wasi_"@.is_prefix_of(#[trigger] dirs[i])) && is_go_input(name)
            && file == paths::join_path(path_through(dirs), name) implies found.contains(
        file,
    ) by {
        lemma_dots(name);
        lemma_found(WalkPolicy::Go, disk, listings, dirs, name);
    }
}

/// Every main file, package file and WIT file of a JavaScript or TypeScript project is
/// found, wherever it stands but in version control, in what a build has written or in
/// installed packages; and nothing else is.
pub proof fn js_walks_find_the_sources(
    disk: spec_fn(Seq<char>) -> Seq<(Seq<char>, EntryKind)>,
    listings: nat,
    file: Seq<char>,
)
    requires
        walked(WalkPolicy::JavaScript, disk, listings).pending.len() == 0,
    ensures
        walked(WalkPolicy::JavaScript, disk, listings).found.contains(file) <==> exists|
            dirs: Seq<Seq<char>>,
            name: Seq<char>,
        |
            #[trigger] leads_to(disk, dirs, name) && avoids(dirs, "node_modules"@, "target"@)
                && is_js_input(name) && file == paths::join_path(path_through(dirs), name),
{
    let found = walked(WalkPolicy::JavaScript, disk, listings).found;
    if found.contains(file) {
        let (dirs, name) = lemma_found_from(WalkPolicy::JavaScript, disk, listings, file);
        lemma_dots(name);
        assert(leads_to(disk, dirs, name));
    }
    assert forall|dirs: Seq<Seq<char>>, name: Seq<char>|
        #[trigger] leads_to(disk, dirs, name) && avoids(dirs, "node_modules"@, "target"@)
            && is_js_input(name) && file == paths::join_path(
            path_through(dirs),
            name,
        ) implies found.contains(file) by {
        lemma_dots(name);
        lemma_found(WalkPolicy::JavaScript, disk, listings, dirs, name);
    }
}

/// Every file of a project is inspected, wherever it stands but in version control, in
/// what a build has written, in installed packages or in an environment.
pub proof fn project_walks_find_the_files(
    disk: spec_fn(Seq<char>) -> Seq<(Seq<char>, EntryKind)>,
    listings: nat,
    file: Seq<char>,
)
    requires
        walked(WalkPolicy::Project, disk, listings).pending.len() == 0,
    ensures
        walked(WalkPolicy::Project, disk, listings).found.contains(file) <==> exists|
            dirs: Seq<Seq<char>>,
            name: Seq<char>,
        |
            #[trigger] leads_to(disk, dirs, name) && avoids(dirs, "target"@, "node_modules"@)
                && !dirs.contains("venv"@) && file == paths::join_path(path_through(dirs), name),
{
    let found = walked(WalkPolicy::Project, disk, listings).found;
    if found.contains(file) {
        let (dirs, name) = lemma_found_from(WalkPolicy::Project, disk, listings, file);
        assert(leads_to(disk, dirs, name));
    }
    assert forall|dirs: Seq<Seq<char>>, name: Seq<char>|
        #[trigger] leads_to(disk, dirs, name) && avoids(dirs, "target"@, "node_modules"@)
            && !dirs.contains("venv"@) && file == paths::join_path(
            path_through(dirs),
            name,
        ) implies found.contains(file) by {
        lemma_found(WalkPolicy::Project, disk, listings, dirs, name);
    }
}

/// A walk that takes everything finds every file.
pub proof fn full_walks_find_every_file(
    disk: spec_fn(Seq<char>) -> Seq<(Seq<char>, EntryKind)>,
    listings: nat,
    file: Seq<char>,
)
    requires
        walked(WalkPolicy::Everything, disk, listings).pending.len() == 0,
    ensures
        walked(WalkPolicy::Everything, disk, listings).found.contains(file) <==> exists|
            dirs: Seq<Seq<char>>,
            name: Seq<char>,
        |
            #[trigger] leads_to(disk, dirs, name) && file == paths::join_path(
                path_through(dirs),
                name,
            ),
{
    let found = walked(WalkPolicy::Everything, disk, listings).found;
    if found.contains(file) {
        let (dirs, name) = lemma_found_from(WalkPolicy::Everything, disk, listings, file);
        assert(leads_to(disk, dirs, name));
    }
    assert forall|dirs: Seq<Seq<char>>, name: Seq<char>|
        #[trigger] leads_to(disk, dirs, name) && file == paths::join_path(
            path_through(dirs),
            name,
        ) implies found.contains(file) by {
        lemma_found(WalkPolicy::Everything, disk, listings, dirs, name);
    }
}

} // verus!
