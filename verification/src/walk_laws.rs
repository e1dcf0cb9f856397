//! That a walk through directories finds no file twice.

use crate::ordering;
use crate::paths;
use crate::project::ProjectView;
use crate::walk;
use crate::walk::{EntryKind, WalkPolicy, WalkView};
use vstd::prelude::*;

verus! {

/// Whether a text is the name of an entry.
pub open spec fn is_name(name: Seq<char>) -> bool {
    name.len() > 0 && !name.contains('/')
}

/// Whether a listing is one of a directory: every entry has a name, and no two have one.
pub open spec fn is_proper(listing: Seq<(Seq<char>, EntryKind)>) -> bool {
    &&& forall|i: int| 0 <= i < listing.len() ==> is_name((#[trigger] listing[i]).0)
    &&& forall|i: int, j: int|
        0 <= i < j < listing.len() ==> (#[trigger] listing[i]).0 != (#[trigger] listing[j]).0
}

/// Whether `path` is `dir` or stands below it.
pub open spec fn is_below(path: Seq<char>, dir: Seq<char>) -> bool {
    dir.len() == 0 || path == dir || (dir.len() < path.len() && dir.is_prefix_of(path)
        && path[dir.len() as int] == '/')
}

/// Whether the directories that a walk has still to list, and the files that it has
/// found, stand apart: nothing is there twice, and nothing is below a directory that
/// is still to list.
pub open spec fn stands_apart(w: WalkView) -> bool {
    &&& w.found.no_duplicates()
    &&& forall|i: int, j: int|
        0 <= i < w.pending.len() && 0 <= j < w.pending.len() && i != j ==> !is_below(
            #[trigger] w.pending[i],
            #[trigger] w.pending[j],
        )
    &&& forall|i: int, j: int|
        0 <= i < w.found.len() && 0 <= j < w.pending.len() ==> !is_below(
            #[trigger] w.found[i],
            #[trigger] w.pending[j],
        )
    &&& forall|i: int|
        0 <= i < w.pending.len() ==> (#[trigger] w.pending[i]).len() == 0
            || w.pending[i].last() != '/'
}

/// The entry `name` of the directory `dir`.
spec fn entry_of(dir: Seq<char>, name: Seq<char>) -> Seq<char> {
    if dir.len() == 0 {
        name
    } else {
        dir.push('/') + name
    }
}

proof fn lemma_entry(dir: Seq<char>, name: Seq<char>)
    requires
        is_name(name),
        dir.len() == 0 || dir.last() != '/',
    ensures
        paths::join_path(dir, name) == entry_of(dir, name),
        is_below(entry_of(dir, name), dir),
        entry_of(dir, name) != dir,
        entry_of(dir, name).len() > 0,
        entry_of(dir, name).last() != '/',
{
    let e = entry_of(dir, name);
    if paths::is_absolute(name) {
        assert(name[0] == '/');
        assert(name.contains('/'));
    }
    assert(e.last() == name.last());
    assert(name.contains(name.last()));
    if dir.len() > 0 {
        assert(dir.is_prefix_of(e)) by {
            assert(e.subrange(0, dir.len() as int) =~= dir);
        }
        assert(e[dir.len() as int] == '/');
    }
}

/// What an entry stands below is the entry itself or what its directory stands below.
proof fn lemma_above_entry(dir: Seq<char>, name: Seq<char>, above: Seq<char>)
    requires
        is_name(name),
        is_below(entry_of(dir, name), above),
    ensures
        entry_of(dir, name) == above || is_below(dir, above),
{
    let e = entry_of(dir, name);
    if above.len() > 0 && e != above {
        let n = above.len() as int;
        assert(e[n] == '/');
        if dir.len() == 0 {
            assert(name.contains(name[n]));
        } else if n < dir.len() {
            assert(e[n] == dir[n]);
            assert(above =~= dir.subrange(0, n)) by {
                assert(above =~= e.subrange(0, n));
                assert(e.subrange(0, n) =~= dir.subrange(0, n));
            }
            assert(above.is_prefix_of(dir));
        } else if n == dir.len() {
            assert(above =~= dir) by {
                assert(above =~= e.subrange(0, n));
                assert(e.subrange(0, n) =~= dir);
            }
        } else {
            assert(e[n] == name[n - dir.len() - 1]);
            assert(name.contains(name[n - dir.len() - 1]));
        }
    }
}

/// What stands below an entry stands below its directory.
proof fn lemma_below_entry(dir: Seq<char>, name: Seq<char>, path: Seq<char>)
    requires
        is_name(name),
        is_below(path, entry_of(dir, name)),
    ensures
        is_below(path, dir),
{
    let e = entry_of(dir, name);
    if dir.len() > 0 {
        assert(e.subrange(0, dir.len() as int) =~= dir);
        assert(e[dir.len() as int] == '/');
        if path != e {
            assert(e =~= path.subrange(0, e.len() as int));
            assert(path[dir.len() as int] == e[dir.len() as int]);
            assert(path.subrange(0, dir.len() as int) =~= e.subrange(0, dir.len() as int));
        }
        assert(dir.is_prefix_of(path));
    }
}

/// Different entries of a directory stand apart.
proof fn lemma_entries_apart(dir: Seq<char>, a: Seq<char>, b: Seq<char>)
    requires
        is_name(a),
        is_name(b),
        a != b,
    ensures
        !is_below(entry_of(dir, a), entry_of(dir, b)),
        entry_of(dir, a) != entry_of(dir, b),
{
    let x = entry_of(dir, a);
    let y = entry_of(dir, b);
    let n: int = if dir.len() == 0 {
        0
    } else {
        dir.len() + 1int
    };
    assert(x.skip(n) =~= a);
    assert(y.skip(n) =~= b);
    if is_below(x, y) && x != y {
        let k = y.len() as int;
        assert(x[k] == a[k - n]);
        assert(a.contains(a[k - n]));
    }
}

/// Whether `list` holds entries of a listing of one kind, each once.
spec fn are_entries(
    list: Seq<Seq<char>>,
    dir: Seq<char>,
    listing: Seq<(Seq<char>, EntryKind)>,
    kind: EntryKind,
) -> bool {
    &&& forall|i: int| 0 <= i < list.len() ==> has_entry(#[trigger] list[i], dir, listing, kind)
    &&& list.no_duplicates()
}

/// Whether `path` is an entry of a listing of that kind.
spec fn has_entry(
    path: Seq<char>,
    dir: Seq<char>,
    listing: Seq<(Seq<char>, EntryKind)>,
    kind: EntryKind,
) -> bool {
    exists|k: int|
        0 <= k < listing.len() && (#[trigger] listing[k]).1 == kind && path == entry_of(
            dir,
            listing[k].0,
        )
}

proof fn lemma_entries_grow(
    list: Seq<Seq<char>>,
    dir: Seq<char>,
    listing: Seq<(Seq<char>, EntryKind)>,
    kind: EntryKind,
)
    requires
        is_proper(listing),
        listing.len() > 0,
        are_entries(list, dir, listing.drop_last(), kind),
    ensures
        are_entries(list, dir, listing, kind),
        listing.last().1 == kind ==> are_entries(
            list.push(entry_of(dir, listing.last().0)),
            dir,
            listing,
            kind,
        ),
{
    let before = listing.drop_last();
    let e = entry_of(dir, listing.last().0);
    let more = list.push(e);
    assert forall|i: int| 0 <= i < list.len() implies has_entry(
        #[trigger] list[i],
        dir,
        listing,
        kind,
    ) && list[i] != e by {
        let k = choose|k: int|
            0 <= k < before.len() && (#[trigger] before[k]).1 == kind && list[i] == entry_of(
                dir,
                before[k].0,
            );
        assert(listing[k] == before[k]);
        assert(listing[k].0 != listing[listing.len() - 1].0);
        lemma_entries_apart(dir, listing[k].0, listing.last().0);
    }
    if listing.last().1 == kind {
        assert(listing[listing.len() - 1].1 == kind);
        assert(has_entry(e, dir, listing, kind));
        assert forall|i: int| 0 <= i < more.len() implies has_entry(
            #[trigger] more[i],
            dir,
            listing,
            kind,
        ) by {
            if i < list.len() {
                assert(more[i] == list[i]);
            }
        }
    }
}

proof fn lemma_entered(
    policy: WalkPolicy,
    dir: Seq<char>,
    listing: Seq<(Seq<char>, EntryKind)>,
)
    requires
        is_proper(listing),
        dir.len() == 0 || dir.last() != '/',
    ensures
        are_entries(walk::entered(policy, dir, listing), dir, listing, EntryKind::Directory),
        are_entries(walk::taken(policy, dir, listing), dir, listing, EntryKind::File),
    decreases listing.len(),
{
    if listing.len() > 0 {
        let before = listing.drop_last();
        assert forall|i: int| 0 <= i < before.len() implies #[trigger] before[i] == listing[i] by {}
        assert(is_proper(before));
        lemma_entered(policy, dir, before);
        assert(listing[listing.len() - 1] == listing.last());
        lemma_entry(dir, listing.last().0);
        lemma_entries_grow(
            walk::entered(policy, dir, before),
            dir,
            listing,
            EntryKind::Directory,
        );
        lemma_entries_grow(walk::taken(policy, dir, before), dir, listing, EntryKind::File);
    }
}

/// A walk that starts stands apart.
pub proof fn walk_starts_apart(policy: WalkPolicy)
    ensures
        stands_apart(walk::walk_start(policy)),
{
}

/// A walk that is given listings of directories keeps standing apart: it lists no
/// directory and finds no file twice.
pub proof fn walk_stays_apart(w: WalkView, listing: Seq<(Seq<char>, EntryKind)>)
    requires
        stands_apart(w),
        is_proper(listing),
    ensures
        stands_apart(walk::walk_step(w, listing)),
{
    if w.pending.len() > 0 {
        let dir = w.pending.last();
        let dirs = walk::entered(w.policy, dir, listing);
        let files = walk::taken(w.policy, dir, listing);
        let next = walk::walk_step(w, listing);
        let n = w.pending.len() - 1;
        let m = w.found.len();
        assert(w.pending[n] == dir);
        lemma_entered(w.policy, dir, listing);
        assert forall|i: int| 0 <= i < next.pending.len() implies (i < n ==> #[trigger] next.pending[i]
            == w.pending[i]) && (i >= n ==> next.pending[i] == dirs[i - n]) by {}
        assert forall|i: int| 0 <= i < next.found.len() implies (i < m ==> #[trigger] next.found[i]
            == w.found[i]) && (i >= m ==> next.found[i] == files[i - m]) by {}
        assert forall|i: int, j: int|
            0 <= i < next.pending.len() && 0 <= j < next.pending.len() && i != j implies !is_below(
            #[trigger] next.pending[i],
            #[trigger] next.pending[j],
        ) by {
            lemma_pair(w, listing, next.pending[i], next.pending[j], i, j);
        }
        assert forall|i: int, j: int|
            0 <= i < next.found.len() && 0 <= j < next.pending.len() implies !is_below(
            #[trigger] next.found[i],
            #[trigger] next.pending[j],
        ) by {
            lemma_found_pair(w, listing, i, j);
        }
        assert forall|i: int, j: int|
            0 <= i < next.found.len() && 0 <= j < next.found.len() && i != j implies next.found[i]
            != next.found[j] by {
            if i < m && j >= m {
                lemma_new_file_is_new(w, listing, i, j - m);
            } else if j < m && i >= m {
                lemma_new_file_is_new(w, listing, j, i - m);
            }
        }
        assert forall|i: int| 0 <= i < next.pending.len() implies (
        #[trigger] next.pending[i]).len() == 0 || next.pending[i].last() != '/' by {
            if i >= n {
                assert(has_entry(dirs[i - n], dir, listing, EntryKind::Directory));
                let k = choose|k: int|
                    0 <= k < listing.len() && (#[trigger] listing[k]).1 == EntryKind::Directory
                        && dirs[i - n] == entry_of(dir, listing[k].0);
                lemma_entry(dir, listing[k].0);
            }
        }
    }
}

/// A file of the listing was not found before.
proof fn lemma_new_file_is_new(
    w: WalkView,
    listing: Seq<(Seq<char>, EntryKind)>,
    i: int,
    j: int,
)
    requires
        stands_apart(w),
        is_proper(listing),
        w.pending.len() > 0,
        0 <= i < w.found.len(),
        0 <= j < walk::taken(w.policy, w.pending.last(), listing).len(),
    ensures
        w.found[i] != walk::taken(w.policy, w.pending.last(), listing)[j],
{
    let dir = w.pending.last();
    let files = walk::taken(w.policy, dir, listing);
    assert(w.pending[w.pending.len() - 1] == dir);
    lemma_entered(w.policy, dir, listing);
    assert(has_entry(files[j], dir, listing, EntryKind::File));
    let k = choose|k: int|
        0 <= k < listing.len() && (#[trigger] listing[k]).1 == EntryKind::File && files[j]
            == entry_of(dir, listing[k].0);
    lemma_entry(dir, listing[k].0);
    assert(!is_below(w.found[i], w.pending[w.pending.len() - 1]));
}

/// An entry of the listing stands apart from the directories that were to be listed
/// besides.
proof fn lemma_entry_and_pending(
    w: WalkView,
    name: Seq<char>,
    j: int,
)
    requires
        stands_apart(w),
        is_name(name),
        0 <= j < w.pending.len() - 1,
    ensures
        !is_below(entry_of(w.pending.last(), name), w.pending[j]),
        !is_below(w.pending[j], entry_of(w.pending.last(), name)),
{
    let dir = w.pending.last();
    let n = w.pending.len() - 1;
    assert(w.pending[n] == dir);
    let e = entry_of(dir, name);
    lemma_entry(dir, name);
    assert(!is_below(w.pending[n], w.pending[j]));
    assert(!is_below(w.pending[j], w.pending[n]));
    if is_below(e, w.pending[j]) {
        lemma_above_entry(dir, name, w.pending[j]);
    }
    if is_below(w.pending[j], e) {
        lemma_below_entry(dir, name, w.pending[j]);
    }
}

proof fn lemma_pair(
    w: WalkView,
    listing: Seq<(Seq<char>, EntryKind)>,
    x: Seq<char>,
    y: Seq<char>,
    i: int,
    j: int,
)
    requires
        stands_apart(w),
        is_proper(listing),
        w.pending.len() > 0,
        0 <= i < walk::walk_step(w, listing).pending.len(),
        0 <= j < walk::walk_step(w, listing).pending.len(),
        i != j,
        x == walk::walk_step(w, listing).pending[i],
        y == walk::walk_step(w, listing).pending[j],
    ensures
        !is_below(x, y),
{
    let dir = w.pending.last();
    let dirs = walk::entered(w.policy, dir, listing);
    let n = w.pending.len() - 1;
    assert(w.pending[n] == dir);
    lemma_entered(w.policy, dir, listing);
    if i >= n {
        assert(x == dirs[i - n]);
        assert(has_entry(dirs[i - n], dir, listing, EntryKind::Directory));
    } else {
        assert(x == w.pending[i]);
    }
    if j >= n {
        assert(y == dirs[j - n]);
        assert(has_entry(dirs[j - n], dir, listing, EntryKind::Directory));
    } else {
        assert(y == w.pending[j]);
    }
    if i >= n {
        let a = choose|k: int|
            0 <= k < listing.len() && (#[trigger] listing[k]).1 == EntryKind::Directory && x
                == entry_of(dir, listing[k].0);
        if j >= n {
            let b = choose|k: int|
                0 <= k < listing.len() && (#[trigger] listing[k]).1 == EntryKind::Directory && y
                    == entry_of(dir, listing[k].0);
            assert(x != y);
            assert(listing[a].0 != listing[b].0);
            lemma_entries_apart(dir, listing[a].0, listing[b].0);
        } else {
            lemma_entry_and_pending(w, listing[a].0, j);
        }
    } else if j >= n {
        let b = choose|k: int|
            0 <= k < listing.len() && (#[trigger] listing[k]).1 == EntryKind::Directory && y
                == entry_of(dir, listing[k].0);
        lemma_entry_and_pending(w, listing[b].0, i);
    }
}

proof fn lemma_found_pair(
    w: WalkView,
    listing: Seq<(Seq<char>, EntryKind)>,
    i: int,
    j: int,
)
    requires
        stands_apart(w),
        is_proper(listing),
        w.pending.len() > 0,
        0 <= i < walk::walk_step(w, listing).found.len(),
        0 <= j < walk::walk_step(w, listing).pending.len(),
    ensures
        !is_below(walk::walk_step(w, listing).found[i], walk::walk_step(w, listing).pending[j]),
{
    let dir = w.pending.last();
    let dirs = walk::entered(w.policy, dir, listing);
    let files = walk::taken(w.policy, dir, listing);
    let n = w.pending.len() - 1;
    let m = w.found.len();
    let next = walk::walk_step(w, listing);
    assert(w.pending[n] == dir);
    lemma_entered(w.policy, dir, listing);
    if i >= m {
        assert(next.found[i] == files[i - m]);
        assert(has_entry(files[i - m], dir, listing, EntryKind::File));
        let a = choose|k: int|
            0 <= k < listing.len() && (#[trigger] listing[k]).1 == EntryKind::File && files[i - m]
                == entry_of(dir, listing[k].0);
        if j >= n {
            assert(next.pending[j] == dirs[j - n]);
            assert(has_entry(dirs[j - n], dir, listing, EntryKind::Directory));
            let b = choose|k: int|
                0 <= k < listing.len() && (#[trigger] listing[k]).1 == EntryKind::Directory
                    && dirs[j - n] == entry_of(dir, listing[k].0);
            assert(a != b);
            assert(listing[a].0 != listing[b].0);
            lemma_entries_apart(dir, listing[a].0, listing[b].0);
        } else {
            assert(next.pending[j] == w.pending[j]);
            lemma_entry_and_pending(w, listing[a].0, j);
        }
    } else {
        assert(next.found[i] == w.found[i]);
        if j >= n {
            assert(next.pending[j] == dirs[j - n]);
            assert(has_entry(dirs[j - n], dir, listing, EntryKind::Directory));
            let b = choose|k: int|
                0 <= k < listing.len() && (#[trigger] listing[k]).1 == EntryKind::Directory
                    && dirs[j - n] == entry_of(dir, listing[k].0);
            assert(!is_below(w.found[i], w.pending[n]));
            if is_below(w.found[i], dirs[j - n]) {
                lemma_below_entry(dir, listing[b].0, w.found[i]);
            }
        } else {
            assert(next.pending[j] == w.pending[j]);
        }
    }
}

/// A project that was discovered through listings of directories has no file twice.
pub proof fn projects_have_each_file_once(w: WalkView, p: ProjectView)
    requires
        stands_apart(w),
        p.files == paths::sorted_paths(w.found),
    ensures
        p.files.no_duplicates(),
{
    broadcast use vstd::seq_lib::group_to_multiset_ensures;

    let key = |f: Seq<char>| paths::path_key(f);
    ordering::stable_sort_sorts(w.found, key);
    w.found.lemma_multiset_has_no_duplicates();
    assert forall|i: int, j: int|
        0 <= i < p.files.len() && 0 <= j < p.files.len() && i != j implies p.files[i]
        != p.files[j] by {
        if p.files[i] == p.files[j] {
            if i < j {
                lemma_counted_twice(p.files, i, j);
            } else {
                lemma_counted_twice(p.files, j, i);
            }
            assert(w.found.to_multiset().count(p.files[i]) >= 2);
        }
    }
}

proof fn lemma_counted_twice(s: Seq<Seq<char>>, j: int, k: int)
    requires
        0 <= j < k < s.len(),
        s[j] == s[k],
    ensures
        s.to_multiset().count(s[j]) >= 2,
{
    broadcast use vstd::seq_lib::group_to_multiset_ensures;

    let t = s.remove(j);
    assert(t[k - 1] == s[k]);
    assert(t.contains(s[j]));
    assert(t.to_multiset().count(s[j]) >= 1);
    assert(t.to_multiset() =~= s.to_multiset().remove(s[j]));
    assert(s.contains(s[j]));
}

} // verus!
