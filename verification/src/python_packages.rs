//! The Python packages installed for a project: where they are looked for, what
//! their metadata says, and whether they hold native extensions.

use crate::paths;
use crate::paths::{file_name_of, parent_of, path_has_extension, path_join};
use crate::project::{DistributionView, PythonDistribution};
use crate::python_deps;
use crate::python_deps::{normalize_distribution_name, strip_constraint};
use crate::text;
use crate::text::{
    blank, chars_of, contains, ends_with, lines, replace, split_first, strip_prefix, text_eq,
    text_of, trim,
};
use crate::walk::{DirectoryListing, EntryKind};
use vstd::prelude::*;

verus! {

/// The directories below which installed packages are looked for: environments
/// inside the project first, so that none has to be activated.
pub open spec fn environment_roots(
    project_root: Seq<char>,
    virtual_env: Option<Seq<char>>,
    site_packages: Option<Seq<char>>,
) -> Seq<Seq<char>> {
    seq![
        paths::join_path(paths::join_path(project_root, ".venv"@), "lib"@),
        paths::join_path(paths::join_path(project_root, "venv"@), "lib"@),
    ] + (match virtual_env {
        Some(dir) => seq![paths::join_path(dir, "lib"@)],
        None => Seq::empty(),
    }) + (match site_packages {
        Some(dir) => seq![dir],
        None => Seq::empty(),
    })
}

/// The directories below which installed packages are looked for. `virtual_env`
/// and `site_packages` are what the environment names.
pub fn package_search_roots(
    project_root: &str,
    virtual_env: &Option<String>,
    site_packages: &Option<String>,
) -> (r: Vec<String>)
    ensures
        text::texts(r@) == environment_roots(
            project_root@,
            text::option_view(*virtual_env),
            text::option_view(*site_packages),
        ),
{
    let mut roots: Vec<String> = Vec::new();
    roots.push(path_join(path_join(project_root, ".venv").as_str(), "lib"));
    roots.push(path_join(path_join(project_root, "venv").as_str(), "lib"));
    if let Some(dir) = virtual_env {
        roots.push(path_join(dir.as_str(), "lib"));
    }
    if let Some(dir) = site_packages {
        roots.push(dir.clone());
    }
    assert(text::texts(roots@) =~= environment_roots(
        project_root@,
        text::option_view(*virtual_env),
        text::option_view(*site_packages),
    ));
    roots
}

/// How many levels below a root are searched.
pub const SEARCH_DEPTH: u8 = 4;

/// The directories among the entries of `dir`, in the order of the listing.
pub open spec fn subdirectories(dir: Seq<char>, listing: Seq<(Seq<char>, EntryKind)>) -> Seq<
    Seq<char>,
>
    decreases listing.len(),
{
    if listing.len() == 0 {
        Seq::empty()
    } else if listing[0].1 == EntryKind::Directory {
        seq![paths::join_path(dir, listing[0].0)] + subdirectories(dir, listing.drop_first())
    } else {
        subdirectories(dir, listing.drop_first())
    }
}

/// The directories of the wanted name at `dir` or below it, no more than `depth`
/// levels, in the order in which they are come across. There is no search
/// below a directory of that name. `disk` gives the listing of every directory.
pub open spec fn named_below(
    disk: spec_fn(Seq<char>) -> Seq<(Seq<char>, EntryKind)>,
    wanted: Seq<char>,
    dir: Seq<char>,
    depth: nat,
) -> Seq<Seq<char>>
    decreases depth, 1nat, 0nat,
{
    if depth == 0 {
        Seq::empty()
    } else if paths::file_name(dir) == Some(wanted) {
        seq![dir]
    } else {
        named_below_all(disk, wanted, subdirectories(dir, disk(dir)), (depth - 1) as nat)
    }
}

/// `named_below` for several directories, one after the other.
pub open spec fn named_below_all(
    disk: spec_fn(Seq<char>) -> Seq<(Seq<char>, EntryKind)>,
    wanted: Seq<char>,
    dirs: Seq<Seq<char>>,
    depth: nat,
) -> Seq<Seq<char>>
    decreases depth, 2nat, dirs.len(),
{
    if dirs.len() == 0 {
        Seq::empty()
    } else {
        named_below(disk, wanted, dirs[0], depth) + named_below_all(
            disk,
            wanted,
            dirs.drop_first(),
            depth,
        )
    }
}

/// A search for directories of one name.
#[derive(Debug)]
pub struct NamedSearch {
    wanted: String,
    pending: Vec<(String, u8)>,
    found: Vec<String>,
}

/// The model of a search: the directories still to look at, the last one first,
/// each with the levels that are left, and the directories found.
#[verifier::ext_equal]
pub struct NamedView {
    pub wanted: Seq<char>,
    pub pending: Seq<(Seq<char>, u8)>,
    pub found: Seq<Seq<char>>,
}

/// The paths and levels of directories.
pub open spec fn places_view(v: Seq<(String, u8)>) -> Seq<(Seq<char>, u8)> {
    v.map_values(|p: (String, u8)| (p.0@, p.1))
}

impl View for NamedSearch {
    type V = NamedView;

    closed spec fn view(&self) -> NamedView {
        NamedView {
            wanted: self.wanted@,
            pending: places_view(self.pending@),
            found: text::texts(self.found@),
        }
    }
}

/// Directories to look at, so that the first of `dirs` is looked at first.
pub open spec fn places(dirs: Seq<Seq<char>>, depth: u8) -> Seq<(Seq<char>, u8)> {
    dirs.reverse().map_values(|d: Seq<char>| (d, depth))
}

/// A search that has looked at nothing yet.
pub open spec fn search_start(roots: Seq<Seq<char>>, wanted: Seq<char>) -> NamedView {
    NamedView { wanted, pending: places(roots, SEARCH_DEPTH), found: Seq::empty() }
}

/// A search up to the next directory that has to be listed.
pub open spec fn settled(w: NamedView) -> NamedView
    decreases w.pending.len(),
{
    if w.pending.len() == 0 {
        w
    } else {
        let (dir, depth) = w.pending.last();
        if depth == 0 {
            settled(NamedView { pending: w.pending.drop_last(), ..w })
        } else if paths::file_name(dir) == Some(w.wanted) {
            settled(NamedView { pending: w.pending.drop_last(), found: w.found.push(dir), ..w })
        } else {
            w
        }
    }
}

/// A search after the listing of its next directory.
pub open spec fn search_step(w: NamedView, listing: Seq<(Seq<char>, EntryKind)>) -> NamedView {
    if w.pending.len() == 0 || w.pending.last().1 == 0 {
        w
    } else {
        let (dir, depth) = w.pending.last();
        NamedView {
            pending: w.pending.drop_last() + places(
                subdirectories(dir, listing),
                (depth - 1) as u8,
            ),
            ..w
        }
    }
}

/// The directories that are to be listed, in the order in which they are looked at.
fn list_places(dirs: Vec<String>, depth: u8, out: &mut Vec<(String, u8)>)
    ensures
        places_view(final(out)@) == places_view(old(out)@) + places(text::texts(dirs@), depth),
{
    let ghost start = places_view(out@);
    let ghost all = text::texts(dirs@);
    let mut rest = dirs;
    let ghost n = all.len() as int;
    assert(all.skip(n) =~= Seq::<Seq<char>>::empty());
    assert(places(all.skip(n), depth) =~= Seq::<(Seq<char>, u8)>::empty());
    assert(start + places(all.skip(n), depth) =~= start);
    loop
        invariant
            n == all.len(),
            rest@.len() <= n,
            text::texts(rest@) == all.take(rest@.len() as int),
            places_view(out@) == start + places(all.skip(rest@.len() as int), depth),
        ensures
            places_view(out@) == start + places(all, depth),
        decreases rest@.len(),
    {
        let ghost k = rest@.len() as int;
        match rest.pop() {
            Some(dir) => {
                assert(all.take(k).last() == dir@) by {
                    assert(all.take(k)[k - 1] == dir@);
                }
                assert(all[k - 1] == dir@);
                assert(text::texts(rest@) =~= all.take(k - 1));
                let ghost before = places_view(out@);
                out.push((dir, depth));
                assert(places_view(out@) =~= before.push((all[k - 1], depth)));
                assert(all.skip(k - 1) =~= seq![all[k - 1]] + all.skip(k));
                assert(places(all.skip(k - 1), depth) =~= places(all.skip(k), depth).push(
                    (all[k - 1], depth),
                ));
                assert(places_view(out@) =~= start + places(all.skip(k - 1), depth));
            },
            None => {
                assert(all.skip(0) =~= all);
                break;
            },
        }
    }
}

impl NamedSearch {
    /// A search for directories named `wanted` at `roots` or below them.
    pub fn new(roots: Vec<String>, wanted: &str) -> (r: Self)
        ensures
            r@ == search_start(text::texts(roots@), wanted@),
    {
        let mut pending: Vec<(String, u8)> = Vec::new();
        list_places(roots, SEARCH_DEPTH, &mut pending);
        let r = NamedSearch { wanted: wanted.to_owned(), pending, found: Vec::new() };
        assert(r@ =~= search_start(text::texts(roots@), wanted@));
        r
    }

    /// The directory to list next; none when the search is over.
    pub fn next(&mut self) -> (r: Option<String>)
        ensures
            final(self)@ == settled(old(self)@),
            text::option_view(r) == if settled(old(self)@).pending.len() > 0 {
                Some(settled(old(self)@).pending.last().0)
            } else {
                None
            },
    {
        let ghost start = self@;
        while self.pending.len() > 0
            invariant
                start == old(self)@,
                settled(start) == settled(self@),
                start.wanted == self@.wanted,
            decreases self.pending@.len(),
        {
            let last: usize = self.pending.len() - 1;
            assert(self@.pending.last() == (self.pending@[last as int].0@, self.pending@[last as int].1));
            let depth: u8 = self.pending[last].1;
            let named = match file_name_of(self.pending[last].0.as_str()) {
                Some(name) => text_eq(name.as_str(), self.wanted.as_str()),
                None => false,
            };
            if depth != 0 && !named {
                return Some(self.pending[last].0.clone());
            }
            let ghost before = self@;
            match self.pending.pop() {
                Some((dir, depth)) => {
                    assert(places_view(self.pending@) =~= before.pending.drop_last());
                    if depth != 0 {
                        self.found.push(dir);
                        assert(text::texts(self.found@) =~= before.found.push(dir@));
                    }
                },
                None => {},
            }
        }
        None
    }

    /// Takes the listing of the directory that `next` gave.
    pub fn listed(&mut self, listing: &DirectoryListing)
        ensures
            final(self)@ == search_step(old(self)@, listing@),
    {
        let ghost start = self@;
        if self.pending.len() == 0 {
            return;
        }
        let last: usize = self.pending.len() - 1;
        assert(start.pending.last() == (self.pending@[last as int].0@, self.pending@[last as int].1));
        if self.pending[last].1 == 0 {
            return;
        }
        match self.pending.pop() {
            Some((dir, depth)) => {
                assert(places_view(self.pending@) =~= start.pending.drop_last());
                let mut dirs: Vec<String> = Vec::new();
                let ghost all = listing@;
                assert(all.skip(0) =~= all);
                let mut i: usize = 0;
                while i < listing.entries.len()
                    invariant
                        i <= listing.entries@.len(),
                        all == listing@,
                        subdirectories(dir@, all) == text::texts(dirs@) + subdirectories(
                            dir@,
                            all.skip(i as int),
                        ),
                    decreases listing.entries@.len() - i,
                {
                    let entry = &listing.entries[i];
                    assert(all[i as int] == entry@);
                    assert(all.skip(i as int).drop_first() =~= all.skip(i + 1));
                    let ghost before = text::texts(dirs@);
                    if entry.kind == EntryKind::Directory {
                        let path = path_join(dir.as_str(), entry.name.as_str());
                        dirs.push(path);
                        assert(text::texts(dirs@) =~= before.push(path@));
                        assert(before + (seq![path@] + subdirectories(dir@, all.skip(i + 1)))
                            =~= before.push(path@) + subdirectories(dir@, all.skip(i + 1)));
                    }
                    i = i + 1;
                }
                assert(all.skip(i as int) =~= Seq::empty());
                assert(text::texts(dirs@) =~= subdirectories(dir@, all));
                list_places(dirs, depth - 1, &mut self.pending);
                assert(self@ =~= search_step(start, listing@));
            },
            None => {},
        }
    }

    /// The directories found.
    pub fn into_found(self) -> (r: Vec<String>)
        ensures
            text::texts(r@) == self@.found,
    {
        self.found
    }
}

/// What a search will have found in the end.
pub open spec fn search_result(
    disk: spec_fn(Seq<char>) -> Seq<(Seq<char>, EntryKind)>,
    w: NamedView,
) -> Seq<Seq<char>>
    decreases w.pending.len(),
{
    if w.pending.len() == 0 {
        w.found
    } else {
        let (dir, depth) = w.pending.last();
        search_result(
            disk,
            NamedView {
                pending: w.pending.drop_last(),
                found: w.found + named_below(disk, w.wanted, dir, depth as nat),
                ..w
            },
        )
    }
}

/// Moving on to the next directory to list changes nothing in what is found.
pub proof fn settling_keeps_the_result(
    disk: spec_fn(Seq<char>) -> Seq<(Seq<char>, EntryKind)>,
    w: NamedView,
)
    ensures
        search_result(disk, settled(w)) == search_result(disk, w),
    decreases w.pending.len(),
{
    if w.pending.len() > 0 {
        let (dir, depth) = w.pending.last();
        let rest = w.pending.drop_last();
        if depth == 0 {
            settling_keeps_the_result(disk, NamedView { pending: rest, ..w });
            assert(w.found + Seq::<Seq<char>>::empty() =~= w.found);
        } else if paths::file_name(dir) == Some(w.wanted) {
            settling_keeps_the_result(
                disk,
                NamedView { pending: rest, found: w.found.push(dir), ..w },
            );
            assert(w.found + seq![dir] =~= w.found.push(dir));
        }
    }
}

/// What is found of several directories put in front.
proof fn lemma_places_result(
    disk: spec_fn(Seq<char>) -> Seq<(Seq<char>, EntryKind)>,
    w: NamedView,
    dirs: Seq<Seq<char>>,
    depth: u8,
)
    ensures
        search_result(disk, NamedView { pending: w.pending + places(dirs, depth), ..w })
            == search_result(
            disk,
            NamedView {
                found: w.found + named_below_all(disk, w.wanted, dirs, depth as nat),
                ..w
            },
        ),
    decreases dirs.len(),
{
    let p = places(dirs, depth);
    if dirs.len() == 0 {
        assert(w.pending + p =~= w.pending);
        assert(w.found + Seq::<Seq<char>>::empty() =~= w.found);
    } else {
        let rest = dirs.drop_first();
        let first = named_below(disk, w.wanted, dirs[0], depth as nat);
        assert(dirs.reverse() =~= rest.reverse().push(dirs[0]));
        assert(p =~= places(rest, depth).push((dirs[0], depth)));
        assert((w.pending + p).drop_last() =~= w.pending + places(rest, depth));
        assert((w.pending + p).last() == (dirs[0], depth));
        lemma_places_result(disk, NamedView { found: w.found + first, ..w }, rest, depth);
        assert(w.found + first + named_below_all(disk, w.wanted, rest, depth as nat) =~= w.found + (
        first + named_below_all(disk, w.wanted, rest, depth as nat)));
    }
}

/// A search that is given what is on the disk keeps its result.
pub proof fn listing_keeps_the_result(
    disk: spec_fn(Seq<char>) -> Seq<(Seq<char>, EntryKind)>,
    w: NamedView,
)
    requires
        w.pending.len() > 0,
        settled(w) == w,
    ensures
        search_result(disk, search_step(w, disk(w.pending.last().0))) == search_result(disk, w),
{
    let (dir, depth) = w.pending.last();
    if depth == 0 || paths::file_name(dir) == Some(w.wanted) {
        lemma_settled_shorter(NamedView { pending: w.pending.drop_last(), ..w });
        lemma_settled_shorter(
            NamedView { pending: w.pending.drop_last(), found: w.found.push(dir), ..w },
        );
    } else {
        lemma_places_result(
            disk,
            NamedView { pending: w.pending.drop_last(), ..w },
            subdirectories(dir, disk(dir)),
            (depth - 1) as u8,
        );
    }
}

proof fn lemma_settled_shorter(w: NamedView)
    ensures
        settled(w).pending.len() <= w.pending.len(),
    decreases w.pending.len(),
{
    if w.pending.len() > 0 {
        let (dir, depth) = w.pending.last();
        lemma_settled_shorter(NamedView { pending: w.pending.drop_last(), ..w });
        lemma_settled_shorter(
            NamedView { pending: w.pending.drop_last(), found: w.found.push(dir), ..w },
        );
    }
}

/// A search that is over has found the directories of the wanted name, in the
/// order of the roots.
pub proof fn search_finds_named_directories(
    disk: spec_fn(Seq<char>) -> Seq<(Seq<char>, EntryKind)>,
    roots: Seq<Seq<char>>,
    wanted: Seq<char>,
    w: NamedView,
)
    requires
        search_result(disk, w) == search_result(disk, search_start(roots, wanted)),
        w.pending.len() == 0,
    ensures
        w.found == named_below_all(disk, wanted, roots, SEARCH_DEPTH as nat),
{
    let none = NamedView { wanted, pending: Seq::empty(), found: Seq::empty() };
    lemma_places_result(disk, none, roots, SEARCH_DEPTH);
    assert(none.pending + places(roots, SEARCH_DEPTH) =~= places(roots, SEARCH_DEPTH));
    assert(none.found + named_below_all(disk, wanted, roots, SEARCH_DEPTH as nat)
        =~= named_below_all(disk, wanted, roots, SEARCH_DEPTH as nat));
}

/// Whether a directory of that name holds the metadata of a package.
pub open spec fn is_metadata_name(name: Seq<char>) -> bool {
    ".dist-info"@.is_suffix_of(name) || ".egg-info"@.is_suffix_of(name)
}

/// Whether a directory of that name holds the metadata of a package.
pub fn is_metadata_directory(name: &str) -> (r: bool)
    ensures
        r == is_metadata_name(name@),
{
    ends_with(name, ".dist-info") || ends_with(name, ".egg-info")
}

/// The value of the first line that gives a field.
pub open spec fn field_among(all: Seq<Seq<char>>, field: Seq<char>) -> Option<Seq<char>>
    decreases all.len(),
{
    if all.len() == 0 {
        None
    } else {
        match text::after_prefix(all[0], field) {
            Some(rest) => match text::after_prefix(rest, seq![':']) {
                Some(value) => Some(text::trimmed(value)),
                None => field_among(all.drop_first(), field),
            },
            None => field_among(all.drop_first(), field),
        }
    }
}

/// The value of a metadata field, if a line gives it.
pub fn metadata_field(contents: &str, field: &str) -> (r: Option<String>)
    ensures
        text::option_view(r) == field_among(text::lines_of(contents@), field@),
{
    let all = lines(contents);
    let ghost view = text::lines_of(contents@);
    assert(view.skip(0) =~= view);
    proof {
        reveal_strlit(":");
        assert(":"@ =~= seq![':']);
    }
    let mut i: usize = 0;
    while i < all.len()
        invariant
            i <= all@.len(),
            ":"@ == seq![':'],
            view == text::texts(all@),
            view == text::lines_of(contents@),
            field_among(view, field@) == field_among(view.skip(i as int), field@),
        decreases all@.len() - i,
    {
        assert(view[i as int] == all@[i as int]@);
        assert(view.skip(i as int).drop_first() =~= view.skip(i + 1));
        if let Some(rest) = strip_prefix(all[i].as_str(), field) {
            if let Some(value) = strip_prefix(rest.as_str(), ":") {
                return Some(trim(value.as_str()));
            }
        }
        i = i + 1;
    }
    None
}

/// `s` without all occurrences of `suffix` at its end.
pub open spec fn without_suffixes(s: Seq<char>, suffix: Seq<char>) -> Seq<char>
    decreases s.len(),
{
    if suffix.len() > 0 && suffix.is_suffix_of(s) {
        without_suffixes(s.take(s.len() - suffix.len()), suffix)
    } else {
        s
    }
}

/// `s` without all occurrences of `suffix` at its end.
fn trim_suffixes(s: &str, suffix: &str) -> (r: String)
    ensures
        r@ == without_suffixes(s@, suffix@),
{
    let n: usize = chars_of(suffix).len();
    let mut out = s.to_owned();
    while n > 0 && ends_with(out.as_str(), suffix)
        invariant
            n == suffix@.len(),
            without_suffixes(out@, suffix@) == without_suffixes(s@, suffix@),
        decreases out@.len(),
    {
        let v = chars_of(out.as_str());
        let shorter = text_of(&v, 0, v.len() - n);
        assert(shorter@ =~= out@.take(out@.len() - suffix@.len()));
        out = shorter;
    }
    out
}

/// What a `Requires-Dist` line names, unless it is for an extra.
pub open spec fn requirement(line: Seq<char>) -> Option<Seq<char>> {
    match text::after_prefix(line, "Requires-Dist:"@) {
        Some(rest) => {
            let name = python_deps::without_constraint(
                text::first_piece(text::trimmed(rest), seq![';']),
            );
            if text::has_text(rest, "extra =="@) || name.len() == 0 {
                None
            } else {
                Some(name)
            }
        },
        None => None,
    }
}

/// What a package requires, in the order of its metadata.
pub open spec fn requirements(all: Seq<Seq<char>>) -> Seq<Seq<char>>
    decreases all.len(),
{
    if all.len() == 0 {
        Seq::empty()
    } else {
        match requirement(all[0]) {
            Some(name) => seq![name] + requirements(all.drop_first()),
            None => requirements(all.drop_first()),
        }
    }
}

/// The tags of a wheel, in the order of its metadata.
pub open spec fn tags(all: Seq<Seq<char>>) -> Seq<Seq<char>>
    decreases all.len(),
{
    if all.len() == 0 {
        Seq::empty()
    } else {
        match text::after_prefix(all[0], "Tag:"@) {
            Some(rest) => seq![text::trimmed(rest)] + tags(all.drop_first()),
            None => tags(all.drop_first()),
        }
    }
}

/// What a `Requires-Dist` line names, unless it is for an extra.
fn read_requirement(line: &str) -> (r: Option<String>)
    ensures
        text::option_view(r) == requirement(line@),
{
    let marker: [char; 1] = [';'];
    assert(marker@ =~= seq![';']);
    match strip_prefix(line, "Requires-Dist:") {
        Some(rest) => {
            if contains(rest.as_str(), "extra ==") {
                return None;
            }
            let name = strip_constraint(
                split_first(trim(rest.as_str()).as_str(), &marker).as_str(),
            );
            if name.as_str().is_empty() {
                None
            } else {
                Some(name)
            }
        },
        None => None,
    }
}

/// What a package requires, in the order of its metadata.
fn read_requirements(contents: &str) -> (r: Vec<String>)
    ensures
        text::texts(r@) == requirements(text::lines_of(contents@)),
{
    let all = lines(contents);
    let ghost view = text::lines_of(contents@);
    assert(view.skip(0) =~= view);
    let mut out: Vec<String> = Vec::new();
    assert(text::texts(out@) + requirements(view) =~= requirements(view));
    let mut i: usize = 0;
    while i < all.len()
        invariant
            i <= all@.len(),
            view == text::texts(all@),
            requirements(view) == text::texts(out@) + requirements(view.skip(i as int)),
        decreases all@.len() - i,
    {
        assert(view[i as int] == all@[i as int]@);
        assert(view.skip(i as int).drop_first() =~= view.skip(i + 1));
        let ghost before = text::texts(out@);
        if let Some(name) = read_requirement(all[i].as_str()) {
            out.push(name);
            assert(text::texts(out@) =~= before.push(name@));
            assert(before + (seq![name@] + requirements(view.skip(i + 1))) =~= before.push(name@)
                + requirements(view.skip(i + 1)));
        }
        i = i + 1;
    }
    assert(view.skip(i as int) =~= Seq::<Seq<char>>::empty());
    assert(text::texts(out@) + Seq::<Seq<char>>::empty() =~= text::texts(out@));
    out
}

/// The tags of a wheel, in the order of its metadata.
fn read_tags(contents: &str) -> (r: Vec<String>)
    ensures
        text::texts(r@) == tags(text::lines_of(contents@)),
{
    let all = lines(contents);
    let ghost view = text::lines_of(contents@);
    assert(view.skip(0) =~= view);
    let mut out: Vec<String> = Vec::new();
    assert(text::texts(out@) + tags(view) =~= tags(view));
    let mut i: usize = 0;
    while i < all.len()
        invariant
            i <= all@.len(),
            view == text::texts(all@),
            tags(view) == text::texts(out@) + tags(view.skip(i as int)),
        decreases all@.len() - i,
    {
        assert(view[i as int] == all@[i as int]@);
        assert(view.skip(i as int).drop_first() =~= view.skip(i + 1));
        let ghost before = text::texts(out@);
        if let Some(rest) = strip_prefix(all[i].as_str(), "Tag:") {
            let tag = trim(rest.as_str());
            out.push(tag);
            assert(text::texts(out@) =~= before.push(tag@));
            assert(before + (seq![tag@] + tags(view.skip(i + 1))) =~= before.push(tag@) + tags(
                view.skip(i + 1),
            ));
        }
        i = i + 1;
    }
    assert(view.skip(i as int) =~= Seq::<Seq<char>>::empty());
    assert(text::texts(out@) + Seq::<Seq<char>>::empty() =~= text::texts(out@));
    out
}

/// The package that the metadata directory `path` describes.
pub open spec fn distribution_at(
    path: Seq<char>,
    metadata: Seq<char>,
    wheel: Option<Seq<char>>,
) -> DistributionView {
    DistributionView {
        name: match field_among(text::lines_of(metadata), "Name"@) {
            Some(name) => name,
            None => without_suffixes(
                match paths::file_name(path) {
                    Some(name) => name,
                    None => "unknown"@,
                },
                ".dist-info"@,
            ),
        },
        root: match paths::parent(path) {
            Some(parent) => parent,
            None => path,
        },
        metadata_dir: path,
        required: requirements(text::lines_of(metadata)),
        wheel_tags: match wheel {
            Some(contents) => tags(text::lines_of(contents)),
            None => Seq::empty(),
        },
        native: None,
    }
}

/// The package that the metadata directory `path` describes. `metadata` and
/// `wheel` are the contents of its `METADATA` and `WHEEL` files.
pub fn read_distribution(path: &str, metadata: &str, wheel: Option<&str>) -> (r: PythonDistribution)
    ensures
        r@ == distribution_at(
            path@,
            metadata@,
            match wheel {
                Some(contents) => Some(contents@),
                None => None,
            },
        ),
{
    let name = match metadata_field(metadata, "Name") {
        Some(name) => name,
        None => match file_name_of(path) {
            Some(name) => trim_suffixes(name.as_str(), ".dist-info"),
            None => trim_suffixes("unknown", ".dist-info"),
        },
    };
    let root = match parent_of(path) {
        Some(parent) => parent,
        None => path.to_owned(),
    };
    let wheel_tags = match wheel {
        Some(contents) => read_tags(contents),
        None => Vec::new(),
    };
    assert(wheel is None ==> text::texts(wheel_tags@) =~= Seq::<Seq<char>>::empty());
    PythonDistribution {
        name,
        root,
        metadata_dir: path.to_owned(),
        required: read_requirements(metadata),
        wheel_tags,
        native: None,
    }
}

/// The places that the lines of `top_level.txt` name.
pub open spec fn top_level_roots(root: Seq<char>, all: Seq<Seq<char>>) -> Seq<Seq<char>>
    decreases all.len(),
{
    if all.len() == 0 {
        Seq::empty()
    } else if text::is_blank(all[0]) {
        top_level_roots(root, all.drop_first())
    } else {
        seq![paths::join_path(root, text::trimmed(all[0]))] + top_level_roots(
            root,
            all.drop_first(),
        )
    }
}

/// Where the files of a package are: what its `top_level.txt` names, or the
/// directory of its own name.
pub open spec fn code_roots(d: DistributionView, top_level: Option<Seq<char>>) -> Seq<Seq<char>> {
    let named = match top_level {
        Some(contents) => top_level_roots(d.root, text::lines_of(contents)),
        None => Seq::empty(),
    };
    if named.len() == 0 {
        seq![
            paths::join_path(
                d.root,
                text::replaced(python_deps::normalized(d.name), seq!['-'], '_'),
            ),
        ]
    } else {
        named
    }
}

/// Where the files of a package are. `top_level` is the contents of its
/// `top_level.txt`.
pub fn package_roots(d: &PythonDistribution, top_level: Option<&str>) -> (r: Vec<String>)
    ensures
        text::texts(r@) == code_roots(
            d@,
            match top_level {
                Some(contents) => Some(contents@),
                None => None,
            },
        ),
{
    let mut roots: Vec<String> = Vec::new();
    assert(text::texts(roots@) =~= Seq::<Seq<char>>::empty());
    if let Some(contents) = top_level {
        let all = lines(contents);
        let ghost view = text::lines_of(contents@);
        assert(view.skip(0) =~= view);
        assert(text::texts(roots@) + top_level_roots(d@.root, view) =~= top_level_roots(
            d@.root,
            view,
        ));
        let mut i: usize = 0;
        while i < all.len()
            invariant
                i <= all@.len(),
                view == text::texts(all@),
                top_level_roots(d@.root, view) == text::texts(roots@) + top_level_roots(
                    d@.root,
                    view.skip(i as int),
                ),
            decreases all@.len() - i,
        {
            assert(view[i as int] == all@[i as int]@);
            assert(view.skip(i as int).drop_first() =~= view.skip(i + 1));
            let ghost before = text::texts(roots@);
            if !blank(all[i].as_str()) {
                let path = path_join(d.root.as_str(), trim(all[i].as_str()).as_str());
                roots.push(path);
                assert(text::texts(roots@) =~= before.push(path@));
                assert(before + (seq![path@] + top_level_roots(d@.root, view.skip(i + 1)))
                    =~= before.push(path@) + top_level_roots(d@.root, view.skip(i + 1)));
            }
            i = i + 1;
        }
        assert(view.skip(i as int) =~= Seq::<Seq<char>>::empty());
        assert(text::texts(roots@) =~= top_level_roots(d@.root, view));
    }
    assert(text::texts(roots@).len() == roots@.len());
    if roots.len() == 0 {
        let dash: [char; 1] = ['-'];
        assert(dash@ =~= seq!['-']);
        let name = replace(
            normalize_distribution_name(d.name.as_str()).as_str(),
            &dash,
            '_',
        );
        let path = path_join(d.root.as_str(), name.as_str());
        roots.push(path);
        assert(text::texts(roots@) =~= seq![path@]);
    }
    roots
}

/// Whether a path has the extension of a native extension.
pub open spec fn is_native_path(path: Seq<char>) -> bool {
    let e = paths::path_extension(path);
    e == Some("so"@) || e == Some("pyd"@) || e == Some("dll"@) || e == Some("dylib"@)
}

/// A search for a native extension.
#[derive(Debug)]
pub struct NativeSearch {
    pending: Vec<String>,
    found: Option<String>,
}

/// The model of a search: the paths still to look at, the last one first, and
/// the native extension found.
#[verifier::ext_equal]
pub struct NativeView {
    pub pending: Seq<Seq<char>>,
    pub found: Option<Seq<char>>,
}

impl View for NativeSearch {
    type V = NativeView;

    closed spec fn view(&self) -> NativeView {
        NativeView { pending: text::texts(self.pending@), found: text::option_view(self.found) }
    }
}

/// The paths of the entries of a directory.
pub open spec fn entry_paths(dir: Seq<char>, names: Seq<Seq<char>>) -> Seq<Seq<char>> {
    names.map_values(|n: Seq<char>| paths::join_path(dir, n))
}

/// A search after a look at its next path: the names of its entries, if it is a
/// directory.
pub open spec fn native_step(w: NativeView, entries: Option<Seq<Seq<char>>>) -> NativeView {
    if w.found is Some || w.pending.len() == 0 {
        w
    } else {
        let path = w.pending.last();
        let rest = w.pending.drop_last();
        match entries {
            Some(names) => NativeView { pending: rest + entry_paths(path, names), found: None },
            None => NativeView {
                pending: rest,
                found: if is_native_path(path) {
                    Some(path)
                } else {
                    None
                },
            },
        }
    }
}

/// The names of the entries that a look at a path gave.
pub open spec fn names_view(entries: Option<Vec<String>>) -> Option<Seq<Seq<char>>> {
    match entries {
        Some(v) => Some(text::texts(v@)),
        None => None,
    }
}

impl NativeSearch {
    /// A search at `roots` and below them.
    pub fn new(roots: Vec<String>) -> (r: Self)
        ensures
            r@ == (NativeView { pending: text::texts(roots@), found: None }),
    {
        NativeSearch { pending: roots, found: None }
    }

    /// The path to look at next; none when the search is over.
    pub fn next(&self) -> (r: Option<String>)
        ensures
            text::option_view(r) == if self@.found is None && self@.pending.len() > 0 {
                Some(self@.pending.last())
            } else {
                None
            },
    {
        if self.found.is_some() || self.pending.len() == 0 {
            None
        } else {
            Some(self.pending[self.pending.len() - 1].clone())
        }
    }

    /// Takes what a look at the next path gave: the names of its entries, if it
    /// is a directory.
    pub fn seen(&mut self, entries: Option<Vec<String>>)
        ensures
            final(self)@ == native_step(old(self)@, names_view(entries)),
    {
        let ghost start = self@;
        if self.found.is_some() {
            return;
        }
        let path = match self.pending.pop() {
            Some(path) => path,
            None => {
                return;
            },
        };
        assert(text::texts(self.pending@) =~= start.pending.drop_last());
        assert(start.pending.last() == path@);
        match entries {
            Some(names) => {
                let ghost all = entry_paths(path@, text::texts(names@));
                let ghost rest = text::texts(self.pending@);
                assert(rest + all.take(0) =~= rest);
                let mut i: usize = 0;
                while i < names.len()
                    invariant
                        i <= names@.len(),
                        all == entry_paths(path@, text::texts(names@)),
                        self.found is None,
                        text::texts(self.pending@) == rest + all.take(i as int),
                    decreases names@.len() - i,
                {
                    let ghost before = text::texts(self.pending@);
                    let child = path_join(path.as_str(), names[i].as_str());
                    assert(all[i as int] == child@);
                    self.pending.push(child);
                    assert(text::texts(self.pending@) =~= before.push(child@));
                    assert(rest + all.take(i + 1) =~= (rest + all.take(i as int)).push(child@));
                    i = i + 1;
                }
                assert(all.take(i as int) =~= all);
                assert(self@ =~= native_step(start, names_view(entries)));
            },
            None => {
                let p = path.as_str();
                if path_has_extension(p, "so") || path_has_extension(p, "pyd")
                    || path_has_extension(p, "dll") || path_has_extension(p, "dylib") {
                    self.found = Some(path);
                }
                assert(self@ =~= native_step(start, names_view(entries)));
            },
        }
    }

    /// The native extension found.
    pub fn into_found(self) -> (r: Option<String>)
        ensures
            text::option_view(r) == self@.found,
    {
        self.found
    }
}

/// Whether there is a native extension at `path` or no more than `depth` levels
/// below it. `disk` gives the names of the entries of every directory.
pub open spec fn holds_native(
    disk: spec_fn(Seq<char>) -> Option<Seq<Seq<char>>>,
    path: Seq<char>,
    depth: nat,
) -> bool
    decreases depth,
{
    match disk(path) {
        None => is_native_path(path),
        Some(names) => depth > 0 && exists|i: int|
            0 <= i < names.len() && holds_native(
                disk,
                #[trigger] entry_paths(path, names)[i],
                (depth - 1) as nat,
            ),
    }
}

/// Whether there is a native extension at `path` or below it.
pub open spec fn has_native(
    disk: spec_fn(Seq<char>) -> Option<Seq<Seq<char>>>,
    path: Seq<char>,
) -> bool {
    exists|depth: nat| holds_native(disk, path, depth)
}

/// Whether a search has found a native extension, or there is one ahead.
pub open spec fn native_known(
    disk: spec_fn(Seq<char>) -> Option<Seq<Seq<char>>>,
    w: NativeView,
) -> bool {
    w.found is Some || exists|i: int| 0 <= i < w.pending.len() && has_native(disk, #[trigger] w.pending[i])
}

/// A search that is given what is on the disk keeps knowing whether there is a
/// native extension, and what it finds is one.
pub proof fn native_search_keeps_knowing(
    disk: spec_fn(Seq<char>) -> Option<Seq<Seq<char>>>,
    w: NativeView,
)
    requires
        w.found is None,
        w.pending.len() > 0,
    ensures
        native_known(disk, native_step(w, disk(w.pending.last()))) <==> native_known(disk, w),
        native_step(w, disk(w.pending.last())).found matches Some(p) ==> disk(p) is None
            && is_native_path(p),
{
    let path = w.pending.last();
    let rest = w.pending.drop_last();
    let n = rest.len() as int;
    let next = native_step(w, disk(path));
    assert(w.pending[n] == path);
    match disk(path) {
        None => {
            if native_known(disk, w) && next.found is None {
                let i = choose|i: int|
                    0 <= i < w.pending.len() && has_native(disk, #[trigger] w.pending[i]);
                if i == n {
                    let depth = choose|depth: nat| holds_native(disk, path, depth);
                    assert(holds_native(disk, path, depth));
                }
                assert(next.pending[i] == w.pending[i]);
            }
            if native_known(disk, next) {
                if next.found is Some {
                    assert(holds_native(disk, path, 0));
                    assert(has_native(disk, w.pending[n]));
                } else {
                    let i = choose|i: int|
                        0 <= i < next.pending.len() && has_native(disk, #[trigger] next.pending[i]);
                    assert(w.pending[i] == next.pending[i]);
                }
            }
        },
        Some(names) => {
            let children = entry_paths(path, names);
            if native_known(disk, w) {
                let i = choose|i: int|
                    0 <= i < w.pending.len() && has_native(disk, #[trigger] w.pending[i]);
                if i < n {
                    assert(next.pending[i] == w.pending[i]);
                } else {
                    let depth = choose|depth: nat| holds_native(disk, path, depth);
                    let k = choose|k: int|
                        0 <= k < names.len() && holds_native(
                            disk,
                            #[trigger] entry_paths(path, names)[k],
                            (depth - 1) as nat,
                        );
                    assert(next.pending[n + k] == children[k]);
                    assert(has_native(disk, next.pending[n + k]));
                }
            }
            if native_known(disk, next) {
                let i = choose|i: int|
                    0 <= i < next.pending.len() && has_native(disk, #[trigger] next.pending[i]);
                if i < n {
                    assert(w.pending[i] == next.pending[i]);
                } else {
                    let depth = choose|depth: nat| holds_native(disk, next.pending[i], depth);
                    assert(next.pending[i] == children[i - n]);
                    assert(holds_native(disk, path, depth + 1));
                    assert(has_native(disk, w.pending[n]));
                }
            }
        },
    }
}

} // verus!
