//! Directory listings, and the walk through a project's directories.

use crate::paths;
use crate::paths::{has_extension, path_join, sort_paths};
use crate::text;
use crate::text::{ends_with, starts_with, text_eq};
use vstd::prelude::*;

verus! {

/// What a directory entry is, after following links.
#[derive(Debug, Clone, Copy, PartialEq, Eq, Structural)]
pub enum EntryKind {
    File,
    Directory,
    Other,
}

/// An entry of a directory.
#[derive(Debug)]
pub struct DirectoryEntry {
    pub name: String,
    pub kind: EntryKind,
}

impl View for DirectoryEntry {
    type V = (Seq<char>, EntryKind);

    open spec fn view(&self) -> (Seq<char>, EntryKind) {
        (self.name@, self.kind)
    }
}

/// The entries of one directory. A directory that cannot be listed has none.
#[derive(Debug)]
pub struct DirectoryListing {
    pub entries: Vec<DirectoryEntry>,
}

impl View for DirectoryListing {
    type V = Seq<(Seq<char>, EntryKind)>;

    open spec fn view(&self) -> Seq<(Seq<char>, EntryKind)> {
        self.entries@.map_values(|e: DirectoryEntry| e@)
    }
}

/// Whether a listing has a file of that name.
pub open spec fn lists_file(listing: Seq<(Seq<char>, EntryKind)>, name: Seq<char>) -> bool {
    listing.contains((name, EntryKind::File))
}

/// Whether a listing has a directory of that name.
pub open spec fn lists_directory(listing: Seq<(Seq<char>, EntryKind)>, name: Seq<char>) -> bool {
    listing.contains((name, EntryKind::Directory))
}

/// Whether a listing has an entry with that extension.
pub open spec fn lists_extension(
    listing: Seq<(Seq<char>, EntryKind)>,
    wanted: Seq<char>,
) -> bool {
    exists|i: int|
        0 <= i < listing.len() && paths::extension((#[trigger] listing[i]).0) == Some(wanted)
}

/// Whether a listing has a file whose name ends with `suffix`.
pub open spec fn lists_suffix(listing: Seq<(Seq<char>, EntryKind)>, suffix: Seq<char>) -> bool {
    exists|i: int|
        0 <= i < listing.len() && (#[trigger] listing[i]).1 == EntryKind::File
            && suffix.is_suffix_of(listing[i].0)
}

impl DirectoryListing {
    /// A listing with these entries.
    pub fn new(entries: Vec<DirectoryEntry>) -> (r: Self)
        ensures
            r@ == entries@.map_values(|e: DirectoryEntry| e@),
    {
        DirectoryListing { entries }
    }

    fn has_entry(&self, name: &str, kind: EntryKind) -> (r: bool)
        ensures
            r == self@.contains((name@, kind)),
    {
        let mut i: usize = 0;
        while i < self.entries.len()
            invariant
                i <= self.entries@.len(),
                forall|j: int| 0 <= j < i ==> self@[j] != (name@, kind),
            decreases self.entries@.len() - i,
        {
            assert(self@[i as int] == self.entries@[i as int]@);
            if self.entries[i].kind == kind && text_eq(self.entries[i].name.as_str(), name) {
                assert(self@[i as int] == (name@, kind));
                return true;
            }
            i = i + 1;
        }
        false
    }

    /// Whether there is a file of that name.
    pub fn has_file(&self, name: &str) -> (r: bool)
        ensures
            r == lists_file(self@, name@),
    {
        self.has_entry(name, EntryKind::File)
    }

    /// Whether there is a directory of that name.
    pub fn has_directory(&self, name: &str) -> (r: bool)
        ensures
            r == lists_directory(self@, name@),
    {
        self.has_entry(name, EntryKind::Directory)
    }

    /// Whether there is an entry with that extension.
    pub fn has_extension(&self, wanted: &str) -> (r: bool)
        ensures
            r == lists_extension(self@, wanted@),
    {
        let mut i: usize = 0;
        while i < self.entries.len()
            invariant
                i <= self.entries@.len(),
                forall|j: int|
                    0 <= j < i ==> paths::extension((#[trigger] self@[j]).0) != Some(wanted@),
            decreases self.entries@.len() - i,
        {
            assert(self@[i as int] == self.entries@[i as int]@);
            if has_extension(self.entries[i].name.as_str(), wanted) {
                assert(paths::extension(self@[i as int].0) == Some(wanted@));
                return true;
            }
            i = i + 1;
        }
        false
    }

    /// Whether there is a file whose name ends with `suffix`.
    pub fn has_suffix(&self, suffix: &str) -> (r: bool)
        ensures
            r == lists_suffix(self@, suffix@),
    {
        let mut i: usize = 0;
        while i < self.entries.len()
            invariant
                i <= self.entries@.len(),
                forall|j: int|
                    0 <= j < i ==> !((#[trigger] self@[j]).1 == EntryKind::File
                        && suffix@.is_suffix_of(self@[j].0)),
            decreases self.entries@.len() - i,
        {
            assert(self@[i as int] == self.entries@[i as int]@);
            if self.entries[i].kind == EntryKind::File && ends_with(
                self.entries[i].name.as_str(),
                suffix,
            ) {
                return true;
            }
            i = i + 1;
        }
        false
    }
}

/// Which directories a walk enters and which files it takes.
#[derive(Debug, Clone, Copy, PartialEq, Eq, Structural)]
pub enum WalkPolicy {
    /// The files of a project, without version control, build output and installed packages.
    Project,
    /// What a Go build depends on.
    Go,
    /// What a JavaScript or TypeScript build depends on.
    JavaScript,
    /// What a Python build depends on.
    Python,
    /// Every file.
    Everything,
}

/// Whether a walk enters a directory of that name.
pub open spec fn enters(policy: WalkPolicy, name: Seq<char>) -> bool {
    match policy {
        WalkPolicy::Project => !(name == ".git"@ || name == ".pit"@ || name == "target"@ || name
            == "node_modules"@ || name == "venv"@),
        WalkPolicy::Go => !(name == ".git"@ || name == ".pit"@ || name == "target"@ || name
            == "vendor"@ || "wasi_"@.is_prefix_of(name)),
        WalkPolicy::JavaScript => !(name == ".git"@ || name == ".pit"@ || name == "node_modules"@
            || name == "target"@),
        WalkPolicy::Python => !(name == ".git"@ || name == ".pit"@ || name == "__pycache__"@ || name
            == "venv"@),
        WalkPolicy::Everything => true,
    }
}

/// Whether a walk takes a file of that name.
pub open spec fn takes(policy: WalkPolicy, name: Seq<char>) -> bool {
    match policy {
        WalkPolicy::Project | WalkPolicy::Everything => true,
        WalkPolicy::Go => name != "wit_exports.go"@ && (name == "go.mod"@ || name == "go.sum"@
            || name == "componentize-go.toml"@ || paths::extension(name) == Some("go"@)
            || paths::extension(name) == Some("wit"@)),
        WalkPolicy::JavaScript => name == "package.json"@ || name == "package-lock.json"@ || name
            == "pnpm-lock.yaml"@ || name == "main.js"@ || name == "main.ts"@ || paths::extension(
            name,
        ) == Some("wit"@),
        WalkPolicy::Python => paths::extension(name) == Some("py"@) || paths::extension(name)
            == Some("wit"@) || paths::extension(name) == Some("toml"@),
    }
}

/// Whether a walk enters a directory of that name.
fn policy_enters(policy: WalkPolicy, name: &str) -> (r: bool)
    ensures
        r == enters(policy, name@),
{
    match policy {
        WalkPolicy::Project => !(text_eq(name, ".git") || text_eq(name, ".pit") || text_eq(
            name,
            "target",
        ) || text_eq(name, "node_modules") || text_eq(name, "venv")),
        WalkPolicy::Go => !(text_eq(name, ".git") || text_eq(name, ".pit") || text_eq(
            name,
            "target",
        ) || text_eq(name, "vendor") || starts_with(name, "wasi_")),
        WalkPolicy::JavaScript => !(text_eq(name, ".git") || text_eq(name, ".pit") || text_eq(
            name,
            "node_modules",
        ) || text_eq(name, "target")),
        WalkPolicy::Python => !(text_eq(name, ".git") || text_eq(name, ".pit") || text_eq(
            name,
            "__pycache__",
        ) || text_eq(name, "venv")),
        WalkPolicy::Everything => true,
    }
}

/// Whether a walk takes a file of that name.
fn policy_takes(policy: WalkPolicy, name: &str) -> (r: bool)
    ensures
        r == takes(policy, name@),
{
    match policy {
        WalkPolicy::Project | WalkPolicy::Everything => true,
        WalkPolicy::Go => !text_eq(name, "wit_exports.go") && (text_eq(name, "go.mod") || text_eq(
            name,
            "go.sum",
        ) || text_eq(name, "componentize-go.toml") || has_extension(name, "go") || has_extension(
            name,
            "wit",
        )),
        WalkPolicy::JavaScript => text_eq(name, "package.json") || text_eq(
            name,
            "package-lock.json",
        ) || text_eq(name, "pnpm-lock.yaml") || text_eq(name, "main.js") || text_eq(name, "main.ts")
            || has_extension(name, "wit"),
        WalkPolicy::Python => has_extension(name, "py") || has_extension(name, "wit")
            || has_extension(name, "toml"),
    }
}

/// The directories below `dir` that a walk enters, in the order of the listing.
pub open spec fn entered(
    policy: WalkPolicy,
    dir: Seq<char>,
    listing: Seq<(Seq<char>, EntryKind)>,
) -> Seq<Seq<char>>
    decreases listing.len(),
{
    if listing.len() == 0 {
        Seq::empty()
    } else {
        let rest = entered(policy, dir, listing.drop_last());
        let (name, kind) = listing.last();
        if kind == EntryKind::Directory && enters(policy, name) {
            rest.push(paths::join_path(dir, name))
        } else {
            rest
        }
    }
}

/// The files in `dir` that a walk takes, in the order of the listing.
pub open spec fn taken(
    policy: WalkPolicy,
    dir: Seq<char>,
    listing: Seq<(Seq<char>, EntryKind)>,
) -> Seq<Seq<char>>
    decreases listing.len(),
{
    if listing.len() == 0 {
        Seq::empty()
    } else {
        let rest = taken(policy, dir, listing.drop_last());
        let (name, kind) = listing.last();
        if kind == EntryKind::File && takes(policy, name) {
            rest.push(paths::join_path(dir, name))
        } else {
            rest
        }
    }
}

/// A walk through the directories below a root. Paths are relative to the root.
#[derive(Debug, Clone)]
pub struct Walk {
    policy: WalkPolicy,
    pending: Vec<String>,
    found: Vec<String>,
}

/// The model of a walk: the directories still to list, and the files found.
#[verifier::ext_equal]
pub struct WalkView {
    pub policy: WalkPolicy,
    pub pending: Seq<Seq<char>>,
    pub found: Seq<Seq<char>>,
}

impl View for Walk {
    type V = WalkView;

    closed spec fn view(&self) -> WalkView {
        WalkView {
            policy: self.policy,
            pending: text::texts(self.pending@),
            found: text::texts(self.found@),
        }
    }
}

/// A walk that has listed nothing yet.
pub open spec fn walk_start(policy: WalkPolicy) -> WalkView {
    WalkView { policy, pending: seq![Seq::<char>::empty()], found: Seq::empty() }
}

/// A walk after the listing of its next directory.
pub open spec fn walk_step(w: WalkView, listing: Seq<(Seq<char>, EntryKind)>) -> WalkView {
    if w.pending.len() == 0 {
        w
    } else {
        WalkView {
            policy: w.policy,
            pending: w.pending.drop_last() + entered(w.policy, w.pending.last(), listing),
            found: w.found + taken(w.policy, w.pending.last(), listing),
        }
    }
}

impl Walk {
    /// A walk from the root.
    pub fn new(policy: WalkPolicy) -> (r: Self)
        ensures
            r@ == walk_start(policy),
    {
        let mut pending: Vec<String> = Vec::new();
        pending.push(String::new());
        let r = Walk { policy, pending, found: Vec::new() };
        assert(r@ =~= walk_start(policy)) by {
            assert(text::texts(r.pending@) =~= seq![Seq::<char>::empty()]);
            assert(text::texts(r.found@) =~= Seq::<Seq<char>>::empty());
        }
        r
    }

    /// The directory to list next; none when the walk is over.
    pub fn next(&self) -> (r: Option<String>)
        ensures
            text::option_view(r) == if self@.pending.len() > 0 {
                Some(self@.pending.last())
            } else {
                None
            },
    {
        if self.pending.len() == 0 {
            None
        } else {
            Some(self.pending[self.pending.len() - 1].clone())
        }
    }

    /// Takes the listing of the next directory.
    pub fn listed(&mut self, listing: &DirectoryListing)
        ensures
            final(self)@ == walk_step(old(self)@, listing@),
    {
        let dir = match self.pending.pop() {
            Some(dir) => dir,
            None => {
                return;
            },
        };
        let ghost start = *old(self);
        assert(text::texts(self.pending@) =~= start@.pending.drop_last());
        assert(start@.pending.last() == dir@);
        let mut i: usize = 0;
        assert(listing@.take(0) =~= Seq::empty());
        assert(text::texts(self.pending@) =~= start@.pending.drop_last() + entered(
            self.policy,
            dir@,
            listing@.take(0),
        ));
        assert(text::texts(self.found@) =~= start@.found + taken(self.policy, dir@, listing@.take(0)));
        while i < listing.entries.len()
            invariant
                i <= listing.entries@.len(),
                self.policy == start.policy,
                text::texts(self.pending@) == start@.pending.drop_last() + entered(
                    start.policy,
                    dir@,
                    listing@.take(i as int),
                ),
                text::texts(self.found@) == start@.found + taken(
                    start.policy,
                    dir@,
                    listing@.take(i as int),
                ),
            decreases listing.entries@.len() - i,
        {
            let entry = &listing.entries[i];
            assert(listing@[i as int] == entry@);
            assert(listing@.take(i + 1).drop_last() =~= listing@.take(i as int));
            assert(listing@.take(i + 1).last() == entry@);
            let ghost pending = text::texts(self.pending@);
            let ghost found = text::texts(self.found@);
            match entry.kind {
                EntryKind::Directory => {
                    if policy_enters(self.policy, entry.name.as_str()) {
                        let path = path_join(dir.as_str(), entry.name.as_str());
                        self.pending.push(path);
                        assert(text::texts(self.pending@) =~= pending.push(path@));
                    }
                },
                EntryKind::File => {
                    if policy_takes(self.policy, entry.name.as_str()) {
                        let path = path_join(dir.as_str(), entry.name.as_str());
                        self.found.push(path);
                        assert(text::texts(self.found@) =~= found.push(path@));
                    }
                },
                EntryKind::Other => {},
            }
            assert(text::texts(self.pending@) =~= start@.pending.drop_last() + entered(
                start.policy,
                dir@,
                listing@.take(i + 1),
            ));
            assert(text::texts(self.found@) =~= start@.found + taken(
                start.policy,
                dir@,
                listing@.take(i + 1),
            ));
            i = i + 1;
        }
        assert(listing@.take(i as int) =~= listing@);
    }

    /// The files found so far, in the order of paths.
    pub fn into_files(self) -> (r: Vec<String>)
        ensures
            text::texts(r@) == paths::sorted_paths(self@.found),
    {
        sort_paths(self.found)
    }
}

/// Whether a walk from `dir` finds `file` no more than `depth` directories below
/// it. `disk` gives the listing of every directory.
pub open spec fn visible(
    policy: WalkPolicy,
    disk: spec_fn(Seq<char>) -> Seq<(Seq<char>, EntryKind)>,
    dir: Seq<char>,
    file: Seq<char>,
    depth: nat,
) -> bool
    decreases depth,
{
    ||| taken(policy, dir, disk(dir)).contains(file)
    ||| depth > 0 && exists|i: int|
        0 <= i < entered(policy, dir, disk(dir)).len() && visible(
            policy,
            disk,
            #[trigger] entered(policy, dir, disk(dir))[i],
            file,
            (depth - 1) as nat,
        )
}

/// Whether a walk from `dir` finds `file`.
pub open spec fn reachable(
    policy: WalkPolicy,
    disk: spec_fn(Seq<char>) -> Seq<(Seq<char>, EntryKind)>,
    dir: Seq<char>,
    file: Seq<char>,
) -> bool {
    exists|depth: nat| visible(policy, disk, dir, file, depth)
}

/// Whether a walk is on its way to the files below the root: a file can be
/// reached exactly if it was found, or can be reached from a directory still to list.
pub open spec fn on_the_way(
    w: WalkView,
    disk: spec_fn(Seq<char>) -> Seq<(Seq<char>, EntryKind)>,
) -> bool {
    forall|file: Seq<char>| #[trigger]
        reachable(w.policy, disk, Seq::empty(), file) <==> w.found.contains(file) || exists|i: int|
            0 <= i < w.pending.len() && reachable(w.policy, disk, #[trigger] w.pending[i], file)
}

pub proof fn lemma_reachable(
    policy: WalkPolicy,
    disk: spec_fn(Seq<char>) -> Seq<(Seq<char>, EntryKind)>,
    dir: Seq<char>,
    file: Seq<char>,
)
    ensures
        reachable(policy, disk, dir, file) <==> taken(policy, dir, disk(dir)).contains(file)
            || exists|i: int|
            0 <= i < entered(policy, dir, disk(dir)).len() && reachable(
                policy,
                disk,
                #[trigger] entered(policy, dir, disk(dir))[i],
                file,
            ),
{
    let dirs = entered(policy, dir, disk(dir));
    if reachable(policy, disk, dir, file) {
        let depth = choose|depth: nat| visible(policy, disk, dir, file, depth);
        if !taken(policy, dir, disk(dir)).contains(file) {
            let i = choose|i: int|
                0 <= i < dirs.len() && visible(
                    policy,
                    disk,
                    #[trigger] dirs[i],
                    file,
                    (depth - 1) as nat,
                );
            assert(reachable(policy, disk, dirs[i], file));
        }
    } else {
        assert(!visible(policy, disk, dir, file, 0));
        assert forall|i: int| 0 <= i < dirs.len() implies !reachable(
            policy,
            disk,
            #[trigger] dirs[i],
            file,
        ) by {
            if reachable(policy, disk, dirs[i], file) {
                let depth = choose|depth: nat| visible(policy, disk, dirs[i], file, depth);
                assert(visible(policy, disk, dir, file, depth + 1));
            }
        }
    }
}

/// A walk that starts is on its way.
pub proof fn walk_starts_on_the_way(
    policy: WalkPolicy,
    disk: spec_fn(Seq<char>) -> Seq<(Seq<char>, EntryKind)>,
)
    ensures
        on_the_way(walk_start(policy), disk),
{
    let w = walk_start(policy);
    assert forall|file: Seq<char>| #[trigger]
        reachable(policy, disk, Seq::empty(), file) implies w.found.contains(file) || exists|i: int|
            0 <= i < w.pending.len() && reachable(policy, disk, #[trigger] w.pending[i], file) by {
        assert(reachable(policy, disk, w.pending[0], file));
    }
}

/// A walk that is given what is on the disk stays on its way.
pub proof fn walk_stays_on_the_way(
    w: WalkView,
    disk: spec_fn(Seq<char>) -> Seq<(Seq<char>, EntryKind)>,
)
    requires
        on_the_way(w, disk),
        w.pending.len() > 0,
    ensures
        on_the_way(walk_step(w, disk(w.pending.last())), disk),
{
    let dir = w.pending.last();
    let dirs = entered(w.policy, dir, disk(dir));
    let files = taken(w.policy, dir, disk(dir));
    let next = walk_step(w, disk(dir));
    let n = w.pending.len() - 1;
    assert forall|file: Seq<char>| #[trigger]
        reachable(next.policy, disk, Seq::empty(), file) <==> next.found.contains(file)
            || exists|i: int|
            0 <= i < next.pending.len() && reachable(
                next.policy,
                disk,
                #[trigger] next.pending[i],
                file,
            ) by {
        lemma_reachable(w.policy, disk, dir, file);
        if next.found.contains(file) {
            let k = choose|k: int| 0 <= k < next.found.len() && next.found[k] == file;
            if k < w.found.len() {
                assert(w.found[k] == file);
            } else {
                assert(files[k - w.found.len()] == file);
                assert(reachable(w.policy, disk, w.pending[n], file));
            }
        }
        if w.found.contains(file) {
            let k = choose|k: int| 0 <= k < w.found.len() && w.found[k] == file;
            assert(next.found[k] == file);
        }
        if files.contains(file) {
            let k = choose|k: int| 0 <= k < files.len() && files[k] == file;
            assert(next.found[w.found.len() + k] == file);
        }
        assert forall|i: int| 0 <= i < w.pending.len() && reachable(
            w.policy,
            disk,
            #[trigger] w.pending[i],
            file,
        ) implies next.found.contains(file) || exists|j: int|
            0 <= j < next.pending.len() && reachable(
                next.policy,
                disk,
                #[trigger] next.pending[j],
                file,
            ) by {
            if i < n {
                assert(next.pending[i] == w.pending[i]);
            } else if !files.contains(file) {
                let k = choose|k: int|
                    0 <= k < dirs.len() && reachable(w.policy, disk, #[trigger] dirs[k], file);
                assert(next.pending[n + k] == dirs[k]);
            }
        }
        assert forall|j: int| 0 <= j < next.pending.len() && reachable(
            next.policy,
            disk,
            #[trigger] next.pending[j],
            file,
        ) implies exists|i: int|
            0 <= i < w.pending.len() && reachable(w.policy, disk, #[trigger] w.pending[i], file) by {
            if j < n {
                assert(w.pending[j] == next.pending[j]);
            } else {
                assert(dirs[j - n] == next.pending[j]);
                assert(reachable(w.policy, disk, w.pending[n], file));
            }
        }
    }
}

/// A walk that is over has found exactly the files that can be reached.
pub proof fn walk_finds_what_is_reachable(
    w: WalkView,
    disk: spec_fn(Seq<char>) -> Seq<(Seq<char>, EntryKind)>,
    file: Seq<char>,
)
    requires
        on_the_way(w, disk),
        w.pending.len() == 0,
    ensures
        w.found.contains(file) <==> reachable(w.policy, disk, Seq::empty(), file),
{
}

} // verus!
