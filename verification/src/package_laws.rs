//! What is known of an installed package: what its metadata says, where its code is, and
//! whether a native extension is among it.

use crate::path_laws;
use crate::paths;
use crate::project::PythonDistribution;
use crate::python_deps;
use crate::python_packages;
use crate::python_packages::{NamedView, NativeView};
use crate::report_laws;
use crate::requirement_laws;
use crate::requirement_laws::{is_constraint, is_distribution, is_space};
use crate::source_laws;
use crate::text;
use crate::walk::EntryKind;
use vstd::prelude::*;

verus! {

proof fn lemma_after_prefix(prefix: Seq<char>, rest: Seq<char>)
    ensures
        text::after_prefix(prefix + rest, prefix) == Some(rest),
{
    let whole = prefix + rest;
    assert(whole.subrange(0, prefix.len() as int) =~= prefix);
    assert(whole.subrange(prefix.len() as int, whole.len() as int) =~= rest);
}

proof fn lemma_field(all: Seq<Seq<char>>, k: int, field: Seq<char>, value: Seq<char>)
    requires
        0 <= k < all.len(),
        all[k] == field + seq![':'] + value,
        forall|j: int| 0 <= j < k ==> !(field + seq![':']).is_prefix_of(#[trigger] all[j]),
    ensures
        python_packages::field_among(all, field) == Some(text::trimmed(value)),
    decreases all.len(),
{
    let colon = seq![':'];
    if k == 0 {
        assert(all[0] =~= field + (colon + value));
        lemma_after_prefix(field, colon + value);
        lemma_after_prefix(colon, value);
    } else {
        assert(!(field + colon).is_prefix_of(all[0]));
        if let Some(rest) = text::after_prefix(all[0], field) {
            if colon.is_prefix_of(rest) {
                let head = field + colon;
                assert(all[0].subrange(0, field.len() as int) =~= field);
                assert(rest.subrange(0, 1) =~= colon);
                assert(rest[0] == ':');
                assert(all[0][field.len() as int] == rest[0]);
                assert(all[0].subrange(0, head.len() as int) =~= head);
            }
        }
        let rest = all.drop_first();
        assert(rest[k - 1] == all[k]);
        assert forall|j: int| 0 <= j < k - 1 implies !(field + colon).is_prefix_of(
            #[trigger] rest[j],
        ) by {
            assert(rest[j] == all[j + 1]);
        }
        lemma_field(rest, k - 1, field, value);
    }
}

proof fn lemma_requirement(all: Seq<Seq<char>>, k: int, name: Seq<char>)
    requires
        0 <= k < all.len(),
        python_packages::requirement(all[k]) == Some(name),
    ensures
        python_packages::requirements(all).contains(name),
    decreases all.len(),
{
    let found = python_packages::requirements(all);
    let rest = python_packages::requirements(all.drop_first());
    if k == 0 {
        assert(found[0] == name);
    } else {
        assert(all.drop_first()[k - 1] == all[k]);
        lemma_requirement(all.drop_first(), k - 1, name);
        let i = choose|i: int| 0 <= i < rest.len() && rest[i] == name;
        if python_packages::requirement(all[0]) is Some {
            assert(found[i + 1] == name);
        } else {
            assert(found[i] == name);
        }
    }
}

proof fn lemma_tag(all: Seq<Seq<char>>, k: int, value: Seq<char>)
    requires
        0 <= k < all.len(),
        all[k] == "Tag:"@ + value,
    ensures
        python_packages::tags(all).contains(text::trimmed(value)),
    decreases all.len(),
{
    let found = python_packages::tags(all);
    let rest = python_packages::tags(all.drop_first());
    let tag = text::trimmed(value);
    if k == 0 {
        lemma_after_prefix("Tag:"@, value);
        assert(found[0] == tag);
    } else {
        assert(all.drop_first()[k - 1] == all[k]);
        lemma_tag(all.drop_first(), k - 1, value);
        let i = choose|i: int| 0 <= i < rest.len() && rest[i] == tag;
        if text::after_prefix(all[0], "Tag:"@) is Some {
            assert(found[i + 1] == tag);
        } else {
            assert(found[i] == tag);
        }
    }
}

/// The name of an installed distribution is the one that its metadata gives first.
pub proof fn metadata_names_the_distribution(
    path: &str,
    metadata: &str,
    wheel: Option<&str>,
    d: PythonDistribution,
    k: int,
    gap: Seq<char>,
    name: Seq<char>,
)
    requires
        call_ensures(python_packages::read_distribution, (path, metadata, wheel), d),
        0 <= k < text::lines_of(metadata@).len(),
        text::lines_of(metadata@)[k] == "Name:"@ + (gap + name),
        is_space(gap),
        is_distribution(name),
        forall|j: int|
            0 <= j < k ==> !"Name:"@.is_prefix_of(#[trigger] text::lines_of(metadata@)[j]),
    ensures
        d@.name == name,
        d@.metadata_dir == path@,
        d@.native is None,
{
    reveal_strlit("Name:");
    reveal_strlit("Name");
    assert("Name"@ + seq![':'] =~= "Name:"@);
    lemma_field(text::lines_of(metadata@), k, "Name"@, gap + name);
    let none = Seq::<char>::empty();
    requirement_laws::lemma_name_chars(name);
    assert(gap + name + none =~= gap + name);
    assert(text::is_blank(gap)) by {
        assert forall|i: int| 0 <= i < gap.len() implies text::is_white(#[trigger] gap[i]) by {}
    }
    assert(name.last() == name[name.len() - 1]);
    path_laws::trimming_keeps_the_middle(gap, name, none);
}

/// Everything that the metadata of an installed distribution requires is known, but for
/// what belongs to extras; so is every tag of its wheel.
pub proof fn metadata_tells_what_is_required(
    path: &str,
    metadata: &str,
    wheel: &str,
    d: PythonDistribution,
    k: int,
    gap: Seq<char>,
    name: Seq<char>,
    tail: Seq<char>,
    tag: Seq<char>,
)
    requires
        call_ensures(python_packages::read_distribution, (path, metadata, Some(wheel)), d),
        is_space(gap),
        is_distribution(name),
        is_constraint(tail),
        !tail.contains('#'),
        !text::has_text(gap + name + tail, "extra =="@),
    ensures
        0 <= k < text::lines_of(metadata@).len() && text::lines_of(metadata@)[k]
            == "Requires-Dist:"@ + (gap + name + tail) ==> d@.required.contains(name),
        0 <= k < text::lines_of(wheel@).len() && text::lines_of(wheel@)[k] == "Tag:"@ + tag
            ==> d@.wheel_tags.contains(text::trimmed(tag)),
{
    let lines = text::lines_of(metadata@);
    if 0 <= k < lines.len() && lines[k] == "Requires-Dist:"@ + (gap + name + tail) {
        requirement_laws::metadata_requires_what_it_names(gap, name, tail);
        lemma_requirement(lines, k, name);
    }
    if 0 <= k < text::lines_of(wheel@).len() && text::lines_of(wheel@)[k] == "Tag:"@ + tag {
        lemma_tag(text::lines_of(wheel@), k, tag);
    }
}

/// Whether a path is written with its parts alone.
pub open spec fn is_canonical(path: Seq<char>) -> bool {
    paths::from_parts(paths::path_parts(path)) == path
}

/// The directory of a path is the one that it was joined to.
pub proof fn parents_hold_their_entries(dir: Seq<char>, name: Seq<char>)
    requires
        is_canonical(dir),
        path_laws::is_plain_name(name),
    ensures
        paths::parent(paths::join_path(dir, name)) == Some(dir),
        is_canonical(paths::join_path(dir, name)),
        is_canonical(seq!['/']),
{
    path_laws::names_are_the_last_part(dir, name);
    let parts = paths::path_parts(dir);
    assert(parts.push(name).drop_last() =~= parts);
    assert(parts.push(name).last() == name);
    if name == seq!['/'] {
        assert(name[0] == '/');
        assert(name.contains('/'));
    }
    let root = seq!['/'];
    let none = Seq::<char>::empty();
    assert(root =~= none.push('/') + none);
    crate::bridge_laws::lemma_segments(none, none);
    let slash = seq!['/'];
    text::lemma_first_of_is(none, slash, 0);
    assert(paths::segments(none) =~= seq![none]);
    assert(paths::segments(root) =~= seq![none, none]);
    assert(seq![none, none].drop_first() =~= seq![none]);
    assert(seq![none].drop_first() =~= Seq::<Seq<char>>::empty());
    reveal_with_fuel(paths::parts_from, 3);
    assert(paths::parts_from(seq![none, none], false) =~= Seq::<Seq<char>>::empty());
    assert(paths::path_parts(root) =~= seq![root]);
    assert(seq![root].drop_last() =~= Seq::<Seq<char>>::empty());
    reveal_with_fuel(paths::from_parts, 2);
    assert(paths::from_parts(seq![root]) =~= root);
}

/// The code of a distribution is looked for beside its metadata.
pub proof fn code_stands_beside_the_metadata(
    site: Seq<char>,
    directory: Seq<char>,
    path: &str,
    metadata: &str,
    wheel: Option<&str>,
    d: PythonDistribution,
)
    requires
        is_canonical(site),
        path_laws::is_plain_name(directory),
        path@ == paths::join_path(site, directory),
        call_ensures(python_packages::read_distribution, (path, metadata, wheel), d),
    ensures
        d@.root == site,
{
    parents_hold_their_entries(site, directory);
}

proof fn lemma_top_level(root: Seq<char>, all: Seq<Seq<char>>, k: int)
    requires
        0 <= k < all.len(),
        !text::is_blank(all[k]),
    ensures
        python_packages::top_level_roots(root, all).contains(
            paths::join_path(root, text::trimmed(all[k])),
        ),
    decreases all.len(),
{
    let found = python_packages::top_level_roots(root, all);
    let rest = python_packages::top_level_roots(root, all.drop_first());
    let place = paths::join_path(root, text::trimmed(all[k]));
    if k == 0 {
        assert(found[0] == place);
    } else {
        assert(all.drop_first()[k - 1] == all[k]);
        lemma_top_level(root, all.drop_first(), k - 1);
        let i = choose|i: int| 0 <= i < rest.len() && rest[i] == place;
        if text::is_blank(all[0]) {
            assert(found[i] == place);
        } else {
            assert(found[i + 1] == place);
        }
    }
}

/// The code of a package is looked for where its list of modules says, every one of them.
pub proof fn listed_modules_are_looked_into(
    d: PythonDistribution,
    top_level: &str,
    roots: Vec<String>,
    k: int,
)
    requires
        call_ensures(python_packages::package_roots, (&d, Some(top_level)), roots),
        0 <= k < text::lines_of(top_level@).len(),
        !text::is_blank(text::lines_of(top_level@)[k]),
    ensures
        exists|i: int|
            0 <= i < roots@.len() && (#[trigger] roots@[i])@ == paths::join_path(
                d@.root,
                text::trimmed(text::lines_of(top_level@)[k]),
            ),
{
    let all = text::lines_of(top_level@);
    lemma_top_level(d@.root, all, k);
    let named = python_packages::top_level_roots(d@.root, all);
    let place = paths::join_path(d@.root, text::trimmed(all[k]));
    let i = choose|i: int| 0 <= i < named.len() && named[i] == place;
    assert(text::texts(roots@) == named);
    assert(text::texts(roots@)[i] == roots@[i]@);
}

/// Without such a list it is looked for in the module named like the package, in lower
/// case and with underscores.
pub proof fn packages_are_looked_into_by_name(
    d: PythonDistribution,
    roots: Vec<String>,
    module: Seq<char>,
)
    requires
        call_ensures(python_packages::package_roots, (&d, None), roots),
        is_distribution(d@.name),
        module.len() == d@.name.len(),
        forall|i: int|
            0 <= i < module.len() ==> report_laws::are_alike(#[trigger] module[i], d@.name[i])
                && module[i] != '-' && module[i] != '.' && !('A' <= module[i] <= 'Z'),
    ensures
        roots@.len() == 1 && roots@[0]@ == paths::join_path(d@.root, module),
{
    let name = d@.name;
    report_laws::lemma_normalized(name);
    let set = seq!['-'];
    assert(set[0] == '-');
    let n = python_deps::normalized(name);
    let x = text::replaced(n, set, '_');
    assert forall|i: int| 0 <= i < name.len() implies x[i] == module[i] by {
        assert(requirement_laws::is_name_char(name[i]));
        assert(report_laws::are_alike(module[i], name[i]));
        vstd::utf8::char_u32_cast(name[i], name[i] as u32);
        vstd::utf8::char_u32_cast(module[i], module[i] as u32);
        assert(n[i] == n[i]);
    }
    assert(x =~= module);
    assert(text::texts(roots@).len() == roots@.len());
    assert(text::texts(roots@)[0] == roots@[0]@);
}

/// Whether a name is that of a native extension.
pub open spec fn is_native_name(name: Seq<char>) -> bool {
    source_laws::ends_in(name, ".so"@) || source_laws::ends_in(name, ".pyd"@)
        || source_laws::ends_in(name, ".dll"@) || source_laws::ends_in(name, ".dylib"@)
}

proof fn lemma_native_name(dir: Seq<char>, name: Seq<char>)
    requires
        path_laws::is_plain_name(name),
    ensures
        python_packages::is_native_path(paths::join_path(dir, name)) <==> is_native_name(name),
{
    path_laws::files_have_their_names(dir, name);
    reveal_strlit("so");
    reveal_strlit(".so");
    reveal_strlit("pyd");
    reveal_strlit(".pyd");
    reveal_strlit("dll");
    reveal_strlit(".dll");
    reveal_strlit("dylib");
    reveal_strlit(".dylib");
    assert(seq!['.'] + "so"@ =~= ".so"@);
    assert(seq!['.'] + "pyd"@ =~= ".pyd"@);
    assert(seq!['.'] + "dll"@ =~= ".dll"@);
    assert(seq!['.'] + "dylib"@ =~= ".dylib"@);
    source_laws::extensions_follow_the_dot(name, "so"@);
    source_laws::extensions_follow_the_dot(name, "pyd"@);
    source_laws::extensions_follow_the_dot(name, "dll"@);
    source_laws::extensions_follow_the_dot(name, "dylib"@);
}

/// A search for native extensions after so many looks.
pub open spec fn searched(
    disk: spec_fn(Seq<char>) -> Option<Seq<Seq<char>>>,
    roots: Seq<Seq<char>>,
    looks: nat,
) -> NativeView
    decreases looks,
{
    if looks == 0 {
        NativeView { pending: roots, found: None }
    } else {
        let w = searched(disk, roots, (looks - 1) as nat);
        python_packages::native_step(w, disk(w.pending.last()))
    }
}

/// Whether the names lead, one below the other, from the root to a file.
pub open spec fn holds_file(
    disk: spec_fn(Seq<char>) -> Option<Seq<Seq<char>>>,
    root: Seq<char>,
    names: Seq<Seq<char>>,
) -> bool
    decreases names.len(),
{
    if names.len() == 0 {
        disk(root) is None
    } else {
        disk(root) is Some && disk(root)->0.contains(names[0]) && holds_file(
            disk,
            paths::join_path(root, names[0]),
            names.drop_first(),
        )
    }
}

proof fn lemma_holds_native(
    disk: spec_fn(Seq<char>) -> Option<Seq<Seq<char>>>,
    root: Seq<char>,
    names: Seq<Seq<char>>,
)
    requires
        names.len() > 0,
        holds_file(disk, root, names),
        path_laws::is_plain_name(names.last()),
        is_native_name(names.last()),
    ensures
        python_packages::holds_native(disk, root, names.len()),
    decreases names.len(),
{
    let entries = disk(root)->0;
    let i = choose|i: int| 0 <= i < entries.len() && entries[i] == names[0];
    let below = paths::join_path(root, names[0]);
    assert(python_packages::entry_paths(root, entries)[i] == below);
    let rest = names.drop_first();
    if rest.len() == 0 {
        assert(names.last() == names[0]);
        assert(holds_file(disk, below, rest));
        lemma_native_name(root, names[0]);
        assert(python_packages::holds_native(disk, below, 0));
    } else {
        assert(rest.last() == names.last());
        lemma_holds_native(disk, below, rest);
    }
}

proof fn lemma_search_knows(
    disk: spec_fn(Seq<char>) -> Option<Seq<Seq<char>>>,
    roots: Seq<Seq<char>>,
    looks: nat,
)
    ensures
        python_packages::native_known(disk, searched(disk, roots, looks))
            <==> python_packages::native_known(
            disk,
            NativeView { pending: roots, found: None },
        ),
    decreases looks,
{
    if looks > 0 {
        lemma_search_knows(disk, roots, (looks - 1) as nat);
        let w = searched(disk, roots, (looks - 1) as nat);
        if w.found is None && w.pending.len() > 0 {
            python_packages::native_search_keeps_knowing(disk, w);
        }
    }
}

/// A search that is over has found a native extension, if there is one anywhere below a
/// place where the code of the package is.
pub proof fn native_extensions_are_found(
    disk: spec_fn(Seq<char>) -> Option<Seq<Seq<char>>>,
    roots: Seq<Seq<char>>,
    looks: nat,
    i: int,
    names: Seq<Seq<char>>,
)
    requires
        searched(disk, roots, looks).pending.len() == 0 || searched(disk, roots, looks).found is Some,
        0 <= i < roots.len(),
        names.len() > 0,
        holds_file(disk, roots[i], names),
        path_laws::is_plain_name(names.last()),
        is_native_name(names.last()),
    ensures
        searched(disk, roots, looks).found is Some,
{
    lemma_holds_native(disk, roots[i], names);
    assert(python_packages::has_native(disk, roots[i]));
    lemma_search_knows(disk, roots, looks);
    let start = NativeView { pending: roots, found: None };
    assert(python_packages::has_native(disk, start.pending[i]));
}

/// The packages of a project are looked for in its own environments, in the active one
/// and where the environment names them.
pub proof fn environments_are_looked_into(
    project_root: &str,
    virtual_env: Option<String>,
    site_packages: Option<String>,
    roots: Vec<String>,
)
    requires
        call_ensures(
            python_packages::package_search_roots,
            (project_root, &virtual_env, &site_packages),
            roots,
        ),
    ensures
        text::texts(roots@).contains(
            paths::join_path(paths::join_path(project_root@, ".venv"@), "lib"@),
        ),
        text::texts(roots@).contains(
            paths::join_path(paths::join_path(project_root@, "venv"@), "lib"@),
        ),
        virtual_env matches Some(dir) ==> text::texts(roots@).contains(
            paths::join_path(dir@, "lib"@),
        ),
        site_packages matches Some(dir) ==> text::texts(roots@).contains(dir@),
{
    let all = text::texts(roots@);
    assert(all[0] == paths::join_path(paths::join_path(project_root@, ".venv"@), "lib"@));
    assert(all[1] == paths::join_path(paths::join_path(project_root@, "venv"@), "lib"@));
    if let Some(dir) = virtual_env {
        assert(all[2] == paths::join_path(dir@, "lib"@));
    }
    if let Some(dir) = site_packages {
        assert(all.last() == dir@);
    }
}

proof fn lemma_subdirectory(dir: Seq<char>, listing: Seq<(Seq<char>, EntryKind)>, name: Seq<char>)
    requires
        listing.contains((name, EntryKind::Directory)),
    ensures
        python_packages::subdirectories(dir, listing).contains(paths::join_path(dir, name)),
    decreases listing.len(),
{
    let all = python_packages::subdirectories(dir, listing);
    let rest = python_packages::subdirectories(dir, listing.drop_first());
    let place = paths::join_path(dir, name);
    let k = choose|k: int| 0 <= k < listing.len() && listing[k] == (name, EntryKind::Directory);
    if k == 0 {
        assert(all[0] == place);
    } else {
        assert(listing.drop_first()[k - 1] == listing[k]);
        lemma_subdirectory(dir, listing.drop_first(), name);
        let i = choose|i: int| 0 <= i < rest.len() && rest[i] == place;
        if listing[0].1 == EntryKind::Directory {
            assert(all[i + 1] == place);
        } else {
            assert(all[i] == place);
        }
    }
}

proof fn lemma_named_among(
    disk: spec_fn(Seq<char>) -> Seq<(Seq<char>, EntryKind)>,
    wanted: Seq<char>,
    dirs: Seq<Seq<char>>,
    k: int,
    depth: nat,
    place: Seq<char>,
)
    requires
        0 <= k < dirs.len(),
        python_packages::named_below(disk, wanted, dirs[k], depth).contains(place),
    ensures
        python_packages::named_below_all(disk, wanted, dirs, depth).contains(place),
    decreases dirs.len(),
{
    let first = python_packages::named_below(disk, wanted, dirs[0], depth);
    let rest = python_packages::named_below_all(disk, wanted, dirs.drop_first(), depth);
    let all = python_packages::named_below_all(disk, wanted, dirs, depth);
    assert(all =~= first + rest);
    if k == 0 {
        let i = choose|i: int| 0 <= i < first.len() && first[i] == place;
        assert(all[i] == place);
    } else {
        assert(dirs.drop_first()[k - 1] == dirs[k]);
        lemma_named_among(disk, wanted, dirs.drop_first(), k - 1, depth, place);
        let i = choose|i: int| 0 <= i < rest.len() && rest[i] == place;
        assert(all[first.len() + i] == place);
    }
}

proof fn lemma_named_step(
    disk: spec_fn(Seq<char>) -> Seq<(Seq<char>, EntryKind)>,
    wanted: Seq<char>,
    dir: Seq<char>,
    name: Seq<char>,
    depth: nat,
    place: Seq<char>,
)
    requires
        depth > 0,
        paths::file_name(dir) != Some(wanted),
        disk(dir).contains((name, EntryKind::Directory)),
        python_packages::named_below(
            disk,
            wanted,
            paths::join_path(dir, name),
            (depth - 1) as nat,
        ).contains(place),
    ensures
        python_packages::named_below(disk, wanted, dir, depth).contains(place),
{
    let dirs = python_packages::subdirectories(dir, disk(dir));
    lemma_subdirectory(dir, disk(dir), name);
    let k = choose|k: int| 0 <= k < dirs.len() && dirs[k] == paths::join_path(dir, name);
    lemma_named_among(disk, wanted, dirs, k, (depth - 1) as nat, place);
}

/// The packages of an environment are found in the directory of that name below the one
/// of the interpreter.
pub proof fn site_packages_are_found(
    disk: spec_fn(Seq<char>) -> Seq<(Seq<char>, EntryKind)>,
    roots: Seq<Seq<char>>,
    w: NamedView,
    i: int,
    interpreter: Seq<char>,
    wanted: Seq<char>,
)
    requires
        python_packages::search_result(disk, w) == python_packages::search_result(
            disk,
            python_packages::search_start(roots, wanted),
        ),
        w.pending.len() == 0,
        0 <= i < roots.len(),
        paths::file_name(roots[i]) != Some(wanted),
        path_laws::is_plain_name(interpreter),
        path_laws::is_plain_name(wanted),
        interpreter != wanted,
        disk(roots[i]).contains((interpreter, EntryKind::Directory)),
        disk(paths::join_path(roots[i], interpreter)).contains((wanted, EntryKind::Directory)),
    ensures
        w.found.contains(paths::join_path(paths::join_path(roots[i], interpreter), wanted)),
{
    let below = paths::join_path(roots[i], interpreter);
    let place = paths::join_path(below, wanted);
    path_laws::files_have_their_names(roots[i], interpreter);
    path_laws::files_have_their_names(below, wanted);
    assert(python_packages::named_below(disk, wanted, place, 2) =~= seq![place]);
    assert(seq![place][0] == place);
    lemma_named_step(disk, wanted, below, wanted, 3, place);
    lemma_named_step(disk, wanted, roots[i], interpreter, 4, place);
    lemma_named_among(disk, wanted, roots, i, 4, place);
    python_packages::search_finds_named_directories(disk, roots, wanted, w);
}

/// Metadata of installed packages is in directories that are named for it.
pub proof fn metadata_directories_are_told_by_name(name: &str, yes: bool, stem: Seq<char>)
    requires
        call_ensures(python_packages::is_metadata_directory, (name,), yes),
        stem.len() > 0,
    ensures
        name@ == stem + ".dist-info"@ || name@ == stem + ".egg-info"@ ==> yes,
        yes ==> ".dist-info"@.is_suffix_of(name@) || ".egg-info"@.is_suffix_of(name@),
{
    let n = stem.len() as int;
    if name@ == stem + ".dist-info"@ {
        assert(name@.subrange(n, name@.len() as int) =~= ".dist-info"@);
    }
    if name@ == stem + ".egg-info"@ {
        assert(name@.subrange(n, name@.len() as int) =~= ".egg-info"@);
    }
}

} // verus!
