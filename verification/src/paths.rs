//! File paths as text, with `/` between their parts.

use crate::ordering;
use crate::ordering::sort_by_keys;
use crate::text;
use crate::text::{chars_of, split, text_eq, text_of};
use vstd::prelude::*;

verus! {

/// Whether a path starts at the root.
pub open spec fn is_absolute(path: Seq<char>) -> bool {
    path.len() > 0 && path[0] == '/'
}

/// Whether a path starts at the root.
pub fn absolute(path: &str) -> (r: bool)
    ensures
        r == is_absolute(path@),
{
    let v = chars_of(path);
    v.len() > 0 && v[0] == '/'
}

/// `path` taken from the directory `root`; an absolute `path` stands for itself.
pub open spec fn join_path(root: Seq<char>, path: Seq<char>) -> Seq<char> {
    if is_absolute(path) || root.len() == 0 {
        path
    } else if root.last() == '/' {
        root + path
    } else {
        root.push('/') + path
    }
}

/// `path` taken from the directory `root`; an absolute `path` stands for itself.
pub fn path_join(root: &str, path: &str) -> (r: String)
    ensures
        r@ == join_path(root@, path@),
{
    let v = chars_of(root);
    if absolute(path) || v.len() == 0 {
        return path.to_owned();
    }
    let mut out = root.to_owned();
    if v[v.len() - 1] != '/' {
        out.push('/');
    }
    out.append(path);
    out
}

/// The text between the separators of a path.
pub open spec fn segments(path: Seq<char>) -> Seq<Seq<char>> {
    text::pieces(path, seq!['/'])
}

/// The text between the separators of a path.
fn split_path(path: &str) -> (r: Vec<String>)
    ensures
        text::texts(r@) == segments(path@),
{
    let set: [char; 1] = ['/'];
    assert(set@ =~= seq!['/']);
    split(path, &set)
}

/// Whether a path has a part that leads to the parent directory.
pub open spec fn climbs(path: Seq<char>) -> bool {
    segments(path).contains(seq!['.', '.'])
}

/// Whether a path has a part that leads to the parent directory.
pub fn has_parent_part(path: &str) -> (r: bool)
    ensures
        r == climbs(path@),
{
    let parts = split_path(path);
    proof {
        reveal_strlit("..");
        assert(".."@ =~= seq!['.', '.']);
    }
    let mut i: usize = 0;
    while i < parts.len()
        invariant
            i <= parts@.len(),
            text::texts(parts@) == segments(path@),
            ".."@ == seq!['.', '.'],
            forall|j: int| 0 <= j < i ==> segments(path@)[j] != seq!['.', '.'],
        decreases parts@.len() - i,
    {
        assert(text::texts(parts@)[i as int] == parts@[i as int]@);
        if text_eq(parts[i].as_str(), "..") {
            assert(segments(path@)[i as int] == seq!['.', '.']);
            return true;
        }
        i = i + 1;
    }
    false
}

/// The parts that a path consists of: empty parts count for nothing, nor does
/// `.` unless it leads the path.
pub open spec fn parts_from(s: Seq<Seq<char>>, leading: bool) -> Seq<Seq<char>>
    decreases s.len(),
{
    if s.len() == 0 {
        Seq::empty()
    } else if s[0].len() == 0 || (s[0] == seq!['.'] && !leading) {
        parts_from(s.drop_first(), false)
    } else {
        seq![s[0]] + parts_from(s.drop_first(), false)
    }
}

/// The parts of a path. The root is the part `/`.
pub open spec fn path_parts(path: Seq<char>) -> Seq<Seq<char>> {
    if is_absolute(path) {
        seq![seq!['/']] + parts_from(segments(path), false)
    } else {
        parts_from(segments(path), true)
    }
}

/// Whether two texts name one path.
pub open spec fn same_path(a: Seq<char>, b: Seq<char>) -> bool {
    path_parts(a) == path_parts(b)
}

/// The parts of a path. The root is the part `/`.
pub fn parts_of(path: &str) -> (r: Vec<String>)
    ensures
        text::texts(r@) == path_parts(path@),
{
    let all = split_path(path);
    let rooted = absolute(path);
    let mut out: Vec<String> = Vec::new();
    proof {
        reveal_strlit("/");
        reveal_strlit(".");
        assert("/"@ =~= seq!['/']);
        assert("."@ =~= seq!['.']);
    }
    if rooted {
        out.push("/".to_owned());
        assert(text::texts(out@) =~= seq![seq!['/']]);
    } else {
        assert(text::texts(out@) =~= Seq::<Seq<char>>::empty());
    }
    let ghost segs = segments(path@);
    assert(segs.skip(0) =~= segs);
    assert(path_parts(path@) =~= text::texts(out@) + parts_from(segs.skip(0), !rooted));
    let mut i: usize = 0;
    while i < all.len()
        invariant
            i <= all@.len(),
            text::texts(all@) == segs,
            "."@ == seq!['.'],
            path_parts(path@) == text::texts(out@) + parts_from(segs.skip(i as int), i == 0 && !rooted),
        decreases all@.len() - i,
    {
        assert(text::texts(all@)[i as int] == all@[i as int]@);
        assert(segs.skip(i as int).drop_first() =~= segs.skip(i + 1));
        let skip = all[i].as_str().is_empty() || (text_eq(all[i].as_str(), ".") && !(i == 0
            && !rooted));
        if !skip {
            let ghost before = text::texts(out@);
            out.push(all[i].clone());
            assert(text::texts(out@) =~= before.push(segs[i as int]));
            assert(before + (seq![segs[i as int]] + parts_from(segs.skip(i + 1), false)) =~= text::texts(out@)
                + parts_from(segs.skip(i + 1), false));
        }
        i = i + 1;
    }
    assert(segs.skip(i as int) =~= Seq::<Seq<char>>::empty());
    assert(text::texts(out@) + Seq::<Seq<char>>::empty() =~= text::texts(out@));
    out
}

/// Whether two texts name one path.
pub fn path_eq(a: &str, b: &str) -> (r: bool)
    ensures
        r == same_path(a@, b@),
{
    let x = parts_of(a);
    let y = parts_of(b);
    assert(text::texts(x@).len() == x@.len() && text::texts(y@).len() == y@.len());
    if x.len() != y.len() {
        return false;
    }
    let mut i: usize = 0;
    while i < x.len()
        invariant
            i <= x@.len() == y@.len(),
            text::texts(x@) == path_parts(a@),
            text::texts(y@) == path_parts(b@),
            forall|j: int| 0 <= j < i ==> text::texts(x@)[j] == text::texts(y@)[j],
        decreases x@.len() - i,
    {
        if !text_eq(x[i].as_str(), y[i].as_str()) {
            assert(text::texts(x@)[i as int] != text::texts(y@)[i as int]);
            return false;
        }
        i = i + 1;
    }
    assert(text::texts(x@) =~= text::texts(y@));
    true
}

/// Whether a part names something inside its directory.
pub open spec fn is_name(part: Seq<char>) -> bool {
    part != seq!['/'] && part != seq!['.'] && part != seq!['.', '.']
}

/// The last part of a path, if it is a name.
pub open spec fn file_name(path: Seq<char>) -> Option<Seq<char>> {
    let parts = path_parts(path);
    if parts.len() > 0 && is_name(parts.last()) {
        Some(parts.last())
    } else {
        None
    }
}

/// The last part of a path, if it is a name.
pub fn file_name_of(path: &str) -> (r: Option<String>)
    ensures
        text::option_view(r) == file_name(path@),
{
    let parts = parts_of(path);
    assert(text::texts(parts@).len() == parts@.len());
    proof {
        reveal_strlit("/");
        reveal_strlit(".");
        reveal_strlit("..");
        assert("/"@ =~= seq!['/']);
        assert("."@ =~= seq!['.']);
        assert(".."@ =~= seq!['.', '.']);
    }
    if parts.len() == 0 {
        return None;
    }
    let last = parts[parts.len() - 1].as_str();
    assert(text::texts(parts@).last() == last@);
    if text_eq(last, "/") || text_eq(last, ".") || text_eq(last, "..") {
        None
    } else {
        Some(last.to_owned())
    }
}

/// The position of the last dot of a name, or -1.
pub open spec fn last_dot(name: Seq<char>) -> int
    decreases name.len(),
{
    if name.len() == 0 {
        -1
    } else if name.last() == '.' {
        name.len() - 1
    } else {
        last_dot(name.drop_last())
    }
}

/// What follows the last dot of a name. A name that has no dot, or none but at
/// its start, has no extension, nor has `..`.
pub open spec fn extension(name: Seq<char>) -> Option<Seq<char>> {
    if name != seq!['.', '.'] && last_dot(name) > 0 {
        Some(name.skip(last_dot(name) + 1))
    } else {
        None
    }
}

/// Whether the extension of a name is `wanted`.
pub fn has_extension(name: &str, wanted: &str) -> (r: bool)
    ensures
        r == (extension(name@) == Some(wanted@)),
{
    proof {
        reveal_strlit("..");
        assert(".."@ =~= seq!['.', '.']);
    }
    if text_eq(name, "..") {
        return false;
    }
    let v = chars_of(name);
    let mut i: usize = v.len();
    assert(v@.take(v@.len() as int) =~= v@);
    while i > 0 && v[i - 1] != '.'
        invariant
            i <= v@.len(),
            last_dot(v@) == last_dot(v@.take(i as int)),
        decreases i,
    {
        assert(v@.take(i as int).drop_last() =~= v@.take(i - 1));
        i = i - 1;
    }
    if i == 0 {
        return false;
    }
    assert(last_dot(v@) == i - 1);
    if i == 1 {
        return false;
    }
    let tail = text_of(&v, i, v.len());
    assert(tail@ =~= v@.skip(i as int));
    text_eq(tail.as_str(), wanted)
}

/// The extension of the last part of a path.
pub open spec fn path_extension(path: Seq<char>) -> Option<Seq<char>> {
    match file_name(path) {
        Some(name) => extension(name),
        None => None,
    }
}

/// Whether the extension of the last part of a path is `wanted`.
pub fn path_has_extension(path: &str, wanted: &str) -> (r: bool)
    ensures
        r == (path_extension(path@) == Some(wanted@)),
{
    match file_name_of(path) {
        Some(name) => has_extension(name.as_str(), wanted),
        None => false,
    }
}

/// The order of a part: the root, `.`, `..`, then names by their characters.
pub open spec fn part_key(part: Seq<char>) -> Seq<u32> {
    if part == seq!['/'] {
        seq![0u32]
    } else if part == seq!['.'] {
        seq![1u32]
    } else if part == seq!['.', '.'] {
        seq![2u32]
    } else {
        seq![3u32] + part.map_values(|c: char| (c as u32 + 1) as u32) + seq![0u32]
    }
}

/// The order of a path: the orders of its parts, one after the other.
pub open spec fn parts_key(parts: Seq<Seq<char>>) -> Seq<u32>
    decreases parts.len(),
{
    if parts.len() == 0 {
        Seq::empty()
    } else {
        parts_key(parts.drop_last()) + part_key(parts.last())
    }
}

/// The order of a path among paths: part by part.
pub open spec fn path_key(path: Seq<char>) -> Seq<u32> {
    parts_key(path_parts(path))
}

/// The order of a path among paths.
pub fn key_of_path(path: &str) -> (r: Vec<u32>)
    ensures
        r@ == path_key(path@),
{
    let parts = parts_of(path);
    proof {
        reveal_strlit("/");
        reveal_strlit(".");
        reveal_strlit("..");
        assert("/"@ =~= seq!['/']);
        assert("."@ =~= seq!['.']);
        assert(".."@ =~= seq!['.', '.']);
    }
    let mut out: Vec<u32> = Vec::new();
    let ghost all = text::texts(parts@);
    assert(all.take(0) =~= Seq::<Seq<char>>::empty());
    let mut i: usize = 0;
    while i < parts.len()
        invariant
            i <= parts@.len(),
            all == text::texts(parts@),
            "/"@ == seq!['/'],
            "."@ == seq!['.'],
            ".."@ == seq!['.', '.'],
            out@ == parts_key(all.take(i as int)),
        decreases parts@.len() - i,
    {
        let part = parts[i].as_str();
        let ghost before = out@;
        assert(all[i as int] == part@);
        assert(all.take(i + 1).drop_last() =~= all.take(i as int));
        if text_eq(part, "/") {
            out.push(0u32);
        } else if text_eq(part, ".") {
            out.push(1u32);
        } else if text_eq(part, "..") {
            out.push(2u32);
        } else {
            out.push(3u32);
            let v = chars_of(part);
            let mut j: usize = 0;
            while j < v.len()
                invariant
                    j <= v@.len(),
                    out@ == before + seq![3u32] + v@.take(j as int).map_values(
                        |c: char| (c as u32 + 1) as u32,
                    ),
                decreases v@.len() - j,
            {
                let c: char = v[j];
                proof {
                    vstd::utf8::char_is_scalar(c);
                }
                out.push(c as u32 + 1);
                assert(v@.take(j + 1) =~= v@.take(j as int).push(v@[j as int]));
                assert(out@ =~= before + seq![3u32] + v@.take(j + 1).map_values(
                    |c: char| (c as u32 + 1) as u32,
                ));
                j = j + 1;
            }
            assert(v@.take(j as int) =~= v@);
            out.push(0u32);
        }
        assert(out@ =~= before + part_key(part@));
        i = i + 1;
    }
    assert(all.take(i as int) =~= all);
    out
}

proof fn lemma_parts_key_front(parts: Seq<Seq<char>>)
    requires
        parts.len() > 0,
    ensures
        parts_key(parts) == part_key(parts[0]) + parts_key(parts.drop_first()),
    decreases parts.len(),
{
    if parts.len() == 1 {
        assert(parts.drop_last() =~= Seq::<Seq<char>>::empty());
        assert(parts.drop_first() =~= Seq::<Seq<char>>::empty());
        assert(parts_key(parts.drop_last()) =~= Seq::<u32>::empty());
        assert(parts_key(parts) =~= part_key(parts[0]));
        assert(part_key(parts[0]) + Seq::<u32>::empty() =~= part_key(parts[0]));
    } else {
        lemma_parts_key_front(parts.drop_last());
        assert(parts.drop_last().drop_first() =~= parts.drop_first().drop_last());
        assert(parts_key(parts) =~= part_key(parts[0]) + parts_key(parts.drop_first()));
    }
}

/// The key of a part tells where it ends.
proof fn lemma_part_key_prefix(a: Seq<char>, b: Seq<char>, x: Seq<u32>, y: Seq<u32>)
    requires
        part_key(a) + x == part_key(b) + y,
    ensures
        a == b,
        x == y,
{
    let ka = part_key(a);
    let kb = part_key(b);
    let s = ka + x;
    let t = kb + y;
    assert(s[0] == ka[0] && t[0] == kb[0]);
    if ka[0] == 3u32 {
        assert forall|i: int| 0 <= i < a.len() && i < b.len() implies a[i] == b[i] by {
            assert(s[i + 1] == ka[i + 1]);
            assert(t[i + 1] == kb[i + 1]);
            assert(ka[i + 1] == (a[i] as u32 + 1) as u32);
            assert(kb[i + 1] == (b[i] as u32 + 1) as u32);
            vstd::utf8::char_is_scalar(a[i]);
            vstd::utf8::char_is_scalar(b[i]);
            vstd::utf8::char_u32_cast(a[i], a[i] as u32);
            vstd::utf8::char_u32_cast(b[i], b[i] as u32);
        }
        if a.len() < b.len() {
            assert(s[a.len() + 1int] == ka[a.len() + 1int]);
            assert(t[a.len() + 1int] == kb[a.len() + 1int]);
            vstd::utf8::char_is_scalar(b[a.len() as int]);
            assert(kb[a.len() + 1int] == (b[a.len() as int] as u32 + 1) as u32);
        }
        if b.len() < a.len() {
            assert(t[b.len() + 1int] == kb[b.len() + 1int]);
            assert(s[b.len() + 1int] == ka[b.len() + 1int]);
            vstd::utf8::char_is_scalar(a[b.len() as int]);
            assert(ka[b.len() + 1int] == (a[b.len() as int] as u32 + 1) as u32);
        }
        assert(a =~= b);
    }
    assert(ka == kb);
    assert(x =~= s.skip(ka.len() as int));
    assert(y =~= t.skip(kb.len() as int));
}

proof fn lemma_parts_key_injective(a: Seq<Seq<char>>, b: Seq<Seq<char>>)
    requires
        parts_key(a) == parts_key(b),
    ensures
        a == b,
    decreases a.len(),
{
    if a.len() > 0 {
        lemma_parts_key_front(a);
    }
    if b.len() > 0 {
        lemma_parts_key_front(b);
    }
    if a.len() == 0 || b.len() == 0 {
        assert(parts_key(a).len() == parts_key(b).len());
        assert(a =~= b);
    } else {
        lemma_part_key_prefix(
            a[0],
            b[0],
            parts_key(a.drop_first()),
            parts_key(b.drop_first()),
        );
        lemma_parts_key_injective(a.drop_first(), b.drop_first());
        assert(a =~= seq![a[0]] + a.drop_first());
        assert(b =~= seq![b[0]] + b.drop_first());
    }
}

/// Paths stand in one place of the order only if they are the same.
pub proof fn path_keys_tell_paths_apart(a: Seq<char>, b: Seq<char>)
    requires
        path_key(a) == path_key(b),
    ensures
        same_path(a, b),
{
    lemma_parts_key_injective(path_parts(a), path_parts(b));
}

/// Paths in their order.
pub open spec fn sorted_paths(paths: Seq<Seq<char>>) -> Seq<Seq<char>> {
    ordering::stable_sort(paths, |p: Seq<char>| path_key(p))
}

/// Paths in their order.
pub fn sort_paths(paths: Vec<String>) -> (r: Vec<String>)
    ensures
        text::texts(r@) == sorted_paths(text::texts(paths@)),
{
    let mut keys: Vec<Vec<u32>> = Vec::new();
    let mut i: usize = 0;
    while i < paths.len()
        invariant
            i <= paths@.len(),
            keys@.len() == i,
            forall|j: int| 0 <= j < i ==> (#[trigger] keys@[j])@ == path_key(paths@[j]@),
        decreases paths@.len() - i,
    {
        keys.push(key_of_path(paths[i].as_str()));
        i = i + 1;
    }
    proof {
        ordering::stable_sort_map(
            paths@,
            |s: String| s@,
            |s: String| path_key(s@),
            |p: Seq<char>| path_key(p),
        );
    }
    sort_by_keys(paths, keys, Ghost(|s: String| path_key(s@)))
}

/// Whether a path stays inside the directory it is taken from.
pub open spec fn is_inside(path: Seq<char>) -> bool {
    path.len() > 0 && !is_absolute(path) && !climbs(path)
}

/// Whether `path` lies below `root`, or is `root`: its parts begin with those of `root`.
pub open spec fn lies_below(path: Seq<char>, root: Seq<char>) -> bool {
    path_parts(root).is_prefix_of(path_parts(path))
}

/// Whether `path` lies below `root`, or is `root`.
pub fn path_starts_with(path: &str, root: &str) -> (r: bool)
    ensures
        r == lies_below(path@, root@),
{
    let x = parts_of(path);
    let y = parts_of(root);
    assert(text::texts(x@).len() == x@.len() && text::texts(y@).len() == y@.len());
    if y.len() > x.len() {
        return false;
    }
    let mut i: usize = 0;
    while i < y.len()
        invariant
            i <= y@.len() <= x@.len(),
            text::texts(x@) == path_parts(path@),
            text::texts(y@) == path_parts(root@),
            forall|j: int| 0 <= j < i ==> text::texts(x@)[j] == text::texts(y@)[j],
        decreases y@.len() - i,
    {
        if !text_eq(x[i].as_str(), y[i].as_str()) {
            assert(text::texts(x@)[i as int] != text::texts(y@)[i as int]);
            assert(text::texts(x@).subrange(0, y@.len() as int)[i as int] == text::texts(x@)[i as int]);
            return false;
        }
        i = i + 1;
    }
    assert(text::texts(x@).subrange(0, y@.len() as int) =~= text::texts(y@));
    true
}

/// The path with these parts.
pub open spec fn from_parts(parts: Seq<Seq<char>>) -> Seq<char>
    decreases parts.len(),
{
    if parts.len() == 0 {
        Seq::empty()
    } else {
        join_path(from_parts(parts.drop_last()), parts.last())
    }
}

/// The directory that holds a path. The root and the empty path are in none.
pub open spec fn parent(path: Seq<char>) -> Option<Seq<char>> {
    let parts = path_parts(path);
    if parts.len() > 0 && parts.last() != seq!['/'] {
        Some(from_parts(parts.drop_last()))
    } else {
        None
    }
}

/// The directory that holds a path. The root and the empty path are in none.
pub fn parent_of(path: &str) -> (r: Option<String>)
    ensures
        text::option_view(r) == parent(path@),
{
    let parts = parts_of(path);
    let ghost all = text::texts(parts@);
    assert(all.len() == parts@.len());
    proof {
        reveal_strlit("/");
        assert("/"@ =~= seq!['/']);
    }
    if parts.len() == 0 {
        return None;
    }
    assert(all.last() == parts@.last()@);
    if text_eq(parts[parts.len() - 1].as_str(), "/") {
        return None;
    }
    let mut out = String::new();
    assert(all.take(0) =~= Seq::<Seq<char>>::empty());
    let mut i: usize = 0;
    while i < parts.len() - 1
        invariant
            all == text::texts(parts@),
            all.len() == parts@.len() > 0,
            i <= parts@.len() - 1,
            out@ == from_parts(all.take(i as int)),
        decreases parts@.len() - i,
    {
        assert(all[i as int] == parts@[i as int]@);
        assert(all.take(i + 1).drop_last() =~= all.take(i as int));
        out = path_join(out.as_str(), parts[i].as_str());
        i = i + 1;
    }
    assert(all.take(i as int) =~= all.drop_last());
    Some(out)
}

} // verus!
