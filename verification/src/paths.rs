//! Paths as text, as Windows and the other systems take them.
use vstd::prelude::*;
use crate::text;

verus! {

/// What a path of Windows may start with: a drive, a share or a device, or the mark of a path that
/// is taken as it is written.
#[derive(Clone, Copy, Debug, PartialEq, Eq, Structural)]
pub enum PathPrefix {
    Absent,
    Drive,
    Share,
    Verbatim,
}

/// Whether a character separates the parts of a path of Windows.
pub open spec fn is_separator(c: char) -> bool {
    c == '/' || c == '\\'
}

/// The characters at which a part of a path of Windows ends: in a path that is taken as it is
/// written, a slash is a character like any other.
pub open spec fn separators(verbatim: bool) -> spec_fn(char) -> bool {
    |c: char| c == '\\' || (!verbatim && c == '/')
}

/// The end of the part of a path of Windows that starts at a position.
pub open spec fn part_end(path: Seq<char>, from: int, verbatim: bool) -> int {
    from + text::first_where(path.skip(from), separators(verbatim))
}

/// Whether a letter and a colon stand at a position.
pub open spec fn has_drive(path: Seq<char>, at: int) -> bool {
    &&& at + 2 <= path.len()
    &&& 'a' <= path[at] <= 'z' || 'A' <= path[at] <= 'Z'
    &&& path[at + 1] == ':'
}

/// The end of a server and a share that start at a position: that of the server where no share
/// follows.
pub open spec fn share_end(path: Seq<char>, from: int, verbatim: bool) -> int {
    let server = part_end(path, from, verbatim);
    if server < path.len() && part_end(path, server + 1, verbatim) > server + 1 {
        part_end(path, server + 1, verbatim)
    } else {
        server
    }
}

/// What a path of Windows starts with, and how long that is.
pub open spec fn prefix_of(path: Seq<char>) -> (PathPrefix, int) {
    if path.len() >= 2 && is_separator(path[0]) && is_separator(path[1]) {
        let server = part_end(path, 2, false);
        if path.len() >= 4 && path[0] == '\\' && path[1] == '\\' && path[2] == '?' && path[3]
            == '\\' {
            if path.len() >= 8 && path[4] == 'U' && path[5] == 'N' && path[6] == 'C' && is_separator(
                path[7],
            ) {
                (PathPrefix::Verbatim, share_end(path, 8, true))
            } else if has_drive(path, 4) && (path.len() == 6 || is_separator(path[6])) {
                (PathPrefix::Verbatim, 6)
            } else {
                (PathPrefix::Verbatim, part_end(path, 4, true))
            }
        } else if path.len() >= 4 && path[2] == '.' && is_separator(path[3]) {
            (PathPrefix::Share, part_end(path, 4, false))
        } else if server > 2 && share_end(path, 2, false) > server {
            (PathPrefix::Share, share_end(path, 2, false))
        } else {
            (PathPrefix::Absent, 0)
        }
    } else if has_drive(path, 0) {
        (PathPrefix::Drive, 2)
    } else {
        (PathPrefix::Absent, 0)
    }
}

/// A path with slashes in the place of backslashes, where it is one of Windows.
pub open spec fn slashed(path: Seq<char>, windows: bool) -> Seq<char> {
    if windows {
        path.map_values(
            |c: char|
                if c == '\\' {
                    '/'
                } else {
                    c
                },
        )
    } else {
        path
    }
}

/// The parts of a path behind what it starts with, and between its separators.
pub open spec fn parts_of(path: Seq<char>, windows: bool) -> Seq<Seq<char>> {
    if !windows {
        text::split(path, '/')
    } else if prefix_of(path).0 == PathPrefix::Verbatim {
        text::split(path.skip(prefix_of(path).1), '\\')
    } else {
        text::split(slashed(path.skip(prefix_of(path).1), true), '/')
    }
}

/// Parts of a path after one more: a dot changes nothing, and two dots lead back out of a part that
/// has a name.
pub open spec fn walked(parts: Seq<Seq<char>>, part: Seq<char>) -> Seq<Seq<char>> {
    if !names_something(part) {
        parts
    } else if part == ".."@ {
        if parts.len() > 0 && parts.last() != "."@ && parts.last() != ".."@ {
            parts.drop_last()
        } else {
            parts
        }
    } else {
        parts.push(part)
    }
}

/// Parts of a path after several more.
pub open spec fn walked_all(parts: Seq<Seq<char>>, more: Seq<Seq<char>>) -> Seq<Seq<char>>
    decreases more.len(),
{
    if more.len() == 0 {
        parts
    } else {
        walked(walked_all(parts, more.drop_last()), more.last())
    }
}

/// The parts with names in a path that is taken as it is written.
pub open spec fn verbatim_parts(path: Seq<char>) -> Seq<Seq<char>> {
    parts_of(path, true).filter(|part: Seq<char>| part.len() > 0)
}

/// Whether a path goes on at the root behind what it starts with.
pub open spec fn is_rooted(path: Seq<char>) -> bool {
    prefix_of(path).1 < path.len() && is_separator(path[prefix_of(path).1])
}

/// A path that is taken as it is written, extended by a part: dots are resolved.
pub open spec fn verbatim_joined(base: Seq<char>, part: Seq<char>) -> Seq<char> {
    let from_root = is_separator(part[0]);
    let start = if from_root {
        Seq::empty()
    } else {
        verbatim_parts(base)
    };
    let parts = walked_all(start, text::split(slashed(part, true), '/'));
    base.take(prefix_of(base).1) + (if from_root || is_rooted(base) || parts.len() > 0 {
        "\\"@
    } else {
        ""@
    }) + text::joined(parts, "\\"@)
}

/// `base` extended by `part`. An absolute part stands for itself, else a separator stands between
/// the two unless `base` is empty or already ends in one. On Windows, a part with a drive or a share
/// stands for itself too, one that starts with a separator keeps the drive or share of `base`, and a
/// bare drive gets no separator.
pub open spec fn joined_path(base: Seq<char>, part: Seq<char>, windows: bool) -> Seq<char> {
    if !windows {
        if part.len() > 0 && part[0] == '/' {
            part
        } else if base.len() > 0 && base.last() != '/' {
            base.push('/') + part
        } else {
            base + part
        }
    } else if prefix_of(part).0 != PathPrefix::Absent {
        part
    } else if prefix_of(base).0 == PathPrefix::Verbatim && part.len() > 0 {
        verbatim_joined(base, part)
    } else if part.len() > 0 && is_separator(part[0]) {
        base.take(prefix_of(base).1) + part
    } else if base.len() > 0 && !is_separator(base.last()) && prefix_of(base) != (
        PathPrefix::Drive,
        base.len() as int,
    ) {
        base.push('\\') + part
    } else {
        base + part
    }
}

/// Whether a path says by itself where a file is: it starts at the root, on Windows that of a drive,
/// a share or a device.
pub open spec fn is_absolute_path(path: Seq<char>, windows: bool) -> bool {
    if !windows {
        path.len() > 0 && path[0] == '/'
    } else {
        match prefix_of(path).0 {
            PathPrefix::Absent => false,
            PathPrefix::Drive => is_rooted(path),
            PathPrefix::Share => true,
            PathPrefix::Verbatim => true,
        }
    }
}

fn separates(c: char) -> (res: bool)
    ensures
        res == is_separator(c),
{
    c == '/' || c == '\\'
}

fn find_part_end(chars: &Vec<char>, from: usize, verbatim: bool) -> (res: usize)
    requires
        from <= chars@.len(),
    ensures
        from <= res <= chars@.len(),
        res == part_end(chars@, from as int, verbatim),
{
    let n = chars.len();
    let ghost rest = chars@.skip(from as int);
    let mut i: usize = from;
    while i < n && !(chars[i] == '\\' || (!verbatim && chars[i] == '/'))
        invariant
            n == chars@.len(),
            from <= i <= n,
            rest == chars@.skip(from as int),
            forall|j: int| 0 <= j < i - from ==> !separators(verbatim)(#[trigger] rest[j]),
        decreases n - i,
    {
        assert(rest[i - from] == chars@[i as int]);
        i += 1;
    }
    proof {
        if i < n {
            assert(rest[i - from] == chars@[i as int]);
        }
        text::lemma_first_where_is(rest, separators(verbatim), i - from);
    }
    i
}

fn find_share_end(chars: &Vec<char>, from: usize, verbatim: bool) -> (res: usize)
    requires
        from <= chars@.len(),
    ensures
        from <= res <= chars@.len(),
        res == share_end(chars@, from as int, verbatim),
{
    let server = find_part_end(chars, from, verbatim);
    if server < chars.len() {
        let end = find_part_end(chars, server + 1, verbatim);
        if end > server + 1 {
            return end;
        }
    }
    server
}

fn drive_at(chars: &Vec<char>, at: usize) -> (res: bool)
    requires
        at <= 4,
    ensures
        res == has_drive(chars@, at as int),
{
    at + 2 <= chars.len() && (('a' <= chars[at] && chars[at] <= 'z') || ('A' <= chars[at]
        && chars[at] <= 'Z')) && chars[at + 1] == ':'
}

fn find_prefix(chars: &Vec<char>) -> (res: (PathPrefix, usize))
    ensures
        res.1 <= chars@.len(),
        prefix_of(chars@) == (res.0, res.1 as int),
{
    let n = chars.len();
    if n >= 2 && separates(chars[0]) && separates(chars[1]) {
        if n >= 4 && chars[0] == '\\' && chars[1] == '\\' && chars[2] == '?' && chars[3] == '\\' {
            if n >= 8 && chars[4] == 'U' && chars[5] == 'N' && chars[6] == 'C' && separates(
                chars[7],
            ) {
                return (PathPrefix::Verbatim, find_share_end(chars, 8, true));
            }
            if drive_at(chars, 4) && (n == 6 || separates(chars[6])) {
                return (PathPrefix::Verbatim, 6);
            }
            return (PathPrefix::Verbatim, find_part_end(chars, 4, true));
        }
        if n >= 4 && chars[2] == '.' && separates(chars[3]) {
            return (PathPrefix::Share, find_part_end(chars, 4, false));
        }
        let server = find_part_end(chars, 2, false);
        let share = find_share_end(chars, 2, false);
        if server > 2 && share > server {
            return (PathPrefix::Share, share);
        }
        return (PathPrefix::Absent, 0);
    }
    if drive_at(chars, 0) {
        (PathPrefix::Drive, 2)
    } else {
        (PathPrefix::Absent, 0)
    }
}

/// A text with slashes in the place of backslashes.
fn with_slashes(chars: &Vec<char>, from: usize) -> (res: String)
    requires
        from <= chars@.len(),
    ensures
        res@ == slashed(chars@.skip(from as int), true),
{
    let ghost all = slashed(chars@.skip(from as int), true);
    let mut out = String::new();
    let mut i: usize = from;
    assert(out@ =~= all.take(0));
    while i < chars.len()
        invariant
            from <= i <= chars@.len(),
            all == slashed(chars@.skip(from as int), true),
            out@ == all.take(i - from),
        decreases chars@.len() - i,
    {
        assert(chars@.skip(from as int)[i - from] == chars@[i as int]);
        if chars[i] == '\\' {
            out.push('/');
        } else {
            out.push(chars[i]);
        }
        i += 1;
        assert(out@ =~= all.take(i - from));
    }
    assert(all.take(i - from) =~= all);
    out
}

/// The parts of a path.
pub fn split_path(path: &str, windows: bool) -> (res: Vec<String>)
    ensures
        res.deep_view() == parts_of(path@, windows),
{
    if !windows {
        return text::split_all(path, '/');
    }
    let chars = text::chars_of(path);
    let (prefix, length) = find_prefix(&chars);
    if prefix == PathPrefix::Verbatim {
        let rest = text::text_of(&chars, length, chars.len());
        assert(rest@ =~= path@.skip(length as int));
        text::split_all(rest.as_str(), '\\')
    } else {
        let rest = with_slashes(&chars, length);
        text::split_all(rest.as_str(), '/')
    }
}

fn walk(parts: &mut Vec<String>, part: &str)
    ensures
        final(parts).deep_view() == walked(old(parts).deep_view(), part@),
{
    let ghost before = parts.deep_view();
    if text::is_empty(part) || text::same(part, ".") {
        return;
    }
    if text::same(part, "..") {
        let n = parts.len();
        if n > 0 {
            assert(before.last() == parts@[n - 1]@);
            if !text::same(parts[n - 1].as_str(), ".") && !text::same(parts[n - 1].as_str(), "..") {
                let _ = parts.pop();
                assert(parts.deep_view() =~= before.drop_last());
            }
        }
    } else {
        parts.push(text::copy(part));
        assert(parts.deep_view() =~= before.push(part@));
    }
}

fn parts_with_names(parts: &Vec<String>) -> (res: Vec<String>)
    ensures
        res.deep_view() == parts.deep_view().filter(|part: Seq<char>| part.len() > 0),
{
    let ghost all = parts.deep_view();
    let ghost is_named = |part: Seq<char>| part.len() > 0;
    let mut out: Vec<String> = Vec::new();
    let mut i: usize = 0;
    proof {
        reveal(Seq::filter);
        assert(all.take(0) =~= Seq::empty());
        assert(out.deep_view() =~= all.take(0).filter(is_named));
    }
    while i < parts.len()
        invariant
            i <= parts@.len(),
            all == parts.deep_view(),
            is_named == (|part: Seq<char>| part.len() > 0),
            out.deep_view() == all.take(i as int).filter(is_named),
        decreases parts@.len() - i,
    {
        let ghost before = out.deep_view();
        let ghost next = all.take(i + 1);
        proof {
            reveal(Seq::filter);
            assert(next.drop_last() =~= all.take(i as int));
            assert(next.last() == parts@[i as int]@);
        }
        if !text::is_empty(parts[i].as_str()) {
            out.push(text::copy(parts[i].as_str()));
            assert(out.deep_view() =~= before.push(parts@[i as int]@));
        }
        i += 1;
    }
    assert(all.take(i as int) =~= all);
    out
}

fn join_verbatim(base: &str, part: &str) -> (res: String)
    requires
        prefix_of(base@).0 == PathPrefix::Verbatim,
        part@.len() > 0,
    ensures
        res@ == verbatim_joined(base@, part@),
{
    let b = text::chars_of(base);
    let p = text::chars_of(part);
    let (_, length) = find_prefix(&b);
    let from_root = separates(p[0]);
    let rooted = length < b.len() && separates(b[length]);
    let mut parts: Vec<String> = if from_root {
        Vec::new()
    } else {
        let own = split_path(base, true);
        parts_with_names(&own)
    };
    let ghost start = parts.deep_view();
    assert(start =~= (if from_root {
        Seq::empty()
    } else {
        verbatim_parts(base@)
    }));
    let flat = with_slashes(&p, 0);
    assert(p@.skip(0) =~= part@);
    let more = text::split_all(flat.as_str(), '/');
    let ghost all = more.deep_view();
    let mut i: usize = 0;
    assert(all.take(0) =~= Seq::empty());
    while i < more.len()
        invariant
            i <= more@.len(),
            all == more.deep_view(),
            parts.deep_view() == walked_all(start, all.take(i as int)),
        decreases more@.len() - i,
    {
        let ghost next = all.take(i + 1);
        assert(next.drop_last() =~= all.take(i as int));
        assert(next.last() == more@[i as int]@);
        walk(&mut parts, more[i].as_str());
        i += 1;
    }
    assert(all.take(i as int) =~= all);
    let mut out = text::text_of(&b, 0, length);
    assert(out@ =~= base@.take(length as int));
    if from_root || rooted || parts.len() > 0 {
        out.append("\\");
    } else {
        out.append("");
    }
    let tail = text::join(&parts, "\\");
    out.append(tail.as_str());
    out
}

/// Extends a path by a part.
pub fn join(base: &str, part: &str, windows: bool) -> (res: String)
    ensures
        res@ == joined_path(base@, part@, windows),
{
    let p = text::chars_of(part);
    let b = text::chars_of(base);
    let n = b.len();
    if !windows {
        if p.len() > 0 && p[0] == '/' {
            return text::copy(part);
        }
        let mut out = text::copy(base);
        if n > 0 && b[n - 1] != '/' {
            out.push('/');
        }
        out.append(part);
        return out;
    }
    let (part_prefix, _) = find_prefix(&p);
    if part_prefix != PathPrefix::Absent {
        return text::copy(part);
    }
    let (prefix, length) = find_prefix(&b);
    if prefix == PathPrefix::Verbatim && p.len() > 0 {
        return join_verbatim(base, part);
    }
    if p.len() > 0 && separates(p[0]) {
        let mut out = text::text_of(&b, 0, length);
        assert(out@ =~= base@.take(length as int));
        out.append(part);
        return out;
    }
    let mut out = text::copy(base);
    if n > 0 && !separates(b[n - 1]) && !(prefix == PathPrefix::Drive && length == n) {
        out.push('\\');
    }
    out.append(part);
    out
}

/// Whether a path says by itself where a file is.
pub fn is_absolute(path: &str, windows: bool) -> (res: bool)
    ensures
        res == is_absolute_path(path@, windows),
{
    let p = text::chars_of(path);
    if !windows {
        return p.len() > 0 && p[0] == '/';
    }
    let (prefix, length) = find_prefix(&p);
    match prefix {
        PathPrefix::Absent => false,
        PathPrefix::Drive => length < p.len() && separates(p[length]),
        PathPrefix::Share => true,
        PathPrefix::Verbatim => true,
    }
}

/// Whether a path stays below the place that it is taken from: it starts neither at a root nor with
/// a drive, and no part of it leads upwards.
pub open spec fn stays_below(path: Seq<char>, windows: bool) -> bool {
    &&& path.len() > 0
    &&& path[0] != '/'
    &&& windows ==> path[0] != '\\' && !has_drive(path, 0)
    &&& !text::split(slashed(path, windows), '/').contains(".."@)
}

/// Whether a path stays below the place that it is taken from.
pub fn is_below(path: &str, windows: bool) -> (res: bool)
    ensures
        res == stays_below(path@, windows),
{
    let chars = text::chars_of(path);
    if chars.len() == 0 || chars[0] == '/' {
        return false;
    }
    if !windows {
        let parts = text::split_all(path, '/');
        return !text::list_contains(&parts, "..");
    }
    if chars[0] == '\\' || drive_at(&chars, 0) {
        return false;
    }
    let flat = with_slashes(&chars, 0);
    assert(chars@.skip(0) =~= path@);
    let parts = text::split_all(flat.as_str(), '/');
    !text::list_contains(&parts, "..")
}

/// Whether a text is a single name, on any system: no part of it separates anything, and it leads
/// nowhere else.
pub open spec fn is_simple_name(name: Seq<char>) -> bool {
    &&& name.len() > 0
    &&& forall|i: int|
        0 <= i < name.len() ==> (#[trigger] name[i]) != '/' && name[i] != '\\' && name[i] != ':'
    &&& name != "."@
    &&& name != ".."@
}

/// What stands before a name that extends a path.
pub open spec fn join_head(base: Seq<char>, windows: bool) -> Seq<char> {
    if !windows {
        if base.len() > 0 && base.last() != '/' {
            base.push('/')
        } else {
            base
        }
    } else if prefix_of(base).0 == PathPrefix::Verbatim {
        let parts = verbatim_parts(base);
        base.take(prefix_of(base).1) + "\\"@ + (if parts.len() == 0 {
            Seq::empty()
        } else {
            text::joined(parts, "\\"@) + "\\"@
        })
    } else if base.len() > 0 && !is_separator(base.last()) && prefix_of(base) != (
        PathPrefix::Drive,
        base.len() as int,
    ) {
        base.push('\\')
    } else {
        base
    }
}

proof fn lemma_one_part(name: Seq<char>)
    requires
        is_simple_name(name),
    ensures
        text::split(slashed(name, true), '/') == seq![name],
{
    assert(slashed(name, true) =~= name);
    text::lemma_first_where_is(name, text::equals('/'), name.len() as int);
}

/// A name that extends a path stands at its end, behind what does not depend on it.
pub proof fn lemma_join_name(base: Seq<char>, name: Seq<char>, windows: bool)
    requires
        is_simple_name(name),
    ensures
        joined_path(base, name, windows) == join_head(base, windows) + name,
{
    if windows {
        assert(!has_drive(name, 0)) by {
            if name.len() >= 2 {
                assert(name[1] != ':');
            }
        }
        assert(name[0] != '/' && name[0] != '\\');
        assert(prefix_of(name).0 == PathPrefix::Absent);
        if prefix_of(base).0 == PathPrefix::Verbatim {
            let start = verbatim_parts(base);
            lemma_one_part(name);
            let more = seq![name];
            assert(more.drop_last() =~= Seq::<Seq<char>>::empty());
            assert(more.last() == name);
            assert(walked_all(start, more.drop_last()) == start);
            assert(walked_all(start, more) == start.push(name));
            text::lemma_joined_push(start, "\\"@, name);
            assert(joined_path(base, name, windows) =~= join_head(base, windows) + name);
        }
    }
}

/// Paths below one directory differ where their names do.
pub proof fn lemma_join_injective(base: Seq<char>, a: Seq<char>, b: Seq<char>, windows: bool)
    requires
        is_simple_name(a),
        is_simple_name(b),
        joined_path(base, a, windows) == joined_path(base, b, windows),
    ensures
        a == b,
{
    lemma_join_name(base, a, windows);
    lemma_join_name(base, b, windows);
    let head = join_head(base, windows);
    assert((head + a).skip(head.len() as int) =~= a);
    assert((head + b).skip(head.len() as int) =~= b);
}

/// A path that is extended by nothing is another than one that is extended by a name.
pub proof fn lemma_join_nothing(base: Seq<char>, name: Seq<char>, windows: bool)
    requires
        is_simple_name(name),
    ensures
        joined_path(base, Seq::empty(), windows) != joined_path(base, name, windows),
{
    lemma_join_name(base, name, windows);
    let bare = joined_path(base, Seq::empty(), windows);
    let full = join_head(base, windows) + name;
    if windows && prefix_of(base).0 == PathPrefix::Verbatim {
        assert(is_separator(bare.last()));
        assert(full.last() == name.last());
        assert(name[name.len() - 1] == name.last());
    } else {
        assert(bare.len() == join_head(base, windows).len());
        assert(full.len() == bare.len() + name.len());
    }
}

/// Position of the last dot of a name that has something before it; none where there is no such
/// dot.
pub open spec fn extension_dot(name: Seq<char>) -> Option<int>
    decreases name.len(),
{
    if name.len() <= 1 {
        None
    } else if name.last() == '.' {
        Some(name.len() - 1)
    } else {
        extension_dot(name.drop_last())
    }
}

/// Whether a text without slashes names a file: the empty text, a dot and two dots do not.
pub open spec fn is_file_name(name: Seq<char>) -> bool {
    name.len() > 0 && name != "."@ && name != ".."@
}

/// The name of a file without its extension.
pub open spec fn stem(name: Seq<char>) -> Seq<char> {
    match extension_dot(name) {
        Some(i) => name.take(i),
        None => name,
    }
}

/// The name of a file with another extension; a text that names no file stays as it is.
pub open spec fn with_extension(name: Seq<char>, extension: Seq<char>) -> Seq<char> {
    if is_file_name(name) {
        stem(name) + "."@ + extension
    } else {
        name
    }
}

fn names_file(name: &str) -> (res: bool)
    ensures
        res == is_file_name(name@),
{
    !text::is_empty(name) && !text::same(name, ".") && !text::same(name, "..")
}

fn dot_position(chars: &Vec<char>) -> (res: usize)
    ensures
        res <= chars@.len(),
        match extension_dot(chars@) {
            Some(i) => res == i,
            None => res == chars@.len(),
        },
{
    let n = chars.len();
    let mut i: usize = n;
    assert(chars@.take(n as int) =~= chars@);
    while i > 1
        invariant
            i <= n,
            n == chars@.len(),
            extension_dot(chars@.take(i as int)) == extension_dot(chars@),
        decreases i,
    {
        assert(chars@.take(i as int).last() == chars@[i - 1]);
        if chars[i - 1] == '.' {
            return i - 1;
        }
        assert(chars@.take(i as int).drop_last() =~= chars@.take(i - 1));
        i -= 1;
    }
    n
}

/// The name of a file without its extension; none for a text that names no file.
pub fn file_stem(name: &str) -> (res: Option<String>)
    ensures
        res.deep_view() == (if is_file_name(name@) {
            Some(stem(name@))
        } else {
            None
        }),
{
    if !names_file(name) {
        return None;
    }
    let chars = text::chars_of(name);
    let i = dot_position(&chars);
    let out = text::text_of(&chars, 0, i);
    proof {
        assert(out@ =~= name@.take(i as int));
        if extension_dot(name@) is None {
            assert(name@.take(i as int) =~= name@);
        }
    }
    Some(out)
}

/// The name of a file with another extension.
pub fn replace_extension(name: &str, extension: &str) -> (res: String)
    ensures
        res@ == with_extension(name@, extension@),
{
    match file_stem(name) {
        Some(s) => {
            let mut out = s;
            out.append(".");
            out.append(extension);
            out
        },
        None => text::copy(name),
    }
}

/// Whether a part of a path names something: an empty part and a dot do not.
pub open spec fn names_something(part: Seq<char>) -> bool {
    part.len() > 0 && part != "."@
}

/// The last part of a path that names something. In a path that is taken as it is written, a dot does.
pub open spec fn last_part(parts: Seq<Seq<char>>, verbatim: bool) -> Option<Seq<char>>
    decreases parts.len(),
{
    if parts.len() == 0 {
        None
    } else if names_something(parts.last()) || (verbatim && parts.last().len() > 0) {
        Some(parts.last())
    } else {
        last_part(parts.drop_last(), verbatim)
    }
}

/// Whether a path is one of Windows that is taken as it is written.
pub open spec fn is_verbatim(path: Seq<char>, windows: bool) -> bool {
    windows && prefix_of(path).0 == PathPrefix::Verbatim
}

/// The name of the file at a path; a path that is empty or ends in two dots has none.
pub open spec fn file_name_of(path: Seq<char>, windows: bool) -> Option<Seq<char>> {
    match last_part(parts_of(path, windows), is_verbatim(path, windows)) {
        Some(name) => if name == ".."@ || name == "."@ {
            None
        } else {
            Some(name)
        },
        None => None,
    }
}

/// The name of the file at a path.
pub fn file_name(path: &str, windows: bool) -> (res: Option<String>)
    ensures
        res.deep_view() == file_name_of(path@, windows),
{
    let verbatim = if windows {
        let chars = text::chars_of(path);
        let (prefix, _) = find_prefix(&chars);
        prefix == PathPrefix::Verbatim
    } else {
        false
    };
    let parts = split_path(path, windows);
    let ghost all = parts.deep_view();
    let mut i: usize = parts.len();
    assert(all.take(i as int) =~= all);
    while i > 0
        invariant
            i <= parts@.len(),
            all == parts.deep_view(),
            verbatim == is_verbatim(path@, windows),
            last_part(all.take(i as int), verbatim) == last_part(all, verbatim),
            all == parts_of(path@, windows),
        decreases i,
    {
        let ghost head = all.take(i as int);
        assert(head.last() == parts@[i - 1]@);
        assert(head.drop_last() =~= all.take(i - 1));
        let part = parts[i - 1].as_str();
        if !text::is_empty(part) && (verbatim || !text::same(part, ".")) {
            if text::same(part, "..") || text::same(part, ".") {
                return None;
            }
            return Some(text::copy(part));
        }
        i -= 1;
    }
    assert(all.take(0).len() == 0);
    None
}

/// Where paths are written with slashes: a part that begins with one is a path of its own, and any
/// other stands at the end of the path, behind just one slash.
pub proof fn law_parts_stand_behind_a_slash(base: Seq<char>, part: Seq<char>)
    ensures
        part.len() > 0 && part[0] == '/' ==> joined_path(base, part, false) == part,
        !(part.len() > 0 && part[0] == '/') && base.len() > 0 && base.last() == '/' ==> joined_path(
            base,
            part,
            false,
        ) == base + part,
        !(part.len() > 0 && part[0] == '/') && base.len() > 0 && base.last() != '/' ==> joined_path(
            base,
            part,
            false,
        ) == base + seq!['/'] + part,
        base.len() == 0 ==> joined_path(base, part, false) == part,
        is_absolute_path(part, false) <==> part.len() > 0 && part[0] == '/',
{
    assert(base.push('/') + part =~= base + seq!['/'] + part);
    assert(base.len() == 0 ==> base + part =~= part);
}

/// Where paths are written with backslashes: a plain name stands behind just one separator, and on a
/// drive alone behind none; a part that begins with a separator keeps the drive alone; and a part with
/// a drive is a path of its own.
pub proof fn law_parts_stand_behind_a_backslash(base: Seq<char>, part: Seq<char>)
    requires
        prefix_of(base).0 != PathPrefix::Verbatim,
    ensures
        has_drive(part, 0) ==> joined_path(base, part, true) == part,
        part.len() > 0 && is_separator(part[0]) && prefix_of(part).0 == PathPrefix::Absent
            ==> joined_path(base, part, true) == base.take(prefix_of(base).1) + part,
        is_simple_name(part) && base.len() > 0 && is_separator(base.last()) ==> joined_path(
            base,
            part,
            true,
        ) == base + part,
        is_simple_name(part) && base.len() > 0 && !is_separator(base.last()) && !(has_drive(base, 0)
            && base.len() == 2) ==> joined_path(base, part, true) == base + seq!['\\'] + part,
        is_simple_name(part) && has_drive(base, 0) && base.len() == 2 ==> joined_path(
            base,
            part,
            true,
        ) == base + part,
        has_drive(base, 0) && base.len() > 2 && is_separator(base[2]) ==> is_absolute_path(
            base,
            true,
        ),
        prefix_of(base).0 == PathPrefix::Absent ==> !is_absolute_path(base, true),
{
    assert(base.push('\\') + part =~= base + seq!['\\'] + part);
    if is_simple_name(part) {
        assert(part[0] != '/' && part[0] != '\\' && part[0] != ':');
        assert(!has_drive(part, 0)) by {
            if part.len() >= 2 {
                assert(part[1] != ':');
            }
        }
    }
}

/// A name without a dot, or with its only dot in front, has no ending; else its ending follows the last
/// dot and its stem stands before it. Giving a name another ending keeps the stem.
pub proof fn law_endings_follow_the_last_dot(stem: Seq<char>, ending: Seq<char>, other: Seq<char>)
    requires
        stem.len() > 0,
        !ending.contains('.'),
        is_file_name(stem + seq!['.'] + ending),
    ensures
        self::stem(stem + seq!['.'] + ending) == stem,
        with_extension(stem + seq!['.'] + ending, other) == stem + "."@ + other,
        extension_dot(stem + seq!['.'] + ending) == Some(stem.len() as int),
        extension_dot(ending) is None,
        is_file_name(ending) ==> self::stem(ending) == ending && with_extension(ending, other)
            == ending + "."@ + other,
{
    lemma_last_dot(stem, ending);
    lemma_no_dot(ending);
    let name = stem + seq!['.'] + ending;
    assert(name.take(stem.len() as int) =~= stem);
}

proof fn lemma_last_dot(stem: Seq<char>, ending: Seq<char>)
    requires
        stem.len() > 0,
        !ending.contains('.'),
    ensures
        extension_dot(stem + seq!['.'] + ending) == Some(stem.len() as int),
    decreases ending.len(),
{
    let name = stem + seq!['.'] + ending;
    if ending.len() > 0 {
        assert(ending.contains(ending.last()));
        assert forall|i: int| 0 <= i < ending.drop_last().len() implies ending.drop_last()[i]
            != '.' by {
            assert(ending.contains(ending[i]));
        }
        lemma_last_dot(stem, ending.drop_last());
        assert(name.drop_last() =~= stem + seq!['.'] + ending.drop_last());
    }
}

proof fn lemma_no_dot(name: Seq<char>)
    requires
        !name.contains('.'),
    ensures
        extension_dot(name) is None,
    decreases name.len(),
{
    if name.len() > 1 {
        assert(name.contains(name.last()));
        assert forall|i: int| 0 <= i < name.drop_last().len() implies name.drop_last()[i] != '.' by {
            assert(name.contains(name[i]));
        }
        lemma_no_dot(name.drop_last());
    }
}

/// The name of a file is the last part of its path: what stands behind the last slash, where that is a
/// name.
pub proof fn law_files_are_named_by_their_last_part(base: Seq<char>, name: Seq<char>)
    requires
        is_file_name(name),
        !name.contains('/'),
        !base.contains('/'),
    ensures
        file_name_of(name, false) == Some(name),
        file_name_of(base + seq!['/'] + name, false) == Some(name),
{
    text::law_pieces_follow_each_other(name, '/', name);
    text::law_pieces_follow_each_other(base, '/', name);
    assert((seq![base] + seq![name]).last() == name);
    assert(seq![name].last() == name);
}

/// A path stays below a directory where it is not empty, does not begin anew, and never goes up.
pub proof fn law_paths_that_stay_below(path: Seq<char>, up: Seq<char>, rest: Seq<char>)
    requires
        !up.contains('/'),
    ensures
        stays_below(path, false) ==> !is_absolute_path(path, false) && path.len() > 0,
        stays_below(path, true) ==> !is_absolute_path(path, true) && path[0] != '\\' && !has_drive(
            path,
            0,
        ),
        up == ".."@ ==> !stays_below(up + seq!['/'] + rest, false) && !stays_below(up, false),
        up.len() > 0 && up != ".."@ ==> stays_below(up, false),
        up.len() > 0 && up != ".."@ && rest.len() > 0 ==> (stays_below(
            up + seq!['/'] + rest,
            false,
        ) <==> !text::split(rest, '/').contains(".."@)),
{
    text::law_pieces_follow_each_other(up, '/', rest);
    let s = up + seq!['/'] + rest;
    let all = seq![up] + text::split(rest, '/');
    assert(text::split(s, '/') == all);
    assert(all[0] == up);
    assert(seq![up][0] == up);
    if up.len() > 0 {
        assert(up.contains(up[0]));
        assert(s[0] == up[0]);
    }
    if text::split(rest, '/').contains(".."@) {
        let k = choose|k: int| 0 <= k < text::split(rest, '/').len() && text::split(rest, '/')[k] == ".."@;
        assert(all[k + 1] == ".."@);
    }
    if all.contains(".."@) && up != ".."@ {
        let k = choose|k: int| 0 <= k < all.len() && all[k] == ".."@;
        assert(text::split(rest, '/')[k - 1] == ".."@);
    }
}

/// Walking a path part by part: a name goes down, two dots go up where there is something to leave, and
/// one dot or nothing stays.
pub proof fn law_walking_goes_up_and_down(parts: Seq<Seq<char>>, name: Seq<char>)
    requires
        name.len() > 0,
        name != "."@,
        name != ".."@,
    ensures
        walked(parts, name) == parts.push(name),
        walked(walked(parts, name), ".."@) == parts,
        walked(parts, "."@) == parts,
        walked(parts, Seq::empty()) == parts,
        walked(Seq::empty(), ".."@).len() == 0,
{
    reveal_strlit("..");
    reveal_strlit(".");
    assert(".."@.len() == 2 && "."@.len() == 1);
    assert(parts.push(name).drop_last() =~= parts);
    assert(Seq::<char>::empty().len() == 0);
}

/// A trailing slash, or a dot behind one, does not change the name of a file; two dots name none.
pub proof fn law_trailing_slashes_do_not_count(name: Seq<char>)
    requires
        is_file_name(name),
        !name.contains('/'),
    ensures
        file_name_of(name + seq!['/'] + Seq::empty(), false) == Some(name),
        file_name_of(name + seq!['/'] + "."@, false) == Some(name),
        file_name_of(name + seq!['/'] + ".."@, false) is None,
        file_name_of(Seq::empty(), false) is None,
{
    reveal_strlit(".");
    reveal_strlit("..");
    let none = Seq::<char>::empty();
    assert("."@ =~= seq!['.']);
    assert(".."@ =~= seq!['.', '.']);
    assert(!"."@.contains('/'));
    assert(!".."@.contains('/'));
    text::law_pieces_follow_each_other(name, '/', none);
    text::law_pieces_follow_each_other(name, '/', "."@);
    text::law_pieces_follow_each_other(name, '/', ".."@);
    text::law_pieces_follow_each_other(none, '/', none);
    text::law_pieces_follow_each_other("."@, '/', none);
    text::law_pieces_follow_each_other(".."@, '/', none);
    reveal_with_fuel(last_part, 3);
    let a = seq![name] + seq![none];
    let b = seq![name] + seq!["."@];
    let c = seq![name] + seq![".."@];
    assert(a.last() == none && a.drop_last() =~= seq![name]);
    assert(b.last() == "."@ && b.drop_last() =~= seq![name]);
    assert(c.last() == ".."@);
    assert(seq![name].last() == name);
    assert(seq![none].last() == none && seq![none].drop_last() =~= Seq::<Seq<char>>::empty());
    assert(last_part(seq![name], false) == Some(name));
}

/// On Windows both slashes separate, but for verbatim paths, where the backslash alone does.
pub proof fn law_what_separates(c: char)
    ensures
        is_separator(c) <==> c == '/' || c == '\\',
        separators(true)(c) <==> c == '\\',
        separators(false)(c) <==> c == '/' || c == '\\',
{
}

proof fn lemma_part_end(path: Seq<char>, from: int, end: int, verbatim: bool)
    requires
        0 <= from <= end <= path.len(),
        forall|i: int| from <= i < end ==> !separators(verbatim)(#[trigger] path[i]),
        end < path.len() ==> separators(verbatim)(path[end]),
    ensures
        part_end(path, from, verbatim) == end,
{
    let rest = path.skip(from);
    assert forall|j: int| 0 <= j < end - from implies !separators(verbatim)(#[trigger] rest[j]) by {
        assert(rest[j] == path[from + j]);
    }
    if end < path.len() {
        assert(rest[end - from] == path[end]);
    }
    text::lemma_first_where_is(rest, separators(verbatim), end - from);
}

/// A path on a share begins with the share: its server and its name, behind two separators. Such a path
/// is absolute.
pub proof fn law_shares_are_prefixes(server: Seq<char>, share: Seq<char>, rest: Seq<char>)
    requires
        is_simple_name(server),
        is_simple_name(share),
        server != "."@ && server != "?"@,
        rest.len() > 0 ==> rest[0] == '\\',
    ensures
        ({
            let path = seq!['\\', '\\'] + server + seq!['\\'] + share + rest;
            &&& prefix_of(path) == (PathPrefix::Share, (3 + server.len() + share.len()) as int)
            &&& is_absolute_path(path, true)
        }),
{
    reveal_strlit("?");
    reveal_strlit(".");
    let path = seq!['\\', '\\'] + server + seq!['\\'] + share + rest;
    let middle = (2 + server.len()) as int;
    let end = (3 + server.len() + share.len()) as int;
    assert(path[0] == '\\' && path[1] == '\\' && path[middle] == '\\');
    assert forall|i: int| 2 <= i < middle implies !separators(false)(#[trigger] path[i]) by {
        assert(path[i] == server[i - 2]);
    }
    assert forall|i: int| middle + 1 <= i < end implies !separators(false)(#[trigger] path[i]) by {
        assert(path[i] == share[i - middle - 1]);
    }
    if end < path.len() {
        assert(path[end] == rest[0]);
    }
    lemma_part_end(path, 2, middle, false);
    lemma_part_end(path, middle + 1, end, false);
    assert(path[2] == server[0]);
    if server.len() == 1 {
        assert("?"@ =~= seq!['?'] && "."@ =~= seq!['.']);
        assert(server =~= seq![server[0]]);
    } else {
        assert(path[3] == server[1]);
    }
    assert(!(path[2] == '?' && path[3] == '\\'));
    assert(!(path[2] == '.' && is_separator(path[3])));
}

/// A drive is a letter and a colon, at the start of a path; a path on it is absolute only with a
/// separator behind it.
pub proof fn law_drives_are_letters(letter: char, rest: Seq<char>)
    requires
        'a' <= letter <= 'z' || 'A' <= letter <= 'Z',
    ensures
        prefix_of(seq![letter, ':'] + rest) == (PathPrefix::Drive, 2int),
        is_absolute_path(seq![letter, ':'] + rest, true) <==> rest.len() > 0 && (rest[0] == '/'
            || rest[0] == '\\'),
        !has_drive(rest, 0) && !(rest.len() >= 2 && is_separator(rest[0]) && is_separator(rest[1]))
            ==> prefix_of(rest) == (PathPrefix::Absent, 0int),
{
    let path = seq![letter, ':'] + rest;
    assert(path[0] == letter && path[1] == ':');
    if rest.len() > 0 {
        assert(path[2] == rest[0]);
    }
}

/// A verbatim path begins with two backslashes, a question mark and another backslash; a drive behind
/// them belongs to it. It is absolute.
pub proof fn law_verbatim_paths_begin_with_their_mark(letter: char, rest: Seq<char>)
    requires
        'a' <= letter <= 'z' || 'A' <= letter <= 'Z',
        rest.len() > 0 ==> rest[0] == '\\',
    ensures
        ({
            let path = seq!['\\', '\\', '?', '\\', letter, ':'] + rest;
            &&& prefix_of(path) == (PathPrefix::Verbatim, 6int)
            &&& is_absolute_path(path, true)
            &&& is_verbatim(path, true)
            &&& !is_verbatim(path, false)
        }),
{
    let path = seq!['\\', '\\', '?', '\\', letter, ':'] + rest;
    assert(path[0] == '\\' && path[1] == '\\' && path[2] == '?' && path[3] == '\\' && path[4]
        == letter && path[5] == ':');
    if rest.len() > 0 {
        assert(path[6] == rest[0]);
    }
}

/// The parts of a verbatim path are none of them empty.
pub proof fn law_verbatim_parts_are_not_empty(path: Seq<char>, i: int)
    requires
        0 <= i < verbatim_parts(path).len(),
    ensures
        verbatim_parts(path)[i].len() > 0,
{
    let all = parts_of(path, true);
    let keep = |part: Seq<char>| part.len() > 0;
    all.lemma_filter_pred(keep, i);
}

} // verus!
