//! Paths of the machine the program runs on, taken as text.
//!
//! How such a path falls into components is for the machine to say: `\` is a
//! separator on Windows and an ordinary character on Unix, and a beginning such
//! as `C:` or `\\server\share` stands apart on Windows only. So a path has two
//! readings, and a machine goes by one of them.

use vstd::prelude::*;

use crate::slash_path;
use crate::text;

verus! {

/// One component of a path, as the machine reads it.
pub enum PathPart {
    Prefix,
    Root,
    Here,
    Up,
    Name(String),
}

// ---------------------------------------------------------------------------
// The two readings

/// `/` or `\`.
pub open spec fn is_separator(c: char) -> bool {
    c == '/' || c == '\\'
}

/// `path` with `/` for each `\`.
pub open spec fn unified(path: Seq<char>) -> Seq<char> {
    path.map_values(
        |c: char|
            if is_separator(c) {
                '/'
            } else {
                c
            },
    )
}

/// `path` starts with a drive, such as `C:`.
pub open spec fn has_drive(path: Seq<char>) -> bool {
    path.len() > 1 && ('a' <= path[0] <= 'z' || 'A' <= path[0] <= 'Z') && path[1] == ':'
}

/// `path` starts with two separators.
pub open spec fn starts_doubly(path: Seq<char>) -> bool {
    path.len() > 1 && is_separator(path[0]) && is_separator(path[1])
}

/// `path` starts with a server and a share, such as `\\server\share`.
pub open spec fn has_share(path: Seq<char>) -> bool {
    let pieces = text::split(unified(path), '/');
    &&& starts_doubly(path)
    &&& pieces.len() > 3
    &&& slash_path::is_component(pieces[2])
    &&& slash_path::is_component(pieces[3])
    &&& pieces[2] != seq!['?']
}

/// The components of `path` on Windows, prefix and root not counted.
pub open spec fn windows_components(path: Seq<char>) -> Seq<Seq<char>> {
    if has_drive(path) {
        slash_path::components(unified(path).skip(2))
    } else if has_share(path) {
        slash_path::components(unified(path)).skip(2)
    } else {
        slash_path::components(unified(path))
    }
}

/// `path` has the two readings of this module, that of Unix by
/// [`slash_path::components`] and that of Windows by [`windows_components`]: two
/// separators at its start are followed by a server and a share.
pub open spec fn is_settled(path: Seq<char>) -> bool {
    starts_doubly(path) ==> has_share(path)
}

/// `path` holds nothing that Windows reads in another way than Unix.
pub open spec fn is_portable(path: Seq<char>) -> bool {
    &&& !path.contains('\\')
    &&& path.len() > 1 ==> path[1] != ':' && !(path[0] == '/' && path[1] == '/')
}

/// What follows the last `/` of `path` names a file, holds neither `\` nor `:`,
/// and is not the server or the share.
pub open spec fn ends_plainly(path: Seq<char>) -> bool {
    let last = text::split(path, '/').last();
    &&& slash_path::is_component(last)
    &&& last != seq!['.', '.']
    &&& !last.contains('\\')
    &&& !last.contains(':')
    &&& starts_doubly(path) ==> has_share(path) && text::split(unified(path), '/').len() > 4
}

/// The name of the directory that holds a file with the given components.
pub open spec fn holder_name(components: Seq<Seq<char>>) -> Option<Seq<char>> {
    if components.len() == 0 {
        None
    } else {
        slash_path::last_name(components.drop_last())
    }
}

/// Both readings give the file at `path` one name.
pub open spec fn has_one_name(path: Seq<char>) -> bool {
    ||| is_portable(path)
    ||| ends_plainly(path)
    ||| is_settled(path) && slash_path::file_name(path) == slash_path::last_name(
        windows_components(path),
    )
}

/// Both readings give the directory that holds the file at `path` one name.
pub open spec fn has_one_holder(path: Seq<char>) -> bool {
    ||| is_portable(path)
    ||| is_settled(path) && holder_name(slash_path::components(path)) == holder_name(
        windows_components(path),
    )
}

/// `name` may be the name of the file at `path`.
pub open spec fn may_name(name: Option<Seq<char>>, path: Seq<char>) -> bool {
    &&& has_one_name(path) ==> name == slash_path::file_name(path)
    &&& is_settled(path) ==> name == slash_path::file_name(path) || name == slash_path::last_name(
        windows_components(path),
    )
    &&& name matches Some(n) ==> n.len() > 0 && text::occurs(n, path)
}

/// `dir` may be the name of the directory that holds the file at `path`.
pub open spec fn may_hold(dir: Option<Seq<char>>, path: Seq<char>) -> bool {
    &&& has_one_holder(path) ==> dir == holder_name(slash_path::components(path))
    &&& is_settled(path) ==> dir == holder_name(slash_path::components(path)) || dir
        == holder_name(windows_components(path))
    &&& dir matches Some(name) ==> name.len() > 0 && text::occurs(name, path)
}

// ---------------------------------------------------------------------------
// What the machine gives

/// The text of a component that counts in a reading.
pub open spec fn part_text(part: PathPart) -> Option<Seq<char>> {
    match part {
        PathPart::Name(name) => Some(name@),
        PathPart::Up => Some(seq!['.', '.']),
        _ => None,
    }
}

/// `parts` are `list`, behind components that do not count.
pub open spec fn end_in(parts: Seq<PathPart>, list: Seq<Seq<char>>) -> bool {
    &&& list.len() <= parts.len()
    &&& forall|i: int|
        0 <= i < parts.len() ==> part_text(#[trigger] parts[i]) == if i < parts.len() - list.len() {
            None
        } else {
            Some(list[i - (parts.len() - list.len())])
        }
}

/// `parts` may be the components of `path`: those of one of the two readings,
/// each name a part of the path and no `..`.
pub open spec fn may_be_parts(parts: Seq<PathPart>, path: Seq<char>) -> bool {
    &&& is_settled(path) ==> end_in(parts, slash_path::components(path)) || end_in(
        parts,
        windows_components(path),
    )
    &&& forall|i: int|
        0 <= i < parts.len() ==> ((#[trigger] parts[i]) matches PathPart::Name(n) ==> n@.len() > 0
            && n@ != seq!['.', '.'] && text::occurs(n@, path))
}

/// Calls `std::path::Path::components`, one variant for each of
/// `std::path::Component`. Trusted: prefix, root and a leading `.` come first,
/// then the names and `..`, with repeated and trailing separators and other `.`
/// passed over. Unix separates at `/`. Windows separates at `/` and `\`, behind a
/// drive, or behind a server and a share. Each name is a part of the path. What
/// is given for a path that starts with two separators and no server and share,
/// or with `\\?\` or `\\.\`, depends on the machine and is left open.
#[verifier::external_body]
fn components(path: &str) -> (parts: Vec<PathPart>)
    ensures
        may_be_parts(parts@, path@),
{
    let all = std::path::Path::new(path).components();
    all.map(|c| match c {
        std::path::Component::Prefix(_) => PathPart::Prefix,
        std::path::Component::RootDir => PathPart::Root,
        std::path::Component::CurDir => PathPart::Here,
        std::path::Component::ParentDir => PathPart::Up,
        std::path::Component::Normal(name) => PathPart::Name(name.to_string_lossy().into_owned()),
    }).collect()
}

/// The name at place `at` of a list of components.
fn name_at(parts: &Vec<PathPart>, at: usize) -> (name: Option<String>)
    requires
        at < parts@.len(),
    ensures
        text::opt_view(name) == match parts@[at as int] {
            PathPart::Name(n) => Some(n@),
            _ => None,
        },
{
    match &parts[at] {
        PathPart::Name(n) => Some(n.clone()),
        _ => None,
    }
}

/// The name of the file at `path`: its final component.
pub fn file_name(path: &str) -> (name: Option<String>)
    ensures
        may_name(text::opt_view(name), path@),
{
    let parts = components(path);
    proof {
        portable_paths_are_read_alike(path@);
        if ends_plainly(path@) {
            plain_ends_are_names(path@);
        }
    }
    if parts.len() == 0 {
        return None;
    }
    name_at(&parts, parts.len() - 1)
}

/// The name of the directory that holds the file at `path`: the final component
/// of its parent.
pub fn dir_name(path: &str) -> (name: Option<String>)
    ensures
        may_hold(text::opt_view(name), path@),
{
    let parts = components(path);
    proof {
        portable_paths_are_read_alike(path@);
    }
    if parts.len() < 2 {
        return None;
    }
    name_at(&parts, parts.len() - 2)
}

// ---------------------------------------------------------------------------
// Where the readings agree

/// A portable path has one reading.
pub proof fn portable_paths_are_read_alike(path: Seq<char>)
    ensures
        is_portable(path) ==> is_settled(path) && windows_components(path)
            == slash_path::components(path),
{
    if is_portable(path) {
        without_backslash(path);
    }
}

proof fn without_backslash(path: Seq<char>)
    requires
        !path.contains('\\'),
    ensures
        unified(path) == path,
{
    assert forall|i: int| 0 <= i < path.len() implies #[trigger] unified(path)[i] == path[i] by {
        assert(path.contains(path[i]));
    }
    assert(unified(path) =~= path);
}

/// A last piece without `\` ends the unified path too.
proof fn last_piece_of_unified(path: Seq<char>)
    requires
        !text::split(path, '/').last().contains('\\'),
    ensures
        text::split(unified(path), '/').last() == text::split(path, '/').last(),
    decreases path.len(),
{
    if path.len() > 0 {
        let head = path.drop_last();
        text::split_is_not_empty(head, '/');
        text::split_is_not_empty(unified(head), '/');
        assert(unified(path).drop_last() =~= unified(head));
        assert(unified(path).last() == unified(path)[path.len() - 1]);
        if path.last() != '/' {
            let before = text::split(head, '/').last();
            let last = text::split(path, '/').last();
            assert(last == before.push(path.last()));
            assert(last[last.len() - 1] == path.last());
            assert(last.contains(path.last()));
            assert forall|c: char| before.contains(c) implies last.contains(c) by {
                let i = choose|i: int| 0 <= i < before.len() && before[i] == c;
                assert(last[i] == c);
            }
            last_piece_of_unified(head);
        }
    } else {
        assert(unified(path) =~= path);
    }
}

/// A last piece without `:` ends the path behind its drive too.
proof fn last_piece_behind_drive(path: Seq<char>)
    requires
        path.len() > 1,
        path[1] == ':',
        !text::split(path, '/').last().contains(':'),
    ensures
        text::split(path.skip(2), '/').last() == text::split(path, '/').last(),
    decreases path.len(),
{
    let head = path.drop_last();
    text::split_is_not_empty(head, '/');
    if path.last() == '/' {
        assert(path.len() > 2);
        assert(path.skip(2).last() == '/');
    } else {
        let before = text::split(head, '/').last();
        let last = text::split(path, '/').last();
        assert(last == before.push(path.last()));
        assert(last[last.len() - 1] == path.last());
        assert(last.contains(path.last()));
        assert(path.len() > 2);
        assert forall|c: char| before.contains(c) implies last.contains(c) by {
            let i = choose|i: int| 0 <= i < before.len() && before[i] == c;
            assert(last[i] == c);
        }
        last_piece_behind_drive(head);
        assert(head.skip(2) =~= path.skip(2).drop_last());
        text::split_is_not_empty(head.skip(2), '/');
        assert(path.skip(2).last() == path.last());
    }
}

/// A last piece that names a file is the last component.
proof fn last_piece_is_component(path: Seq<char>)
    requires
        slash_path::is_component(text::split(path, '/').last()),
    ensures
        slash_path::components(path).len() > 0,
        slash_path::components(path).last() == text::split(path, '/').last(),
{
    text::split_is_not_empty(path, '/');
    reveal(Seq::filter);
}

/// The file of a path that ends plainly has the name at its end on both
/// readings.
pub proof fn plain_ends_are_names(path: Seq<char>)
    requires
        ends_plainly(path),
    ensures
        is_settled(path),
        slash_path::file_name(path) == Some(text::split(path, '/').last()),
        slash_path::last_name(windows_components(path)) == Some(text::split(path, '/').last()),
{
    let last = text::split(path, '/').last();
    last_piece_is_component(path);
    last_piece_of_unified(path);
    let whole = unified(path);
    if has_drive(path) {
        last_piece_behind_drive(whole);
        last_piece_is_component(whole.skip(2));
    } else {
        last_piece_is_component(whole);
        if has_share(path) {
            components_behind_share(path);
        }
    }
}

/// A server and a share are two components, and a name behind them is a third.
proof fn components_behind_share(path: Seq<char>)
    requires
        has_share(path),
    ensures
        slash_path::components(unified(path)).len() >= 2,
        text::split(unified(path), '/').len() > 4 && slash_path::is_component(
            text::split(unified(path), '/').last(),
        ) ==> slash_path::components(unified(path)).len() > 2,
{
    let pieces = text::split(unified(path), '/');
    let keep = |piece: Seq<char>| slash_path::is_component(piece);
    let start = pieces.take(4);
    let rest = pieces.skip(4);
    assert(pieces =~= start + rest);
    Seq::filter_distributes_over_add(start, rest, keep);
    if rest.len() > 0 {
        assert(rest.last() == pieces.last());
    }
    assert(start.last() == pieces[3]);
    assert(start.drop_last().last() == pieces[2]);
    reveal_with_fuel(Seq::filter, 3);
}

/// A path without `\` behind a drive and a `/` has its holder's name on both
/// readings, where it has two components there.
pub proof fn drive_paths_have_one_holder(path: Seq<char>)
    requires
        has_drive(path),
        !path.contains('\\'),
        path.len() > 2,
        path[2] == '/',
        windows_components(path).len() > 1,
    ensures
        has_one_holder(path),
{
    without_backslash(path);
    let drive = path.take(2);
    let rest = path.skip(3);
    let keep = |piece: Seq<char>| slash_path::is_component(piece);
    assert(path =~= drive + seq!['/'] + rest);
    text::split_of_sum(drive, rest, '/');
    assert(path.skip(2) =~= Seq::empty() + seq!['/'] + rest);
    text::split_of_sum(Seq::empty(), rest, '/');
    assert(text::split(drive, '/') =~= seq![drive]) by {
        assert(drive.drop_last().drop_last() =~= Seq::empty());
        assert(drive.drop_last() =~= seq![path[0]]);
        reveal_with_fuel(text::split, 3);
        assert(text::split(drive, '/')[0] =~= drive);
    }
    Seq::filter_distributes_over_add(seq![drive], text::split(rest, '/'), keep);
    Seq::filter_distributes_over_add(seq![Seq::<char>::empty()], text::split(rest, '/'), keep);
    assert(seq![drive].filter(keep) =~= seq![drive]) by {
        reveal_with_fuel(Seq::filter, 2);
        assert(seq![drive].drop_last() =~= Seq::empty());
    }
    assert(seq![Seq::<char>::empty()].filter(keep) =~= Seq::empty()) by {
        reveal_with_fuel(Seq::filter, 2);
        assert(seq![Seq::<char>::empty()].drop_last() =~= Seq::empty());
    }
    let win = windows_components(path);
    assert(slash_path::components(path) =~= seq![drive] + win);
    assert((seq![drive] + win).drop_last().last() == win.drop_last().last());
}

/// A path without `\` behind a server and a share has its holder's name on both
/// readings, where it has two components there.
pub proof fn share_paths_have_one_holder(path: Seq<char>)
    requires
        has_share(path),
        !path.contains('\\'),
        windows_components(path).len() > 1,
    ensures
        has_one_holder(path),
{
    without_backslash(path);
    components_behind_share(path);
    let all = slash_path::components(path);
    assert(all.skip(2).drop_last().last() == all.drop_last().last());
}

/// The file at a portable path has the name behind the last `/`.
pub proof fn the_name_stands_behind_the_last_slash(
    base: Seq<char>,
    file: Seq<char>,
    name: Option<Seq<char>>,
)
    requires
        file.len() > 0 && !file.contains('/') && file != seq!['.'] && file != seq!['.', '.'],
        is_portable(base + seq!['/'] + file),
        may_name(name, base + seq!['/'] + file),
    ensures
        name == Some(file),
{
    slash_path::names_are_components(base, file);
}

/// The directory that holds the file at a portable path has the name before it.
pub proof fn the_holder_stands_before_the_file(
    base: Seq<char>,
    dir: Seq<char>,
    file: Seq<char>,
    name: Option<Seq<char>>,
)
    requires
        dir.len() > 0 && !dir.contains('/') && dir != seq!['.'] && dir != seq!['.', '.'],
        file.len() > 0 && !file.contains('/') && file != seq!['.'],
        is_portable(base + seq!['/'] + dir + seq!['/'] + file),
        may_hold(name, base + seq!['/'] + dir + seq!['/'] + file),
    ensures
        name == Some(dir),
{
    let up = base + seq!['/'] + dir;
    slash_path::names_are_components(base, dir);
    slash_path::names_are_components(up, file);
    let list = slash_path::components(up);
    assert(list.push(file).drop_last() =~= list);
}

/// A name alone, and what ends a path plainly, is the name of the file.
pub proof fn plain_ends_name_the_file(path: Seq<char>, name: Option<Seq<char>>)
    requires
        may_name(name, path),
    ensures
        ends_plainly(path) ==> name == Some(text::split(path, '/').last()),
        is_portable(path) && path.len() > 0 && !path.contains('/') && path != seq!['.'] && path
            != seq!['.', '.'] ==> name == Some(path),
{
    if ends_plainly(path) {
        plain_ends_are_names(path);
    }
    if path.len() > 0 && !path.contains('/') && path != seq!['.'] {
        slash_path::names_alone_are_components(path);
    }
}

/// The names of a file and of its directory are those of one of the two readings.
pub proof fn names_are_read_in_one_of_two_ways(
    path: Seq<char>,
    name: Option<Seq<char>>,
    dir: Option<Seq<char>>,
)
    requires
        starts_doubly(path) ==> has_share(path),
        may_name(name, path),
        may_hold(dir, path),
    ensures
        name == slash_path::last_name(slash_path::components(path)) || name
            == slash_path::last_name(windows_components(path)),
        dir == holder_name(slash_path::components(path)) || dir == holder_name(
            windows_components(path),
        ),
{
}

/// The directory that holds a file has the name of the component before the last,
/// where there is one that is a name.
pub proof fn the_holder_is_the_last_but_one(list: Seq<Seq<char>>)
    ensures
        list.len() < 2 ==> holder_name(list) is None,
        list.len() >= 2 && list[list.len() - 2] != seq!['.', '.'] ==> holder_name(list) == Some(
            list[list.len() - 2],
        ),
        list.len() >= 2 && list[list.len() - 2] == seq!['.', '.'] ==> holder_name(list) is None,
{
}

} // verus!
