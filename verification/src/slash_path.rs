//! Paths written with `/`, taken as text.
//!
//! The rules are those of Unix paths: repeated and trailing `/` count for
//! nothing, a `.` component counts for nothing, and `..` is a component like
//! any other except that it names no file.

use vstd::prelude::*;

use crate::text;

verus! {

/// A piece between slashes that counts as a component.
pub open spec fn is_component(piece: Seq<char>) -> bool {
    piece.len() > 0 && piece != seq!['.']
}

/// The components of `path`, the root not counted.
pub open spec fn components(path: Seq<char>) -> Seq<Seq<char>> {
    text::split(path, '/').filter(|piece: Seq<char>| is_component(piece))
}

/// The last component of a list, where it names a file.
pub open spec fn last_name(list: Seq<Seq<char>>) -> Option<Seq<char>> {
    if list.len() == 0 || list.last() == seq!['.', '.'] {
        None
    } else {
        Some(list.last())
    }
}

/// The final component of `path`; none for an empty path, for the root, and
/// for one that ends in `..`.
pub open spec fn file_name(path: Seq<char>) -> Option<Seq<char>> {
    last_name(components(path))
}

/// `path` without what counts for nothing at its end.
pub open spec fn trimmed(path: Seq<char>) -> Seq<char>
    decreases path.len(),
{
    if path.len() > 1 && (path.last() == '/' || (path.last() == '.' && path[path.len() - 2] == '/')) {
        trimmed(path.drop_last())
    } else {
        path
    }
}

/// `path` up to and with its last `/`.
pub open spec fn up_to_slash(path: Seq<char>) -> Seq<char>
    decreases path.len(),
{
    if path.len() == 0 || path.last() == '/' {
        path
    } else {
        up_to_slash(path.drop_last())
    }
}

/// `path` without its final component; none for an empty path and for the root.
pub open spec fn parent(path: Seq<char>) -> Option<Seq<char>> {
    let whole = trimmed(path);
    if whole.len() == 0 || whole == seq!['/'] {
        None
    } else {
        Some(trimmed(up_to_slash(whole)))
    }
}

/// `part` below `base`; a `part` that starts with `/` stands alone.
pub open spec fn join(base: Seq<char>, part: Seq<char>) -> Seq<char> {
    if part.len() > 0 && part[0] == '/' {
        part
    } else if base.len() == 0 || base.last() == '/' {
        base + part
    } else {
        base + seq!['/'] + part
    }
}

/// The length of `trimmed` of the first `len` characters.
fn trimmed_len(chars: &Vec<char>, len: usize) -> (n: usize)
    requires
        len <= chars@.len(),
    ensures
        n <= len,
        chars@.take(n as int) == trimmed(chars@.take(len as int)),
{
    let mut n: usize = len;
    while n > 1 && (chars[n - 1] == '/' || (chars[n - 1] == '.' && chars[n - 2] == '/'))
        invariant
            n <= len <= chars@.len(),
            trimmed(chars@.take(n as int)) == trimmed(chars@.take(len as int)),
        decreases n,
    {
        assert(chars@.take(n as int).drop_last() =~= chars@.take(n - 1));
        n = n - 1;
    }
    n
}

/// The final component of a `/` path.
pub fn path_file_name(path: &str) -> (name: Option<String>)
    ensures
        text::opt_view(name) == file_name(path@),
{
    let pieces = text::split_at_each(path, '/');
    let ghost all = text::split(path@, '/');
    let ghost keep = |piece: Seq<char>| is_component(piece);
    let mut n: usize = pieces.len();
    assert(all.take(n as int) =~= all);
    while n > 0
        invariant
            n <= pieces@.len(),
            text::views(pieces@) == all,
            all == text::split(path@, '/'),
            keep == |piece: Seq<char>| is_component(piece),
            all.take(n as int).filter(keep) == components(path@),
        decreases n,
    {
        let piece = &pieces[n - 1];
        proof {
            reveal(Seq::filter);
            reveal_strlit(".");
            reveal_strlit("..");
            assert("."@ =~= seq!['.']);
            assert(".."@ =~= seq!['.', '.']);
            assert(all.take(n as int).drop_last() =~= all.take(n - 1));
            assert(piece@ == all[n - 1]);
        }
        if !piece.as_str().is_empty() && !text::same(piece, ".") {
            if text::same(piece, "..") {
                return None;
            }
            return Some(piece.clone());
        }
        n = n - 1;
    }
    proof {
        reveal(Seq::filter);
    }
    None
}

/// A `/` path without its final component.
pub fn path_parent(path: &str) -> (up: Option<String>)
    ensures
        text::opt_view(up) == parent(path@),
{
    let chars = text::chars_of(path);
    assert(chars@.take(chars@.len() as int) =~= chars@);
    let end = trimmed_len(&chars, chars.len());
    let ghost whole = trimmed(path@);
    if end == 0 {
        return None;
    }
    if end == 1 && chars[0] == '/' {
        assert(whole =~= seq!['/']);
        return None;
    }
    let mut n: usize = end;
    while n > 0 && chars[n - 1] != '/'
        invariant
            n <= end <= chars@.len(),
            up_to_slash(chars@.take(n as int)) == up_to_slash(chars@.take(end as int)),
        decreases n,
    {
        assert(chars@.take(n as int).drop_last() =~= chars@.take(n - 1));
        n = n - 1;
    }
    let up = trimmed_len(&chars, n);
    assert(path@.subrange(0, up as int) =~= path@.take(up as int));
    Some(path.substring_char(0, up).to_owned())
}

/// `part` below `base`.
pub fn path_join(base: &str, part: &str) -> (path: String)
    ensures
        path@ == join(base@, part@),
{
    let base_chars = text::chars_of(base);
    let part_chars = text::chars_of(part);
    if part_chars.len() > 0 && part_chars[0] == '/' {
        return part.to_owned();
    }
    let mut path = base.to_owned();
    if base_chars.len() > 0 && base_chars[base_chars.len() - 1] != '/' {
        proof {
            reveal_strlit("/");
            assert("/"@ =~= seq!['/']);
        }
        path.append("/");
    }
    path.append(part);
    path
}

/// `path` with `separator` for each `/` but that at its start.
pub open spec fn spelled(path: Seq<char>, separator: Seq<char>) -> Seq<char> {
    if path.len() > 0 && path[0] == '/' {
        seq!['/'] + text::join(text::split(path.skip(1), '/'), separator)
    } else {
        text::join(text::split(path, '/'), separator)
    }
}

/// With `/` for the separator a path is spelled as it is.
pub proof fn slashes_spell_the_path(path: Seq<char>)
    ensures
        spelled(path, seq!['/']) == path,
{
    text::split_then_join(path, '/');
    if path.len() > 0 && path[0] == '/' {
        text::split_then_join(path.skip(1), '/');
        assert(seq!['/'] + path.skip(1) =~= path);
    }
}

/// `path` as a machine with the given separator writes it below its root.
pub fn path_spelled(path: &str, separator: &str) -> (out: String)
    ensures
        out@ == spelled(path@, separator@),
{
    let chars = text::chars_of(path);
    if chars.len() > 0 && chars[0] == '/' {
        let rest = path.substring_char(1, chars.len());
        assert(rest@ =~= path@.skip(1));
        let mut out = "/".to_owned();
        out.append(&text::join_all(&text::split_at_each(rest, '/'), separator));
        proof {
            reveal_strlit("/");
            assert("/"@ =~= seq!['/']);
        }
        out
    } else {
        text::join_all(&text::split_at_each(path, '/'), separator)
    }
}

/// A name behind a `/` is one component more.
pub proof fn names_are_components(base: Seq<char>, name: Seq<char>)
    requires
        name.len() > 0,
        !name.contains('/'),
        name != seq!['.'],
    ensures
        components(base + seq!['/'] + name) == components(base).push(name),
        name != seq!['.', '.'] ==> file_name(base + seq!['/'] + name) == Some(name),
        name == seq!['.', '.'] ==> file_name(base + seq!['/'] + name) is None,
{
    text::split_of_sum(base, name, '/');
    text::text_without_separator_is_whole(name, '/');
    let all = text::split(base, '/') + seq![name];
    assert(all.drop_last() =~= text::split(base, '/'));
    assert(all.last() == name);
    reveal(Seq::filter);
}

/// A `/` or a `/.` at the end of a path counts for nothing.
pub proof fn ends_count_for_nothing(path: Seq<char>)
    requires
        path.len() > 0,
    ensures
        components(path + seq!['/']) == components(path),
        components(path + seq!['/', '.']) == components(path),
        file_name(path + seq!['/']) == file_name(path),
        parent(path + seq!['/']) == parent(path),
        parent(path + seq!['/', '.']) == parent(path),
{
    let open = path + seq!['/'];
    let dot = path + seq!['/', '.'];
    assert(open.drop_last() =~= path);
    assert(dot.drop_last() =~= open);
    let pieces = text::split(path, '/');
    reveal(Seq::filter);
    assert(text::split(open, '/') =~= pieces.push(Seq::empty()));
    assert(pieces.push(Seq::empty()).drop_last() =~= pieces);
    assert(text::split(dot, '/').drop_last() =~= pieces);
    assert(text::split(dot, '/').last() =~= seq!['.']);
    assert(trimmed(open) == trimmed(path));
    assert(dot[dot.len() - 2] == '/');
    assert(trimmed(dot) == trimmed(open));
}

proof fn up_to_slash_before_name(base: Seq<char>, name: Seq<char>)
    requires
        !name.contains('/'),
    ensures
        up_to_slash(base + seq!['/'] + name) == base + seq!['/'],
    decreases name.len(),
{
    let path = base + seq!['/'] + name;
    if name.len() == 0 {
        assert(path =~= base + seq!['/']);
    } else {
        let head = name.drop_last();
        assert(path.drop_last() =~= base + seq!['/'] + head);
        assert(path.last() == name[name.len() - 1]);
        assert(name.contains(name[name.len() - 1]));
        assert forall|c: char| head.contains(c) implies name.contains(c) by {
            let i = choose|i: int| 0 <= i < head.len() && head[i] == c;
            assert(name[i] == c);
        }
        up_to_slash_before_name(base, head);
    }
}

/// The parent of a path is what stands before its last name: the root for a name
/// right below it. The empty path and the root have none.
pub proof fn parents_stand_before_the_name(base: Seq<char>, name: Seq<char>)
    requires
        name.len() > 0,
        !name.contains('/'),
        name != seq!['.'],
        base.len() > 0 ==> base.last() != '/' && !(base.len() > 1 && base.last() == '.' && base[
        base.len() - 2] == '/'),
    ensures
        base.len() > 0 ==> parent(base + seq!['/'] + name) == Some(base),
        parent(seq!['/'] + name) == Some(seq!['/']),
        parent(seq!['/']) is None,
        parent(Seq::empty()) is None,
{
    let path = base + seq!['/'] + name;
    let rooted = seq!['/'] + name;
    assert(rooted =~= Seq::<char>::empty() + seq!['/'] + name);
    assert(name.contains(name[name.len() - 1]));
    assert(path.last() == name[name.len() - 1] && rooted.last() == name[name.len() - 1]);
    if name.len() == 1 && name[0] == '.' {
        assert(name =~= seq!['.']);
    }
    if name.len() > 1 {
        assert(path[path.len() - 2] == name[name.len() - 2]);
        assert(rooted[rooted.len() - 2] == name[name.len() - 2]);
        assert(name.contains(name[name.len() - 2]));
    }
    assert(trimmed(path) == path);
    assert(trimmed(rooted) == rooted);
    up_to_slash_before_name(base, name);
    up_to_slash_before_name(Seq::empty(), name);
    assert(Seq::<char>::empty() + seq!['/'] =~= seq!['/']);
    let open = base + seq!['/'];
    assert(open.drop_last() =~= base);
    assert(path.len() > 1 && rooted.len() > 1);
    if base.len() > 0 {
        assert(trimmed(open) == trimmed(base));
        assert(trimmed(base) == base);
    }
}

/// A part goes below its base, behind a `/` where the base does not end in one; a
/// part that starts with `/` stands alone.
pub proof fn parts_go_below(base: Seq<char>, part: Seq<char>)
    ensures
        part.len() > 0 && part[0] == '/' ==> join(base, part) == part,
        !(part.len() > 0 && part[0] == '/') && base.len() > 0 && base.last() != '/' ==> join(
            base,
            part,
        ) == base + seq!['/'] + part,
        !(part.len() > 0 && part[0] == '/') && (base.len() == 0 || base.last() == '/') ==> join(
            base,
            part,
        ) == base + part,
{
}

/// A path is spelled with the separator in place of each `/` behind its root: the
/// pieces stay.
pub proof fn spelling_keeps_the_pieces(a: Seq<char>, b: Seq<char>, separator: Seq<char>)
    requires
        a.len() > 0,
    ensures
        spelled(a + seq!['/'] + b, separator) == spelled(a, separator) + separator + text::join(
            text::split(b, '/'),
            separator,
        ),
        !b.contains('/') ==> spelled(seq!['/'] + b, separator) == seq!['/'] + b,
{
    let path = a + seq!['/'] + b;
    text::split_is_not_empty(b, '/');
    if a[0] == '/' {
        let rest = a.skip(1);
        assert(path.skip(1) =~= rest + seq!['/'] + b);
        text::split_of_sum(rest, b, '/');
        text::split_is_not_empty(rest, '/');
        text::join_of_sum(text::split(rest, '/'), text::split(b, '/'), separator);
        assert(spelled(path, separator) =~= spelled(a, separator) + separator + text::join(
            text::split(b, '/'),
            separator,
        ));
    } else {
        text::split_of_sum(a, b, '/');
        text::split_is_not_empty(a, '/');
        text::join_of_sum(text::split(a, '/'), text::split(b, '/'), separator);
    }
    if !b.contains('/') {
        let rooted = seq!['/'] + b;
        assert(rooted.skip(1) =~= b);
        text::text_without_separator_is_whole(b, '/');
        text::join_of_sum(Seq::empty(), Seq::empty(), separator);
    }
}

/// A name alone is its own component, and lies below the empty path. The empty
/// path and the root have no components and name no file.
pub proof fn names_alone_are_components(name: Seq<char>)
    requires
        name.len() > 0,
        !name.contains('/'),
        name != seq!['.'],
    ensures
        components(name) == seq![name],
        name != seq!['.', '.'] ==> file_name(name) == Some(name),
        name == seq!['.', '.'] ==> file_name(name) is None,
        parent(name) == Some(Seq::<char>::empty()),
        components(Seq::empty()).len() == 0,
        components(seq!['/']).len() == 0,
        file_name(Seq::empty()) is None,
        file_name(seq!['/']) is None,
{
    text::text_without_separator_is_whole(name, '/');
    let one = seq![name];
    assert(one.drop_last() =~= Seq::empty());
    reveal_with_fuel(Seq::filter, 3);
    assert(components(name) =~= one);
    assert(text::split(Seq::empty(), '/').drop_last() =~= Seq::empty());
    assert(seq!['/'].drop_last() =~= Seq::empty());
    let two = text::split(seq!['/'], '/');
    assert(two =~= seq![Seq::empty(), Seq::empty()]) by {
        reveal_with_fuel(text::split, 2);
    }
    assert(two.drop_last() =~= seq![Seq::empty()]);
    assert(two.drop_last().drop_last() =~= Seq::empty());
    let last = name[name.len() - 1];
    assert(name.contains(last));
    if name.len() > 1 {
        assert(name.contains(name[name.len() - 2]));
    }
    assert(trimmed(name) == name);
    nothing_before_name(name);
    assert(name != seq!['/']) by {
        assert(seq!['/'][0] == '/');
    }
}

proof fn nothing_before_name(name: Seq<char>)
    requires
        !name.contains('/'),
    ensures
        up_to_slash(name) == Seq::<char>::empty(),
    decreases name.len(),
{
    if name.len() == 0 {
        assert(name =~= Seq::empty());
    } else {
        let head = name.drop_last();
        assert(name.contains(name[name.len() - 1]));
        assert forall|c: char| head.contains(c) implies name.contains(c) by {
            let i = choose|i: int| 0 <= i < head.len() && head[i] == c;
            assert(name[i] == c);
        }
        nothing_before_name(head);
    }
}

/// Before the last name, further `/` and `.` count for nothing.
pub proof fn gaps_count_for_nothing(base: Seq<char>, name: Seq<char>)
    requires
        base.len() > 0,
        name.len() > 0,
        !name.contains('/'),
        name != seq!['.'],
    ensures
        parent(base + seq!['/', '/'] + name) == parent(base + seq!['/'] + name),
        parent(base + seq!['/', '.', '/'] + name) == parent(base + seq!['/'] + name),
        file_name(base + seq!['/', '/'] + name) == file_name(base + seq!['/'] + name),
        file_name(base + seq!['/', '.', '/'] + name) == file_name(base + seq!['/'] + name),
{
    let one = base + seq!['/'];
    let two = one + seq!['/'];
    let dot = base + seq!['/', '.'];
    let three = dot + seq!['/'];
    assert(base + seq!['/', '/'] + name =~= one + seq!['/'] + name);
    assert(base + seq!['/', '.', '/'] + name =~= dot + seq!['/'] + name);
    names_are_components(base, name);
    names_are_components(one, name);
    names_are_components(dot, name);
    parent_behind_base(base, name);
    parent_behind_base(one, name);
    parent_behind_base(dot, name);
    assert(two.drop_last() =~= one);
    assert(three.drop_last() =~= dot);
    assert(dot.drop_last() =~= one);
    assert(dot[dot.len() - 2] == '/');
    assert(trimmed(two) == trimmed(one));
    assert(trimmed(dot) == trimmed(one));
    assert(trimmed(three) == trimmed(dot));
}

proof fn parent_behind_base(base: Seq<char>, name: Seq<char>)
    requires
        base.len() > 0,
        name.len() > 0,
        !name.contains('/'),
        name != seq!['.'],
    ensures
        parent(base + seq!['/'] + name) == Some(trimmed(base + seq!['/'])),
{
    let path = base + seq!['/'] + name;
    assert(name.contains(name[name.len() - 1]));
    assert(path.last() == name[name.len() - 1]);
    if name.len() == 1 && name[0] == '.' {
        assert(name =~= seq!['.']);
    }
    if name.len() > 1 {
        assert(path[path.len() - 2] == name[name.len() - 2]);
        assert(name.contains(name[name.len() - 2]));
    }
    assert(trimmed(path) == path);
    up_to_slash_before_name(base, name);
}

} // verus!
