//! Text as sequences of characters: searching, splitting and joining.

use vstd::prelude::*;

verus! {

/// The contents of a list of strings.
pub open spec fn views(list: Seq<String>) -> Seq<Seq<char>> {
    list.map_values(|s: String| s@)
}

/// The content of an optional string.
pub open spec fn opt_view(s: Option<String>) -> Option<Seq<char>> {
    match s {
        Some(s) => Some(s@),
        None => None,
    }
}

/// The content of an optional string slice.
pub open spec fn opt_str_view(s: Option<&str>) -> Option<Seq<char>> {
    match s {
        Some(s) => Some(s@),
        None => None,
    }
}

/// `needle` stands somewhere in `hay` as an unbroken run.
pub open spec fn occurs(needle: Seq<char>, hay: Seq<char>) -> bool {
    exists|i: int| occurs_at(needle, hay, i)
}

/// `needle` stands in `hay` at position `i`.
pub open spec fn occurs_at(needle: Seq<char>, hay: Seq<char>, i: int) -> bool {
    0 <= i <= hay.len() - needle.len() && hay.subrange(i, i + needle.len()) == needle
}

/// The pieces of `s` between the occurrences of `sep`, empty pieces kept:
/// one piece more than there are separators.
pub open spec fn split(s: Seq<char>, sep: char) -> Seq<Seq<char>>
    decreases s.len(),
{
    if s.len() == 0 {
        seq![Seq::empty()]
    } else {
        let before = split(s.drop_last(), sep);
        if s.last() == sep {
            before.push(Seq::empty())
        } else {
            before.drop_last().push(before.last().push(s.last()))
        }
    }
}

/// The pieces in order, with `sep` between each two neighbours.
pub open spec fn join(pieces: Seq<Seq<char>>, sep: Seq<char>) -> Seq<char>
    decreases pieces.len(),
{
    if pieces.len() == 0 {
        Seq::empty()
    } else if pieces.len() == 1 {
        pieces[0]
    } else {
        join(pieces.drop_last(), sep) + sep + pieces.last()
    }
}

/// Splitting gives at least one piece.
pub proof fn split_is_not_empty(s: Seq<char>, sep: char)
    ensures
        split(s, sep).len() > 0,
    decreases s.len(),
{
    if s.len() > 0 {
        split_is_not_empty(s.drop_last(), sep);
    }
}

/// Joining the pieces of a split gives the text back, and no piece holds the
/// separator.
pub proof fn split_then_join(s: Seq<char>, sep: char)
    ensures
        join(split(s, sep), seq![sep]) == s,
        forall|i: int| 0 <= i < split(s, sep).len() ==> !(#[trigger] split(s, sep)[i]).contains(sep),
    decreases s.len(),
{
    split_is_not_empty(s, sep);
    if s.len() > 0 {
        let head = s.drop_last();
        split_is_not_empty(head, sep);
        split_then_join(head, sep);
        let before = split(head, sep);
        if s.last() == sep {
            assert(split(s, sep).drop_last() =~= before);
            assert(s =~= head + seq![sep] + Seq::empty());
        } else {
            let grown = before.last().push(s.last());
            assert(split(s, sep).drop_last() =~= before.drop_last());
            assert(head.push(s.last()) =~= s);
            if before.len() > 1 {
                assert(join(before.drop_last(), seq![sep]) + seq![sep] + grown
                    =~= (join(before.drop_last(), seq![sep]) + seq![sep] + before.last()).push(
                    s.last(),
                ));
            }
            assert forall|i: int| 0 <= i < split(s, sep).len() implies !(#[trigger] split(
                s,
                sep,
            )[i]).contains(sep) by {
                if i == split(s, sep).len() - 1 {
                    assert(!before[i].contains(sep));
                    if grown.contains(sep) {
                        let k = choose|k: int| 0 <= k < grown.len() && grown[k] == sep;
                        assert(before[i][k] == sep);
                    }
                } else {
                    assert(split(s, sep)[i] == before[i]);
                }
            }
        }
    }
}

/// The pieces of two texts with the separator between them are those of each.
pub proof fn split_of_sum(a: Seq<char>, b: Seq<char>, sep: char)
    ensures
        split(a + seq![sep] + b, sep) == split(a, sep) + split(b, sep),
    decreases b.len(),
{
    let whole = a + seq![sep] + b;
    if b.len() == 0 {
        assert(whole.drop_last() =~= a);
        assert(split(a, sep).push(Seq::empty()) =~= split(a, sep) + split(b, sep));
    } else {
        split_of_sum(a, b.drop_last(), sep);
        split_is_not_empty(b.drop_last(), sep);
        assert(whole.drop_last() =~= a + seq![sep] + b.drop_last());
        assert(split(whole, sep) =~= split(a, sep) + split(b, sep));
    }
}

/// The characters of `s`.
pub fn chars_of(s: &str) -> (out: Vec<char>)
    ensures
        out@ == s@,
{
    let mut out: Vec<char> = Vec::new();
    for c in it: s.chars()
        invariant
            out@ == it.seq().take(it.index() as int),
            it.seq() == s@,
    {
        out.push(c);
    }
    out
}

/// Whether two texts are equal.
pub fn same(a: &str, b: &str) -> (r: bool)
    ensures
        r == (a@ == b@),
{
    a.to_owned() == b.to_owned()
}

/// Whether `part` stands in `whole` at position `at`.
fn matches_at(whole: &Vec<char>, part: &Vec<char>, at: usize) -> (r: bool)
    requires
        at + part.len() <= whole.len(),
    ensures
        r == occurs_at(part@, whole@, at as int),
{
    let mut k: usize = 0;
    while k < part.len()
        invariant
            at + part.len() <= whole.len(),
            k <= part@.len(),
            forall|m: int| 0 <= m < k ==> whole@[at + m] == part@[m],
        decreases part@.len() - k,
    {
        if whole[at + k] != part[k] {
            assert(whole@.subrange(at as int, at + part@.len())[k as int] != part@[k as int]);
            return false;
        }
        k = k + 1;
    }
    assert(whole@.subrange(at as int, at + part@.len()) =~= part@);
    true
}

/// Whether `needle` stands somewhere in `hay`.
pub fn contains(hay: &str, needle: &str) -> (r: bool)
    ensures
        r == occurs(needle@, hay@),
{
    let whole = chars_of(hay);
    let part = chars_of(needle);
    if part.len() > whole.len() {
        return false;
    }
    let last: usize = whole.len() - part.len();
    let mut i: usize = 0;
    loop
        invariant
            whole@ == hay@,
            part@ == needle@,
            part@.len() <= whole@.len(),
            last == whole@.len() - part@.len(),
            i <= last,
            forall|j: int| 0 <= j < i ==> !occurs_at(needle@, hay@, j),
        decreases last - i,
    {
        if matches_at(&whole, &part, i) {
            return true;
        }
        if i == last {
            return false;
        }
        i = i + 1;
    }
}

/// Whether `s` ends with `suffix`.
pub fn ends_with(s: &str, suffix: &str) -> (r: bool)
    ensures
        r == suffix@.is_suffix_of(s@),
{
    let whole = chars_of(s);
    let part = chars_of(suffix);
    if part.len() > whole.len() {
        return false;
    }
    matches_at(&whole, &part, whole.len() - part.len())
}

/// Splits `s` at each `sep`.
pub fn split_at_each(s: &str, sep: char) -> (out: Vec<String>)
    ensures
        views(out@) == split(s@, sep),
{
    let chars = chars_of(s);
    let mut out: Vec<String> = Vec::new();
    let mut start: usize = 0;
    let mut i: usize = 0;
    while i < chars.len()
        invariant
            chars@ == s@,
            start <= i <= chars@.len(),
            split(s@.take(i as int), sep).len() > 0,
            views(out@) == split(s@.take(i as int), sep).drop_last(),
            s@.subrange(start as int, i as int) == split(s@.take(i as int), sep).last(),
        decreases chars@.len() - i,
    {
        let ghost done = s@.take(i as int);
        let ghost more = s@.take(i + 1);
        assert(more.drop_last() =~= done);
        let ghost old_out = out@;
        if chars[i] == sep {
            let piece = s.substring_char(start, i).to_owned();
            let ghost text = piece@;
            out.push(piece);
            start = i + 1;
            assert(views(out@) =~= views(old_out).push(text));
            assert(split(more, sep).drop_last() =~= split(done, sep));
            assert(s@.subrange(start as int, i + 1) =~= Seq::empty());
        } else {
            assert(s@.subrange(start as int, i + 1) =~= s@.subrange(start as int, i as int).push(
                s@[i as int],
            ));
            assert(split(more, sep).drop_last() =~= split(done, sep).drop_last());
        }
        i = i + 1;
    }
    assert(s@.take(chars@.len() as int) =~= s@);
    let ghost old_out = out@;
    let piece = s.substring_char(start, chars.len()).to_owned();
    let ghost text = piece@;
    out.push(piece);
    assert(views(out@) =~= views(old_out).push(text));
    assert(split(s@, sep) =~= split(s@, sep).drop_last().push(split(s@, sep).last()));
    out
}

/// Joins pieces with `sep` between each two neighbours.
pub fn join_all(pieces: &Vec<String>, sep: &str) -> (out: String)
    ensures
        out@ == join(views(pieces@), sep@),
{
    let ghost all = views(pieces@);
    let mut out = String::new();
    let mut i: usize = 0;
    while i < pieces.len()
        invariant
            i <= pieces@.len(),
            all == views(pieces@),
            out@ == join(all.take(i as int), sep@),
        decreases pieces@.len() - i,
    {
        assert(all.take(i + 1).drop_last() =~= all.take(i as int));
        assert(all[i as int] == pieces@[i as int]@);
        if i > 0 {
            out.append(sep);
        }
        out.append(pieces[i].as_str());
        i = i + 1;
    }
    assert(all.take(i as int) =~= all);
    out
}

/// A text without the separator is its own and only piece.
pub proof fn text_without_separator_is_whole(s: Seq<char>, sep: char)
    requires
        !s.contains(sep),
    ensures
        split(s, sep) == seq![s],
    decreases s.len(),
{
    if s.len() == 0 {
        assert(s =~= Seq::empty());
    } else {
        let head = s.drop_last();
        assert forall|c: char| head.contains(c) implies s.contains(c) by {
            let i = choose|i: int| 0 <= i < head.len() && head[i] == c;
            assert(s[i] == c);
        }
        text_without_separator_is_whole(head, sep);
        assert(s[s.len() - 1] == s.last());
        assert(s.contains(s.last()));
        assert(head.push(s.last()) =~= s);
        assert(split(s, sep) =~= seq![s]);
    }
}

/// Two lists of pieces are joined one after the other, with the separator between
/// them; a single piece is joined to itself.
pub proof fn join_of_sum(a: Seq<Seq<char>>, b: Seq<Seq<char>>, sep: Seq<char>)
    ensures
        a.len() > 0 && b.len() > 0 ==> join(a + b, sep) == join(a, sep) + sep + join(b, sep),
        forall|s: Seq<char>| #[trigger] join(seq![s], sep) == s,
        join(Seq::empty(), sep) == Seq::<char>::empty(),
    decreases b.len(),
{
    if a.len() > 0 && b.len() == 1 {
        assert((a + b).drop_last() =~= a);
    } else if a.len() > 0 && b.len() > 1 {
        join_of_sum(a, b.drop_last(), sep);
        assert((a + b).drop_last() =~= a + b.drop_last());
        assert((a + b).last() == b.last());
        assert(join(a + b, sep) =~= join(a, sep) + sep + join(b, sep));
    }
}

/// A text occurs in another where that one is something, the text, and something
/// more.
pub proof fn what_occurs_stands_between(needle: Seq<char>, hay: Seq<char>)
    ensures
        occurs(needle, hay) <==> exists|a: Seq<char>, b: Seq<char>| hay == #[trigger] (a + needle + b),
{
    if occurs(needle, hay) {
        let i = choose|i: int| occurs_at(needle, hay, i);
        let a = hay.take(i);
        let b = hay.skip(i + needle.len());
        assert(hay =~= a + hay.subrange(i, i + needle.len()) + b);
        assert(hay == a + needle + b);
    }
    if exists|a: Seq<char>, b: Seq<char>| hay == #[trigger] (a + needle + b) {
        let (a, b) = choose|a: Seq<char>, b: Seq<char>| hay == #[trigger] (a + needle + b);
        stands_between(a, needle, b);
    }
}

/// A text occurs between any two others.
pub proof fn stands_between(a: Seq<char>, needle: Seq<char>, b: Seq<char>)
    ensures
        occurs(needle, a + needle + b),
{
    let hay = a + needle + b;
    assert(hay.subrange(a.len() as int, (a.len() + needle.len()) as int) =~= needle);
    assert(occurs_at(needle, hay, a.len() as int));
}

/// The contents of texts, one for one and in order.
pub proof fn texts_have_their_contents(list: Seq<String>, s: Option<String>, t: Option<&str>)
    ensures
        views(list).len() == list.len(),
        forall|i: int| 0 <= i < list.len() ==> #[trigger] views(list)[i] == list[i]@,
        s matches Some(s) ==> opt_view(Some(s)) == Some(s@),
        s is None ==> opt_view(s) is None,
        t matches Some(t) ==> opt_str_view(Some(t)) == Some(t@),
        t is None ==> opt_str_view(t) is None,
{
}

} // verus!
