//! What holds of the search for the path behind a workspace name.

use vstd::prelude::*;

use crate::slash_path;
use crate::text;
use crate::workspace;
use crate::workspace::TryView;
use crate::workspace::WorkspaceSearchView;

verus! {

/// A character that a workspace name replaces by `-`.
pub open spec fn is_mark(c: char) -> bool {
    c == '/' || c == '.'
}

/// The workspace name of a path: without its leading `/`, and with `-` for each
/// `/` and each `.`.
pub open spec fn workspace_name(path: Seq<char>) -> Seq<char> {
    path.skip(1).map_values(
        |c: char|
            if is_mark(c) {
                '-'
            } else {
                c
            },
    )
}

/// A text that holds no mark.
pub open spec fn is_free(s: Seq<char>) -> bool {
    forall|i: int| 0 <= i < s.len() ==> !is_mark(#[trigger] s[i])
}

/// No part of a workspace name holds a mark.
pub open spec fn are_free(parts: Seq<Seq<char>>) -> bool {
    forall|i: int| 0 <= i < parts.len() ==> is_free(#[trigger] parts[i])
}

/// `path` holds no two `/` side by side.
pub open spec fn has_single_slashes(path: Seq<char>) -> bool {
    forall|i: int, j: int|
        0 <= i < j < path.len() && j == i + 1 ==> !(#[trigger] path[i] == '/' && #[trigger] path[j]
            == '/')
}

/// `path` starts with `/`, and a `/` is followed by neither another nor a `.`.
spec fn is_plain(path: Seq<char>) -> bool {
    &&& path.len() > 1
    &&& path[0] == '/'
    &&& path.last() != '/'
    &&& forall|i: int, j: int|
        0 <= i < j < path.len() && j == i + 1 && #[trigger] path[i] == '/' ==> !is_mark(
            #[trigger] path[j],
        )
}

// ---------------------------------------------------------------------------
// The best path that exists

/// The try at place `i` exists, and no existing one is better: each other one uses
/// fewer parts; or as many, and has lost a character where this one has not; or it
/// is as good and comes before.
pub open spec fn is_best(
    list: Seq<TryView>,
    i: int,
    is_there: spec_fn(Seq<char>) -> bool,
) -> bool {
    &&& 0 <= i < list.len()
    &&& is_there(list[i].path)
    &&& forall|j: int|
        0 <= j < list.len() && is_there((#[trigger] list[j]).path) ==> {
            ||| list[j].used < list[i].used
            ||| list[j].used == list[i].used && list[i].whole && !list[j].whole
            ||| list[j].used == list[i].used && list[i].whole == list[j].whole && j <= i
        }
}

proof fn best_of_is_best(list: Seq<TryView>, is_there: spec_fn(Seq<char>) -> bool)
    ensures
        match workspace::best_of(None, list, is_there) {
            Some(t) => exists|i: int| #[trigger] is_best(list, i, is_there) && list[i] == t,
            None => forall|i: int| 0 <= i < list.len() ==> !is_there((#[trigger] list[i]).path),
        },
    decreases list.len(),
{
    if list.len() > 0 {
        let head = list.drop_last();
        let last = list.len() - 1;
        best_of_is_best(head, is_there);
        assert forall|i: int| 0 <= i < head.len() implies #[trigger] list[i] == head[i] by {}
        match workspace::best_of(None, head, is_there) {
            Some(t) => {
                let i = choose|i: int| #[trigger] is_best(head, i, is_there) && head[i] == t;
                if is_there(list[last].path) && !t.beats(list[last]) {
                    assert forall|j: int| 0 <= j < last && is_there(
                        (#[trigger] list[j]).path,
                    ) implies !list[j].beats(list[last]) by {
                        assert(is_there(head[j].path));
                    }
                    assert(is_best(list, last, is_there));
                } else {
                    assert forall|j: int| 0 <= j < list.len() && is_there(
                        (#[trigger] list[j]).path,
                    ) implies list[i].beats(list[j]) || (!list[j].beats(list[i]) && j <= i) by {
                        if j < last {
                            assert(is_there(head[j].path));
                        }
                    }
                    assert(is_best(list, i, is_there));
                }
            },
            None => {
                assert forall|j: int| 0 <= j < last implies !is_there((#[trigger] list[j]).path) by {
                    assert(!is_there(head[j].path));
                }
                if is_there(list[last].path) {
                    assert(is_best(list, last, is_there));
                }
            },
        }
    }
}

/// The first try may be made ahead of the others.
proof fn best_of_first(
    best: Option<TryView>,
    list: Seq<TryView>,
    is_there: spec_fn(Seq<char>) -> bool,
)
    requires
        list.len() > 0,
    ensures
        workspace::best_of(best, list, is_there) == workspace::best_of(
            workspace::better(best, list[0], is_there(list[0].path)),
            list.skip(1),
            is_there,
        ),
    decreases list.len(),
{
    let rest = list.skip(1);
    if list.len() == 1 {
        assert(list.drop_last().len() == 0);
        assert(list.last() == list[0]);
    } else {
        best_of_first(best, list.drop_last(), is_there);
        assert(list.drop_last().skip(1) =~= rest.drop_last());
        assert(rest.last() == list.last());
    }
}

proof fn outcome_is_the_best(state: WorkspaceSearchView, is_there: spec_fn(Seq<char>) -> bool)
    ensures
        state.outcome(is_there) == workspace::path_of(
            workspace::best_of(state.best, state.pending, is_there),
        ),
    decreases state.pending.len(),
{
    if state.pending.len() > 0 {
        outcome_is_the_best(state.answered(is_there(state.pending[0].path)), is_there);
        best_of_first(state.best, state.pending, is_there);
    }
}

/// A search that is answered truthfully to its end gives what the name is
/// decoded to.
pub proof fn search_decodes(name: Seq<char>, is_there: spec_fn(Seq<char>) -> bool)
    ensures
        (WorkspaceSearchView { pending: workspace::tries(name), best: None }).outcome(is_there)
            == workspace::decoded(name, is_there),
{
    outcome_is_the_best(
        WorkspaceSearchView { pending: workspace::tries(name), best: None },
        is_there,
    );
}

/// A name is decoded to the existing path that uses most parts of it, among those
/// to one that has kept a character for each `-`, and among equals to the last one
/// tried; and to nothing only where none of the paths it may stand for exists.
pub proof fn the_best_is_found(name: Seq<char>, is_there: spec_fn(Seq<char>) -> bool)
    ensures
        match workspace::decoded(name, is_there) {
            Some(path) => exists|i: int|
                #[trigger] is_best(workspace::tries(name), i, is_there) && workspace::tries(
                    name,
                )[i].path == path,
            None => forall|i: int|
                0 <= i < workspace::candidates(name).len() ==> !is_there(
                    #[trigger] workspace::candidates(name)[i],
                ),
        },
{
    let list = workspace::tries(name);
    best_of_is_best(list, is_there);
    if workspace::decoded(name, is_there) is None {
        assert forall|i: int| 0 <= i < workspace::candidates(name).len() implies !is_there(
            #[trigger] workspace::candidates(name)[i],
        ) by {
            assert(!is_there(list[i].path));
        }
    }
}

// ---------------------------------------------------------------------------
// The dot in the last name

proof fn last_slash(path: Seq<char>) -> (n: int)
    requires
        path.len() > 0,
        path[0] == '/',
    ensures
        0 < n <= path.len(),
        path[n - 1] == '/',
        slash_path::up_to_slash(path) == path.take(n),
        forall|i: int| n <= i < path.len() ==> #[trigger] path[i] != '/',
    decreases path.len(),
{
    if path.last() == '/' {
        assert(path.take(path.len() as int) =~= path);
        path.len() as int
    } else {
        let n = last_slash(path.drop_last());
        assert(path.drop_last().take(n) =~= path.take(n));
        assert forall|i: int| n <= i < path.len() implies #[trigger] path[i] != '/' by {
            if i < path.len() - 1 {
                assert(path.drop_last()[i] == path[i]);
            }
        }
        n
    }
}

proof fn last_piece(path: Seq<char>, n: int)
    requires
        0 < n <= path.len(),
        path[n - 1] == '/',
        forall|i: int| n <= i < path.len() ==> #[trigger] path[i] != '/',
    ensures
        text::split(path, '/').len() > 0,
        text::split(path, '/').last() == path.skip(n),
    decreases path.len(),
{
    if n == path.len() {
        assert(path.skip(n) =~= Seq::empty());
    } else {
        let head = path.drop_last();
        last_piece(head, n);
        assert(path.skip(n) =~= head.skip(n).push(path.last()));
    }
}

/// `path` has nothing at its end that counts for nothing.
spec fn is_trimmed(path: Seq<char>) -> bool {
    path.len() <= 1 || !(path.last() == '/' || (path.last() == '.' && path[path.len() - 2] == '/'))
}

/// Trimming leaves a beginning with the same components.
proof fn trimming(path: Seq<char>)
    ensures
        slash_path::trimmed(path).len() <= path.len(),
        slash_path::trimmed(path) == path.take(slash_path::trimmed(path).len() as int),
        path.len() > 0 ==> slash_path::trimmed(path).len() > 0,
        is_trimmed(slash_path::trimmed(path)),
        is_trimmed(path) ==> slash_path::trimmed(path) == path,
        slash_path::components(slash_path::trimmed(path)) == slash_path::components(path),
    decreases path.len(),
{
    if is_trimmed(path) {
        assert(path.take(path.len() as int) =~= path);
    } else {
        let head = path.drop_last();
        trimming(head);
        assert(head.take(slash_path::trimmed(head).len() as int) =~= path.take(
            slash_path::trimmed(head).len() as int,
        ));
        let pieces = text::split(head, '/');
        text::split_is_not_empty(head, '/');
        reveal(Seq::filter);
        if path.last() == '/' {
            assert(pieces.push(Seq::empty()).drop_last() =~= pieces);
        } else {
            assert(head.last() == '/');
            let before = text::split(head.drop_last(), '/');
            assert(pieces.drop_last() =~= before);
            assert(text::split(path, '/').drop_last() =~= before);
            assert(text::split(path, '/').last() =~= seq!['.']);
        }
    }
}

/// A dot put into the last name keeps all of the path, or makes it shorter.
proof fn dots_keep_or_shorten(current: Seq<char>, part: Seq<char>)
    requires
        current.len() > 0,
        current[0] == '/',
    ensures
        workspace::dotted(current, part) matches Some(path) ==> {
            &&& path.len() > 0
            &&& path[0] == '/'
            &&& path == current + seq!['.'] + part || path.len() < current.len() + 1 + part.len()
        },
{
    if let Some(path) = workspace::dotted(current, part) {
        let whole = slash_path::trimmed(current);
        trimming(current);
        assert(whole[0] == '/');
        assert(whole.len() > 1) by {
            if whole.len() == 1 {
                assert(whole =~= seq!['/']);
            }
        }
        let n = last_slash(whole);
        last_piece(whole, n);
        let up = whole.take(n);
        let last = whole.skip(n);
        assert(whole.last() == whole[whole.len() - 1]);
        assert(last.len() > 0 && last[0] == whole[n]);
        assert(last != seq!['.']) by {
            if last == seq!['.'] {
                assert(last[0] == '.');
            }
        }
        reveal(Seq::filter);
        assert(slash_path::components(whole).last() == last);
        trimming(up);
        let base = slash_path::trimmed(up);
        assert(up.last() == '/');
        assert(base[0] == '/');
        assert(base.last() == base[base.len() - 1]);
        assert(base.last() == up[base.len() - 1]);
        let grown = last + seq!['.'] + part;
        assert(grown[0] == last[0]);
        assert(path == slash_path::join(base, grown));
        if whole.len() == current.len() {
            assert(whole =~= current);
            assert(current =~= up + last);
            if base.len() == n {
                assert(base =~= up);
                assert(path =~= current + seq!['.'] + part);
            } else if base.len() == n - 1 && base.last() != '/' {
                assert(base + seq!['/'] =~= up);
                assert(path =~= current + seq!['.'] + part);
            }
        }
    }
}

/// In a plain path the dot in the last name stands at the end.
proof fn plain_dots(path: Seq<char>, part: Seq<char>)
    requires
        is_plain(path),
    ensures
        workspace::dotted(path, part) == Some(path + seq!['.'] + part),
{
    let n = last_slash(path);
    last_piece(path, n);
    let up = path.take(n);
    let last = path.skip(n);
    let k = path.len() - 1;
    assert(path.last() == path[k]);
    assert(!(path[k - 1] == '/' && is_mark(path[k])));
    assert(last.len() > 0 && last[0] == path[n] && path[n - 1] == '/');
    assert(!is_mark(path[n]));
    assert(seq!['.'][0] == '.');
    assert(seq!['.', '.'][0] == '.');
    reveal(Seq::filter);
    trimming(path);
    assert(path != seq!['/']);
    assert(up.last() == '/');
    assert(path =~= up + last);
    let grown = last + seq!['.'] + part;
    assert(grown[0] == last[0]);
    if n == 1 {
        trimming(up);
        assert(slash_path::join(up, grown) =~= path + seq!['.'] + part);
    } else {
        let base = up.drop_last();
        assert(!(path[n - 2] == '/' && is_mark(path[n - 1])));
        assert(base.last() == path[n - 2]);
        if n > 2 {
            assert(base[base.len() - 2] == path[n - 3]);
            assert(!(path[n - 3] == '/' && is_mark(path[n - 2])));
        }
        trimming(base);
        assert(slash_path::trimmed(up) == base);
        assert(base + seq!['/'] =~= up);
        assert(slash_path::join(base, grown) =~= path + seq!['.'] + part);
    }
}

proof fn plain_growth(path: Seq<char>, mark: char, part: Seq<char>)
    requires
        is_plain(path),
        is_free(part),
        is_mark(mark),
        part.len() > 0,
    ensures
        is_plain(path + seq![mark] + part),
{
    let whole = path + seq![mark] + part;
    assert(whole.last() == part[part.len() - 1]);
    assert forall|i: int, j: int| 0 <= i < j < whole.len() && j == i + 1 && #[trigger] whole[i]
        == '/' implies !is_mark(#[trigger] whole[j]) by {
        if j < path.len() {
            assert(whole[i] == path[i] && whole[j] == path[j]);
        } else if j == path.len() {
            assert(whole[i] == path.last());
        } else {
            assert(whole[j] == part[j - path.len() - 1]);
        }
    }
}

proof fn plain_start(part: Seq<char>)
    requires
        is_free(part),
        part.len() > 0,
    ensures
        is_plain(seq!['/'] + part),
{
    let start = seq!['/'] + part;
    assert(start.last() == part[part.len() - 1]);
    assert forall|i: int, j: int| 0 <= i < j < start.len() && j == i + 1 && #[trigger] start[i]
        == '/' implies !is_mark(#[trigger] start[j]) by {
        assert(start[j] == part[j - 1]);
    }
}

// ---------------------------------------------------------------------------
// Names and candidates

proof fn name_of_growth(path: Seq<char>, mark: char, part: Seq<char>)
    requires
        path.len() > 0,
        is_mark(mark),
        is_free(part),
    ensures
        workspace_name(path + seq![mark] + part) == workspace_name(path) + seq!['-'] + part,
{
    let whole = path + seq![mark] + part;
    assert forall|i: int| 0 <= i < whole.len() - 1 implies #[trigger] workspace_name(whole)[i] == (
    workspace_name(path) + seq!['-'] + part)[i] by {
        let k = i + 1;
        if k > path.len() {
            assert(whole[k] == part[k - path.len() - 1]);
        }
    }
    assert(workspace_name(whole) =~= workspace_name(path) + seq!['-'] + part);
}

proof fn join_of_take(parts: Seq<Seq<char>>, idx: int)
    requires
        1 <= idx < parts.len(),
    ensures
        text::join(parts.take(idx + 1), seq!['-']) == text::join(parts.take(idx), seq!['-'])
            + seq!['-'] + parts[idx],
{
    assert(parts.take(idx + 1).drop_last() =~= parts.take(idx));
}

/// A try starts with `/`. One that has kept a character for each `-` is named by
/// as many parts of the name as it uses; any other is too short for that.
pub open spec fn is_try_of(t: TryView, parts: Seq<Seq<char>>) -> bool {
    let name = text::join(parts.take(t.used), seq!['-']);
    &&& 1 <= t.used <= parts.len()
    &&& t.path.len() > 0
    &&& t.path[0] == '/'
    &&& if t.whole {
        workspace_name(t.path) == name
    } else {
        t.path.len() < name.len() + 1
    }
}

proof fn visits_are_named(parts: Seq<Seq<char>>, idx: int, path: Seq<char>, whole: bool)
    requires
        are_free(parts),
        is_try_of(TryView { used: idx, whole, path }, parts),
    ensures
        forall|i: int|
            0 <= i < workspace::visits(parts, idx, path, whole).len() ==> is_try_of(
                #[trigger] workspace::visits(parts, idx, path, whole)[i],
                parts,
            ),
    decreases parts.len() - idx,
{
    let all = workspace::visits(parts, idx, path, whole);
    if idx < parts.len() {
        let part = parts[idx];
        assert(is_free(part));
        join_of_take(parts, idx);
        name_of_growth(path, '/', part);
        name_of_growth(path, '.', part);
        dots_keep_or_shorten(path, part);
        let slashed = slash_path::join(path, part);
        let kept = whole && workspace::goes_on(slashed, path, '/', part);
        assert(part.len() > 0 ==> part[0] != '/');
        assert(slashed == path + seq!['/'] + part || slashed == path + part);
        visits_are_named(parts, idx + 1, slashed, kept);
        let below = workspace::visits(parts, idx + 1, slashed, kept);
        let mut beside = Seq::<TryView>::empty();
        let mut hidden = Seq::<TryView>::empty();
        if let Some(next) = workspace::dotted(path, part) {
            let kept = whole && workspace::goes_on(next, path, '.', part);
            visits_are_named(parts, idx + 1, next, kept);
            beside = workspace::visits(parts, idx + 1, next, kept);
        }
        if workspace::may_hide(parts, idx, path) {
            visits_are_named(parts, idx + 1, path + seq!['.'] + part, whole);
            hidden = workspace::visits(parts, idx + 1, path + seq!['.'] + part, whole);
        }
        assert forall|i: int| 0 <= i < all.len() implies is_try_of(#[trigger] all[i], parts) by {
            if i > below.len() + beside.len() {
                assert(all[i] == hidden[i - 1 - below.len() - beside.len()]);
            } else if i > below.len() {
                assert(all[i] == beside[i - 1 - below.len()]);
            } else if i > 0 {
                assert(all[i] == below[i - 1]);
            }
        }
    }
}

/// The path that the search starts with is named by the first part.
proof fn start_is_named(parts: Seq<Seq<char>>)
    requires
        parts.len() > 0,
        are_free(parts),
    ensures
        slash_path::join(seq!['/'], parts[0]) == seq!['/'] + parts[0],
        workspace_name(seq!['/'] + parts[0]) == text::join(parts.take(1), seq!['-']),
{
    let start = seq!['/'] + parts[0];
    assert(is_free(parts[0]));
    assert(parts[0].len() > 0 ==> parts[0][0] != '/');
    assert(start.skip(1) =~= parts[0]);
    assert(workspace_name(start) =~= parts[0]);
    assert(parts.take(1) =~= seq![parts[0]]);
}

/// Every path that is tried for a name without `/` and `.` starts with `/`. One
/// that has kept a character for each `-` has for its own workspace name the parts
/// that it uses; any other is shorter.
pub proof fn tries_are_named(name: Seq<char>)
    requires
        is_free(name),
    ensures
        forall|i: int|
            0 <= i < workspace::tries(name).len() ==> is_try_of(
                #[trigger] workspace::tries(name)[i],
                text::split(name, '-'),
            ),
{
    let parts = text::split(name, '-');
    text::split_is_not_empty(name, '-');
    parts_are_free(name);
    start_is_named(parts);
    visits_are_named(parts, 1, seq!['/'] + parts[0], true);
}

proof fn join_goes_on(parts: Seq<Seq<char>>, k: int)
    requires
        1 <= k <= parts.len(),
    ensures
        text::join(parts.take(k), seq!['-']).is_prefix_of(text::join(parts, seq!['-'])),
        k < parts.len() ==> text::join(parts.take(k), seq!['-']).len() < text::join(
            parts,
            seq!['-'],
        ).len() && text::join(parts, seq!['-'])[text::join(parts.take(k), seq!['-']).len() as int]
            == '-',
    decreases parts.len(),
{
    let whole = text::join(parts, seq!['-']);
    let some = text::join(parts.take(k), seq!['-']);
    if k == parts.len() {
        assert(parts.take(k) =~= parts);
        assert(some =~= whole.subrange(0, some.len() as int));
    } else {
        let head = parts.drop_last();
        join_goes_on(head, k);
        assert(head.take(k) =~= parts.take(k));
        let before = text::join(head, seq!['-']);
        assert(whole == before + seq!['-'] + parts.last());
        assert(before.subrange(0, some.len() as int) =~= whole.subrange(0, some.len() as int));
        if k == head.len() {
            assert(some =~= before) by {
                assert(head.take(k) =~= head);
            }
        }
    }
}

/// On the way from `path` to `goal` the next part follows, behind a mark.
proof fn next_toward(parts: Seq<Seq<char>>, idx: int, path: Seq<char>, goal: Seq<char>)
    requires
        path.len() > 0,
        !goal.contains('-'),
        are_free(parts),
        forall|i: int| 0 <= i < parts.len() ==> !(#[trigger] parts[i]).contains('-'),
        1 <= idx < parts.len(),
        path.is_prefix_of(goal),
        workspace_name(path) == text::join(parts.take(idx), seq!['-']),
        workspace_name(goal) == text::join(parts, seq!['-']),
    ensures
        path.len() < goal.len(),
        is_mark(goal[path.len() as int]),
        (path + seq![goal[path.len() as int]] + parts[idx]).is_prefix_of(goal),
        workspace_name(path + seq![goal[path.len() as int]] + parts[idx]) == text::join(
            parts.take(idx + 1),
            seq!['-'],
        ),
{
    let n = path.len() as int;
    let name = workspace_name(goal);
    join_goes_on(parts, idx);
    assert(workspace_name(path).len() == n - 1);
    assert(name.len() == goal.len() - 1);
    assert(name[n - 1] == '-');
    assert(goal.skip(1)[n - 1] == goal[n]);
    assert(goal.contains(goal[n]));
    let mark = goal[n];
    let next = path + seq![mark] + parts[idx];
    join_of_take(parts, idx);
    name_of_growth(path, mark, parts[idx]);
    join_goes_on(parts, idx + 1);
    let next_name = workspace_name(next);
    assert(next_name == name.subrange(0, next_name.len() as int));
    assert forall|i: int| 0 <= i < next.len() implies #[trigger] next[i] == goal[i] by {
        if i < n {
            assert(path[i] == goal.subrange(0, n)[i]);
        } else if i > n {
            assert(next[i] == parts[idx][i - n - 1]);
            assert(is_free(parts[idx]));
            assert(next_name[i - 1] == name[i - 1]);
            assert(next.skip(1)[i - 1] == next[i]);
            assert(goal.skip(1)[i - 1] == goal[i]);
            assert(parts[idx].contains(next[i]));
        }
    }
    assert(next =~= goal.subrange(0, next.len() as int));
}

proof fn same_path(path: Seq<char>, goal: Seq<char>)
    requires
        path.len() > 0,
        goal.len() > 0,
        path.is_prefix_of(goal),
        workspace_name(path) == workspace_name(goal),
    ensures
        path == goal,
{
    assert(workspace_name(path).len() == path.len() - 1);
    assert(workspace_name(goal).len() == goal.len() - 1);
    assert(goal.subrange(0, goal.len() as int) =~= goal);
}

proof fn visits_reach(parts: Seq<Seq<char>>, idx: int, path: Seq<char>, goal: Seq<char>)
    requires
        path.len() > 0,
        has_single_slashes(goal),
        !goal.contains('-'),
        are_free(parts),
        forall|i: int| 0 <= i < parts.len() ==> !(#[trigger] parts[i]).contains('-'),
        1 <= idx <= parts.len(),
        path.is_prefix_of(goal),
        workspace_name(path) == text::join(parts.take(idx), seq!['-']),
        workspace_name(goal) == text::join(parts, seq!['-']),
        is_plain(path) || workspace::has_empty(parts, idx),
    ensures
        workspace::visits(parts, idx, path, true).contains(
            TryView { used: parts.len() as int, whole: true, path: goal },
        ),
    decreases parts.len() - idx,
{
    let all = workspace::visits(parts, idx, path, true);
    let sought = TryView { used: parts.len() as int, whole: true, path: goal };
    if idx == parts.len() {
        assert(parts.take(idx) =~= parts);
        same_path(path, goal);
        assert(all[0] == sought);
    } else {
        next_toward(parts, idx, path, goal);
        let n = path.len() as int;
        let part = parts[idx];
        let next = path + seq![goal[n]] + part;
        assert(is_free(part));
        if is_plain(path) && part.len() > 0 {
            plain_growth(path, goal[n], part);
        } else if part.len() == 0 {
            assert(workspace::has_empty(parts, idx + 1));
        } else {
            let i = choose|i: int|
                0 <= i < idx && i < parts.len() && (#[trigger] parts[i]).len() == 0;
            assert(parts[i].len() == 0);
            assert(workspace::has_empty(parts, idx + 1));
        }
        visits_reach(parts, idx + 1, next, goal);
        let found = workspace::visits(parts, idx + 1, next, true);
        let k = choose|k: int| 0 <= k < found.len() && found[k] == sought;
        let slashed = slash_path::join(path, part);
        let below = workspace::visits(
            parts,
            idx + 1,
            slashed,
            workspace::goes_on(slashed, path, '/', part),
        );
        if goal[n] == '/' {
            assert(path.last() == goal[n - 1]) by {
                assert(path[n - 1] == goal.subrange(0, n)[n - 1]);
            }
            assert(part.len() > 0 ==> part[0] != '/');
            assert(slashed == next);
            assert(all[1 + k] == sought);
        } else {
            if is_plain(path) {
                plain_dots(path, part);
            }
            if workspace::dotted(path, part) == Some(next) {
                assert(all[1 + below.len() + k] == sought);
            } else {
                assert(workspace::may_hide(parts, idx, path));
                let beside = match workspace::dotted(path, part) {
                    Some(other) => workspace::visits(
                        parts,
                        idx + 1,
                        other,
                        workspace::goes_on(other, path, '.', part),
                    ),
                    None => Seq::empty(),
                };
                assert(all[1 + below.len() + beside.len() + k] == sought);
            }
        }
    }
}

proof fn split_keeps_chars(s: Seq<char>, sep: char, i: int, k: int)
    requires
        0 <= i < text::split(s, sep).len(),
        0 <= k < text::split(s, sep)[i].len(),
    ensures
        s.contains(text::split(s, sep)[i][k]),
    decreases s.len(),
{
    if s.len() > 0 {
        let head = s.drop_last();
        let before = text::split(head, sep);
        text::split_is_not_empty(head, sep);
        let c = text::split(s, sep)[i][k];
        if s.last() != sep && i == before.len() - 1 && k == before[i].len() {
            assert(c == s.last());
            assert(s[s.len() - 1] == c);
        } else {
            assert(i < before.len() && c == before[i][k]);
            split_keeps_chars(head, sep, i, k);
            let j = choose|j: int| 0 <= j < head.len() && head[j] == c;
            assert(s[j] == c);
        }
    }
}

proof fn parts_are_free(name: Seq<char>)
    requires
        is_free(name),
    ensures
        are_free(text::split(name, '-')),
{
    let parts = text::split(name, '-');
    assert forall|i: int| 0 <= i < parts.len() implies is_free(#[trigger] parts[i]) by {
        assert forall|k: int| 0 <= k < parts[i].len() implies !is_mark(#[trigger] parts[i][k]) by {
            split_keeps_chars(name, '-', i, k);
            let j = choose|j: int| 0 <= j < name.len() && name[j] == parts[i][k];
            assert(!is_mark(name[j]));
        }
    }
}

/// Every path that starts with `/` and holds neither `-` nor two `/` side by side
/// is tried for its workspace name, and keeps a character for each `-` of it.
proof fn every_path_is_tried(path: Seq<char>, name: Seq<char>)
    requires
        path.len() > 0,
        path[0] == '/',
        has_single_slashes(path),
        !path.contains('-'),
        workspace_name(path) == name,
    ensures
        workspace::tries(name).contains(
            TryView { used: text::split(name, '-').len() as int, whole: true, path },
        ),
{
    let parts = text::split(name, '-');
    let start = seq!['/'] + parts[0];
    assert(is_free(name));
    text::split_is_not_empty(name, '-');
    text::split_then_join(name, '-');
    parts_are_free(name);
    start_is_named(parts);
    join_goes_on(parts, 1);
    assert(parts.take(1) =~= seq![parts[0]]);
    assert(parts[0] == name.subrange(0, parts[0].len() as int));
    assert forall|i: int| 0 <= i < start.len() implies #[trigger] start[i] == path[i] by {
        if i > 0 {
            assert(start[i] == parts[0][i - 1]);
            assert(parts[0][i - 1] == name[i - 1]);
            assert(path.skip(1)[i - 1] == path[i]);
            assert(parts[0].contains(start[i]));
        }
    }
    assert(start =~= path.subrange(0, start.len() as int));
    if parts[0].len() > 0 {
        plain_start(parts[0]);
    } else {
        assert(workspace::has_empty(parts, 1));
    }
    visits_reach(parts, 1, start, path);
}

/// Every path that starts with `/` and holds neither `-` nor two `/` side by side
/// is among the candidates of its workspace name.
pub proof fn every_path_is_a_candidate(path: Seq<char>, name: Seq<char>)
    requires
        path.len() > 0,
        path[0] == '/',
        has_single_slashes(path),
        !path.contains('-'),
        workspace_name(path) == name,
    ensures
        workspace::candidates(name).contains(path),
{
    every_path_is_tried(path, name);
    let list = workspace::tries(name);
    let i = choose|i: int|
        0 <= i < list.len() && list[i] == (TryView {
            used: text::split(name, '-').len() as int,
            whole: true,
            path,
        });
    assert(workspace::candidates(name)[i] == path);
}

/// Where a candidate exists that has the name, the name is decoded to such a
/// path: one that exists, is a candidate and has the name.
pub proof fn a_path_of_the_name_is_found(
    name: Seq<char>,
    path: Seq<char>,
    is_there: spec_fn(Seq<char>) -> bool,
)
    requires
        workspace::candidates(name).contains(path),
        workspace_name(path) == name,
        is_there(path),
    ensures
        workspace::decoded(name, is_there) matches Some(found) && workspace::candidates(
            name,
        ).contains(found) && workspace_name(found) == name && is_there(found),
{
    let list = workspace::tries(name);
    let all = workspace::candidates(name);
    let parts = text::split(name, '-');
    assert(is_free(name));
    tries_are_named(name);
    text::split_then_join(name, '-');
    let k = choose|k: int| 0 <= k < all.len() && all[k] == path;
    assert(is_try_of(list[k], parts));
    join_goes_on(parts, list[k].used);
    assert(name.len() == path.len() - 1);
    assert(list[k].whole && list[k].used == parts.len());
    best_of_is_best(list, is_there);
    assert(is_there(list[k].path));
    let t = workspace::best_of(None, list, is_there)->0;
    let i = choose|i: int| #[trigger] is_best(list, i, is_there) && list[i] == t;
    assert(is_try_of(list[i], parts));
    assert(list[i].whole && list[i].used == parts.len());
    assert(parts.take(parts.len() as int) =~= parts);
    assert(all[i] == t.path);
}

/// A path that starts with `/` and holds neither `-` nor two `/` side by side
/// comes back from its workspace name, where it exists and no other candidate of
/// that name does.
pub proof fn names_are_decoded(path: Seq<char>, is_there: spec_fn(Seq<char>) -> bool)
    requires
        path.len() > 0,
        path[0] == '/',
        has_single_slashes(path),
        !path.contains('-'),
        is_there(path),
        forall|other: Seq<char>|
            #[trigger] workspace::candidates(workspace_name(path)).contains(other) && is_there(other)
                && workspace_name(other) == workspace_name(path) ==> other == path,
    ensures
        workspace::decoded(workspace_name(path), is_there) == Some(path),
        (WorkspaceSearchView {
            pending: workspace::tries(workspace_name(path)),
            best: None,
        }).outcome(is_there) == Some(path),
{
    let name = workspace_name(path);
    every_path_is_a_candidate(path, name);
    a_path_of_the_name_is_found(name, path, is_there);
    search_decodes(name, is_there);
}

// ---------------------------------------------------------------------------
// How the search goes on

/// The try at place `j` comes behind that at place `i`, uses one part more, and
/// has the given path.
pub open spec fn follows(list: Seq<TryView>, i: int, j: int, path: Seq<char>) -> bool {
    i < j < list.len() && list[j].used == list[i].used + 1 && list[j].path == path
}

/// The try at place `i` is followed by what goes on below it, and, behind that, by
/// what goes on by a dot.
#[verifier::opaque]
spec fn branches(parts: Seq<Seq<char>>, list: Seq<TryView>, i: int) -> bool {
    let part = parts[list[i].used];
    exists|j: int|
        {
            &&& #[trigger] follows(list, i, j, slash_path::join(list[i].path, part))
            &&& workspace::dotted(list[i].path, part) matches Some(path) ==> exists|k: int|
                j < k && #[trigger] follows(list, i, k, path)
            &&& workspace::may_hide(parts, list[i].used, list[i].path) ==> exists|k: int|
                j < k && #[trigger] follows(list, i, k, list[i].path + seq!['.'] + part)
        }
}

/// The try at place `i` goes on from an earlier one.
#[verifier::opaque]
spec fn stems(parts: Seq<Seq<char>>, list: Seq<TryView>, i: int) -> bool {
    exists|j: int|
        {
            &&& 0 <= j < i
            &&& (#[trigger] list[j]).used < parts.len()
            &&& list[i].used == list[j].used + 1
            &&& {
                ||| list[i].path == slash_path::join(list[j].path, parts[list[j].used])
                ||| Some(list[i].path) == workspace::dotted(list[j].path, parts[list[j].used])
                ||| workspace::has_empty(parts, list[j].used) && list[i].path == list[j].path
                    + seq!['.'] + parts[list[j].used]
            }
        }
}

/// What holds of a list of tries holds of it inside a longer one.
proof fn branches_inside(
    parts: Seq<Seq<char>>,
    list: Seq<TryView>,
    whole: Seq<TryView>,
    at: int,
    i: int,
)
    requires
        0 <= at,
        at + list.len() <= whole.len(),
        forall|x: int| 0 <= x < list.len() ==> #[trigger] list[x] == whole[at + x],
        0 <= i < list.len(),
    ensures
        branches(parts, list, i) ==> branches(parts, whole, at + i),
        stems(parts, list, i) ==> stems(parts, whole, at + i),
{
    reveal(branches);
    reveal(stems);
    let own = list[i];
    if branches(parts, list, i) {
        let part = parts[own.used];
        let j = choose|j: int|
            {
                &&& #[trigger] follows(list, i, j, slash_path::join(own.path, part))
                &&& workspace::dotted(own.path, part) matches Some(path) ==> exists|k: int|
                    j < k && #[trigger] follows(list, i, k, path)
                &&& workspace::may_hide(parts, own.used, own.path) ==> exists|k: int|
                    j < k && #[trigger] follows(list, i, k, own.path + seq!['.'] + part)
            };
        assert(list[j] == whole[at + j]);
        assert(follows(whole, at + i, at + j, slash_path::join(own.path, part)));
        if let Some(path) = workspace::dotted(own.path, part) {
            let k = choose|k: int| j < k && #[trigger] follows(list, i, k, path);
            assert(list[k] == whole[at + k]);
            assert(follows(whole, at + i, at + k, path));
        }
        if workspace::may_hide(parts, own.used, own.path) {
            let path = own.path + seq!['.'] + part;
            let k = choose|k: int| j < k && #[trigger] follows(list, i, k, path);
            assert(list[k] == whole[at + k]);
            assert(follows(whole, at + i, at + k, path));
        }
    }
    if stems(parts, list, i) {
        let j = choose|j: int|
            {
                &&& 0 <= j < i
                &&& (#[trigger] list[j]).used < parts.len()
                &&& list[i].used == list[j].used + 1
                &&& {
                    ||| list[i].path == slash_path::join(list[j].path, parts[list[j].used])
                    ||| Some(list[i].path) == workspace::dotted(list[j].path, parts[list[j].used])
                    ||| workspace::has_empty(parts, list[j].used) && list[i].path == list[j].path
                        + seq!['.'] + parts[list[j].used]
                }
            };
        assert(list[j] == whole[at + j]);
        assert(whole[at + j].used < parts.len());
    }
}

/// The places of a list of visits inside a longer one.
proof fn visits_go_on_inside(
    parts: Seq<Seq<char>>,
    idx: int,
    current: Seq<char>,
    kept: bool,
    all: Seq<TryView>,
    at: int,
)
    requires
        0 < at,
        0 <= idx,
        at + workspace::visits(parts, idx, current, kept).len() <= all.len(),
        forall|x: int|
            0 <= x < workspace::visits(parts, idx, current, kept).len()
                ==> #[trigger] workspace::visits(parts, idx, current, kept)[x] == all[at + x],
        stems(parts, all, at),
    ensures
        forall|i: int|
            at <= i < at + workspace::visits(parts, idx, current, kept).len() ==> (
            #[trigger] all[i]).used >= idx && stems(parts, all, i) && (all[i].used < parts.len()
                ==> branches(parts, all, i)),
    decreases parts.len() - idx, 1nat,
{
    let list = workspace::visits(parts, idx, current, kept);
    visits_go_on(parts, idx, current, kept);
    assert forall|i: int| at <= i < at + list.len() implies (#[trigger] all[i]).used >= idx
        && stems(parts, all, i) && (all[i].used < parts.len() ==> branches(parts, all, i)) by {
        let x = i - at;
        assert(list[x] == all[at + x]);
        branches_inside(parts, list, all, at, x);
    }
}

/// What goes on from the first try stems from it.
proof fn follows_first(parts: Seq<Seq<char>>, all: Seq<TryView>, at: int)
    requires
        0 < at < all.len(),
        all[0].used < parts.len(),
        all[at].used == all[0].used + 1,
        all[at].path == slash_path::join(all[0].path, parts[all[0].used]) || Some(all[at].path)
            == workspace::dotted(all[0].path, parts[all[0].used]) || (workspace::has_empty(
            parts,
            all[0].used,
        ) && all[at].path == all[0].path + seq!['.'] + parts[all[0].used]),
    ensures
        stems(parts, all, at),
{
    reveal(stems);
    assert(all[0].used < parts.len());
}

proof fn visits_go_on(parts: Seq<Seq<char>>, idx: int, current: Seq<char>, whole: bool)
    requires
        0 <= idx,
    ensures
        ({
            let all = workspace::visits(parts, idx, current, whole);
            &&& all.len() > 0
            &&& all[0] == (TryView { used: idx, whole, path: current })
            &&& forall|i: int|
                0 <= i < all.len() ==> (#[trigger] all[i]).used >= idx && (i > 0 ==> stems(
                    parts,
                    all,
                    i,
                )) && (all[i].used < parts.len() ==> branches(parts, all, i))
        }),
    decreases parts.len() - idx, 0nat,
{
    let all = workspace::visits(parts, idx, current, whole);
    if idx < parts.len() {
        let part = parts[idx];
        let slashed = slash_path::join(current, part);
        let kept = whole && workspace::goes_on(slashed, current, '/', part);
        let below = workspace::visits(parts, idx + 1, slashed, kept);
        let mut beside = Seq::<TryView>::empty();
        let mut hidden = Seq::<TryView>::empty();
        let after = current + seq!['.'] + part;
        if let Some(next) = workspace::dotted(current, part) {
            beside = workspace::visits(
                parts,
                idx + 1,
                next,
                whole && workspace::goes_on(next, current, '.', part),
            );
        }
        if workspace::may_hide(parts, idx, current) {
            hidden = workspace::visits(parts, idx + 1, after, whole);
        }
        assert(all =~= seq![all[0]] + below + beside + hidden);
        assert(all[0].used == idx && all[0].path == current);
        visits_go_on(parts, idx + 1, slashed, kept);
        assert forall|x: int| 0 <= x < below.len() implies #[trigger] below[x] == all[1 + x] by {}
        follows_first(parts, all, 1);
        visits_go_on_inside(parts, idx + 1, slashed, kept, all, 1);
        let at = (1 + below.len()) as int;
        if let Some(next) = workspace::dotted(current, part) {
            let kept = whole && workspace::goes_on(next, current, '.', part);
            visits_go_on(parts, idx + 1, next, kept);
            assert forall|x: int| 0 <= x < beside.len() implies #[trigger] beside[x] == all[at
                + x] by {}
            follows_first(parts, all, at);
            visits_go_on_inside(parts, idx + 1, next, kept, all, at);
        }
        let end = (1 + below.len() + beside.len()) as int;
        if workspace::may_hide(parts, idx, current) {
            visits_go_on(parts, idx + 1, after, whole);
            assert forall|x: int| 0 <= x < hidden.len() implies #[trigger] hidden[x] == all[end
                + x] by {}
            follows_first(parts, all, end);
            visits_go_on_inside(parts, idx + 1, after, whole, all, end);
        }
        assert(branches(parts, all, 0)) by {
            reveal(branches);
            assert(follows(all, 0, 1, slashed));
            if workspace::dotted(current, part) is Some {
                assert(follows(all, 0, at, workspace::dotted(current, part)->0));
            }
            if workspace::may_hide(parts, idx, current) {
                assert(follows(all, 0, end, after));
            }
        }
    }
}

/// The search starts below the root with the first part of the name.
pub proof fn the_first_part_is_tried_first(name: Seq<char>)
    ensures
        workspace::tries(name).len() > 0,
        workspace::tries(name)[0].used == 1,
        workspace::tries(name)[0].path == slash_path::join(seq!['/'], text::split(name, '-')[0]),
{
}

/// From every path that does not use the whole name the search goes on by the next
/// part, first below it and then by a dot in its last name.
pub proof fn every_path_is_followed_up(name: Seq<char>, i: int)
    requires
        0 <= i < workspace::tries(name).len(),
        workspace::tries(name)[i].used < text::split(name, '-').len(),
    ensures
        ({
            let list = workspace::tries(name);
            let part = text::split(name, '-')[list[i].used];
            exists|j: int|
                #[trigger] follows(list, i, j, slash_path::join(list[i].path, part)) && (
                workspace::dotted(list[i].path, part) matches Some(path) ==> exists|k: int|
                    j < k && #[trigger] follows(list, i, k, path))
        }),
{
    let parts = text::split(name, '-');
    let start = slash_path::join(seq!['/'], parts[0]);
    visits_go_on(parts, 1, start, start == seq!['/'] + parts[0]);
    let list = workspace::tries(name);
    assert(list[i].used < parts.len());
    reveal(branches);
    assert(branches(parts, list, i));
}

/// Every path but the first goes on from one before it by the next part: below it,
/// by a dot in its last name, or, behind an empty part, by a dot at its end.
pub proof fn every_path_goes_on_from_another(name: Seq<char>, i: int)
    requires
        0 < i < workspace::tries(name).len(),
    ensures
        ({
            let list = workspace::tries(name);
            let parts = text::split(name, '-');
            exists|j: int|
                {
                    &&& 0 <= j < i
                    &&& (#[trigger] list[j]).used < parts.len()
                    &&& list[i].used == list[j].used + 1
                    &&& {
                        ||| list[i].path == slash_path::join(list[j].path, parts[list[j].used])
                        ||| Some(list[i].path) == workspace::dotted(
                            list[j].path,
                            parts[list[j].used],
                        )
                        ||| (exists|e: int|
                            0 <= e < list[j].used && (#[trigger] parts[e]).len() == 0)
                            && list[i].path == list[j].path + seq!['.'] + parts[list[j].used]
                    }
                }
        }),
{
    let parts = text::split(name, '-');
    let start = slash_path::join(seq!['/'], parts[0]);
    visits_go_on(parts, 1, start, start == seq!['/'] + parts[0]);
    let list = workspace::tries(name);
    assert(list[i].used >= 1);
    reveal(stems);
    assert(stems(parts, list, i));
}

/// A dot goes into the last name of a path: the path stays, and the dot and the
/// part stand behind it.
pub proof fn dots_go_into_the_last_name(base: Seq<char>, name: Seq<char>, part: Seq<char>)
    requires
        name.len() > 0,
        !name.contains('/'),
        name != seq!['.'],
        name != seq!['.', '.'],
        base.len() > 0 ==> base.last() != '/' && !(base.len() > 1 && base.last() == '.' && base[
        base.len() - 2] == '/'),
    ensures
        workspace::dotted(base + seq!['/'] + name, part) == Some(
            base + seq!['/'] + name + seq!['.'] + part,
        ),
        workspace::dotted(seq!['/'], part) is None,
{
    let path = base + seq!['/'] + name;
    slash_path::names_are_components(base, name);
    slash_path::parents_stand_before_the_name(base, name);
    let grown = name + seq!['.'] + part;
    assert(grown[0] == name[0]);
    assert(name.contains(name[0]));
    if base.len() > 0 {
        slash_path::parts_go_below(base, grown);
        assert(base + seq!['/'] + grown =~= path + seq!['.'] + part);
    } else {
        assert(path =~= seq!['/'] + name);
        slash_path::parts_go_below(seq!['/'], grown);
        assert(seq!['/'] + grown =~= path + seq!['.'] + part);
    }
}

/// A search asks for the first path that is still to be tried; answered truthfully
/// it ends with what it was bound to end with, and each answer leaves one path
/// less.
pub proof fn truthful_answers_lead_to_the_outcome(
    state: WorkspaceSearchView,
    is_there: spec_fn(Seq<char>) -> bool,
)
    ensures
        state.next() is Some <==> state.pending.len() > 0,
        state.next() matches Some(path) ==> state.answered(is_there(path)).outcome(is_there)
            == state.outcome(is_there) && state.answered(is_there(path)).pending
            == state.pending.drop_first() && path == state.pending[0].path,
        state.next() is None ==> state.outcome(is_there) == workspace::path_of(state.best),
        state.best matches Some(t) ==> workspace::path_of(state.best) == Some(t.path),
        state.best is None ==> workspace::path_of(state.best) is None,
{
    if state.pending.len() > 0 {
        assert(state.pending.skip(1) =~= state.pending.drop_first());
    }
}

/// The candidates are the paths that are tried, one for one.
pub proof fn candidates_are_tried(name: Seq<char>)
    ensures
        workspace::candidates(name).len() == workspace::tries(name).len(),
        forall|i: int|
            0 <= i < workspace::tries(name).len() ==> #[trigger] workspace::candidates(name)[i]
                == workspace::tries(name)[i].path,
{
}

/// A path that exists takes the place of one that uses fewer parts, of one that
/// uses as many and has lost a character where it has not, and of one as good; a
/// path that does not exist changes nothing.
pub proof fn better_paths_take_the_place(best: TryView, next: TryView, none: Option<TryView>)
    ensures
        workspace::better(none, next, false) == none,
        workspace::better(None, next, true) == Some(next),
        next.used > best.used ==> workspace::better(Some(best), next, true) == Some(next),
        next.used < best.used ==> workspace::better(Some(best), next, true) == Some(best),
        next.used == best.used && (next.whole || !best.whole) ==> workspace::better(
            Some(best),
            next,
            true,
        ) == Some(next),
        next.used == best.used && !next.whole && best.whole ==> workspace::better(
            Some(best),
            next,
            true,
        ) == Some(best),
{
}

} // verus!
