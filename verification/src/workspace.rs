//! The directory that a Cursor workspace name stands for.
//!
//! Cursor names a workspace after its path, without the leading `/` and with `-`
//! for each other `/` and each `.`. The name alone does not tell which `-` was
//! which, so the paths it may stand for are tried in turn: at each `-` first a
//! new component, then a dot in the last one. Behind two `-` that meet, the last
//! name may lie before a `/` or be hidden, and the dot is put behind the path as
//! it is too. Whether a path exists is asked of the caller, one path at a time.
//!
//! Of the paths that exist, the one that uses most parts of the name is found;
//! among those, one that has kept a character for each `-`. Where no path uses
//! all of the name, what is found is a leading piece.

use vstd::prelude::*;

use crate::slash_path;
use crate::text;

verus! {

/// A path to be tried: how many parts of the name it uses, and whether it has
/// kept a character for each `-` between them.
pub struct Try {
    pub used: usize,
    pub whole: bool,
    pub path: String,
}

/// The content of a [`Try`].
pub struct TryView {
    pub used: int,
    pub whole: bool,
    pub path: Seq<char>,
}

impl View for Try {
    type V = TryView;

    open spec fn view(&self) -> TryView {
        TryView { used: self.used as int, whole: self.whole, path: self.path@ }
    }
}

impl TryView {
    /// This path comes before `other`, whatever the order they are tried in.
    pub open spec fn beats(self, other: TryView) -> bool {
        self.used > other.used || (self.used == other.used && self.whole && !other.whole)
    }
}

/// The path next to `current` whose last name goes on with a dot and `part`.
pub open spec fn dotted(current: Seq<char>, part: Seq<char>) -> Option<Seq<char>> {
    match (slash_path::parent(current), slash_path::file_name(current)) {
        (Some(parent), Some(last)) => Some(slash_path::join(parent, last + seq!['.'] + part)),
        _ => None,
    }
}

/// `path` is `current`, a `mark` and `part`.
pub open spec fn goes_on(path: Seq<char>, current: Seq<char>, mark: char, part: Seq<char>) -> bool {
    path == current + seq![mark] + part
}

/// One of the first `idx` parts is empty.
pub open spec fn has_empty(parts: Seq<Seq<char>>, idx: int) -> bool {
    exists|i: int| 0 <= i < idx && i < parts.len() && (#[trigger] parts[i]).len() == 0
}

/// A dot may stand right behind `current`, as that of a hidden file: a part
/// before `parts[idx]` is empty, and the dot of the last name is elsewhere.
pub open spec fn may_hide(parts: Seq<Seq<char>>, idx: int, current: Seq<char>) -> bool {
    has_empty(parts, idx) && dotted(current, parts[idx]) != Some(
        current + seq!['.'] + parts[idx],
    )
}

/// The paths tried from `current` on, when `parts[idx]` is the next part: the
/// path itself, then all that go on below it, then all that go on by a dot in the
/// last name, then all that go on by a dot behind the path. `whole` tells whether
/// `current` has kept a character for each `-`.
pub open spec fn visits(
    parts: Seq<Seq<char>>,
    idx: int,
    current: Seq<char>,
    whole: bool,
) -> Seq<TryView>
    decreases parts.len() - idx,
{
    let own = TryView { used: idx, whole, path: current };
    if idx >= parts.len() {
        seq![own]
    } else {
        let part = parts[idx];
        let slashed = slash_path::join(current, part);
        let below = visits(parts, idx + 1, slashed, whole && goes_on(slashed, current, '/', part));
        let beside = match dotted(current, part) {
            Some(path) => visits(parts, idx + 1, path, whole && goes_on(path, current, '.', part)),
            None => Seq::empty(),
        };
        let hidden = if may_hide(parts, idx, current) {
            visits(parts, idx + 1, current + seq!['.'] + part, whole)
        } else {
            Seq::empty()
        };
        seq![own] + below + beside + hidden
    }
}

/// The paths that a workspace name may stand for, in the order they are tried.
pub open spec fn tries(name: Seq<char>) -> Seq<TryView> {
    let parts = text::split(name, '-');
    let start = slash_path::join(seq!['/'], parts[0]);
    visits(parts, 1, start, start == seq!['/'] + parts[0])
}

/// The paths that a workspace name may stand for, in the order they are tried.
pub open spec fn candidates(name: Seq<char>) -> Seq<Seq<char>> {
    tries(name).map_values(|t: TryView| t.path)
}

/// The best existing path, once it is known whether `next` exists too: it takes
/// the place of one that does not beat it.
pub open spec fn better(best: Option<TryView>, next: TryView, is_there: bool) -> Option<TryView> {
    if is_there && (best matches Some(b) ==> !b.beats(next)) {
        Some(next)
    } else {
        best
    }
}

/// The best existing path, once all of `list` were tried in turn.
pub open spec fn best_of(
    best: Option<TryView>,
    list: Seq<TryView>,
    is_there: spec_fn(Seq<char>) -> bool,
) -> Option<TryView>
    decreases list.len(),
{
    if list.len() == 0 {
        best
    } else {
        better(best_of(best, list.drop_last(), is_there), list.last(), is_there(list.last().path))
    }
}

/// The path of a try.
pub open spec fn path_of(best: Option<TryView>) -> Option<Seq<char>> {
    match best {
        Some(t) => Some(t.path),
        None => None,
    }
}

/// The path that a workspace name is decoded to, where `is_there` tells which
/// paths exist.
pub open spec fn decoded(name: Seq<char>, is_there: spec_fn(Seq<char>) -> bool) -> Option<
    Seq<char>,
> {
    path_of(best_of(None, tries(name), is_there))
}

/// The paths tried from a stack of places, the top of the stack first.
pub open spec fn stack_visits(parts: Seq<Seq<char>>, stack: Seq<Try>) -> Seq<TryView>
    decreases stack.len(),
{
    if stack.len() == 0 {
        Seq::empty()
    } else {
        visits(parts, stack.last()@.used, stack.last()@.path, stack.last()@.whole) + stack_visits(
            parts,
            stack.drop_last(),
        )
    }
}

/// The content of the best try so far.
pub open spec fn best_view(best: Option<Try>) -> Option<TryView> {
    match best {
        Some(t) => Some(t@),
        None => None,
    }
}

/// A search for the path that a workspace name stands for.
pub struct WorkspaceSearch {
    parts: Vec<String>,
    pending: Vec<Try>,
    best: Option<Try>,
}

/// The state of a [`WorkspaceSearch`]: the paths still to be tried, and the
/// best tried path that exists.
pub struct WorkspaceSearchView {
    pub pending: Seq<TryView>,
    pub best: Option<TryView>,
}

impl View for WorkspaceSearch {
    type V = WorkspaceSearchView;

    closed spec fn view(&self) -> WorkspaceSearchView {
        WorkspaceSearchView {
            pending: stack_visits(text::views(self.parts@), self.pending@),
            best: best_view(self.best),
        }
    }
}

impl WorkspaceSearchView {
    /// The first path still to be tried.
    pub open spec fn next(self) -> Option<Seq<char>> {
        if self.pending.len() > 0 {
            Some(self.pending[0].path)
        } else {
            None
        }
    }

    /// The state once it is known whether the first pending path exists.
    pub open spec fn answered(self, is_there: bool) -> WorkspaceSearchView {
        WorkspaceSearchView {
            pending: self.pending.skip(1),
            best: better(self.best, self.pending[0], is_there),
        }
    }

    /// What the search ends with, where `is_there` tells which paths exist.
    pub open spec fn outcome(self, is_there: spec_fn(Seq<char>) -> bool) -> Option<Seq<char>>
        decreases self.pending.len(),
    {
        if self.pending.len() == 0 {
            path_of(self.best)
        } else {
            self.answered(is_there(self.pending[0].path)).outcome(is_there)
        }
    }
}

/// A path is tried before those that go on from it.
proof fn visits_start_at_current(
    parts: Seq<Seq<char>>,
    idx: int,
    current: Seq<char>,
    whole: bool,
)
    ensures
        visits(parts, idx, current, whole).len() > 0,
        visits(parts, idx, current, whole)[0] == (TryView { used: idx, whole, path: current }),
{
}

/// What is tried behind a path, put together from what is tried below it, beside
/// it and behind a dot.
proof fn visits_behind_current(
    parts: Seq<Seq<char>>,
    idx: int,
    current: Seq<char>,
    whole: bool,
    below: Seq<TryView>,
    beside: Seq<TryView>,
    hidden: Seq<TryView>,
    rest: Seq<TryView>,
)
    requires
        idx < parts.len(),
        below == visits(
            parts,
            idx + 1,
            slash_path::join(current, parts[idx]),
            whole && goes_on(slash_path::join(current, parts[idx]), current, '/', parts[idx]),
        ),
        beside == match dotted(current, parts[idx]) {
            Some(path) => visits(
                parts,
                idx + 1,
                path,
                whole && goes_on(path, current, '.', parts[idx]),
            ),
            None => Seq::empty(),
        },
        hidden == if may_hide(parts, idx, current) {
            visits(parts, idx + 1, current + seq!['.'] + parts[idx], whole)
        } else {
            Seq::empty()
        },
    ensures
        visits(parts, idx, current, whole).skip(1) + rest == below + (beside + (hidden + rest)),
{
    let own = TryView { used: idx, whole, path: current };
    assert(visits(parts, idx, current, whole) == seq![own] + below + beside + hidden);
    assert((seq![own] + below + beside + hidden).skip(1) + rest =~= below + (beside + (hidden
        + rest)));
}

/// `current`, then `mark`, then `part`.
fn put_behind(current: &str, mark: &str, part: &str) -> (path: String)
    ensures
        path@ == current@ + mark@ + part@,
{
    let mut path = current.to_owned();
    path.append(mark);
    path.append(part);
    path
}

/// Whether one of the first `idx` parts is empty.
fn any_empty(parts: &Vec<String>, idx: usize) -> (r: bool)
    requires
        idx <= parts@.len(),
    ensures
        r == has_empty(text::views(parts@), idx as int),
{
    let ghost names = text::views(parts@);
    let mut i: usize = 0;
    while i < idx
        invariant
            i <= idx <= parts@.len(),
            names == text::views(parts@),
            forall|j: int| 0 <= j < i ==> (#[trigger] names[j]).len() > 0,
        decreases idx - i,
    {
        assert(names[i as int] == parts@[i as int]@);
        if parts[i].as_str().is_empty() {
            return true;
        }
        i = i + 1;
    }
    false
}

/// The try that goes on from `current` by a dot in its last name; `with_dot` is
/// `current` with the dot and `part` behind it.
fn dotted_try(current: &str, part: &str, used: usize, whole: bool, with_dot: &str) -> (next: Option<
    Try,
>)
    requires
        goes_on(with_dot@, current@, '.', part@),
    ensures
        best_view(next) == match dotted(current@, part@) {
            Some(path) => Some(
                TryView {
                    used: used as int,
                    whole: whole && goes_on(path, current@, '.', part@),
                    path,
                },
            ),
            None => None,
        },
{
    proof {
        reveal_strlit(".");
        assert("."@ =~= seq!['.']);
    }
    match (slash_path::path_parent(current), slash_path::path_file_name(current)) {
        (Some(parent), Some(last)) => {
            let path = slash_path::path_join(&parent, &put_behind(&last, ".", part));
            Some(Try { used, whole: whole && text::same(&path, with_dot), path })
        },
        _ => None,
    }
}

/// Puts a place on top of a stack.
fn push_try(parts: &Vec<String>, pending: &mut Vec<Try>, t: Try)
    ensures
        stack_visits(text::views(parts@), final(pending)@) == visits(
            text::views(parts@),
            t@.used,
            t@.path,
            t@.whole,
        ) + stack_visits(text::views(parts@), old(pending)@),
{
    let ghost before = pending@;
    pending.push(t);
    assert(pending@.drop_last() =~= before);
}

/// One step of the search: the place `current`, before `parts[idx]`, leaves the
/// stack `pending`, and the places that go on from it come onto it. `whole` tells
/// whether `current` has kept a character for each `-`, and `is_there` whether it
/// exists.
pub fn dfs_decode(
    parts: &Vec<String>,
    idx: usize,
    current: &str,
    whole: bool,
    is_there: bool,
    best: &mut Option<Try>,
    pending: &mut Vec<Try>,
)
    ensures
        best_view(*final(best)) == better(
            best_view(*old(best)),
            TryView { used: idx as int, whole, path: current@ },
            is_there,
        ),
        stack_visits(text::views(parts@), final(pending)@) == visits(
            text::views(parts@),
            idx as int,
            current@,
            whole,
        ).skip(1) + stack_visits(text::views(parts@), old(pending)@),
{
    let wins = match best {
        Some(b) => !(b.used > idx || (b.used == idx && b.whole && !whole)),
        None => true,
    };
    if is_there && wins {
        *best = Some(Try { used: idx, whole, path: current.to_owned() });
    }
    let ghost names = text::views(parts@);
    let ghost rest = stack_visits(names, pending@);
    if idx >= parts.len() {
        assert(visits(names, idx as int, current@, whole).skip(1) + rest =~= rest);
        return;
    }
    let part = &parts[idx];
    proof {
        reveal_strlit("/");
        reveal_strlit(".");
        assert("/"@ =~= seq!['/']);
        assert("."@ =~= seq!['.']);
        assert(part@ == names[idx as int]);
    }
    let with_dot = put_behind(current, ".", part);
    let next = dotted_try(current, part, idx + 1, whole, &with_dot);
    let hides = any_empty(parts, idx) && match &next {
        Some(t) => !text::same(&t.path, &with_dot),
        None => true,
    };
    let with_slash = slash_path::path_join(current, part);
    let kept = whole && text::same(&with_slash, &put_behind(current, "/", part));
    let ghost below = visits(names, idx + 1, with_slash@, kept);
    let ghost beside = match best_view(next) {
        Some(t) => visits(names, idx + 1, t.path, t.whole),
        None => Seq::empty(),
    };
    let ghost hidden = if hides {
        visits(names, idx + 1, with_dot@, whole)
    } else {
        Seq::empty()
    };
    proof {
        visits_behind_current(names, idx as int, current@, whole, below, beside, hidden, rest);
        assert(Seq::<TryView>::empty() + rest =~= rest);
        assert(Seq::<TryView>::empty() + (hidden + rest) =~= hidden + rest);
    }
    if hides {
        push_try(parts, pending, Try { used: idx + 1, whole, path: with_dot });
    }
    assert(stack_visits(names, pending@) == hidden + rest);
    if let Some(t) = next {
        push_try(parts, pending, t);
    }
    assert(stack_visits(names, pending@) == beside + (hidden + rest));
    push_try(parts, pending, Try { used: idx + 1, whole: kept, path: with_slash });
}

/// Starts the search for the path that a workspace name stands for.
pub fn decode_workspace_path(name: &str) -> (search: WorkspaceSearch)
    ensures
        search@ == (WorkspaceSearchView { pending: tries(name@), best: None }),
{
    let parts = text::split_at_each(name, '-');
    proof {
        text::split_is_not_empty(name@, '-');
        reveal_strlit("/");
        assert("/"@ =~= seq!['/']);
    }
    let ghost names = text::views(parts@);
    assert(names[0] == parts@[0]@);
    let start = slash_path::path_join("/", &parts[0]);
    let whole = text::same(&start, &put_behind("/", "", &parts[0]));
    proof {
        reveal_strlit("");
        assert("/"@ + ""@ + names[0] =~= seq!['/'] + names[0]);
    }
    let ghost first = start@;
    let mut pending: Vec<Try> = Vec::new();
    pending.push(Try { used: 1, whole, path: start });
    proof {
        assert(pending@.drop_last() =~= Seq::empty());
        assert(stack_visits(names, pending@.drop_last()) =~= Seq::empty());
        assert(tries(name@) == visits(names, 1, first, whole));
        assert(stack_visits(names, pending@) =~= tries(name@));
    }
    WorkspaceSearch { parts, pending, best: None }
}

impl WorkspaceSearch {
    /// The path whose existence the search asks for next; none once it is over.
    pub fn question(&self) -> (path: Option<String>)
        ensures
            text::opt_view(path) == self@.next(),
    {
        if self.pending.len() == 0 {
            return None;
        }
        let top = &self.pending[self.pending.len() - 1];
        proof {
            visits_start_at_current(
                text::views(self.parts@),
                top@.used,
                top@.path,
                top@.whole,
            );
        }
        Some(top.path.clone())
    }

    /// The search, once it is known whether the path it asked for exists.
    pub fn answer(self, is_there: bool) -> (next: WorkspaceSearch)
        requires
            self@.pending.len() > 0,
        ensures
            next@ == self@.answered(is_there),
    {
        let WorkspaceSearch { parts, pending, best } = self;
        let mut pending = pending;
        let mut best = best;
        let ghost stack = pending@;
        match pending.pop() {
            Some(Try { used, whole, path }) => {
                assert(stack.drop_last() =~= pending@);
                proof {
                    visits_start_at_current(text::views(parts@), used as int, path@, whole);
                }
                let ghost rest = stack_visits(text::views(parts@), pending@);
                dfs_decode(&parts, used, &path, whole, is_there, &mut best, &mut pending);
                proof {
                    let all = visits(text::views(parts@), used as int, path@, whole);
                    assert((all + rest).skip(1) =~= all.skip(1) + rest);
                }
            },
            None => {},
        }
        WorkspaceSearch { parts, pending, best }
    }

    /// The best path tried so far that exists.
    pub fn found(self) -> (path: Option<String>)
        ensures
            text::opt_view(path) == path_of(self@.best),
    {
        match self.best {
            Some(t) => Some(t.path),
            None => None,
        }
    }
}

} // verus!
