//! The working directory of a Cursor session, found among Cursor's projects.
//!
//! Each project under `.cursor/projects` in the home directory is named after
//! its workspace and keeps the transcripts of its sessions. What the disk holds
//! is asked of the caller, one question at a time.

use vstd::prelude::*;

use crate::text;
use crate::workspace;
use crate::workspace::WorkspaceSearch;
use crate::workspace::WorkspaceSearchView;
use crate::workspace_laws;

verus! {

/// A search for the working directory of a session.
pub struct CwdSearch {
    uuid: String,
    stage: CwdStage,
}

/// How far the search has come.
enum CwdStage {
    Projects,
    Transcripts(Vec<Option<String>>, usize),
    Workspace(WorkspaceSearch),
    Done(Option<String>),
}

/// The state of a [`CwdSearch`].
pub enum CwdSearchView {
    /// The names of the projects are not known yet.
    Projects,
    /// The projects have these names, where they are text, and it is not known
    /// yet whether the one at the given place holds the transcript.
    Transcripts(Seq<Option<Seq<char>>>, int),
    /// The project was found, and its name is being decoded.
    Workspace(WorkspaceSearchView),
    /// The search is over.
    Done(Option<Seq<char>>),
}

/// What the search asks for.
pub enum CwdQuestion {
    /// The names of the entries of this directory, below the home directory.
    Projects(String),
    /// Whether this directory, below the entry at the given place, holds this
    /// file.
    Transcript(usize, String, String),
    /// Whether this path exists.
    Path(String),
    /// Nothing: this is the working directory.
    Done(Option<String>),
}

/// The content of a [`CwdQuestion`].
pub enum CwdQuestionView {
    Projects(Seq<char>),
    Transcript(int, Seq<char>, Seq<char>),
    Path(Seq<char>),
    Done(Option<Seq<char>>),
}

impl View for CwdQuestion {
    type V = CwdQuestionView;

    open spec fn view(&self) -> CwdQuestionView {
        match *self {
            CwdQuestion::Projects(dir) => CwdQuestionView::Projects(dir@),
            CwdQuestion::Transcript(at, dir, file) => CwdQuestionView::Transcript(
                at as int,
                dir@,
                file@,
            ),
            CwdQuestion::Path(path) => CwdQuestionView::Path(path@),
            CwdQuestion::Done(cwd) => CwdQuestionView::Done(text::opt_view(cwd)),
        }
    }
}

/// The names of a list of projects.
pub open spec fn name_views(names: Seq<Option<String>>) -> Seq<Option<Seq<char>>> {
    names.map_values(|n: Option<String>| text::opt_view(n))
}

/// The names of the projects, where they could be listed.
pub open spec fn opt_name_views(names: Option<Vec<Option<String>>>) -> Option<
    Seq<Option<Seq<char>>>,
> {
    match names {
        Some(names) => Some(name_views(names@)),
        None => None,
    }
}

impl View for CwdSearch {
    type V = CwdSearchView;

    closed spec fn view(&self) -> CwdSearchView {
        match self.stage {
            CwdStage::Projects => CwdSearchView::Projects,
            CwdStage::Transcripts(names, at) => CwdSearchView::Transcripts(
                name_views(names@),
                at as int,
            ),
            CwdStage::Workspace(search) => CwdSearchView::Workspace(search@),
            CwdStage::Done(cwd) => CwdSearchView::Done(text::opt_view(cwd)),
        }
    }
}

/// The file in which a project keeps the transcript of a session.
pub open spec fn transcript_file(uuid: Seq<char>) -> Seq<char> {
    uuid + ".jsonl"@
}

impl CwdSearchView {
    /// There is something left to ask in every stage but the last.
    pub open spec fn is_valid(self) -> bool {
        match self {
            CwdSearchView::Projects => true,
            CwdSearchView::Transcripts(names, at) => 0 <= at < names.len(),
            CwdSearchView::Workspace(search) => search.pending.len() > 0,
            CwdSearchView::Done(_) => true,
        }
    }

    /// The search waits to hear whether something exists.
    pub open spec fn awaits_answer(self) -> bool {
        self is Transcripts || self is Workspace
    }

    /// What the search asks for, for the session `uuid`.
    pub open spec fn question(self, uuid: Seq<char>) -> CwdQuestionView {
        match self {
            CwdSearchView::Projects => CwdQuestionView::Projects(".cursor/projects"@),
            CwdSearchView::Transcripts(_, at) => CwdQuestionView::Transcript(
                at,
                "agent-transcripts"@,
                transcript_file(uuid),
            ),
            CwdSearchView::Workspace(search) => CwdQuestionView::Path(search.pending[0].path),
            CwdSearchView::Done(cwd) => CwdQuestionView::Done(cwd),
        }
    }

    /// The search once the projects are listed, or are known not to be there.
    pub open spec fn listed(names: Option<Seq<Option<Seq<char>>>>) -> CwdSearchView {
        match names {
            Some(names) => if names.len() > 0 {
                CwdSearchView::Transcripts(names, 0)
            } else {
                CwdSearchView::Done(None)
            },
            None => CwdSearchView::Done(None),
        }
    }

    /// The search once it is known whether what it asked for exists.
    pub open spec fn answered(self, is_there: bool) -> CwdSearchView {
        match self {
            CwdSearchView::Transcripts(names, at) => if is_there {
                match names[at] {
                    Some(name) => CwdSearchView::Workspace(
                        WorkspaceSearchView {
                            pending: workspace::tries(name),
                            best: None,
                        },
                    ),
                    None => CwdSearchView::Done(None),
                }
            } else if at + 1 < names.len() {
                CwdSearchView::Transcripts(names, at + 1)
            } else {
                CwdSearchView::Done(None)
            },
            CwdSearchView::Workspace(search) => {
                let next = search.answered(is_there);
                if next.pending.len() > 0 {
                    CwdSearchView::Workspace(next)
                } else {
                    CwdSearchView::Done(workspace::path_of(next.best))
                }
            },
            _ => self,
        }
    }

    /// What the search ends with, where `holds` tells which projects hold the
    /// transcript and `is_there` tells which paths exist.
    pub open spec fn outcome(
        self,
        holds: spec_fn(int) -> bool,
        is_there: spec_fn(Seq<char>) -> bool,
    ) -> Option<Seq<char>> {
        match self {
            CwdSearchView::Projects => None,
            CwdSearchView::Transcripts(names, at) => cwd_from(names, at, holds, is_there),
            CwdSearchView::Workspace(search) => search.outcome(is_there),
            CwdSearchView::Done(cwd) => cwd,
        }
    }

    /// How far off the end of the search is: the stage, and within it the
    /// questions that are left.
    pub open spec fn distance(self) -> (int, int) {
        match self {
            CwdSearchView::Projects => (3, 0),
            CwdSearchView::Transcripts(names, at) => (2, names.len() - at),
            CwdSearchView::Workspace(search) => (1, search.pending.len() as int),
            CwdSearchView::Done(_) => (0, 0),
        }
    }
}

/// The workspace of the first project, from `at` on, that holds the transcript:
/// what its name is decoded to.
pub open spec fn cwd_from(
    names: Seq<Option<Seq<char>>>,
    at: int,
    holds: spec_fn(int) -> bool,
    is_there: spec_fn(Seq<char>) -> bool,
) -> Option<Seq<char>>
    decreases names.len() - at,
{
    if at >= names.len() {
        None
    } else if holds(at) {
        match names[at] {
            Some(name) => workspace::decoded(name, is_there),
            None => None,
        }
    } else {
        cwd_from(names, at + 1, holds, is_there)
    }
}

/// The working directory, where the projects have the given names, or could not
/// be listed.
pub open spec fn resolved_cwd(
    names: Option<Seq<Option<Seq<char>>>>,
    holds: spec_fn(int) -> bool,
    is_there: spec_fn(Seq<char>) -> bool,
) -> Option<Seq<char>> {
    match names {
        Some(names) => cwd_from(names, 0, holds, is_there),
        None => None,
    }
}

/// Starts the search for the working directory of the session `uuid`.
pub fn resolve_cursor_cwd(uuid: &str) -> (search: CwdSearch)
    ensures
        search@ == CwdSearchView::Projects,
        search.session() == uuid@,
{
    CwdSearch { uuid: uuid.to_owned(), stage: CwdStage::Projects }
}

impl CwdSearch {
    /// The session whose working directory is sought.
    pub closed spec fn session(self) -> Seq<char> {
        self.uuid@
    }

    /// What the search asks for next.
    pub fn question(&self) -> (q: CwdQuestion)
        requires
            self@.is_valid(),
        ensures
            q@ == self@.question(self.session()),
    {
        match &self.stage {
            CwdStage::Projects => CwdQuestion::Projects(".cursor/projects".to_owned()),
            CwdStage::Transcripts(_, at) => {
                let mut file = self.uuid.clone();
                file.append(".jsonl");
                CwdQuestion::Transcript(*at, "agent-transcripts".to_owned(), file)
            },
            CwdStage::Workspace(search) => match search.question() {
                Some(path) => CwdQuestion::Path(path),
                None => CwdQuestion::Done(None),
            },
            CwdStage::Done(cwd) => CwdQuestion::Done(
                match cwd {
                    Some(cwd) => Some(cwd.clone()),
                    None => None,
                },
            ),
        }
    }

    /// The search, once the projects are listed: the name of each, where it is
    /// text; none where they could not be listed.
    pub fn projects(self, names: Option<Vec<Option<String>>>) -> (next: CwdSearch)
        requires
            self@ is Projects,
        ensures
            next@ == CwdSearchView::listed(opt_name_views(names)),
            next@.is_valid(),
            next.session() == self.session(),
    {
        let stage = match names {
            Some(names) => if names.len() > 0 {
                CwdStage::Transcripts(names, 0)
            } else {
                CwdStage::Done(None)
            },
            None => CwdStage::Done(None),
        };
        CwdSearch { uuid: self.uuid, stage }
    }

    /// The search, once it is known whether what it asked for exists.
    pub fn answer(self, is_there: bool) -> (next: CwdSearch)
        requires
            self@.is_valid(),
            self@.awaits_answer(),
        ensures
            next@ == self@.answered(is_there),
            next@.is_valid(),
            next.session() == self.session(),
    {
        let CwdSearch { uuid, stage } = self;
        let stage = match stage {
            CwdStage::Transcripts(names, at) => if is_there {
                match &names[at] {
                    Some(name) => {
                        proof {
                            tries_are_not_empty(name@);
                        }
                        CwdStage::Workspace(workspace::decode_workspace_path(name))
                    },
                    None => CwdStage::Done(None),
                }
            } else if at < names.len() - 1 {
                CwdStage::Transcripts(names, at + 1)
            } else {
                CwdStage::Done(None)
            },
            CwdStage::Workspace(search) => {
                let next = search.answer(is_there);
                if next.question().is_some() {
                    CwdStage::Workspace(next)
                } else {
                    CwdStage::Done(next.found())
                }
            },
            other => other,
        };
        CwdSearch { uuid, stage }
    }
}

/// Every name has a path to be tried.
proof fn tries_are_not_empty(name: Seq<char>)
    ensures
        workspace::tries(name).len() > 0,
{
}

/// Once the projects are listed, a search that is answered truthfully is bound
/// to end with the working directory of the session.
pub proof fn listing_fixes_the_outcome(
    names: Option<Seq<Option<Seq<char>>>>,
    holds: spec_fn(int) -> bool,
    is_there: spec_fn(Seq<char>) -> bool,
)
    ensures
        CwdSearchView::listed(names).outcome(holds, is_there) == resolved_cwd(
            names,
            holds,
            is_there,
        ),
{
}

/// A truthful answer leaves what the search ends with as it is.
pub proof fn truthful_answers_keep_the_outcome(
    state: CwdSearchView,
    uuid: Seq<char>,
    holds: spec_fn(int) -> bool,
    is_there: spec_fn(Seq<char>) -> bool,
    answer: bool,
)
    requires
        state.is_valid(),
        state.awaits_answer(),
        answer == match state.question(uuid) {
            CwdQuestionView::Transcript(at, _, _) => holds(at),
            CwdQuestionView::Path(path) => is_there(path),
            _ => false,
        },
    ensures
        state.answered(answer).outcome(holds, is_there) == state.outcome(holds, is_there),
{
    match state {
        CwdSearchView::Transcripts(names, at) => {
            if answer && names[at] is Some {
                workspace_laws::search_decodes(names[at]->0, is_there);
            }
            if !answer && at + 1 >= names.len() {
                assert(cwd_from(names, at + 1, holds, is_there) is None);
            }
        },
        CwdSearchView::Workspace(search) => {
            let next = search.answered(answer);
            assert(search.outcome(is_there) == next.outcome(is_there));
        },
        _ => {},
    }
}

/// Each answer brings the search nearer to its end.
pub proof fn every_answer_comes_nearer(state: CwdSearchView, answer: bool)
    requires
        state.is_valid(),
        state.awaits_answer(),
    ensures
        state.answered(answer).is_valid(),
        ({
            let before = state.distance();
            let after = state.answered(answer).distance();
            0 <= after.0 && 0 <= after.1 && (after.0 < before.0 || (after.0 == before.0 && after.1
                < before.1))
        }),
{
    if let CwdSearchView::Transcripts(names, at) = state {
        if let Some(name) = names[at] {
            tries_are_not_empty(name);
        }
    }
}

/// The projects are gone through in order until one holds the transcript: the
/// working directory is what the name of the first that does is decoded to.
pub proof fn the_first_holder_is_decoded(
    names: Seq<Option<Seq<char>>>,
    holds: spec_fn(int) -> bool,
    is_there: spec_fn(Seq<char>) -> bool,
    k: int,
)
    requires
        0 <= k < names.len(),
        holds(k),
        forall|j: int| 0 <= j < k ==> !#[trigger] holds(j),
    ensures
        names[k] matches Some(name) ==> resolved_cwd(Some(names), holds, is_there)
            == workspace::decoded(name, is_there),
        names[k] is None ==> resolved_cwd(Some(names), holds, is_there) is None,
        CwdSearchView::listed(Some(names)).outcome(holds, is_there) == resolved_cwd(
            Some(names),
            holds,
            is_there,
        ),
{
    first_holder_from(names, 0, holds, is_there, k);
}

proof fn first_holder_from(
    names: Seq<Option<Seq<char>>>,
    at: int,
    holds: spec_fn(int) -> bool,
    is_there: spec_fn(Seq<char>) -> bool,
    k: int,
)
    requires
        0 <= at <= k < names.len(),
        holds(k),
        forall|j: int| at <= j < k ==> !#[trigger] holds(j),
    ensures
        cwd_from(names, at, holds, is_there) == match names[k] {
            Some(name) => workspace::decoded(name, is_there),
            None => None,
        },
    decreases k - at,
{
    if at < k {
        assert(!holds(at));
        first_holder_from(names, at + 1, holds, is_there, k);
    }
}

/// Nothing is found where no project holds the transcript, or where the projects
/// cannot be listed.
pub proof fn without_a_holder_nothing_is_found(
    names: Option<Seq<Option<Seq<char>>>>,
    holds: spec_fn(int) -> bool,
    is_there: spec_fn(Seq<char>) -> bool,
)
    requires
        names matches Some(names) ==> forall|j: int|
            0 <= j < names.len() ==> !#[trigger] holds(j),
    ensures
        resolved_cwd(names, holds, is_there) is None,
        CwdSearchView::listed(names).outcome(holds, is_there) is None,
{
    if let Some(names) = names {
        no_holder_from(names, 0, holds, is_there);
    }
}

proof fn no_holder_from(
    names: Seq<Option<Seq<char>>>,
    at: int,
    holds: spec_fn(int) -> bool,
    is_there: spec_fn(Seq<char>) -> bool,
)
    requires
        0 <= at,
        forall|j: int| at <= j < names.len() ==> !#[trigger] holds(j),
    ensures
        cwd_from(names, at, holds, is_there) is None,
    decreases names.len() - at,
{
    if at < names.len() {
        assert(!holds(at));
        no_holder_from(names, at + 1, holds, is_there);
    }
}

/// A search that is over has ended with what it found.
pub proof fn what_was_found_is_the_outcome(
    cwd: Option<Seq<char>>,
    uuid: Seq<char>,
    holds: spec_fn(int) -> bool,
    is_there: spec_fn(Seq<char>) -> bool,
)
    ensures
        CwdSearchView::Done(cwd).outcome(holds, is_there) == cwd,
        CwdSearchView::Done(cwd).question(uuid) == CwdQuestionView::Done(cwd),
{
}

/// The search asks for the projects, then of each in turn for the transcript of
/// the session, then for the paths that the project's name may stand for.
pub proof fn the_questions_are_about_the_session(state: CwdSearchView, uuid: Seq<char>)
    ensures
        state is Projects ==> state.question(uuid) == CwdQuestionView::Projects(
            ".cursor/projects"@,
        ),
        state matches CwdSearchView::Transcripts(names, at) ==> state.question(uuid)
            == CwdQuestionView::Transcript(at, "agent-transcripts"@, uuid + ".jsonl"@),
        state matches CwdSearchView::Workspace(search) ==> state.question(uuid)
            == CwdQuestionView::Path(search.pending[0].path),
{
}

/// A project without the transcript leads to the next one, or ends the search
/// with nothing behind the last; one with it leads to the decoding of its name.
pub proof fn projects_are_gone_through_in_order(names: Seq<Option<Seq<char>>>, at: int)
    requires
        0 <= at < names.len(),
    ensures
        ({
            let state = CwdSearchView::Transcripts(names, at);
            &&& at < names.len() - 1 ==> state.answered(false) == CwdSearchView::Transcripts(
                names,
                at + 1,
            )
            &&& at == names.len() - 1 ==> state.answered(false) == CwdSearchView::Done(None)
            &&& names[at] matches Some(name) ==> state.answered(true) == CwdSearchView::Workspace(
                WorkspaceSearchView { pending: workspace::tries(name), best: None },
            )
            &&& names[at] is None ==> state.answered(true) == CwdSearchView::Done(None)
        }),
{
}

/// Names and questions hold what they are made of, names one for one.
pub proof fn names_and_questions_are_kept(
    names: Seq<Option<String>>,
    list: Vec<Option<String>>,
    at: usize,
    a: String,
    b: String,
    cwd: Option<String>,
)
    ensures
        name_views(names).len() == names.len(),
        forall|i: int|
            0 <= i < names.len() ==> #[trigger] name_views(names)[i] == text::opt_view(names[i]),
        opt_name_views(Some(list)) == Some(name_views(list@)),
        opt_name_views(None) is None,
        CwdQuestion::Projects(a)@ == CwdQuestionView::Projects(a@),
        CwdQuestion::Transcript(at, a, b)@ == CwdQuestionView::Transcript(at as int, a@, b@),
        CwdQuestion::Path(a)@ == CwdQuestionView::Path(a@),
        CwdQuestion::Done(cwd)@ == CwdQuestionView::Done(text::opt_view(cwd)),
{
}

} // verus!
