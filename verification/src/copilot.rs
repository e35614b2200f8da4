//! Sessions of the Copilot CLI: a file of events, one JSON object to a line.

use vstd::prelude::*;

use crate::host_path;
use crate::json::Json;
use crate::json::JsonView;
use crate::lists;
use crate::session;
use crate::session::Draft;
use crate::session::DraftView;
use crate::session::Message;
use crate::session::MessageView;
use crate::session::Role;
use crate::session::Session;
use crate::session::SessionSource;
use crate::session::SessionView;
use crate::slash_path;
use crate::text;
use crate::timestamp;
use crate::timestamp::Timestamp;

verus! {

/// The parser for sessions of the Copilot CLI.
pub struct CopilotParser;

/// One event.
pub struct CopilotLine {
    pub entry_type: String,
    pub data: Json,
    pub timestamp: Option<String>,
}

/// The content of a [`CopilotLine`].
pub struct CopilotLineView {
    pub entry_type: Seq<char>,
    pub data: JsonView,
    pub timestamp: Option<Seq<char>>,
}

impl View for CopilotLine {
    type V = CopilotLineView;

    open spec fn view(&self) -> CopilotLineView {
        CopilotLineView {
            entry_type: self.entry_type@,
            data: self.data@,
            timestamp: text::opt_view(self.timestamp),
        }
    }
}

/// The content of a line that could be read as an event.
pub open spec fn opt_line_view(line: Option<CopilotLine>) -> Option<CopilotLineView> {
    match line {
        Some(line) => Some(line@),
        None => None,
    }
}

/// The events in a list of lines; a line that could not be read is passed over.
pub open spec fn line_views(lines: Seq<Option<CopilotLine>>) -> Seq<CopilotLineView> {
    lines.filter_map(|l: Option<CopilotLine>| opt_line_view(l))
}

/// What a file of events tells of its session.
pub struct EventLog {
    pub session_id: Option<String>,
    pub cwd: Option<String>,
    pub git_branch: Option<String>,
    pub drafts: Vec<Draft>,
}

/// The content of an [`EventLog`].
pub struct EventLogView {
    pub session_id: Option<Seq<char>>,
    pub cwd: Option<Seq<char>>,
    pub git_branch: Option<Seq<char>>,
    pub drafts: Seq<DraftView>,
}

impl View for EventLog {
    type V = EventLogView;

    open spec fn view(&self) -> EventLogView {
        EventLogView {
            session_id: text::opt_view(self.session_id),
            cwd: text::opt_view(self.cwd),
            git_branch: text::opt_view(self.git_branch),
            drafts: session::draft_views(self.drafts@),
        }
    }
}

impl CopilotLineView {
    /// The event opens the session.
    pub open spec fn is_start(self) -> bool {
        self.entry_type == "session.start"@
    }

    /// Who speaks in the event, where it is a message.
    pub open spec fn role(self) -> Option<Role> {
        if self.entry_type == "user.message"@ {
            Some(Role::User)
        } else if self.entry_type == "assistant.message"@ {
            Some(Role::Assistant)
        } else {
            None
        }
    }

    /// The session identifier that the event gives.
    pub open spec fn session_id(self) -> Option<Seq<char>> {
        if self.is_start() {
            self.data.at("sessionId"@).as_text()
        } else {
            None
        }
    }

    /// The working directory that the event gives.
    pub open spec fn cwd(self) -> Option<Seq<char>> {
        if self.is_start() {
            self.data.at("context"@).at("cwd"@).as_text()
        } else {
            None
        }
    }

    /// The branch that the event gives.
    pub open spec fn git_branch(self) -> Option<Seq<char>> {
        if self.is_start() {
            self.data.at("context"@).at("branch"@).as_text()
        } else {
            None
        }
    }

    /// The time of the event.
    pub open spec fn time(self) -> Option<Timestamp> {
        match self.timestamp {
            Some(s) => timestamp::instant_of_rfc3339(s),
            None => None,
        }
    }

    /// The message in the event, said at `time`; an empty one does not count.
    pub open spec fn draft_at(self, time: Option<Timestamp>) -> Option<DraftView> {
        match (self.role(), self.data.at("content"@).as_text()) {
            (Some(role), Some(content)) => if content.len() > 0 {
                Some(DraftView { role, content, timestamp: time })
            } else {
                None
            },
            _ => None,
        }
    }

    /// The message in the event.
    pub open spec fn draft(self) -> Option<DraftView> {
        self.draft_at(self.time())
    }
}

impl EventLogView {
    /// Nothing told yet.
    pub open spec fn empty() -> EventLogView {
        EventLogView { session_id: None, cwd: None, git_branch: None, drafts: Seq::empty() }
    }

    /// What is told once `line`, which happened at `time`, is heard too: what
    /// was known before stays.
    pub open spec fn with(self, line: CopilotLineView, time: Option<Timestamp>) -> EventLogView {
        EventLogView {
            session_id: if self.session_id is Some {
                self.session_id
            } else {
                line.session_id()
            },
            cwd: if self.cwd is Some {
                self.cwd
            } else {
                line.cwd()
            },
            git_branch: if self.git_branch is Some {
                self.git_branch
            } else {
                line.git_branch()
            },
            drafts: match line.draft_at(time) {
                Some(draft) => self.drafts.push(draft),
                None => self.drafts,
            },
        }
    }
}

/// What a list of events tells: of each fact about the session the first word,
/// and of the messages all.
pub open spec fn event_log(lines: Seq<CopilotLineView>) -> EventLogView {
    EventLogView {
        session_id: lists::first_found(lines, |l: CopilotLineView| l.session_id()),
        cwd: lists::first_found(lines, |l: CopilotLineView| l.cwd()),
        git_branch: lists::first_found(lines, |l: CopilotLineView| l.git_branch()),
        drafts: lines.filter_map(|l: CopilotLineView| l.draft()),
    }
}

/// The session at `path`, in a directory named `dir`, with the given log; its
/// messages are `messages`, and `now` is the time of a session without any.
pub open spec fn session_of(
    path: Seq<char>,
    dir: Option<Seq<char>>,
    log: EventLogView,
    messages: Seq<MessageView>,
    now: Timestamp,
) -> SessionView {
    SessionView {
        id: lists::or_else(log.session_id, lists::or_else(dir, "unknown"@)),
        source: SessionSource::CopilotCli,
        file_path: path,
        cwd: lists::or_else(log.cwd, "."@),
        git_branch: log.git_branch,
        timestamp: lists::or_else(session::latest(messages), now),
        messages: session::joined(messages),
    }
}

/// `s` is the session that the events `lines` at `path`, in a directory named
/// `dir`, tell of, with some time of the clock wherever the events give none.
pub open spec fn tells_of_in(
    path: Seq<char>,
    dir: Option<Seq<char>>,
    lines: Seq<CopilotLineView>,
    s: SessionView,
) -> bool {
    exists|messages: Seq<MessageView>, now: Timestamp|
        now.may_be_now() && session::are_stamped(event_log(lines).drafts, messages) && s
            == #[trigger] session_of(path, dir, event_log(lines), messages, now)
}

/// `s` is the session that the events `lines` at `path` tell of, with some
/// time of the clock wherever the events give none.
pub open spec fn tells_of(path: Seq<char>, lines: Seq<CopilotLineView>, s: SessionView) -> bool {
    exists|dir: Option<Seq<char>>|
        host_path::may_hold(dir, path) && #[trigger] tells_of_in(path, dir, lines, s)
}

/// `path` lies where the Copilot CLI keeps its sessions.
pub open spec fn in_session_state(path: Seq<char>) -> bool {
    text::occurs(".copilot/session-state"@, path) || text::occurs(".copilot\\session-state"@, path)
}

impl EventLog {
    /// A log of nothing.
    pub fn new() -> (log: EventLog)
        ensures
            log@ == EventLogView::empty(),
    {
        let log = EventLog { session_id: None, cwd: None, git_branch: None, drafts: Vec::new() };
        assert(session::draft_views(log.drafts@) =~= Seq::empty());
        log
    }

    /// Hears one more event, which happened at `time`.
    pub fn hear(&mut self, line: &CopilotLine, time: Option<Timestamp>)
        ensures
            final(self)@ == old(self)@.with(line@, time),
    {
        proof {
            reveal_strlit("session.start");
            reveal_strlit("user.message");
            reveal_strlit("assistant.message");
            assert("session.start"@.len() == 13);
            assert("user.message"@.len() == 12);
            assert("assistant.message"@.len() == 17);
        }
        let ghost before = self.drafts@;
        if text::same(&line.entry_type, "session.start") {
            if self.session_id.is_none() {
                self.session_id = line.data.text_at("sessionId");
            }
            if self.cwd.is_none() {
                self.cwd = line.data.text_at2("context", "cwd");
            }
            if self.git_branch.is_none() {
                self.git_branch = line.data.text_at2("context", "branch");
            }
        } else if text::same(&line.entry_type, "user.message") || text::same(
            &line.entry_type,
            "assistant.message",
        ) {
            let role = if text::same(&line.entry_type, "user.message") {
                Role::User
            } else {
                Role::Assistant
            };
            if let Some(content) = line.data.text_at("content") {
                if !content.as_str().is_empty() {
                    let draft = Draft { role, content, timestamp: time };
                    let ghost view = draft@;
                    self.drafts.push(draft);
                    assert(session::draft_views(self.drafts@) =~= session::draft_views(
                        before,
                    ).push(view));
                }
            }
        }
    }
}

impl CopilotParser {
    /// Whether the file at `path`, whose name is `name`, is a session's events.
    pub fn is_events_file(path: &str, name: Option<&str>) -> (r: bool)
        ensures
            r == (in_session_state(path@) && text::opt_str_view(name) == Some("events.jsonl"@)),
    {
        (text::contains(path, ".copilot/session-state") || text::contains(
            path,
            ".copilot\\session-state",
        )) && match name {
            Some(name) => text::same(name, "events.jsonl"),
            None => false,
        }
    }

    /// Whether the file at `path` is a session's events.
    pub fn can_parse(path: &str) -> (r: bool)
        ensures
            r ==> in_session_state(path@) && text::occurs("events.jsonl"@, path@),
            host_path::has_one_name(path@) ==> r == (in_session_state(path@)
                && slash_path::file_name(path@) == Some("events.jsonl"@)),
            host_path::is_settled(path@) ==> r == (in_session_state(path@)
                && slash_path::file_name(path@) == Some("events.jsonl"@)) || r == (
            in_session_state(path@) && slash_path::last_name(
                host_path::windows_components(path@),
            ) == Some("events.jsonl"@)),
    {
        match host_path::file_name(path) {
            Some(name) => CopilotParser::is_events_file(path, Some(&name)),
            None => CopilotParser::is_events_file(path, None),
        }
    }

    /// What a list of lines tells.
    pub fn read_events(lines: &Vec<Option<CopilotLine>>) -> (log: EventLog)
        ensures
            log@ == event_log(line_views(lines@)),
    {
        let ghost f = |l: Option<CopilotLine>| opt_line_view(l);
        let mut log = EventLog::new();
        let mut i: usize = 0;
        proof {
            reveal(Seq::filter_map);
            assert(lines@.take(0).filter_map(f) =~= Seq::empty());
        }
        while i < lines.len()
            invariant
                i <= lines@.len(),
                f == |l: Option<CopilotLine>| opt_line_view(l),
                log@ == event_log(lines@.take(i as int).filter_map(f)),
            decreases lines@.len() - i,
        {
            let ghost done = lines@.take(i as int).filter_map(f);
            proof {
                assert(lines@.take(i + 1) =~= lines@.take(i as int).push(lines@[i as int]));
                lists::filter_map_of_push(lines@.take(i as int), lines@[i as int], f);
            }
            if let Some(line) = &lines[i] {
                let time = match &line.timestamp {
                    Some(s) => Timestamp::from_rfc3339(s),
                    None => None,
                };
                log.hear(line, time);
                proof {
                    assert(done.push(line@).drop_last() =~= done);
                    lists::filter_map_of_push(done, line@, |l: CopilotLineView| l.draft());
                    assert(event_log(done.push(line@)) == event_log(done).with(line@, time));
                }
            }
            i = i + 1;
        }
        assert(lines@.take(i as int) =~= lines@);
        log
    }

    /// Puts a session together from its log and its messages.
    pub fn assemble(
        path: &str,
        dir: Option<String>,
        log: EventLog,
        messages: Vec<Message>,
        now: Timestamp,
    ) -> (s: Session)
        ensures
            s@ == session_of(
                path@,
                text::opt_view(dir),
                log@,
                session::message_views(messages@),
                now,
            ),
    {
        let timestamp = match session::latest_timestamp(&messages) {
            Some(t) => t,
            None => now,
        };
        Session {
            id: match log.session_id {
                Some(id) => id,
                None => match dir {
                    Some(name) => name,
                    None => "unknown".to_owned(),
                },
            },
            source: SessionSource::CopilotCli,
            file_path: path.to_owned(),
            cwd: match log.cwd {
                Some(cwd) => cwd,
                None => ".".to_owned(),
            },
            git_branch: log.git_branch,
            timestamp,
            messages: session::join_consecutive_messages(messages),
        }
    }

    /// The session that the lines of the file at `path`, in a directory named
    /// `dir`, tell of.
    pub fn parse_lines(path: &str, dir: Option<String>, lines: &Vec<Option<CopilotLine>>) -> (s:
        Session)
        ensures
            tells_of_in(path@, text::opt_view(dir), line_views(lines@), s@),
    {
        let EventLog { session_id, cwd, git_branch, drafts } = CopilotParser::read_events(lines);
        let messages = session::stamp_all(drafts);
        let facts = EventLog { session_id, cwd, git_branch, drafts: Vec::new() };
        let now = Timestamp::now();
        let ghost views = session::message_views(messages@);
        let ghost dir_view = text::opt_view(dir);
        let s = CopilotParser::assemble(path, dir, facts, messages, now);
        assert(s@ == session_of(path@, dir_view, event_log(line_views(lines@)), views, now));
        s
    }

    /// The session that the lines of the file at `path` tell of.
    pub fn parse_file(path: &str, lines: &Vec<Option<CopilotLine>>) -> (s: Session)
        ensures
            tells_of(path@, line_views(lines@), s@),
    {
        CopilotParser::parse_lines(path, host_path::dir_name(path), lines)
    }
}

/// An event that is neither a start nor a message changes nothing.
pub proof fn other_events_change_nothing(
    before: Seq<CopilotLineView>,
    line: CopilotLineView,
    after: Seq<CopilotLineView>,
)
    requires
        !line.is_start(),
        line.role() is None,
    ensures
        event_log(before.push(line) + after) == event_log(before + after),
{
    later_events_only_add(before.push(line), after);
    later_events_only_add(before, after);
    assert(before.push(line).drop_last() =~= before);
    lists::filter_map_of_push(before, line, |l: CopilotLineView| l.draft());
}

/// What was told first stays: later events fill in only the facts that are
/// still missing, and their messages come behind those before.
pub proof fn later_events_only_add(before: Seq<CopilotLineView>, after: Seq<CopilotLineView>)
    ensures
        ({
            let all = event_log(before + after);
            let a = event_log(before);
            let b = event_log(after);
            &&& all.session_id == (if a.session_id is Some {
                a.session_id
            } else {
                b.session_id
            })
            &&& all.cwd == (if a.cwd is Some {
                a.cwd
            } else {
                b.cwd
            })
            &&& all.git_branch == (if a.git_branch is Some {
                a.git_branch
            } else {
                b.git_branch
            })
            &&& all.drafts == a.drafts + b.drafts
        }),
{
    lists::first_found_in_sum(before, after, |l: CopilotLineView| l.session_id());
    lists::first_found_in_sum(before, after, |l: CopilotLineView| l.cwd());
    lists::first_found_in_sum(before, after, |l: CopilotLineView| l.git_branch());
    lists::filter_map_of_sum(before, after, |l: CopilotLineView| l.draft());
}

/// What a session was put together from.
proof fn session_source(path: Seq<char>, lines: Seq<CopilotLineView>, s: SessionView) -> (source: (
    Option<Seq<char>>,
    Seq<MessageView>,
    Timestamp,
))
    requires
        tells_of(path, lines, s),
    ensures
        host_path::may_hold(source.0, path),
        session::are_stamped(event_log(lines).drafts, source.1),
        s == session_of(path, source.0, event_log(lines), source.1, source.2),
{
    let dir = choose|dir: Option<Seq<char>>|
        host_path::may_hold(dir, path) && #[trigger] tells_of_in(path, dir, lines, s);
    let (messages, now) = choose|messages: Seq<MessageView>, now: Timestamp|
        now.may_be_now() && session::are_stamped(event_log(lines).drafts, messages) && s
            == #[trigger] session_of(path, dir, event_log(lines), messages, now);
    (dir, messages, now)
}

/// The time of a session is that of its latest message, whatever the times of
/// its other events: no message has a later one, and where each message has a
/// time it is the time of one of them.
pub proof fn session_time_is_message_time(
    path: Seq<char>,
    lines: Seq<CopilotLineView>,
    s: SessionView,
)
    requires
        tells_of(path, lines, s),
        event_log(lines).drafts.len() > 0,
    ensures
        forall|i: int|
            0 <= i < event_log(lines).drafts.len() ==> ((
            #[trigger] event_log(lines).drafts[i]).timestamp matches Some(t) ==> !t.after(
                s.timestamp,
            )),
        (forall|i: int|
            0 <= i < event_log(lines).drafts.len() ==> (
            #[trigger] event_log(lines).drafts[i]).timestamp is Some) ==> exists|i: int|
            0 <= i < event_log(lines).drafts.len() && (
            #[trigger] event_log(lines).drafts[i]).timestamp == Some(s.timestamp),
{
    let (dir, messages, now) = session_source(path, lines, s);
    session::latest_of_stamped(event_log(lines).drafts, messages);
}

/// Neighbouring messages of a session have different roles.
pub proof fn session_roles_alternate(
    path: Seq<char>,
    lines: Seq<CopilotLineView>,
    s: SessionView,
)
    requires
        tells_of(path, lines, s),
    ensures
        session::roles_alternate(s.messages),
{
    let (dir, messages, now) = session_source(path, lines, s);
    session::joined_roles_alternate(messages);
}

/// Events that give the time of each message, of which there is one at least,
/// tell of one session only, where they give its identifier or lie at a path
/// whose directory has one name on every machine.
pub proof fn complete_events_fix_the_session(
    path: Seq<char>,
    lines: Seq<CopilotLineView>,
    s: SessionView,
    r: SessionView,
)
    requires
        tells_of(path, lines, s),
        tells_of(path, lines, r),
        event_log(lines).session_id is Some || host_path::has_one_holder(path),
        event_log(lines).drafts.len() > 0,
        forall|i: int|
            0 <= i < event_log(lines).drafts.len() ==> (
            #[trigger] event_log(lines).drafts[i]).timestamp is Some,
    ensures
        s == r,
{
    let log = event_log(lines);
    let (dir, messages, now) = session_source(path, lines, s);
    let (dir2, messages2, now2) = session_source(path, lines, r);
    session::timed_drafts_are_fixed(log.drafts, messages, messages2);
    session::latest_of_stamped(log.drafts, messages);
}

/// No file with the name of an events file ends like a chat's database.
pub proof fn no_path_is_events_and_database(path: Seq<char>)
    ensures
        !(slash_path::file_name(path) == Some("events.jsonl"@) && "store.db"@.is_suffix_of(path)),
{
    if "store.db"@.is_suffix_of(path) {
        reveal_strlit("events.jsonl");
        reveal_strlit("store.db");
        assert("store.db"@.last() == 'b');
        assert("events.jsonl"@.last() == 'l');
        assert(path.last() == 'b') by {
            assert("store.db"@.last() == path.subrange(
                path.len() - "store.db"@.len(),
                path.len() as int,
            ).last());
        }
        let pieces = text::split(path, '/');
        text::split_is_not_empty(path.drop_last(), '/');
        assert(pieces.last().last() == 'b');
        assert(seq!['.'].last() == '.');
        reveal(Seq::filter);
        assert(slash_path::components(path).last() == pieces.last());
    }
}

} // verus!
