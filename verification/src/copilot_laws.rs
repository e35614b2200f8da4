//! What holds of the reading of events.

use vstd::prelude::*;

use crate::copilot;
use crate::copilot::CopilotLine;
use crate::copilot::CopilotLineView;
use crate::copilot::EventLog;
use crate::copilot::EventLogView;
use crate::host_path;
use crate::json;
use crate::json::JsonView;
use crate::lists;
use crate::session;
use crate::session::DraftView;
use crate::session::MessageView;
use crate::session::Role;
use crate::session::SessionSource;
use crate::session::SessionView;
use crate::text;
use crate::timestamp;
use crate::timestamp::Timestamp;

verus! {

// ---------------------------------------------------------------------------
// One event

proof fn event_types_differ()
    ensures
        "session.start"@ != "user.message"@,
        "session.start"@ != "assistant.message"@,
        "user.message"@ != "assistant.message"@,
{
    reveal_strlit("session.start");
    reveal_strlit("user.message");
    reveal_strlit("assistant.message");
    assert("session.start"@.len() == 13);
    assert("user.message"@.len() == 12);
    assert("assistant.message"@.len() == 17);
}

proof fn log_of_one(line: CopilotLineView)
    ensures
        copilot::event_log(seq![line]) == copilot::event_log(Seq::empty()).with(line, line.time()),
        copilot::event_log(Seq::empty()) == (EventLogView {
            session_id: None,
            cwd: None,
            git_branch: None,
            drafts: Seq::empty(),
        }),
{
    assert(seq![line].drop_last() =~= Seq::<CopilotLineView>::empty());
    lists::filter_map_of_one(line, |l: CopilotLineView| l.draft());
    assert(copilot::event_log(Seq::empty()).drafts =~= Seq::<DraftView>::empty());
    if let Some(draft) = line.draft() {
        assert(seq![draft] =~= Seq::empty().push(draft));
    }
}

/// An event of a user or an assistant whose content is a text that is not empty
/// is one message: that text, character for character, said by the one the event
/// names, at the time the event gives.
pub proof fn message_events_are_messages(line: CopilotLineView, content: Seq<char>)
    requires
        line.entry_type == "user.message"@ || line.entry_type == "assistant.message"@,
        line.data.get("content"@) == Some(JsonView::Text(content)),
        content.len() > 0,
    ensures
        ({
            let log = copilot::event_log(seq![line]);
            &&& log.drafts.len() == 1
            &&& log.drafts[0].content == content
            &&& line.entry_type == "user.message"@ ==> log.drafts[0].role == Role::User
            &&& line.entry_type == "assistant.message"@ ==> log.drafts[0].role == Role::Assistant
            &&& line.timestamp matches Some(s) ==> log.drafts[0].timestamp
                == timestamp::instant_of_rfc3339(s)
            &&& line.timestamp is None ==> log.drafts[0].timestamp is None
            &&& log.session_id is None && log.cwd is None && log.git_branch is None
        }),
{
    event_types_differ();
    log_of_one(line);
}

/// An event of any other type, or without a content that is a text and not empty,
/// is no message.
pub proof fn other_events_are_no_messages(line: CopilotLineView)
    requires
        (line.entry_type != "user.message"@ && line.entry_type != "assistant.message"@) || !(
        line.data.get("content"@) matches Some(JsonView::Text(s)) && s.len() > 0),
    ensures
        copilot::event_log(seq![line]).drafts.len() == 0,
{
    log_of_one(line);
}

/// The text at a name of a value.
proof fn text_at_name(value: JsonView, key: Seq<char>)
    ensures
        value.get(key) matches Some(JsonView::Text(s)) ==> value.at(key).as_text() == Some(s),
        !(value.get(key) is Some && value.get(key)->0 is Text) ==> value.at(key).as_text() is None,
{
}

/// A start gives the identifier, and its context the working directory and the
/// branch; each where it is a text.
pub proof fn starts_give_the_facts(line: CopilotLineView)
    requires
        line.entry_type == "session.start"@,
    ensures
        ({
            let log = copilot::event_log(seq![line]);
            &&& line.data.get("sessionId"@) matches Some(JsonView::Text(id)) ==> log.session_id
                == Some(id)
            &&& !(line.data.get("sessionId"@) is Some && line.data.get("sessionId"@)->0 is Text)
                ==> log.session_id is None
            &&& line.data.get("context"@) is None ==> log.cwd is None && log.git_branch is None
            &&& line.data.get("context"@) matches Some(context) ==> {
                &&& context.get("cwd"@) matches Some(JsonView::Text(cwd)) ==> log.cwd == Some(cwd)
                &&& !(context.get("cwd"@) is Some && context.get("cwd"@)->0 is Text)
                    ==> log.cwd is None
                &&& context.get("branch"@) matches Some(JsonView::Text(branch)) ==> log.git_branch
                    == Some(branch)
                &&& !(context.get("branch"@) is Some && context.get("branch"@)->0 is Text)
                    ==> log.git_branch is None
            }
            &&& log.drafts.len() == 0
        }),
{
    event_types_differ();
    log_of_one(line);
    text_at_name(line.data, "sessionId"@);
    json::missing_fields_give_nothing(JsonView::Null, "cwd"@);
    json::missing_fields_give_nothing(JsonView::Null, "branch"@);
    text_at_name(line.data.at("context"@), "cwd"@);
    text_at_name(line.data.at("context"@), "branch"@);
}

/// Only a start gives facts.
pub proof fn other_events_give_no_facts(line: CopilotLineView)
    requires
        line.entry_type != "session.start"@,
    ensures
        copilot::event_log(seq![line]).session_id is None,
        copilot::event_log(seq![line]).cwd is None,
        copilot::event_log(seq![line]).git_branch is None,
{
    log_of_one(line);
}

/// Without events nothing is told.
pub proof fn no_events_tell_nothing()
    ensures
        copilot::event_log(Seq::empty()).session_id is None,
        copilot::event_log(Seq::empty()).cwd is None,
        copilot::event_log(Seq::empty()).git_branch is None,
        copilot::event_log(Seq::empty()).drafts.len() == 0,
{
    reveal(Seq::filter_map);
}

/// Hearing an event at its own time is reading it behind those before.
pub proof fn hearing_is_reading(before: Seq<CopilotLineView>, line: CopilotLineView)
    ensures
        copilot::event_log(before).with(line, line.time()) == copilot::event_log(
            before + seq![line],
        ),
        copilot::event_log(Seq::empty()) == EventLogView::empty(),
{
    assert(before + seq![line] =~= before.push(line));
    assert(before.push(line).drop_last() =~= before);
    lists::filter_map_of_push(before, line, |l: CopilotLineView| l.draft());
    log_of_one(line);
}

/// Heard at another time, an event tells the same but for the time of its message.
pub proof fn the_time_heard_is_the_time_of_the_message(
    log: EventLogView,
    line: CopilotLineView,
    time: Option<Timestamp>,
)
    ensures
        ({
            let own = log.with(line, line.time());
            let other = log.with(line, time);
            &&& other.session_id == own.session_id && other.cwd == own.cwd && other.git_branch
                == own.git_branch
            &&& other.drafts.len() == own.drafts.len()
            &&& forall|i: int|
                0 <= i < log.drafts.len() ==> #[trigger] other.drafts[i] == log.drafts[i]
            &&& own.drafts.len() > log.drafts.len() ==> other.drafts.last() == DraftView {
                timestamp: time,
                ..own.drafts.last()
            }
        }),
{
}

/// The time of an event is that of its text, where it has one.
pub proof fn events_have_the_time_they_give(line: CopilotLineView)
    ensures
        line.timestamp matches Some(s) ==> line.time() == timestamp::instant_of_rfc3339(s),
        line.timestamp is None ==> line.time() is None,
{
}

/// Each message event is one message, in the order of the events: the `i`-th of a
/// list of such events is the `i`-th message.
pub proof fn messages_keep_the_order_of_events(lines: Seq<CopilotLineView>, said: Seq<Seq<char>>)
    requires
        said.len() == lines.len(),
        forall|i: int|
            0 <= i < lines.len() ==> ((#[trigger] lines[i]).entry_type == "user.message"@
                || lines[i].entry_type == "assistant.message"@) && lines[i].data.get("content"@)
                == Some(JsonView::Text(said[i])) && said[i].len() > 0,
    ensures
        copilot::event_log(lines).drafts.map_values(|d: DraftView| d.content) == said,
    decreases lines.len(),
{
    let of = |d: DraftView| d.content;
    if lines.len() == 0 {
        no_events_tell_nothing();
        assert(lines =~= Seq::empty());
        assert(copilot::event_log(lines).drafts.map_values(of) =~= said);
    } else {
        let head = lines.drop_last();
        let line = lines.last();
        assert(lines[lines.len() - 1] == line);
        assert forall|i: int| 0 <= i < head.len() implies ((#[trigger] head[i]).entry_type
            == "user.message"@ || head[i].entry_type == "assistant.message"@) && head[i].data.get(
            "content"@,
        ) == Some(JsonView::Text(said.drop_last()[i])) && said.drop_last()[i].len() > 0 by {
            assert(head[i] == lines[i]);
        }
        messages_keep_the_order_of_events(head, said.drop_last());
        message_events_are_messages(line, said.last());
        copilot::later_events_only_add(head, seq![line]);
        assert(head + seq![line] =~= lines);
        let a = copilot::event_log(head).drafts;
        let b = copilot::event_log(seq![line]).drafts;
        assert((a + b).map_values(of) =~= a.map_values(of) + b.map_values(of));
        assert(b.map_values(of) =~= seq![said.last()]);
        assert(said.drop_last() + seq![said.last()] =~= said);
    }
}

// ---------------------------------------------------------------------------
// Lines

/// An event and a log hold what their fields hold.
pub proof fn fields_are_kept(line: CopilotLine, log: EventLog)
    ensures
        line@.entry_type == line.entry_type@,
        line@.data == line.data@,
        line.timestamp matches Some(s) ==> line@.timestamp == Some(s@),
        line.timestamp is None ==> line@.timestamp is None,
        log@.session_id == text::opt_view(log.session_id),
        log@.cwd == text::opt_view(log.cwd),
        log@.git_branch == text::opt_view(log.git_branch),
        log@.drafts == session::draft_views(log.drafts@),
{
}

/// Lines that could be read count, in order; others do not.
pub proof fn readable_lines_count(
    a: Seq<Option<CopilotLine>>,
    b: Seq<Option<CopilotLine>>,
    line: CopilotLine,
)
    ensures
        copilot::line_views(a + b) == copilot::line_views(a) + copilot::line_views(b),
        copilot::line_views(seq![Some(line)]) == seq![line@],
        copilot::line_views(seq![None]) == Seq::<CopilotLineView>::empty(),
        copilot::line_views(Seq::empty()) == Seq::<CopilotLineView>::empty(),
{
    let f = |l: Option<CopilotLine>| copilot::opt_line_view(l);
    lists::filter_map_of_sum(a, b, f);
    lists::filter_map_of_one(Some(line), f);
    lists::filter_map_of_one(None::<CopilotLine>, f);
}

// ---------------------------------------------------------------------------
// Sessions

/// A session holds what its events tell: the identifier, else the name of the
/// directory, else `unknown`; the working directory, else `.`; the branch; all
/// messages, those of one role in a row joined; and the latest of their times.
pub proof fn sessions_hold_what_events_tell(
    path: Seq<char>,
    dir: Option<Seq<char>>,
    lines: Seq<CopilotLineView>,
    s: SessionView,
)
    requires
        copilot::tells_of_in(path, dir, lines, s),
    ensures
        s.source == SessionSource::CopilotCli,
        s.file_path == path,
        ({
            let log = copilot::event_log(lines);
            &&& log.session_id matches Some(id) ==> s.id == id
            &&& log.session_id is None && dir is Some ==> s.id == dir->0
            &&& log.session_id is None && dir is None ==> s.id == "unknown"@
            &&& log.cwd matches Some(cwd) ==> s.cwd == cwd
            &&& log.cwd is None ==> s.cwd == "."@
            &&& s.git_branch == log.git_branch
            &&& exists|messages: Seq<MessageView>|
                {
                    &&& s.messages == #[trigger] session::joined(messages)
                    &&& messages.len() == log.drafts.len()
                    &&& forall|i: int|
                        0 <= i < messages.len() ==> (#[trigger] messages[i]).role
                            == log.drafts[i].role && messages[i].content == log.drafts[i].content
                            && (log.drafts[i].timestamp matches Some(t) ==> messages[i].timestamp
                            == t)
                    &&& messages.len() > 0 ==> session::latest(messages) == Some(s.timestamp)
                    &&& messages.len() == 0 ==> s.timestamp.may_be_now()
                }
            &&& text::join(s.messages.map_values(|m: MessageView| m.content), seq!['\n', '\n'])
                == text::join(
                log.drafts.map_values(|d: DraftView| d.content),
                seq!['\n', '\n'],
            )
        }),
{
    let log = copilot::event_log(lines);
    let (messages, now) = choose|messages: Seq<MessageView>, now: Timestamp|
        now.may_be_now() && session::are_stamped(log.drafts, messages) && s
            == #[trigger] copilot::session_of(path, dir, log, messages, now);
    session::stamped_drafts_are_the_messages(log.drafts, messages);
    session::latest_is_the_greatest(messages);
    session::joining_keeps_the_text(messages);
    assert(s.messages == session::joined(messages));
    assert(s.messages.map_values(|m: MessageView| m.content) =~= session::contents(s.messages));
}

/// A session at a path goes by the name of its directory where no event gives an
/// identifier.
pub proof fn sessions_go_by_their_directory(
    base: Seq<char>,
    dir: Seq<char>,
    file: Seq<char>,
    lines: Seq<CopilotLineView>,
    s: SessionView,
)
    requires
        dir.len() > 0 && !dir.contains('/') && dir != seq!['.'] && dir != seq!['.', '.'],
        file.len() > 0 && !file.contains('/') && file != seq!['.'],
        host_path::is_portable(base + seq!['/'] + dir + seq!['/'] + file),
        copilot::tells_of(base + seq!['/'] + dir + seq!['/'] + file, lines, s),
        copilot::event_log(lines).session_id is None,
    ensures
        s.id == dir,
        s.file_path == base + seq!['/'] + dir + seq!['/'] + file,
{
    let path = base + seq!['/'] + dir + seq!['/'] + file;
    let name = choose|name: Option<Seq<char>>|
        host_path::may_hold(name, path) && #[trigger] copilot::tells_of_in(path, name, lines, s);
    host_path::the_holder_stands_before_the_file(base, dir, file, name);
    sessions_hold_what_events_tell(path, name, lines, s);
}

/// What events tell of a path is told in one of the directories that may hold it.
pub proof fn sessions_are_told_in_their_directory(
    path: Seq<char>,
    lines: Seq<CopilotLineView>,
    s: SessionView,
)
    requires
        copilot::tells_of(path, lines, s),
    ensures
        exists|dir: Option<Seq<char>>|
            host_path::may_hold(dir, path) && #[trigger] copilot::tells_of_in(path, dir, lines, s),
{
}

// ---------------------------------------------------------------------------
// Places

/// A path lies where sessions are kept where it holds the name of that directory,
/// written with `/` or with `\`, and nowhere else.
pub proof fn session_state_is_known_by_its_name(path: Seq<char>)
    ensures
        copilot::in_session_state(path) <==> (exists|a: Seq<char>, b: Seq<char>|
            path == #[trigger] (a + ".copilot/session-state"@ + b)) || (exists|
            a: Seq<char>,
            b: Seq<char>,
        |
            path == #[trigger] (a + ".copilot\\session-state"@ + b)),
{
    text::what_occurs_stands_between(".copilot/session-state"@, path);
    text::what_occurs_stands_between(".copilot\\session-state"@, path);
}

/// Hearing an event keeps what is known, adds the facts that it gives where they
/// are missing, and puts its message behind those before.
pub proof fn hearing_adds_what_the_event_tells(log: EventLogView, line: CopilotLineView)
    ensures
        ({
            let told = copilot::event_log(seq![line]);
            let next = log.with(line, line.time());
            &&& log.session_id is Some ==> next.session_id == log.session_id
            &&& log.session_id is None ==> next.session_id == told.session_id
            &&& log.cwd is Some ==> next.cwd == log.cwd
            &&& log.cwd is None ==> next.cwd == told.cwd
            &&& log.git_branch is Some ==> next.git_branch == log.git_branch
            &&& log.git_branch is None ==> next.git_branch == told.git_branch
            &&& next.drafts == log.drafts + told.drafts
        }),
{
    log_of_one(line);
    let told = copilot::event_log(seq![line]);
    assert(log.with(line, line.time()).drafts =~= log.drafts + told.drafts);
}

/// A session is put together from its log and its messages.
pub proof fn sessions_are_put_together(
    path: Seq<char>,
    dir: Option<Seq<char>>,
    log: EventLogView,
    messages: Seq<MessageView>,
    now: Timestamp,
)
    ensures
        ({
            let s = copilot::session_of(path, dir, log, messages, now);
            &&& s.source == SessionSource::CopilotCli
            &&& s.file_path == path
            &&& log.session_id matches Some(id) ==> s.id == id
            &&& log.session_id is None && dir is Some ==> s.id == dir->0
            &&& log.session_id is None && dir is None ==> s.id == "unknown"@
            &&& log.cwd matches Some(cwd) ==> s.cwd == cwd
            &&& log.cwd is None ==> s.cwd == "."@
            &&& s.git_branch == log.git_branch
            &&& s.messages == session::joined(messages)
            &&& messages.len() > 0 ==> Some(s.timestamp) == session::latest(messages)
            &&& messages.len() == 0 ==> s.timestamp == now
        }),
{
    session::latest_is_the_greatest(messages);
}

} // verus!
