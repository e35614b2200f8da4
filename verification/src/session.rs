//! Sessions and their messages.

use vstd::prelude::*;

use crate::text;
use crate::timestamp::Timestamp;

verus! {

/// Who wrote a message.
#[derive(Clone, Copy, Debug, PartialEq, Eq, Structural)]
pub enum Role {
    User,
    Assistant,
}

/// The tool that recorded a session.
#[derive(Clone, Copy, Debug, PartialEq, Eq, Structural)]
pub enum SessionSource {
    CopilotCli,
    CursorCli,
}

/// A message of a conversation.
#[derive(Debug)]
pub struct Message {
    pub role: Role,
    pub content: String,
    pub timestamp: Timestamp,
}

/// The content of a [`Message`].
pub struct MessageView {
    pub role: Role,
    pub content: Seq<char>,
    pub timestamp: Timestamp,
}

impl View for Message {
    type V = MessageView;

    open spec fn view(&self) -> MessageView {
        MessageView { role: self.role, content: self.content@, timestamp: self.timestamp }
    }
}

/// A message as recorded, which may lack its time.
#[derive(Debug)]
pub struct Draft {
    pub role: Role,
    pub content: String,
    pub timestamp: Option<Timestamp>,
}

/// The content of a [`Draft`].
pub struct DraftView {
    pub role: Role,
    pub content: Seq<char>,
    pub timestamp: Option<Timestamp>,
}

impl View for Draft {
    type V = DraftView;

    open spec fn view(&self) -> DraftView {
        DraftView { role: self.role, content: self.content@, timestamp: self.timestamp }
    }
}

/// A recorded conversation.
#[derive(Debug)]
pub struct Session {
    pub id: String,
    pub source: SessionSource,
    pub file_path: String,
    pub cwd: String,
    pub git_branch: Option<String>,
    pub timestamp: Timestamp,
    pub messages: Vec<Message>,
}

/// The content of a [`Session`].
pub struct SessionView {
    pub id: Seq<char>,
    pub source: SessionSource,
    pub file_path: Seq<char>,
    pub cwd: Seq<char>,
    pub git_branch: Option<Seq<char>>,
    pub timestamp: Timestamp,
    pub messages: Seq<MessageView>,
}

impl View for Session {
    type V = SessionView;

    open spec fn view(&self) -> SessionView {
        SessionView {
            id: self.id@,
            source: self.source,
            file_path: self.file_path@,
            cwd: self.cwd@,
            git_branch: text::opt_view(self.git_branch),
            timestamp: self.timestamp,
            messages: message_views(self.messages@),
        }
    }
}

/// The contents of a list of messages.
pub open spec fn message_views(messages: Seq<Message>) -> Seq<MessageView> {
    messages.map_values(|m: Message| m@)
}

/// The contents of a list of drafts.
pub open spec fn draft_views(drafts: Seq<Draft>) -> Seq<DraftView> {
    drafts.map_values(|d: Draft| d@)
}

impl DraftView {
    /// The draft as a message; one without a time is given `now`.
    pub open spec fn stamped(self, now: Timestamp) -> MessageView {
        MessageView {
            role: self.role,
            content: self.content,
            timestamp: match self.timestamp {
                Some(t) => t,
                None => now,
            },
        }
    }
}

impl Draft {
    /// The draft as a message; one without a time is given `now`.
    pub fn stamp(self, now: Timestamp) -> (message: Message)
        ensures
            message@ == self@.stamped(now),
    {
        Message {
            role: self.role,
            content: self.content,
            timestamp: match self.timestamp {
                Some(t) => t,
                None => now,
            },
        }
    }
}

/// `messages` are the drafts, one for one and each with its own time; one that
/// lacks its time has some time that the clock may give.
pub open spec fn are_stamped(drafts: Seq<DraftView>, messages: Seq<MessageView>) -> bool {
    messages.len() == drafts.len() && forall|i: int|
        0 <= i < drafts.len() ==> (#[trigger] messages[i]) == drafts[i].stamped(
            messages[i].timestamp,
        ) && (drafts[i].timestamp is None ==> messages[i].timestamp.may_be_now())
}

/// Turns drafts into messages, asking the clock for each time that is missing.
pub fn stamp_all(drafts: Vec<Draft>) -> (messages: Vec<Message>)
    ensures
        are_stamped(draft_views(drafts@), message_views(messages@)),
{
    let ghost given = drafts@;
    let mut messages: Vec<Message> = Vec::new();
    for draft in it: drafts.into_iter()
        invariant
            it.seq() == given,
            messages@.len() == it.index(),
            forall|i: int|
                0 <= i < messages@.len() ==> (#[trigger] messages@[i])@ == given[i]@.stamped(
                    messages@[i]@.timestamp,
                ) && (given[i]@.timestamp is None ==> messages@[i]@.timestamp.may_be_now()),
    {
        let message = match draft.timestamp {
            Some(t) => draft.stamp(t),
            None => draft.stamp(Timestamp::now()),
        };
        messages.push(message);
    }
    messages
}

/// The latest time among the messages.
pub open spec fn latest(messages: Seq<MessageView>) -> Option<Timestamp>
    decreases messages.len(),
{
    if messages.len() == 0 {
        None
    } else {
        match latest(messages.drop_last()) {
            Some(t) => if messages.last().timestamp.after(t) {
                Some(messages.last().timestamp)
            } else {
                Some(t)
            },
            None => Some(messages.last().timestamp),
        }
    }
}

/// The latest time among the messages.
pub fn latest_timestamp(messages: &Vec<Message>) -> (t: Option<Timestamp>)
    ensures
        t == latest(message_views(messages@)),
{
    let ghost views = message_views(messages@);
    let mut found: Option<Timestamp> = None;
    let mut i: usize = 0;
    while i < messages.len()
        invariant
            i <= messages@.len(),
            views == message_views(messages@),
            found == latest(views.take(i as int)),
        decreases messages@.len() - i,
    {
        assert(views.take(i + 1).drop_last() =~= views.take(i as int));
        let ts = messages[i].timestamp;
        found = match found {
            Some(t) => if ts.is_after(t) {
                Some(ts)
            } else {
                Some(t)
            },
            None => Some(ts),
        };
        i = i + 1;
    }
    assert(views.take(i as int) =~= views);
    found
}

/// What stands between the contents of two messages that are joined.
pub open spec fn separator() -> Seq<char> {
    seq!['\n', '\n']
}

/// The messages with each run of one role made into a single message: the
/// contents in order, and the time of the first.
pub open spec fn joined(messages: Seq<MessageView>) -> Seq<MessageView>
    decreases messages.len(),
{
    if messages.len() == 0 {
        Seq::empty()
    } else {
        let before = joined(messages.drop_last());
        let next = messages.last();
        if before.len() > 0 && before.last().role == next.role {
            before.drop_last().push(
                MessageView {
                    content: before.last().content + separator() + next.content,
                    ..before.last()
                },
            )
        } else {
            before.push(next)
        }
    }
}

/// Joins neighbouring messages of one role.
pub fn join_consecutive_messages(messages: Vec<Message>) -> (out: Vec<Message>)
    ensures
        message_views(out@) == joined(message_views(messages@)),
{
    let ghost given = message_views(messages@);
    let ghost list = messages@;
    let mut out: Vec<Message> = Vec::new();
    for next in it: messages.into_iter()
        invariant
            it.seq() == list,
            given == message_views(list),
            message_views(out@) == joined(given.take(it.index() as int)),
    {
        let ghost done = given.take(it.index() as int);
        let ghost more = given.take(it.index() + 1);
        let ghost before = out@;
        assert(more.drop_last() =~= done);
        assert(more.last() == next@);
        match out.pop() {
            Some(last) => {
                assert(message_views(before).last() == last@);
                assert(message_views(before).drop_last() =~= message_views(out@));
                if last.role == next.role {
                    let mut content = last.content;
                    proof {
                        reveal_strlit("\n\n");
                        assert("\n\n"@ =~= separator());
                    }
                    content.append("\n\n");
                    content.append(next.content.as_str());
                    let merged = Message { role: last.role, content, timestamp: last.timestamp };
                    let ghost kept = message_views(out@);
                    out.push(merged);
                    assert(message_views(out@) =~= kept.push(merged@));
                    assert(message_views(out@) =~= joined(more));
                } else {
                    out.push(last);
                    out.push(next);
                    assert(message_views(out@) =~= joined(more));
                }
            },
            None => {
                out.push(next);
                assert(message_views(out@) =~= joined(more));
            },
        }
    }
    assert(given.take(given.len() as int) =~= given);
    out
}

/// The latest time is the time of some message, and none has a later one.
pub proof fn latest_is_the_greatest(messages: Seq<MessageView>)
    ensures
        latest(messages) is Some <==> messages.len() > 0,
        latest(messages) matches Some(t) ==> (exists|i: int|
            0 <= i < messages.len() && #[trigger] messages[i].timestamp == t) && (forall|i: int|
            0 <= i < messages.len() ==> !(#[trigger] messages[i]).timestamp.after(t)),
    decreases messages.len(),
{
    if messages.len() > 0 {
        let head = messages.drop_last();
        latest_is_the_greatest(head);
        let last = messages.len() - 1;
        let t = latest(messages)->0;
        if head.len() > 0 {
            let k = choose|i: int|
                0 <= i < head.len() && #[trigger] head[i].timestamp == latest(head)->0;
            assert(messages[k].timestamp == latest(head)->0);
        }
        assert(messages[last].timestamp == messages.last().timestamp);
        assert forall|i: int| 0 <= i < messages.len() implies !(#[trigger] messages[i]).timestamp.after(
            t,
        ) by {
            if i < last {
                assert(!head[i].timestamp.after(latest(head)->0));
            }
        }
    }
}

/// No two neighbouring messages have one role.
pub open spec fn roles_alternate(messages: Seq<MessageView>) -> bool {
    forall|i: int, j: int|
        0 <= i < j < messages.len() && j == i + 1 ==> (#[trigger] messages[i]).role != (
        #[trigger] messages[j]).role
}

/// Among joined messages no two neighbours have one role.
pub proof fn joined_roles_alternate(messages: Seq<MessageView>)
    ensures
        roles_alternate(joined(messages)),
    decreases messages.len(),
{
    if messages.len() > 0 {
        joined_roles_alternate(messages.drop_last());
        let before = joined(messages.drop_last());
        let all = joined(messages);
        assert(forall|i: int| 0 <= i < before.len() ==> (#[trigger] all[i]).role == before[i].role);
    }
}

/// Messages whose roles alternate are left as they are.
pub proof fn alternating_messages_stay(messages: Seq<MessageView>)
    requires
        roles_alternate(messages),
    ensures
        joined(messages) == messages,
    decreases messages.len(),
{
    if messages.len() > 0 {
        let head = messages.drop_last();
        assert(forall|i: int| 0 <= i < head.len() ==> #[trigger] head[i] == messages[i]);
        alternating_messages_stay(head);
        assert(head.push(messages.last()) =~= messages);
    } else {
        assert(messages =~= Seq::empty());
    }
}

/// Where all messages have one time, so have the joined ones, and it is the
/// latest.
pub proof fn one_time_stays(messages: Seq<MessageView>, time: Timestamp)
    requires
        forall|i: int| 0 <= i < messages.len() ==> (#[trigger] messages[i]).timestamp == time,
    ensures
        forall|i: int|
            0 <= i < joined(messages).len() ==> (#[trigger] joined(messages)[i]).timestamp == time,
        messages.len() > 0 ==> latest(messages) == Some(time),
    decreases messages.len(),
{
    if messages.len() > 0 {
        let head = messages.drop_last();
        assert forall|i: int| 0 <= i < head.len() implies (#[trigger] head[i]).timestamp == time by {
            assert(messages[i] == head[i]);
        }
        one_time_stays(head, time);
        assert(messages[messages.len() - 1].timestamp == time);
        let before = joined(head);
        let all = joined(messages);
        assert forall|i: int| 0 <= i < all.len() implies (#[trigger] all[i]).timestamp == time by {
            if i < before.len() {
                assert(all[i].timestamp == before[i].timestamp);
            }
        }
    }
}

/// The session with the given messages has the time of its latest message:
/// no draft is later, and where each draft has a time it is the time of one.
pub proof fn latest_of_stamped(drafts: Seq<DraftView>, messages: Seq<MessageView>)
    requires
        are_stamped(drafts, messages),
        drafts.len() > 0,
    ensures
        latest(messages) is Some,
        forall|i: int|
            0 <= i < drafts.len() ==> ((#[trigger] drafts[i]).timestamp matches Some(t) ==> !t.after(
                latest(messages)->0,
            )),
        (forall|i: int| 0 <= i < drafts.len() ==> (#[trigger] drafts[i]).timestamp is Some) ==> exists|
            i: int,
        |
            0 <= i < drafts.len() && (#[trigger] drafts[i]).timestamp == latest(messages),
{
    latest_is_the_greatest(messages);
    let t = latest(messages)->0;
    assert forall|i: int| 0 <= i < drafts.len() implies ((#[trigger] drafts[i]).timestamp matches Some(
        d,
    ) ==> !d.after(t)) by {
        assert(messages[i] == drafts[i].stamped(messages[i].timestamp));
    }
    let k = choose|i: int| 0 <= i < messages.len() && #[trigger] messages[i].timestamp == t;
    assert(messages[k] == drafts[k].stamped(messages[k].timestamp));
}

/// Drafts that all have their times make the same messages whenever they are
/// stamped.
pub proof fn timed_drafts_are_fixed(
    drafts: Seq<DraftView>,
    a: Seq<MessageView>,
    b: Seq<MessageView>,
)
    requires
        are_stamped(drafts, a),
        are_stamped(drafts, b),
        forall|i: int| 0 <= i < drafts.len() ==> (#[trigger] drafts[i]).timestamp is Some,
    ensures
        a == b,
{
    assert forall|i: int| 0 <= i < a.len() implies #[trigger] a[i] == b[i] by {
        assert(drafts[i].timestamp is Some);
        assert(b[i] == drafts[i].stamped(b[i].timestamp));
    }
    assert(a =~= b);
}

/// The contents of messages.
pub open spec fn contents(messages: Seq<MessageView>) -> Seq<Seq<char>> {
    messages.map_values(|m: MessageView| m.content)
}

/// Joining loses no content and keeps the order: what the messages say, one
/// after the other, is the same before and after.
pub proof fn joining_keeps_the_text(messages: Seq<MessageView>)
    ensures
        text::join(contents(joined(messages)), separator()) == text::join(
            contents(messages),
            separator(),
        ),
        joined(messages).len() == 0 <==> messages.len() == 0,
    decreases messages.len(),
{
    if messages.len() > 0 {
        let head = messages.drop_last();
        let next = messages.last();
        joining_keeps_the_text(head);
        let before = joined(head);
        let kept = contents(before);
        assert(contents(messages) =~= contents(head).push(next.content));
        assert(contents(messages).drop_last() =~= contents(head));
        if before.len() > 0 && before.last().role == next.role {
            let grown = kept.last() + separator() + next.content;
            assert(contents(joined(messages)) =~= kept.drop_last().push(grown));
            assert(contents(joined(messages)).drop_last() =~= kept.drop_last());
            assert(text::join(contents(joined(messages)), separator()) =~= text::join(
                kept,
                separator(),
            ) + separator() + next.content);
        } else {
            assert(contents(joined(messages)) =~= kept.push(next.content));
            assert(contents(joined(messages)).drop_last() =~= kept);
        }
    } else {
        assert(contents(joined(messages)) =~= contents(messages));
    }
}

/// Joining twice is joining once.
pub proof fn joining_is_idempotent(messages: Seq<MessageView>)
    ensures
        joined(joined(messages)) == joined(messages),
{
    joined_roles_alternate(messages);
    alternating_messages_stay(joined(messages));
}

/// Messages, drafts and sessions hold what their fields hold.
pub proof fn fields_are_kept(m: Message, d: Draft, s: Session)
    ensures
        m@.role == m.role && m@.content == m.content@ && m@.timestamp == m.timestamp,
        d@.role == d.role && d@.content == d.content@ && d@.timestamp == d.timestamp,
        s@.id == s.id@ && s@.source == s.source && s@.file_path == s.file_path@ && s@.cwd
            == s.cwd@,
        s.git_branch matches Some(b) ==> s@.git_branch == Some(b@),
        s.git_branch is None ==> s@.git_branch is None,
        s@.timestamp == s.timestamp,
        s@.messages == message_views(s.messages@),
{
}

/// Lists of messages and drafts hold them one for one and in order.
pub proof fn lists_are_kept(messages: Seq<Message>, drafts: Seq<Draft>)
    ensures
        message_views(messages).len() == messages.len(),
        forall|i: int|
            0 <= i < messages.len() ==> #[trigger] message_views(messages)[i] == messages[i]@,
        draft_views(drafts).len() == drafts.len(),
        forall|i: int| 0 <= i < drafts.len() ==> #[trigger] draft_views(drafts)[i] == drafts[i]@,
{
}

/// A draft keeps its role, its content and its time when it is stamped; one
/// without a time is given the clock's.
pub proof fn stamping_keeps_the_draft(draft: DraftView, now: Timestamp)
    ensures
        draft.stamped(now).role == draft.role,
        draft.stamped(now).content == draft.content,
        draft.timestamp matches Some(t) ==> draft.stamped(now).timestamp == t,
        draft.timestamp is None ==> draft.stamped(now).timestamp == now,
{
}

/// Stamped drafts are the messages: as many, in order, each with the role and the
/// content of its draft, and with its time where it has one.
pub proof fn stamped_drafts_are_the_messages(drafts: Seq<DraftView>, messages: Seq<MessageView>)
    requires
        are_stamped(drafts, messages),
    ensures
        messages.len() == drafts.len(),
        forall|i: int|
            0 <= i < drafts.len() ==> (#[trigger] messages[i]).role == drafts[i].role
                && messages[i].content == drafts[i].content && (drafts[i].timestamp matches Some(t)
                ==> messages[i].timestamp == t),
        forall|i: int|
            0 <= i < drafts.len() && (#[trigger] drafts[i]).timestamp is None
                ==> messages[i].timestamp.may_be_now(),
        contents(messages) == drafts.map_values(|d: DraftView| d.content),
{
    assert forall|i: int| 0 <= i < drafts.len() implies (#[trigger] messages[i]).role
        == drafts[i].role && messages[i].content == drafts[i].content && (
    drafts[i].timestamp matches Some(t) ==> messages[i].timestamp == t) by {
        assert(messages[i] == drafts[i].stamped(messages[i].timestamp));
    }
    assert forall|i: int|
        0 <= i < drafts.len() && (
        #[trigger] drafts[i]).timestamp is None implies messages[i].timestamp.may_be_now() by {
        assert(messages[i] == drafts[i].stamped(messages[i].timestamp));
    }
    assert(contents(messages) =~= drafts.map_values(|d: DraftView| d.content));
}

/// Where the role changes, messages before and behind are joined apart.
pub proof fn changes_of_role_part(a: Seq<MessageView>, b: Seq<MessageView>)
    requires
        a.len() > 0,
        b.len() > 0,
        a.last().role != b[0].role,
    ensures
        joined(a + b) == joined(a) + joined(b),
    decreases b.len(),
{
    joined_ends(a);
    joining_keeps_the_text(a);
    let head = b.drop_last();
    assert((a + b).drop_last() =~= a + head);
    assert((a + b).last() == b.last());
    if head.len() == 0 {
        assert(a + head =~= a);
        assert(joined(head) =~= Seq::empty());
        assert(b.last() == b[0]);
        assert(joined(a + b) =~= joined(a) + joined(b));
    } else {
        assert(head[0] == b[0]);
        changes_of_role_part(a, head);
        joining_keeps_the_text(head);
        assert((joined(a) + joined(head)).last() == joined(head).last());
        assert(joined(a + b) =~= joined(a) + joined(b));
    }
}

/// The last joined message has the role of the last message.
proof fn joined_ends(messages: Seq<MessageView>)
    requires
        messages.len() > 0,
    ensures
        joined(messages).len() > 0,
        joined(messages).last().role == messages.last().role,
{
}

/// A run of one role becomes one message of that role: the contents in order, a
/// blank line between each two, and the time of the first.
pub proof fn runs_become_one_message(messages: Seq<MessageView>)
    requires
        messages.len() > 0,
        forall|i: int| 0 <= i < messages.len() ==> (#[trigger] messages[i]).role == messages[0].role,
    ensures
        joined(messages).len() == 1,
        joined(messages)[0].role == messages[0].role,
        joined(messages)[0].timestamp == messages[0].timestamp,
        joined(messages)[0].content == text::join(
            messages.map_values(|m: MessageView| m.content),
            seq!['\n', '\n'],
        ),
    decreases messages.len(),
{
    let head = messages.drop_last();
    let said = messages.map_values(|m: MessageView| m.content);
    assert(messages[messages.len() - 1].role == messages[0].role);
    if head.len() == 0 {
        assert(joined(head) =~= Seq::empty());
        assert(joined(messages) =~= seq![messages[0]]);
    } else {
        assert forall|i: int| 0 <= i < head.len() implies (#[trigger] head[i]).role
            == head[0].role by {
            assert(messages[i].role == messages[0].role);
        }
        runs_become_one_message(head);
        assert(said.drop_last() =~= head.map_values(|m: MessageView| m.content));
        assert(said.last() == messages.last().content);
    }
}

/// Where there is a message, the latest time is that of one and none is later;
/// where there is none, there is no time.
pub proof fn no_messages_have_no_time(messages: Seq<MessageView>)
    ensures
        messages.len() == 0 <==> latest(messages) is None,
        messages.len() == 0 <==> joined(messages).len() == 0,
{
    latest_is_the_greatest(messages);
    joining_keeps_the_text(messages);
}

} // verus!
