//! Sessions of the Cursor agent: metadata and blobs out of a database.

use vstd::prelude::*;

use crate::codec;
use crate::host_path;
use crate::json;
use crate::json::Json;
use crate::json::JsonView;
use crate::lists;
use crate::session;
use crate::session::Draft;
use crate::session::DraftView;
use crate::session::Message;
use crate::session::MessageView;
use crate::session::Role;
use crate::session::Session;
use crate::session::SessionSource;
use crate::session::SessionView;
use crate::text;
use crate::timestamp;
use crate::timestamp::Timestamp;

verus! {

/// The parser for sessions of the Cursor agent.
pub struct CursorParser;

/// A message in the legacy format.
pub struct CursorBubble {
    pub bubble_type: Option<i32>,
    pub text: Option<String>,
    pub rich_text: Option<String>,
    pub timestamp: Option<i64>,
}

/// The content of a [`CursorBubble`].
pub struct CursorBubbleView {
    pub bubble_type: Option<i32>,
    pub text: Option<Seq<char>>,
    pub rich_text: Option<Seq<char>>,
    pub timestamp: Option<i64>,
}

impl View for CursorBubble {
    type V = CursorBubbleView;

    open spec fn view(&self) -> CursorBubbleView {
        CursorBubbleView {
            bubble_type: self.bubble_type,
            text: text::opt_view(self.text),
            rich_text: text::opt_view(self.rich_text),
            timestamp: self.timestamp,
        }
    }
}

/// The contents of a list of bubbles.
pub open spec fn bubble_views(bubbles: Seq<CursorBubble>) -> Seq<CursorBubbleView> {
    bubbles.map_values(|b: CursorBubble| b@)
}

/// The content of an optional bubble.
pub open spec fn opt_bubble_view(bubble: Option<CursorBubble>) -> Option<CursorBubbleView> {
    match bubble {
        Some(bubble) => Some(bubble@),
        None => None,
    }
}

/// A message in the current format, that of OpenAI.
pub struct OpenAIMessage {
    pub role: Option<String>,
    pub content: Option<Json>,
}

/// The content of an [`OpenAIMessage`].
pub struct OpenAIMessageView {
    pub role: Option<Seq<char>>,
    pub content: Option<JsonView>,
}

impl View for OpenAIMessage {
    type V = OpenAIMessageView;

    open spec fn view(&self) -> OpenAIMessageView {
        OpenAIMessageView {
            role: text::opt_view(self.role),
            content: json::opt_json_view(self.content),
        }
    }
}

/// The content of a row that could be read as a message in the current format.
pub open spec fn opt_openai_view(message: Option<OpenAIMessage>) -> Option<OpenAIMessageView> {
    match message {
        Some(message) => Some(message@),
        None => None,
    }
}

/// The messages in the current format in a list of rows; a row that could not
/// be read as one is passed over.
pub open spec fn openai_views(rows: Seq<Option<OpenAIMessage>>) -> Seq<OpenAIMessageView> {
    rows.filter_map(|m: Option<OpenAIMessage>| opt_openai_view(m))
}

/// The contents of a list of rows.
pub open spec fn row_views(rows: Seq<Vec<u8>>) -> Seq<Seq<u8>> {
    rows.map_values(|r: Vec<u8>| r@)
}

// ---------------------------------------------------------------------------
// Bubbles out of JSON

/// An optional `i32` field: `null` is none, and what is no `i32` is refused.
pub open spec fn i32_field(value: JsonView) -> Option<Option<i32>> {
    match value {
        JsonView::Null => Some(None),
        JsonView::Number(Some(n)) => if i32::MIN <= n <= i32::MAX {
            Some(Some(n as i32))
        } else {
            None
        },
        _ => None,
    }
}

/// An optional `i64` field: `null` is none, and what is no `i64` is refused.
pub open spec fn i64_field(value: JsonView) -> Option<Option<i64>> {
    match value {
        JsonView::Null => Some(None),
        JsonView::Number(Some(n)) => Some(Some(n)),
        _ => None,
    }
}

/// An optional text field: `null` is none, and what is no text is refused.
pub open spec fn text_field(value: JsonView) -> Option<Option<Seq<char>>> {
    match value {
        JsonView::Null => Some(None),
        JsonView::Text(s) => Some(Some(s)),
        _ => None,
    }
}

/// The bubble with these four fields, where none is refused.
pub open spec fn bubble_of_fields(
    bubble_type: JsonView,
    text: JsonView,
    rich_text: JsonView,
    timestamp: JsonView,
) -> Option<CursorBubbleView> {
    match (
        i32_field(bubble_type),
        text_field(text),
        text_field(rich_text),
        i64_field(timestamp),
    ) {
        (Some(bubble_type), Some(text), Some(rich_text), Some(timestamp)) => Some(
            CursorBubbleView { bubble_type, text, rich_text, timestamp },
        ),
        _ => None,
    }
}

/// The bubble that a JSON value writes: an object by its field names, where a
/// field that is not there counts as `null`, or an array of the four fields in
/// their order.
pub open spec fn bubble_of(value: JsonView) -> Option<CursorBubbleView> {
    match value {
        JsonView::Object(_) => bubble_of_fields(
            value.at("type"@),
            value.at("text"@),
            value.at("richText"@),
            value.at("timestamp"@),
        ),
        JsonView::Array(items) => if items.len() == 4 {
            bubble_of_fields(items[0], items[1], items[2], items[3])
        } else {
            None
        },
        _ => None,
    }
}

/// The bubble that a JSON value writes, where it has a type.
pub open spec fn typed_bubble(value: JsonView) -> Option<CursorBubbleView> {
    match bubble_of(value) {
        Some(bubble) => if bubble.bubble_type is Some {
            Some(bubble)
        } else {
            None
        },
        None => None,
    }
}

/// The typed bubbles among the items of an array.
pub open spec fn typed_bubbles(items: Seq<JsonView>) -> Seq<CursorBubbleView> {
    items.filter_map(|v: JsonView| typed_bubble(v))
}

/// The bubbles in a JSON value: the value itself, else the items of an array,
/// else the items of the array in its field `bubbles`.
pub open spec fn bubbles_in(value: JsonView) -> Seq<CursorBubbleView> {
    match typed_bubble(value) {
        Some(bubble) => seq![bubble],
        None => match value {
            JsonView::Array(items) => typed_bubbles(items),
            _ => match value.get("bubbles"@) {
                Some(JsonView::Array(items)) => typed_bubbles(items),
                _ => Seq::empty(),
            },
        },
    }
}

fn read_i32_field(value: Option<&Json>) -> (r: Option<Option<i32>>)
    ensures
        r == i32_field(lists::or_else(json::opt_ref_view(value), JsonView::Null)),
{
    match value {
        None => Some(None),
        Some(Json::Null) => Some(None),
        Some(Json::Number(Some(n))) => if -2147483648 <= *n && *n <= 2147483647 {
            Some(Some(*n as i32))
        } else {
            None
        },
        _ => None,
    }
}

fn read_i64_field(value: Option<&Json>) -> (r: Option<Option<i64>>)
    ensures
        r == i64_field(lists::or_else(json::opt_ref_view(value), JsonView::Null)),
{
    match value {
        None => Some(None),
        Some(Json::Null) => Some(None),
        Some(Json::Number(Some(n))) => Some(Some(*n)),
        _ => None,
    }
}

fn read_text_field(value: Option<&Json>) -> (r: Option<Option<String>>)
    ensures
        (match r {
            Some(s) => Some(text::opt_view(s)),
            None => None,
        }) == text_field(lists::or_else(json::opt_ref_view(value), JsonView::Null)),
{
    match value {
        None => Some(None),
        Some(Json::Null) => Some(None),
        Some(Json::Text(s)) => Some(Some(s.clone())),
        _ => None,
    }
}

impl CursorBubble {
    fn from_fields(
        bubble_type: Option<&Json>,
        text: Option<&Json>,
        rich_text: Option<&Json>,
        timestamp: Option<&Json>,
    ) -> (bubble: Option<CursorBubble>)
        ensures
            opt_bubble_view(bubble) == bubble_of_fields(
                lists::or_else(json::opt_ref_view(bubble_type), JsonView::Null),
                lists::or_else(json::opt_ref_view(text), JsonView::Null),
                lists::or_else(json::opt_ref_view(rich_text), JsonView::Null),
                lists::or_else(json::opt_ref_view(timestamp), JsonView::Null),
            ),
    {
        match (
            read_i32_field(bubble_type),
            read_text_field(text),
            read_text_field(rich_text),
            read_i64_field(timestamp),
        ) {
            (Some(bubble_type), Some(text), Some(rich_text), Some(timestamp)) => Some(
                CursorBubble { bubble_type, text, rich_text, timestamp },
            ),
            _ => None,
        }
    }

    /// The bubble that a JSON value writes.
    pub fn from_json(value: &Json) -> (bubble: Option<CursorBubble>)
        ensures
            opt_bubble_view(bubble) == bubble_of(value@),
    {
        match value {
            Json::Object(_) => CursorBubble::from_fields(
                value.get("type"),
                value.get("text"),
                value.get("richText"),
                value.get("timestamp"),
            ),
            Json::Array(items) => {
                proof {
                    json::array_view(*items);
                }
                if items.len() == 4 {
                    CursorBubble::from_fields(
                        Some(&items[0]),
                        Some(&items[1]),
                        Some(&items[2]),
                        Some(&items[3]),
                    )
                } else {
                    None
                }
            },
            _ => None,
        }
    }

    /// The bubble that a JSON value writes, where it has a type.
    pub fn typed(value: &Json) -> (bubble: Option<CursorBubble>)
        ensures
            opt_bubble_view(bubble) == typed_bubble(value@),
    {
        match CursorBubble::from_json(value) {
            Some(bubble) => if bubble.bubble_type.is_some() {
                Some(bubble)
            } else {
                None
            },
            None => None,
        }
    }
}

fn typed_items(items: &Vec<Json>) -> (bubbles: Vec<CursorBubble>)
    ensures
        bubble_views(bubbles@) == typed_bubbles(json::item_views(items@)),
{
    let ghost views = json::item_views(items@);
    let ghost f = |v: JsonView| typed_bubble(v);
    let mut bubbles: Vec<CursorBubble> = Vec::new();
    let mut i: usize = 0;
    proof {
        reveal(Seq::filter_map);
        assert(views.take(0).filter_map(f) =~= bubble_views(bubbles@));
    }
    while i < items.len()
        invariant
            i <= items@.len(),
            views == json::item_views(items@),
            f == |v: JsonView| typed_bubble(v),
            bubble_views(bubbles@) == views.take(i as int).filter_map(f),
        decreases items@.len() - i,
    {
        let ghost before = bubbles@;
        proof {
            assert(views.take(i + 1) =~= views.take(i as int).push(views[i as int]));
            lists::filter_map_of_push(views.take(i as int), views[i as int], f);
        }
        if let Some(bubble) = CursorBubble::typed(&items[i]) {
            let ghost view = bubble@;
            bubbles.push(bubble);
            assert(bubble_views(bubbles@) =~= bubble_views(before).push(view));
        }
        i = i + 1;
    }
    assert(views.take(i as int) =~= views);
    bubbles
}

/// The bubbles in a JSON value.
pub fn extract_bubbles(value: &Json) -> (bubbles: Vec<CursorBubble>)
    ensures
        bubble_views(bubbles@) == bubbles_in(value@),
{
    if let Some(bubble) = CursorBubble::typed(value) {
        let mut one: Vec<CursorBubble> = Vec::new();
        one.push(bubble);
        assert(bubble_views(one@) =~= bubbles_in(value@));
        return one;
    }
    if let Json::Array(items) = value {
        proof {
            json::array_view(*items);
        }
        return typed_items(items);
    }
    match value.get("bubbles") {
        Some(Json::Array(items)) => {
            proof {
                json::array_view(*items);
            }
            typed_items(items)
        },
        _ => {
            let none: Vec<CursorBubble> = Vec::new();
            assert(bubble_views(none@) =~= Seq::empty());
            none
        },
    }
}

// ---------------------------------------------------------------------------
// Blobs and metadata as stored

/// The JSON value in a metadata text: written plainly, else in hexadecimal.
pub open spec fn meta_json(s: Seq<char>) -> Option<JsonView> {
    match json::read_json(vstd::utf8::encode_utf8(s)) {
        Some(value) => Some(value),
        None => match codec::hex_decoded(vstd::utf8::encode_utf8(s)) {
            Some(bytes) => json::read_json(bytes),
            None => None,
        },
    }
}

/// Reads a metadata text.
pub fn decode_meta_value(s: &str) -> (value: Option<Json>)
    ensures
        json::opt_json_view(value) == meta_json(s@),
{
    let plain = s.as_bytes();
    if let Some(value) = json::parse_json(plain) {
        return Some(value);
    }
    match codec::hex_decode(plain) {
        Some(bytes) => json::parse_json(bytes.as_slice()),
        None => None,
    }
}

/// The JSON value in a blob: written plainly, else in base64.
pub open spec fn blob_json(raw: Seq<u8>) -> Option<JsonView> {
    match json::read_json(raw) {
        Some(value) => Some(value),
        None => match codec::base64_decoded(raw) {
            Some(bytes) => json::read_json(bytes),
            None => None,
        },
    }
}

/// The bubbles in a blob.
pub open spec fn blob_bubbles(raw: Seq<u8>) -> Seq<CursorBubbleView> {
    match blob_json(raw) {
        Some(value) => bubbles_in(value),
        None => Seq::empty(),
    }
}

/// The bubbles in a list of blobs, in order.
pub open spec fn all_bubbles(rows: Seq<Seq<u8>>) -> Seq<CursorBubbleView>
    decreases rows.len(),
{
    if rows.len() == 0 {
        Seq::empty()
    } else {
        all_bubbles(rows.drop_last()) + blob_bubbles(rows.last())
    }
}

/// The bubbles in a blob.
pub fn decode_blob_value(raw: &[u8]) -> (bubbles: Vec<CursorBubble>)
    ensures
        bubble_views(bubbles@) == blob_bubbles(raw@),
{
    if let Some(value) = json::parse_json(raw) {
        return extract_bubbles(&value);
    }
    if let Some(decoded) = codec::base64_decode(raw) {
        if let Some(value) = json::parse_json(decoded.as_slice()) {
            return extract_bubbles(&value);
        }
    }
    let none: Vec<CursorBubble> = Vec::new();
    assert(bubble_views(none@) =~= Seq::empty());
    none
}

/// The bubbles in a list of blobs.
pub fn read_blobs(rows: &Vec<Vec<u8>>) -> (bubbles: Vec<CursorBubble>)
    ensures
        bubble_views(bubbles@) == all_bubbles(row_views(rows@)),
{
    let ghost views = row_views(rows@);
    let mut bubbles: Vec<CursorBubble> = Vec::new();
    let mut i: usize = 0;
    assert(bubble_views(bubbles@) =~= Seq::empty());
    while i < rows.len()
        invariant
            i <= rows@.len(),
            views == row_views(rows@),
            bubble_views(bubbles@) == all_bubbles(views.take(i as int)),
        decreases rows@.len() - i,
    {
        let ghost before = bubbles@;
        let mut more = decode_blob_value(rows[i].as_slice());
        let ghost added = more@;
        bubbles.append(&mut more);
        proof {
            assert(views.take(i + 1).drop_last() =~= views.take(i as int));
            assert(bubble_views(bubbles@) =~= bubble_views(before) + bubble_views(added));
        }
        i = i + 1;
    }
    assert(views.take(i as int) =~= views);
    bubbles
}

// ---------------------------------------------------------------------------
// Messages

impl CursorBubbleView {
    /// Who speaks in the bubble.
    pub open spec fn role(self) -> Option<Role> {
        if self.bubble_type == Some(1i32) {
            Some(Role::User)
        } else if self.bubble_type == Some(2i32) {
            Some(Role::Assistant)
        } else {
            None
        }
    }

    /// The text of the bubble, else its rich text, else nothing.
    pub open spec fn content(self) -> Seq<char> {
        lists::or_else(self.text, lists::or_else(self.rich_text, Seq::empty()))
    }

    /// The time of the bubble.
    pub open spec fn time(self) -> Option<Timestamp> {
        match self.timestamp {
            Some(ms) => timestamp::instant_of_millis(ms),
            None => None,
        }
    }

    /// The message in the bubble; an empty one does not count.
    pub open spec fn draft(self) -> Option<DraftView> {
        match self.role() {
            Some(role) => if self.content().len() > 0 {
                Some(DraftView { role, content: self.content(), timestamp: self.time() })
            } else {
                None
            },
            None => None,
        }
    }
}

/// The messages in a list of bubbles.
pub open spec fn bubble_drafts(bubbles: Seq<CursorBubbleView>) -> Seq<DraftView> {
    bubbles.filter_map(|b: CursorBubbleView| b.draft())
}

impl CursorBubble {
    /// The message in the bubble.
    pub fn draft(&self) -> (draft: Option<Draft>)
        ensures
            (match draft {
                Some(d) => Some(d@),
                None => None,
            }) == self@.draft(),
    {
        let role = match self.bubble_type {
            Some(1) => Role::User,
            Some(2) => Role::Assistant,
            _ => {
                return None;
            },
        };
        let content = match &self.text {
            Some(s) => s.clone(),
            None => match &self.rich_text {
                Some(s) => s.clone(),
                None => String::new(),
            },
        };
        if content.as_str().is_empty() {
            return None;
        }
        let timestamp = match self.timestamp {
            Some(ms) => Timestamp::from_millis(ms),
            None => None,
        };
        Some(Draft { role, content, timestamp })
    }
}

/// Turns legacy bubbles into messages, asking the clock for each time that is
/// missing.
pub fn bubbles_to_messages(bubbles: &Vec<CursorBubble>) -> (messages: Vec<Message>)
    ensures
        session::are_stamped(
            bubble_drafts(bubble_views(bubbles@)),
            session::message_views(messages@),
        ),
{
    let ghost views = bubble_views(bubbles@);
    let ghost f = |b: CursorBubbleView| b.draft();
    let mut drafts: Vec<Draft> = Vec::new();
    let mut i: usize = 0;
    proof {
        reveal(Seq::filter_map);
        assert(views.take(0).filter_map(f) =~= session::draft_views(drafts@));
    }
    while i < bubbles.len()
        invariant
            i <= bubbles@.len(),
            views == bubble_views(bubbles@),
            f == |b: CursorBubbleView| b.draft(),
            session::draft_views(drafts@) == views.take(i as int).filter_map(f),
        decreases bubbles@.len() - i,
    {
        let ghost before = drafts@;
        proof {
            assert(views.take(i + 1) =~= views.take(i as int).push(views[i as int]));
            lists::filter_map_of_push(views.take(i as int), views[i as int], f);
        }
        if let Some(draft) = bubbles[i].draft() {
            let ghost view = draft@;
            drafts.push(draft);
            assert(session::draft_views(drafts@) =~= session::draft_views(before).push(view));
        }
        i = i + 1;
    }
    assert(views.take(i as int) =~= views);
    session::stamp_all(drafts)
}

/// The text of one part of a content, where it is a part of text.
pub open spec fn part_text(part: JsonView) -> Option<Seq<char>> {
    if part.at("type"@).as_text() == Some("text"@) {
        part.at("text"@).as_text()
    } else {
        None
    }
}

/// The text of a content: itself, or its parts of text, one to a line.
pub open spec fn content_text(content: JsonView) -> Seq<char> {
    match content {
        JsonView::Text(s) => s,
        JsonView::Array(parts) => text::join(
            parts.filter_map(|p: JsonView| part_text(p)),
            seq!['\n'],
        ),
        _ => Seq::empty(),
    }
}

fn read_part(part: &Json) -> (s: Option<String>)
    ensures
        text::opt_view(s) == part_text(part@),
{
    match part.text_at("type") {
        Some(kind) => if text::same(&kind, "text") {
            part.text_at("text")
        } else {
            None
        },
        None => None,
    }
}

/// The text of a content.
pub fn extract_openai_content(content: &Json) -> (s: String)
    ensures
        s@ == content_text(content@),
{
    match content {
        Json::Text(s) => s.clone(),
        Json::Array(parts) => {
            let ghost views = json::item_views(parts@);
            let ghost f = |p: JsonView| part_text(p);
            proof {
                json::array_view(*parts);
                reveal(Seq::filter_map);
                reveal_strlit("\n");
                assert("\n"@ =~= seq!['\n']);
            }
            let mut out = String::new();
            let mut any = false;
            let mut i: usize = 0;
            while i < parts.len()
                invariant
                    i <= parts@.len(),
                    views == json::item_views(parts@),
                    f == |p: JsonView| part_text(p),
                    "\n"@ == seq!['\n'],
                    any == (views.take(i as int).filter_map(f).len() > 0),
                    out@ == text::join(views.take(i as int).filter_map(f), seq!['\n']),
                decreases parts@.len() - i,
            {
                let ghost done = views.take(i as int);
                proof {
                    assert(views.take(i + 1) =~= done.push(views[i as int]));
                    lists::filter_map_of_push(done, views[i as int], f);
                }
                if let Some(s) = read_part(&parts[i]) {
                    proof {
                        let pieces = done.filter_map(f);
                        assert(pieces.push(s@).drop_last() =~= pieces);
                    }
                    if any {
                        out.append("\n");
                    }
                    out.append(s.as_str());
                    any = true;
                }
                i = i + 1;
            }
            assert(views.take(i as int) =~= views);
            out
        },
        _ => String::new(),
    }
}

impl OpenAIMessageView {
    /// Who speaks in the message.
    pub open spec fn speaker(self) -> Option<Role> {
        if self.role == Some("user"@) {
            Some(Role::User)
        } else if self.role == Some("assistant"@) {
            Some(Role::Assistant)
        } else {
            None
        }
    }

    /// The text of the message.
    pub open spec fn text(self) -> Seq<char> {
        match self.content {
            Some(content) => content_text(content),
            None => Seq::empty(),
        }
    }

    /// The message, said at `time`; an empty one does not count.
    pub open spec fn message(self, time: Timestamp) -> Option<MessageView> {
        match self.speaker() {
            Some(role) => if self.text().len() > 0 {
                Some(MessageView { role, content: self.text(), timestamp: time })
            } else {
                None
            },
            None => None,
        }
    }
}

/// The messages of users and assistants in a list, all said at `time`.
pub open spec fn openai_messages(
    list: Seq<OpenAIMessageView>,
    time: Timestamp,
) -> Seq<MessageView> {
    list.filter_map(|m: OpenAIMessageView| m.message(time))
}

impl OpenAIMessage {
    /// The message, said at `time`.
    pub fn message(&self, time: Timestamp) -> (message: Option<Message>)
        ensures
            (match message {
                Some(m) => Some(m@),
                None => None,
            }) == self@.message(time),
    {
        proof {
            reveal_strlit("user");
            reveal_strlit("assistant");
            assert("user"@.len() == 4);
            assert("assistant"@.len() == 9);
        }
        let role = match &self.role {
            Some(role) => if text::same(role, "user") {
                Role::User
            } else if text::same(role, "assistant") {
                Role::Assistant
            } else {
                return None;
            },
            None => {
                return None;
            },
        };
        let content = match &self.content {
            Some(content) => extract_openai_content(content),
            None => String::new(),
        };
        if content.as_str().is_empty() {
            return None;
        }
        Some(Message { role, content, timestamp: time })
    }
}

/// The messages in rows in the current format; none has a time of its own, so
/// each is given `fallback_ts`.
pub fn read_openai_messages(
    rows: &Vec<Option<OpenAIMessage>>,
    fallback_ts: Timestamp,
) -> (messages: Vec<Message>)
    ensures
        session::message_views(messages@) == openai_messages(openai_views(rows@), fallback_ts),
{
    let ghost g = |m: Option<OpenAIMessage>| opt_openai_view(m);
    let ghost f = |m: OpenAIMessageView| m.message(fallback_ts);
    let mut messages: Vec<Message> = Vec::new();
    let mut i: usize = 0;
    proof {
        reveal(Seq::filter_map);
        assert(rows@.take(0).filter_map(g) =~= Seq::empty());
        assert(rows@.take(0).filter_map(g).filter_map(f) =~= session::message_views(messages@));
    }
    while i < rows.len()
        invariant
            i <= rows@.len(),
            g == |m: Option<OpenAIMessage>| opt_openai_view(m),
            f == |m: OpenAIMessageView| m.message(fallback_ts),
            session::message_views(messages@) == rows@.take(i as int).filter_map(g).filter_map(f),
        decreases rows@.len() - i,
    {
        let ghost before = messages@;
        let ghost done = rows@.take(i as int).filter_map(g);
        proof {
            assert(rows@.take(i + 1) =~= rows@.take(i as int).push(rows@[i as int]));
            lists::filter_map_of_push(rows@.take(i as int), rows@[i as int], g);
        }
        if let Some(row) = &rows[i] {
            proof {
                lists::filter_map_of_push(done, row@, f);
            }
            if let Some(message) = row.message(fallback_ts) {
                let ghost view = message@;
                messages.push(message);
                assert(session::message_views(messages@) =~= session::message_views(before).push(
                    view,
                ));
            }
        }
        i = i + 1;
    }
    assert(rows@.take(i as int) =~= rows@);
    messages
}

// ---------------------------------------------------------------------------
// Sessions

/// When the session was created, as its metadata tell.
pub open spec fn created_at(meta: Option<JsonView>) -> Option<Timestamp> {
    match meta {
        Some(value) => match value.at("createdAt"@).as_i64() {
            Some(ms) => timestamp::instant_of_millis(ms),
            None => None,
        },
        None => None,
    }
}

/// The working directory of the session, as its metadata tell.
pub open spec fn meta_cwd(meta: Option<JsonView>) -> Option<Seq<char>> {
    match meta {
        Some(value) => value.at("cwd"@).as_text(),
        None => None,
    }
}

/// The session at `path`, in a directory named `dir`, with the given metadata;
/// its messages are `messages`, and `now` is the time of a session that has
/// neither a message nor a creation time.
pub open spec fn session_of(
    path: Seq<char>,
    dir: Option<Seq<char>>,
    meta: Option<JsonView>,
    messages: Seq<MessageView>,
    now: Timestamp,
) -> SessionView {
    SessionView {
        id: lists::or_else(dir, "unknown"@),
        source: SessionSource::CursorCli,
        file_path: path,
        cwd: lists::or_else(meta_cwd(meta), "."@),
        git_branch: None,
        timestamp: lists::or_else(session::latest(messages), lists::or_else(created_at(meta), now)),
        messages: session::joined(messages),
    }
}

/// `messages` are those in the current format, timed by `time`, or, where there
/// are none, those in the legacy format.
pub open spec fn are_messages(
    messages: Seq<MessageView>,
    openai: Seq<OpenAIMessageView>,
    blobs: Seq<Seq<u8>>,
    time: Timestamp,
) -> bool {
    if openai_messages(openai, time).len() > 0 {
        messages == openai_messages(openai, time)
    } else {
        session::are_stamped(bubble_drafts(all_bubbles(blobs)), messages)
    }
}

/// `s` is the session that the database at `path`, in a directory named `dir`,
/// tells of, with some time of the clock wherever the database gives none.
pub open spec fn tells_of_in(
    path: Seq<char>,
    dir: Option<Seq<char>>,
    meta: Option<JsonView>,
    openai: Seq<OpenAIMessageView>,
    blobs: Seq<Seq<u8>>,
    s: SessionView,
) -> bool {
    exists|messages: Seq<MessageView>, now: Timestamp|
        now.may_be_now() && are_messages(
            messages,
            openai,
            blobs,
            lists::or_else(created_at(meta), now),
        ) && s == #[trigger] session_of(path, dir, meta, messages, now)
}

/// `s` is the session that the database at `path` tells of, with some time of
/// the clock wherever the database gives none.
pub open spec fn tells_of(
    path: Seq<char>,
    meta: Option<JsonView>,
    openai: Seq<OpenAIMessageView>,
    blobs: Seq<Seq<u8>>,
    s: SessionView,
) -> bool {
    exists|dir: Option<Seq<char>>|
        host_path::may_hold(dir, path) && #[trigger] tells_of_in(
            path,
            dir,
            meta,
            openai,
            blobs,
            s,
        )
}

/// The JSON value in an optional metadata text.
pub open spec fn opt_meta_json(meta: Option<&str>) -> Option<JsonView> {
    match meta {
        Some(s) => meta_json(s@),
        None => None,
    }
}

/// The rows that were read, none where reading failed.
pub open spec fn opt_openai_views(rows: Option<&Vec<Option<OpenAIMessage>>>) -> Seq<
    OpenAIMessageView,
> {
    match rows {
        Some(rows) => openai_views(rows@),
        None => Seq::empty(),
    }
}

/// The rows that were read, none where reading failed.
pub open spec fn opt_row_views(rows: Option<&Vec<Vec<u8>>>) -> Seq<Seq<u8>> {
    match rows {
        Some(rows) => row_views(rows@),
        None => Seq::empty(),
    }
}

/// `path` lies where the Cursor agent keeps its chats.
pub open spec fn in_chats(path: Seq<char>) -> bool {
    ||| text::occurs(".cursor/chats"@, path)
    ||| text::occurs(".cursor\\chats"@, path)
    ||| text::occurs(".config/cursor/chats"@, path)
    ||| text::occurs(".config\\cursor\\chats"@, path)
}

impl CursorParser {
    /// Whether the file at `path` is a chat's database.
    pub fn can_parse(path: &str) -> (r: bool)
        ensures
            r == (in_chats(path@) && "store.db"@.is_suffix_of(path@)),
    {
        (text::contains(path, ".cursor/chats") || text::contains(path, ".cursor\\chats")
            || text::contains(path, ".config/cursor/chats") || text::contains(
            path,
            ".config\\cursor\\chats",
        )) && text::ends_with(path, "store.db")
    }

    /// When the session was created, and its working directory.
    pub fn read_meta(meta: Option<&Json>) -> (facts: (Option<Timestamp>, Option<String>))
        ensures
            facts.0 == created_at(json::opt_ref_view(meta)),
            text::opt_view(facts.1) == meta_cwd(json::opt_ref_view(meta)),
    {
        match meta {
            Some(value) => {
                let created = match value.get("createdAt") {
                    Some(ms) => match ms.as_i64() {
                        Some(ms) => Timestamp::from_millis(ms),
                        None => None,
                    },
                    None => None,
                };
                (created, value.text_at("cwd"))
            },
            None => (None, None),
        }
    }

    /// Puts a session together from its metadata and its messages.
    pub fn assemble(
        path: &str,
        dir: Option<String>,
        meta: Option<&Json>,
        messages: Vec<Message>,
        now: Timestamp,
    ) -> (s: Session)
        ensures
            s@ == session_of(
                path@,
                text::opt_view(dir),
                json::opt_ref_view(meta),
                session::message_views(messages@),
                now,
            ),
    {
        let (created, cwd) = CursorParser::read_meta(meta);
        let timestamp = match session::latest_timestamp(&messages) {
            Some(t) => t,
            None => match created {
                Some(t) => t,
                None => now,
            },
        };
        Session {
            id: match dir {
                Some(name) => name,
                None => "unknown".to_owned(),
            },
            source: SessionSource::CursorCli,
            file_path: path.to_owned(),
            cwd: match cwd {
                Some(cwd) => cwd,
                None => ".".to_owned(),
            },
            git_branch: None,
            timestamp,
            messages: session::join_consecutive_messages(messages),
        }
    }

    /// The messages in the current format, or, where there are none, those in
    /// the legacy format.
    pub fn read_messages(
        openai: Option<&Vec<Option<OpenAIMessage>>>,
        blobs: Option<&Vec<Vec<u8>>>,
        fallback_ts: Timestamp,
    ) -> (messages: Vec<Message>)
        ensures
            are_messages(
                session::message_views(messages@),
                opt_openai_views(openai),
                opt_row_views(blobs),
                fallback_ts,
            ),
    {
        proof {
            reveal(Seq::filter_map);
        }
        if let Some(list) = openai {
            let messages = read_openai_messages(list, fallback_ts);
            if messages.len() > 0 {
                return messages;
            }
        }
        match blobs {
            Some(rows) => bubbles_to_messages(&read_blobs(rows)),
            None => {
                let none: Vec<Message> = Vec::new();
                assert(session::message_views(none@) =~= Seq::empty());
                none
            },
        }
    }

    /// The session that the database at `path`, in a directory named `dir`,
    /// tells of: `meta` is its metadata text, `openai` its blobs read as
    /// messages in the current format, and `blobs` its blobs as they are; each
    /// where it could be read.
    pub fn parse_rows(
        path: &str,
        dir: Option<String>,
        meta: Option<&str>,
        openai: Option<&Vec<Option<OpenAIMessage>>>,
        blobs: Option<&Vec<Vec<u8>>>,
    ) -> (s: Session)
        ensures
            tells_of_in(
                path@,
                text::opt_view(dir),
                opt_meta_json(meta),
                opt_openai_views(openai),
                opt_row_views(blobs),
                s@,
            ),
    {
        let value = match meta {
            Some(s) => decode_meta_value(s),
            None => None,
        };
        let now = Timestamp::now();
        let (created, _) = CursorParser::read_meta(value.as_ref());
        let fallback_ts = match created {
            Some(t) => t,
            None => now,
        };
        let messages = CursorParser::read_messages(openai, blobs, fallback_ts);
        let ghost views = session::message_views(messages@);
        let ghost dir_view = text::opt_view(dir);
        let s = CursorParser::assemble(path, dir, value.as_ref(), messages, now);
        assert(s@ == session_of(path@, dir_view, opt_meta_json(meta), views, now));
        s
    }

    /// The session that the database at `path` tells of, from the same rows.
    pub fn parse_file(
        path: &str,
        meta: Option<&str>,
        openai: Option<&Vec<Option<OpenAIMessage>>>,
        blobs: Option<&Vec<Vec<u8>>>,
    ) -> (s: Session)
        ensures
            tells_of(
                path@,
                opt_meta_json(meta),
                opt_openai_views(openai),
                opt_row_views(blobs),
                s@,
            ),
    {
        CursorParser::parse_rows(path, host_path::dir_name(path), meta, openai, blobs)
    }
}

// ---------------------------------------------------------------------------
// Laws

/// Metadata stored in hexadecimal read like the same metadata stored plainly,
/// as long as the hexadecimal text is no JSON of its own.
pub proof fn hex_metadata_read_alike(plain: Seq<char>, stored: Seq<char>)
    requires
        vstd::utf8::encode_utf8(stored) == codec::hex_text(vstd::utf8::encode_utf8(plain)),
        json::read_json(vstd::utf8::encode_utf8(plain)) is Some,
        json::read_json(vstd::utf8::encode_utf8(stored)) is None,
    ensures
        meta_json(stored) == meta_json(plain),
{
    codec::hex_round_trip(vstd::utf8::encode_utf8(plain));
}

/// Metadata that are a JSON object or array, stored in hexadecimal, read like the
/// same metadata stored plainly.
pub proof fn hex_objects_read_alike(plain: Seq<char>, stored: Seq<char>)
    requires
        plain.len() > 0,
        plain[0] == '{' || plain[0] == '[',
        json::read_json(vstd::utf8::encode_utf8(plain)) is Some,
        vstd::utf8::encode_utf8(stored) == codec::hex_text(vstd::utf8::encode_utf8(plain)),
    ensures
        meta_json(stored) == meta_json(plain),
        meta_json(plain) == json::read_json(vstd::utf8::encode_utf8(plain)),
        meta_json(plain) is Some,
{
    let bytes = vstd::utf8::encode_utf8(plain);
    first_byte(plain);
    let text = codec::hex_text(bytes);
    assert(text[0] == codec::hex_symbol(bytes[0] as int / 16));
    assert(text[1] == codec::hex_symbol(bytes[0] as int % 16));
    assert(json::starts_no_value(text));
    hex_metadata_read_alike(plain, stored);
}

/// A character under 128 is one byte.
proof fn first_byte(s: Seq<char>)
    requires
        s.len() > 0,
        s[0] as u32 <= 127,
    ensures
        vstd::utf8::encode_utf8(s).len() > 0,
        vstd::utf8::encode_utf8(s)[0] == s[0] as u32,
{
    let c = s[0] as u32;
    assert(vstd::utf8::encode_scalar(c)[0] == vstd::utf8::leading_byte_width_1(c));
    assert((c & 0x7F) as u8 == c) by (bit_vector)
        requires
            c <= 127,
    ;
}

/// A blob that is a JSON object or array, stored in base64, holds the bubbles of
/// the same blob stored plainly.
pub proof fn base64_objects_read_alike(plain: Seq<u8>)
    requires
        plain.len() > 0,
        plain[0] == 123 || plain[0] == 91,
        json::read_json(plain) is Some,
    ensures
        blob_bubbles(codec::base64_text(plain)) == blob_bubbles(plain),
{
    let a = plain[0];
    let b = if plain.len() > 1 { plain[1] } else { 0u8 };
    let c = if plain.len() > 2 { plain[2] } else { 0u8 };
    let text = codec::base64_text(plain);
    assert(text[0] == codec::base64_group(a, b, c)[0]);
    assert((a * 65536 + b * 256 + c) / 262144 == a / 4);
    assert(json::starts_no_value(text));
    base64_blobs_read_alike(plain);
}

/// A blob stored in base64 holds the bubbles of the same blob stored plainly,
/// as long as the base64 text is no JSON of its own.
pub proof fn base64_blobs_read_alike(plain: Seq<u8>)
    requires
        json::read_json(plain) is Some,
        json::read_json(codec::base64_text(plain)) is None,
    ensures
        blob_bubbles(codec::base64_text(plain)) == blob_bubbles(plain),
{
    codec::base64_round_trip(plain);
}

/// Every bubble that is read has a type.
pub proof fn read_bubbles_are_typed(value: JsonView)
    ensures
        forall|i: int|
            0 <= i < bubbles_in(value).len() ==> (
            #[trigger] bubbles_in(value)[i]).bubble_type is Some,
{
    let f = |v: JsonView| typed_bubble(v);
    assert forall|i: int| 0 <= i < bubbles_in(value).len() implies (
    #[trigger] bubbles_in(value)[i]).bubble_type is Some by {
        if typed_bubble(value) is None {
            if let JsonView::Array(items) = value {
                lists::sifted_from(items, f, i);
            } else if let Some(JsonView::Array(items)) = value.get("bubbles"@) {
                lists::sifted_from(items, f, i);
            }
        }
    }
}

/// The bubbles of two lists of blobs, one after the other, are those of each.
pub proof fn bubbles_of_sum(a: Seq<Seq<u8>>, b: Seq<Seq<u8>>)
    ensures
        all_bubbles(a + b) == all_bubbles(a) + all_bubbles(b),
    decreases b.len(),
{
    if b.len() == 0 {
        assert(a + b =~= a);
        assert(all_bubbles(a) + all_bubbles(b) =~= all_bubbles(a));
    } else {
        bubbles_of_sum(a, b.drop_last());
        assert((a + b).drop_last() =~= a + b.drop_last());
        assert(all_bubbles(a + b) =~= all_bubbles(a) + all_bubbles(b));
    }
}

/// What a session was put together from.
proof fn session_source(
    path: Seq<char>,
    meta: Option<JsonView>,
    openai: Seq<OpenAIMessageView>,
    blobs: Seq<Seq<u8>>,
    s: SessionView,
) -> (source: (Option<Seq<char>>, Seq<MessageView>, Timestamp))
    requires
        tells_of(path, meta, openai, blobs, s),
    ensures
        host_path::may_hold(source.0, path),
        are_messages(source.1, openai, blobs, lists::or_else(created_at(meta), source.2)),
        s == session_of(path, source.0, meta, source.1, source.2),
{
    let dir = choose|dir: Option<Seq<char>>|
        host_path::may_hold(dir, path) && #[trigger] tells_of_in(
            path,
            dir,
            meta,
            openai,
            blobs,
            s,
        );
    let (messages, now) = choose|messages: Seq<MessageView>, now: Timestamp|
        now.may_be_now() && are_messages(
            messages,
            openai,
            blobs,
            lists::or_else(created_at(meta), now),
        ) && s == #[trigger] session_of(path, dir, meta, messages, now);
    (dir, messages, now)
}

/// A session in the current format has the time of its creation, and so has
/// each of its messages.
pub proof fn openai_sessions_have_their_creation_time(
    path: Seq<char>,
    meta: Option<JsonView>,
    openai: Seq<OpenAIMessageView>,
    blobs: Seq<Seq<u8>>,
    s: SessionView,
)
    requires
        tells_of(path, meta, openai, blobs, s),
        created_at(meta) is Some,
        openai_messages(openai, created_at(meta)->0).len() > 0,
    ensures
        s.timestamp == created_at(meta)->0,
        forall|i: int|
            0 <= i < s.messages.len() ==> (#[trigger] s.messages[i]).timestamp == s.timestamp,
        s.messages == session::joined(openai_messages(openai, created_at(meta)->0)),
{
    let time = created_at(meta)->0;
    let messages = openai_messages(openai, time);
    let f = |m: OpenAIMessageView| m.message(time);
    assert forall|i: int| 0 <= i < messages.len() implies (#[trigger] messages[i]).timestamp
        == time by {
        lists::sifted_from(openai, f, i);
    }
    session::one_time_stays(messages, time);
}

/// The time of a session in the legacy format is that of its latest message:
/// no message has a later one, and where each message has a time it is the time
/// of one of them.
pub proof fn legacy_session_time_is_message_time(
    path: Seq<char>,
    meta: Option<JsonView>,
    openai: Seq<OpenAIMessageView>,
    blobs: Seq<Seq<u8>>,
    s: SessionView,
)
    requires
        tells_of(path, meta, openai, blobs, s),
        forall|t: Timestamp| (#[trigger] openai_messages(openai, t)).len() == 0,
        bubble_drafts(all_bubbles(blobs)).len() > 0,
    ensures
        ({
            let drafts = bubble_drafts(all_bubbles(blobs));
            &&& forall|i: int|
                0 <= i < drafts.len() ==> ((#[trigger] drafts[i]).timestamp matches Some(t)
                    ==> !t.after(s.timestamp))
            &&& (forall|i: int|
                0 <= i < drafts.len() ==> (#[trigger] drafts[i]).timestamp is Some) ==> exists|
                i: int,
            |
                0 <= i < drafts.len() && (#[trigger] drafts[i]).timestamp == Some(s.timestamp)
        }),
{
    let (dir, messages, now) = session_source(path, meta, openai, blobs, s);
    session::latest_of_stamped(bubble_drafts(all_bubbles(blobs)), messages);
}

/// Neighbouring messages of a session have different roles.
pub proof fn session_roles_alternate(
    path: Seq<char>,
    meta: Option<JsonView>,
    openai: Seq<OpenAIMessageView>,
    blobs: Seq<Seq<u8>>,
    s: SessionView,
)
    requires
        tells_of(path, meta, openai, blobs, s),
    ensures
        session::roles_alternate(s.messages),
{
    let (dir, messages, now) = session_source(path, meta, openai, blobs, s);
    session::joined_roles_alternate(messages);
}

} // verus!
