//! What holds of the reading of a Cursor database.

use vstd::prelude::*;

use crate::codec;
use crate::cursor;
use crate::cursor::CursorBubble;
use crate::cursor::CursorBubbleView;
use crate::cursor::OpenAIMessage;
use crate::cursor::OpenAIMessageView;
use crate::host_path;
use crate::json;
use crate::json::JsonView;
use crate::lists;
use crate::session;
use crate::session::DraftView;
use crate::session::MessageView;
use crate::session::Role;
use crate::session::SessionSource;
use crate::session::SessionView;
use crate::text;
use crate::timestamp;
use crate::timestamp::Timestamp;

verus! {

// ---------------------------------------------------------------------------
// Bubbles out of JSON

/// The four values of a bubble may be read: each is `null` or of its kind.
pub open spec fn are_bubble_fields(
    bubble_type: JsonView,
    text: JsonView,
    rich_text: JsonView,
    timestamp: JsonView,
) -> bool {
    &&& bubble_type is Null || (bubble_type matches JsonView::Number(Some(n)) && -2147483648 <= n
        <= 2147483647)
    &&& text is Null || text is Text
    &&& rich_text is Null || rich_text is Text
    &&& timestamp is Null || timestamp matches JsonView::Number(Some(_))
}

/// `bubble` has the four values: a number or a text as it is, and nothing for
/// `null`.
pub open spec fn has_fields(
    bubble: CursorBubbleView,
    bubble_type: JsonView,
    text: JsonView,
    rich_text: JsonView,
    timestamp: JsonView,
) -> bool {
    &&& bubble_type is Null ==> bubble.bubble_type is None
    &&& bubble_type matches JsonView::Number(Some(n)) ==> bubble.bubble_type == Some(n as i32)
    &&& text is Null ==> bubble.text is None
    &&& text matches JsonView::Text(s) ==> bubble.text == Some(s)
    &&& rich_text is Null ==> bubble.rich_text is None
    &&& rich_text matches JsonView::Text(s) ==> bubble.rich_text == Some(s)
    &&& timestamp is Null ==> bubble.timestamp is None
    &&& timestamp matches JsonView::Number(Some(n)) ==> bubble.timestamp == Some(n)
}

/// An object is a bubble where its fields `type`, `text`, `richText` and
/// `timestamp` may be read, a missing one as `null`, and the bubble has their
/// values.
pub proof fn objects_are_bubbles(value: JsonView)
    requires
        value is Object,
    ensures
        cursor::bubble_of(value) is Some <==> are_bubble_fields(
            value.at("type"@),
            value.at("text"@),
            value.at("richText"@),
            value.at("timestamp"@),
        ),
        cursor::bubble_of(value) matches Some(bubble) ==> has_fields(
            bubble,
            value.at("type"@),
            value.at("text"@),
            value.at("richText"@),
            value.at("timestamp"@),
        ),
{
}

/// An array is a bubble where it has four items that may be read as the four
/// values; nothing but objects and arrays is one.
pub proof fn arrays_of_four_are_bubbles(items: Seq<JsonView>, other: JsonView)
    requires
        other !is Object,
        other !is Array,
    ensures
        cursor::bubble_of(JsonView::Array(items)) is Some <==> items.len() == 4
            && are_bubble_fields(items[0], items[1], items[2], items[3]),
        cursor::bubble_of(JsonView::Array(items)) matches Some(bubble) ==> has_fields(
            bubble,
            items[0],
            items[1],
            items[2],
            items[3],
        ),
        cursor::bubble_of(other) is None,
{
}

/// A bubble counts where it has a type.
pub proof fn bubbles_with_a_type_count(value: JsonView)
    ensures
        cursor::bubble_of(value) matches Some(bubble) && bubble.bubble_type is Some
            ==> cursor::typed_bubble(value) == cursor::bubble_of(value),
        !(cursor::bubble_of(value) matches Some(bubble) && bubble.bubble_type is Some)
            ==> cursor::typed_bubble(value) is None,
{
}

/// An object with a number for its type and texts for its content is a bubble with
/// these values.
pub proof fn written_bubbles_are_read(
    value: JsonView,
    kind: i64,
    said: Seq<char>,
    ms: i64,
)
    requires
        value is Object,
        value.get("type"@) == Some(JsonView::Number(Some(kind))),
        -2147483648 <= kind <= 2147483647,
        value.get("text"@) == Some(JsonView::Text(said)),
        value.get("richText"@) is None,
        value.get("timestamp"@) == Some(JsonView::Number(Some(ms))),
    ensures
        cursor::bubbles_in(value) == seq![
            CursorBubbleView {
                bubble_type: Some(kind as i32),
                text: Some(said),
                rich_text: None,
                timestamp: Some(ms),
            },
        ],
{
}

/// The bubbles of an array of items, in order: two lists of items one after the
/// other give the bubbles of each, and one item gives itself where it is a bubble
/// with a type.
pub proof fn items_give_their_bubbles(a: Seq<JsonView>, b: Seq<JsonView>, item: JsonView)
    ensures
        cursor::typed_bubbles(a + b) == cursor::typed_bubbles(a) + cursor::typed_bubbles(b),
        cursor::typed_bubble(item) matches Some(bubble) ==> cursor::typed_bubbles(seq![item])
            == seq![bubble],
        cursor::typed_bubble(item) is None ==> cursor::typed_bubbles(seq![item]).len() == 0,
        cursor::typed_bubbles(Seq::empty()).len() == 0,
{
    let f = |v: JsonView| cursor::typed_bubble(v);
    lists::filter_map_of_sum(a, b, f);
    lists::filter_map_of_one(item, f);
}

/// Where each item is a bubble with a type, the `i`-th bubble is the `i`-th item.
proof fn typed_items_are_kept(items: Seq<JsonView>)
    requires
        forall|i: int| 0 <= i < items.len() ==> cursor::typed_bubble(#[trigger] items[i]) is Some,
    ensures
        cursor::typed_bubbles(items).len() == items.len(),
        forall|i: int|
            0 <= i < items.len() ==> Some(#[trigger] cursor::typed_bubbles(items)[i])
                == cursor::typed_bubble(items[i]),
    decreases items.len(),
{
    if items.len() == 0 {
        assert(items =~= Seq::empty());
        items_give_their_bubbles(items, items, JsonView::Null);
    } else {
        let head = items.drop_last();
        let last = items.last();
        assert(items[items.len() - 1] == last);
        assert forall|i: int| 0 <= i < head.len() implies cursor::typed_bubble(
            #[trigger] head[i],
        ) is Some by {
            assert(head[i] == items[i]);
        }
        typed_items_are_kept(head);
        items_give_their_bubbles(head, seq![last], last);
        assert(head + seq![last] =~= items);
        assert forall|i: int| 0 <= i < items.len() implies Some(
            #[trigger] cursor::typed_bubbles(items)[i],
        ) == cursor::typed_bubble(items[i]) by {
            if i < head.len() {
                assert(cursor::typed_bubbles(items)[i] == cursor::typed_bubbles(head)[i]);
                assert(head[i] == items[i]);
            }
        }
    }
}

/// All bubbles of an array are read, and all under `bubbles` in an object, in
/// order: where the value is no bubble itself and each item is one with a type,
/// the `i`-th bubble is the `i`-th item.
pub proof fn all_bubbles_of_a_list_are_read(value: JsonView, items: Seq<JsonView>)
    requires
        cursor::typed_bubble(value) is None,
        value == JsonView::Array(items) || (value is Object && value.get("bubbles"@) == Some(
            JsonView::Array(items),
        )),
        forall|i: int| 0 <= i < items.len() ==> cursor::typed_bubble(#[trigger] items[i]) is Some,
    ensures
        cursor::bubbles_in(value).len() == items.len(),
        forall|i: int|
            0 <= i < items.len() ==> Some(#[trigger] cursor::bubbles_in(value)[i])
                == cursor::typed_bubble(items[i]),
{
    typed_items_are_kept(items);
}

/// An item that is no bubble with a type takes nothing from the others, wherever
/// in the list it stands.
pub proof fn other_items_take_nothing(
    value: JsonView,
    fewer: JsonView,
    a: Seq<JsonView>,
    item: JsonView,
    b: Seq<JsonView>,
)
    requires
        cursor::typed_bubble(value) is None,
        cursor::typed_bubble(fewer) is None,
        cursor::typed_bubble(item) is None,
        value == JsonView::Array(a + seq![item] + b) || (value is Object && value.get("bubbles"@)
            == Some(JsonView::Array(a + seq![item] + b))),
        fewer == JsonView::Array(a + b) || (fewer is Object && fewer.get("bubbles"@) == Some(
            JsonView::Array(a + b),
        )),
    ensures
        cursor::bubbles_in(value) == cursor::bubbles_in(fewer),
{
    items_give_their_bubbles(a + seq![item], b, item);
    items_give_their_bubbles(a, seq![item], item);
    items_give_their_bubbles(a, b, item);
    assert(cursor::typed_bubbles(a) + cursor::typed_bubbles(seq![item]) =~= cursor::typed_bubbles(
        a,
    ));
}

/// A bubble with a type is the only one in itself; what is no such bubble, no
/// array and no object with an array under `bubbles` holds none.
pub proof fn single_bubbles_and_nothing(value: JsonView)
    ensures
        cursor::typed_bubble(value) matches Some(bubble) ==> cursor::bubbles_in(value)
            == seq![bubble],
        cursor::typed_bubble(value) is None && value !is Array && !(value.get("bubbles"@) is Some
            && value.get("bubbles"@)->0 is Array) ==> cursor::bubbles_in(value).len() == 0,
{
}

/// Bubbles hold what their fields hold, lists of them one for one.
pub proof fn bubbles_are_kept(bubble: CursorBubble, list: Seq<CursorBubble>, rows: Seq<Vec<u8>>)
    ensures
        bubble@.bubble_type == bubble.bubble_type,
        bubble@.text == text::opt_view(bubble.text),
        bubble@.rich_text == text::opt_view(bubble.rich_text),
        bubble@.timestamp == bubble.timestamp,
        cursor::bubble_views(list).len() == list.len(),
        forall|i: int| 0 <= i < list.len() ==> #[trigger] cursor::bubble_views(list)[i] == list[i]@,
        cursor::opt_bubble_view(Some(bubble)) == Some(bubble@),
        cursor::opt_bubble_view(None) is None,
        cursor::row_views(rows).len() == rows.len(),
        forall|i: int| 0 <= i < rows.len() ==> #[trigger] cursor::row_views(rows)[i] == rows[i]@,
{
}

// ---------------------------------------------------------------------------
// Blobs and metadata as stored

/// A metadata text is JSON as it stands, else JSON in hexadecimal digits, of
/// either case, else nothing.
pub proof fn metadata_are_plain_or_hexadecimal(s: Seq<char>)
    ensures
        ({
            let bytes = vstd::utf8::encode_utf8(s);
            &&& json::read_json(bytes) matches Some(value) ==> cursor::meta_json(s) == Some(value)
            &&& json::read_json(bytes) is None && codec::hex_decoded(bytes) is Some
                ==> cursor::meta_json(s) == json::read_json(codec::hex_decoded(bytes)->0)
            &&& json::read_json(bytes) is None && codec::hex_decoded(bytes) is None
                ==> cursor::meta_json(s) is None
        }),
{
}

/// A blob holds the bubbles of the JSON that it is, else of the JSON that it is in
/// base64, else none.
pub proof fn blobs_are_plain_or_base64(raw: Seq<u8>)
    ensures
        json::read_json(raw) matches Some(value) ==> cursor::blob_bubbles(raw)
            == cursor::bubbles_in(value),
        json::read_json(raw) is None && codec::base64_decoded(raw) is Some && json::read_json(
            codec::base64_decoded(raw)->0,
        ) is Some ==> cursor::blob_bubbles(raw) == cursor::bubbles_in(
            json::read_json(codec::base64_decoded(raw)->0)->0,
        ),
        json::read_json(raw) is None && !(codec::base64_decoded(raw) is Some && json::read_json(
            codec::base64_decoded(raw)->0,
        ) is Some) ==> cursor::blob_bubbles(raw).len() == 0,
{
}

/// A list of blobs holds the bubbles of each, in order.
pub proof fn each_blob_counts(raw: Seq<u8>)
    ensures
        cursor::all_bubbles(seq![raw]) == cursor::blob_bubbles(raw),
        cursor::all_bubbles(Seq::empty()).len() == 0,
{
    assert(seq![raw].drop_last() =~= Seq::empty());
    assert(cursor::all_bubbles(Seq::empty()) + cursor::blob_bubbles(raw) =~= cursor::blob_bubbles(
        raw,
    ));
}

/// What could be read counts; what could not is as if it were empty.
pub proof fn what_was_read_counts(
    s: &str,
    messages: &Vec<Option<OpenAIMessage>>,
    rows: &Vec<Vec<u8>>,
)
    ensures
        cursor::opt_meta_json(Some(s)) == cursor::meta_json(s@),
        cursor::opt_meta_json(None) is None,
        cursor::opt_openai_views(Some(messages)) == cursor::openai_views(messages@),
        cursor::opt_openai_views(None).len() == 0,
        cursor::opt_row_views(Some(rows)) == cursor::row_views(rows@),
        cursor::opt_row_views(None).len() == 0,
{
}

// ---------------------------------------------------------------------------
// Messages out of bubbles

/// The messages of two lists of bubbles, one after the other, are those of each.
pub proof fn messages_of_more_bubbles(a: Seq<CursorBubbleView>, b: Seq<CursorBubbleView>)
    ensures
        cursor::bubble_drafts(a + b) == cursor::bubble_drafts(a) + cursor::bubble_drafts(b),
        cursor::bubble_drafts(Seq::empty()).len() == 0,
{
    let f = |x: CursorBubbleView| x.draft();
    lists::filter_map_of_sum(a, b, f);
    reveal(Seq::filter_map);
}

/// A bubble of a user or an assistant with a content that is not empty is one
/// message: its text, else its rich text, at its own time.
pub proof fn bubbles_are_messages(x: CursorBubbleView, said: Seq<char>)
    requires
        x.bubble_type == Some(1i32) || x.bubble_type == Some(2i32),
        x.text == Some(said) || (x.text is None && x.rich_text == Some(said)),
        said.len() > 0,
    ensures
        ({
            let drafts = cursor::bubble_drafts(seq![x]);
            &&& drafts.len() == 1
            &&& drafts[0].content == said
            &&& x.bubble_type == Some(1i32) ==> drafts[0].role == Role::User
            &&& x.bubble_type == Some(2i32) ==> drafts[0].role == Role::Assistant
            &&& x.timestamp matches Some(ms) ==> drafts[0].timestamp
                == timestamp::instant_of_millis(ms)
            &&& x.timestamp is None ==> drafts[0].timestamp is None
        }),
{
    lists::filter_map_of_one(x, |b: CursorBubbleView| b.draft());
}

/// A bubble of another type, or with nothing to say, is no message. A text that is
/// empty hides the rich text.
pub proof fn other_bubbles_are_no_messages(x: CursorBubbleView)
    requires
        (x.bubble_type != Some(1i32) && x.bubble_type != Some(2i32)) || (x.text matches Some(s)
            && s.len() == 0) || (x.text is None && x.rich_text is None) || (x.text is None && x.rich_text == Some(
            Seq::<char>::empty(),
        )),
    ensures
        cursor::bubble_drafts(seq![x]).len() == 0,
{
    lists::filter_map_of_one(x, |b: CursorBubbleView| b.draft());
}

/// Each bubble of a list of bubbles of users and assistants that say something is
/// one message, in order.
pub proof fn messages_keep_the_order_of_bubbles(
    bubbles: Seq<CursorBubbleView>,
    said: Seq<Seq<char>>,
)
    requires
        said.len() == bubbles.len(),
        forall|i: int|
            0 <= i < bubbles.len() ==> ((#[trigger] bubbles[i]).bubble_type == Some(1i32)
                || bubbles[i].bubble_type == Some(2i32)) && bubbles[i].text == Some(said[i])
                && said[i].len() > 0,
    ensures
        cursor::bubble_drafts(bubbles).map_values(|d: DraftView| d.content) == said,
    decreases bubbles.len(),
{
    let of = |d: DraftView| d.content;
    if bubbles.len() == 0 {
        assert(bubbles =~= Seq::empty());
        messages_of_more_bubbles(bubbles, bubbles);
        assert(cursor::bubble_drafts(bubbles).map_values(of) =~= said);
    } else {
        let head = bubbles.drop_last();
        let x = bubbles.last();
        assert(bubbles[bubbles.len() - 1] == x);
        assert forall|i: int| 0 <= i < head.len() implies ((#[trigger] head[i]).bubble_type == Some(
            1i32,
        ) || head[i].bubble_type == Some(2i32)) && head[i].text == Some(said.drop_last()[i])
            && said.drop_last()[i].len() > 0 by {
            assert(head[i] == bubbles[i]);
        }
        messages_keep_the_order_of_bubbles(head, said.drop_last());
        bubbles_are_messages(x, said.last());
        messages_of_more_bubbles(head, seq![x]);
        assert(head + seq![x] =~= bubbles);
        let a = cursor::bubble_drafts(head);
        let b = cursor::bubble_drafts(seq![x]);
        assert((a + b).map_values(of) =~= a.map_values(of) + b.map_values(of));
        assert(b.map_values(of) =~= seq![said.last()]);
        assert(said.drop_last() + seq![said.last()] =~= said);
    }
}

// ---------------------------------------------------------------------------
// Messages in the current format

/// A content that is a text is that text; one that is neither a text nor an array
/// is empty.
pub proof fn texts_are_their_content(s: Seq<char>, other: JsonView)
    requires
        other !is Text,
        other !is Array,
    ensures
        cursor::content_text(JsonView::Text(s)) == s,
        cursor::content_text(other).len() == 0,
{
}

/// A part is a part of text where its type is `text` and its text is one.
proof fn text_of_part(part: JsonView)
    ensures
        part.get("type"@) == Some(JsonView::Text("text"@)) && part.get("text"@) is Some && part.get(
            "text"@,
        )->0 is Text ==> cursor::part_text(part) == Some(part.get("text"@)->0->Text_0),
        !(part.get("type"@) == Some(JsonView::Text("text"@)) && part.get("text"@) is Some
            && part.get("text"@)->0 is Text) ==> cursor::part_text(part) is None,
{
}

/// A content of parts of text is their texts, in order, one to a line.
pub proof fn parts_of_text_are_lines(parts: Seq<JsonView>, texts: Seq<Seq<char>>)
    requires
        texts.len() == parts.len(),
        forall|i: int|
            0 <= i < parts.len() ==> (#[trigger] parts[i]).get("type"@) == Some(
                JsonView::Text("text"@),
            ) && parts[i].get("text"@) == Some(JsonView::Text(texts[i])),
    ensures
        cursor::content_text(JsonView::Array(parts)) == text::join(texts, seq!['\n']),
{
    texts_of_parts(parts, texts);
}

proof fn texts_of_parts(parts: Seq<JsonView>, texts: Seq<Seq<char>>)
    requires
        texts.len() == parts.len(),
        forall|i: int|
            0 <= i < parts.len() ==> (#[trigger] parts[i]).get("type"@) == Some(
                JsonView::Text("text"@),
            ) && parts[i].get("text"@) == Some(JsonView::Text(texts[i])),
    ensures
        parts.filter_map(|p: JsonView| cursor::part_text(p)) == texts,
    decreases parts.len(),
{
    let f = |p: JsonView| cursor::part_text(p);
    if parts.len() == 0 {
        lists::filter_map_of_one(JsonView::Null, f);
        assert(parts =~= Seq::empty());
        assert(parts.filter_map(f) =~= texts);
    } else {
        let head = parts.drop_last();
        let part = parts.last();
        assert(parts[parts.len() - 1] == part);
        assert forall|i: int| 0 <= i < head.len() implies (#[trigger] head[i]).get("type"@) == Some(
            JsonView::Text("text"@),
        ) && head[i].get("text"@) == Some(JsonView::Text(texts.drop_last()[i])) by {
            assert(head[i] == parts[i]);
        }
        texts_of_parts(head, texts.drop_last());
        text_of_part(part);
        lists::filter_map_of_push(head, part, f);
        assert(head.push(part) =~= parts);
        assert(texts.drop_last().push(texts.last()) =~= texts);
    }
}

/// A part that is none of text takes nothing from the others, wherever it stands.
pub proof fn other_parts_take_nothing(a: Seq<JsonView>, part: JsonView, b: Seq<JsonView>)
    requires
        !(part.get("type"@) == Some(JsonView::Text("text"@)) && part.get("text"@) is Some
            && part.get("text"@)->0 is Text),
    ensures
        cursor::content_text(JsonView::Array(a + seq![part] + b)) == cursor::content_text(
            JsonView::Array(a + b),
        ),
{
    let f = |p: JsonView| cursor::part_text(p);
    text_of_part(part);
    lists::filter_map_of_sum(a + seq![part], b, f);
    lists::filter_map_of_sum(a, seq![part], f);
    lists::filter_map_of_sum(a, b, f);
    lists::filter_map_of_one(part, f);
    assert(a.filter_map(f) + seq![part].filter_map(f) =~= a.filter_map(f));
}

/// A row of a user or an assistant whose content says something is one message:
/// what the content says, by the one that the row names, at the given time. A text
/// says itself, and parts of text say their lines.
pub proof fn rows_are_messages(m: OpenAIMessageView, said: Seq<char>, time: Timestamp)
    requires
        m.role == Some("user"@) || m.role == Some("assistant"@),
        m.content == Some(JsonView::Text(said)) || (m.content is Some && m.content->0 is Array
            && cursor::content_text(m.content->0) == said),
        said.len() > 0,
    ensures
        m.role == Some("user"@) ==> cursor::openai_messages(seq![m], time) == seq![
            MessageView { role: Role::User, content: said, timestamp: time },
        ],
        m.role == Some("assistant"@) ==> cursor::openai_messages(seq![m], time) == seq![
            MessageView { role: Role::Assistant, content: said, timestamp: time },
        ],
{
    roles_differ();
    lists::filter_map_of_one(m, |x: OpenAIMessageView| x.message(time));
}

proof fn roles_differ()
    ensures
        "user"@ != "assistant"@,
{
    reveal_strlit("user");
    reveal_strlit("assistant");
    assert("user"@.len() == 4);
    assert("assistant"@.len() == 9);
}

/// A row whose content is an array of parts of text is one message with their
/// texts, one to a line.
pub proof fn rows_of_parts_are_messages(
    m: OpenAIMessageView,
    parts: Seq<JsonView>,
    texts: Seq<Seq<char>>,
    time: Timestamp,
)
    requires
        m.role == Some("user"@) || m.role == Some("assistant"@),
        m.content == Some(JsonView::Array(parts)),
        texts.len() == parts.len(),
        forall|i: int|
            0 <= i < parts.len() ==> (#[trigger] parts[i]).get("type"@) == Some(
                JsonView::Text("text"@),
            ) && parts[i].get("text"@) == Some(JsonView::Text(texts[i])),
        text::join(texts, seq!['\n']).len() > 0,
    ensures
        cursor::openai_messages(seq![m], time).len() == 1,
        cursor::openai_messages(seq![m], time)[0].content == text::join(texts, seq!['\n']),
        cursor::openai_messages(seq![m], time)[0].timestamp == time,
        m.role == Some("user"@) ==> cursor::openai_messages(seq![m], time)[0].role == Role::User,
        m.role == Some("assistant"@) ==> cursor::openai_messages(seq![m], time)[0].role
            == Role::Assistant,
{
    parts_of_text_are_lines(parts, texts);
    rows_are_messages(m, text::join(texts, seq!['\n']), time);
}

/// A row of another role, or whose content says nothing, is no message.
pub proof fn other_rows_are_no_messages(m: OpenAIMessageView, time: Timestamp)
    requires
        (m.role != Some("user"@) && m.role != Some("assistant"@)) || m.content is None || (
        m.content matches Some(content) && cursor::content_text(content).len() == 0),
    ensures
        cursor::openai_messages(seq![m], time).len() == 0,
{
    lists::filter_map_of_one(m, |x: OpenAIMessageView| x.message(time));
}

/// The messages of two lists of rows, one after the other, are those of each.
pub proof fn messages_of_more_rows(
    a: Seq<OpenAIMessageView>,
    b: Seq<OpenAIMessageView>,
    time: Timestamp,
)
    ensures
        cursor::openai_messages(a + b, time) == cursor::openai_messages(a, time)
            + cursor::openai_messages(b, time),
        cursor::openai_messages(Seq::empty(), time).len() == 0,
{
    let f = |x: OpenAIMessageView| x.message(time);
    lists::filter_map_of_sum(a, b, f);
    reveal(Seq::filter_map);
}

/// Rows that could be read count, in order and as they are; others do not.
pub proof fn readable_rows_count(
    a: Seq<Option<OpenAIMessage>>,
    b: Seq<Option<OpenAIMessage>>,
    m: OpenAIMessage,
)
    ensures
        cursor::openai_views(a + b) == cursor::openai_views(a) + cursor::openai_views(b),
        cursor::openai_views(seq![Some(m)]) == seq![m@],
        cursor::openai_views(seq![None]) == Seq::<OpenAIMessageView>::empty(),
        cursor::openai_views(Seq::empty()) == Seq::<OpenAIMessageView>::empty(),
        m@.role == text::opt_view(m.role),
        m@.content == json::opt_json_view(m.content),
{
    let f = |x: Option<OpenAIMessage>| cursor::opt_openai_view(x);
    lists::filter_map_of_sum(a, b, f);
    lists::filter_map_of_one(Some(m), f);
    lists::filter_map_of_one(None::<OpenAIMessage>, f);
}

// ---------------------------------------------------------------------------
// Sessions

/// The metadata give the time of creation where `createdAt` is a count of
/// milliseconds, and the working directory where `cwd` is a text.
pub proof fn metadata_give_time_and_directory(value: JsonView)
    ensures
        cursor::created_at(None) is None,
        cursor::meta_cwd(None) is None,
        value.get("createdAt"@) matches Some(JsonView::Number(Some(ms))) ==> cursor::created_at(
            Some(value),
        ) == timestamp::instant_of_millis(ms),
        !(value.get("createdAt"@) matches Some(JsonView::Number(Some(_)))) ==> cursor::created_at(
            Some(value),
        ) is None,
        value.get("cwd"@) matches Some(JsonView::Text(cwd)) ==> cursor::meta_cwd(Some(value))
            == Some(cwd),
        !(value.get("cwd"@) matches Some(JsonView::Text(_))) ==> cursor::meta_cwd(
            Some(value),
        ) is None,
{
}

/// A session holds what its database tells: the name of its directory, else
/// `unknown`; the working directory, else `.`; the messages in the current format,
/// where there are any, each at the time of creation where that is known, and else
/// all in the legacy format; and the latest of their times, else that of creation.
pub proof fn sessions_hold_what_databases_tell(
    path: Seq<char>,
    dir: Option<Seq<char>>,
    meta: Option<JsonView>,
    openai: Seq<OpenAIMessageView>,
    blobs: Seq<Seq<u8>>,
    s: SessionView,
)
    requires
        cursor::tells_of_in(path, dir, meta, openai, blobs, s),
    ensures
        s.source == SessionSource::CursorCli,
        s.file_path == path,
        dir matches Some(name) ==> s.id == name,
        dir is None ==> s.id == "unknown"@,
        cursor::meta_cwd(meta) matches Some(cwd) ==> s.cwd == cwd,
        cursor::meta_cwd(meta) is None ==> s.cwd == "."@,
        s.git_branch is None,
        exists|messages: Seq<MessageView>, time: Timestamp|
            {
                &&& s.messages == #[trigger] session::joined(messages)
                &&& cursor::created_at(meta) matches Some(t) ==> time == t
                &&& cursor::created_at(meta) is None ==> time.may_be_now()
                &&& messages.len() > 0 ==> session::latest(messages) == Some(s.timestamp)
                &&& messages.len() == 0 ==> s.timestamp == time
                &&& (#[trigger] cursor::openai_messages(openai, time)).len() > 0 ==> messages
                    == cursor::openai_messages(openai, time)
                &&& cursor::openai_messages(openai, time).len() == 0 ==> {
                    let drafts = cursor::bubble_drafts(cursor::all_bubbles(blobs));
                    &&& messages.len() == drafts.len()
                    &&& forall|i: int|
                        0 <= i < drafts.len() ==> (#[trigger] messages[i]).role == drafts[i].role
                            && messages[i].content == drafts[i].content && (
                        drafts[i].timestamp matches Some(t) ==> messages[i].timestamp == t)
                }
            },
{
    let (messages, now) = choose|messages: Seq<MessageView>, now: Timestamp|
        now.may_be_now() && cursor::are_messages(
            messages,
            openai,
            blobs,
            lists::or_else(cursor::created_at(meta), now),
        ) && s == #[trigger] cursor::session_of(path, dir, meta, messages, now);
    let time = lists::or_else(cursor::created_at(meta), now);
    session::latest_is_the_greatest(messages);
    let drafts = cursor::bubble_drafts(cursor::all_bubbles(blobs));
    if cursor::openai_messages(openai, time).len() == 0 {
        session::stamped_drafts_are_the_messages(drafts, messages);
    }
    assert(s.messages == session::joined(messages));
}

/// A session at a path goes by the name of its directory.
pub proof fn sessions_go_by_their_directory(
    base: Seq<char>,
    dir: Seq<char>,
    file: Seq<char>,
    meta: Option<JsonView>,
    openai: Seq<OpenAIMessageView>,
    blobs: Seq<Seq<u8>>,
    s: SessionView,
)
    requires
        dir.len() > 0 && !dir.contains('/') && dir != seq!['.'] && dir != seq!['.', '.'],
        file.len() > 0 && !file.contains('/') && file != seq!['.'],
        host_path::is_portable(base + seq!['/'] + dir + seq!['/'] + file),
        cursor::tells_of(base + seq!['/'] + dir + seq!['/'] + file, meta, openai, blobs, s),
    ensures
        s.id == dir,
        s.file_path == base + seq!['/'] + dir + seq!['/'] + file,
{
    let path = base + seq!['/'] + dir + seq!['/'] + file;
    let name = choose|name: Option<Seq<char>>|
        host_path::may_hold(name, path) && #[trigger] cursor::tells_of_in(
            path,
            name,
            meta,
            openai,
            blobs,
            s,
        );
    host_path::the_holder_stands_before_the_file(base, dir, file, name);
    sessions_hold_what_databases_tell(path, name, meta, openai, blobs, s);
}

/// What a database tells of a path is told in one of the directories that may hold
/// it.
pub proof fn sessions_are_told_in_their_directory(
    path: Seq<char>,
    meta: Option<JsonView>,
    openai: Seq<OpenAIMessageView>,
    blobs: Seq<Seq<u8>>,
    s: SessionView,
)
    requires
        cursor::tells_of(path, meta, openai, blobs, s),
    ensures
        exists|dir: Option<Seq<char>>|
            host_path::may_hold(dir, path) && #[trigger] cursor::tells_of_in(
                path,
                dir,
                meta,
                openai,
                blobs,
                s,
            ),
{
}

/// The messages of a database are those in the current format where there are any,
/// and else those of its bubbles, one for one.
pub proof fn the_current_format_comes_first(
    messages: Seq<MessageView>,
    openai: Seq<OpenAIMessageView>,
    blobs: Seq<Seq<u8>>,
    time: Timestamp,
)
    requires
        cursor::are_messages(messages, openai, blobs, time),
    ensures
        cursor::openai_messages(openai, time).len() > 0 ==> messages == cursor::openai_messages(
            openai,
            time,
        ),
        cursor::openai_messages(openai, time).len() == 0 ==> {
            let drafts = cursor::bubble_drafts(cursor::all_bubbles(blobs));
            &&& messages.len() == drafts.len()
            &&& forall|i: int|
                0 <= i < drafts.len() ==> (#[trigger] messages[i]).role == drafts[i].role
                    && messages[i].content == drafts[i].content && (
                drafts[i].timestamp matches Some(t) ==> messages[i].timestamp == t)
        },
{
    if cursor::openai_messages(openai, time).len() == 0 {
        session::stamped_drafts_are_the_messages(
            cursor::bubble_drafts(cursor::all_bubbles(blobs)),
            messages,
        );
    }
}

/// A session in the current format says what its rows say, in order.
pub proof fn sessions_say_what_rows_say(
    path: Seq<char>,
    dir: Option<Seq<char>>,
    meta: Option<JsonView>,
    openai: Seq<OpenAIMessageView>,
    blobs: Seq<Seq<u8>>,
    s: SessionView,
)
    requires
        cursor::tells_of_in(path, dir, meta, openai, blobs, s),
        cursor::created_at(meta) is Some,
        cursor::openai_messages(openai, cursor::created_at(meta)->0).len() > 0,
    ensures
        text::join(s.messages.map_values(|m: MessageView| m.content), seq!['\n', '\n'])
            == text::join(
            cursor::openai_messages(openai, cursor::created_at(meta)->0).map_values(
                |m: MessageView| m.content,
            ),
            seq!['\n', '\n'],
        ),
        s.timestamp == cursor::created_at(meta)->0,
{
    let time = cursor::created_at(meta)->0;
    let messages = cursor::openai_messages(openai, time);
    let f = |m: OpenAIMessageView| m.message(time);
    assert forall|i: int| 0 <= i < messages.len() implies (#[trigger] messages[i]).timestamp
        == time by {
        lists::sifted_from(openai, f, i);
    }
    session::one_time_stays(messages, time);
    session::joining_keeps_the_text(messages);
    assert(s.messages.map_values(|m: MessageView| m.content) =~= session::contents(s.messages));
    assert(messages.map_values(|m: MessageView| m.content) =~= session::contents(messages));
}

/// A session in the legacy format says what its bubbles say, in order.
pub proof fn sessions_say_what_bubbles_say(
    path: Seq<char>,
    dir: Option<Seq<char>>,
    meta: Option<JsonView>,
    openai: Seq<OpenAIMessageView>,
    blobs: Seq<Seq<u8>>,
    s: SessionView,
)
    requires
        cursor::tells_of_in(path, dir, meta, openai, blobs, s),
        forall|t: Timestamp| (#[trigger] cursor::openai_messages(openai, t)).len() == 0,
    ensures
        text::join(s.messages.map_values(|m: MessageView| m.content), seq!['\n', '\n'])
            == text::join(
            cursor::bubble_drafts(cursor::all_bubbles(blobs)).map_values(|d: DraftView| d.content),
            seq!['\n', '\n'],
        ),
{
    let (messages, now) = choose|messages: Seq<MessageView>, now: Timestamp|
        now.may_be_now() && cursor::are_messages(
            messages,
            openai,
            blobs,
            lists::or_else(cursor::created_at(meta), now),
        ) && s == #[trigger] cursor::session_of(path, dir, meta, messages, now);
    session::stamped_drafts_are_the_messages(
        cursor::bubble_drafts(cursor::all_bubbles(blobs)),
        messages,
    );
    session::joining_keeps_the_text(messages);
    assert(s.messages.map_values(|m: MessageView| m.content) =~= session::contents(s.messages));
}

// ---------------------------------------------------------------------------
// Places

/// A path lies where chats are kept where it holds the name of that directory, in
/// the home directory or in that for configuration, written with `/` or with `\`,
/// and nowhere else.
pub proof fn chats_are_known_by_their_name(path: Seq<char>)
    ensures
        cursor::in_chats(path) <==> {
            ||| exists|a: Seq<char>, b: Seq<char>| path == #[trigger] (a + ".cursor/chats"@ + b)
            ||| exists|a: Seq<char>, b: Seq<char>| path == #[trigger] (a + ".cursor\\chats"@ + b)
            ||| exists|a: Seq<char>, b: Seq<char>|
                path == #[trigger] (a + ".config/cursor/chats"@ + b)
            ||| exists|a: Seq<char>, b: Seq<char>|
                path == #[trigger] (a + ".config\\cursor\\chats"@ + b)
        },
{
    text::what_occurs_stands_between(".cursor/chats"@, path);
    text::what_occurs_stands_between(".cursor\\chats"@, path);
    text::what_occurs_stands_between(".config/cursor/chats"@, path);
    text::what_occurs_stands_between(".config\\cursor\\chats"@, path);
}

/// A bubble and a row are the messages that a list of them alone gives.
pub proof fn single_messages_are_those_of_the_list(
    x: CursorBubbleView,
    m: OpenAIMessageView,
    time: Timestamp,
)
    ensures
        x.draft() matches Some(d) ==> cursor::bubble_drafts(seq![x]) == seq![d],
        x.draft() is None ==> cursor::bubble_drafts(seq![x]).len() == 0,
        m.message(time) matches Some(said) ==> cursor::openai_messages(seq![m], time) == seq![said],
        m.message(time) is None ==> cursor::openai_messages(seq![m], time).len() == 0,
{
    lists::filter_map_of_one(x, |b: CursorBubbleView| b.draft());
    lists::filter_map_of_one(m, |r: OpenAIMessageView| r.message(time));
}

/// A session is put together from its metadata and its messages.
pub proof fn sessions_are_put_together(
    path: Seq<char>,
    dir: Option<Seq<char>>,
    meta: Option<JsonView>,
    messages: Seq<MessageView>,
    now: Timestamp,
)
    ensures
        ({
            let s = cursor::session_of(path, dir, meta, messages, now);
            &&& s.source == SessionSource::CursorCli
            &&& s.file_path == path
            &&& dir matches Some(name) ==> s.id == name
            &&& dir is None ==> s.id == "unknown"@
            &&& cursor::meta_cwd(meta) matches Some(cwd) ==> s.cwd == cwd
            &&& cursor::meta_cwd(meta) is None ==> s.cwd == "."@
            &&& s.git_branch is None
            &&& s.messages == session::joined(messages)
            &&& messages.len() > 0 ==> Some(s.timestamp) == session::latest(messages)
            &&& messages.len() == 0 && cursor::created_at(meta) is Some ==> s.timestamp
                == cursor::created_at(meta)->0
            &&& messages.len() == 0 && cursor::created_at(meta) is None ==> s.timestamp == now
        }),
{
    session::latest_is_the_greatest(messages);
}

} // verus!
