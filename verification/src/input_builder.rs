//! What is written to the standard input of the command-line model: one user turn as one line of
//! JSON, with its images inline, and for a new session the rest of the conversation around it.

use crate::base64_text::{base64_encode, base64_len, base64_text};
use crate::json::{
    json_array, json_of, json_parse, json_string, json_text, max_depth, object_of_three,
    object_of_two, plain, two_fields, value_text, Json,
};
use crate::text::{
    ascii_lower, begins_with, cat, ends_lowered, ends_with_lowered, find_from, first_occurrence,
    join, joined, law_a_prefix_and_the_rest_make_the_text, occurs_at, occurs_in, same, starts_with,
    texts, to_chars,
};
use vstd::prelude::*;
use vstd::utf8::encode_utf8;

verus! {

/// A message of the conversation. `prose` is its content without the image markers.
#[derive(Debug, PartialEq, Eq)]
pub struct ChatMessage {
    pub role: String,
    pub content: String,
    pub prose: String,
}

/// What a [`ChatMessage`] says.
pub struct ChatMessageView {
    pub role: Seq<char>,
    pub content: Seq<char>,
    pub prose: Seq<char>,
}

impl View for ChatMessage {
    type V = ChatMessageView;

    open spec fn view(&self) -> ChatMessageView {
        ChatMessageView { role: self.role@, content: self.content@, prose: self.prose@ }
    }
}

/// What each of some messages says.
pub open spec fn message_views(messages: Seq<ChatMessage>) -> Seq<ChatMessageView> {
    messages.map_values(|message: ChatMessage| message@)
}

/// A file that a message refers to: whether it is one of the managed attachments, and what reading
/// it gave, where it could be read.
#[derive(Debug, PartialEq, Eq)]
pub struct AttachedFile {
    pub path: String,
    pub managed: bool,
    pub bytes: Option<Vec<u8>>,
}

/// The bytes of the file at `path`, where it is a managed attachment that could be read.
pub open spec fn bytes_at(files: Seq<AttachedFile>, path: Seq<char>, from: int) -> Option<Seq<u8>>
    decreases files.len() - from,
{
    if from < 0 || from >= files.len() {
        None
    } else if files[from].path@ == path {
        match files[from].bytes {
            Some(bytes) => if files[from].managed {
                Some(bytes@)
            } else {
                None
            },
            None => None,
        }
    } else {
        bytes_at(files, path, from + 1)
    }
}

/// The Base64 text of every file fits in memory.
pub open spec fn encodable(files: Seq<AttachedFile>) -> bool {
    forall|i: int|
        0 <= i < files.len() && (#[trigger] files[i]).bytes is Some ==> base64_len(
            files[i].bytes->0@.len(),
        ) <= isize::MAX
}

/// Whether the Base64 text of every file fits in memory.
pub fn can_encode(files: &Vec<AttachedFile>) -> (r: bool)
    ensures
        r == encodable(files@),
{
    let mut i: usize = 0;
    while i < files.len()
        invariant
            i <= files@.len(),
            forall|k: int|
                0 <= k < i && (#[trigger] files@[k]).bytes is Some ==> base64_len(
                    files@[k].bytes->0@.len(),
                ) <= isize::MAX,
        decreases files@.len() - i,
    {
        if let Some(bytes) = &files[i].bytes {
            let groups: u128 = (bytes.len() as u128 + 2) / 3;
            if 4 * groups > isize::MAX as u128 {
                assert(files@[i as int].bytes is Some);
                return false;
            }
        }
        i = i + 1;
    }
    true
}

/// A part of a message: prose, or the reference of an image marker.
pub enum Segment {
    Prose(Seq<char>),
    Image(Seq<char>),
}

/// How an image marker begins.
pub const MARKER: &'static str = "[IMAGE:";

/// What ends an image marker.
pub const MARKER_END: &'static str = "]";

/// An image marker stands at or behind `from`: it begins at `start`, and the first bracket that
/// closes behind its begin closes it at `end`.
pub open spec fn marker(raw: Seq<char>, from: int, start: int, end: int) -> bool {
    &&& first_occurrence(raw, MARKER@, from, start)
    &&& first_occurrence(raw, MARKER_END@, start, end)
}

/// Some image marker stands at or behind `from`.
pub open spec fn has_marker(raw: Seq<char>, from: int) -> bool {
    exists|start: int, end: int| #[trigger] marker(raw, from, start, end)
}

/// Where the next image marker begins and ends.
pub open spec fn next_marker(raw: Seq<char>, from: int) -> (int, int) {
    choose|start: int, end: int| #[trigger] marker(raw, from, start, end)
}

/// The prose between two places, where there is any.
pub open spec fn prose(raw: Seq<char>, from: int, to: int) -> Seq<Segment> {
    if from < to {
        seq![Segment::Prose(raw.subrange(from, to))]
    } else {
        Seq::empty()
    }
}

/// The parts of a message from the place `from` on. A marker that is not closed is prose.
pub open spec fn segments(raw: Seq<char>, from: int) -> Seq<Segment>
    decreases raw.len() - from,
{
    let (start, end) = next_marker(raw, from);
    if has_marker(raw, from) && from <= start && start + MARKER@.len() <= end && end
        < raw.len() {
        prose(raw, from, start) + seq![
            Segment::Image(raw.subrange(start + MARKER@.len(), end)),
        ] + segments(raw, end + 1)
    } else {
        prose(raw, from, raw.len() as int)
    }
}

/// The text of a message that has those parts.
pub open spec fn spelled(parts: Seq<Segment>) -> Seq<char>
    decreases parts.len(),
{
    if parts.len() == 0 {
        Seq::empty()
    } else {
        spelled(parts.drop_last()) + match parts.last() {
            Segment::Prose(text) => text,
            Segment::Image(reference) => MARKER@ + reference + MARKER_END@,
        }
    }
}

/// The text block of some prose.
pub open spec fn text_block(text: Seq<char>) -> Json {
    Json::Obj(two_fields("type"@, Json::Str("text"@), "text"@, Json::Str(text)))
}

/// The image block of some Base64 data.
pub open spec fn image_json(media_type: Seq<char>, data: Seq<char>) -> Json {
    Json::Obj(
        two_fields(
            "type"@,
            Json::Str("image"@),
            "source"@,
            Json::Obj(
                two_fields(
                    "type"@,
                    Json::Str("base64"@),
                    "media_type"@,
                    Json::Str(media_type),
                ).insert("data"@, Json::Str(data)),
            ),
        ),
    )
}

/// The media type that the extension of a path stands for.
pub open spec fn media_type(path: Seq<char>) -> Seq<char> {
    if ends_with_lowered(path, ".png"@) {
        "image/png"@
    } else if ends_with_lowered(path, ".gif"@) {
        "image/gif"@
    } else if ends_with_lowered(path, ".webp"@) {
        "image/webp"@
    } else {
        "image/jpeg"@
    }
}

/// The image block of a reference, where the reference resolves: a `data:` reference that holds
/// Base64 data as it stands, or the bytes of a managed attachment.
pub open spec fn image_of(reference: Seq<char>, files: Seq<AttachedFile>) -> Option<Json> {
    if begins_with(reference, "data:"@) {
        let rest = reference.skip("data:"@.len() as int);
        if exists|i: int| first_occurrence(rest, ";base64,"@, 0, i) {
            let i = choose|i: int| first_occurrence(rest, ";base64,"@, 0, i);
            Some(image_json(rest.take(i), rest.skip(i + ";base64,"@.len())))
        } else {
            None
        }
    } else {
        match bytes_at(files, reference, 0) {
            Some(bytes) => Some(image_json(media_type(reference), base64_text(bytes))),
            None => None,
        }
    }
}

/// What stands in place of an image whose reference does not resolve.
pub const UNREADABLE_IMAGE: &'static str = "[an attached image could not be read]";

/// The content block of a part of a message.
pub open spec fn block(part: Segment, files: Seq<AttachedFile>) -> Json {
    match part {
        Segment::Prose(text) => text_block(text),
        Segment::Image(reference) => match image_of(reference, files) {
            Some(image) => image,
            None => text_block(UNREADABLE_IMAGE@),
        },
    }
}

/// The content blocks of a message; an empty message is one empty text block.
pub open spec fn blocks(raw: Seq<char>, files: Seq<AttachedFile>) -> Seq<Json> {
    if raw.len() == 0 {
        seq![text_block(raw)]
    } else {
        segments(raw, 0).map_values(|part: Segment| block(part, files))
    }
}

/// A marker ends behind its begin, and no two stand next.
proof fn lemma_marker(raw: Seq<char>, from: int, start: int, end: int)
    requires
        0 <= from,
        marker(raw, from, start, end),
    ensures
        from <= start,
        start + MARKER@.len() <= end < raw.len(),
        next_marker(raw, from) == (start, end),
        has_marker(raw, from),
{
    reveal_strlit("[IMAGE:");
    reveal_strlit("]");
    let head = raw.subrange(start, start + MARKER@.len());
    assert(raw.subrange(end, end + 1)[0] == ']');
    if end < start + MARKER@.len() {
        assert(head[end - start] == raw[end]);
        assert(raw[end] == ']');
        assert(MARKER@[end - start] == ']');
    }
    let (s, e) = next_marker(raw, from);
    assert(marker(raw, from, s, e));
    if s < start {
        assert(occurs_at(raw, MARKER@, s));
    }
    if start < s {
        assert(occurs_at(raw, MARKER@, start));
    }
    if e < end {
        assert(occurs_at(raw, MARKER_END@, e));
    }
    if end < e {
        assert(occurs_at(raw, MARKER_END@, end));
    }
}

/// The parts of a message spell it out: no character is lost and none is added.
pub proof fn law_segments_spell_the_message(raw: Seq<char>, from: int)
    requires
        0 <= from <= raw.len(),
    ensures
        spelled(segments(raw, from)) == raw.skip(from),
    decreases raw.len() - from,
{
    reveal_strlit("[IMAGE:");
    reveal_strlit("]");
    if has_marker(raw, from) {
        let (start, end) = next_marker(raw, from);
        assert(marker(raw, from, start, end));
        lemma_marker(raw, from, start, end);
        law_segments_spell_the_message(raw, end + 1);
        let reference = raw.subrange(start + MARKER@.len(), end);
        let image = seq![Segment::Image(reference)];
        lemma_spelled(prose(raw, from, start) + image, segments(raw, end + 1));
        lemma_spelled(prose(raw, from, start), image);
        lemma_spelled_one(Segment::Image(reference));
        lemma_spelled_prose(raw, from, start);
        assert(raw.subrange(start, start + MARKER@.len()) == MARKER@);
        assert(raw.subrange(end, end + 1) == MARKER_END@);
        assert(raw.skip(from) =~= raw.subrange(from, start) + (MARKER@ + reference + MARKER_END@)
            + raw.skip(end + 1)) by {
            assert forall|i: int| 0 <= i < raw.len() - from implies raw.skip(from)[i] == (
            raw.subrange(from, start) + (MARKER@ + reference + MARKER_END@) + raw.skip(
                end + 1,
            ))[i] by {
                let at = from + i;
                if start <= at < start + MARKER@.len() {
                    assert(raw.subrange(start, start + MARKER@.len())[at - start] == raw[at]);
                }
                if at == end {
                    assert(raw.subrange(end, end + 1)[0] == raw[at]);
                }
            }
        }
    } else {
        lemma_spelled_prose(raw, from, raw.len() as int);
        assert(raw.subrange(from, raw.len() as int) =~= raw.skip(from));
    }
}

proof fn lemma_spelled(a: Seq<Segment>, b: Seq<Segment>)
    ensures
        spelled(a + b) == spelled(a) + spelled(b),
    decreases b.len(),
{
    if b.len() == 0 {
        assert(a + b =~= a);
    } else {
        assert((a + b).drop_last() =~= a + b.drop_last());
        assert((a + b).last() == b.last());
        lemma_spelled(a, b.drop_last());
        assert(spelled(a + b) =~= spelled(a) + spelled(b));
    }
}

proof fn lemma_spelled_one(part: Segment)
    ensures
        spelled(seq![part]) == match part {
            Segment::Prose(text) => text,
            Segment::Image(reference) => MARKER@ + reference + MARKER_END@,
        },
{
    reveal_with_fuel(spelled, 2);
    let one = seq![part];
    assert(one.drop_last() =~= Seq::empty());
    assert(one.last() == part);
    assert(spelled(one) =~= match part {
        Segment::Prose(text) => text,
        Segment::Image(reference) => MARKER@ + reference + MARKER_END@,
    });
}

proof fn lemma_spelled_prose(raw: Seq<char>, from: int, to: int)
    requires
        0 <= from <= to <= raw.len(),
    ensures
        spelled(prose(raw, from, to)) == raw.subrange(from, to),
{
    if from < to {
        lemma_spelled_one(Segment::Prose(raw.subrange(from, to)));
    } else {
        assert(raw.subrange(from, to) =~= Seq::empty());
    }
}

/// What each of some values holds.
pub open spec fn json_values(values: Seq<serde_json::Value>) -> Seq<Json> {
    values.map_values(|value: serde_json::Value| json_of(value))
}

/// The text block of some prose.
pub fn text_value(text: &str) -> (r: serde_json::Value)
    ensures
        json_of(r) == text_block(text@),
{
    object_of_two("type", json_string("text"), "text", json_string(text))
}

/// The image block of some Base64 data.
pub fn image_value(media_type: &str, data: &str) -> (r: serde_json::Value)
    ensures
        json_of(r) == image_json(media_type@, data@),
{
    object_of_two(
        "type",
        json_string("image"),
        "source",
        object_of_three(
            "type",
            json_string("base64"),
            "media_type",
            json_string(media_type),
            "data",
            json_string(data),
        ),
    )
}

/// The media type that the extension of a path stands for; a JPEG where it stands for none.
pub fn media_type_from_path(path: &str) -> (r: String)
    ensures
        r@ == media_type(path@),
{
    if ends_lowered(path, ".png") {
        "image/png".to_owned()
    } else if ends_lowered(path, ".gif") {
        "image/gif".to_owned()
    } else if ends_lowered(path, ".webp") {
        "image/webp".to_owned()
    } else {
        "image/jpeg".to_owned()
    }
}

/// The place of the file at `path` among the files.
fn file_place(files: &Vec<AttachedFile>, path: &str) -> (r: Option<usize>)
    ensures
        match r {
            Some(i) => i < files@.len() && bytes_at(files@, path@, 0) == bytes_at(
                files@,
                path@,
                i as int,
            ) && files@[i as int].path@ == path@,
            None => bytes_at(files@, path@, 0) is None,
        },
{
    let mut i: usize = 0;
    while i < files.len()
        invariant
            i <= files@.len(),
            bytes_at(files@, path@, 0) == bytes_at(files@, path@, i as int),
        decreases files@.len() - i,
    {
        if same(files[i].path.as_str(), path) {
            return Some(i);
        }
        i = i + 1;
    }
    None
}

/// The image block of a reference, where the reference resolves.
pub fn image_block(reference: &str, files: &Vec<AttachedFile>) -> (r: Option<serde_json::Value>)
    requires
        encodable(files@),
    ensures
        match r {
            Some(image) => image_of(reference@, files@) == Some(json_of(image)),
            None => image_of(reference@, files@) is None,
        },
{
    if starts_with(reference, "data:") {
        let chars: Vec<char> = to_chars(reference);
        let prefix: usize = "data:".unicode_len();
        let rest: &str = reference.substring_char(prefix, chars.len());
        let rest_chars: Vec<char> = to_chars(rest);
        let separator: Vec<char> = to_chars(";base64,");
        assert(rest@ =~= reference@.skip(prefix as int));
        match find_from(&rest_chars, &separator, 0) {
            Some(i) => {
                proof {
                    let other = choose|k: int| first_occurrence(rest@, ";base64,"@, 0, k);
                    assert(first_occurrence(rest@, ";base64,"@, 0, other));
                    assert(occurs_at(rest@, ";base64,"@, other));
                    assert(other == i);
                }
                let media: &str = rest.substring_char(0, i);
                let data: &str = rest.substring_char(i + separator.len(), rest_chars.len());
                assert(media@ =~= rest@.take(i as int));
                assert(data@ =~= rest@.skip(i + separator@.len()));
                Some(image_value(media, data))
            },
            None => {
                proof {
                    assert forall|k: int| !first_occurrence(rest@, ";base64,"@, 0, k) by {
                        if first_occurrence(rest@, ";base64,"@, 0, k) {
                            assert(occurs_at(rest@, ";base64,"@, k));
                        }
                    }
                }
                None
            },
        }
    } else {
        match file_place(files, reference) {
            Some(i) => {
                if !files[i].managed {
                    return None;
                }
                match &files[i].bytes {
                    Some(bytes) => {
                        assert(base64_len(files@[i as int].bytes->0@.len()) <= isize::MAX);
                        let media: String = media_type_from_path(reference);
                        let data: String = base64_encode(bytes);
                        Some(image_value(media.as_str(), data.as_str()))
                    },
                    None => None,
                }
            },
            None => None,
        }
    }
}

/// A part of a message: prose, or the reference of an image marker.
#[derive(Debug, PartialEq, Eq)]
pub enum Part {
    Prose(String),
    Image(String),
}

impl View for Part {
    type V = Segment;

    open spec fn view(&self) -> Segment {
        match self {
            Part::Prose(text) => Segment::Prose(text@),
            Part::Image(reference) => Segment::Image(reference@),
        }
    }
}

/// What each of some parts says.
pub open spec fn part_views(parts: Seq<Part>) -> Seq<Segment> {
    parts.map_values(|part: Part| part@)
}

/// The parts of a message.
pub fn split(raw: &str) -> (r: Vec<Part>)
    ensures
        part_views(r@) == segments(raw@, 0),
{
    let chars: Vec<char> = to_chars(raw);
    let opening: Vec<char> = to_chars(MARKER);
    let closing: Vec<char> = to_chars(MARKER_END);
    let total: usize = chars.len();
    let mut out: Vec<Part> = Vec::new();
    let mut cursor: usize = 0;
    let ghost all = segments(raw@, 0);
    assert(part_views(out@) + all =~= all);
    proof {
        reveal_strlit("[IMAGE:");
        reveal_strlit("]");
    }
    let mut open: bool = true;
    while open
        invariant
            chars@ == raw@,
            opening@ == MARKER@,
            closing@ == MARKER_END@,
            MARKER_END@.len() == 1,
            cursor <= chars@.len() == total,
            part_views(out@) + segments(raw@, cursor as int) == all,
            !open ==> !has_marker(raw@, cursor as int),
        decreases
            chars@.len() - cursor,
            (if open {
                1int
            } else {
                0int
            }),
    {
        let start: usize = match find_from(&chars, &opening, cursor) {
            Some(i) => i,
            None => {
                proof {
                    assert forall|s: int, e: int| !marker(raw@, cursor as int, s, e) by {
                        if marker(raw@, cursor as int, s, e) {
                            assert(occurs_at(raw@, MARKER@, s));
                        }
                    }
                }
                open = false;
                continue;
            },
        };
        let end: usize = match find_from(&chars, &closing, start) {
            Some(i) => i,
            None => {
                proof {
                    assert forall|s: int, e: int| !marker(raw@, cursor as int, s, e) by {
                        if marker(raw@, cursor as int, s, e) {
                            assert(occurs_at(raw@, MARKER@, s));
                            assert(occurs_at(raw@, MARKER@, start as int));
                            assert(s == start);
                            assert(occurs_at(raw@, MARKER_END@, e));
                        }
                    }
                }
                open = false;
                continue;
            },
        };
        proof {
            assert(marker(raw@, cursor as int, start as int, end as int));
            lemma_marker(raw@, cursor as int, start as int, end as int);
        }
        let ghost before = out@;
        let ghost from = cursor as int;
        if start > cursor {
            out.push(Part::Prose(raw.substring_char(cursor, start).to_owned()));
        }
        let ghost lead = out@;
        assert(part_views(lead) =~= part_views(before) + prose(raw@, from, start as int));
        out.push(Part::Image(raw.substring_char(start + opening.len(), end).to_owned()));
        cursor = end + 1;
        proof {
            let image = Segment::Image(raw@.subrange(start + MARKER@.len(), end as int));
            assert(part_views(out@) =~= part_views(lead).push(image));
            assert(part_views(out@) + segments(raw@, cursor as int) =~= all);
        }
    }
    let ghost before = out@;
    if cursor < total {
        out.push(Part::Prose(raw.substring_char(cursor, total).to_owned()));
    }
    assert(part_views(out@) =~= part_views(before) + prose(
        raw@,
        cursor as int,
        raw@.len() as int,
    ));
    out
}

/// A message has parts exactly where it is not empty.
proof fn lemma_no_parts(raw: Seq<char>)
    ensures
        segments(raw, 0).len() == 0 <==> raw.len() == 0,
{
    law_segments_spell_the_message(raw, 0);
    assert(raw.skip(0) =~= raw);
    if raw.len() == 0 && has_marker(raw, 0) {
        let (s, e) = next_marker(raw, 0);
        assert(marker(raw, 0, s, e));
        lemma_marker(raw, 0, s, e);
    }
}

/// The content blocks of a message: its prose as text blocks and each image marker as an image
/// block. An image whose reference does not resolve is told in a text block.
pub fn content_blocks(raw: &str, files: &Vec<AttachedFile>) -> (r: Vec<serde_json::Value>)
    requires
        encodable(files@),
    ensures
        json_values(r@) == blocks(raw@, files@),
        r@.len() > 0,
{
    let parts: Vec<Part> = split(raw);
    let ghost made = |part: Segment| block(part, files@);
    let ghost all = segments(raw@, 0).map_values(made);
    let mut out: Vec<serde_json::Value> = Vec::new();
    let mut i: usize = 0;
    while i < parts.len()
        invariant
            i <= parts@.len(),
            encodable(files@),
            made == (|part: Segment| block(part, files@)),
            part_views(parts@) == segments(raw@, 0),
            all == segments(raw@, 0).map_values(made),
            json_values(out@) == all.take(i as int),
        decreases parts@.len() - i,
    {
        let ghost before = out@;
        assert(segments(raw@, 0)[i as int] == parts@[i as int]@);
        match &parts[i] {
            Part::Prose(text) => {
                out.push(text_value(text.as_str()));
            },
            Part::Image(reference) => match image_block(reference.as_str(), files) {
                Some(image) => {
                    out.push(image);
                },
                None => {
                    out.push(text_value(UNREADABLE_IMAGE));
                },
            },
        }
        assert(json_values(out@) =~= json_values(before).push(block(parts@[i as int]@, files@)));
        assert(all[i as int] == block(parts@[i as int]@, files@));
        assert(all.take(i + 1) =~= all.take(i as int).push(all[i as int]));
        i = i + 1;
    }
    proof {
        lemma_no_parts(raw@);
        assert(all.take(parts@.len() as int) =~= all);
    }
    if out.len() == 0 {
        out.push(text_value(raw));
        assert(json_values(out@) =~= seq![text_block(raw@)]);
    }
    out
}

/// The messages that are not the system's.
pub open spec fn conversation(messages: Seq<ChatMessageView>) -> Seq<ChatMessageView> {
    messages.filter(|message: ChatMessageView| message.role != "system"@)
}

/// The place of the last user turn among the first `n` messages, where there is one.
pub open spec fn last_user(messages: Seq<ChatMessageView>, n: int) -> Option<int>
    decreases n,
{
    if n <= 0 || n > messages.len() {
        None
    } else if messages[n - 1].role == "user"@ {
        Some(n - 1)
    } else {
        last_user(messages, n - 1)
    }
}

/// The user turn at `i` was answered: a reply stands behind it, and no other user turn before that
/// reply.
pub open spec fn answered(messages: Seq<ChatMessageView>, i: int) -> bool {
    exists|j: int|
        {
            &&& i < j < messages.len()
            &&& (#[trigger] messages[j]).role == "assistant"@
            &&& forall|k: int| i < k < j ==> (#[trigger] messages[k]).role != "user"@
        }
}

/// How the speaker of a message is named where the message is told.
pub open spec fn speaker(role: Seq<char>) -> Seq<char> {
    if role == "assistant"@ {
        "Assistant"@
    } else if role == "user"@ {
        "User"@
    } else {
        role
    }
}

/// A message whose prose is told beside the last user turn: every message that says something, but
/// for a user turn that nobody answered.
pub open spec fn told(messages: Seq<ChatMessageView>, i: int) -> bool {
    messages[i].prose.len() > 0 && (messages[i].role != "user"@ || answered(messages, i))
}

/// What is told of the message at `i`.
pub open spec fn carried(messages: Seq<ChatMessageView>, i: int) -> Seq<Seq<char>> {
    if told(messages, i) {
        seq![speaker(messages[i].role) + ": "@ + messages[i].prose]
    } else {
        Seq::empty()
    }
}

/// What is told of the messages from `from` up to `to`.
pub open spec fn carried_turns(messages: Seq<ChatMessageView>, from: int, to: int) -> Seq<Seq<char>>
    decreases to - from,
{
    if to <= from {
        Seq::empty()
    } else {
        carried_turns(messages, from, to - 1) + carried(messages, to - 1)
    }
}

/// The text block that tells some turns between two lines, where there are any.
pub open spec fn telling(opening: Seq<char>, turns: Seq<Seq<char>>, closing: Seq<char>) -> Seq<
    Json,
> {
    if turns.len() == 0 {
        Seq::empty()
    } else {
        seq![text_block(opening + joined(turns, "\n"@) + closing)]
    }
}

/// The line that opens what came before the last user turn.
pub const EARLIER: &'static str = "[Earlier in this conversation]\n";

/// The line that closes what came before the last user turn.
pub const EARLIER_END: &'static str = "\n[End of earlier conversation]\n";

/// The line that opens what came behind the last user turn.
pub const LATER: &'static str = "[Later in this conversation]\n";

/// The line that closes what came behind the last user turn.
pub const LATER_END: &'static str = "\n[End of later conversation]\n";

/// What a new session is told of the messages before the last user turn.
pub open spec fn preamble(messages: Seq<ChatMessageView>, last: int) -> Seq<Json> {
    telling(EARLIER@, carried_turns(messages, 0, last), EARLIER_END@)
}

/// What a new session is told of the messages behind the last user turn.
pub open spec fn postamble(messages: Seq<ChatMessageView>, last: int) -> Seq<Json> {
    telling(LATER@, carried_turns(messages, last + 1, messages.len() as int), LATER_END@)
}

/// The content of the turn that is sent: the last user turn, and for a new session what came before
/// it and behind it, in the order of the conversation.
pub open spec fn turn_content(
    messages: Seq<ChatMessageView>,
    last: int,
    is_new_session: bool,
    files: Seq<AttachedFile>,
) -> Seq<Json> {
    let own = blocks(messages[last].content, files);
    if is_new_session {
        preamble(messages, last) + own + postamble(messages, last)
    } else {
        own
    }
}

/// The object that a turn is sent as.
pub open spec fn turn_json(content: Seq<Json>) -> Json {
    Json::Obj(
        two_fields(
            "type"@,
            Json::Str("user"@),
            "message"@,
            Json::Obj(
                two_fields("role"@, Json::Str("user"@), "content"@, Json::Arr(content)),
            ),
        ),
    )
}

/// The bytes that are sent: nothing where there is no user turn, and otherwise one line.
pub open spec fn stdin_bytes(
    messages: Seq<ChatMessageView>,
    is_new_session: bool,
    files: Seq<AttachedFile>,
) -> Seq<u8> {
    let turns = conversation(messages);
    match last_user(turns, turns.len() as int) {
        None => Seq::empty(),
        Some(last) => encode_utf8(
            json_text(turn_json(turn_content(turns, last, is_new_session, files))) + "\n"@,
        ),
    }
}

/// The places of the messages that are not the system's.
fn conversation_of(messages: &Vec<ChatMessage>) -> (r: Vec<usize>)
    ensures
        forall|k: int| 0 <= k < r@.len() ==> (#[trigger] r@[k]) < messages@.len(),
        messages_at(messages@, r@) == conversation(message_views(messages@)),
{
    let ghost spoken = |message: ChatMessageView| message.role != "system"@;
    let ghost all = message_views(messages@);
    let mut places: Vec<usize> = Vec::new();
    let mut i: usize = 0;
    reveal(Seq::filter);
    assert(messages_at(messages@, places@) =~= all.take(0).filter(spoken));
    while i < messages.len()
        invariant
            i <= messages@.len(),
            all == message_views(messages@),
            spoken == (|message: ChatMessageView| message.role != "system"@),
            forall|k: int| 0 <= k < places@.len() ==> (#[trigger] places@[k]) < messages@.len(),
            messages_at(messages@, places@) == all.take(i as int).filter(spoken),
        decreases messages@.len() - i,
    {
        reveal(Seq::filter);
        let ghost before = places@;
        assert(all.take(i + 1).drop_last() =~= all.take(i as int));
        assert(all.take(i + 1).last() == messages@[i as int]@);
        if !same(messages[i].role.as_str(), "system") {
            places.push(i);
            assert(messages_at(messages@, places@) =~= messages_at(messages@, before).push(
                messages@[i as int]@,
            ));
        }
        i = i + 1;
    }
    assert(all.take(messages@.len() as int) =~= all);
    places
}

/// The messages at some places.
spec fn messages_at(messages: Seq<ChatMessage>, places: Seq<usize>) -> Seq<ChatMessageView> {
    places.map_values(|i: usize| messages[i as int]@)
}

/// The last of the places at which a user turn stands.
fn last_user_place(messages: &Vec<ChatMessage>, places: &Vec<usize>) -> (r: Option<usize>)
    requires
        forall|k: int| 0 <= k < places@.len() ==> (#[trigger] places@[k]) < messages@.len(),
    ensures
        match r {
            Some(i) => i < places@.len() && last_user(
                messages_at(messages@, places@),
                places@.len() as int,
            ) == Some(i as int),
            None => last_user(messages_at(messages@, places@), places@.len() as int) is None,
        },
{
    let mut n: usize = places.len();
    while n > 0
        invariant
            n <= places@.len(),
            forall|k: int| 0 <= k < places@.len() ==> (#[trigger] places@[k]) < messages@.len(),
            last_user(messages_at(messages@, places@), places@.len() as int) == last_user(
                messages_at(messages@, places@),
                n as int,
            ),
        decreases n,
    {
        if same(messages[places[n - 1]].role.as_str(), "user") {
            return Some(n - 1);
        }
        n = n - 1;
    }
    None
}

/// Whether the user turn at `i` was answered.
fn is_answered(messages: &Vec<ChatMessage>, places: &Vec<usize>, i: usize) -> (r: bool)
    requires
        forall|k: int| 0 <= k < places@.len() ==> (#[trigger] places@[k]) < messages@.len(),
        i < places@.len(),
    ensures
        r == answered(messages_at(messages@, places@), i as int),
{
    let ghost all = messages_at(messages@, places@);
    let count: usize = places.len();
    let mut j: usize = i + 1;
    while j < count
        invariant
            i < j <= places@.len() == count,
            all == messages_at(messages@, places@),
            forall|k: int| 0 <= k < places@.len() ==> (#[trigger] places@[k]) < messages@.len(),
            forall|k: int|
                i < k < j ==> (#[trigger] all[k]).role != "user"@ && all[k].role != "assistant"@,
        decreases places@.len() - j,
    {
        let message: &ChatMessage = &messages[places[j]];
        assert(all[j as int] == message@);
        if same(message.role.as_str(), "assistant") {
            return true;
        }
        if same(message.role.as_str(), "user") {
            return false;
        }
        j = j + 1;
    }
    false
}

/// What is told of the messages from `from` up to `to`: of every message that says something, but
/// for a user turn that nobody answered. That was a failed or pending attempt, and the attempt
/// that repeats it would come through twice.
fn tell_turns(messages: &Vec<ChatMessage>, places: &Vec<usize>, from: usize, to: usize) -> (r: Vec<
    String,
>)
    requires
        forall|k: int| 0 <= k < places@.len() ==> (#[trigger] places@[k]) < messages@.len(),
        from <= to <= places@.len(),
    ensures
        texts(r@) == carried_turns(messages_at(messages@, places@), from as int, to as int),
{
    let ghost all = messages_at(messages@, places@);
    let mut turns: Vec<String> = Vec::new();
    let mut i: usize = from;
    assert(texts(turns@) =~= carried_turns(all, from as int, from as int));
    while i < to
        invariant
            from <= i <= to <= places@.len(),
            all == messages_at(messages@, places@),
            forall|k: int| 0 <= k < places@.len() ==> (#[trigger] places@[k]) < messages@.len(),
            texts(turns@) == carried_turns(all, from as int, i as int),
        decreases to - i,
    {
        let ghost before = turns@;
        let message: &ChatMessage = &messages[places[i]];
        let role: &str = message.role.as_str();
        assert(all[i as int] == message@);
        if message.prose.as_str().unicode_len() > 0 {
            let of_user: bool = same(role, "user");
            if !of_user || is_answered(messages, places, i) {
                let mut line: String = if same(role, "assistant") {
                    "Assistant".to_owned()
                } else if of_user {
                    "User".to_owned()
                } else {
                    message.role.clone()
                };
                line.append(": ");
                line.append(message.prose.as_str());
                turns.push(line);
            }
        }
        assert(texts(turns@) =~= texts(before) + carried(all, i as int));
        i = i + 1;
    }
    turns
}

/// The text block that tells some turns between two lines, where there are any.
fn tell(opening: &str, turns: &Vec<String>, closing: &str) -> (r: Vec<serde_json::Value>)
    ensures
        json_values(r@) == telling(opening@, texts(turns@), closing@),
{
    let mut out: Vec<serde_json::Value> = Vec::new();
    if turns.len() > 0 {
        let body: String = join(turns, "\n");
        let text: String = cat(cat(opening, body.as_str()).as_str(), closing);
        out.push(text_value(text.as_str()));
    }
    assert(json_values(out@) =~= telling(opening@, texts(turns@), closing@));
    out
}

/// What a new session is told of the messages before `last`.
fn prior_conversation_preamble(
    messages: &Vec<ChatMessage>,
    places: &Vec<usize>,
    last: usize,
) -> (r: Vec<serde_json::Value>)
    requires
        forall|k: int| 0 <= k < places@.len() ==> (#[trigger] places@[k]) < messages@.len(),
        last < places@.len(),
    ensures
        json_values(r@) == preamble(messages_at(messages@, places@), last as int),
{
    tell(EARLIER, &tell_turns(messages, places, 0, last), EARLIER_END)
}

/// What a new session is told of the messages behind `last`.
fn later_conversation(messages: &Vec<ChatMessage>, places: &Vec<usize>, last: usize) -> (r: Vec<
    serde_json::Value,
>)
    requires
        forall|k: int| 0 <= k < places@.len() ==> (#[trigger] places@[k]) < messages@.len(),
        last < places@.len(),
    ensures
        json_values(r@) == postamble(messages_at(messages@, places@), last as int),
{
    let count: usize = places.len();
    tell(LATER, &tell_turns(messages, places, last + 1, count), LATER_END)
}

/// Append a line to a buffer: the text of a value and a line break.
pub fn push_line(buf: &mut String, text: &str)
    ensures
        final(buf)@ == old(buf)@ + text@ + "\n"@,
{
    buf.append(text);
    buf.append("\n");
}

/// Append the line of a value to a buffer: its compact text and a line break. The line of a value
/// that survives being written as text reads back as that value.
pub fn push_json_line(buf: &mut String, value: &serde_json::Value)
    ensures
        final(buf)@ == old(buf)@ + json_text(json_of(*value)) + "\n"@,
        !json_text(json_of(*value)).contains('\n'),
        plain(json_of(*value), max_depth()) ==> json_parse(json_text(json_of(*value))) == Some(
            json_of(*value),
        ),
{
    let text: String = value_text(value);
    push_line(buf, text.as_str());
}

/// The bytes to write: the last user turn as one line of JSON, which reads back as that turn, and
/// nothing where there is no user turn. Only one user turn can be sent, so a new session is told
/// of the other messages in text blocks before it and behind it; a session that is resumed has
/// them.
pub fn build_stdin(
    messages: &Vec<ChatMessage>,
    is_new_session: bool,
    files: &Vec<AttachedFile>,
) -> (r: Vec<u8>)
    requires
        encodable(files@),
    ensures
        r@ == stdin_bytes(message_views(messages@), is_new_session, files@),
        ({
            let turns = conversation(message_views(messages@));
            match last_user(turns, turns.len() as int) {
                None => r@.len() == 0,
                Some(last) => {
                    let turn = turn_json(turn_content(turns, last, is_new_session, files@));
                    let line = json_text(turn);
                    &&& r@ == encode_utf8(line + "\n"@)
                    &&& !line.contains('\n')
                    &&& json_parse(line) == Some(turn)
                },
            }
        }),
{
    let places: Vec<usize> = conversation_of(messages);
    let ghost turns = messages_at(messages@, places@);
    let last: usize = match last_user_place(messages, &places) {
        Some(i) => i,
        None => return Vec::new(),
    };
    let mut content: Vec<serde_json::Value> = Vec::new();
    if is_new_session {
        content = prior_conversation_preamble(messages, &places, last);
    }
    let ghost lead = content@;
    let mut turn: Vec<serde_json::Value> = content_blocks(
        messages[places[last]].content.as_str(),
        files,
    );
    let ghost own = turn@;
    content.append(&mut turn);
    let ghost so_far = content@;
    let mut later: Vec<serde_json::Value> = Vec::new();
    if is_new_session {
        later = later_conversation(messages, &places, last);
    }
    let ghost tail = later@;
    content.append(&mut later);
    proof {
        assert(turns[last as int] == messages@[places@[last as int] as int]@);
        assert(json_values(so_far) =~= json_values(lead) + json_values(own));
        assert(json_values(content@) =~= json_values(so_far) + json_values(tail));
        assert(json_values(content@) =~= turn_content(
            turns,
            last as int,
            is_new_session,
            files@,
        ));
    }
    let line: serde_json::Value = object_of_two(
        "type",
        json_string("user"),
        "message",
        object_of_two("role", json_string("user"), "content", json_array(content)),
    );
    proof {
        lemma_turn_is_plain(turns, last as int, is_new_session, files@);
    }
    let mut out: String = String::new();
    push_json_line(&mut out, &line);
    assert(out@ =~= json_text(json_of(line)) + "\n"@);
    out.as_str().as_bytes_vec()
}

/// What survives being written as text at one depth does so at a greater one.
proof fn lemma_plain_deeper(value: Json, a: nat, b: nat)
    requires
        plain(value, a),
        a <= b,
    ensures
        plain(value, b),
    decreases a,
{
    match value {
        Json::Arr(items) => {
            assert forall|i: int| 0 <= i < items.len() implies plain(
                #[trigger] items[i],
                (b - 1) as nat,
            ) by {
                lemma_plain_deeper(items[i], (a - 1) as nat, (b - 1) as nat);
            }
        },
        Json::Obj(fields) => {
            assert forall|k: Seq<char>| fields.dom().contains(k) implies plain(
                #[trigger] fields[k],
                (b - 1) as nat,
            ) by {
                lemma_plain_deeper(fields[k], (a - 1) as nat, (b - 1) as nat);
            }
        },
        _ => {},
    }
}

/// An object of two plain fields is plain, one level deeper.
proof fn lemma_two_fields_plain(k1: Seq<char>, v1: Json, k2: Seq<char>, v2: Json, depth: nat)
    requires
        plain(v1, depth),
        plain(v2, depth),
    ensures
        plain(Json::Obj(two_fields(k1, v1, k2, v2)), depth + 1),
{
    let fields = two_fields(k1, v1, k2, v2);
    assert forall|k: Seq<char>| fields.dom().contains(k) implies plain(
        #[trigger] fields[k],
        depth,
    ) by {}
}

proof fn lemma_text_block_plain(text: Seq<char>)
    ensures
        plain(text_block(text), 2),
{
    lemma_two_fields_plain("type"@, Json::Str("text"@), "text"@, Json::Str(text), 1);
}

proof fn lemma_image_plain(media_type: Seq<char>, data: Seq<char>)
    ensures
        plain(image_json(media_type, data), 2),
{
    let source = two_fields(
        "type"@,
        Json::Str("base64"@),
        "media_type"@,
        Json::Str(media_type),
    ).insert("data"@, Json::Str(data));
    assert forall|k: Seq<char>| source.dom().contains(k) implies plain(
        #[trigger] source[k],
        0,
    ) by {}
    assert(plain(Json::Obj(source), 1));
    lemma_two_fields_plain("type"@, Json::Str("image"@), "source"@, Json::Obj(source), 1);
}

proof fn lemma_block_plain(part: Segment, files: Seq<AttachedFile>)
    ensures
        plain(block(part, files), 2),
{
    match part {
        Segment::Prose(text) => lemma_text_block_plain(text),
        Segment::Image(reference) => {
            lemma_text_block_plain(UNREADABLE_IMAGE@);
            if begins_with(reference, "data:"@) {
                let rest = reference.skip("data:"@.len() as int);
                let i = choose|i: int| first_occurrence(rest, ";base64,"@, 0, i);
                lemma_image_plain(rest.take(i), rest.skip(i + ";base64,"@.len()));
            } else if let Some(bytes) = bytes_at(files, reference, 0) {
                lemma_image_plain(media_type(reference), base64_text(bytes));
            }
        },
    }
}

/// The turn that is sent survives being written as text.
proof fn lemma_turn_is_plain(
    messages: Seq<ChatMessageView>,
    last: int,
    is_new_session: bool,
    files: Seq<AttachedFile>,
)
    ensures
        plain(turn_json(turn_content(messages, last, is_new_session, files)), max_depth()),
{
    let content = turn_content(messages, last, is_new_session, files);
    let own = blocks(messages[last].content, files);
    assert forall|i: int| 0 <= i < own.len() implies plain(#[trigger] own[i], 2) by {
        if messages[last].content.len() == 0 {
            lemma_text_block_plain(messages[last].content);
        } else {
            lemma_block_plain(segments(messages[last].content, 0)[i], files);
        }
    }
    assert forall|i: int| 0 <= i < content.len() implies plain(#[trigger] content[i], 2) by {
        if is_new_session {
            let before = preamble(messages, last);
            let after = postamble(messages, last);
            let early = carried_turns(messages, 0, last);
            let late = carried_turns(messages, last + 1, messages.len() as int);
            lemma_text_block_plain(EARLIER@ + joined(early, "\n"@) + EARLIER_END@);
            lemma_text_block_plain(LATER@ + joined(late, "\n"@) + LATER_END@);
            if i < before.len() {
                assert(content[i] == before[i]);
            } else if i < before.len() + own.len() {
                assert(content[i] == own[i - before.len()]);
            } else {
                assert(content[i] == after[i - before.len() - own.len()]);
            }
        }
    }
    assert(plain(Json::Arr(content), 3));
    let message = Json::Obj(
        two_fields("role"@, Json::Str("user"@), "content"@, Json::Arr(content)),
    );
    lemma_two_fields_plain("role"@, Json::Str("user"@), "content"@, Json::Arr(content), 3);
    lemma_two_fields_plain("type"@, Json::Str("user"@), "message"@, message, 4);
    lemma_plain_deeper(turn_json(content), 5, max_depth());
}

/// The references of the image markers among some parts, in order.
pub open spec fn references(parts: Seq<Segment>) -> Seq<Seq<char>>
    decreases parts.len(),
{
    if parts.len() == 0 {
        Seq::empty()
    } else {
        match parts.last() {
            Segment::Image(reference) => references(parts.drop_last()).push(reference),
            Segment::Prose(_) => references(parts.drop_last()),
        }
    }
}

/// The references of the image markers of a text, in order.
fn text_references(raw: &str) -> (r: Vec<String>)
    ensures
        texts(r@) == references(segments(raw@, 0)),
{
    let parts: Vec<Part> = split(raw);
    let ghost all = segments(raw@, 0);
    let mut out: Vec<String> = Vec::new();
    let mut i: usize = 0;
    assert(texts(out@) =~= references(all.take(0)));
    while i < parts.len()
        invariant
            i <= parts@.len(),
            all == part_views(parts@),
            texts(out@) == references(all.take(i as int)),
        decreases parts@.len() - i,
    {
        let ghost before = out@;
        assert(all.take(i + 1).drop_last() =~= all.take(i as int));
        assert(all.take(i + 1).last() == parts@[i as int]@);
        if let Part::Image(reference) = &parts[i] {
            out.push(reference.clone());
            assert(texts(out@) =~= texts(before).push(reference@));
        }
        i = i + 1;
    }
    assert(all.take(parts@.len() as int) =~= all);
    out
}

/// The references of the images that the last user turn holds, in order: those whose files are
/// needed for [`build_stdin`].
pub open spec fn turn_references(messages: Seq<ChatMessageView>) -> Seq<Seq<char>> {
    let turns = conversation(messages);
    match last_user(turns, turns.len() as int) {
        None => Seq::empty(),
        Some(last) => references(segments(turns[last].content, 0)),
    }
}

/// The references of the images that the last user turn holds, in order.
pub fn image_references(messages: &Vec<ChatMessage>) -> (r: Vec<String>)
    ensures
        texts(r@) == turn_references(message_views(messages@)),
{
    let places: Vec<usize> = conversation_of(messages);
    match last_user_place(messages, &places) {
        Some(last) => text_references(messages[places[last]].content.as_str()),
        None => {
            let none: Vec<String> = Vec::new();
            assert(texts(none@) =~= Seq::empty());
            none
        },
    }
}

/// No part of a message is dropped: each becomes one block, in order.
pub proof fn law_every_part_becomes_a_block(
    raw: Seq<char>,
    files: Seq<AttachedFile>,
    i: int,
)
    requires
        raw.len() > 0,
        0 <= i < segments(raw, 0).len(),
    ensures
        blocks(raw, files).len() == segments(raw, 0).len(),
        blocks(raw, files)[i] == block(segments(raw, 0)[i], files),
{
}

/// A file is sent only where it is a managed attachment that could be read; any other reference to
/// a file is told as an image that could not be read.
pub proof fn law_only_managed_files_are_sent(reference: Seq<char>, files: Seq<AttachedFile>)
    requires
        !begins_with(reference, "data:"@),
        forall|i: int|
            0 <= i < files.len() && (#[trigger] files[i]).path@ == reference ==> !files[i].managed
                || files[i].bytes is None,
    ensures
        block(Segment::Image(reference), files) == text_block(UNREADABLE_IMAGE@),
{
    lemma_no_bytes(files, reference, 0);
}

proof fn lemma_no_bytes(files: Seq<AttachedFile>, path: Seq<char>, from: int)
    requires
        0 <= from,
        forall|i: int|
            0 <= i < files.len() && (#[trigger] files[i]).path@ == path ==> !files[i].managed
                || files[i].bytes is None,
    ensures
        bytes_at(files, path, from) is None,
    decreases files.len() - from,
{
    if from < files.len() && files[from].path@ != path {
        lemma_no_bytes(files, path, from + 1);
    }
}

/// A session that is resumed is sent the last user turn and nothing of what came before it.
pub proof fn law_a_resumed_session_is_sent_the_last_turn_only(
    messages: Seq<ChatMessageView>,
    others: Seq<ChatMessageView>,
    files: Seq<AttachedFile>,
)
    requires
        ({
            let a = conversation(messages);
            let b = conversation(others);
            let i = last_user(a, a.len() as int);
            let j = last_user(b, b.len() as int);
            i is Some && j is Some && a[i->0].content == b[j->0].content
        }),
    ensures
        stdin_bytes(messages, false, files) == stdin_bytes(others, false, files),
{
}

/// A turn of a user that nobody answered is not told, whatever it says.
pub proof fn law_an_unanswered_turn_is_not_carried_over(messages: Seq<ChatMessageView>, i: int)
    requires
        0 <= i < messages.len(),
        messages[i].role == "user"@,
        !answered(messages, i),
    ensures
        carried(messages, i).len() == 0,
{
}

/// Something that stands in a part of a text stands in the text.
proof fn lemma_occurs_within(
    text: Seq<char>,
    part: Seq<char>,
    at: int,
    needle: Seq<char>,
    i: int,
)
    requires
        occurs_at(text, part, at),
        occurs_at(part, needle, i),
    ensures
        occurs_at(text, needle, at + i),
{
    assert(text.subrange(at + i, at + i + needle.len()) =~= text.subrange(
        at,
        at + part.len(),
    ).subrange(i, i + needle.len()));
}

/// The middle of three texts stands behind the first.
proof fn lemma_middle(a: Seq<char>, b: Seq<char>, c: Seq<char>)
    ensures
        occurs_at(a + b + c, b, a.len() as int),
{
    assert((a + b + c).subrange(a.len() as int, a.len() + b.len() as int) =~= b);
}

/// Every part of a joined text stands in it.
proof fn lemma_joined_holds(parts: Seq<Seq<char>>, sep: Seq<char>, k: int) -> (at: int)
    requires
        0 <= k < parts.len(),
    ensures
        occurs_at(joined(parts, sep), parts[k], at),
    decreases parts.len(),
{
    let whole = joined(parts, sep);
    if parts.len() == 1 {
        assert(whole.subrange(0, whole.len() as int) =~= parts[k]);
        0
    } else if k == parts.len() - 1 {
        let at = whole.len() - parts[k].len();
        assert(whole.subrange(at, whole.len() as int) =~= parts[k]);
        at
    } else {
        let shorter = joined(parts.drop_last(), sep);
        let at = lemma_joined_holds(parts.drop_last(), sep, k);
        assert(whole.subrange(0, shorter.len() as int) =~= shorter);
        lemma_occurs_within(whole, shorter, 0, parts[k], at);
        at
    }
}

/// A message that is told is one of the turns that are told.
proof fn lemma_carried_is_told(
    messages: Seq<ChatMessageView>,
    from: int,
    to: int,
    i: int,
) -> (k: int)
    requires
        from <= i < to,
        told(messages, i),
    ensures
        0 <= k < carried_turns(messages, from, to).len(),
        carried_turns(messages, from, to)[k] == speaker(messages[i].role) + ": "@
            + messages[i].prose,
    decreases to - from,
{
    if i == to - 1 {
        carried_turns(messages, from, to - 1).len() as int
    } else {
        lemma_carried_is_told(messages, from, to - 1, i)
    }
}

/// A told message stands in the block that tells it.
proof fn lemma_telling_holds(
    opening: Seq<char>,
    closing: Seq<char>,
    messages: Seq<ChatMessageView>,
    from: int,
    to: int,
    i: int,
)
    requires
        from <= i < to,
        told(messages, i),
    ensures
        ({
            let turns = carried_turns(messages, from, to);
            let text = opening + joined(turns, "\n"@) + closing;
            &&& telling(opening, turns, closing) == seq![text_block(text)]
            &&& occurs_in(text, messages[i].prose)
        }),
{
    let turns = carried_turns(messages, from, to);
    let prose = messages[i].prose;
    let k = lemma_carried_is_told(messages, from, to, i);
    let at = lemma_joined_holds(turns, "\n"@, k);
    let body = joined(turns, "\n"@);
    let text = opening + body + closing;
    let line = turns[k];
    let name = speaker(messages[i].role) + ": "@;
    assert(line == name + prose + Seq::empty()) by {
        assert(line =~= name + prose + Seq::empty());
    }
    lemma_middle(name, prose, Seq::empty());
    lemma_middle(opening, body, closing);
    lemma_occurs_within(text, body, opening.len() as int, line, at);
    lemma_occurs_within(text, line, opening.len() + at, prose, name.len() as int);
}

/// A new session is sent every message of the conversation: the last user turn in whole, and in
/// some text block the prose of every other message, but for a user turn that nobody answered.
pub proof fn law_a_new_session_is_sent_every_message(
    messages: Seq<ChatMessageView>,
    files: Seq<AttachedFile>,
    i: int,
)
    requires
        ({
            let turns = conversation(messages);
            &&& last_user(turns, turns.len() as int) is Some
            &&& 0 <= i < turns.len()
        }),
    ensures
        ({
            let turns = conversation(messages);
            let last = last_user(turns, turns.len() as int)->0;
            let content = turn_content(turns, last, true, files);
            let own = blocks(turns[last].content, files);
            &&& exists|at: int|
                0 <= at && at + own.len() <= content.len() && #[trigger] content.subrange(
                    at,
                    at + own.len(),
                ) == own
            &&& i != last && turns[i].prose.len() > 0 && (turns[i].role != "user"@ || answered(
                turns,
                i,
            )) ==> exists|b: int, t: Seq<char>|
                {
                    &&& 0 <= b < content.len()
                    &&& #[trigger] content[b] == #[trigger] text_block(t)
                    &&& occurs_in(t, turns[i].prose)
                }
        }),
{
    let turns = conversation(messages);
    let last = last_user(turns, turns.len() as int)->0;
    lemma_last_user(turns, turns.len() as int);
    let content = turn_content(turns, last, true, files);
    let own = blocks(turns[last].content, files);
    let before = preamble(turns, last);
    let after = postamble(turns, last);
    assert(content.subrange(before.len() as int, (before.len() + own.len()) as int) =~= own);
    if i != last && told(turns, i) {
        if i < last {
            let early = carried_turns(turns, 0, last);
            let text = EARLIER@ + joined(early, "\n"@) + EARLIER_END@;
            lemma_telling_holds(EARLIER@, EARLIER_END@, turns, 0, last, i);
            assert(content[0] == before[0]);
            assert(content[0] == text_block(text));
        } else {
            let late = carried_turns(turns, last + 1, turns.len() as int);
            let text = LATER@ + joined(late, "\n"@) + LATER_END@;
            lemma_telling_holds(LATER@, LATER_END@, turns, last + 1, turns.len() as int, i);
            let b = before.len() + own.len();
            assert(content[b as int] == after[0]);
            assert(content[b as int] == text_block(text));
        }
    }
}

/// The last user turn is one, and no user turn stands behind it.
proof fn lemma_last_user(messages: Seq<ChatMessageView>, n: int)
    requires
        n <= messages.len(),
    ensures
        match last_user(messages, n) {
            Some(last) => {
                &&& 0 <= last < n
                &&& messages[last].role == "user"@
                &&& forall|k: int| last < k < n ==> (#[trigger] messages[k]).role != "user"@
            },
            None => forall|k: int| 0 <= k < n ==> (#[trigger] messages[k]).role != "user"@,
        },
    decreases n,
{
    if n > 0 && messages[n - 1].role != "user"@ {
        lemma_last_user(messages, n - 1);
    }
}

/// The value is an object of two fields: it says that it is a text, and it holds exactly that text.
pub open spec fn holds_text(value: Json, text: Seq<char>) -> bool {
    value matches Json::Obj(fields) && fields.dom() == set!["type"@, "text"@] && fields["type"@]
        == Json::Str("text"@) && fields["text"@] == Json::Str(text)
}

/// The value is an object that says that it is an image, with exactly that type and that data.
pub open spec fn holds_image(value: Json, media_type: Seq<char>, data: Seq<char>) -> bool {
    &&& value matches Json::Obj(fields)
    &&& fields.dom() == set!["type"@, "source"@]
    &&& fields["type"@] == Json::Str("image"@)
    &&& fields["source"@] matches Json::Obj(source)
    &&& source.dom() == set!["type"@, "media_type"@, "data"@]
    &&& source["type"@] == Json::Str("base64"@)
    &&& source["media_type"@] == Json::Str(media_type)
    &&& source["data"@] == Json::Str(data)
}

/// The names of the fields differ.
proof fn lemma_fields_differ()
    ensures
        "type"@ != "text"@,
        "type"@ != "source"@,
        "type"@ != "media_type"@,
        "type"@ != "data"@,
        "media_type"@ != "data"@,
        "type"@ != "message"@,
        "role"@ != "content"@,
{
    reveal_strlit("type");
    reveal_strlit("text");
    reveal_strlit("source");
    reveal_strlit("media_type");
    reveal_strlit("data");
    reveal_strlit("message");
    reveal_strlit("role");
    reveal_strlit("content");
    assert("type"@[1] != "text"@[1]);
    assert("type"@[0] != "data"@[0]);
    assert("type"@.len() == 4 && "source"@.len() == 6 && "media_type"@.len() == 10 && "data"@.len()
        == 4 && "message"@.len() == 7 && "role"@.len() == 4 && "content"@.len() == 7);
}

/// A text block holds every character of its text, an image block its type and its data, and the
/// line of a turn the role of the user and exactly the blocks of the turn.
pub proof fn law_a_block_holds_all_of_its_text(
    text: Seq<char>,
    media_type: Seq<char>,
    data: Seq<char>,
    content: Seq<Json>,
)
    ensures
        holds_text(text_block(text), text),
        forall|other: Seq<char>| holds_text(text_block(text), other) ==> other == text,
        holds_image(image_json(media_type, data), media_type, data),
        turn_json(content) matches Json::Obj(line) && line.dom() == set!["type"@, "message"@]
            && line["type"@] == Json::Str("user"@) && (line["message"@] matches Json::Obj(
            message,
        ) && message.dom() == set!["role"@, "content"@] && message["role"@] == Json::Str("user"@)
            && message["content"@] == Json::Arr(content)),
{
    lemma_fields_differ();
    assert(text_block(text)->Obj_0.dom() =~= set!["type"@, "text"@]);
    assert(image_json(media_type, data)->Obj_0.dom() =~= set!["type"@, "source"@]);
    assert(image_json(media_type, data)->Obj_0["source"@]->Obj_0.dom()
        =~= set!["type"@, "media_type"@, "data"@]);
    assert(turn_json(content)->Obj_0.dom() =~= set!["type"@, "message"@]);
    assert(turn_json(content)->Obj_0["message"@]->Obj_0.dom() =~= set!["role"@, "content"@]);
}

/// A message without an image marker is one text block that holds the whole message.
pub proof fn law_plain_text_is_sent_whole(raw: Seq<char>, files: Seq<AttachedFile>)
    requires
        !occurs_in(raw, "[IMAGE:"@),
    ensures
        blocks(raw, files).len() == 1,
        holds_text(blocks(raw, files)[0], raw),
{
    law_a_block_holds_all_of_its_text(raw, raw, raw, Seq::empty());
    if raw.len() > 0 {
        assert(!has_marker(raw, 0)) by {
            if has_marker(raw, 0) {
                let (s, e) = next_marker(raw, 0);
                assert(marker(raw, 0, s, e));
                assert(occurs_at(raw, "[IMAGE:"@, s));
            }
        }
        assert(segments(raw, 0) =~= seq![Segment::Prose(raw)]) by {
            assert(raw.subrange(0, raw.len() as int) =~= raw);
        }
        assert(blocks(raw, files)[0] == block(Segment::Prose(raw), files));
    }
}

/// The first marker at or behind a place is an image: `[IMAGE:`, a reference up to the first closing
/// bracket, and that bracket. What stands before it is prose, and behind the bracket it goes on in
/// the same way.
pub proof fn law_a_marker_is_an_image(raw: Seq<char>, from: int, start: int, end: int)
    requires
        0 <= from <= start,
        start + 7 <= end < raw.len(),
        raw.subrange(start, start + 7) == "[IMAGE:"@,
        forall|k: int| from <= k < start ==> !occurs_at(raw, "[IMAGE:"@, k),
        raw[end] == ']',
        forall|k: int| start <= k < end ==> raw[k] != ']',
    ensures
        from < start ==> segments(raw, from) == seq![
            Segment::Prose(raw.subrange(from, start)),
            Segment::Image(raw.subrange(start + 7, end)),
        ] + segments(raw, end + 1),
        from == start ==> segments(raw, from) == seq![
            Segment::Image(raw.subrange(start + 7, end)),
        ] + segments(raw, end + 1),
{
    reveal_strlit("[IMAGE:");
    reveal_strlit("]");
    assert(MARKER@.len() == 7 && MARKER_END@.len() == 1);
    assert(occurs_at(raw, MARKER@, start));
    assert(raw.subrange(end, end + 1) =~= MARKER_END@);
    assert(occurs_at(raw, MARKER_END@, end));
    assert forall|k: int| start <= k < end implies !occurs_at(raw, MARKER_END@, k) by {
        assert(raw.subrange(k, k + 1)[0] == raw[k]);
        assert(MARKER_END@[0] == ']');
    }
    assert(marker(raw, from, start, end));
    lemma_marker(raw, from, start, end);
    if from < start {
        assert(segments(raw, from) =~= seq![
            Segment::Prose(raw.subrange(from, start)),
            Segment::Image(raw.subrange(start + 7, end)),
        ] + segments(raw, end + 1));
    } else {
        assert(segments(raw, from) =~= seq![
            Segment::Image(raw.subrange(start + 7, end)),
        ] + segments(raw, end + 1));
    }
}

/// Where no marker stands any more, or the next one is not closed, all that is left is prose.
pub proof fn law_what_is_left_is_prose(raw: Seq<char>, from: int)
    requires
        0 <= from < raw.len(),
        forall|k: int|
            from <= k && occurs_at(raw, "[IMAGE:"@, k) ==> forall|e: int|
                k <= e < raw.len() ==> #[trigger] raw[e] != ']',
    ensures
        segments(raw, from) == seq![Segment::Prose(raw.skip(from))],
{
    reveal_strlit("]");
    if has_marker(raw, from) {
        let (s, e) = next_marker(raw, from);
        assert(marker(raw, from, s, e));
        lemma_marker(raw, from, s, e);
        assert(occurs_at(raw, "[IMAGE:"@, s));
        assert(raw.subrange(e, e + 1)[0] == raw[e]);
        assert(MARKER_END@[0] == ']');
    }
    assert(raw.subrange(from, raw.len() as int) =~= raw.skip(from));
}

/// A part becomes the block of its kind: prose holds its words, an image what its reference resolves
/// to, and an image whose reference does not resolve is told in words.
pub proof fn law_a_part_becomes_the_block_of_its_kind(part: Segment, files: Seq<AttachedFile>)
    ensures
        part is Prose ==> holds_text(block(part, files), part->Prose_0),
        part is Image && image_of(part->Image_0, files) is Some ==> block(part, files) == image_of(
            part->Image_0,
            files,
        )->0,
        part is Image && image_of(part->Image_0, files) is None ==> holds_text(
            block(part, files),
            "[an attached image could not be read]"@,
        ),
{
    if part is Prose {
        law_a_block_holds_all_of_its_text(part->Prose_0, Seq::empty(), Seq::empty(), Seq::empty());
    }
    law_a_block_holds_all_of_its_text(
        "[an attached image could not be read]"@,
        Seq::empty(),
        Seq::empty(),
        Seq::empty(),
    );
}

/// A data reference is cut at its first separator: what stands before it is the type, and what
/// stands behind it is the data, as it is. A data reference without the separator is no image.
pub proof fn law_a_data_reference_is_sent_as_it_is(
    media: Seq<char>,
    data: Seq<char>,
    files: Seq<AttachedFile>,
)
    ensures
        (forall|k: int|
            0 <= k < media.len() ==> !occurs_at(media + ";base64,"@ + data, ";base64,"@, k)) ==> {
            &&& image_of("data:"@ + media + ";base64,"@ + data, files) is Some
            &&& holds_image(
                image_of("data:"@ + media + ";base64,"@ + data, files)->0,
                media,
                data,
            )
        },
        !occurs_in(data, ";base64,"@) ==> image_of("data:"@ + data, files) is None,
{
    let whole = "data:"@ + media + ";base64,"@ + data;
    let rest = media + ";base64,"@ + data;
    assert(whole =~= "data:"@ + rest);
    law_a_prefix_and_the_rest_make_the_text(rest, "data:"@);
    assert(whole.skip("data:"@.len() as int) =~= rest);
    if forall|k: int| 0 <= k < media.len() ==> !occurs_at(rest, ";base64,"@, k) {
        let n = media.len() as int;
        assert(rest.subrange(n, n + ";base64,"@.len()) =~= ";base64,"@);
        assert(occurs_at(rest, ";base64,"@, n));
        assert(first_occurrence(rest, ";base64,"@, 0, n));
        let i = choose|i: int| first_occurrence(rest, ";base64,"@, 0, i);
        assert(first_occurrence(rest, ";base64,"@, 0, i));
        if i < n {
            assert(occurs_at(rest, ";base64,"@, i));
        }
        if n < i {
            assert(occurs_at(rest, ";base64,"@, n));
        }
        assert(rest.take(n) =~= media);
        assert(rest.skip(n + ";base64,"@.len()) =~= data);
        law_a_block_holds_all_of_its_text(media, media, data, Seq::empty());
    }
    law_a_prefix_and_the_rest_make_the_text(data, "data:"@);
    assert(("data:"@ + data).skip("data:"@.len() as int) =~= data);
    if !occurs_in(data, ";base64,"@) {
        assert forall|i: int| !first_occurrence(data, ";base64,"@, 0, i) by {
            if first_occurrence(data, ";base64,"@, 0, i) {
                assert(occurs_at(data, ";base64,"@, i));
            }
        }
    }
}

/// A reference to a file is an image exactly where the first file of that path is a managed
/// attachment that could be read: then it holds the bytes of that file in Base64 and the type of its
/// extension.
pub proof fn law_a_managed_file_is_sent_in_whole(
    reference: Seq<char>,
    files: Seq<AttachedFile>,
    i: int,
)
    requires
        !begins_with(reference, "data:"@),
        0 <= i < files.len(),
        files[i].path@ == reference,
        forall|k: int| 0 <= k < i ==> (#[trigger] files[k]).path@ != reference,
    ensures
        image_of(reference, files) is Some <==> files[i].managed && files[i].bytes is Some,
        files[i].managed && files[i].bytes is Some ==> holds_image(
            image_of(reference, files)->0,
            media_type(reference),
            base64_text(files[i].bytes->0@),
        ),
{
    lemma_first_file(files, reference, 0, i);
    if files[i].bytes is Some {
        law_a_block_holds_all_of_its_text(
            Seq::empty(),
            media_type(reference),
            base64_text(files[i].bytes->0@),
            Seq::empty(),
        );
    }
}

/// The first file of a path is the one that counts.
proof fn lemma_first_file(files: Seq<AttachedFile>, path: Seq<char>, from: int, i: int)
    requires
        0 <= from <= i < files.len(),
        files[i].path@ == path,
        forall|k: int| from <= k < i ==> (#[trigger] files[k]).path@ != path,
    ensures
        bytes_at(files, path, from) == match files[i].bytes {
            Some(bytes) => if files[i].managed {
                Some(bytes@)
            } else {
                None
            },
            None => None,
        },
    decreases i - from,
{
    if from < i {
        assert(files[from].path@ != path);
        lemma_first_file(files, path, from + 1, i);
    }
}

/// The type of an image goes by the end of its path in any case of its letters, and is that of a
/// JPEG where the end is none of three.
pub proof fn law_the_type_of_an_image_goes_by_its_extension(path: Seq<char>)
    ensures
        ends_with_lowered(path, ".png"@) ==> media_type(path) == "image/png"@,
        ends_with_lowered(path, ".gif"@) ==> media_type(path) == "image/gif"@,
        ends_with_lowered(path, ".webp"@) ==> media_type(path) == "image/webp"@,
        !ends_with_lowered(path, ".png"@) && !ends_with_lowered(path, ".gif"@)
            && !ends_with_lowered(path, ".webp"@) ==> media_type(path) == "image/jpeg"@,
{
    reveal_strlit(".png");
    reveal_strlit(".gif");
    reveal_strlit(".webp");
    let n = path.len() as int;
    if ends_with_lowered(path, ".png"@) && ends_with_lowered(path, ".gif"@) {
        assert(ascii_lower(path[n - 4 + 1]) == ".png"@[1]);
        assert(ascii_lower(path[n - 4 + 1]) == ".gif"@[1]);
    }
    if ends_with_lowered(path, ".webp"@) {
        assert(ascii_lower(path[n - 5 + 4]) == ".webp"@[4]);
        if ends_with_lowered(path, ".png"@) {
            assert(ascii_lower(path[n - 4 + 3]) == ".png"@[3]);
        }
        if ends_with_lowered(path, ".gif"@) {
            assert(ascii_lower(path[n - 4 + 3]) == ".gif"@[3]);
        }
    }
}

/// The last user turn is the last message of the user's role, and there is none exactly where no
/// message has that role.
pub proof fn law_the_last_user_turn_is_sent(messages: Seq<ChatMessageView>, i: int)
    ensures
        last_user(messages, messages.len() as int) is None <==> forall|k: int|
            0 <= k < messages.len() ==> (#[trigger] messages[k]).role != "user"@,
        0 <= i < messages.len() && messages[i].role == "user"@ && (forall|k: int|
            i < k < messages.len() ==> (#[trigger] messages[k]).role != "user"@) ==> last_user(
            messages,
            messages.len() as int,
        ) == Some(i),
{
    lemma_last_user(messages, messages.len() as int);
}

/// The conversation is every message but those of the system, in their order.
pub proof fn law_system_messages_alone_are_left_out(
    messages: Seq<ChatMessageView>,
    message: ChatMessageView,
)
    ensures
        conversation(Seq::empty()) == Seq::<ChatMessageView>::empty(),
        message.role == "system"@ ==> conversation(messages.push(message)) == conversation(messages),
        message.role != "system"@ ==> conversation(messages.push(message)) == conversation(
            messages,
        ).push(message),
{
    reveal(Seq::filter);
    assert(messages.push(message).drop_last() =~= messages);
}

/// Whether a user turn was answered is decided by the next message that is a user's or an
/// assistant's: an assistant's answers it, a user's does not, and without either it was not.
pub proof fn law_a_turn_is_answered_before_the_next(messages: Seq<ChatMessageView>, i: int, j: int)
    requires
        0 <= i < j <= messages.len(),
        forall|k: int|
            i < k < j ==> (#[trigger] messages[k]).role != "user"@ && messages[k].role
                != "assistant"@,
    ensures
        j == messages.len() ==> !answered(messages, i),
        j < messages.len() && messages[j].role == "assistant"@ ==> answered(messages, i),
        j < messages.len() && messages[j].role == "user"@ ==> !answered(messages, i),
{
    if j < messages.len() && messages[j].role == "assistant"@ {
        assert forall|k: int| i < k < j implies (#[trigger] messages[k]).role != "user"@ by {}
    }
    reveal_strlit("user");
    reveal_strlit("assistant");
    assert("user"@.len() == 4 && "assistant"@.len() == 9);
    if answered(messages, i) {
        let a = choose|a: int|
            {
                &&& i < a < messages.len()
                &&& (#[trigger] messages[a]).role == "assistant"@
                &&& forall|k: int| i < k < a ==> (#[trigger] messages[k]).role != "user"@
            };
        if a < j {
            assert(messages[a].role != "assistant"@);
        }
        if j < a {
            assert(messages[j].role != "user"@);
        }
    }
}

/// What is told of a message is its speaker, a colon and all of its prose: an assistant, a user whose
/// turn was answered, and any other role under its own name. A message without prose is not told.
pub proof fn law_a_message_is_told_with_its_speaker(messages: Seq<ChatMessageView>, i: int)
    requires
        0 <= i < messages.len(),
        messages[i].prose.len() > 0,
    ensures
        messages[i].role == "assistant"@ ==> carried(messages, i) == seq![
            "Assistant"@ + ": "@ + messages[i].prose,
        ],
        messages[i].role == "user"@ && answered(messages, i) ==> carried(messages, i) == seq![
            "User"@ + ": "@ + messages[i].prose,
        ],
        messages[i].role == "user"@ && !answered(messages, i) ==> carried(messages, i).len() == 0,
        messages[i].role != "assistant"@ && messages[i].role != "user"@ ==> carried(messages, i)
            == seq![messages[i].role + ": "@ + messages[i].prose],
{
    reveal_strlit("user");
    reveal_strlit("assistant");
    assert("user"@.len() == 4 && "assistant"@.len() == 9);
}

/// A message without prose is not told.
pub proof fn law_a_silent_message_is_not_told(messages: Seq<ChatMessageView>, i: int)
    requires
        messages[i].prose.len() == 0,
    ensures
        carried(messages, i).len() == 0,
{
}

/// Messages are told in their order: what is told of a range is what is told of its two parts, one
/// behind the other, and of one message what is told of that message.
pub proof fn law_messages_are_told_in_order(
    messages: Seq<ChatMessageView>,
    from: int,
    middle: int,
    to: int,
)
    requires
        from <= middle <= to,
    ensures
        carried_turns(messages, from, to) == carried_turns(messages, from, middle) + carried_turns(
            messages,
            middle,
            to,
        ),
        carried_turns(messages, from, from).len() == 0,
        carried_turns(messages, from, from + 1) == carried(messages, from),
    decreases to - middle,
{
    reveal_with_fuel(carried_turns, 2);
    assert(carried_turns(messages, from, from + 1) =~= carried(messages, from));
    if middle < to {
        law_messages_are_told_in_order(messages, from, middle, to - 1);
        assert(carried_turns(messages, from, to) =~= carried_turns(messages, from, middle)
            + carried_turns(messages, middle, to));
    } else {
        assert(carried_turns(messages, from, to) =~= carried_turns(messages, from, middle)
            + carried_turns(messages, middle, to));
    }
}

/// What a turn is sent with. A resumed session gets the blocks of the last user turn alone. A new one
/// gets a text before them that tells what came before, between its two lines, and a text behind
/// them that tells what came behind; either is left out where there is nothing to tell.
pub proof fn law_a_new_session_is_told_the_rest_around_the_turn(
    messages: Seq<ChatMessageView>,
    last: int,
    files: Seq<AttachedFile>,
)
    ensures
        turn_content(messages, last, false, files) == blocks(messages[last].content, files),
        ({
            let early = carried_turns(messages, 0, last);
            let late = carried_turns(messages, last + 1, messages.len() as int);
            let own = blocks(messages[last].content, files);
            let content = turn_content(messages, last, true, files);
            let before = if early.len() > 0 {
                1int
            } else {
                0int
            };
            let behind = if late.len() > 0 {
                1int
            } else {
                0int
            };
            &&& content.len() == before + own.len() + behind
            &&& content.subrange(before, before + own.len()) == own
            &&& early.len() > 0 ==> holds_text(
                content[0],
                "[Earlier in this conversation]\n"@ + joined(early, "\n"@)
                    + "\n[End of earlier conversation]\n"@,
            )
            &&& late.len() > 0 ==> holds_text(
                content.last(),
                "[Later in this conversation]\n"@ + joined(late, "\n"@)
                    + "\n[End of later conversation]\n"@,
            )
        }),
{
    let early = carried_turns(messages, 0, last);
    let late = carried_turns(messages, last + 1, messages.len() as int);
    let own = blocks(messages[last].content, files);
    let content = turn_content(messages, last, true, files);
    let before = preamble(messages, last).len() as int;
    assert(content.subrange(before, before + own.len()) =~= own);
    law_a_block_holds_all_of_its_text(
        "[Earlier in this conversation]\n"@ + joined(early, "\n"@)
            + "\n[End of earlier conversation]\n"@,
        Seq::empty(),
        Seq::empty(),
        Seq::empty(),
    );
    law_a_block_holds_all_of_its_text(
        "[Later in this conversation]\n"@ + joined(late, "\n"@)
            + "\n[End of later conversation]\n"@,
        Seq::empty(),
        Seq::empty(),
        Seq::empty(),
    );
}

/// Every message of a conversation that has something to say reaches a new session in the text of
/// some block, but for the last user turn, which is sent itself, and a user turn that nobody
/// answered.
pub proof fn law_every_message_stands_in_the_text_of_a_block(
    messages: Seq<ChatMessageView>,
    files: Seq<AttachedFile>,
    i: int,
)
    requires
        ({
            let turns = conversation(messages);
            &&& last_user(turns, turns.len() as int) is Some
            &&& 0 <= i < turns.len()
            &&& i != last_user(turns, turns.len() as int)->0
            &&& turns[i].prose.len() > 0
            &&& turns[i].role != "user"@ || answered(turns, i)
        }),
    ensures
        ({
            let turns = conversation(messages);
            let last = last_user(turns, turns.len() as int)->0;
            let content = turn_content(turns, last, true, files);
            exists|b: int, t: Seq<char>|
                0 <= b < content.len() && #[trigger] holds_text(content[b], t) && occurs_in(
                    t,
                    turns[i].prose,
                )
        }),
{
    law_a_new_session_is_sent_every_message(messages, files, i);
    let turns = conversation(messages);
    let last = last_user(turns, turns.len() as int)->0;
    let content = turn_content(turns, last, true, files);
    let (b, t) = choose|b: int, t: Seq<char>|
        {
            &&& 0 <= b < content.len()
            &&& #[trigger] content[b] == #[trigger] text_block(t)
            &&& occurs_in(t, turns[i].prose)
        };
    law_a_block_holds_all_of_its_text(t, Seq::empty(), Seq::empty(), Seq::empty());
    assert(holds_text(content[b], t));
}

/// The bytes that are sent are one line with the turn and a line break, and nothing exactly where
/// there is no user turn.
pub proof fn law_one_line_is_sent_where_a_user_spoke(
    messages: Seq<ChatMessageView>,
    is_new_session: bool,
    files: Seq<AttachedFile>,
)
    ensures
        ({
            let turns = conversation(messages);
            let sent = stdin_bytes(messages, is_new_session, files);
            match last_user(turns, turns.len() as int) {
                None => sent.len() == 0,
                Some(last) => sent == encode_utf8(
                    json_text(turn_json(turn_content(turns, last, is_new_session, files)))
                        + "\n"@,
                ),
            }
        }),
{
}

/// The files that are needed are those of the image markers of the last user turn, each in its
/// order, and prose needs none.
pub proof fn law_the_references_of_parts_are_in_order(
    a: Seq<Segment>,
    b: Seq<Segment>,
    text: Seq<char>,
)
    ensures
        references(a + b) == references(a) + references(b),
        references(seq![Segment::Image(text)]) == seq![text],
        references(seq![Segment::Prose(text)]) == Seq::<Seq<char>>::empty(),
    decreases b.len(),
{
    reveal_with_fuel(references, 2);
    let image = seq![Segment::Image(text)];
    let words = seq![Segment::Prose(text)];
    assert(image.drop_last() =~= Seq::empty());
    assert(words.drop_last() =~= Seq::empty());
    assert(references(image) =~= seq![text]);
    if b.len() == 0 {
        assert(a + b =~= a);
        assert(references(a) + references(b) =~= references(a));
    } else {
        law_the_references_of_parts_are_in_order(a, b.drop_last(), text);
        assert((a + b).drop_last() =~= a + b.drop_last());
        assert((a + b).last() == b.last());
        assert(references(a + b) =~= references(a) + references(b));
    }
}

/// The images that are looked for are those of the last user turn and of no other message.
pub proof fn law_images_are_looked_for_in_the_last_turn(messages: Seq<ChatMessageView>)
    ensures
        ({
            let turns = conversation(messages);
            match last_user(turns, turns.len() as int) {
                None => turn_references(messages).len() == 0,
                Some(last) => turn_references(messages) == references(
                    segments(turns[last].content, 0),
                ),
            }
        }),
{
}

/// What a message and a part say is what they hold.
pub proof fn law_a_message_says_what_it_holds(messages: Seq<ChatMessage>, part: Part, i: int)
    ensures
        message_views(messages).len() == messages.len(),
        0 <= i < messages.len() ==> message_views(messages)[i].role == messages[i].role@
            && message_views(messages)[i].content == messages[i].content@ && message_views(
            messages,
        )[i].prose == messages[i].prose@,
        part is Prose ==> part@ == Segment::Prose(part->Prose_0@),
        part is Image ==> part@ == Segment::Image(part->Image_0@),
{
}

/// A file can be encoded exactly where four letters for every three bytes begun fit in memory, and
/// some files where each of those that were read can.
pub proof fn law_files_are_encodable_up_to_the_memory(files: Seq<AttachedFile>)
    ensures
        encodable(files) <==> forall|i: int|
            0 <= i < files.len() && (#[trigger] files[i]).bytes is Some ==> 4 * ((
            files[i].bytes->0@.len() + 2) / 3) <= isize::MAX,
{
}

/// What some values and some parts hold is what each of them holds, in their order.
pub proof fn law_values_and_parts_are_held_in_order(
    values: Seq<serde_json::Value>,
    parts: Seq<Part>,
    i: int,
)
    ensures
        json_values(values).len() == values.len(),
        0 <= i < values.len() ==> json_values(values)[i] == json_of(values[i]),
        part_views(parts).len() == parts.len(),
        0 <= i < parts.len() ==> part_views(parts)[i] == parts[i]@,
{
}

} // verus!
