//! Persistence of conversations: file names, the lines of a session file and
//! what is read back of them.
//!
//! A session file holds one JSON object per line. Files are opened, moved and
//! written by the caller.

use vstd::prelude::*;
use vstd::string::*;

use crate::attach::{files_view, AttachedFile, AttachedFileView};
use crate::file::{FileType, FileTypeView};
use crate::json::{slot_value, slots_fit};
use crate::json_model::{
    empty_object, group_json, has_slots, json_seq, key_index, lemma_empty_get, lemma_key_index,
    lemma_key_index_is, lemma_slot_index, lemma_with, member, members_of, opt_json, set_member,
    set_member_keeps_order, slot, slot_index, Json, JsonView,
};
use crate::json_text::{
    json_read, json_written, lemma_plain_same, lemma_same_get, parse_json, plain_json, print_json,
    same_but_reals, sound_json, Reading,
};
use crate::kb::reading_of;
use crate::model::{
    call_json, calls_json, calls_view, message_json, message_to_json, messages_view,
    opt_calls_view, with_text, FunctionCall, Message, MessageView, ToolCall, ToolCallView,
};
use crate::text::{
    decimal, fed, lemma_fed_push, lemma_lines_of_fed, lemma_views_push, lines_of, opt_view, str_eq,
    trim, trimmed, usize_text, views,
};

verus! {

broadcast use group_json;

// ---------------------------------------------------------------------------
// File names
// ---------------------------------------------------------------------------

/// The name of a file that belongs to a label.
pub open spec fn labelled(kind: Seq<char>, label: Seq<char>) -> Seq<char> {
    kind + label + ".jsonl"@
}

fn labelled_name(kind: &str, label: &str) -> (r: String)
    ensures
        r@ == labelled(kind@, label@),
{
    let mut s = String::from_str(kind);
    s.append(label);
    s.append(".jsonl");
    s
}

/// The file of the current session.
pub fn last_session_name(label: &str) -> (r: String)
    ensures
        r@ == labelled("last_session_"@, label@),
{
    labelled_name("last_session_", label)
}

/// The file of the previous session.
pub fn previous_session_name(label: &str) -> (r: String)
    ensures
        r@ == labelled("previous_session_"@, label@),
{
    labelled_name("previous_session_", label)
}

/// The file of the resource statistics, apart from the conversation.
pub fn stats_name(label: &str) -> (r: String)
    ensures
        r@ == labelled("llm_stats_"@, label@),
{
    labelled_name("llm_stats_", label)
}

/// The file beside the current session into which it is written anew.
pub fn temp_session_name(label: &str, process: u32) -> (r: String)
    ensures
        r@ == labelled("last_session_"@, label@) + ".tmp."@ + decimal(process as nat),
{
    let d = usize_text(process as usize);
    let mut s = last_session_name(label);
    s.append(".tmp.");
    s.append(d.as_str());
    s
}

/// The beginning of the name of a task's archive.
pub open spec fn archive_kind(task: nat) -> Seq<char> {
    "todo_loop_"@ + decimal(task) + "_"@
}

fn archive_start(task: usize) -> (r: String)
    ensures
        r@ == archive_kind(task as nat),
{
    let d = usize_text(task);
    let mut s = String::from_str("todo_loop_");
    s.append(d.as_str());
    s.append("_");
    s
}

/// The file in which the session of a task is kept.
pub fn archive_name(task: usize, label: &str) -> (r: String)
    ensures
        r@ == labelled(archive_kind(task as nat), label@),
{
    let kind = archive_start(task);
    labelled_name(kind.as_str(), label)
}

/// The file to which an earlier archive of a task is moved at a time.
pub fn archive_backup_name(task: usize, label: &str, stamp: &str) -> (r: String)
    ensures
        r@ == labelled(archive_kind(task as nat), label@ + "_"@ + stamp@),
{
    let kind = archive_start(task);
    let mut l = label.to_owned();
    l.append("_");
    l.append(stamp);
    labelled_name(kind.as_str(), l.as_str())
}

// ---------------------------------------------------------------------------
// Starting a session
// ---------------------------------------------------------------------------

/// What is done with the file of the last session at a start.
#[derive(Debug, Clone, Copy, PartialEq, Eq, Structural)]
pub enum StartAction {
    /// There is none: it is created.
    Create,
    /// It holds a conversation: it becomes the previous session.
    MoveToPrevious,
    /// It holds no user turn: it is emptied.
    Empty,
}

/// Whether a conversation has a user turn.
pub open spec fn has_user_turn(messages: Seq<MessageView>) -> bool {
    exists|i: int| 0 <= i < messages.len() && (#[trigger] messages[i]).role == "user"@
}

/// Decides what is done with the file of the last session at a start.
pub fn start_action(exists_file: bool, messages: &Vec<Message>) -> (r: StartAction)
    ensures
        r == (if !exists_file {
            StartAction::Create
        } else if has_user_turn(messages_view(messages@)) {
            StartAction::MoveToPrevious
        } else {
            StartAction::Empty
        }),
{
    if !exists_file {
        return StartAction::Create;
    }
    let ghost mv = messages_view(messages@);
    let mut i: usize = 0;
    while i < messages.len()
        invariant
            i <= messages@.len(),
            exists_file,
            mv == messages_view(messages@),
            forall|k: int| 0 <= k < i ==> (#[trigger] mv[k]).role != "user"@,
        decreases messages@.len() - i,
    {
        proof {
            assert(mv[i as int] == messages@[i as int]@);
        }
        if str_eq(messages[i].role.as_str(), "user") {
            proof {
                assert(mv[i as int].role == "user"@);
                assert(has_user_turn(mv));
            }
            return StartAction::MoveToPrevious;
        }
        i = i + 1;
    }
    StartAction::Empty
}

// ---------------------------------------------------------------------------
// Writing
// ---------------------------------------------------------------------------

/// The JSON form of a file kind.
pub open spec fn kind_json(k: FileTypeView) -> JsonView {
    match k {
        FileTypeView::Text => JsonView::Str("Text"@),
        FileTypeView::Image(m) => empty_object().with(
            "Image"@,
            empty_object().with("mime"@, JsonView::Str(m)),
        ),
        FileTypeView::Audio(f) => empty_object().with(
            "Audio"@,
            empty_object().with("format"@, JsonView::Str(f)),
        ),
        FileTypeView::Document(m) => empty_object().with(
            "Document"@,
            empty_object().with("mime"@, JsonView::Str(m)),
        ),
    }
}

/// The JSON form of a page range.
pub open spec fn range_json(r: Option<(usize, usize)>) -> JsonView {
    match r {
        Some(p) => JsonView::Array(
            seq![JsonView::Int(p.0 as int), JsonView::Int(p.1 as int)],
        ),
        None => JsonView::Null,
    }
}

/// The JSON form of an attached file, without its content.
pub open spec fn file_json(f: AttachedFileView) -> JsonView {
    empty_object().with("path"@, JsonView::Str(f.path)).with(
        "attach_type"@,
        kind_json(f.attach_type),
    ).with("page_range"@, range_json(f.page_range))
}

/// The JSON forms of attached files.
pub open spec fn files_json(files: Seq<AttachedFileView>) -> Seq<JsonView> {
    files.map_values(|f: AttachedFileView| file_json(f))
}

/// What the line of a message holds: the message as it is sent, the attached
/// files without their content, and the session it belongs to.
pub open spec fn line_json(m: MessageView) -> JsonView {
    let a = message_json(m);
    let b = if m.attached_files.len() > 0 {
        a.with("attached_files"@, JsonView::Array(files_json(m.attached_files)))
    } else {
        a
    };
    if m.session_id.len() > 0 {
        b.with("session_id"@, JsonView::Str(m.session_id))
    } else {
        b
    }
}

fn kind_to_json(k: &FileType) -> (r: Json)
    ensures
        r@ == kind_json(k@),
{
    match k {
        FileType::Text => Json::text("Text"),
        FileType::Image { mime } => Json::object().with(
            "Image",
            Json::object().with("mime", Json::text(mime.as_str())),
        ),
        FileType::Audio { format } => Json::object().with(
            "Audio",
            Json::object().with("format", Json::text(format.as_str())),
        ),
        FileType::Document { mime } => Json::object().with(
            "Document",
            Json::object().with("mime", Json::text(mime.as_str())),
        ),
    }
}

fn range_to_json(r: Option<(usize, usize)>) -> (j: Json)
    ensures
        j@ == range_json(r),
{
    match r {
        Some((a, b)) => {
            let mut v: Vec<Json> = Vec::new();
            v.push(Json::Unsigned(a as u64));
            v.push(Json::Unsigned(b as u64));
            proof {
                assert(json_seq(v@) =~= seq![JsonView::Int(a as int), JsonView::Int(b as int)]);
            }
            Json::Array(v)
        },
        None => Json::Null,
    }
}

fn files_to_json(files: &Vec<AttachedFile>) -> (r: Vec<Json>)
    ensures
        json_seq(r@) == files_json(files_view(files@)),
{
    let mut out: Vec<Json> = Vec::new();
    let mut i: usize = 0;
    while i < files.len()
        invariant
            i <= files@.len(),
            out@.len() == i,
            forall|k: int| 0 <= k < i ==> (#[trigger] out@[k])@ == file_json(files@[k]@),
        decreases files@.len() - i,
    {
        let f = &files[i];
        let j = Json::object().with("path", Json::text(f.path.as_str())).with(
            "attach_type",
            kind_to_json(&f.attach_type),
        ).with("page_range", range_to_json(f.page_range));
        out.push(j);
        i = i + 1;
    }
    proof {
        assert(json_seq(out@) =~= files_json(files_view(files@)));
    }
    out
}

/// What the line of a message holds.
pub fn line_value(m: &Message) -> (r: Json)
    ensures
        r@ == line_json(m@),
{
    let a = message_to_json(m);
    let b = if m.attached_files.len() > 0 {
        let files = files_to_json(&m.attached_files);
        a.with("attached_files", Json::Array(files))
    } else {
        a
    };
    if m.session_id.as_str().is_empty() {
        b
    } else {
        b.with("session_id", Json::text(m.session_id.as_str()))
    }
}

// ---------------------------------------------------------------------------
// Reading
// ---------------------------------------------------------------------------

/// A text that may be absent or null; `None` where it is something else.
pub open spec fn text_slot(v: Option<JsonView>) -> Option<Option<Seq<char>>> {
    match v {
        None => Some(None),
        Some(JsonView::Null) => Some(None),
        Some(JsonView::Str(s)) => Some(Some(s)),
        _ => None,
    }
}

/// A text that may be absent and is then empty; `None` where it is something
/// else.
pub open spec fn default_text(v: Option<JsonView>) -> Option<Seq<char>> {
    match v {
        None => Some(Seq::empty()),
        Some(JsonView::Str(s)) => Some(s),
        _ => None,
    }
}

/// A text that must be there.
pub open spec fn needed_text(v: Option<JsonView>) -> Option<Seq<char>> {
    match v {
        Some(JsonView::Str(s)) => Some(s),
        _ => None,
    }
}

/// The tool call that a value holds.
pub open spec fn call_of(j: JsonView) -> Option<ToolCallView> {
    if !has_slots(j, 4, 4) {
        None
    } else {
        match (
            default_text(slot(j, "id"@, 0)),
            default_text(slot(j, "type"@, 1)),
            slot(j, "function"@, 2),
            text_slot(slot(j, "thought_signature"@, 3)),
        ) {
            (Some(id), Some(tool_type), Some(function), Some(thought_signature)) => {
                if !has_slots(function, 2, 2) {
                    None
                } else {
                    match (
                        needed_text(slot(function, "name"@, 0)),
                        slot(function, "arguments"@, 1),
                    ) {
                        (Some(name), Some(arguments)) => Some(
                            ToolCallView { id, tool_type, name, arguments, thought_signature },
                        ),
                        _ => None,
                    }
                }
            },
            _ => None,
        }
    }
}

/// The first `n` tool calls that a list holds; `None` where one is none.
pub open spec fn calls_of(a: Seq<JsonView>, n: int) -> Option<Seq<ToolCallView>>
    decreases n,
{
    if n <= 0 {
        Some(Seq::empty())
    } else {
        match (calls_of(a, n - 1), call_of(a[n - 1])) {
            (Some(calls), Some(c)) => Some(calls.push(c)),
            _ => None,
        }
    }
}

/// The tool calls of a message, which may be absent or null.
pub open spec fn calls_slot(v: Option<JsonView>) -> Option<Option<Seq<ToolCallView>>> {
    match v {
        None => Some(None),
        Some(JsonView::Null) => Some(None),
        Some(JsonView::Array(a)) => match calls_of(a, a.len() as int) {
            Some(calls) => Some(Some(calls)),
            None => None,
        },
        _ => None,
    }
}

/// The file kind that a value holds.
pub open spec fn kind_of(j: JsonView) -> Option<FileTypeView> {
    match j {
        JsonView::Str(s) => if s == "Text"@ {
            Some(FileTypeView::Text)
        } else {
            None
        },
        JsonView::Object(m) => if m.len() != 1 {
            None
        } else {
            let name = m[0].0;
            let v = m[0].1;
            if name == "Text"@ {
                if v is Null {
                    Some(FileTypeView::Text)
                } else {
                    None
                }
            } else if !has_slots(v, 1, 1) {
                None
            } else if name == "Image"@ {
                match needed_text(slot(v, "mime"@, 0)) {
                    Some(t) => Some(FileTypeView::Image(t)),
                    None => None,
                }
            } else if name == "Audio"@ {
                match needed_text(slot(v, "format"@, 0)) {
                    Some(t) => Some(FileTypeView::Audio(t)),
                    None => None,
                }
            } else if name == "Document"@ {
                match needed_text(slot(v, "mime"@, 0)) {
                    Some(t) => Some(FileTypeView::Document(t)),
                    None => None,
                }
            } else {
                None
            }
        },
        _ => None,
    }
}

/// A number of pages.
pub open spec fn page_of(j: JsonView) -> Option<usize> {
    match j {
        JsonView::Int(n) => if 0 <= n <= usize::MAX {
            Some(n as usize)
        } else {
            None
        },
        _ => None,
    }
}

/// A page range that may be absent or null; `None` where it is something else.
pub open spec fn range_slot(v: Option<JsonView>) -> Option<Option<(usize, usize)>> {
    match v {
        None => Some(None),
        Some(JsonView::Null) => Some(None),
        Some(JsonView::Array(a)) => if a.len() != 2 {
            None
        } else {
            match (page_of(a[0]), page_of(a[1])) {
                (Some(x), Some(y)) => Some(Some((x, y))),
                _ => None,
            }
        },
        _ => None,
    }
}

/// The attached file that a value holds, without its content.
pub open spec fn file_of(j: JsonView) -> Option<AttachedFileView> {
    if !has_slots(j, 2, 3) {
        None
    } else {
        match (
            needed_text(slot(j, "path"@, 0)),
            slot(j, "attach_type"@, 1),
            range_slot(slot(j, "page_range"@, 2)),
        ) {
            (Some(path), Some(kind), Some(page_range)) => match kind_of(kind) {
                Some(attach_type) => Some(
                    AttachedFileView { path, content: Seq::empty(), attach_type, page_range },
                ),
                None => None,
            },
            _ => None,
        }
    }
}

/// The attached files among the first `n` values; what is none is passed over.
pub open spec fn files_of(a: Seq<JsonView>, n: int) -> Seq<AttachedFileView>
    decreases n,
{
    if n <= 0 {
        Seq::empty()
    } else {
        match file_of(a[n - 1]) {
            Some(f) => files_of(a, n - 1).push(f),
            None => files_of(a, n - 1),
        }
    }
}

/// The message that the value of a line holds; `None` where it is none.
pub open spec fn message_of(j: JsonView) -> Option<MessageView> {
    if !has_slots(j, 5, 5) {
        None
    } else {
        match (
            needed_text(slot(j, "role"@, 0)),
            needed_text(slot(j, "content"@, 1)),
            text_slot(slot(j, "reasoning_content"@, 2)),
            calls_slot(slot(j, "tool_calls"@, 3)),
            text_slot(slot(j, "tool_call_id"@, 4)),
        ) {
            (
                Some(role),
                Some(content),
                Some(reasoning_content),
                Some(tool_calls),
                Some(tool_call_id),
            ) => Some(
                MessageView {
                    role,
                    content,
                    reasoning_content,
                    tool_calls,
                    tool_call_id,
                    tool_name: None,
                    timestamp: 0,
                    model: None,
                    tool_call_decision: None,
                    attached_files: match j.array_at("attached_files"@) {
                        Some(a) => files_of(a, a.len() as int),
                        None => Seq::empty(),
                    },
                    session_id: match j.str_at("session_id"@) {
                        Some(s) => s,
                        None => Seq::empty(),
                    },
                },
            ),
            _ => None,
        }
    }
}

/// The contents of a text read from a slot.
pub open spec fn read_text(o: Option<Option<String>>) -> Option<Option<Seq<char>>> {
    match o {
        Some(t) => Some(opt_view(t)),
        None => None,
    }
}

fn text_in(v: Option<&Json>) -> (r: Option<Option<String>>)
    ensures
        read_text(r) == text_slot(opt_json(v)),
{
    match v {
        None => Some(None),
        Some(j) => match j {
            Json::Null => Some(None),
            Json::Str(s) => Some(Some(s.clone())),
            _ => None,
        },
    }
}

fn default_text_in(v: Option<&Json>) -> (r: Option<String>)
    ensures
        opt_view(r) == default_text(opt_json(v)),
{
    match v {
        None => {
            let s = String::new();
            proof {
                assert(s@ =~= Seq::<char>::empty());
            }
            Some(s)
        },
        Some(j) => match j {
            Json::Str(s) => Some(s.clone()),
            _ => None,
        },
    }
}

fn needed_text_in(v: Option<&Json>) -> (r: Option<String>)
    ensures
        opt_view(r) == needed_text(opt_json(v)),
{
    match v {
        None => None,
        Some(j) => match j {
            Json::Str(s) => Some(s.clone()),
            _ => None,
        },
    }
}

fn read_call(j: &Json) -> (r: Option<ToolCall>)
    ensures
        match r {
            Some(c) => call_of(j@) == Some(c@),
            None => call_of(j@) is None,
        },
{
    if !slots_fit(j, 4, 4) {
        return None;
    }
    let id = match default_text_in(slot_value(j, "id", 0)) {
        Some(t) => t,
        None => {
            return None;
        },
    };
    let tool_type = match default_text_in(slot_value(j, "type", 1)) {
        Some(t) => t,
        None => {
            return None;
        },
    };
    let function = match slot_value(j, "function", 2) {
        Some(f) => f,
        None => {
            return None;
        },
    };
    let thought_signature = match text_in(slot_value(j, "thought_signature", 3)) {
        Some(t) => t,
        None => {
            return None;
        },
    };
    if !slots_fit(function, 2, 2) {
        return None;
    }
    let name = match needed_text_in(slot_value(function, "name", 0)) {
        Some(t) => t,
        None => {
            return None;
        },
    };
    let arguments = match slot_value(function, "arguments", 1) {
        Some(a) => a.copy(),
        None => {
            return None;
        },
    };
    Some(
        ToolCall { id, tool_type, function: FunctionCall { name, arguments }, thought_signature },
    )
}

fn read_calls(v: Option<&Json>) -> (r: Option<Option<Vec<ToolCall>>>)
    ensures
        match r {
            Some(o) => calls_slot(opt_json(v)) == Some(opt_calls_view(o)),
            None => calls_slot(opt_json(v)) is None,
        },
{
    match v {
        None => Some(None),
        Some(j) => match j {
            Json::Null => Some(None),
            Json::Array(list) => {
                let ghost a = json_seq(list@);
                let mut out: Vec<ToolCall> = Vec::new();
                let mut i: usize = 0;
                proof {
                    assert(calls_view(out@) =~= Seq::<ToolCallView>::empty());
                }
                while i < list.len()
                    invariant
                        i <= list@.len(),
                        a == json_seq(list@),
                        opt_json(v) == Some(JsonView::Array(a)),
                        calls_of(a, i as int) == Some(calls_view(out@)),
                    decreases list@.len() - i,
                {
                    proof {
                        assert(a[i as int] == list@[i as int]@);
                    }
                    match read_call(&list[i]) {
                        Some(c) => {
                            let ghost before = out@;
                            out.push(c);
                            proof {
                                assert(calls_view(out@) =~= calls_view(before).push(c@));
                            }
                        },
                        None => {
                            proof {
                                lemma_calls_stay_none(a, i + 1, a.len() as int);
                            }
                            return None;
                        },
                    }
                    i = i + 1;
                }
                Some(Some(out))
            },
            _ => None,
        },
    }
}

proof fn lemma_calls_stay_none(a: Seq<JsonView>, i: int, n: int)
    requires
        0 < i <= n,
        calls_of(a, i) is None,
    ensures
        calls_of(a, n) is None,
    decreases n - i,
{
    if i < n {
        lemma_calls_stay_none(a, i, n - 1);
    }
}

fn read_kind(j: &Json) -> (r: Option<FileType>)
    ensures
        match r {
            Some(k) => kind_of(j@) == Some(k@),
            None => kind_of(j@) is None,
        },
{
    match j {
        Json::Str(s) => if str_eq(s.as_str(), "Text") {
            Some(FileType::Text)
        } else {
            None
        },
        Json::Object(m) => {
            proof {
                assert(j@ == JsonView::Object(members_of(m@)));
            }
            if m.len() != 1 {
                return None;
            }
            let name = m[0].0.as_str();
            let v = &m[0].1;
            proof {
                assert(members_of(m@)[0] == (name@, v@));
            }
            if str_eq(name, "Text") {
                return match v {
                    Json::Null => Some(FileType::Text),
                    _ => None,
                };
            }
            if !slots_fit(v, 1, 1) {
                return None;
            }
            if str_eq(name, "Image") {
                match needed_text_in(slot_value(v, "mime", 0)) {
                    Some(mime) => Some(FileType::Image { mime }),
                    None => None,
                }
            } else if str_eq(name, "Audio") {
                match needed_text_in(slot_value(v, "format", 0)) {
                    Some(format) => Some(FileType::Audio { format }),
                    None => None,
                }
            } else if str_eq(name, "Document") {
                match needed_text_in(slot_value(v, "mime", 0)) {
                    Some(mime) => Some(FileType::Document { mime }),
                    None => None,
                }
            } else {
                None
            }
        },
        _ => None,
    }
}

fn read_page(j: &Json) -> (r: Option<usize>)
    ensures
        r == page_of(j@),
{
    match j.as_u64() {
        Some(n) => if n <= usize::MAX as u64 {
            Some(n as usize)
        } else {
            None
        },
        None => None,
    }
}

fn read_range(v: Option<&Json>) -> (r: Option<Option<(usize, usize)>>)
    ensures
        r == range_slot(opt_json(v)),
{
    match v {
        None => Some(None),
        Some(j) => match j {
            Json::Null => Some(None),
            Json::Array(list) => {
                let ghost a = json_seq(list@);
                if list.len() != 2 {
                    return None;
                }
                proof {
                    assert(a[0] == list@[0]@);
                    assert(a[1] == list@[1]@);
                }
                match (read_page(&list[0]), read_page(&list[1])) {
                    (Some(x), Some(y)) => Some(Some((x, y))),
                    _ => None,
                }
            },
            _ => None,
        },
    }
}

fn read_file(j: &Json) -> (r: Option<AttachedFile>)
    ensures
        match r {
            Some(f) => file_of(j@) == Some(f@),
            None => file_of(j@) is None,
        },
{
    if !slots_fit(j, 2, 3) {
        return None;
    }
    let path = match needed_text_in(slot_value(j, "path", 0)) {
        Some(t) => t,
        None => {
            return None;
        },
    };
    let attach_type = match slot_value(j, "attach_type", 1) {
        Some(k) => match read_kind(k) {
            Some(t) => t,
            None => {
                return None;
            },
        },
        None => {
            return None;
        },
    };
    let page_range = match read_range(slot_value(j, "page_range", 2)) {
        Some(p) => p,
        None => {
            return None;
        },
    };
    let content = String::new();
    proof {
        assert(content@ =~= Seq::<char>::empty());
    }
    Some(AttachedFile { path, content, attach_type, page_range })
}

fn read_files(list: &Vec<Json>) -> (r: Vec<AttachedFile>)
    ensures
        files_view(r@) == files_of(json_seq(list@), list@.len() as int),
{
    let ghost a = json_seq(list@);
    let mut out: Vec<AttachedFile> = Vec::new();
    let mut i: usize = 0;
    proof {
        assert(files_view(out@) =~= files_of(a, 0));
    }
    while i < list.len()
        invariant
            i <= list@.len(),
            a == json_seq(list@),
            files_view(out@) == files_of(a, i as int),
        decreases list@.len() - i,
    {
        proof {
            assert(a[i as int] == list@[i as int]@);
        }
        match read_file(&list[i]) {
            Some(f) => {
                let ghost before = out@;
                out.push(f);
                proof {
                    assert(files_view(out@) =~= files_view(before).push(f@));
                }
            },
            None => {},
        }
        i = i + 1;
    }
    out
}

/// Reads the message that the value of a line holds.
pub fn message_of_json(j: &Json) -> (r: Option<Message>)
    ensures
        match r {
            Some(m) => message_of(j@) == Some(m@),
            None => message_of(j@) is None,
        },
{
    if !slots_fit(j, 5, 5) {
        return None;
    }
    let role = match needed_text_in(slot_value(j, "role", 0)) {
        Some(t) => t,
        None => {
            return None;
        },
    };
    let content = match needed_text_in(slot_value(j, "content", 1)) {
        Some(t) => t,
        None => {
            return None;
        },
    };
    let reasoning_content = match text_in(slot_value(j, "reasoning_content", 2)) {
        Some(t) => t,
        None => {
            return None;
        },
    };
    let tool_calls = match read_calls(slot_value(j, "tool_calls", 3)) {
        Some(c) => c,
        None => {
            return None;
        },
    };
    let tool_call_id = match text_in(slot_value(j, "tool_call_id", 4)) {
        Some(t) => t,
        None => {
            return None;
        },
    };
    let attached_files = match j.array_at("attached_files") {
        Some(list) => read_files(list),
        None => {
            let none: Vec<AttachedFile> = Vec::new();
            proof {
                assert(files_view(none@) =~= Seq::<AttachedFileView>::empty());
            }
            none
        },
    };
    let session_id = match j.str_at("session_id") {
        Some(s) => s.to_owned(),
        None => {
            let s = String::new();
            proof {
                assert(s@ =~= Seq::<char>::empty());
            }
            s
        },
    };
    Some(
        Message {
            role,
            content,
            reasoning_content,
            tool_calls,
            tool_call_id,
            tool_name: None,
            timestamp: 0,
            model: None,
            tool_call_decision: None,
            attached_files,
            session_id,
        },
    )
}

// ---------------------------------------------------------------------------
// Lines
// ---------------------------------------------------------------------------

/// What a line of a session file comes to.
pub enum LineView {
    /// Nothing but blanks.
    Blank,
    Message(MessageView),
    /// No JSON; the reader says why.
    Malformed(Seq<char>),
    /// JSON, but no message.
    Foreign,
}

/// What a reader makes of a line that is not blank.
pub open spec fn line_found(reading: Reading) -> LineView {
    match reading {
        Reading::Value(j) => match message_of(j) {
            Some(m) => LineView::Message(m),
            None => LineView::Foreign,
        },
        Reading::Malformed(why) => LineView::Malformed(why),
    }
}

/// What a line of a session file comes to.
pub open spec fn line_read(line: Seq<char>) -> LineView {
    if trimmed(line).len() == 0 {
        LineView::Blank
    } else {
        line_found(json_read(trimmed(line)))
    }
}

/// A line of a session file, as it was read.
#[derive(Debug, PartialEq, Eq)]
pub enum SessionLine {
    Blank,
    Message(Message),
    Malformed(String),
    Foreign,
}

impl View for SessionLine {
    type V = LineView;

    open spec fn view(&self) -> LineView {
        match *self {
            SessionLine::Blank => LineView::Blank,
            SessionLine::Message(m) => LineView::Message(m@),
            SessionLine::Malformed(e) => LineView::Malformed(e@),
            SessionLine::Foreign => LineView::Foreign,
        }
    }
}

/// What a reader makes of a line that is not blank.
pub fn line_of_reading(r: Result<Json, String>) -> (l: SessionLine)
    ensures
        l@ == line_found(reading_of(r)),
{
    match r {
        Ok(j) => match message_of_json(&j) {
            Some(m) => SessionLine::Message(m),
            None => SessionLine::Foreign,
        },
        Err(e) => SessionLine::Malformed(e),
    }
}

/// Reads a line of a session file.
pub fn read_line(line: &str) -> (r: SessionLine)
    ensures
        r@ == line_read(line@),
{
    let t = trim(line);
    if t.is_empty() {
        return SessionLine::Blank;
    }
    let read = parse_json(t);
    line_of_reading(read)
}

/// What the lines of a session file come to.
#[derive(Debug, PartialEq, Eq)]
pub struct SessionRead {
    pub messages: Vec<Message>,
    /// One for every line that is no JSON.
    pub warnings: Vec<String>,
    /// Where a line is JSON but no message, nothing after it is read.
    pub error: Option<String>,
}

/// What the lines of a session file come to.
pub struct ReadView {
    pub messages: Seq<MessageView>,
    pub warnings: Seq<Seq<char>>,
    pub error: Option<Seq<char>>,
}

impl View for SessionRead {
    type V = ReadView;

    open spec fn view(&self) -> ReadView {
        ReadView {
            messages: messages_view(self.messages@),
            warnings: views(self.warnings@),
            error: opt_view(self.error),
        }
    }
}

/// The warning on a line that is no JSON.
pub open spec fn malformed_warning(what: Seq<char>, line: nat, why: Seq<char>) -> Seq<char> {
    "\x1b[93mWarning: Skipping malformed "@ + what + " "@ + decimal(line) + ": "@ + why
        + " \x1b[0m"@
}

/// The warning on a line that is skipped; `what` is `line` or `stats line`.
pub fn skip_warning(what: &str, line: usize, why: &str) -> (r: String)
    ensures
        r@ == malformed_warning(what@, line as nat, why@),
{
    let d = usize_text(line);
    let mut s = String::from_str("\x1b[93mWarning: Skipping malformed ");
    s.append(what);
    s.append(" ");
    s.append(d.as_str());
    s.append(": ");
    s.append(why);
    s.append(" \x1b[0m");
    s
}

/// What the first `n` lines of a session file come to.
pub open spec fn lines_read(lines: Seq<Seq<char>>, n: int) -> ReadView
    decreases n,
{
    if n <= 0 {
        ReadView { messages: Seq::empty(), warnings: Seq::empty(), error: None }
    } else {
        let before = lines_read(lines, n - 1);
        if before.error is Some {
            before
        } else {
            match line_read(lines[n - 1]) {
                LineView::Blank => before,
                LineView::Message(m) => ReadView { messages: before.messages.push(m), ..before },
                LineView::Malformed(why) => ReadView {
                    warnings: before.warnings.push(malformed_warning("line"@, n as nat, why)),
                    ..before
                },
                LineView::Foreign => ReadView {
                    error: Some("Failed to parse message at line "@ + decimal(n as nat)),
                    ..before
                },
            }
        }
    }
}

/// Reads the lines of a session file: blank lines and lines that are no JSON
/// are passed over, the latter with a warning.
pub fn read_messages(lines: &Vec<String>) -> (r: SessionRead)
    ensures
        r@ == lines_read(views(lines@), lines@.len() as int),
{
    let ghost all = views(lines@);
    let mut out = SessionRead { messages: Vec::new(), warnings: Vec::new(), error: None };
    let n: usize = lines.len();
    let mut i: usize = 0;
    proof {
        assert(messages_view(out.messages@) =~= Seq::<MessageView>::empty());
        assert(views(out.warnings@) =~= Seq::<Seq<char>>::empty());
    }
    while i < n
        invariant
            i <= n,
            n == lines@.len(),
            all == views(lines@),
            out.error is None,
            out@ == lines_read(all, i as int),
        decreases n - i,
    {
        match read_line(lines[i].as_str()) {
            SessionLine::Blank => {},
            SessionLine::Message(m) => {
                let ghost before = out.messages@;
                out.messages.push(m);
                proof {
                    assert(messages_view(out.messages@) =~= messages_view(before).push(m@));
                }
            },
            SessionLine::Malformed(why) => {
                let w = skip_warning("line", i + 1, why.as_str());
                proof {
                    lemma_views_push(out.warnings@, w);
                }
                out.warnings.push(w);
            },
            SessionLine::Foreign => {
                let d = usize_text(i + 1);
                let mut s = String::from_str("Failed to parse message at line ");
                s.append(d.as_str());
                out.error = Some(s);
                proof {
                    lemma_error_stays(all, i + 1, n as int);
                }
                return out;
            },
        }
        i = i + 1;
    }
    out
}

proof fn lemma_error_stays(lines: Seq<Seq<char>>, i: int, n: int)
    requires
        0 <= i <= n,
        lines_read(lines, i).error is Some,
    ensures
        lines_read(lines, n) == lines_read(lines, i),
    decreases n - i,
{
    if i < n {
        lemma_error_stays(lines, i, n - 1);
    }
}

// ---------------------------------------------------------------------------
// What is read back
// ---------------------------------------------------------------------------

/// An attached file as it comes back from a line: without its content.
pub open spec fn restored_file(f: AttachedFileView) -> AttachedFileView {
    AttachedFileView { content: Seq::empty(), ..f }
}

/// A message as it comes back from its line: what is never sent is lost, but
/// for the attached files, without their content, and the session.
pub open spec fn restored_message(m: MessageView) -> MessageView {
    MessageView {
        tool_name: None,
        timestamp: 0,
        model: None,
        tool_call_decision: None,
        attached_files: m.attached_files.map_values(|f: AttachedFileView| restored_file(f)),
        ..m
    }
}

/// Whether the arguments of every tool call of a message can be read back: sound
/// values, not too deep, and without real numbers unless `reals` allows them.
pub open spec fn sound_calls(m: MessageView, reals: bool) -> bool {
    m.tool_calls is Some ==> forall|i: int|
        0 <= i < m.tool_calls->0.len() ==> sound_json(
            (#[trigger] m.tool_calls->0[i]).arguments,
            123,
            reals,
        )
}

/// Whether two tool calls are the same up to the real numbers in their arguments.
pub open spec fn calls_alike(a: ToolCallView, b: ToolCallView) -> bool {
    &&& b == ToolCallView { arguments: b.arguments, ..a }
    &&& same_but_reals(a.arguments, b.arguments)
}

/// Whether two messages are the same up to the real numbers in the arguments of
/// their tool calls.
pub open spec fn messages_alike(a: MessageView, b: MessageView) -> bool {
    &&& b == MessageView { tool_calls: b.tool_calls, ..a }
    &&& match (a.tool_calls, b.tool_calls) {
        (Some(x), Some(y)) => {
            &&& x.len() == y.len()
            &&& forall|i: int| 0 <= i < x.len() ==> calls_alike(#[trigger] x[i], y[i])
        },
        (None, None) => true,
        _ => false,
    }
}

proof fn lemma_message_keys()
    ensures
        "role"@ != "content"@,
        "role"@ != "reasoning_content"@,
        "role"@ != "tool_calls"@,
        "role"@ != "tool_call_id"@,
        "role"@ != "attached_files"@,
        "role"@ != "session_id"@,
        "content"@ != "reasoning_content"@,
        "content"@ != "tool_calls"@,
        "content"@ != "tool_call_id"@,
        "content"@ != "attached_files"@,
        "content"@ != "session_id"@,
        "reasoning_content"@ != "tool_calls"@,
        "reasoning_content"@ != "tool_call_id"@,
        "reasoning_content"@ != "attached_files"@,
        "reasoning_content"@ != "session_id"@,
        "tool_calls"@ != "tool_call_id"@,
        "tool_calls"@ != "attached_files"@,
        "tool_calls"@ != "session_id"@,
        "tool_call_id"@ != "attached_files"@,
        "tool_call_id"@ != "session_id"@,
        "attached_files"@ != "session_id"@,
{
    reveal_strlit("role");
    reveal_strlit("content");
    reveal_strlit("reasoning_content");
    reveal_strlit("tool_calls");
    reveal_strlit("tool_call_id");
    reveal_strlit("attached_files");
    reveal_strlit("session_id");
    assert("role"@.len() == 4);
    assert("content"@.len() == 7);
    assert("reasoning_content"@.len() == 17);
    assert("tool_calls"@.len() == 10);
    assert("tool_call_id"@.len() == 12);
    assert("attached_files"@.len() == 14);
    assert("session_id"@.len() == 10);
    assert("tool_calls"@[0] == 't');
    assert("session_id"@[0] == 's');
}

proof fn lemma_call_keys()
    ensures
        "id"@ != "type"@,
        "id"@ != "function"@,
        "id"@ != "thought_signature"@,
        "type"@ != "function"@,
        "type"@ != "thought_signature"@,
        "function"@ != "thought_signature"@,
        "name"@ != "arguments"@,
{
    reveal_strlit("id");
    reveal_strlit("type");
    reveal_strlit("function");
    reveal_strlit("thought_signature");
    reveal_strlit("name");
    reveal_strlit("arguments");
    assert("id"@.len() == 2);
    assert("type"@.len() == 4);
    assert("function"@.len() == 8);
    assert("thought_signature"@.len() == 17);
    assert("name"@.len() == 4);
    assert("arguments"@.len() == 9);
}

proof fn lemma_file_keys()
    ensures
        "path"@ != "attach_type"@,
        "path"@ != "page_range"@,
        "attach_type"@ != "page_range"@,
        "Text"@ != "Image"@,
        "Text"@ != "Audio"@,
        "Text"@ != "Document"@,
        "Image"@ != "Audio"@,
        "Image"@ != "Document"@,
        "Audio"@ != "Document"@,
{
    reveal_strlit("path");
    reveal_strlit("attach_type");
    reveal_strlit("page_range");
    reveal_strlit("Text");
    reveal_strlit("Image");
    reveal_strlit("Audio");
    reveal_strlit("Document");
    assert("path"@.len() == 4);
    assert("attach_type"@.len() == 11);
    assert("page_range"@.len() == 10);
    assert("Text"@.len() == 4);
    assert("Image"@.len() == 5);
    assert("Audio"@.len() == 5);
    assert("Document"@.len() == 8);
    assert("Image"@[0] == 'I');
    assert("Audio"@[0] == 'A');
}

/// The members that the value of a tool call has.
proof fn lemma_call_members(c: ToolCallView)
    ensures
        ({
            let j = call_json(c);
            let f = j.get("function"@);
            &&& j is Object
            &&& j.get("id"@) == Some(JsonView::Str(c.id))
            &&& j.get("type"@) == Some(JsonView::Str(c.tool_type))
            &&& j.get("thought_signature"@) == match c.thought_signature {
                Some(s) => Some(JsonView::Str(s)),
                None => None,
            }
            &&& f is Some && f->0 is Object
            &&& f->0.get("name"@) == Some(JsonView::Str(c.name))
            &&& f->0.get("arguments"@) == Some(c.arguments)
        }),
{
    lemma_call_keys();
    lemma_empty_get("name"@);
    lemma_empty_get("thought_signature"@);
    let e = empty_object();
    let f1 = e.with("name"@, JsonView::Str(c.name));
    let f2 = f1.with("arguments"@, c.arguments);
    lemma_with(e, "name"@, JsonView::Str(c.name));
    lemma_with(f1, "arguments"@, c.arguments);
    assert(f2.get("name"@) == Some(JsonView::Str(c.name)));
    let a = e.with("id"@, JsonView::Str(c.id));
    let b = a.with("type"@, JsonView::Str(c.tool_type));
    let d = b.with("function"@, f2);
    lemma_with(e, "id"@, JsonView::Str(c.id));
    lemma_with(a, "type"@, JsonView::Str(c.tool_type));
    lemma_with(b, "function"@, f2);
    assert(d.get("id"@) == Some(JsonView::Str(c.id)));
    assert(d.get("type"@) == Some(JsonView::Str(c.tool_type)));
    assert(d.get("thought_signature"@) is None);
    match c.thought_signature {
        Some(s) => {
            lemma_with(d, "thought_signature"@, JsonView::Str(s));
        },
        None => {},
    }
    let j = call_json(c);
    assert(j is Object);
    assert(j.get("id"@) == Some(JsonView::Str(c.id)));
    assert(j.get("type"@) == Some(JsonView::Str(c.tool_type)));
    assert(j.get("function"@) == Some(f2));
}

/// What is read from a value that is that of a tool call up to real numbers.
proof fn lemma_call_alike(c: ToolCallView, k: JsonView)
    requires
        same_but_reals(call_json(c), k),
    ensures
        call_of(k) is Some,
        calls_alike(c, call_of(k)->0),
{
    lemma_call_members(c);
    let j = call_json(c);
    lemma_same_get(j, k, "id"@);
    lemma_same_get(j, k, "type"@);
    lemma_same_get(j, k, "thought_signature"@);
    lemma_same_get(j, k, "function"@);
    let f = j.get("function"@)->0;
    let g = k.get("function"@)->0;
    lemma_same_get(f, g, "name"@);
    lemma_same_get(f, g, "arguments"@);
    assert(slot(k, "id"@, 0) == k.get("id"@));
    assert(slot(k, "type"@, 1) == k.get("type"@));
    assert(slot(k, "function"@, 2) == k.get("function"@));
    assert(slot(k, "thought_signature"@, 3) == k.get("thought_signature"@));
    assert(slot(g, "name"@, 0) == g.get("name"@));
    assert(slot(g, "arguments"@, 1) == g.get("arguments"@));
    let b = call_of(k)->0;
    assert(b =~= (ToolCallView { arguments: b.arguments, ..c }));
}

proof fn lemma_calls_alike(calls: Seq<ToolCallView>, list: Seq<JsonView>, n: int)
    requires
        0 <= n <= calls.len(),
        list.len() == calls.len(),
        forall|i: int| 0 <= i < list.len() ==> same_but_reals(call_json(calls[i]), #[trigger] list[i]),
    ensures
        calls_of(list, n) is Some,
        calls_of(list, n)->0.len() == n,
        forall|i: int| 0 <= i < n ==> calls_alike(calls[i], #[trigger] calls_of(list, n)->0[i]),
    decreases n,
{
    if n > 0 {
        lemma_calls_alike(calls, list, n - 1);
        lemma_call_alike(calls[n - 1], list[n - 1]);
    }
}

proof fn lemma_call_back(c: ToolCallView)
    ensures
        call_of(call_json(c)) == Some(c),
{
    lemma_call_members(c);
    let j = call_json(c);
    let f = j.get("function"@)->0;
    assert(slot(j, "id"@, 0) == Some(JsonView::Str(c.id)));
    assert(slot(j, "type"@, 1) == Some(JsonView::Str(c.tool_type)));
    assert(slot(j, "function"@, 2) == Some(f));
    assert(slot(f, "name"@, 0) == Some(JsonView::Str(c.name)));
    assert(slot(f, "arguments"@, 1) == Some(c.arguments));
}

proof fn lemma_calls_back(calls: Seq<ToolCallView>, n: int)
    requires
        0 <= n <= calls.len(),
    ensures
        calls_of(calls_json(calls), n) == Some(calls.take(n)),
    decreases n,
{
    if n > 0 {
        lemma_calls_back(calls, n - 1);
        lemma_call_back(calls[n - 1]);
        assert(calls.take(n) =~= calls.take(n - 1).push(calls[n - 1]));
    } else {
        assert(calls.take(0) =~= Seq::<ToolCallView>::empty());
    }
}

proof fn lemma_single(k: Seq<char>, v: JsonView)
    ensures
        empty_object().with(k, v) == JsonView::Object(seq![(k, v)]),
        member(seq![(k, v)], k) == Some(v),
{
    let none = Seq::<(Seq<char>, JsonView)>::empty();
    lemma_key_index(none, k, 0);
    lemma_slot_index(none, k, 0);
    assert(none.insert(0, (k, v)) =~= seq![(k, v)]);
    lemma_key_index_is(seq![(k, v)], k, 0, 0);
}

proof fn lemma_kind_back(k: FileTypeView)
    ensures
        kind_of(kind_json(k)) == Some(k),
{
    lemma_file_keys();
    match k {
        FileTypeView::Text => {},
        FileTypeView::Image(m) => {
            lemma_single("mime"@, JsonView::Str(m));
            lemma_single("Image"@, empty_object().with("mime"@, JsonView::Str(m)));
        },
        FileTypeView::Audio(f) => {
            lemma_single("format"@, JsonView::Str(f));
            lemma_single("Audio"@, empty_object().with("format"@, JsonView::Str(f)));
        },
        FileTypeView::Document(m) => {
            lemma_single("mime"@, JsonView::Str(m));
            lemma_single("Document"@, empty_object().with("mime"@, JsonView::Str(m)));
        },
    }
}

proof fn lemma_file_back(f: AttachedFileView)
    ensures
        file_of(file_json(f)) == Some(restored_file(f)),
{
    lemma_file_keys();
    lemma_kind_back(f.attach_type);
    let e = empty_object();
    let a = e.with("path"@, JsonView::Str(f.path));
    let b = a.with("attach_type"@, kind_json(f.attach_type));
    lemma_with(e, "path"@, JsonView::Str(f.path));
    lemma_with(a, "attach_type"@, kind_json(f.attach_type));
    lemma_with(b, "page_range"@, range_json(f.page_range));
    let j = file_json(f);
    assert(j.get("path"@) == Some(JsonView::Str(f.path)));
    assert(j.get("attach_type"@) == Some(kind_json(f.attach_type)));
    assert(slot(j, "path"@, 0) == Some(JsonView::Str(f.path)));
    assert(slot(j, "attach_type"@, 1) == Some(kind_json(f.attach_type)));
    assert(slot(j, "page_range"@, 2) == Some(range_json(f.page_range)));
}

proof fn lemma_files_back(files: Seq<AttachedFileView>, n: int)
    requires
        0 <= n <= files.len(),
    ensures
        files_of(files_json(files), n) == files.take(n).map_values(
            |f: AttachedFileView| restored_file(f),
        ),
    decreases n,
{
    let restored = files.take(n).map_values(|f: AttachedFileView| restored_file(f));
    if n > 0 {
        lemma_files_back(files, n - 1);
        lemma_file_back(files[n - 1]);
        assert(restored =~= files.take(n - 1).map_values(
            |f: AttachedFileView| restored_file(f),
        ).push(restored_file(files[n - 1])));
    } else {
        assert(restored =~= Seq::<AttachedFileView>::empty());
    }
}

/// The members that the line of a message has.
proof fn lemma_line_members(m: MessageView)
    ensures
        ({
            let j = line_json(m);
            &&& j is Object
            &&& j.get("role"@) == Some(JsonView::Str(m.role))
            &&& j.get("content"@) == Some(JsonView::Str(m.content))
            &&& j.get("reasoning_content"@) == match m.reasoning_content {
                Some(s) => Some(JsonView::Str(s)),
                None => None,
            }
            &&& j.get("tool_calls"@) == match m.tool_calls {
                Some(calls) => Some(JsonView::Array(calls_json(calls))),
                None => None,
            }
            &&& j.get("tool_call_id"@) == match m.tool_call_id {
                Some(s) => Some(JsonView::Str(s)),
                None => None,
            }
            &&& j.get("attached_files"@) == if m.attached_files.len() > 0 {
                Some(JsonView::Array(files_json(m.attached_files)))
            } else {
                None
            }
            &&& j.get("session_id"@) == if m.session_id.len() > 0 {
                Some(JsonView::Str(m.session_id))
            } else {
                None
            }
        }),
{
    lemma_message_keys();
    lemma_empty_get("reasoning_content"@);
    lemma_empty_get("tool_calls"@);
    lemma_empty_get("tool_call_id"@);
    lemma_empty_get("attached_files"@);
    lemma_empty_get("session_id"@);
    let e = empty_object();
    let r = e.with("role"@, JsonView::Str(m.role));
    let a = r.with("content"@, JsonView::Str(m.content));
    lemma_with(e, "role"@, JsonView::Str(m.role));
    lemma_with(r, "content"@, JsonView::Str(m.content));
    let b = with_text(a, "reasoning_content"@, m.reasoning_content);
    if m.reasoning_content is Some {
        lemma_with(a, "reasoning_content"@, JsonView::Str(m.reasoning_content->0));
    }
    let c = match m.tool_calls {
        Some(calls) => b.with("tool_calls"@, JsonView::Array(calls_json(calls))),
        None => b,
    };
    if m.tool_calls is Some {
        lemma_with(b, "tool_calls"@, JsonView::Array(calls_json(m.tool_calls->0)));
    }
    let d = with_text(c, "tool_call_id"@, m.tool_call_id);
    if m.tool_call_id is Some {
        lemma_with(c, "tool_call_id"@, JsonView::Str(m.tool_call_id->0));
    }
    assert(d == message_json(m));
    let f = if m.attached_files.len() > 0 {
        d.with("attached_files"@, JsonView::Array(files_json(m.attached_files)))
    } else {
        d
    };
    if m.attached_files.len() > 0 {
        lemma_with(d, "attached_files"@, JsonView::Array(files_json(m.attached_files)));
    }
    if m.session_id.len() > 0 {
        lemma_with(f, "session_id"@, JsonView::Str(m.session_id));
    }
}

/// What a line holds is the message that was written, but for what is never
/// kept.
pub proof fn lines_hold_their_message(m: MessageView)
    ensures
        message_of(line_json(m)) == Some(restored_message(m)),
{
    lemma_line_members(m);
    let j = line_json(m);
    assert(slot(j, "role"@, 0) == j.get("role"@));
    assert(slot(j, "content"@, 1) == j.get("content"@));
    assert(slot(j, "reasoning_content"@, 2) == j.get("reasoning_content"@));
    assert(slot(j, "tool_calls"@, 3) == j.get("tool_calls"@));
    assert(slot(j, "tool_call_id"@, 4) == j.get("tool_call_id"@));
    if m.tool_calls is Some {
        let calls = m.tool_calls->0;
        lemma_calls_back(calls, calls.len() as int);
        assert(calls.take(calls.len() as int) =~= calls);
        assert(calls_json(calls).len() == calls.len());
    }
    let files = m.attached_files;
    if files.len() > 0 {
        lemma_files_back(files, files.len() as int);
        assert(files.take(files.len() as int) =~= files);
        assert(files_json(files).len() == files.len());
    } else {
        assert(restored_message(m).attached_files =~= Seq::<AttachedFileView>::empty());
    }
    if m.session_id.len() == 0 {
        assert(m.session_id =~= Seq::<char>::empty());
    }
    assert(message_of(j)->0 =~= restored_message(m));
}

proof fn lemma_sound_with(j: JsonView, k: Seq<char>, v: JsonView, depth: nat, reals: bool)
    requires
        j is Object,
        depth > 0,
        sound_json(j, depth, reals),
        sound_json(v, (depth - 1) as nat, reals),
    ensures
        sound_json(j.with(k, v), depth, reals),
        j.with(k, v) is Object,
{
    let m = j->Object_0;
    let n = set_member(m, k, v);
    set_member_keeps_order(m, k, v);
    lemma_key_index(m, k, 0);
    lemma_slot_index(m, k, 0);
    let at = if key_index(m, k, 0) < m.len() {
        key_index(m, k, 0)
    } else {
        slot_index(m, k, 0)
    };
    assert forall|i: int| 0 <= i < n.len() implies sound_json(
        (#[trigger] n[i]).1,
        (depth - 1) as nat,
        reals,
    ) by {
        if i != at {
            if key_index(m, k, 0) < m.len() || i < at {
                assert(n[i] == m[i]);
            } else {
                assert(n[i] == m[i - 1]);
            }
        }
    }
}

proof fn lemma_sound_empty(depth: nat, reals: bool)
    requires
        depth > 0,
    ensures
        sound_json(empty_object(), depth, reals),
        empty_object() is Object,
{
}

proof fn lemma_call_sound(c: ToolCallView, reals: bool)
    requires
        sound_json(c.arguments, 123, reals),
    ensures
        sound_json(call_json(c), 125, reals),
{
    let e = empty_object();
    lemma_sound_empty(124, reals);
    lemma_sound_empty(125, reals);
    let f1 = e.with("name"@, JsonView::Str(c.name));
    lemma_sound_with(e, "name"@, JsonView::Str(c.name), 124, reals);
    let f2 = f1.with("arguments"@, c.arguments);
    lemma_sound_with(f1, "arguments"@, c.arguments, 124, reals);
    let a = e.with("id"@, JsonView::Str(c.id));
    lemma_sound_with(e, "id"@, JsonView::Str(c.id), 125, reals);
    let b = a.with("type"@, JsonView::Str(c.tool_type));
    lemma_sound_with(a, "type"@, JsonView::Str(c.tool_type), 125, reals);
    let d = b.with("function"@, f2);
    lemma_sound_with(b, "function"@, f2, 125, reals);
    if c.thought_signature is Some {
        lemma_sound_with(d, "thought_signature"@, JsonView::Str(c.thought_signature->0), 125, reals);
    }
}

proof fn lemma_kind_sound(k: FileTypeView, reals: bool)
    ensures
        sound_json(kind_json(k), 124, reals),
{
    let e = empty_object();
    lemma_sound_empty(124, reals);
    lemma_sound_empty(123, reals);
    match k {
        FileTypeView::Text => {},
        FileTypeView::Image(m) => {
            lemma_sound_with(e, "mime"@, JsonView::Str(m), 123, reals);
            lemma_sound_with(e, "Image"@, e.with("mime"@, JsonView::Str(m)), 124, reals);
        },
        FileTypeView::Audio(f) => {
            lemma_sound_with(e, "format"@, JsonView::Str(f), 123, reals);
            lemma_sound_with(e, "Audio"@, e.with("format"@, JsonView::Str(f)), 124, reals);
        },
        FileTypeView::Document(m) => {
            lemma_sound_with(e, "mime"@, JsonView::Str(m), 123, reals);
            lemma_sound_with(e, "Document"@, e.with("mime"@, JsonView::Str(m)), 124, reals);
        },
    }
}

proof fn lemma_file_sound(f: AttachedFileView, reals: bool)
    ensures
        sound_json(file_json(f), 125, reals),
{
    let e = empty_object();
    lemma_sound_empty(125, reals);
    lemma_kind_sound(f.attach_type, reals);
    let a = e.with("path"@, JsonView::Str(f.path));
    lemma_sound_with(e, "path"@, JsonView::Str(f.path), 125, reals);
    let b = a.with("attach_type"@, kind_json(f.attach_type));
    lemma_sound_with(a, "attach_type"@, kind_json(f.attach_type), 125, reals);
    let range = range_json(f.page_range);
    assert(sound_json(range, 124, reals)) by {
        match f.page_range {
            Some(p) => {
                let list = seq![JsonView::Int(p.0 as int), JsonView::Int(p.1 as int)];
                assert forall|i: int| 0 <= i < list.len() implies sound_json(
                    #[trigger] list[i],
                    123,
                    reals,
                ) by {}
            },
            None => {},
        }
    }
    lemma_sound_with(b, "page_range"@, range, 125, reals);
}

/// What the line of a message holds can be read back where the arguments of
/// its tool calls can.
proof fn lemma_line_sound(m: MessageView, reals: bool)
    requires
        sound_calls(m, reals),
    ensures
        sound_json(line_json(m), 127, reals),
        line_json(m) is Object,
{
    let e = empty_object();
    lemma_sound_empty(127, reals);
    let r = e.with("role"@, JsonView::Str(m.role));
    lemma_sound_with(e, "role"@, JsonView::Str(m.role), 127, reals);
    let a = r.with("content"@, JsonView::Str(m.content));
    lemma_sound_with(r, "content"@, JsonView::Str(m.content), 127, reals);
    let b = with_text(a, "reasoning_content"@, m.reasoning_content);
    if m.reasoning_content is Some {
        lemma_sound_with(a, "reasoning_content"@, JsonView::Str(m.reasoning_content->0), 127, reals);
    }
    let c = match m.tool_calls {
        Some(calls) => b.with("tool_calls"@, JsonView::Array(calls_json(calls))),
        None => b,
    };
    if m.tool_calls is Some {
        let calls = m.tool_calls->0;
        let list = calls_json(calls);
        assert forall|i: int| 0 <= i < list.len() implies sound_json(#[trigger] list[i], 125, reals) by {
            assert(list[i] == call_json(calls[i]));
            lemma_call_sound(calls[i], reals);
        }
        lemma_sound_with(b, "tool_calls"@, JsonView::Array(list), 127, reals);
    }
    let d = with_text(c, "tool_call_id"@, m.tool_call_id);
    if m.tool_call_id is Some {
        lemma_sound_with(c, "tool_call_id"@, JsonView::Str(m.tool_call_id->0), 127, reals);
    }
    assert(d == message_json(m));
    let f = if m.attached_files.len() > 0 {
        d.with("attached_files"@, JsonView::Array(files_json(m.attached_files)))
    } else {
        d
    };
    if m.attached_files.len() > 0 {
        let list = files_json(m.attached_files);
        assert forall|i: int| 0 <= i < list.len() implies sound_json(#[trigger] list[i], 125, reals) by {
            assert(list[i] == file_json(m.attached_files[i]));
            lemma_file_sound(m.attached_files[i], reals);
        }
        lemma_sound_with(d, "attached_files"@, JsonView::Array(list), 127, reals);
    }
    if m.session_id.len() > 0 {
        lemma_sound_with(f, "session_id"@, JsonView::Str(m.session_id), 127, reals);
    }
}

/// What a line holds up to real numbers is the message that was written up to
/// them, but for what is never kept.
pub proof fn lines_hold_their_message_up_to_reals(m: MessageView, k: JsonView)
    requires
        same_but_reals(line_json(m), k),
    ensures
        message_of(k) is Some,
        messages_alike(restored_message(m), message_of(k)->0),
{
    lemma_line_members(m);
    lines_hold_their_message(m);
    let j = line_json(m);
    lemma_same_get(j, k, "role"@);
    lemma_same_get(j, k, "content"@);
    lemma_same_get(j, k, "reasoning_content"@);
    lemma_same_get(j, k, "tool_calls"@);
    lemma_same_get(j, k, "tool_call_id"@);
    lemma_same_get(j, k, "attached_files"@);
    lemma_same_get(j, k, "session_id"@);
    assert(slot(k, "role"@, 0) == k.get("role"@));
    assert(slot(k, "content"@, 1) == k.get("content"@));
    assert(slot(k, "reasoning_content"@, 2) == k.get("reasoning_content"@));
    assert(slot(k, "tool_calls"@, 3) == k.get("tool_calls"@));
    assert(slot(k, "tool_call_id"@, 4) == k.get("tool_call_id"@));
    if m.tool_calls is Some {
        let calls = m.tool_calls->0;
        let list = k.get("tool_calls"@)->0->Array_0;
        assert forall|i: int| 0 <= i < list.len() implies same_but_reals(
            call_json(calls[i]),
            #[trigger] list[i],
        ) by {
            assert(same_but_reals(calls_json(calls)[i], list[i]));
        }
        lemma_calls_alike(calls, list, calls.len() as int);
    }
    if m.attached_files.len() > 0 {
        let files = files_json(m.attached_files);
        assert forall|i: int| 0 <= i < files.len() implies plain_json(#[trigger] files[i], 125) by {
            assert(files[i] == file_json(m.attached_files[i]));
            lemma_file_sound(m.attached_files[i], false);
        }
        lemma_plain_same(j.get("attached_files"@)->0, k.get("attached_files"@)->0, 126);
    }
    assert(k.get("attached_files"@) == j.get("attached_files"@));
    assert(k.get("session_id"@) == j.get("session_id"@));
    let b = message_of(k)->0;
    assert(b =~= (MessageView { tool_calls: b.tool_calls, ..restored_message(m) }));
}

proof fn lemma_braced_trimmed(s: Seq<char>)
    requires
        s.len() >= 2,
        s[0] == '{',
        s.last() == '}',
    ensures
        trimmed(s) == s,
{
    assert(crate::text::trimmed_start(s) =~= s);
    assert(crate::text::trimmed_end(s) =~= s);
}

/// A text that a session file can hold as a line.
pub open spec fn is_line_text(t: Seq<char>) -> bool {
    &&& t.len() >= 2
    &&& t[0] == '{'
    &&& t.last() == '}'
    &&& !t.contains('\n')
}

/// Whether a line comes to a message, up to the real numbers in the arguments of
/// its tool calls.
pub open spec fn line_restores(line: LineView, m: MessageView) -> bool {
    match line {
        LineView::Message(x) => messages_alike(restored_message(m), x),
        _ => false,
    }
}

/// The line of a message. Reading it back gives the message, but for what is
/// never kept, where the arguments of its tool calls can be read back: exactly
/// where no real number is among them, and up to these numbers otherwise.
pub fn serialize_message(m: &Message) -> (r: String)
    ensures
        r@ == json_written(line_json(m@)),
        is_line_text(r@),
        sound_calls(m@, false) ==> line_read(r@) == LineView::Message(restored_message(m@)),
        sound_calls(m@, true) ==> line_restores(line_read(r@), m@),
{
    let j = line_value(m);
    let s = print_json(&j);
    proof {
        lemma_line_members(m@);
        lemma_braced_trimmed(s@);
        if sound_calls(m@, false) {
            lemma_line_sound(m@, false);
            lines_hold_their_message(m@);
        }
        if sound_calls(m@, true) {
            lemma_line_sound(m@, true);
            lines_hold_their_message_up_to_reals(m@, json_read(s@)->Value_0);
        }
    }
    s
}

/// The lines of the first `n` messages, each with a line feed.
pub open spec fn session_lines(messages: Seq<MessageView>, n: int) -> Seq<char>
    decreases n,
{
    if n <= 0 {
        Seq::empty()
    } else {
        (session_lines(messages, n - 1) + json_written(line_json(messages[n - 1]))).push('\n')
    }
}

proof fn lemma_read_all(lines: Seq<Seq<char>>, messages: Seq<MessageView>, n: int)
    requires
        0 <= n <= lines.len(),
        lines.len() == messages.len(),
        forall|i: int|
            0 <= i < lines.len() ==> line_read(#[trigger] lines[i]) == LineView::Message(
                restored_message(messages[i]),
            ),
    ensures
        lines_read(lines, n).error is None,
        lines_read(lines, n).warnings == Seq::<Seq<char>>::empty(),
        lines_read(lines, n).messages == messages.take(n).map_values(
            |m: MessageView| restored_message(m),
        ),
    decreases n,
{
    let f = |m: MessageView| restored_message(m);
    if n > 0 {
        lemma_read_all(lines, messages, n - 1);
        assert(messages.take(n).map_values(f) =~= messages.take(n - 1).map_values(f).push(
            restored_message(messages[n - 1]),
        ));
        assert(line_read(lines[n - 1]) == LineView::Message(restored_message(messages[n - 1])));
    } else {
        assert(messages.take(0).map_values(f) =~= Seq::<MessageView>::empty());
    }
}

proof fn lemma_restore_all(lines: Seq<Seq<char>>, messages: Seq<MessageView>, n: int)
    requires
        0 <= n <= lines.len(),
        lines.len() == messages.len(),
        forall|i: int|
            0 <= i < lines.len() ==> line_restores(line_read(#[trigger] lines[i]), messages[i]),
    ensures
        lines_read(lines, n).error is None,
        lines_read(lines, n).warnings == Seq::<Seq<char>>::empty(),
        lines_read(lines, n).messages.len() == n,
        forall|i: int|
            0 <= i < n ==> messages_alike(
                restored_message(messages[i]),
                #[trigger] lines_read(lines, n).messages[i],
            ),
    decreases n,
{
    if n > 0 {
        lemma_restore_all(lines, messages, n - 1);
        assert(line_restores(line_read(lines[n - 1]), messages[n - 1]));
    }
}

/// The content of a session file with exactly the given messages. Reading its
/// lines back gives the messages in order, but for what is never kept, where
/// the arguments of their tool calls can be read back: exactly where no real number
/// is among them, and up to these numbers otherwise.
pub fn session_content(messages: &Vec<Message>) -> (r: String)
    ensures
        r@ == session_lines(messages_view(messages@), messages@.len() as int),
        ({
            let mv = messages_view(messages@);
            let read = lines_read(lines_of(r@), lines_of(r@).len() as int);
            (forall|i: int| 0 <= i < mv.len() ==> sound_calls(#[trigger] mv[i], false)) ==> {
                &&& lines_of(r@).len() == mv.len()
                &&& read.messages == mv.map_values(|m: MessageView| restored_message(m))
                &&& read.warnings.len() == 0
                &&& read.error is None
            }
        }),
        ({
            let mv = messages_view(messages@);
            let read = lines_read(lines_of(r@), lines_of(r@).len() as int);
            (forall|i: int| 0 <= i < mv.len() ==> sound_calls(#[trigger] mv[i], true)) ==> {
                &&& lines_of(r@).len() == mv.len()
                &&& read.messages.len() == mv.len()
                &&& forall|i: int|
                    0 <= i < mv.len() ==> messages_alike(
                        restored_message(mv[i]),
                        #[trigger] read.messages[i],
                    )
                &&& read.warnings.len() == 0
                &&& read.error is None
            }
        }),
{
    let ghost mv = messages_view(messages@);
    let ghost mut texts: Seq<Seq<char>> = Seq::empty();
    let mut out = String::new();
    let mut i: usize = 0;
    proof {
        assert(out@ =~= session_lines(mv, 0));
        assert(out@ =~= fed(texts, 0));
    }
    while i < messages.len()
        invariant
            i <= messages@.len(),
            mv == messages_view(messages@),
            out@ == session_lines(mv, i as int),
            texts.len() == i,
            out@ == fed(texts, 0),
            forall|k: int| 0 <= k < i ==> is_line_text(#[trigger] texts[k]),
            forall|k: int|
                0 <= k < i && sound_calls(mv[k], false) ==> line_read(#[trigger] texts[k])
                    == LineView::Message(restored_message(mv[k])),
            forall|k: int|
                0 <= k < i && sound_calls(mv[k], true) ==> line_restores(
                    line_read(#[trigger] texts[k]),
                    mv[k],
                ),
        decreases messages@.len() - i,
    {
        let line = serialize_message(&messages[i]);
        proof {
            assert(mv[i as int] == messages@[i as int]@);
            lemma_fed_push(texts, line@, 0);
            let before = texts;
            texts = texts.push(line@);
            assert forall|k: int| 0 <= k < i + 1 implies is_line_text(#[trigger] texts[k]) by {
                if k < i {
                    assert(texts[k] == before[k]);
                }
            }
            assert forall|k: int| 0 <= k < i + 1 && sound_calls(mv[k], false) implies line_read(
                #[trigger] texts[k],
            ) == LineView::Message(restored_message(mv[k])) by {
                if k < i {
                    assert(texts[k] == before[k]);
                }
            }
            assert forall|k: int| 0 <= k < i + 1 && sound_calls(mv[k], true) implies line_restores(
                line_read(#[trigger] texts[k]),
                mv[k],
            ) by {
                if k < i {
                    assert(texts[k] == before[k]);
                }
            }
        }
        out.append(line.as_str());
        out.push('\n');
        i = i + 1;
    }
    proof {
        lemma_lines_of_fed(texts);
        if forall|k: int| 0 <= k < mv.len() ==> sound_calls(#[trigger] mv[k], false) {
            assert forall|k: int| 0 <= k < texts.len() implies line_read(#[trigger] texts[k])
                == LineView::Message(restored_message(mv[k])) by {
                assert(sound_calls(mv[k], false));
            }
            lemma_read_all(texts, mv, texts.len() as int);
            assert(mv.take(mv.len() as int) =~= mv);
        }
        if forall|k: int| 0 <= k < mv.len() ==> sound_calls(#[trigger] mv[k], true) {
            assert forall|k: int| 0 <= k < texts.len() implies line_restores(
                line_read(#[trigger] texts[k]),
                mv[k],
            ) by {
                assert(sound_calls(mv[k], true));
            }
            lemma_restore_all(texts, mv, texts.len() as int);
        }
    }
    out
}

} // verus!
