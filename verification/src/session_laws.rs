//! Laws of session files: what is kept of a message, and that a damaged line costs no
//! more than itself.

use vstd::prelude::*;
use vstd::string::*;

use crate::model::MessageView;
use crate::persistence::{
    line_read, lines_read, messages_alike, restored_message, line_json, session_lines,
};
use crate::json_text::json_written;
use crate::text_laws::{lemma_run_push, run_together};

verus! {

/// A session file keeps of a message its role, its content, its reasoning, its tool
/// calls, the call that it answers and its session, and of its files the paths, kinds
/// and pages, in order.
pub proof fn messages_are_kept(m: MessageView)
    ensures
        ({
            let r = restored_message(m);
            &&& r.role == m.role
            &&& r.content == m.content
            &&& r.reasoning_content == m.reasoning_content
            &&& r.tool_calls == m.tool_calls
            &&& r.tool_call_id == m.tool_call_id
            &&& r.session_id == m.session_id
            &&& r.attached_files.len() == m.attached_files.len()
            &&& forall|i: int|
                0 <= i < m.attached_files.len() ==> (#[trigger] r.attached_files[i]).path
                    == m.attached_files[i].path && r.attached_files[i].attach_type
                    == m.attached_files[i].attach_type && r.attached_files[i].page_range
                    == m.attached_files[i].page_range
        }),
{
}

/// Two messages that are alike up to real numbers say and ask for the same.
pub proof fn alike_messages_say_the_same(a: MessageView, b: MessageView)
    requires
        messages_alike(a, b),
    ensures
        a.role == b.role,
        a.content == b.content,
        a.reasoning_content == b.reasoning_content,
        a.tool_call_id == b.tool_call_id,
        a.session_id == b.session_id,
        a.attached_files == b.attached_files,
        a.tool_calls is Some <==> b.tool_calls is Some,
        a.tool_calls is Some ==> a.tool_calls->0.len() == b.tool_calls->0.len() && forall|i: int|
            0 <= i < a.tool_calls->0.len() ==> (#[trigger] a.tool_calls->0[i]).id
                == b.tool_calls->0[i].id && a.tool_calls->0[i].name == b.tool_calls->0[i].name,
{
    if a.tool_calls is Some {
        assert forall|i: int| 0 <= i < a.tool_calls->0.len() implies (#[trigger] a.tool_calls->0[i]).id
            == b.tool_calls->0[i].id && a.tool_calls->0[i].name == b.tool_calls->0[i].name by {
            assert(crate::persistence::calls_alike(a.tool_calls->0[i], b.tool_calls->0[i]));
        }
    }
}

/// Whether no line is JSON of another kind.
pub open spec fn none_foreign(lines: Seq<Seq<char>>) -> bool {
    forall|i: int| 0 <= i < lines.len() ==> !(line_read(#[trigger] lines[i]) is Foreign)
}

proof fn lemma_no_error(lines: Seq<Seq<char>>, n: int)
    requires
        0 <= n <= lines.len(),
        none_foreign(lines),
    ensures
        lines_read(lines, n).error is None,
    decreases n,
{
    if n > 0 {
        lemma_no_error(lines, n - 1);
        assert(!(line_read(lines[n - 1]) is Foreign));
    }
}

/// The messages of a file are those of its lines, in order: reading a file is reading
/// its first part and then the rest, and no line costs another its message.
pub proof fn lines_are_read_one_by_one(a: Seq<Seq<char>>, b: Seq<Seq<char>>, n: int)
    requires
        none_foreign(a),
        none_foreign(b),
        0 <= n <= b.len(),
    ensures
        lines_read(a + b, a.len() + n).messages == lines_read(a, a.len() as int).messages
            + lines_read(b, n).messages,
        lines_read(a + b, a.len() + n).error is None,
        n > 0 ==> lines_read(b, n).messages.len() == lines_read(b, n - 1).messages.len() + if line_read(
            b[n - 1],
        ) is Message {
            1int
        } else {
            0int
        },
        n > 0 && line_read(b[n - 1]) is Message ==> lines_read(b, n).messages.last() == line_read(
            b[n - 1],
        )->Message_0,
    decreases n,
{
    lemma_no_error(b, n);
    if n > 0 {
        lemma_no_error(b, n - 1);
        lines_are_read_one_by_one(a, b, n - 1);
        assert((a + b)[a.len() + n - 1] == b[n - 1]);
        assert(!(line_read(b[n - 1]) is Foreign));
        assert(lines_read(a + b, a.len() + n).messages =~= lines_read(a, a.len() as int).messages
            + lines_read(b, n).messages);
    } else {
        lemma_front(a, b, a.len() as int);
        lemma_no_error(a, a.len() as int);
        assert(lines_read(a, a.len() as int).messages + lines_read(b, 0).messages =~= lines_read(
            a,
            a.len() as int,
        ).messages);
    }
}

proof fn lemma_front(a: Seq<Seq<char>>, b: Seq<Seq<char>>, n: int)
    requires
        0 <= n <= a.len(),
    ensures
        lines_read(a + b, n) == lines_read(a, n),
    decreases n,
{
    if n > 0 {
        lemma_front(a, b, n - 1);
        assert((a + b)[n - 1] == a[n - 1]);
    }
}

/// A line that is no JSON is passed over with one warning, a blank one without.
pub proof fn damaged_lines_are_warned_of(lines: Seq<Seq<char>>, n: int)
    requires
        0 < n <= lines.len(),
        lines_read(lines, n - 1).error is None,
    ensures
        line_read(lines[n - 1]) is Malformed ==> lines_read(lines, n).warnings.len() == lines_read(
            lines,
            n - 1,
        ).warnings.len() + 1 && lines_read(lines, n).messages == lines_read(lines, n - 1).messages,
        line_read(lines[n - 1]) is Blank ==> lines_read(lines, n) == lines_read(lines, n - 1),
        line_read(lines[n - 1]) is Foreign ==> lines_read(lines, n).error is Some && lines_read(
            lines,
            n,
        ).messages == lines_read(lines, n - 1).messages,
        line_read(lines[n - 1]) is Message ==> lines_read(lines, n).warnings == lines_read(
            lines,
            n - 1,
        ).warnings,
{
}

/// A session file has one line for each message, in order.
pub proof fn files_hold_every_message(messages: Seq<MessageView>, n: int)
    requires
        0 <= n <= messages.len(),
    ensures
        session_lines(messages, n) == run_together(
            messages.take(n).map_values(|m: MessageView| json_written(line_json(m)).push('\n')),
        ),
    decreases n,
{
    let f = |m: MessageView| json_written(line_json(m)).push('\n');
    if n > 0 {
        files_hold_every_message(messages, n - 1);
        let before = messages.take(n - 1).map_values(f);
        assert(messages.take(n).map_values(f) =~= before.push(f(messages[n - 1])));
        lemma_run_push(before, f(messages[n - 1]));
        assert(session_lines(messages, n) =~= run_together(before) + f(messages[n - 1]));
    } else {
        assert(messages.take(0).map_values(f) =~= Seq::<Seq<char>>::empty());
    }
}

} // verus!
