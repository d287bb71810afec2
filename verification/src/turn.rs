//! One turn of the conversation at the terminal: its input, its attachments
//! and its output.

use vstd::prelude::*;
use vstd::string::*;

use crate::attach::{file_size_text, format_file_size, AttachedFile};
use crate::cmd::SlashCmdResult;
use crate::file::FileType;
use crate::model::{Session, SessionView};
use crate::startup::{Config, C_CYAN, C_DIM_GRAY, C_YELLOW, RESET};
use crate::text::{
    byte_len, decimal, decimal_int, ends_with, i64_text, lowercase_of, opt_view, replace, replaced,
    take_chars, text_or, to_lowercase, trim, trimmed, usize_text, utf8_len,
};

verus! {

// ---------------------------------------------------------------------------
// Input
// ---------------------------------------------------------------------------

/// Whether the program runs once and leaves.
pub open spec fn runs_once(config: Config) -> bool {
    config.query is Some || config.todo_mode > 0
}

/// Whether the program runs once and leaves.
pub fn is_batch(config: &Config) -> (r: bool)
    ensures
        r == runs_once(*config),
{
    config.query.is_some() || config.todo_mode > 0
}

/// The input that is not read from the terminal: the query of a batch; in a
/// todo mode it only adds to the plan and may be empty.
pub fn batch_input(config: &Config) -> (r: Option<String>)
    ensures
        opt_view(r) == if config.todo_mode > 0 {
            Some(text_or(opt_view(config.query), ""@))
        } else {
            opt_view(config.query)
        },
{
    match &config.query {
        Some(q) => Some(q.clone()),
        None => if config.todo_mode > 0 {
            Some("".to_owned())
        } else {
            None
        },
    }
}

/// Whether an input is passed over.
pub fn is_passed_over(input: &str, todo_mode: u8) -> (r: bool)
    ensures
        r == (trimmed(input@).len() == 0 && todo_mode == 0),
{
    trim(input).is_empty() && todo_mode == 0
}

/// The prompt of a turn.
pub fn prompt(turn: i32) -> (r: String)
    ensures
        r@ == "\nUser-"@ + decimal_int(turn as int) + " > "@,
{
    let d = i64_text(turn as i64);
    let mut s = String::from_str("\nUser-");
    s.append(d.as_str());
    s.append(" > ");
    s
}

/// A session after a command.
pub open spec fn after_command(s: SessionView, turn: int, label: Option<Seq<char>>) -> SessionView {
    SessionView {
        turn: (turn + 1) as i32,
        label: match label {
            Some(l) => l,
            None => s.label,
        },
        ..s
    }
}

/// Takes over the outcome of a command: a session goes on after the turn to
/// which it was rewound or restored. Whether the program is to leave.
pub fn take_over(session: &mut Session, result: SlashCmdResult) -> (r: bool)
    requires
        match result {
            SlashCmdResult::RewoundTo(turn) => turn < i32::MAX,
            SlashCmdResult::RestoredTo { turn, label: _ } => turn < i32::MAX,
            _ => true,
        },
    ensures
        r == (result is Exit),
        final(session)@ == match result {
            SlashCmdResult::RewoundTo(turn) => after_command(old(session)@, turn as int, None),
            SlashCmdResult::RestoredTo { turn, label } => after_command(
                old(session)@,
                turn as int,
                Some(label@),
            ),
            _ => old(session)@,
        },
{
    match result {
        SlashCmdResult::NoAdvance => false,
        SlashCmdResult::RewoundTo(turn) => {
            session.turn = turn + 1;
            false
        },
        SlashCmdResult::RestoredTo { turn, label } => {
            session.turn = turn + 1;
            session.label = label;
            false
        },
        SlashCmdResult::Exit => true,
    }
}

// ---------------------------------------------------------------------------
// Attachments
// ---------------------------------------------------------------------------

/// How an attached file is announced, where `pdf` says whether its name is that
/// of a PDF.
pub open spec fn announced(f: AttachedFile, pdf: bool) -> Seq<char> {
    if pdf && f.attach_type is Text {
        match f.page_range {
            Some(p) => "Markdown extracted from "@ + f.path@ + " (p."@ + decimal(p.0 as nat)
                + "-p."@ + decimal(p.1 as nat) + ")"@,
            None => "Markdown extracted from "@ + f.path@,
        }
    } else {
        f.path@ + " ("@ + file_size_text(utf8_len(f.content@)) + ")"@
    }
}

/// How an attached file is announced.
pub fn announcement(f: &AttachedFile, pdf: bool) -> (r: String)
    ensures
        r@ == announced(*f, pdf),
{
    let is_text = match &f.attach_type {
        FileType::Text => true,
        _ => false,
    };
    if pdf && is_text {
        let mut s = String::from_str("Markdown extracted from ");
        s.append(f.path.as_str());
        match f.page_range {
            Some((a, b)) => {
                let from = usize_text(a);
                let to = usize_text(b);
                s.append(" (p.");
                s.append(from.as_str());
                s.append("-p.");
                s.append(to.as_str());
                s.append(")");
            },
            None => {},
        }
        s
    } else {
        let size = format_file_size(byte_len(f.content.as_str()) as u64);
        let mut s = f.path.clone();
        s.append(" (");
        s.append(size.as_str());
        s.append(")");
        s
    }
}

/// The line that announces an attached file.
pub fn attached_line(f: &AttachedFile) -> (r: String)
    ensures
        r@ == C_DIM_GRAY@ + "[Attached] "@ + announced(
            *f,
            ".pdf"@.is_suffix_of(lowercase_of(f.path@)),
        ) + RESET@ + "\n"@,
{
    let lower = to_lowercase(f.path.as_str());
    let label = announcement(f, ends_with(lower.as_str(), ".pdf"));
    let mut s = String::from_str(C_DIM_GRAY);
    s.append("[Attached] ");
    s.append(label.as_str());
    s.append(RESET);
    s.append("\n");
    s
}

/// The warning on a large file; a batch attaches it without asking.
pub fn oversized_line(path: &str, size: u64, batch: bool) -> (r: String)
    ensures
        r@ == "\x1b[93m[Warning] "@ + path@ + " exceeds 1 MiB: "@ + file_size_text(size as nat) + (
        if batch {
            " (attaching anyway)"@
        } else {
            ""@
        }) + RESET@ + "\n"@,
{
    let t = format_file_size(size);
    let mut s = String::from_str("\x1b[93m[Warning] ");
    s.append(path);
    s.append(" exceeds 1 MiB: ");
    s.append(t.as_str());
    s.append(
        if batch {
            " (attaching anyway)"
        } else {
            ""
        },
    );
    s.append(RESET);
    s.append("\n");
    s
}

/// The line on a file that does not exist.
pub fn missing_line(path: &str) -> (r: String)
    ensures
        r@ == C_YELLOW@ + "[File not found] "@ + path@ + RESET@ + "\n"@,
{
    let mut s = String::from_str(C_YELLOW);
    s.append("[File not found] ");
    s.append(path);
    s.append(RESET);
    s.append("\n");
    s
}

// ---------------------------------------------------------------------------
// Output
// ---------------------------------------------------------------------------

/// Where an answer goes.
#[derive(Debug, Clone, Copy, PartialEq, Eq, Structural)]
pub enum AnswerTarget {
    /// To the output file.
    File,
    /// To the standard output, as the answer of a batch.
    Stdout,
    /// Nowhere: it was shown while it came in.
    Nowhere,
}

/// Where an answer goes: to the output file where there is one, else to the
/// standard output in a batch.
pub fn answer_target(has_file: bool, batch: bool) -> (r: AnswerTarget)
    ensures
        r == if has_file {
            AnswerTarget::File
        } else if batch {
            AnswerTarget::Stdout
        } else {
            AnswerTarget::Nowhere
        },
{
    if has_file {
        AnswerTarget::File
    } else if batch {
        AnswerTarget::Stdout
    } else {
        AnswerTarget::Nowhere
    }
}

/// What is appended to the output file: the answer, below a separator where
/// the file holds something.
pub fn output_entry(answer: &str, turn: i32, label: &str, need_sep: bool) -> (r: String)
    ensures
        r@ == if need_sep {
            "\n\n<!-- always-goofy-things | turn "@ + decimal_int(turn as int) + " | session: "@
                + label@ + " -->\n\n"@ + answer@
        } else {
            answer@
        },
        answer@.is_suffix_of(r@),
{
    if !need_sep {
        proof {
            assert(answer@.subrange(0, answer@.len() as int) =~= answer@);
        }
        return answer.to_owned();
    }
    let d = i64_text(turn as i64);
    let mut s = String::from_str("\n\n<!-- always-goofy-things | turn ");
    s.append(d.as_str());
    s.append(" | session: ");
    s.append(label);
    s.append(" -->\n\n");
    s.append(answer);
    proof {
        assert(s@.subrange(s@.len() - answer@.len(), s@.len() as int) =~= answer@);
    }
    s
}

/// A query on one line, cut after ten characters.
pub open spec fn query_preview(q: Seq<char>) -> Seq<char> {
    let line = replaced(replaced(q, "\n"@, "\\n"@), "\r"@, ""@);
    if line.len() > 10 {
        line.take(10) + "..."@
    } else {
        line
    }
}

/// A query on one line, cut after ten characters.
pub fn preview_query(q: &str) -> (r: String)
    ensures
        r@ == query_preview(q@),
{
    proof {
        reveal_strlit("\n");
        reveal_strlit("\r");
    }
    let a = replace(q, "\n", "\\n");
    let line = replace(a.as_str(), "\r", "");
    if line.as_str().unicode_len() > 10 {
        let mut s = take_chars(line.as_str(), 10).to_owned();
        s.append("...");
        s
    } else {
        line
    }
}

/// The summary of a batch that took a time.
pub fn batch_summary(time: &str, output_file: &Option<String>, query: &Option<String>) -> (r: String)
    ensures
        r@ == "\n"@ + C_CYAN@ + "Batch completed in "@ + time@ + ", output -> "@ + text_or(
            opt_view(*output_file),
            "stdout"@,
        ) + ", query: \""@ + (match opt_view(*query) {
            Some(q) => query_preview(q),
            None => ""@,
        }) + "\""@ + RESET@ + ".\n"@,
{
    let out = match output_file {
        Some(p) => p.as_str(),
        None => "stdout",
    };
    let preview = match query {
        Some(q) => preview_query(q.as_str()),
        None => "".to_owned(),
    };
    let mut s = String::from_str("\n");
    s.append(C_CYAN);
    s.append("Batch completed in ");
    s.append(time);
    s.append(", output -> ");
    s.append(out);
    s.append(", query: \"");
    s.append(preview.as_str());
    s.append("\"");
    s.append(RESET);
    s.append(".\n");
    s
}

} // verus!
