//! Laws of the commands: a rewind goes back just as far as it is told, a restore
//! brings a conversation back whole, and a setting changes alone.

use vstd::arithmetic::div_mod::lemma_mod_multiples_vanish;
use vstd::prelude::*;
use vstd::string::*;

use crate::attach::{AttachedFileView, file_size_text};
use crate::cmd::{
    command_of, complete_turns, file_after, reload_count, reload_paths, reload_state, reload_total,
    reloaded_file, reloaded_messages, restored_id, rewind_plan, sorted_models, user_index,
    with_rows, with_setting, CommandView, Reload, ReloadView, time_of_day, two_digits, with_history,
    HistoryView, command_step, StepView,
};
use crate::json_model::{lemma_before_total, lemma_before_trans, text_before};
use crate::llm_stats::{PerModel, ModelTotals};
use crate::model::{MessageView, SessionView, SettingsView};
use crate::reasoning::role_count;
use crate::text::{
    decimal, decimal_int, first_from, is_digit, is_space, lemma_decimal, lemma_first_from,
    lowercase_of, occurs_at, parsed_signed, parsed_upto, trimmed, digits_value,
};
use crate::text_laws::{lemma_run_push, run_together};

verus! {

// ---------------------------------------------------------------------------
// Numbers
// ---------------------------------------------------------------------------

/// A number that was written is read as itself, as far as the limit goes.
pub proof fn written_numbers_are_read(n: nat, max: nat)
    ensures
        parsed_upto(decimal(n), max) == if n <= max {
            Some(n)
        } else {
            None
        },
        n <= max ==> parsed_signed(decimal_int(n as int), max) == Some(n as int),
        0 < n <= max ==> parsed_signed(decimal_int(-(n as int)), max) == Some(-(n as int)),
{
    lemma_decimal(n);
    let d = decimal(n);
    assert(is_digit(d[0]));
    let m = seq!['-'] + d;
    assert(m.drop_first() =~= d);
    assert(m[0] == '-');
}

// ---------------------------------------------------------------------------
// Rewinding
// ---------------------------------------------------------------------------

proof fn lemma_role_bound(messages: Seq<MessageView>, role: Seq<char>, a: int, b: int)
    requires
        0 <= a <= b,
    ensures
        role_count(messages, role, a) <= role_count(messages, role, b),
    decreases b - a,
{
    if a < b {
        lemma_role_bound(messages, role, a, b - 1);
    }
}

proof fn lemma_user_at(messages: Seq<MessageView>, k: int, i: int, at: int)
    requires
        0 <= i <= at < messages.len(),
        k >= 1,
        messages[at].role == "user"@,
        role_count(messages, "user"@, at) == role_count(messages, "user"@, i) + k - 1,
    ensures
        user_index(messages, k, i) == at,
    decreases at - i,
{
    if i < at {
        lemma_role_bound(messages, "user"@, i + 1, at);
        if messages[i].role == "user"@ {
            assert(k > 1);
            lemma_user_at(messages, k - 1, i + 1, at);
        } else {
            lemma_user_at(messages, k, i + 1, at);
        }
    } else if k > 1 {
        assert(false);
    }
}

/// Going back to a turn that is over is possible, and discards what came after it: the
/// conversation is cut at the first user message behind that turn.
pub proof fn rewinds_go_back_to_the_turn(
    arg: Seq<char>,
    turn: int,
    messages: Seq<MessageView>,
    current: i32,
    at: int,
)
    requires
        parsed_signed(arg, 0x7fff_ffff) == Some(turn),
        1 <= turn < current,
        messages.len() <= i32::MAX,
        0 <= at < messages.len(),
        messages[at].role == "user"@,
        role_count(messages, "user"@, at) == turn,
    ensures
        ({
            let p = rewind_plan(Some(arg), messages, current);
            &&& p is Ok
            &&& p->Ok_0.target == turn
            &&& p->Ok_0.truncate_at == at
            &&& p->Ok_0.last_turn == role_count(messages, "user"@, messages.len() as int)
        }),
{
    lemma_user_at(messages, turn + 1, 0, at);
    lemma_count_small(messages, "user"@, messages.len() as int);
}

proof fn lemma_count_small(messages: Seq<MessageView>, role: Seq<char>, n: int)
    requires
        0 <= n <= messages.len(),
    ensures
        role_count(messages, role, n) <= n,
    decreases n,
{
    if n > 0 {
        lemma_count_small(messages, role, n - 1);
    }
}

/// Nothing else is rewound: not without a number, not before the first turn, and not to
/// the present turn or a later one.
pub proof fn other_rewinds_are_refused(
    arg: Option<Seq<char>>,
    messages: Seq<MessageView>,
    current: i32,
)
    requires
        arg is None || parsed_signed(arg->0, 0x7fff_ffff) is None || parsed_signed(
            arg->0,
            0x7fff_ffff,
        )->0 < 1 || parsed_signed(arg->0, 0x7fff_ffff)->0 >= current,
    ensures
        rewind_plan(arg, messages, current) is Err,
{
}

// ---------------------------------------------------------------------------
// Restoring
// ---------------------------------------------------------------------------

/// A restored session keeps its identifier: the first that its messages carry.
pub proof fn restored_sessions_keep_their_identifier(
    messages: Seq<MessageView>,
    i: int,
    at: int,
)
    requires
        0 <= i <= at <= messages.len(),
        forall|k: int| i <= k < at ==> (#[trigger] messages[k]).session_id.len() == 0,
        at < messages.len() ==> messages[at].session_id.len() > 0,
    ensures
        restored_id(messages, i) == if at < messages.len() {
            Some(messages[at].session_id)
        } else {
            None
        },
    decreases at - i,
{
    if i < at {
        assert(messages[i].session_id.len() == 0);
        restored_sessions_keep_their_identifier(messages, i + 1, at);
    }
}

/// A restored conversation has every message that was saved, in its place; only the
/// files of user messages are read again.
pub proof fn restored_messages_come_back(
    messages: Seq<MessageView>,
    reads: Seq<Reload>,
    n: int,
    i: int,
)
    requires
        0 <= i < n <= messages.len(),
    ensures
        reloaded_messages(messages, reads, n).len() == n,
        ({
            let out = reloaded_messages(messages, reads, n)[i];
            let m = messages[i];
            &&& out == MessageView { attached_files: out.attached_files, ..m }
            &&& m.role != "user"@ ==> out == m
            &&& m.role == "user"@ ==> out.attached_files.len() == m.attached_files.len() && forall|
                x: int,
            |
                0 <= x < m.attached_files.len() ==> #[trigger] out.attached_files[x] == file_after(
                    m.attached_files[x],
                    reads[reload_total(messages, i) + x],
                )
        }),
    decreases n,
{
    lemma_reloaded(messages, reads, n);
    lemma_reloaded(messages, reads, n - 1);
    if i < n - 1 {
        restored_messages_come_back(messages, reads, n - 1, i);
        assert(reloaded_messages(messages, reads, n)[i] == reloaded_messages(
            messages,
            reads,
            n - 1,
        )[i]);
    } else {
        let m = messages[i];
        let out = reloaded_messages(messages, reads, n)[i];
        if m.attached_files.len() == 0 {
            assert(out.attached_files =~= m.attached_files);
        }
    }
}

proof fn lemma_reloaded(messages: Seq<MessageView>, reads: Seq<Reload>, n: int)
    requires
        0 <= n <= messages.len(),
    ensures
        reloaded_messages(messages, reads, n).len() == n,
    decreases n,
{
    if n > 0 {
        lemma_reloaded(messages, reads, n - 1);
    }
}

/// The files are read again in the order in which they were attached: the file `x` of
/// message `i` comes behind all files of the messages before it.
pub proof fn files_are_read_in_order(messages: Seq<MessageView>, n: int, i: int, x: int)
    requires
        0 <= i < n <= messages.len(),
        messages[i].role == "user"@,
        0 <= x < messages[i].attached_files.len(),
    ensures
        reload_paths(messages, n).len() == reload_total(messages, n),
        reload_total(messages, i) + x < reload_total(messages, n),
        reload_paths(messages, n)[reload_total(messages, i) + x]
            == messages[i].attached_files[x].path,
    decreases n,
{
    lemma_paths(messages, n);
    lemma_paths(messages, n - 1);
    lemma_paths_of(messages[n - 1].attached_files, reload_count(messages[n - 1]) as int);
    if i < n - 1 {
        files_are_read_in_order(messages, n - 1, i, x);
    }
}

proof fn lemma_paths_of(files: Seq<AttachedFileView>, n: int)
    requires
        0 <= n <= files.len(),
    ensures
        crate::cmd::paths_upto(files, n).len() == n,
        forall|k: int|
            0 <= k < n ==> #[trigger] crate::cmd::paths_upto(files, n)[k] == files[k].path,
    decreases n,
{
    if n > 0 {
        lemma_paths_of(files, n - 1);
    }
}

proof fn lemma_paths(messages: Seq<MessageView>, n: int)
    requires
        0 <= n <= messages.len(),
    ensures
        reload_paths(messages, n).len() == reload_total(messages, n),
    decreases n,
{
    if n > 0 {
        lemma_paths(messages, n - 1);
        lemma_paths_of(messages[n - 1].attached_files, reload_count(messages[n - 1]) as int);
    }
}

/// A file that can be read again has its content back; one that cannot loses it and
/// keeps its path.
pub proof fn files_come_back_or_lose_their_content(f: AttachedFileView, r: Reload)
    ensures
        file_after(f, r).path == f.path,
        !r.exists ==> file_after(f, r).content.len() == 0 && file_after(f, r).attach_type
            == f.attach_type && reloaded_file(f, r) is Err,
        reloaded_file(f, r) is Ok ==> file_after(f, r) == reloaded_file(f, r)->Ok_0 && r.exists,
        reloaded_file(f, r) is Err ==> file_after(f, r).content.len() == 0,
{
}

/// Every file that was to be read again is reported once, as restored or as missing.
pub proof fn every_file_is_accounted_for(
    messages: Seq<MessageView>,
    reads: Seq<Reload>,
    n: int,
)
    requires
        0 <= n <= messages.len(),
    ensures
        ({
            let st = reload_state(messages, reads, n);
            st.restored.len() + st.missing.len() == reload_total(messages, n)
        }),
    decreases n,
{
    if n > 0 {
        every_file_is_accounted_for(messages, reads, n - 1);
        lemma_after_reloads(
            reload_state(messages, reads, n - 1),
            messages[n - 1].attached_files,
            reads,
            reload_total(messages, n - 1) as int,
            reload_count(messages[n - 1]) as int,
        );
    }
}

proof fn lemma_after_reloads(
    st: ReloadView,
    files: Seq<AttachedFileView>,
    reads: Seq<Reload>,
    from: int,
    n: int,
)
    requires
        n >= 0,
    ensures
        ({
            let out = crate::cmd::after_reloads(st, files, reads, from, n);
            out.restored.len() + out.missing.len() == st.restored.len() + st.missing.len() + n
        }),
    decreases n,
{
    if n > 0 {
        lemma_after_reloads(st, files, reads, from, n - 1);
    }
}

/// A turn is complete once something follows its question.
pub proof fn turns_are_complete_once_answered(messages: Seq<MessageView>, m: MessageView)
    ensures
        m.role == "user"@ ==> complete_turns(messages.push(m)) == role_count(
            messages,
            "user"@,
            messages.len() as int,
        ),
        m.role != "user"@ ==> complete_turns(messages.push(m)) == role_count(
            messages,
            "user"@,
            messages.len() as int,
        ),
{
    let all = messages.push(m);
    lemma_count_push(messages, m, messages.len() as int);
    assert(all[all.len() - 1] == m);
}

proof fn lemma_count_push(messages: Seq<MessageView>, m: MessageView, n: int)
    requires
        0 <= n <= messages.len(),
    ensures
        role_count(messages.push(m), "user"@, n) == role_count(messages, "user"@, n),
    decreases n,
{
    if n > 0 {
        lemma_count_push(messages, m, n - 1);
    }
}

// ---------------------------------------------------------------------------
// Settings
// ---------------------------------------------------------------------------

proof fn lemma_config_keys()
    ensures
        crate::cmd::config_key("v"@) == Some(crate::cmd::ConfigKey::Verbose),
        crate::cmd::config_key("p"@) == Some(crate::cmd::ConfigKey::Pretty),
        crate::cmd::config_key("r"@) == Some(crate::cmd::ConfigKey::Rpm),
        crate::cmd::config_key("t"@) == Some(crate::cmd::ConfigKey::OutputTokens),
        crate::cmd::config_key("e"@) == Some(crate::cmd::ConfigKey::EmptyResponses),
        crate::cmd::config_key("verbose-level"@) == Some(crate::cmd::ConfigKey::Verbose),
        crate::cmd::config_key("pretty-level"@) == Some(crate::cmd::ConfigKey::Pretty),
        crate::cmd::config_key("llm-rpm"@) == Some(crate::cmd::ConfigKey::Rpm),
        crate::cmd::config_key("max-output-tokens"@) == Some(crate::cmd::ConfigKey::OutputTokens),
        crate::cmd::config_key("max-reasoning-empty-responses"@) == Some(
            crate::cmd::ConfigKey::EmptyResponses,
        ),
{
    reveal_strlit("v");
    reveal_strlit("p");
    reveal_strlit("r");
    reveal_strlit("t");
    reveal_strlit("e");
    reveal_strlit("verbose-level");
    reveal_strlit("verbose_level");
    reveal_strlit("verbose");
    reveal_strlit("pretty-level");
    reveal_strlit("pretty_level");
    reveal_strlit("pretty");
    reveal_strlit("llm-rpm");
    reveal_strlit("llm_rpm");
    reveal_strlit("rpm");
    reveal_strlit("max-output-tokens");
    reveal_strlit("max_output_tokens");
    reveal_strlit("output-tokens");
    reveal_strlit("max-reasoning-empty-responses");
    reveal_strlit("max_reasoning_empty_responses");
    reveal_strlit("reasoning-empty-responses");
    assert("v"@.len() == 1 && "v"@[0] == 'v');
    assert("p"@.len() == 1 && "p"@[0] == 'p');
    assert("r"@.len() == 1 && "r"@[0] == 'r');
    assert("t"@.len() == 1 && "t"@[0] == 't');
    assert("e"@.len() == 1 && "e"@[0] == 'e');
    assert("verbose-level"@.len() == 13 && "verbose_level"@.len() == 13 && "verbose"@.len() == 7);
    assert("pretty-level"@.len() == 12 && "pretty_level"@.len() == 12 && "pretty"@.len() == 6);
    assert("llm-rpm"@.len() == 7 && "llm_rpm"@.len() == 7 && "rpm"@.len() == 3);
    assert("llm-rpm"@[0] == 'l' && "verbose"@[0] == 'v');
    assert("max-output-tokens"@.len() == 17 && "max_output_tokens"@.len() == 17);
    assert("output-tokens"@.len() == 13 && "output-tokens"@[0] == 'o' && "verbose-level"@[0]
        == 'v');
    assert("max-reasoning-empty-responses"@.len() == 29);
    assert("max_reasoning_empty_responses"@.len() == 29);
    assert("reasoning-empty-responses"@.len() == 25);
}

/// A setting takes the number that it is given, where that lies in its range, and no
/// other setting changes; a number out of range is refused. The keys are the long names
/// and their letters.
pub proof fn settings_change_alone(s: SettingsView, long: bool, value: Seq<char>, n: nat)
    requires
        parsed_upto(value, u32::MAX as nat) == Some(n),
        n <= 255 ==> parsed_upto(value, 255) == Some(n),
        n > 255 ==> parsed_upto(value, 255) is None,
    ensures
        ({
            let out = with_setting(
                s,
                if long {
                    "verbose-level"@
                } else {
                    "v"@
                },
                value,
            );
            &&& out is Ok <==> n <= 4
            &&& out is Ok ==> out->Ok_0 == SettingsView { verbose_level: n as u8, ..s }
        }),
        ({
            let out = with_setting(
                s,
                if long {
                    "pretty-level"@
                } else {
                    "p"@
                },
                value,
            );
            &&& out is Ok <==> n <= 2
            &&& out is Ok ==> out->Ok_0 == SettingsView { pretty_level: n as u8, ..s }
        }),
        ({
            let out = with_setting(
                s,
                if long {
                    "llm-rpm"@
                } else {
                    "r"@
                },
                value,
            );
            &&& out is Ok
            &&& out->Ok_0 == SettingsView { llm_rpm: n as u32, ..s }
        }),
        ({
            let out = with_setting(
                s,
                if long {
                    "max-output-tokens"@
                } else {
                    "t"@
                },
                value,
            );
            &&& out is Ok <==> n > 0
            &&& out is Ok ==> out->Ok_0 == SettingsView { max_output_tokens: n as u32, ..s }
        }),
        ({
            let out = with_setting(
                s,
                if long {
                    "max-reasoning-empty-responses"@
                } else {
                    "e"@
                },
                value,
            );
            &&& out is Ok
            &&& out->Ok_0 == SettingsView { max_reasoning_empty_responses: n as u32, ..s }
        }),
{
    lemma_config_keys();
}

// ---------------------------------------------------------------------------
// Names
// ---------------------------------------------------------------------------

proof fn lemma_plain_name(name: Seq<char>)
    requires
        forall|i: int| 0 <= i < name.len() ==> 'a' <= #[trigger] name[i] <= 'z' || name[i] == '/',
    ensures
        lowercase_of(name) == name,
{
    assert forall|i: int| 0 <= i < name.len() implies (#[trigger] name[i] as u32) < 128 by {
        assert('a' <= name[i] <= 'z' || name[i] == '/');
    }
    assert(crate::text::ascii_lower(name) =~= name);
}

proof fn lemma_command_split(name: Seq<char>, arg: Seq<char>)
    requires
        name.len() > 0,
        name[0] == '/',
        forall|i: int| 0 <= i < name.len() ==> 'a' <= #[trigger] name[i] <= 'z' || name[i] == '/',
        arg.len() > 0,
        !is_space(arg[0]),
        !is_space(arg.last()),
    ensures
        ({
            let input = name + seq![' '] + arg;
            &&& trimmed(input) == input
            &&& crate::cmd::command_parts(input) == (name, Some(arg))
            &&& "/"@.is_prefix_of(input)
            &&& !crate::cmd::is_exit(input)
        }),
{
    let s = name + seq![' '] + arg;
    let at = name.len() as int;
    reveal_strlit(" ");
    reveal_strlit("/");
    assert(" "@ =~= seq![' ']);
    assert(s[0] == '/');
    assert(s.last() == arg.last());
    assert(crate::text::space_end(s, 0) == 0);
    assert(crate::text::trimmed_start(s) =~= s);
    assert(crate::text::text_end(s, s.len() as int) == s.len());
    assert(trimmed(s) =~= s);
    assert(s.subrange(0, 1) =~= "/"@);
    assert(s.subrange(at, at + 1) =~= " "@);
    assert forall|k: int| 0 <= k < at implies !occurs_at(s, " "@, k) by {
        assert(s[k] == name[k]);
        if occurs_at(s, " "@, k) {
            assert(s.subrange(k, k + 1)[0] == s[k]);
            assert(" "@[0] == ' ');
        }
    }
    lemma_first_from(s, " "@, 0);
    assert(occurs_at(s, " "@, at));
    assert(first_from(s, " "@, 0) == Some(at));
    assert(s.take(at) =~= name);
    assert(s.skip(at + 1) =~= arg);
    assert(crate::text::space_end(arg, 0) == 0);
    assert(crate::text::trimmed_start(arg) =~= arg);
    assert(crate::text::text_end(arg, arg.len() as int) == arg.len());
    assert(trimmed(arg) =~= arg);
    assert(s[at] == ' ');
    reveal_strlit("/exit");
    reveal_strlit("/quit");
    reveal_strlit("exit");
    reveal_strlit("quit");
    assert(!crate::cmd::is_exit(s)) by {
        if s == "/exit"@ {
            assert("/exit"@[at] == ' ');
        }
        if s == "/quit"@ {
            assert("/quit"@[at] == ' ');
        }
        if s == "exit"@ || s == "quit"@ {
            assert("exit"@[0] == 'e' && "quit"@[0] == 'q');
        }
    }
}

/// A command is known by its name, and what follows the name is its argument.
pub proof fn commands_are_known_by_their_name(arg: Seq<char>)
    requires
        arg.len() > 0,
        !is_space(arg[0]),
        !is_space(arg.last()),
    ensures
        command_of("/rewind"@ + seq![' '] + arg) == Some(CommandView::Rewind(Some(arg))),
        command_of("/history"@ + seq![' '] + arg) == Some(CommandView::History(Some(arg))),
        command_of("/model"@ + seq![' '] + arg) == Some(CommandView::Model(Some(arg))),
        command_of("/config"@ + seq![' '] + arg) == Some(CommandView::Config(Some(arg))),
        command_of("/restore"@ + seq![' '] + arg) == Some(CommandView::Restore(Some(arg))),
{
    reveal_strlit("/h");
    reveal_strlit("/help");
    reveal_strlit("/rewind");
    reveal_strlit("/history");
    reveal_strlit("/model");
    reveal_strlit("/config");
    reveal_strlit("/restore");
    reveal_strlit("/stats");
    assert("/h"@.len() == 2 && "/help"@.len() == 5 && "/rewind"@.len() == 7);
    assert("/history"@.len() == 8 && "/model"@.len() == 6 && "/config"@.len() == 7);
    assert("/restore"@.len() == 8 && "/stats"@.len() == 6);
    assert("/rewind"@[1] == 'r' && "/config"@[1] == 'c' && "/history"@[1] == 'h');
    assert("/restore"@[1] == 'r' && "/model"@[1] == 'm' && "/stats"@[1] == 's');
    lemma_plain_name("/rewind"@);
    lemma_plain_name("/history"@);
    lemma_plain_name("/model"@);
    lemma_plain_name("/config"@);
    lemma_plain_name("/restore"@);
    lemma_command_split("/rewind"@, arg);
    lemma_command_split("/history"@, arg);
    lemma_command_split("/model"@, arg);
    lemma_command_split("/config"@, arg);
    lemma_command_split("/restore"@, arg);
}

/// An input that begins with no slash is no command, but for the words that leave.
pub proof fn other_inputs_are_no_command(input: Seq<char>)
    requires
        trimmed(input).len() > 0,
        trimmed(input)[0] != '/',
        trimmed(input) != "exit"@,
        trimmed(input) != "quit"@,
    ensures
        command_of(input) is None,
{
    reveal_strlit("/");
    reveal_strlit("/exit");
    reveal_strlit("/quit");
    let t = trimmed(input);
    assert("/exit"@[0] == '/' && "/quit"@[0] == '/');
    if "/"@.is_prefix_of(t) {
        assert("/"@[0] == t.subrange(0, 1)[0]);
    }
}

// ---------------------------------------------------------------------------
// Statistics
// ---------------------------------------------------------------------------

/// The table of models holds the row of every model, one after the other.
pub proof fn every_model_has_its_row(s: Seq<char>, m: PerModel, n: int)
    requires
        0 <= n <= m.len(),
    ensures
        with_rows(s, m, n) == s + run_together(
            m.take(n).map_values(
                |p: (Seq<char>, crate::llm_stats::ModelTotals)| crate::cmd::totals_row(p.0, p.1),
            ),
        ),
    decreases n,
{
    let f = |p: (Seq<char>, crate::llm_stats::ModelTotals)| crate::cmd::totals_row(p.0, p.1);
    if n > 0 {
        every_model_has_its_row(s, m, n - 1);
        let before = m.take(n - 1).map_values(f);
        assert(m.take(n).map_values(f) =~= before.push(f(m[n - 1])));
        lemma_run_push(before, f(m[n - 1]));
        assert(s + run_together(before) + f(m[n - 1]) =~= s + (run_together(before) + f(m[n - 1])));
    } else {
        assert(m.take(0).map_values(f) =~= Seq::<Seq<char>>::empty());
        assert(s + Seq::<char>::empty() =~= s);
    }
}

/// Sorting the models loses none and adds none.
pub proof fn sorting_keeps_the_models(m: PerModel, n: int)
    requires
        0 <= n <= m.len(),
    ensures
        sorted_models(m, n).to_multiset() == m.take(n).to_multiset(),
        sorted_models(m, n).len() == n,
    decreases n,
{
    broadcast use vstd::seq_lib::group_to_multiset_ensures;

    if n > 0 {
        sorting_keeps_the_models(m, n - 1);
        let before = sorted_models(m, n - 1);
        let at = crate::cmd::model_slot(before, m[n - 1].0, 0);
        lemma_slot(before, m[n - 1].0, 0);
        assert(m.take(n) =~= m.take(n - 1).push(m[n - 1]));
        vstd::seq_lib::to_multiset_insert(before, at, m[n - 1]);
    } else {
        assert(m.take(0) =~= sorted_models(m, 0));
    }
}

proof fn lemma_slot(m: PerModel, name: Seq<char>, i: int)
    requires
        0 <= i <= m.len(),
    ensures
        i <= crate::cmd::model_slot(m, name, i) <= m.len(),
    decreases m.len() - i,
{
    if i < m.len() && !text_before(name, m[i].0, 0) {
        lemma_slot(m, name, i + 1);
    }
}

/// The models stand in the order of their names.
pub proof fn models_stand_by_name(m: PerModel, n: int)
    requires
        0 <= n <= m.len(),
    ensures
        forall|i: int, j: int|
            0 <= i < j < n ==> !text_before(
                (#[trigger] sorted_models(m, n)[j]).0,
                (#[trigger] sorted_models(m, n)[i]).0,
                0,
            ),
    decreases n,
{
    if n > 0 {
        models_stand_by_name(m, n - 1);
        sorting_keeps_the_models(m, n - 1);
        let before = sorted_models(m, n - 1);
        let name = m[n - 1].0;
        let at = crate::cmd::model_slot(before, name, 0);
        lemma_slot(before, name, 0);
        lemma_slot_first(before, name, 0);
        let out = sorted_models(m, n);
        assert forall|i: int, j: int| 0 <= i < j < n implies !text_before(
            (#[trigger] out[j]).0,
            (#[trigger] out[i]).0,
            0,
        ) by {
            if i == at {
                let b = before[j - 1].0;
                assert(out[j].0 == b);
                let a = before[at].0;
                assert(text_before(name, a, 0));
                if at < j - 1 {
                    assert(!text_before(b, a, 0));
                }
                if a != b {
                    assert(a.take(0) =~= b.take(0));
                    lemma_before_total(a, b, 0);
                }
                if text_before(b, name, 0) {
                    if a == b {
                        lemma_before_trans(a, name, a, 0);
                        lemma_not_itself(a, 0);
                    } else {
                        lemma_before_trans(name, a, b, 0);
                        lemma_before_trans(b, name, b, 0);
                        lemma_not_itself(b, 0);
                    }
                }
            } else if j == at {
                assert(out[i] == before[i]);
            } else if j < at {
                assert(out[i] == before[i] && out[j] == before[j]);
            } else if i > at {
                assert(out[i] == before[i - 1] && out[j] == before[j - 1]);
            } else {
                assert(out[i] == before[i] && out[j] == before[j - 1]);
            }
        }
    }
}

proof fn lemma_not_itself(k: Seq<char>, i: int)
    ensures
        !text_before(k, k, i),
    decreases k.len() - i,
{
    if 0 <= i < k.len() {
        lemma_not_itself(k, i + 1);
    }
}

proof fn lemma_slot_first(m: PerModel, name: Seq<char>, i: int)
    requires
        0 <= i <= m.len(),
    ensures
        forall|k: int|
            i <= k < crate::cmd::model_slot(m, name, i) ==> !text_before(
                name,
                (#[trigger] m[k]).0,
                0,
            ),
        crate::cmd::model_slot(m, name, i) < m.len() ==> text_before(
            name,
            m[crate::cmd::model_slot(m, name, i)].0,
            0,
        ),
    decreases m.len() - i,
{
    if i < m.len() && !text_before(name, m[i].0, 0) {
        lemma_slot_first(m, name, i + 1);
    }
}

// ---------------------------------------------------------------------------
// What is shown
// ---------------------------------------------------------------------------

/// The summary grows with each message: one more turn for a user message, one more call
/// for a response, and what was shown stays.
pub proof fn summaries_grow(h: HistoryView, m: MessageView, clock: Seq<char>)
    ensures
        ({
            let out = with_history(h, m, clock);
            &&& out.turn == h.turn + if m.role == "user"@ {
                1nat
            } else {
                0nat
            }
            &&& m.role == "user"@ ==> out.calls == 0 && h.out.is_prefix_of(out.out)
                && (crate::cmd::preview(m.content, 60) + "\n"@).is_suffix_of(out.out)
            &&& m.role == "assistant"@ && h.turn > 0 ==> out.calls == h.calls + 1
            &&& m.role == "tool"@ && h.turn > 0 ==> (crate::cmd::preview(m.content, 60)
                + "\n"@).is_suffix_of(out.out)
            &&& m.role != "user"@ && h.turn == 0 ==> out == h
        }),
{
    reveal_strlit("user");
    reveal_strlit("assistant");
    reveal_strlit("tool");
    assert("user"@.len() == 4 && "assistant"@.len() == 9 && "tool"@.len() == 4);
    assert("user"@[0] == 'u' && "tool"@[0] == 't');
    let out = with_history(h, m, clock);
    let end = crate::cmd::preview(m.content, 60) + "\n"@;
    if m.role == "user"@ {
        assert(out.out.subrange(0, h.out.len() as int) =~= h.out);
        assert(out.out.subrange(out.out.len() - end.len(), out.out.len() as int) =~= end);
    } else if m.role == "tool"@ && h.turn > 0 {
        assert(out.out.subrange(out.out.len() - end.len(), out.out.len() as int) =~= end);
    }
}

/// The time of the day is that of the moment: hours, minutes and seconds, of two digits
/// each, that make up the seconds since midnight.
pub proof fn times_of_day_are_those_of_the_moment(seconds: int)
    ensures
        ({
            let s = seconds % 86400;
            let h = s / 3600;
            let m = seconds % 3600 / 60;
            let x = seconds % 60;
            &&& time_of_day(seconds) == two_digits(h) + ":"@ + two_digits(m) + ":"@ + two_digits(x)
            &&& h * 3600 + m * 60 + x == s
            &&& 0 <= h < 24 && 0 <= m < 60 && 0 <= x < 60
        }),
{
    lemma_clock(seconds);
}

proof fn lemma_clock(seconds: int)
    ensures
        ({
            let s = seconds % 86400;
            let h = s / 3600;
            let m = seconds % 3600 / 60;
            let x = seconds % 60;
            &&& h * 3600 + m * 60 + x == s
            &&& 0 <= h < 24 && 0 <= m < 60 && 0 <= x < 60
        }),
{
    let q = seconds / 86400;
    let s = seconds % 86400;
    let r = s % 3600;
    let h = s / 3600;
    assert(seconds == 3600 * (24 * q) + s);
    lemma_mod_multiples_vanish(24 * q, s, 3600);
    assert(seconds == 60 * (1440 * q + 60 * h) + r);
    lemma_mod_multiples_vanish(1440 * q + 60 * h, r, 60);
}

/// A number below 100 in two digits reads as itself.
pub proof fn two_digits_read_back(n: int)
    requires
        0 <= n < 100,
    ensures
        two_digits(n).len() == 2,
        digits_value(two_digits(n)) == n,
{
    let a = (n / 10) as nat;
    let b = (n % 10) as nat;
    lemma_decimal(a);
    lemma_decimal(b);
    let t = two_digits(n);
    assert(decimal(a).len() == 1 && decimal(b).len() == 1);
    assert(t.drop_last() =~= decimal(a));
    assert(t.last() == decimal(b)[0]);
    assert(decimal(b).drop_last() =~= Seq::<char>::empty());
}

/// A size says the exact number of bytes, whatever its unit.
pub proof fn sizes_say_their_bytes(bytes: nat)
    ensures
        bytes < 1024 ==> file_size_text(bytes) == decimal(bytes) + " bytes"@,
        bytes >= 1024 ==> (" ("@ + decimal(bytes) + " bytes)"@).is_suffix_of(file_size_text(bytes)),
{
    if bytes >= 1024 {
        let t = file_size_text(bytes);
        let e = " ("@ + decimal(bytes) + " bytes)"@;
        assert(t.subrange(t.len() - e.len(), t.len() as int) =~= e);
    }
}

/// Only `/model` and `/config` change settings: the one the model alone, to the name that
/// is given, and a `/config` that is refused nothing. Only leaving leaves, only a rewind
/// asks for one, and a restore takes the session that is named, or the present one.
pub proof fn commands_change_what_they_name(
    c: CommandView,
    session: SessionView,
    s: SettingsView,
    models: PerModel,
    totals: ModelTotals,
)
    ensures
        ({
            let out = command_step(c, session, s, models, totals);
            &&& out.0 != s ==> c is Model || c is Config
            &&& c is Config && out.1 is Complain ==> out.0 == s
            &&& c matches CommandView::Model(name) ==> out.0 == SettingsView {
                llm_model: if name is Some && name->0.len() > 0 {
                    name->0
                } else {
                    s.llm_model
                },
                ..s
            }
            &&& out.1 is Exit <==> c is Exit
            &&& c matches CommandView::Rewind(arg) ==> {
                let plan = rewind_plan(arg, session.messages, session.turn);
                &&& plan is Ok ==> out.1 == StepView::ConfirmRewind(plan->Ok_0)
                &&& plan is Err ==> out.1 is Complain
            }
            &&& out.1 is ConfirmRewind ==> c is Rewind
            &&& c matches CommandView::Restore(Some(label)) ==> out.1 == StepView::Restore(
                trimmed(label),
            )
            &&& c == CommandView::Restore(None) ==> out.1 == StepView::Restore(
                trimmed(session.label),
            )
            &&& out.1 is Restore ==> c is Restore
            &&& out.1 is ShowRaw <==> c == CommandView::History(Some("-a"@)) || c
                == CommandView::History(Some("--all"@))
        }),
{
}

} // verus!
