//! Slash commands.
//!
//! - `/help`, `/h`: help text.
//! - `/rewind <turn>`: roll the conversation back to a turn.
//! - `/history [-a]`: summary of the conversation.
//! - `/model [name]`: show or switch the model.
//! - `/config [k] [v]`: show or change the configuration.
//! - `/restore [label]`: restore the previous session.
//! - `/stats`: resource usage.
//! - `/exit`, `/quit`, `exit`, `quit`: leave.
//!
//! Reading what the user confirms and what is on disk is left to the caller;
//! every decision and every text stands here.

use vstd::prelude::*;
use vstd::string::*;

use crate::attach::{
    attach_file, attachment, files_view, AttachMode, AttachedFile, AttachedFileView, AttachedSpec,
    AttachedSpecView, TextRead,
};
use crate::file::FileRead;
use crate::float_text::duration;
use crate::json::comes_before;
use crate::json_model::text_before;
use crate::llm_stats::{fmt_ms, per_model, Metrics, ModelTotals, PerModel};
use crate::model::{
    calls_view, is_uuid, messages_view, new_uuid, Message, MessageView, Session, SessionView, Settings,
    SettingsView, ToolCallView, ToolRunDecisionKind,
};
use crate::reasoning::{count_role, role_count};
use crate::startup::{C_DIM_GRAY, C_DIM_GREEN, C_GREEN, C_MAGENTA, C_RED, C_YELLOW, RESET};
use crate::text::{
    ascii_lower, char_is_space, chars_of, decimal, decimal_int, eq_ignore_ascii_case, is_space,
    i64_text, lowercase_of, opt_view, pad_left, pad_right, padded, padded_left, parse_i32,
    parse_upto, parsed_signed, parsed_upto, replace, replaced, split_once, split_first, starts_with,
    str_eq, text_or, to_lowercase, trim, trimmed, u64_text, usize_text, views,
};

verus! {

// ---------------------------------------------------------------------------
// Commands
// ---------------------------------------------------------------------------

/// What handling a command comes to.
#[derive(Debug, PartialEq, Eq)]
pub enum SlashCmdResult {
    /// No turn change: ask for the next input.
    NoAdvance,
    /// The conversation is rewound to this turn.
    RewoundTo(i32),
    /// A session is restored, up to this turn.
    RestoredTo { turn: i32, label: String },
    /// The user wants to leave.
    Exit,
}

/// A command with its argument.
#[derive(Debug, PartialEq, Eq)]
pub enum SlashCommand {
    Exit,
    Help,
    Rewind(Option<String>),
    History(Option<String>),
    Model(Option<String>),
    Config(Option<String>),
    Restore(Option<String>),
    Stats,
    /// An unknown command, in lower case.
    Unknown(String),
}

/// What a command is.
pub enum CommandView {
    Exit,
    Help,
    Rewind(Option<Seq<char>>),
    History(Option<Seq<char>>),
    Model(Option<Seq<char>>),
    Config(Option<Seq<char>>),
    Restore(Option<Seq<char>>),
    Stats,
    Unknown(Seq<char>),
}

impl View for SlashCommand {
    type V = CommandView;

    open spec fn view(&self) -> CommandView {
        match *self {
            SlashCommand::Exit => CommandView::Exit,
            SlashCommand::Help => CommandView::Help,
            SlashCommand::Rewind(a) => CommandView::Rewind(opt_view(a)),
            SlashCommand::History(a) => CommandView::History(opt_view(a)),
            SlashCommand::Model(a) => CommandView::Model(opt_view(a)),
            SlashCommand::Config(a) => CommandView::Config(opt_view(a)),
            SlashCommand::Restore(a) => CommandView::Restore(opt_view(a)),
            SlashCommand::Stats => CommandView::Stats,
            SlashCommand::Unknown(c) => CommandView::Unknown(c@),
        }
    }
}

/// The command of a name in lower case, with its argument.
pub open spec fn named_command(name: Seq<char>, arg: Option<Seq<char>>) -> CommandView {
    if name == "/h"@ || name == "/help"@ {
        CommandView::Help
    } else if name == "/rewind"@ {
        CommandView::Rewind(arg)
    } else if name == "/history"@ {
        CommandView::History(arg)
    } else if name == "/model"@ {
        CommandView::Model(arg)
    } else if name == "/config"@ {
        CommandView::Config(arg)
    } else if name == "/restore"@ {
        CommandView::Restore(arg)
    } else if name == "/stats"@ {
        CommandView::Stats
    } else {
        CommandView::Unknown(name)
    }
}

/// Whether a trimmed input asks to leave.
pub open spec fn is_exit(t: Seq<char>) -> bool {
    t == "/exit"@ || t == "/quit"@ || t == "exit"@ || t == "quit"@
}

/// The name and the argument of a trimmed command.
pub open spec fn command_parts(t: Seq<char>) -> (Seq<char>, Option<Seq<char>>) {
    match split_first(t, " "@) {
        Some(p) => (p.0, Some(trimmed(p.1))),
        None => (t, None),
    }
}

/// The command of an input; `None` where the input is no command.
pub open spec fn command_of(input: Seq<char>) -> Option<CommandView> {
    let t = trimmed(input);
    if is_exit(t) {
        Some(CommandView::Exit)
    } else if !"/"@.is_prefix_of(t) {
        None
    } else {
        let p = command_parts(t);
        Some(named_command(lowercase_of(p.0), p.1))
    }
}

/// The command of a name in lower case, with its argument.
pub fn command_named(name: String, arg: Option<String>) -> (r: SlashCommand)
    ensures
        r@ == named_command(name@, opt_view(arg)),
{
    let n = name.as_str();
    if str_eq(n, "/h") || str_eq(n, "/help") {
        SlashCommand::Help
    } else if str_eq(n, "/rewind") {
        SlashCommand::Rewind(arg)
    } else if str_eq(n, "/history") {
        SlashCommand::History(arg)
    } else if str_eq(n, "/model") {
        SlashCommand::Model(arg)
    } else if str_eq(n, "/config") {
        SlashCommand::Config(arg)
    } else if str_eq(n, "/restore") {
        SlashCommand::Restore(arg)
    } else if str_eq(n, "/stats") {
        SlashCommand::Stats
    } else {
        SlashCommand::Unknown(name)
    }
}

/// Reads the command of an input; `None` where the input is an ordinary
/// message.
pub fn parse_slash_command(input: &str) -> (r: Option<SlashCommand>)
    ensures
        match r {
            Some(c) => command_of(input@) == Some(c@),
            None => command_of(input@) is None,
        },
{
    let t = trim(input);
    if str_eq(t, "/exit") || str_eq(t, "/quit") || str_eq(t, "exit") || str_eq(t, "quit") {
        return Some(SlashCommand::Exit);
    }
    if !starts_with(t, "/") {
        return None;
    }
    match split_once(t, " ") {
        Some((name, rest)) => {
            let arg = trim(rest).to_owned();
            Some(command_named(to_lowercase(name), Some(arg)))
        },
        None => Some(command_named(to_lowercase(t), None)),
    }
}

/// The error on a command that failed.
pub fn command_error(why: &str) -> (r: String)
    ensures
        r@ == "\x1b[91mSlash command error: "@ + why@ + "\x1b[0m"@,
{
    let mut s = String::from_str("\x1b[91mSlash command error: ");
    s.append(why);
    s.append("\x1b[0m");
    s
}

/// What is said of an unknown command.
pub fn unknown_command(name: &str) -> (r: String)
    ensures
        r@ == "\x1b[93mUnknown command: "@ + name@ + "\x1b[0m Type /help for available commands."@,
{
    let mut s = String::from_str("\x1b[93mUnknown command: ");
    s.append(name);
    s.append("\x1b[0m Type /help for available commands.");
    s
}

/// Whether an answer to a question is yes.
pub open spec fn says_yes(answer: Seq<char>) -> bool {
    ascii_lower(trimmed(answer)) == ascii_lower("y"@)
}

/// Whether an answer to a question is yes.
pub fn is_yes(answer: &str) -> (r: bool)
    ensures
        r == says_yes(answer@),
{
    eq_ignore_ascii_case(trim(answer), "y")
}

/// The help text.
pub const HELP: &'static str = "\x1b[1mUsage:\x1b[0m \x1b[0m/<command> [options]\n\n\x1b[1mCore Commands:\x1b[0m\n   /h, /help        Display this help text\n   /rewind <turn>   Roll back conversation to <turn> and discard newer history\n   /history [-a]    Print conversation history summary (-a, --all for raw payload)\n   /model [name]    Switch the active LLM on the fly (no arg: show current)\n   /config [k] [v]  Show or change app configuration (no arg: list all, -s for aliases)\n   /restore [label] Restore the previous session (optionally specifying a label to switch to)\n   /stats           Show LLM resource usage (per-model and session totals)\n   /exit, /quit     Exit the application (also accepts 'exit', 'quit', or Ctrl-D)\n\n\x1b[1mExample:\x1b[0m\n   \x1b[90m/model        - Show the currently active model\x1b[0m\n   \x1b[90m/model qwen   - Switch to 'qwen' model and continue\x1b[0m\n   \x1b[90m/config       - List all current config values\x1b[0m\n   \x1b[90m/config -s    - Show config key aliases (e.g. v, p, r)\x1b[0m\n   \x1b[90m/config v 3   - Set verbose-level to 3\x1b[0m\n   \x1b[90m/config p 2   - Set pretty-level to 2\x1b[0m\n   \x1b[90m/config r 30  - Set llm-rpm to 30\x1b[0m\n   \x1b[90m/config t 4096 - Set max-output-tokens to 4096\x1b[0m\n   \x1b[90m/config e 3   - Set max-reasoning-empty-responses to 3 (0 = unlimited)\x1b[0m\n   \x1b[90m/rewind 1     - Discard everything after Turn 1 and continue from there\x1b[0m\n   \x1b[90m/history -a   - Print raw JSON payload of conversation history\x1b[0m\n   \x1b[90m/restore      - Restore the latest session for current label\x1b[0m\n   \x1b[90m/restore work - Restore the latest session for label 'work' and switch to it\x1b[0m\n   \x1b[90m/stats        - Show LLM resource usage (per-model and session totals)\x1b[0m\n";

// ---------------------------------------------------------------------------
// /model
// ---------------------------------------------------------------------------

/// Shows the model, or switches to the one named.
pub fn handle_model(arg: &Option<String>, settings: &mut Settings) -> (r: String)
    ensures
        match opt_view(*arg) {
            Some(name) if name.len() > 0 => final(settings)@ == (SettingsView {
                llm_model: name,
                ..old(settings)@
            }) && r@ == "\x1b[32m\u{2713} Switched model: "@ + old(settings)@.llm_model + " -> "@
                + name + "\x1b[0m\n"@,
            _ => final(settings)@ == old(settings)@ && r@ == "\x1b[93mCurrent model: "@
                + old(settings)@.llm_model + "\x1b[0m\n"@,
        },
{
    match arg {
        Some(name) => {
            if !name.as_str().is_empty() {
                let mut s = String::from_str("\x1b[32m\u{2713} Switched model: ");
                s.append(settings.llm_model.as_str());
                s.append(" -> ");
                s.append(name.as_str());
                s.append("\x1b[0m\n");
                settings.llm_model = name.clone();
                return s;
            }
        },
        None => {},
    }
    let mut s = String::from_str("\x1b[93mCurrent model: ");
    s.append(settings.llm_model.as_str());
    s.append("\x1b[0m\n");
    s
}

// ---------------------------------------------------------------------------
// /config
// ---------------------------------------------------------------------------

/// First position at or after `i` that holds white space, or the length.
pub open spec fn gap_index(s: Seq<char>, i: int) -> int
    decreases s.len() - i,
{
    if 0 <= i < s.len() && !is_space(s[i]) {
        gap_index(s, i + 1)
    } else {
        i
    }
}

/// The key as it is written and the value of a `key value` argument.
pub open spec fn key_value(s: Seq<char>) -> Option<(Seq<char>, Seq<char>)> {
    let i = gap_index(s, 0);
    if i < s.len() {
        Some((s.take(i), trimmed(s.skip(i + 1))))
    } else {
        None
    }
}

/// Splits a `key value` argument at its first white space.
pub fn split_key_value<'a>(s: &'a str) -> (r: Option<(&'a str, &'a str)>)
    ensures
        crate::text::opt_pair_view(r) == key_value(s@),
{
    let cs = chars_of(s);
    let n: usize = cs.len();
    let mut i: usize = 0;
    while i < n && !char_is_space(cs[i])
        invariant
            i <= n,
            n == cs@.len(),
            cs@ == s@,
            gap_index(s@, i as int) == gap_index(s@, 0),
        decreases n - i,
    {
        i = i + 1;
    }
    if i < n {
        Some((s.substring_char(0, i), trim(s.substring_char(i + 1, n))))
    } else {
        None
    }
}

/// Splits a `key value` argument; the key comes back in lower case.
pub fn parse_config_kv(input: &str) -> (r: Option<(String, String)>)
    ensures
        match key_value(input@) {
            Some(p) => r is Some && (r->0).0@ == lowercase_of(p.0) && (r->0).1@ == p.1,
            None => r is None,
        },
{
    match split_key_value(input) {
        Some((k, v)) => Some((to_lowercase(k), v.to_owned())),
        None => None,
    }
}

/// A setting that can be changed.
#[derive(Debug, Clone, Copy, PartialEq, Eq, Structural)]
pub enum ConfigKey {
    Verbose,
    Pretty,
    Rpm,
    OutputTokens,
    EmptyResponses,
}

/// The setting that a key in lower case stands for.
pub open spec fn config_key(k: Seq<char>) -> Option<ConfigKey> {
    if k == "v"@ || k == "verbose-level"@ || k == "verbose_level"@ || k == "verbose"@ {
        Some(ConfigKey::Verbose)
    } else if k == "p"@ || k == "pretty-level"@ || k == "pretty_level"@ || k == "pretty"@ {
        Some(ConfigKey::Pretty)
    } else if k == "r"@ || k == "llm-rpm"@ || k == "llm_rpm"@ || k == "rpm"@ {
        Some(ConfigKey::Rpm)
    } else if k == "t"@ || k == "max-output-tokens"@ || k == "max_output_tokens"@ || k
        == "output-tokens"@ {
        Some(ConfigKey::OutputTokens)
    } else if k == "e"@ || k == "max-reasoning-empty-responses"@ || k
        == "max_reasoning_empty_responses"@ || k == "reasoning-empty-responses"@ {
        Some(ConfigKey::EmptyResponses)
    } else {
        None
    }
}

fn find_key(k: &str) -> (r: Option<ConfigKey>)
    ensures
        r == config_key(k@),
{
    if str_eq(k, "v") || str_eq(k, "verbose-level") || str_eq(k, "verbose_level") || str_eq(
        k,
        "verbose",
    ) {
        Some(ConfigKey::Verbose)
    } else if str_eq(k, "p") || str_eq(k, "pretty-level") || str_eq(k, "pretty_level") || str_eq(
        k,
        "pretty",
    ) {
        Some(ConfigKey::Pretty)
    } else if str_eq(k, "r") || str_eq(k, "llm-rpm") || str_eq(k, "llm_rpm") || str_eq(k, "rpm") {
        Some(ConfigKey::Rpm)
    } else if str_eq(k, "t") || str_eq(k, "max-output-tokens") || str_eq(k, "max_output_tokens")
        || str_eq(k, "output-tokens") {
        Some(ConfigKey::OutputTokens)
    } else if str_eq(k, "e") || str_eq(k, "max-reasoning-empty-responses") || str_eq(
        k,
        "max_reasoning_empty_responses",
    ) || str_eq(k, "reasoning-empty-responses") {
        Some(ConfigKey::EmptyResponses)
    } else {
        None
    }
}

/// The error on a value that cannot be read.
pub open spec fn invalid_value(name: Seq<char>, value: Seq<char>, must: Seq<char>) -> Seq<char> {
    "Invalid value for "@ + name + ": '"@ + value + "'. Must be "@ + must
}

fn invalid_text(name: &str, value: &str, must: &str) -> (r: String)
    ensures
        r@ == invalid_value(name@, value@, must@),
{
    let mut s = String::from_str("Invalid value for ");
    s.append(name);
    s.append(": '");
    s.append(value);
    s.append("'. Must be ");
    s.append(must);
    s
}

/// The settings with the key, in lower case, set to the value; or why not.
pub open spec fn with_setting(s: SettingsView, key: Seq<char>, value: Seq<char>) -> Result<
    SettingsView,
    Seq<char>,
> {
    match config_key(key) {
        None => Err(
            "Unknown config key '"@ + key + "'. Use /config -s for a list of keys."@,
        ),
        Some(ConfigKey::Verbose) => match parsed_upto(value, 255) {
            None => Err(invalid_value("verbose-level"@, value, "0-4."@)),
            Some(n) => if n > 4 {
                Err("verbose-level must be 0-4, got "@ + decimal(n))
            } else {
                Ok(SettingsView { verbose_level: n as u8, ..s })
            },
        },
        Some(ConfigKey::Pretty) => match parsed_upto(value, 255) {
            None => Err(invalid_value("pretty-level"@, value, "0-2."@)),
            Some(n) => if n > 2 {
                Err("pretty-level must be 0-2, got "@ + decimal(n))
            } else {
                Ok(SettingsView { pretty_level: n as u8, ..s })
            },
        },
        Some(ConfigKey::Rpm) => match parsed_upto(value, u32::MAX as nat) {
            None => Err(invalid_value("llm-rpm"@, value, "a non-negative integer."@)),
            Some(n) => Ok(SettingsView { llm_rpm: n as u32, ..s }),
        },
        Some(ConfigKey::OutputTokens) => match parsed_upto(value, u32::MAX as nat) {
            None => Err(invalid_value("max-output-tokens"@, value, "a positive integer."@)),
            Some(n) => if n == 0 {
                Err("max-output-tokens must be > 0, got "@ + decimal(n))
            } else {
                Ok(SettingsView { max_output_tokens: n as u32, ..s })
            },
        },
        Some(ConfigKey::EmptyResponses) => match parsed_upto(value, u32::MAX as nat) {
            None => Err(
                invalid_value("max-reasoning-empty-responses"@, value, "a non-negative integer."@),
            ),
            Some(n) => Ok(SettingsView { max_reasoning_empty_responses: n as u32, ..s }),
        },
    }
}

/// Sets one setting by its key, in lower case; settings stay as they are where
/// it is refused.
pub fn set_config(settings: &mut Settings, key: &str, value: &str) -> (r: Result<(), String>)
    ensures
        match r {
            Ok(_) => with_setting(old(settings)@, key@, value@) matches Ok(s) && s == final(settings)@,
            Err(e) => with_setting(old(settings)@, key@, value@) matches Err(x) && x == e@ && final(settings)@ == old(settings)@,
        },
{
    match find_key(key) {
        None => {
            let mut s = String::from_str("Unknown config key '");
            s.append(key);
            s.append("'. Use /config -s for a list of keys.");
            Err(s)
        },
        Some(ConfigKey::Verbose) => match parse_upto(value, 255) {
            None => Err(invalid_text("verbose-level", value, "0-4.")),
            Some(n) => if n > 4 {
                let mut s = String::from_str("verbose-level must be 0-4, got ");
                let d = u64_text(n);
                s.append(d.as_str());
                Err(s)
            } else {
                settings.verbose_level = n as u8;
                Ok(())
            },
        },
        Some(ConfigKey::Pretty) => match parse_upto(value, 255) {
            None => Err(invalid_text("pretty-level", value, "0-2.")),
            Some(n) => if n > 2 {
                let mut s = String::from_str("pretty-level must be 0-2, got ");
                let d = u64_text(n);
                s.append(d.as_str());
                Err(s)
            } else {
                settings.pretty_level = n as u8;
                Ok(())
            },
        },
        Some(ConfigKey::Rpm) => match parse_upto(value, u32::MAX as u64) {
            None => Err(invalid_text("llm-rpm", value, "a non-negative integer.")),
            Some(n) => {
                settings.llm_rpm = n as u32;
                Ok(())
            },
        },
        Some(ConfigKey::OutputTokens) => match parse_upto(value, u32::MAX as u64) {
            None => Err(invalid_text("max-output-tokens", value, "a positive integer.")),
            Some(n) => if n == 0 {
                let mut s = String::from_str("max-output-tokens must be > 0, got ");
                let d = u64_text(n);
                s.append(d.as_str());
                Err(s)
            } else {
                settings.max_output_tokens = n as u32;
                Ok(())
            },
        },
        Some(ConfigKey::EmptyResponses) => match parse_upto(value, u32::MAX as u64) {
            None => Err(
                invalid_text("max-reasoning-empty-responses", value, "a non-negative integer."),
            ),
            Some(n) => {
                settings.max_reasoning_empty_responses = n as u32;
                Ok(())
            },
        },
    }
}

pub const CONFIG_ALIASES: &'static str = "  \x1b[1mConfig aliases:\x1b[0m (use these with /config)\n    \x1b[36mv\x1b[0m   - verbose-level     (0-4)\n    \x1b[36mp\x1b[0m   - pretty-level       (0-2)\n    \x1b[36mr\x1b[0m   - llm-rpm            (0 = unlimited)\n    \x1b[36mt\x1b[0m   - max-output-tokens  (default: 16384)\n    \x1b[36me\x1b[0m   - max-reasoning-empty-responses (default: 2, 0 = unlimited)\n";

pub const CONFIG_USAGE: &'static str = "Usage: /config <key> <value>  (e.g. /config v 3)";

/// The list of all settings.
pub open spec fn settings_list(s: SettingsView) -> Seq<char> {
    "  \x1b[1mCurrent configuration:\x1b[0m\n    verbose-level     : "@ + decimal(
        s.verbose_level as nat,
    ) + "\n    pretty-level      : "@ + decimal(s.pretty_level as nat)
        + "\n    llm-rpm           : "@ + decimal(s.llm_rpm as nat)
        + "\n    max-output-tokens : "@ + decimal(s.max_output_tokens as nat)
        + "\n    max-reasoning-empty-responses: "@ + decimal(
        s.max_reasoning_empty_responses as nat,
    ) + "\n"@
}

/// What is shown of a change.
pub open spec fn change_notice(key: Seq<char>, value: Seq<char>) -> Seq<char> {
    "  \x1b[32m\u{2713} Changed "@ + key + " to "@ + value + "\x1b[0m\n"@
}

/// The settings after `/config` with the given argument and what is shown, or
/// why it is refused.
pub open spec fn config_outcome(s: SettingsView, arg: Option<Seq<char>>) -> Result<
    (SettingsView, Seq<char>),
    Seq<char>,
> {
    let a = trimmed(text_or(arg, ""@));
    if a.len() == 0 {
        Ok((s, settings_list(s)))
    } else if a == "-s"@ || a == "--short"@ {
        Ok((s, CONFIG_ALIASES@))
    } else {
        match key_value(a) {
            None => Err(CONFIG_USAGE@),
            Some(kv) => match with_setting(s, lowercase_of(kv.0), kv.1) {
                Ok(n) => Ok((n, change_notice(lowercase_of(kv.0), kv.1))),
                Err(e) => Err(e),
            },
        }
    }
}

/// Shows the configuration, or changes one setting. Returns what is shown.
pub fn handle_config(arg: &Option<String>, settings: &mut Settings) -> (r: Result<String, String>)
    ensures
        match r {
            Ok(s) => config_outcome(old(settings)@, opt_view(*arg)) matches Ok(o) && o == (final(settings)@, s@),
            Err(e) => config_outcome(old(settings)@, opt_view(*arg)) matches Err(x) && x == e@
                && final(settings)@ == old(settings)@,
        },
{
    let text = match arg {
        Some(s) => s.as_str(),
        None => "",
    };
    let a = trim(text);
    if a.is_empty() {
        let mut s = String::from_str(
            "  \x1b[1mCurrent configuration:\x1b[0m\n    verbose-level     : ",
        );
        s.append(u64_text(settings.verbose_level as u64).as_str());
        s.append("\n    pretty-level      : ");
        s.append(u64_text(settings.pretty_level as u64).as_str());
        s.append("\n    llm-rpm           : ");
        s.append(u64_text(settings.llm_rpm as u64).as_str());
        s.append("\n    max-output-tokens : ");
        s.append(u64_text(settings.max_output_tokens as u64).as_str());
        s.append("\n    max-reasoning-empty-responses: ");
        s.append(u64_text(settings.max_reasoning_empty_responses as u64).as_str());
        s.append("\n");
        return Ok(s);
    }
    if str_eq(a, "-s") || str_eq(a, "--short") {
        return Ok(CONFIG_ALIASES.to_owned());
    }
    match parse_config_kv(a) {
        None => Err(CONFIG_USAGE.to_owned()),
        Some((key, value)) => match set_config(settings, key.as_str(), value.as_str()) {
            Err(e) => Err(e),
            Ok(_) => {
                let mut s = String::from_str("  \x1b[32m\u{2713} Changed ");
                s.append(key.as_str());
                s.append(" to ");
                s.append(value.as_str());
                s.append("\x1b[0m\n");
                Ok(s)
            },
        },
    }
}

/// What `/config` sets keeps the levels within their ranges and the limit of
/// output tokens positive.
pub proof fn config_keeps_ranges(s: SettingsView, key: Seq<char>, value: Seq<char>)
    requires
        s.verbose_level <= 4,
        s.pretty_level <= 2,
        s.max_output_tokens > 0,
    ensures
        with_setting(s, key, value) matches Ok(n) ==> n.verbose_level <= 4 && n.pretty_level <= 2
            && n.max_output_tokens > 0,
{
}

// ---------------------------------------------------------------------------
// /stats
// ---------------------------------------------------------------------------

/// The position at or after `i` before which a model of the given name comes.
pub open spec fn model_slot(m: PerModel, name: Seq<char>, i: int) -> int
    decreases m.len() - i,
{
    if i < 0 || i >= m.len() {
        m.len() as int
    } else if text_before(name, m[i].0, 0) {
        i
    } else {
        model_slot(m, name, i + 1)
    }
}

/// The first `n` models, sorted by name.
pub open spec fn sorted_models(m: PerModel, n: int) -> PerModel
    decreases n,
{
    if n <= 0 {
        Seq::empty()
    } else {
        let before = sorted_models(m, n - 1);
        before.insert(model_slot(before, m[n - 1].0, 0), m[n - 1])
    }
}

/// A row of the table: the first cell from the left, the others from the right.
pub open spec fn stats_row(
    name: Seq<char>,
    calls: Seq<char>,
    input: Seq<char>,
    cache: Seq<char>,
    cache_write: Seq<char>,
    output: Seq<char>,
    reasoning: Seq<char>,
    time: Seq<char>,
) -> Seq<char> {
    padded(name, 20) + padded_left(calls, 7) + padded_left(input, 10) + padded_left(cache, 10)
        + padded_left(cache_write, 10) + padded_left(output, 10) + padded_left(reasoning, 11)
        + padded_left(time, 10) + "\n"@
}

/// The row of a model, or of the session.
pub open spec fn totals_row(name: Seq<char>, t: ModelTotals) -> Seq<char> {
    stats_row(
        name,
        decimal(t.calls as nat),
        decimal(t.in_normal as nat),
        decimal(t.in_cached as nat),
        decimal(t.in_cache_write as nat),
        decimal(t.out_normal as nat),
        decimal(t.out_reasoning as nat),
        duration(t.llm_ms_total as nat),
    )
}

/// A text with the rows of the first `n` models.
pub open spec fn with_rows(s: Seq<char>, m: PerModel, n: int) -> Seq<char>
    decreases n,
{
    if n <= 0 {
        s
    } else {
        with_rows(s, m, n - 1) + totals_row(m[n - 1].0, m[n - 1].1)
    }
}

/// The table of resource usage.
pub open spec fn stats_text(label: Seq<char>, m: PerModel, totals: ModelTotals) -> Seq<char> {
    let head = "Session stats (label: "@ + label + ")\n"@;
    if totals.calls == 0 {
        head + "No LLM calls recorded yet.\n"@
    } else {
        let sorted = sorted_models(m, m.len() as int);
        with_rows(
            head + stats_row(
                "Model"@,
                "Calls"@,
                "In"@,
                "Cache"@,
                "CacheW"@,
                "Out"@,
                "Reasoning"@,
                "LLM time"@,
            ),
            sorted,
            sorted.len() as int,
        ) + totals_row("total"@, totals)
    }
}

fn make_row(
    name: &str,
    calls: &str,
    input: &str,
    cache: &str,
    cache_write: &str,
    output: &str,
    reasoning: &str,
    time: &str,
) -> (r: String)
    ensures
        r@ == stats_row(
            name@,
            calls@,
            input@,
            cache@,
            cache_write@,
            output@,
            reasoning@,
            time@,
        ),
{
    let mut s = pad_right(name, 20);
    s.append(pad_left(calls, 7).as_str());
    s.append(pad_left(input, 10).as_str());
    s.append(pad_left(cache, 10).as_str());
    s.append(pad_left(cache_write, 10).as_str());
    s.append(pad_left(output, 10).as_str());
    s.append(pad_left(reasoning, 11).as_str());
    s.append(pad_left(time, 10).as_str());
    s.append("\n");
    s
}

fn make_totals_row(name: &str, t: &ModelTotals) -> (r: String)
    ensures
        r@ == totals_row(name@, *t),
{
    make_row(
        name,
        u64_text(t.calls).as_str(),
        u64_text(t.in_normal).as_str(),
        u64_text(t.in_cached).as_str(),
        u64_text(t.in_cache_write).as_str(),
        u64_text(t.out_normal).as_str(),
        u64_text(t.out_reasoning).as_str(),
        fmt_ms(t.llm_ms_total).as_str(),
    )
}

fn sort_models(models: &Vec<(String, ModelTotals)>) -> (r: Vec<(String, ModelTotals)>)
    ensures
        per_model(r@) == sorted_models(per_model(models@), models@.len() as int),
{
    let ghost m = per_model(models@);
    let mut out: Vec<(String, ModelTotals)> = Vec::new();
    let mut n: usize = 0;
    proof {
        assert(per_model(out@) =~= Seq::<(Seq<char>, ModelTotals)>::empty());
    }
    while n < models.len()
        invariant
            n <= models@.len(),
            m == per_model(models@),
            per_model(out@) == sorted_models(m, n as int),
        decreases models@.len() - n,
    {
        let ghost before = per_model(out@);
        let name = models[n].0.as_str();
        let count: usize = out.len();
        let mut i: usize = 0;
        proof {
            assert(before.len() == count);
            assert(m[n as int] == (models@[n as int].0@, models@[n as int].1));
        }
        while i < count && !comes_before(name, out[i].0.as_str())
            invariant
                i <= count,
                count == out@.len(),
                before == per_model(out@),
                model_slot(before, name@, i as int) == model_slot(before, name@, 0),
            decreases count - i,
        {
            i = i + 1;
        }
        let entry = (models[n].0.clone(), models[n].1);
        out.insert(i, entry);
        proof {
            assert(per_model(out@) =~= before.insert(i as int, m[n as int]));
        }
        n = n + 1;
    }
    out
}

/// The table of resource usage, per model and for the session.
pub fn handle_stats(metrics: &Metrics, label: &str) -> (r: String)
    ensures
        r@ == stats_text(label@, per_model(metrics.by_model@), metrics.totals),
{
    let mut s = String::from_str("Session stats (label: ");
    s.append(label);
    s.append(")\n");
    if metrics.totals.calls == 0 {
        s.append("No LLM calls recorded yet.\n");
        return s;
    }
    let head = make_row(
        "Model",
        "Calls",
        "In",
        "Cache",
        "CacheW",
        "Out",
        "Reasoning",
        "LLM time",
    );
    s.append(head.as_str());
    proof {
        assert(per_model(metrics.by_model@).len() == metrics.by_model@.len());
    }
    let sorted = sort_models(&metrics.by_model);
    let ghost start = s@;
    let ghost sv = per_model(sorted@);
    let mut i: usize = 0;
    while i < sorted.len()
        invariant
            i <= sorted@.len(),
            sv == per_model(sorted@),
            s@ == with_rows(start, sv, i as int),
        decreases sorted@.len() - i,
    {
        proof {
            assert(sv[i as int] == (sorted@[i as int].0@, sorted@[i as int].1));
        }
        s.append(make_totals_row(sorted[i].0.as_str(), &sorted[i].1).as_str());
        i = i + 1;
    }
    proof {
        assert(sv.len() == sorted@.len());
    }
    s.append(make_totals_row("total", &metrics.totals).as_str());
    s
}

// ---------------------------------------------------------------------------
// /rewind
// ---------------------------------------------------------------------------

/// Position of the `k`-th user message (the first is 1) at or after `i`, or the
/// number of messages.
pub open spec fn user_index(messages: Seq<MessageView>, k: int, i: int) -> int
    decreases messages.len() - i,
{
    if i < 0 || i >= messages.len() {
        messages.len() as int
    } else if messages[i].role == "user"@ {
        if k <= 1 {
            i
        } else {
            user_index(messages, k - 1, i + 1)
        }
    } else {
        user_index(messages, k, i + 1)
    }
}

/// What a rewind does.
#[derive(Debug, Clone, Copy, PartialEq, Eq, Structural)]
pub struct RewindPlan {
    /// The turn to go back to.
    pub target: i32,
    /// The first message that is discarded.
    pub truncate_at: usize,
    /// The last turn that is discarded.
    pub last_turn: i32,
}

/// Whether and how the conversation can be rewound, in the turn `current`.
pub open spec fn rewind_plan(arg: Option<Seq<char>>, messages: Seq<MessageView>, current: i32) -> Result<
    RewindPlan,
    Seq<char>,
> {
    match arg {
        None => Err("Usage: /rewind <turn>\nExample: /rewind 1"@),
        Some(s) => match parsed_signed(s, 0x7fff_ffff) {
            None => Err("Invalid turn number: '"@ + s + "'. Must be a positive integer."@),
            Some(t) => if t < 1 {
                Err("Turn number must be >= 1"@)
            } else if t >= current {
                Err(
                    "Current turn is "@ + decimal_int(current as int)
                        + ". Rewind target must be less than the current turn."@,
                )
            } else {
                let at = user_index(messages, t + 1, 0);
                if at < messages.len() {
                    Ok(
                        RewindPlan {
                            target: t as i32,
                            truncate_at: at as usize,
                            last_turn: role_count(
                                messages,
                                "user"@,
                                messages.len() as int,
                            ) as i32,
                        },
                    )
                } else {
                    Err("Nothing to discard: turns after "@ + decimal_int(t) + " do not exist"@)
                }
            },
        },
    }
}

/// Decides whether and how the conversation can be rewound: to the start of the
/// turn after the one named.
pub fn plan_rewind(arg: &Option<String>, messages: &Vec<Message>, current_turn: i32) -> (r: Result<
    RewindPlan,
    String,
>)
    requires
        messages@.len() <= i32::MAX,
    ensures
        match r {
            Ok(p) => rewind_plan(opt_view(*arg), messages_view(messages@), current_turn) matches Ok(
                x,
            ) && x == p,
            Err(e) => rewind_plan(
                opt_view(*arg),
                messages_view(messages@),
                current_turn,
            ) matches Err(x) && x == e@,
        },
{
    let s = match arg {
        Some(s) => s.as_str(),
        None => {
            return Err("Usage: /rewind <turn>\nExample: /rewind 1".to_owned());
        },
    };
    let target: i32 = match parse_i32(s) {
        Some(t) => t,
        None => {
            let mut e = String::from_str("Invalid turn number: '");
            e.append(s);
            e.append("'. Must be a positive integer.");
            return Err(e);
        },
    };
    if target < 1 {
        return Err("Turn number must be >= 1".to_owned());
    }
    if target >= current_turn {
        let mut e = String::from_str("Current turn is ");
        e.append(i64_text(current_turn as i64).as_str());
        e.append(". Rewind target must be less than the current turn.");
        return Err(e);
    }
    let ghost mv = messages_view(messages@);
    let n: usize = messages.len();
    let mut left: i32 = target + 1;
    let mut i: usize = 0;
    proof {
        assert(mv.len() == n);
    }
    while i < n
        invariant
            i <= n,
            n == messages@.len(),
            mv == messages_view(messages@),
            mv.len() == n,
            1 <= left,
            messages@.len() <= i32::MAX,
            1 <= target < current_turn,
            opt_view(*arg) is Some,
            parsed_signed(opt_view(*arg)->0, 0x7fff_ffff) == Some(target as int),
            user_index(mv, left as int, i as int) == user_index(mv, target + 1, 0),
        decreases n - i,
    {
        proof {
            assert(mv[i as int] == messages@[i as int]@);
        }
        if str_eq(messages[i].role.as_str(), "user") {
            if left == 1 {
                let count: usize = count_role(messages, "user");
                return Ok(RewindPlan { target, truncate_at: i, last_turn: count as i32 });
            }
            left = left - 1;
        }
        i = i + 1;
    }
    let mut e = String::from_str("Nothing to discard: turns after ");
    e.append(i64_text(target as i64).as_str());
    e.append(" do not exist");
    Err(e)
}

/// The warning before a rewind.
pub fn rewind_warning(plan: &RewindPlan) -> (r: String)
    requires
        plan.target < i32::MAX,
    ensures
        r@ == "\x1b[91m\u{26a0}\u{fe0f}  WARNING: This will discard conversation turns "@
            + decimal_int(plan.target + 1) + "-"@ + decimal_int(plan.last_turn as int)
            + ".\x1b[0m\n\x1b[93m   Note that any local file changes made during these turns CANNOT be undone.\x1b[0m\n"@,
{
    let mut s = String::from_str(
        "\x1b[91m\u{26a0}\u{fe0f}  WARNING: This will discard conversation turns ",
    );
    s.append(i64_text(plan.target as i64 + 1).as_str());
    s.append("-");
    s.append(i64_text(plan.last_turn as i64).as_str());
    s.append(
        ".\x1b[0m\n\x1b[93m   Note that any local file changes made during these turns CANNOT be undone.\x1b[0m\n",
    );
    s
}

/// Discards the messages from the start of the turn after the target.
pub fn apply_rewind(messages: &mut Vec<Message>, plan: &RewindPlan)
    requires
        plan.truncate_at <= old(messages)@.len(),
    ensures
        messages_view(final(messages)@) == messages_view(old(messages)@).take(
            plan.truncate_at as int,
        ),
{
    let ghost before = messages@;
    messages.truncate(plan.truncate_at);
    proof {
        assert(messages_view(messages@) =~= messages_view(before).take(plan.truncate_at as int));
    }
}

/// What is shown after a rewind.
pub fn rewind_notice(plan: &RewindPlan) -> (r: String)
    requires
        plan.target < i32::MAX,
    ensures
        r@ == "\x1b[32m\u{23ee} Rewound to Turn "@ + decimal_int(plan.target as int)
            + ". Ready for your next input (Turn "@ + decimal_int(plan.target + 1) + ").\x1b[0m"@,
{
    let mut s = String::from_str("\x1b[32m\u{23ee} Rewound to Turn ");
    s.append(i64_text(plan.target as i64).as_str());
    s.append(". Ready for your next input (Turn ");
    s.append(i64_text(plan.target as i64 + 1).as_str());
    s.append(").\x1b[0m");
    s
}

proof fn lemma_user_index(messages: Seq<MessageView>, k: int, i: int)
    requires
        0 <= i <= messages.len(),
        k >= 1,
    ensures
        i <= user_index(messages, k, i) <= messages.len(),
        user_index(messages, k, i) < messages.len() ==> {
            let at = user_index(messages, k, i);
            messages[at].role == "user"@ && role_count(messages, "user"@, at) == role_count(
                messages,
                "user"@,
                i,
            ) + k - 1
        },
    decreases messages.len() - i,
{
    if i < messages.len() {
        if messages[i].role == "user"@ {
            if k > 1 {
                lemma_user_index(messages, k - 1, i + 1);
            }
        } else {
            lemma_user_index(messages, k, i + 1);
        }
    }
}

proof fn lemma_role_count_take(messages: Seq<MessageView>, role: Seq<char>, at: int, n: int)
    requires
        0 <= n <= at <= messages.len(),
    ensures
        role_count(messages.take(at), role, n) == role_count(messages, role, n),
    decreases n,
{
    if n > 0 {
        lemma_role_count_take(messages, role, at, n - 1);
        assert(messages.take(at)[n - 1] == messages[n - 1]);
    }
}

/// A rewind to turn `t` keeps exactly `t` user messages, and what it keeps is
/// the beginning of the conversation.
pub proof fn rewind_keeps_turns(arg: Option<Seq<char>>, messages: Seq<MessageView>, current: i32)
    requires
        messages.len() <= i32::MAX,
        rewind_plan(arg, messages, current) is Ok,
    ensures
        ({
            let p = rewind_plan(arg, messages, current)->Ok_0;
            let kept = messages.take(p.truncate_at as int);
            &&& 1 <= p.target < current
            &&& p.truncate_at < messages.len()
            &&& messages[p.truncate_at as int].role == "user"@
            &&& role_count(kept, "user"@, kept.len() as int) == p.target
        }),
{
    let t = parsed_signed(arg->0, 0x7fff_ffff)->0;
    lemma_user_index(messages, t + 1, 0);
    let at = user_index(messages, t + 1, 0);
    lemma_role_count_take(messages, "user"@, at, at);
}

// ---------------------------------------------------------------------------
// /history
// ---------------------------------------------------------------------------

/// A text of at most `max` characters, with `...` where it was cut, on one
/// line.
pub open spec fn preview(s: Seq<char>, max: nat) -> Seq<char> {
    let cut = if s.len() > max {
        s.take(max as int) + "..."@
    } else {
        s
    };
    replaced(replaced(cut, "\r\n"@, " \\n "@), "\n"@, " \\n "@)
}

/// Cuts a text to `max` characters and puts it on one line.
pub fn truncate_and_flatten(s: &str, max: usize) -> (r: String)
    ensures
        r@ == preview(s@, max as nat),
{
    let n: usize = s.unicode_len();
    let mut cut = String::new();
    if n > max {
        cut = s.substring_char(0, max).to_owned();
        cut.append("...");
    } else {
        cut = s.to_owned();
    }
    proof {
        reveal_strlit("\r\n");
        reveal_strlit("\n");
        assert(s@.subrange(0, max as int) =~= s@.take(max as int) || n <= max);
    }
    let a = replace(cut.as_str(), "\r\n", " \\n ");
    replace(a.as_str(), "\n", " \\n ")
}

/// The UTC time of a moment, given in seconds since the Unix epoch, as
/// `month/day hour:minute:second`.
pub uninterp spec fn clock_text(seconds: i64) -> Seq<char>;

/// Whether a moment lies within a quarter of a million years around the Unix epoch.
pub open spec fn in_calendar(seconds: i64) -> bool {
    -8_000_000_000_000 <= seconds <= 8_000_000_000_000
}

/// A number below 100 in two digits.
pub open spec fn two_digits(n: int) -> Seq<char> {
    decimal((n / 10) as nat) + decimal((n % 10) as nat)
}

/// The time of the day at a moment, as `hour:minute:second`.
pub open spec fn time_of_day(seconds: int) -> Seq<char> {
    two_digits(seconds % 86400 / 3600) + ":"@ + two_digits(seconds % 3600 / 60) + ":"@ + two_digits(
        seconds % 60,
    )
}

/// The UTC time of a moment: month, day and a space in six characters, and the
/// time of the day.
pub open spec fn clock(seconds: i64) -> Seq<char> {
    if in_calendar(seconds) {
        clock_text(seconds).take(6) + time_of_day(seconds as int)
    } else {
        clock_text(seconds)
    }
}

/// `chrono::DateTime::from_timestamp` and `format` with `%m/%d %H:%M:%S`. The
/// text is a function of the moment alone; behind the month, the day and a space
/// it gives the time of the day. The calendar is not spelled out. Outside of it
/// the text is empty.
#[verifier::external_body]
pub(crate) fn format_clock(seconds: i64) -> (r: String)
    ensures
        r@ == clock_text(seconds),
        in_calendar(seconds) ==> r@.len() == 14 && r@ == r@.take(6) + time_of_day(seconds as int),
{
    chrono::DateTime::from_timestamp(seconds, 0)
        .map(|t| t.format("%m/%d %H:%M:%S").to_string())
        .unwrap_or_default()
}

/// A summary under construction.
#[verifier::ext_equal]
pub struct HistoryView {
    pub out: Seq<char>,
    /// Turns so far.
    pub turn: nat,
    /// Responses in the present turn.
    pub calls: nat,
}

/// A text with the tool calls of a response.
pub open spec fn with_call_lines(s: Seq<char>, calls: Seq<ToolCallView>, n: int) -> Seq<char>
    decreases n,
{
    if n <= 0 {
        s
    } else {
        with_call_lines(s, calls, n - 1) + "       "@ + C_YELLOW@ + "Tool call"@ + RESET@ + "("@
            + calls[n - 1].id + "): "@ + calls[n - 1].name + "\n"@
    }
}

/// A text with the lines on a response.
pub open spec fn with_reply_lines(
    s: Seq<char>,
    m: MessageView,
    clock: Seq<char>,
    turn: nat,
    call: nat,
) -> Seq<char> {
    let a = s + "   "@ + C_GREEN@ + "LLM call"@ + RESET@ + "("@ + decimal(turn) + "-"@ + decimal(call)
        + ") "@ + clock + ": "@ + C_DIM_GREEN@ + "["@ + text_or(m.model, "?"@)
        + "]"@ + RESET@ + "\n"@;
    let b = match m.reasoning_content {
        Some(r) => a + "     Thinking: "@ + preview(r, 60) + "\n"@,
        None => a,
    };
    let c = if trimmed(m.content).len() == 0 {
        b + "     Response: "@ + C_DIM_GRAY@ + "No message content"@ + RESET@ + "\n"@
    } else {
        b + "     Response: "@ + preview(m.content, 60) + "\n"@
    };
    match m.tool_calls {
        Some(calls) => with_call_lines(c, calls, calls.len() as int),
        None => c,
    }
}

/// The name of a decision.
pub open spec fn decision_label(k: ToolRunDecisionKind) -> Seq<char> {
    match k {
        ToolRunDecisionKind::UserConfirm => "User-confirmed"@,
        ToolRunDecisionKind::AutoConfirm => "Auto-confirmed"@,
        ToolRunDecisionKind::UserCancel => "User-canceled"@,
        ToolRunDecisionKind::SystemError => "System-error"@,
    }
}

/// The colour of a decision.
pub open spec fn decision_color(k: ToolRunDecisionKind) -> Seq<char> {
    match k {
        ToolRunDecisionKind::UserConfirm => C_GREEN@,
        ToolRunDecisionKind::AutoConfirm => C_MAGENTA@,
        ToolRunDecisionKind::UserCancel => C_YELLOW@,
        ToolRunDecisionKind::SystemError => C_RED@,
    }
}

/// A text with the lines on a tool result.
pub open spec fn with_result_lines(s: Seq<char>, m: MessageView) -> Seq<char> {
    let id = text_or(m.tool_call_id, "?"@);
    let a = match m.tool_call_decision {
        Some(d) => {
            let b = s + "         Decision("@ + id + "): "@ + decision_color(d.kind)
                + decision_label(d.kind) + RESET@;
            match d.reason {
                Some(r) => b + ": "@ + r + "\n"@,
                None => b + "\n"@,
            }
        },
        None => s,
    };
    a + "       Tool result("@ + id + "): "@ + preview(m.content, 60) + "\n"@
}

/// The summary with one more message, of the given time. What stands before the
/// first user message is left out.
pub open spec fn with_history(h: HistoryView, m: MessageView, clock: Seq<char>) -> HistoryView {
    if m.role == "user"@ {
        HistoryView {
            out: h.out + "\x1b[1mTurn "@ + decimal(h.turn + 1) + ":\x1b[0m "@ + clock
                + " \x1b[34m(User)\x1b[0m "@ + preview(m.content, 60) + "\n"@,
            turn: h.turn + 1,
            calls: 0,
        }
    } else if h.turn == 0 {
        h
    } else if m.role == "assistant"@ {
        HistoryView {
            out: with_reply_lines(h.out, m, clock, h.turn, h.calls + 1),
            calls: h.calls + 1,
            ..h
        }
    } else if m.role == "tool"@ {
        HistoryView { out: with_result_lines(h.out, m), ..h }
    } else {
        h
    }
}

/// The summary of the messages from the first up to `n`, the first being left
/// out where it is the system message.
pub open spec fn history_upto(
    head: Seq<char>,
    messages: Seq<MessageView>,
    clocks: Seq<Seq<char>>,
    n: int,
) -> HistoryView
    decreases n,
{
    if n <= 0 {
        HistoryView { out: head, turn: 0, calls: 0 }
    } else {
        with_history(history_upto(head, messages, clocks, n - 1), messages[n - 1], clocks[n - 1])
    }
}

pub const HISTORY_RULE: &'static str = "\x1b[90m----------------------------------------\x1b[0m\n";

/// The beginning of a summary.
pub open spec fn history_head(messages: Seq<MessageView>, clocks: Seq<Seq<char>>) -> Seq<char> {
    let a = "\x1b[1mConversation History ("@ + decimal(messages.len()) + " message(s))\x1b[0m\n"@;
    let b = if messages[0].session_id.len() > 0 {
        a + "\x1b[90mSession ID: "@ + messages[0].session_id + "\x1b[0m\n"@
    } else {
        a
    };
    let c = b + HISTORY_RULE@;
    if messages[0].role == "system"@ {
        c + "\x1b[36m[System]\x1b[0m "@ + clocks[0] + " system prompt\n"@
    } else {
        c
    }
}

/// The summary of a conversation, given the time of each message.
pub open spec fn history_at(messages: Seq<MessageView>, clocks: Seq<Seq<char>>) -> Seq<char> {
    if messages.len() == 0 {
        "\x1b[93mNo conversation history.\x1b[0m\n"@
    } else {
        let h = history_upto(
            history_head(messages, clocks),
            messages,
            clocks,
            messages.len() as int,
        );
        h.out + HISTORY_RULE@ + "Total turns: "@ + decimal(h.turn) + "\n"@
    }
}

/// The summary of a conversation.
pub open spec fn history_text(messages: Seq<MessageView>) -> Seq<char> {
    history_at(messages, messages.map_values(|m: MessageView| clock(m.timestamp)))
}

fn put_reply_lines(s: &mut String, m: &Message, clock: &str, turn: usize, call: usize)
    ensures
        final(s)@ == with_reply_lines(old(s)@, m@, clock@, turn as nat, call as nat),
{
    s.append("   ");
    s.append(C_GREEN);
    s.append("LLM call");
    s.append(RESET);
    s.append("(");
    s.append(usize_text(turn).as_str());
    s.append("-");
    s.append(usize_text(call).as_str());
    s.append(") ");
    s.append(clock);
    s.append(": ");
    s.append(C_DIM_GREEN);
    s.append("[");
    match &m.model {
        Some(x) => {
            s.append(x.as_str());
        },
        None => {
            s.append("?");
        },
    }
    s.append("]");
    s.append(RESET);
    s.append("\n");
    match &m.reasoning_content {
        Some(r) => {
            s.append("     Thinking: ");
            s.append(truncate_and_flatten(r.as_str(), 60).as_str());
            s.append("\n");
        },
        None => {},
    }
    s.append("     Response: ");
    if trim(m.content.as_str()).is_empty() {
        s.append(C_DIM_GRAY);
        s.append("No message content");
        s.append(RESET);
    } else {
        s.append(truncate_and_flatten(m.content.as_str(), 60).as_str());
    }
    s.append("\n");
    match &m.tool_calls {
        None => {},
        Some(calls) => {
            let ghost start = s@;
            let ghost cv = calls_view(calls@);
            let mut i: usize = 0;
            proof {
                assert(cv.len() == calls@.len());
            }
            while i < calls.len()
                invariant
                    i <= calls@.len(),
                    cv == calls_view(calls@),
                    s@ == with_call_lines(start, cv, i as int),
                decreases calls@.len() - i,
            {
                proof {
                    assert(cv[i as int] == calls@[i as int]@);
                }
                s.append("       ");
                s.append(C_YELLOW);
                s.append("Tool call");
                s.append(RESET);
                s.append("(");
                s.append(calls[i].id.as_str());
                s.append("): ");
                s.append(calls[i].function.name.as_str());
                s.append("\n");
                i = i + 1;
            }
        },
    }
}

fn put_result_lines(s: &mut String, m: &Message)
    ensures
        final(s)@ == with_result_lines(old(s)@, m@),
{
    let id = match &m.tool_call_id {
        Some(x) => x.as_str(),
        None => "?",
    };
    match &m.tool_call_decision {
        None => {},
        Some(d) => {
            s.append("         Decision(");
            s.append(id);
            s.append("): ");
            let (color, label): (&str, &str) = match d.kind {
                ToolRunDecisionKind::UserConfirm => (C_GREEN, "User-confirmed"),
                ToolRunDecisionKind::AutoConfirm => (C_MAGENTA, "Auto-confirmed"),
                ToolRunDecisionKind::UserCancel => (C_YELLOW, "User-canceled"),
                ToolRunDecisionKind::SystemError => (C_RED, "System-error"),
            };
            s.append(color);
            s.append(label);
            s.append(RESET);
            match &d.reason {
                Some(r) => {
                    s.append(": ");
                    s.append(r.as_str());
                },
                None => {},
            }
            s.append("\n");
        },
    }
    s.append("       Tool result(");
    s.append(id);
    s.append("): ");
    s.append(truncate_and_flatten(m.content.as_str(), 60).as_str());
    s.append("\n");
}

/// Whether `/history` is asked for the raw conversation.
pub open spec fn wants_all(arg: Option<Seq<char>>) -> bool {
    arg == Some("-a"@) || arg == Some("--all"@)
}

/// Writes the summary of a conversation, given the time of each message.
pub fn write_history(messages: &Vec<Message>, clocks: &Vec<String>) -> (r: String)
    requires
        clocks@.len() == messages@.len(),
    ensures
        r@ == history_at(messages_view(messages@), views(clocks@)),
{
    let ghost mv = messages_view(messages@);
    let n: usize = messages.len();
    let ghost cv = views(clocks@);
    proof {
        assert(mv.len() == n);
    }
    if n == 0 {
        return "\x1b[93mNo conversation history.\x1b[0m\n".to_owned();
    }
    proof {
        assert(mv[0] == messages@[0]@);
        assert(cv[0] == clocks@[0]@);
    }
    let mut s = String::from_str("\x1b[1mConversation History (");
    s.append(usize_text(n).as_str());
    s.append(" message(s))\x1b[0m\n");
    if !messages[0].session_id.as_str().is_empty() {
        s.append("\x1b[90mSession ID: ");
        s.append(messages[0].session_id.as_str());
        s.append("\x1b[0m\n");
    }
    s.append(HISTORY_RULE);
    if str_eq(messages[0].role.as_str(), "system") {
        s.append("\x1b[36m[System]\x1b[0m ");
        s.append(clocks[0].as_str());
        s.append(" system prompt\n");
    }
    let ghost head = s@;
    let mut turn: usize = 0;
    let mut calls: usize = 0;
    let mut i: usize = 0;
    while i < n
        invariant
            i <= n,
            n == messages@.len(),
            n == clocks@.len(),
            mv == messages_view(messages@),
            cv == views(clocks@),
            turn <= i,
            calls <= i,
            (HistoryView { out: s@, turn: turn as nat, calls: calls as nat }) == history_upto(
                head,
                mv,
                cv,
                i as int,
            ),
        decreases n - i,
    {
        let m = &messages[i];
        proof {
            assert(mv[i as int] == m@);
            assert(cv[i as int] == clocks@[i as int]@);
        }
        if str_eq(m.role.as_str(), "user") {
            turn = turn + 1;
            calls = 0;
            s.append("\x1b[1mTurn ");
            s.append(usize_text(turn).as_str());
            s.append(":\x1b[0m ");
            s.append(clocks[i].as_str());
            s.append(" \x1b[34m(User)\x1b[0m ");
            s.append(truncate_and_flatten(m.content.as_str(), 60).as_str());
            s.append("\n");
        } else if turn > 0 {
            if str_eq(m.role.as_str(), "assistant") {
                calls = calls + 1;
                put_reply_lines(&mut s, m, clocks[i].as_str(), turn, calls);
            } else if str_eq(m.role.as_str(), "tool") {
                put_result_lines(&mut s, m);
            }
        }
        i = i + 1;
    }
    s.append(HISTORY_RULE);
    s.append("Total turns: ");
    s.append(usize_text(turn).as_str());
    s.append("\n");
    s
}

/// The summary of a conversation; `None` where the raw conversation is asked
/// for.
pub fn handle_history(arg: &Option<String>, messages: &Vec<Message>) -> (r: Option<String>)
    ensures
        match r {
            None => wants_all(opt_view(*arg)),
            Some(s) => !wants_all(opt_view(*arg)) && s@ == history_text(messages_view(messages@)),
        },
{
    match arg {
        Some(a) => {
            if str_eq(a.as_str(), "-a") || str_eq(a.as_str(), "--all") {
                return None;
            }
        },
        None => {},
    }
    let mut clocks: Vec<String> = Vec::new();
    let mut i: usize = 0;
    while i < messages.len()
        invariant
            i <= messages@.len(),
            clocks@.len() == i,
            forall|k: int|
                0 <= k < i ==> (#[trigger] clocks@[k])@ == clock(messages@[k].timestamp),
        decreases messages@.len() - i,
    {
        clocks.push(format_clock(messages[i].timestamp));
        i = i + 1;
    }
    proof {
        let mv = messages_view(messages@);
        assert(views(clocks@) =~= mv.map_values(|m: MessageView| clock(m.timestamp)));
    }
    Some(write_history(messages, &clocks))
}

/// The summary counts one turn for each user message.
pub proof fn history_counts_user_messages(
    head: Seq<char>,
    messages: Seq<MessageView>,
    clocks: Seq<Seq<char>>,
    n: int,
)
    requires
        0 <= n <= messages.len(),
    ensures
        history_upto(head, messages, clocks, n).turn == role_count(messages, "user"@, n),
    decreases n,
{
    if n > 0 {
        history_counts_user_messages(head, messages, clocks, n - 1);
    }
}

// ---------------------------------------------------------------------------
// /restore
// ---------------------------------------------------------------------------

/// The label of the session to restore: the one named, else the present one.
pub fn restore_label(arg: &Option<String>, session: &Session) -> (r: String)
    ensures
        r@ == trimmed(text_or(opt_view(*arg), session.label@)),
{
    match arg {
        Some(l) => trim(l.as_str()).to_owned(),
        None => trim(session.label.as_str()).to_owned(),
    }
}

/// The first identifier of a session at or after `i`, or nothing.
pub open spec fn restored_id(messages: Seq<MessageView>, i: int) -> Option<Seq<char>>
    decreases messages.len() - i,
{
    if i < 0 || i >= messages.len() {
        None
    } else if messages[i].session_id.len() > 0 {
        Some(messages[i].session_id)
    } else {
        restored_id(messages, i + 1)
    }
}

/// The identifier of a restored session: the first that its messages carry,
/// else a new one.
pub fn adopt_restored_id(messages: &Vec<Message>) -> (r: String)
    ensures
        match restored_id(messages_view(messages@), 0) {
            Some(id) => r@ == id,
            None => is_uuid(r@),
        },
{
    let ghost mv = messages_view(messages@);
    let mut i: usize = 0;
    while i < messages.len()
        invariant
            i <= messages@.len(),
            mv == messages_view(messages@),
            restored_id(mv, i as int) == restored_id(mv, 0),
        decreases messages@.len() - i,
    {
        proof {
            assert(mv[i as int] == messages@[i as int]@);
        }
        if !messages[i].session_id.as_str().is_empty() {
            return messages[i].session_id.clone();
        }
        i = i + 1;
    }
    new_uuid()
}

/// What came of reading an attachment again.
#[derive(Debug, PartialEq, Eq)]
pub struct Reload {
    /// Whether the file is still there.
    pub exists: bool,
    pub text: TextRead,
    pub bytes: FileRead,
}

/// An attachment whose content is gone.
pub open spec fn gone_file(f: AttachedFileView) -> AttachedFileView {
    AttachedFileView { content: Seq::empty(), page_range: None, ..f }
}

/// The attachment that a file read again comes to, or why it is gone.
pub open spec fn reloaded_file(f: AttachedFileView, r: Reload) -> Result<
    AttachedFileView,
    Seq<char>,
> {
    if r.exists {
        match attachment(
            AttachedSpecView { path: f.path, page_range: None },
            AttachMode::Raw,
            r.text,
            r.bytes,
        ) {
            Ok(v) => Ok(v),
            Err(e) => Err(
                "  \x1b[93m  Skipped '"@ + f.path + "' (re-read failed: "@ + e + ")\x1b[0m\n"@,
            ),
        }
    } else {
        Err("  \x1b[93m  Skipped '"@ + f.path + "' (no longer exists on disk)\x1b[0m\n"@)
    }
}

/// What has been read again so far.
#[verifier::ext_equal]
pub struct ReloadView {
    pub restored: Seq<Seq<char>>,
    pub missing: Seq<Seq<char>>,
    pub warnings: Seq<char>,
}

/// The state after one file.
pub open spec fn after_reload(st: ReloadView, f: AttachedFileView, r: Reload) -> ReloadView {
    match reloaded_file(f, r) {
        Ok(_) => ReloadView { restored: st.restored.push(f.path), ..st },
        Err(w) => ReloadView {
            missing: st.missing.push(f.path),
            warnings: st.warnings + w,
            ..st
        },
    }
}

/// The file after it was read again.
pub open spec fn file_after(f: AttachedFileView, r: Reload) -> AttachedFileView {
    match reloaded_file(f, r) {
        Ok(v) => v,
        Err(_) => gone_file(f),
    }
}

/// The state after the first `n` files of a message; `from` counts the files of
/// the messages before it.
pub open spec fn after_reloads(
    st: ReloadView,
    files: Seq<AttachedFileView>,
    reads: Seq<Reload>,
    from: int,
    n: int,
) -> ReloadView
    decreases n,
{
    if n <= 0 {
        st
    } else {
        after_reload(
            after_reloads(st, files, reads, from, n - 1),
            files[n - 1],
            reads[from + n - 1],
        )
    }
}

/// How many files of a message are read again.
pub open spec fn reload_count(m: MessageView) -> nat {
    if m.role == "user"@ {
        m.attached_files.len()
    } else {
        0
    }
}

/// How many files of the first `n` messages are read again.
pub open spec fn reload_total(messages: Seq<MessageView>, n: int) -> nat
    decreases n,
{
    if n <= 0 {
        0
    } else {
        reload_total(messages, n - 1) + reload_count(messages[n - 1])
    }
}

/// A message with its files read again.
pub open spec fn reloaded_message(m: MessageView, reads: Seq<Reload>, from: int) -> MessageView {
    if reload_count(m) > 0 {
        MessageView {
            attached_files: Seq::new(
                m.attached_files.len(),
                |i: int| file_after(m.attached_files[i], reads[from + i]),
            ),
            ..m
        }
    } else {
        m
    }
}

/// The first `n` messages with their files read again.
pub open spec fn reloaded_messages(messages: Seq<MessageView>, reads: Seq<Reload>, n: int) -> Seq<
    MessageView,
>
    decreases n,
{
    if n <= 0 {
        Seq::empty()
    } else {
        reloaded_messages(messages, reads, n - 1).push(
            reloaded_message(messages[n - 1], reads, reload_total(messages, n - 1) as int),
        )
    }
}

/// The state after the files of the first `n` messages.
pub open spec fn reload_state(messages: Seq<MessageView>, reads: Seq<Reload>, n: int) -> ReloadView
    decreases n,
{
    if n <= 0 {
        ReloadView { restored: Seq::empty(), missing: Seq::empty(), warnings: Seq::empty() }
    } else {
        let before = reload_state(messages, reads, n - 1);
        let m = messages[n - 1];
        after_reloads(
            before,
            m.attached_files,
            reads,
            reload_total(messages, n - 1) as int,
            reload_count(m) as int,
        )
    }
}

/// What reading the attachments again came to.
pub struct ReloadReport {
    pub restored: Vec<String>,
    pub missing: Vec<String>,
    /// One line for each file that is gone.
    pub warnings: String,
}

impl View for ReloadReport {
    type V = ReloadView;

    open spec fn view(&self) -> ReloadView {
        ReloadView {
            restored: crate::text::views(self.restored@),
            missing: crate::text::views(self.missing@),
            warnings: self.warnings@,
        }
    }
}

fn reload_file(report: &mut ReloadReport, f: &AttachedFile, read: &Reload) -> (r: AttachedFile)
    ensures
        r@ == file_after(f@, *read),
        final(report)@ == after_reload(old(report)@, f@, *read),
{
    let mut w = String::from_str("  \x1b[93m  Skipped '");
    w.append(f.path.as_str());
    if read.exists {
        let spec = AttachedSpec { path: f.path.clone(), page_range: None };
        match attach_file(&spec, AttachMode::Raw, &read.text, &read.bytes) {
            Ok(v) => {
                let p = f.path.clone();
                proof {
                    crate::text::lemma_views_push(report.restored@, p);
                }
                report.restored.push(p);
                return v;
            },
            Err(e) => {
                w.append("' (re-read failed: ");
                w.append(e.as_str());
                w.append(")\x1b[0m\n");
            },
        }
    } else {
        w.append("' (no longer exists on disk)\x1b[0m\n");
    }
    let p = f.path.clone();
    proof {
        crate::text::lemma_views_push(report.missing@, p);
    }
    report.missing.push(p);
    report.warnings.append(w.as_str());
    AttachedFile {
        path: f.path.clone(),
        content: String::new(),
        attach_type: f.attach_type.copy(),
        page_range: None,
    }
}

/// The paths of the first `n` files.
pub open spec fn paths_upto(files: Seq<AttachedFileView>, n: int) -> Seq<Seq<char>>
    decreases n,
{
    if n <= 0 {
        Seq::empty()
    } else {
        paths_upto(files, n - 1).push(files[n - 1].path)
    }
}

/// The paths of the attachments of the first `n` messages that are read again.
pub open spec fn reload_paths(messages: Seq<MessageView>, n: int) -> Seq<Seq<char>>
    decreases n,
{
    if n <= 0 {
        Seq::empty()
    } else {
        let m = messages[n - 1];
        reload_paths(messages, n - 1) + paths_upto(m.attached_files, reload_count(m) as int)
    }
}

/// The paths of the attachments that are read again, in order.
pub fn files_to_reload(messages: &Vec<Message>) -> (r: Vec<String>)
    ensures
        r@.len() == reload_total(messages_view(messages@), messages@.len() as int),
        crate::text::views(r@) == reload_paths(messages_view(messages@), messages@.len() as int),
{
    let ghost mv = messages_view(messages@);
    let mut out: Vec<String> = Vec::new();
    let mut i: usize = 0;
    proof {
        assert(crate::text::views(out@) =~= Seq::<Seq<char>>::empty());
    }
    while i < messages.len()
        invariant
            i <= messages@.len(),
            mv == messages_view(messages@),
            out@.len() == reload_total(mv, i as int),
            crate::text::views(out@) == reload_paths(mv, i as int),
        decreases messages@.len() - i,
    {
        let m = &messages[i];
        proof {
            assert(mv[i as int] == m@);
            assert(files_view(m.attached_files@).len() == m.attached_files@.len());
        }
        if str_eq(m.role.as_str(), "user") {
            let ghost n0 = out@.len();
            let ghost before = crate::text::views(out@);
            let ghost fv = files_view(m.attached_files@);
            let mut k: usize = 0;
            proof {
                assert(before + paths_upto(fv, 0) =~= before);
            }
            while k < m.attached_files.len()
                invariant
                    k <= m.attached_files@.len(),
                    fv == files_view(m.attached_files@),
                    out@.len() == n0 + k,
                    crate::text::views(out@) == before + paths_upto(fv, k as int),
                decreases m.attached_files@.len() - k,
            {
                let p = m.attached_files[k].path.clone();
                proof {
                    crate::text::lemma_views_push(out@, p);
                    assert(fv[k as int].path == p@);
                    assert((before + paths_upto(fv, k as int)).push(p@) =~= before + paths_upto(
                        fv,
                        k + 1,
                    ));
                }
                out.push(p);
                k = k + 1;
            }
        } else {
            proof {
                assert(reload_paths(mv, i as int) + paths_upto(m@.attached_files, 0)
                    =~= reload_paths(mv, i as int));
            }
        }
        i = i + 1;
    }
    out
}

/// Reads the attachments of user messages again. A file that is gone keeps its
/// place without its content.
pub fn reload_attachments(messages: &mut Vec<Message>, reads: &Vec<Reload>) -> (r: ReloadReport)
    requires
        reads@.len() == reload_total(
            messages_view(old(messages)@),
            old(messages)@.len() as int,
        ),
    ensures
        messages_view(final(messages)@) == reloaded_messages(
            messages_view(old(messages)@),
            reads@,
            old(messages)@.len() as int,
        ),
        r@ == reload_state(
            messages_view(old(messages)@),
            reads@,
            old(messages)@.len() as int,
        ),
{
    let ghost mv = messages_view(messages@);
    let n: usize = messages.len();
    let mut report = ReloadReport {
        restored: Vec::new(),
        missing: Vec::new(),
        warnings: String::new(),
    };
    proof {
        assert(crate::text::views(report.restored@) =~= Seq::<Seq<char>>::empty());
        assert(crate::text::views(report.missing@) =~= Seq::<Seq<char>>::empty());
        assert(mv.len() == n);
    }
    let total: usize = reads.len();
    let mut from: usize = 0;
    let mut i: usize = 0;
    while i < n
        invariant
            i <= n,
            n == messages@.len(),
            total == reads@.len(),
            mv.len() == n,
            from == reload_total(mv, i as int),
            reads@.len() == reload_total(mv, n as int),
            report@ == reload_state(mv, reads@, i as int),
            reloaded_messages(mv, reads@, i as int).len() == i,
            forall|k: int|
                0 <= k < i ==> (#[trigger] messages@[k])@ == reloaded_messages(
                    mv,
                    reads@,
                    i as int,
                )[k],
            forall|k: int| i <= k < n ==> (#[trigger] messages@[k])@ == mv[k],
        decreases n - i,
    {
        let ghost done = reloaded_messages(mv, reads@, i as int);
        let mut m = messages[i].copy();
        let ghost orig = m@;
        proof {
            assert(orig == mv[i as int]);
            lemma_reload_total(mv, i + 1, n as int);
            assert(files_view(m.attached_files@).len() == m.attached_files@.len());
        }
        if str_eq(m.role.as_str(), "user") && m.attached_files.len() > 0 {
            let ghost st = report@;
            let count: usize = m.attached_files.len();
            let mut files: Vec<AttachedFile> = Vec::new();
            let mut k: usize = 0;
            while k < count
                invariant
                    k <= count,
                    count == m.attached_files@.len(),
                    orig.attached_files == files_view(m.attached_files@),
                    total == reads@.len(),
                    from + count <= total,
                    files@.len() == k,
                    forall|j: int|
                        0 <= j < k ==> (#[trigger] files@[j])@ == file_after(
                            orig.attached_files[j],
                            reads@[from + j],
                        ),
                    report@ == after_reloads(
                        st,
                        orig.attached_files,
                        reads@,
                        from as int,
                        k as int,
                    ),
                decreases count - k,
            {
                proof {
                    assert(orig.attached_files[k as int] == m.attached_files@[k as int]@);
                }
                let f = reload_file(&mut report, &m.attached_files[k], &reads[from + k]);
                files.push(f);
                k = k + 1;
            }
            proof {
                assert(files_view(files@) =~= Seq::new(
                    orig.attached_files.len(),
                    |j: int| file_after(orig.attached_files[j], reads@[from + j]),
                ));
            }
            m.attached_files = files;
            from = from + count;
        }
        let ghost nv = m@;
        messages.set(i, m);
        i = i + 1;
        proof {
            assert(nv == reloaded_message(orig, reads@, reload_total(mv, i - 1) as int));
            assert(reloaded_messages(mv, reads@, i as int) =~= done.push(nv));
        }
    }
    proof {
        assert(messages_view(messages@) =~= reloaded_messages(mv, reads@, n as int));
    }
    report
}

proof fn lemma_reload_total(messages: Seq<MessageView>, i: int, n: int)
    requires
        0 <= i <= n,
    ensures
        reload_total(messages, i) <= reload_total(messages, n),
    decreases n - i,
{
    if i < n {
        lemma_reload_total(messages, i, n - 1);
    }
}

/// A text with a line for each restored file.
pub open spec fn with_restored(s: Seq<char>, paths: Seq<Seq<char>>, n: int) -> Seq<char>
    decreases n,
{
    if n <= 0 {
        s
    } else {
        with_restored(s, paths, n - 1) + "  \x1b[32m  Restored '"@ + paths[n - 1] + "'\x1b[0m\n"@
    }
}

/// What is shown of the attachments that were read again.
pub open spec fn reload_text(r: ReloadView) -> Seq<char> {
    if r.restored.len() == 0 && r.missing.len() == 0 {
        Seq::empty()
    } else {
        let a = with_restored(Seq::empty(), r.restored, r.restored.len() as int);
        let b = if r.restored.len() > 0 && r.missing.len() > 0 {
            a + "\n"@
        } else {
            a
        };
        b + "  \x1b[32m  Attached files: "@ + decimal(r.restored.len()) + " restored, "@ + decimal(
            r.missing.len(),
        ) + " missing\x1b[0m\n"@
    }
}

/// What is shown of the attachments that were read again.
pub fn reload_notice(report: &ReloadReport) -> (r: String)
    ensures
        r@ == reload_text(report@),
{
    let mut s = String::new();
    let ghost rv = crate::text::views(report.restored@);
    proof {
        assert(rv.len() == report.restored@.len());
        assert(crate::text::views(report.missing@).len() == report.missing@.len());
    }
    if report.restored.len() == 0 && report.missing.len() == 0 {
        return s;
    }
    let ghost start = s@;
    let mut i: usize = 0;
    while i < report.restored.len()
        invariant
            i <= report.restored@.len(),
            rv == crate::text::views(report.restored@),
            s@ == with_restored(start, rv, i as int),
        decreases report.restored@.len() - i,
    {
        proof {
            assert(rv[i as int] == report.restored@[i as int]@);
        }
        s.append("  \x1b[32m  Restored '");
        s.append(report.restored[i].as_str());
        s.append("'\x1b[0m\n");
        i = i + 1;
    }
    if report.restored.len() > 0 && report.missing.len() > 0 {
        s.append("\n");
    }
    s.append("  \x1b[32m  Attached files: ");
    s.append(usize_text(report.restored.len()).as_str());
    s.append(" restored, ");
    s.append(usize_text(report.missing.len()).as_str());
    s.append(" missing\x1b[0m\n");
    s
}

/// The turns of a restored conversation that are complete: one for each user
/// message, without the last where nothing follows it.
pub open spec fn complete_turns(messages: Seq<MessageView>) -> int {
    let n = role_count(messages, "user"@, messages.len() as int);
    if messages.len() > 0 && messages.last().role == "user"@ {
        n - 1
    } else {
        n as int
    }
}

/// Counts the complete turns of a restored conversation.
pub fn restored_turns(messages: &Vec<Message>) -> (r: i32)
    requires
        messages@.len() <= i32::MAX,
    ensures
        r == complete_turns(messages_view(messages@)),
{
    let ghost mv = messages_view(messages@);
    let n: usize = messages.len();
    let count: usize = count_role(messages, "user");
    proof {
        assert(mv.len() == n);
        if n > 0 {
            assert(mv.last() == messages@[n - 1]@);
        }
    }
    if n > 0 && str_eq(messages[n - 1].role.as_str(), "user") {
        count as i32 - 1
    } else {
        count as i32
    }
}

/// A restored conversation that ends on a question goes on with that question:
/// its message is the one that the next turn takes over.
pub proof fn open_question_is_reused(messages: Seq<MessageView>, s: SessionView)
    requires
        messages.len() > 0,
        messages.last().role == "user"@,
        s.messages == messages,
        s.turn == complete_turns(messages) + 1,
    ensures
        crate::reasoning::has_turn_message(s),
{
}

/// What is asked before a session is restored.
pub fn restore_question(count: usize, label: &str) -> (r: String)
    ensures
        r@ == "\x1b[93m\u{26a0}\u{fe0f}  Restoring will replace the current conversation with "@
            + decimal(count as nat) + " saved message(s) from label '"@ + label@ + "'.\x1b[0m\n"@,
{
    let mut s = String::from_str(
        "\x1b[93m\u{26a0}\u{fe0f}  Restoring will replace the current conversation with ",
    );
    s.append(usize_text(count).as_str());
    s.append(" saved message(s) from label '");
    s.append(label);
    s.append("'.\x1b[0m\n");
    s
}

/// What is shown where there is no session to restore.
pub fn no_session_notice(label: &str) -> (r: String)
    ensures
        r@ == "\x1b[93mNo previous session found for label '"@ + label@ + "'.\x1b[0m\n"@,
{
    let mut s = String::from_str("\x1b[93mNo previous session found for label '");
    s.append(label);
    s.append("'.\x1b[0m\n");
    s
}

/// The error where there is no session to restore.
pub fn nothing_to_restore(label: &str) -> (r: String)
    ensures
        r@ == "No previous session to restore for label '"@ + label@ + "'"@,
{
    let mut s = String::from_str("No previous session to restore for label '");
    s.append(label);
    s.append("'");
    s
}

/// What came of a restore.
pub struct RestoreOutcome {
    /// Complete turns of the restored conversation.
    pub turns: i32,
    /// What is shown of it.
    pub notice: String,
    /// What is said of files that are gone.
    pub warnings: String,
}

/// Replaces the conversation of a session by a restored one, whose attachments
/// were read again.
pub fn handle_restore(
    session: &mut Session,
    restored: Vec<Message>,
    reads: &Vec<Reload>,
    label: &str,
) -> (r: RestoreOutcome)
    requires
        restored@.len() <= i32::MAX,
        reads@.len() == reload_total(messages_view(restored@), restored@.len() as int),
    ensures
        ({
            let mv = messages_view(restored@);
            let n = mv.len() as int;
            let now = reloaded_messages(mv, reads@, n);
            &&& final(session)@.messages == now
            &&& final(session)@.label == old(session)@.label
            &&& final(session)@.turn == old(session)@.turn
            &&& match restored_id(mv, 0) {
                Some(id) => final(session)@.id == id,
                None => is_uuid(final(session)@.id),
            }
            &&& r.turns == complete_turns(now)
            &&& r.warnings@ == reload_state(mv, reads@, n).warnings
            &&& r.notice@ == reload_text(reload_state(mv, reads@, n))
                + "\x1b[32m\u{2713} Restored "@ + decimal(now.len()) + " messages ("@ + decimal_int(
                complete_turns(now),
            ) + " turn(s)) from label '"@ + label@ + "'.\x1b[0m\n"@
        }),
{
    let ghost mv = messages_view(restored@);
    proof {
        assert(mv.len() == restored@.len());
    }
    let id = adopt_restored_id(&restored);
    let mut messages = restored;
    let report = reload_attachments(&mut messages, reads);
    proof {
        assert(messages_view(messages@).len() == messages@.len());
        lemma_reloaded_len(mv, reads@, mv.len() as int);
    }
    let turns: i32 = restored_turns(&messages);
    let mut notice = reload_notice(&report);
    notice.append("\x1b[32m\u{2713} Restored ");
    notice.append(usize_text(messages.len()).as_str());
    notice.append(" messages (");
    notice.append(i64_text(turns as i64).as_str());
    notice.append(" turn(s)) from label '");
    notice.append(label);
    notice.append("'.\x1b[0m\n");
    session.id = id;
    session.messages = messages;
    RestoreOutcome { turns, notice, warnings: report.warnings }
}

proof fn lemma_reloaded_len(messages: Seq<MessageView>, reads: Seq<Reload>, n: int)
    requires
        0 <= n <= messages.len(),
    ensures
        reloaded_messages(messages, reads, n).len() == n,
    decreases n,
{
    if n > 0 {
        lemma_reloaded_len(messages, reads, n - 1);
    }
}

// ---------------------------------------------------------------------------
// Dispatch
// ---------------------------------------------------------------------------

/// What a command leaves to do.
#[derive(Debug, PartialEq, Eq)]
pub enum SlashStep {
    Exit,
    /// Print this.
    Show(String),
    /// Print this as an error.
    Complain(String),
    /// Print the raw conversation.
    ShowRaw,
    /// Ask whether to rewind as planned, and do so on a yes.
    ConfirmRewind(RewindPlan),
    /// Restore the session of this label.
    Restore(String),
}

/// What such a step is.
pub enum StepView {
    Exit,
    Show(Seq<char>),
    Complain(Seq<char>),
    ShowRaw,
    ConfirmRewind(RewindPlan),
    Restore(Seq<char>),
}

impl View for SlashStep {
    type V = StepView;

    open spec fn view(&self) -> StepView {
        match *self {
            SlashStep::Exit => StepView::Exit,
            SlashStep::Show(s) => StepView::Show(s@),
            SlashStep::Complain(s) => StepView::Complain(s@),
            SlashStep::ShowRaw => StepView::ShowRaw,
            SlashStep::ConfirmRewind(p) => StepView::ConfirmRewind(p),
            SlashStep::Restore(l) => StepView::Restore(l@),
        }
    }
}

/// The error on a command that failed, as it is shown.
pub open spec fn complaint(why: Seq<char>) -> StepView {
    StepView::Complain("\x1b[91mSlash command error: "@ + why + "\x1b[0m"@)
}

/// The settings after a command, and what it leaves to do.
pub open spec fn command_step(
    c: CommandView,
    session: SessionView,
    settings: SettingsView,
    models: PerModel,
    totals: ModelTotals,
) -> (SettingsView, StepView) {
    match c {
        CommandView::Exit => (settings, StepView::Exit),
        CommandView::Help => (settings, StepView::Show(HELP@)),
        CommandView::Rewind(arg) => (
            settings,
            match rewind_plan(arg, session.messages, session.turn) {
                Ok(p) => StepView::ConfirmRewind(p),
                Err(e) => complaint(e),
            },
        ),
        CommandView::History(arg) => (
            settings,
            if wants_all(arg) {
                StepView::ShowRaw
            } else {
                StepView::Show(history_text(session.messages))
            },
        ),
        CommandView::Model(arg) => match arg {
            Some(name) if name.len() > 0 => (
                SettingsView { llm_model: name, ..settings },
                StepView::Show(
                    "\x1b[32m\u{2713} Switched model: "@ + settings.llm_model + " -> "@ + name
                        + "\x1b[0m\n"@,
                ),
            ),
            _ => (
                settings,
                StepView::Show("\x1b[93mCurrent model: "@ + settings.llm_model + "\x1b[0m\n"@),
            ),
        },
        CommandView::Config(arg) => match config_outcome(settings, arg) {
            Ok(o) => (o.0, StepView::Show(o.1)),
            Err(e) => (settings, complaint(e)),
        },
        CommandView::Restore(arg) => (
            settings,
            StepView::Restore(trimmed(text_or(arg, session.label))),
        ),
        CommandView::Stats => (settings, StepView::Show(stats_text(session.label, models, totals))),
        CommandView::Unknown(name) => (
            settings,
            StepView::Complain(
                "\x1b[93mUnknown command: "@ + name
                    + "\x1b[0m Type /help for available commands."@,
            ),
        ),
    }
}

/// Carries out a command as far as it needs neither the user nor the disk, and
/// says what it leaves to do.
pub fn run_command(
    command: &SlashCommand,
    session: &Session,
    settings: &mut Settings,
    metrics: &Metrics,
) -> (r: SlashStep)
    requires
        session.messages@.len() <= i32::MAX,
    ensures
        (final(settings)@, r@) == command_step(
            command@,
            session@,
            old(settings)@,
            per_model(metrics.by_model@),
            metrics.totals,
        ),
{
    match command {
        SlashCommand::Exit => SlashStep::Exit,
        SlashCommand::Help => SlashStep::Show(HELP.to_owned()),
        SlashCommand::Rewind(arg) => match plan_rewind(arg, &session.messages, session.turn) {
            Ok(p) => SlashStep::ConfirmRewind(p),
            Err(e) => SlashStep::Complain(command_error(e.as_str())),
        },
        SlashCommand::History(arg) => match handle_history(arg, &session.messages) {
            Some(s) => SlashStep::Show(s),
            None => SlashStep::ShowRaw,
        },
        SlashCommand::Model(arg) => SlashStep::Show(handle_model(arg, settings)),
        SlashCommand::Config(arg) => match handle_config(arg, settings) {
            Ok(s) => SlashStep::Show(s),
            Err(e) => SlashStep::Complain(command_error(e.as_str())),
        },
        SlashCommand::Restore(arg) => SlashStep::Restore(restore_label(arg, session)),
        SlashCommand::Stats => SlashStep::Show(handle_stats(metrics, session.label.as_str())),
        SlashCommand::Unknown(name) => SlashStep::Complain(unknown_command(name.as_str())),
    }
}

/// Handles an input that is a slash command; `None` where it is an ordinary
/// message. Bare `exit` and `quit` are commands too.
pub fn try_handle_slash_command(
    input: &str,
    session: &Session,
    settings: &mut Settings,
    metrics: &Metrics,
) -> (r: Option<SlashStep>)
    requires
        session.messages@.len() <= i32::MAX,
    ensures
        match command_of(input@) {
            None => r is None && final(settings)@ == old(settings)@,
            Some(c) => r is Some && (final(settings)@, r->0@) == command_step(
                c,
                session@,
                old(settings)@,
                per_model(metrics.by_model@),
                metrics.totals,
            ),
        },
{
    match parse_slash_command(input) {
        None => None,
        Some(c) => Some(run_command(&c, session, settings, metrics)),
    }
}

} // verus!
