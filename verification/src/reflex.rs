//! Confirmation of tool calls without the user: which calls pass by their
//! arguments alone, and why.

use vstd::prelude::*;
use vstd::string::*;

use crate::json_model::{group_json, Json, JsonView};
use crate::reflex_literal::{
    core_command, exact_command, head_tail_path, lies_below, passing_commands_read_below,
    plain_query, read_path, safe_paths_stay_below, safe_subpath, shallow_command,
};
use crate::reflex_literal_filter::{
    is_exact_matched_command, is_safe_grep_query, is_safe_subpath, is_shallow_matched_command,
};
use crate::text::{opt_view, str_eq};

verus! {

broadcast use group_json;

/// Whether a tool works on the path among its arguments.
pub open spec fn is_path_tool(name: Seq<char>) -> bool {
    name == "read_file"@ || name == "write_file"@ || name == "str_replace_editor"@ || name
        == "list_directory"@
}

/// Why a path passes.
pub open spec fn path_reason(path: Option<Seq<char>>) -> Option<Seq<char>> {
    match path {
        Some(p) => if safe_subpath(p) {
            Some("A reasonably peaceful path: "@ + p)
        } else {
            None
        },
        None => None,
    }
}

/// Why a search passes.
pub open spec fn search_reason(query: Option<Seq<char>>, path: Option<Seq<char>>) -> Option<
    Seq<char>,
> {
    match (query, path) {
        (Some(q), Some(p)) => if plain_query(q) && safe_subpath(p) {
            Some(
                "A reasonably quiet query along a peaceful path (path: '"@ + p + "', query: '"@ + q
                    + "')"@,
            )
        } else {
            None
        },
        (Some(q), None) => if plain_query(q) {
            Some("A reasonably quiet query: "@ + q)
        } else {
            None
        },
        _ => None,
    }
}

/// Why a command passes.
pub open spec fn command_reason(command: Option<Seq<char>>) -> Option<Seq<char>> {
    match command {
        Some(c) => if exact_command(c) {
            Some("A reasonably polite command: "@ + c)
        } else if shallow_command(c, false) {
            Some("A reasonably familiar pattern: "@ + c)
        } else {
            None
        },
        None => None,
    }
}

/// Why a tool call passes without the user; `None` where it does not.
pub open spec fn reflex_reason(name: Seq<char>, args: JsonView) -> Option<Seq<char>> {
    if is_path_tool(name) {
        path_reason(args.str_at("path"@))
    } else if name == "grep_search"@ {
        search_reason(args.str_at("query"@), args.str_at("path"@))
    } else if name == "execute_bash"@ {
        command_reason(args.str_at("command"@))
    } else {
        None
    }
}

fn names_path_tool(name: &str) -> (r: bool)
    ensures
        r == is_path_tool(name@),
{
    str_eq(name, "read_file") || str_eq(name, "write_file") || str_eq(name, "str_replace_editor")
        || str_eq(name, "list_directory")
}

fn reason(text: &str, value: &str) -> (r: Option<String>)
    ensures
        opt_view(r) == Some(text@ + value@),
{
    let mut s = String::from_str(text);
    s.append(value);
    Some(s)
}

/// Decides whether a tool call passes without the user, and gives the reason.
/// A call passes where the tool is allowed and its arguments have one of the
/// plain forms.
pub fn auto_confirm(name: &str, args: &Json) -> (r: (bool, Option<String>))
    ensures
        opt_view(r.1) == reflex_reason(name@, args@),
        r.0 == (r.1 is Some),
{
    let why = if names_path_tool(name) {
        match args.str_at("path") {
            Some(p) => if is_safe_subpath(p) {
                reason("A reasonably peaceful path: ", p)
            } else {
                None
            },
            None => None,
        }
    } else if str_eq(name, "grep_search") {
        match (args.str_at("query"), args.str_at("path")) {
            (Some(q), Some(p)) => if is_safe_grep_query(q) && is_safe_subpath(p) {
                let mut s = String::from_str(
                    "A reasonably quiet query along a peaceful path (path: '",
                );
                s.append(p);
                s.append("', query: '");
                s.append(q);
                s.append("')");
                Some(s)
            } else {
                None
            },
            (Some(q), None) => if is_safe_grep_query(q) {
                reason("A reasonably quiet query: ", q)
            } else {
                None
            },
            _ => None,
        }
    } else if str_eq(name, "execute_bash") {
        match args.str_at("command") {
            Some(c) => if is_exact_matched_command(c) {
                reason("A reasonably polite command: ", c)
            } else if is_shallow_matched_command(c) {
                reason("A reasonably familiar pattern: ", c)
            } else {
                None
            },
            None => None,
        }
    } else {
        None
    };
    (why.is_some(), why)
}

/// No call of a tool that works on a path passes with a path that steps
/// upwards or begins at the root, nor does a search.
pub proof fn passing_paths_stay_below(name: Seq<char>, args: JsonView)
    requires
        is_path_tool(name) || (name == "grep_search"@ && args.str_at("path"@) is Some),
        reflex_reason(name, args) is Some,
    ensures
        args.str_at("path"@) is Some,
        lies_below(args.str_at("path"@)->0),
{
    safe_paths_stay_below(args.str_at("path"@)->0);
}

/// A command that passes is one of the few exact ones, or reads one path below
/// the working directory.
pub proof fn passing_commands_read_or_check(args: JsonView)
    requires
        reflex_reason("execute_bash"@, args) is Some,
    ensures
        args.str_at("command"@) is Some,
        ({
            let cmd = args.str_at("command"@)->0;
            let c = core_command(cmd);
            exact_command(cmd) || exists|p: Seq<char>|
                (read_path(c) == Some(p) || head_tail_path(c, false) == Some(p))
                    && #[trigger] lies_below(p)
        }),
{
    reveal_strlit("execute_bash");
    reveal_strlit("grep_search");
    reveal_strlit("read_file");
    reveal_strlit("write_file");
    reveal_strlit("str_replace_editor");
    reveal_strlit("list_directory");
    assert("execute_bash"@.len() == 12);
    assert("grep_search"@.len() == 11);
    assert("read_file"@.len() == 9);
    assert("write_file"@.len() == 10);
    assert("str_replace_editor"@.len() == 18);
    assert("list_directory"@.len() == 14);
    let cmd = args.str_at("command"@)->0;
    if !exact_command(cmd) {
        passing_commands_read_below(cmd, false);
    }
}

/// Fetching a page never passes without the user, nor does an unknown tool.
pub proof fn other_tools_never_pass(name: Seq<char>, args: JsonView)
    requires
        !is_path_tool(name),
        name != "grep_search"@,
        name != "execute_bash"@,
    ensures
        reflex_reason(name, args) is None,
{
}

} // verus!
