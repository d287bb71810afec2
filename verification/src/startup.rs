//! CLI initialisation and runtime configuration.
//!
//! Holds the configuration, the names and colours of the application, the
//! system messages and the startup report.

use vstd::prelude::*;
use vstd::string::*;

use crate::compat_provider::{provider_name, LlmProvider};
use crate::compat_resilience::{format_name, ToolResultFormat};
use crate::model::{now_seconds, plain_message, Message};
use crate::text::{
    contains_char, decimal, join, join_of, lemma_views_push, str_eq, u64_text, usize_text, views,
};

verus! {

pub const APP_NAME: &'static str = "Always-Goofy-Things";

pub const APP_BIN_NAME: &'static str = "always-goofy-things";

pub const APP_DESCRIPTION: &'static str = "A lightweight LLM loop for software development tasks.";

pub const HDR_RED: &'static str = "\x1b[48;2;218;75;80m";

pub const HDR_GREEN: &'static str = "\x1b[48;2;45;180;103m";

pub const BG_RED: &'static str = "\x1b[48;2;190;85;85m";

pub const BG_GREEN: &'static str = "\x1b[48;2;80;150;95m";

pub const BG_GRAY: &'static str = "\x1b[48;2;85;85;90m";

pub const C_GRAY: &'static str = "\x1b[90m";

pub const C_RED: &'static str = "\x1b[31m";

pub const C_GREEN: &'static str = "\x1b[32m";

pub const C_CYAN: &'static str = "\x1b[36m";

pub const C_MAGENTA: &'static str = "\x1b[35m";

pub const C_YELLOW: &'static str = "\x1b[93m";

pub const C_DIM_GRAY: &'static str = "\x1b[90m";

pub const C_DIM_GREEN: &'static str = "\x1b[32m";

pub const RESET: &'static str = "\x1b[0m";

pub const ERASE_LINE: &'static str = "\x1b[K";

pub const EMPTY: &'static str = "";

/// UI decoration and friendliness level.
pub type PrettyLevel = u8;

/// UI verbosity for the display of the conversation.
pub type Verbosity = u8;

// ---------------------------------------------------------------------------
// Configuration
// ---------------------------------------------------------------------------

/// A tool that the model can be given.
#[derive(Debug, Clone, Copy, PartialEq, Eq, Structural)]
pub enum ToolName {
    ReadFile,
    WriteFile,
    StrReplaceEditor,
    GrepSearch,
    ListDirectory,
    ExecuteBash,
    FetchWeb,
    DataSearch,
    DataSchema,
    Calc,
}

/// The canonical name of a tool.
pub open spec fn tool_text(t: ToolName) -> Seq<char> {
    match t {
        ToolName::ReadFile => "read_file"@,
        ToolName::WriteFile => "write_file"@,
        ToolName::StrReplaceEditor => "str_replace_editor"@,
        ToolName::GrepSearch => "grep_search"@,
        ToolName::ListDirectory => "list_directory"@,
        ToolName::ExecuteBash => "execute_bash"@,
        ToolName::FetchWeb => "fetch_web"@,
        ToolName::DataSearch => "data_search"@,
        ToolName::DataSchema => "data_schema"@,
        ToolName::Calc => "calc"@,
    }
}

impl ToolName {
    /// The canonical name of the tool.
    pub fn as_str(&self) -> (r: &'static str)
        ensures
            r@ == tool_text(*self),
    {
        match self {
            ToolName::ReadFile => "read_file",
            ToolName::WriteFile => "write_file",
            ToolName::StrReplaceEditor => "str_replace_editor",
            ToolName::GrepSearch => "grep_search",
            ToolName::ListDirectory => "list_directory",
            ToolName::ExecuteBash => "execute_bash",
            ToolName::FetchWeb => "fetch_web",
            ToolName::DataSearch => "data_search",
            ToolName::DataSchema => "data_schema",
            ToolName::Calc => "calc",
        }
    }

    /// The tool of a name.
    pub fn named(name: &str) -> (r: Option<ToolName>)
        ensures
            match r {
                Some(t) => tool_text(t) == name@,
                None => forall|t: ToolName| #[trigger] tool_text(t) != name@,
            },
    {
        if str_eq(name, "read_file") {
            Some(ToolName::ReadFile)
        } else if str_eq(name, "write_file") {
            Some(ToolName::WriteFile)
        } else if str_eq(name, "str_replace_editor") {
            Some(ToolName::StrReplaceEditor)
        } else if str_eq(name, "grep_search") {
            Some(ToolName::GrepSearch)
        } else if str_eq(name, "list_directory") {
            Some(ToolName::ListDirectory)
        } else if str_eq(name, "execute_bash") {
            Some(ToolName::ExecuteBash)
        } else if str_eq(name, "fetch_web") {
            Some(ToolName::FetchWeb)
        } else if str_eq(name, "data_search") {
            Some(ToolName::DataSearch)
        } else if str_eq(name, "data_schema") {
            Some(ToolName::DataSchema)
        } else if str_eq(name, "calc") {
            Some(ToolName::Calc)
        } else {
            None
        }
    }
}

/// The configuration of the application.
#[derive(Debug, PartialEq, Eq)]
pub struct Config {
    /// Directory where the tools operate.
    pub working_dir: String,
    /// Todo execution mode.
    pub todo_mode: u8,
    /// Endpoint for the chat API.
    pub llm_url: String,
    /// Name of the model.
    pub llm_model: String,
    /// API key for authentication.
    pub llm_api_key: Option<String>,
    /// Reflex mode.
    pub unsafe_reflex: bool,
    /// UI verbosity for the display of the conversation.
    pub verbose_level: Verbosity,
    /// UI decoration and friendliness level.
    pub pretty_level: PrettyLevel,
    /// Maximum requests per minute (0: unlimited).
    pub llm_rpm: u32,
    /// Maximum output tokens per request.
    pub max_output_tokens: u32,
    /// Stop after this many consecutive empty responses (0: unlimited).
    pub max_reasoning_empty_responses: u32,
    /// Session label, the suffix of the session files.
    pub session_label: String,
    /// Provider (detected from the URL where it is not given).
    pub provider: Option<LlmProvider>,
    /// How tool results are formatted when they are sent back.
    pub tool_result_format: ToolResultFormat,
    /// Only these tools are enabled; all of them where the list is empty.
    pub only_tools: Vec<ToolName>,
    /// Batch query: run once and print the result.
    pub query: Option<String>,
    /// Write the final response of each turn to this file.
    pub output_file: Option<String>,
    /// Maximum reasoning turns per user message (0: unlimited).
    pub max_reasoning_turns: u32,
    /// Maximum consecutive replans without progress (0: unlimited).
    pub max_replan_attempts: u32,
    /// Maximum bytes captured per output stream of a tool (0: unlimited).
    pub max_tool_output_bytes: usize,
    /// Wall-clock timeout of a tool in seconds (0: unlimited).
    pub tool_timeout_secs: u64,
    /// Database type of the data tools.
    pub db_type: Option<String>,
    /// Database query endpoint.
    pub db_url: Option<String>,
    /// Authentication key of the database.
    pub db_auth_key: Option<String>,
    /// Query timeout in seconds.
    pub db_timeout: u64,
    /// Maximum response size in bytes before truncation.
    pub db_max_bytes: usize,
    /// Confirm the data tools without asking.
    pub db_unsafe_reflex: bool,
}

/// Whether a tool is enabled by a list of tools: an empty list enables all.
pub open spec fn tool_enabled(only: Seq<ToolName>, name: Seq<char>) -> bool {
    only.len() == 0 || exists|i: int| 0 <= i < only.len() && tool_text(#[trigger] only[i]) == name
}

impl Config {
    /// Whether a tool, by its canonical name, is enabled.
    pub fn is_tool_enabled(&self, name: &str) -> (r: bool)
        ensures
            r == tool_enabled(self.only_tools@, name@),
    {
        if self.only_tools.len() == 0 {
            return true;
        }
        let mut i: usize = 0;
        while i < self.only_tools.len()
            invariant
                i <= self.only_tools@.len(),
                self.only_tools@.len() > 0,
                forall|k: int| 0 <= k < i ==> tool_text(#[trigger] self.only_tools@[k]) != name@,
            decreases self.only_tools@.len() - i,
        {
            if str_eq(self.only_tools[i].as_str(), name) {
                proof {
                    assert(tool_text(self.only_tools@[i as int]) == name@);
                }
                return true;
            }
            i = i + 1;
        }
        false
    }
}

// ---------------------------------------------------------------------------
// System messages
// ---------------------------------------------------------------------------

/// Opens every system message.
pub const PREAMBLE: &'static str = "You are an expert software engineering assistant. Follow these immutable rules:\n\n";

/// Where the tools work.
pub const WORKSPACE_SECTION: &'static str = "## 1. Workspace Context\n- Current Working Directory: Your root is ./ (the current directory).\n- Relative Paths Only: You MUST use relative paths (e.g., file.txt, ./src/) for all operations.\n- Prohibitions: NEVER use absolute paths starting with /. NEVER use ../ to escape the directory.";

/// Command execution, up to the allowed patterns.
pub const COMMANDS_HEAD: &'static str = "## 2-1. Command Execution (execute_bash)\n- Allowed command patterns: [";

/// Command execution, after the allowed patterns.
pub const COMMANDS_TAIL: &'static str = "]\n- Interactive commands (e.g., nano, vim, top, ssh) are strictly forbidden. Always check the whitelist.";

pub const READ_FILE_LINE: &'static str = "- read_file: Read file contents; start/end form a 1-based inclusive range (lines for text files, pages for PDFs).";

pub const STR_REPLACE_HEAD: &'static str = "- str_replace_editor: Replace one exact string block";

/// Stands in the guidance on replacing where files can also be written.
pub const STR_REPLACE_CHOICE: &'static str = "; prefer it over write_file for partial edits";

pub const STR_REPLACE_TAIL: &'static str = ". old_string must match the file exactly, including whitespace and indentation.";

pub const WRITE_FILE_LINE: &'static str = "- write_file: Create a new file or fully replace an existing one; for new files and full rewrites only.";

pub const LIST_DIRECTORY_LINE: &'static str = "- list_directory: List files and directories (non-recursive) to explore the project structure.";

pub const GREP_SEARCH_LINE: &'static str = "- grep_search: Search for text patterns across workspace files to locate code.";

pub const FETCH_WEB_LINE: &'static str = "- fetch_web: Supports only http/https. Access to private or local networks is strictly prohibited.";

pub const DATA_TAIL: &'static str = ": Query the configured database (requires --db-type).";

/// Opens the sections on tools.
pub const TOOLS_HEAD: &'static str = "## 2. Tools (your interface to the workspace and the outside world)\n";

/// How to respond.
pub const STYLE_SECTION: &'static str = "## 3. Response Style\n- Briefly explain the purpose of a tool before calling it.\n- Maintain system rules at the top of the context for inference efficiency.";

/// A task of a static plan, up to the length of the report.
pub const TASK_LOOP_HEAD: &'static str = "## 4. Todo Context (Plan-Exec Task Loop)\n- Read `./todo.md` and `artifacts/handover.md` FIRST with read_file; todo.md is the plan, handover.md holds the notes and reports from previous tasks.\n- Execute ONLY the task in the user message; do NOT execute other tasks.\n- Finish the task completely (create its outputs) before stopping.\n- Check `artifacts/` for previous work; save your outputs there.\n- Handover entries may be followed by an `outputs:` line listing the artifact paths the previous task created; read the listed files with read_file when your task needs them.\n- Your final message must be a Handover Report in exactly this format:\n- Status: done / blocked\n- Output: <file paths created or updated, or \"none\">\n- Findings: <facts you observed, in one or two sentences>\n- Next: <what the next task should watch out for, or \"none\">\n- Keep the entire report within ";

pub const TASK_LOOP_TAIL: &'static str = " characters.\nNothing else; do not add other sections. The application saves your report to `artifacts/handover.md`; do NOT edit `artifacts/handover.md` yourself.";

/// The planner of a dynamic plan, up to the length of the note.
pub const REPLAN_HEAD: &'static str = "## 4. Todo Context (Plan-Exec-Dynamic Replan)\n- You are the task planner. Do NOT execute the tasks; only update the plan.\n- Read `./todo.md` and `artifacts/handover.md` FIRST with read_file; todo.md is the current plan, handover.md holds the task reports and planner notes from previous sessions (each task report is followed by an `outputs:` line listing the artifact paths that task declared).\n- todo.md has a FIXED format of exactly three sections: `# <title>`, `## Goal`, `## Tasks`. NEVER add, remove, or rename sections; NEVER add prose outside the Tasks list; keep the `- [ ]` / `- [x]` bullet format.\n- Mark completed tasks `[x]` (verify the files named in their `outputs:` lines exist in `artifacts/`), and add, remove, reorder, or split tasks. If ALL tasks are `[x]` but the Goal is not yet achieved, add the tasks needed to finish it.\n- Write, in this order:\n1. `./todo.md` - the updated plan; text alone does not update the plan.\n2. `./next-task.md` (write_file; overwrite it every time) - the brief for the IMMEDIATELY NEXT task: its scope, the files it must read (mark each one must-read or optional), the previous task's `outputs:`, and warnings.\n- Your final message must be your plan-update notes for the next planner session: anything it must know that does not fit in `./todo.md` or `./next-task.md`, in exactly this format:\n- Status: <overall state of the job>\n- Progress: <what the completed tasks achieved>\n- Decisions: <what you changed in the plan and why>\n- Next: <what happens next, or \"none\">\n- Keep the entire note within ";

pub const REPLAN_TAIL: &'static str = " characters.\nNothing else; do not add other sections. The application saves your note to `artifacts/handover.md`; do NOT edit `artifacts/handover.md` yourself.";

/// A task of a dynamic plan, up to the length of the report.
pub const DYNAMIC_TASK_HEAD: &'static str = "## 4. Todo Context (Plan-Exec-Dynamic Task Loop)\n- Read `./todo.md` and `./next-task.md` FIRST with read_file; todo.md is the plan, next-task.md is the brief for your task: your scope, the files to read (marked must-read or optional), the previous task's `outputs:`, and warnings. If next-task.md is missing or the brief is insufficient, explore `artifacts/` with list_directory and read only the files your task needs.\n- Execute ONLY the task in the user message; do NOT execute other tasks.\n- Finish the task completely (create its outputs) before stopping.\n- After completing, update `./todo.md` with write_file: mark ONLY your task `[x]`; you may add subtasks to `## Tasks` if needed.\n- Check `artifacts/` for previous work; save your outputs there.\n- Your final message must be a Handover Report in exactly this format:\n- Status: done / blocked\n- Output: <file paths created or updated, or \"none\">\n- Findings: <facts you observed, in one or two sentences>\n- Next: <what the next task should watch out for, or \"none\">\n- Keep the entire report within ";

pub const DYNAMIC_TASK_TAIL: &'static str = " characters.\nNothing else; do not add other sections. The application saves your report to `artifacts/handover.md`; do NOT edit `artifacts/handover.md` yourself.";

/// A list with one more text where the condition holds.
pub open spec fn pushed_if(list: Seq<Seq<char>>, on: bool, text: Seq<char>) -> Seq<Seq<char>> {
    if on {
        list.push(text)
    } else {
        list
    }
}

fn push_if(list: &mut Vec<String>, on: bool, text: &str)
    ensures
        views(final(list)@) == pushed_if(views(old(list)@), on, text@),
{
    if on {
        let s = text.to_owned();
        proof {
            lemma_views_push(list@, s);
        }
        list.push(s);
    }
}

/// The section on command execution.
pub open spec fn commands_section(allow: Seq<Seq<char>>) -> Seq<char> {
    COMMANDS_HEAD@ + join_of(allow, ", "@) + COMMANDS_TAIL@
}

/// The names of the enabled tools on files.
pub open spec fn file_tools(only: Seq<ToolName>) -> Seq<Seq<char>> {
    let a = pushed_if(Seq::empty(), tool_enabled(only, "read_file"@), "read_file"@);
    let b = pushed_if(a, tool_enabled(only, "str_replace_editor"@), "str_replace_editor"@);
    pushed_if(b, tool_enabled(only, "write_file"@), "write_file"@)
}

/// The guidance on replacing text; it speaks of `write_file` only where that is
/// enabled too.
pub open spec fn replace_line(only: Seq<ToolName>) -> Seq<char> {
    if tool_enabled(only, "write_file"@) {
        STR_REPLACE_HEAD@ + STR_REPLACE_CHOICE@ + STR_REPLACE_TAIL@
    } else {
        STR_REPLACE_HEAD@ + STR_REPLACE_TAIL@
    }
}

/// The guidance on the enabled tools on files.
pub open spec fn file_lines(only: Seq<ToolName>) -> Seq<Seq<char>> {
    let a = pushed_if(Seq::empty(), tool_enabled(only, "read_file"@), READ_FILE_LINE@);
    let b = pushed_if(a, tool_enabled(only, "str_replace_editor"@), replace_line(only));
    pushed_if(b, tool_enabled(only, "write_file"@), WRITE_FILE_LINE@)
}

/// The names of the enabled data tools.
pub open spec fn data_tools(only: Seq<ToolName>) -> Seq<Seq<char>> {
    let a = pushed_if(Seq::empty(), tool_enabled(only, "data_search"@), "data_search"@);
    pushed_if(a, tool_enabled(only, "data_schema"@), "data_schema"@)
}

/// The names of the enabled tools that find information.
pub open spec fn retrieval_tools(only: Seq<ToolName>) -> Seq<Seq<char>> {
    let a = pushed_if(Seq::empty(), tool_enabled(only, "list_directory"@), "list_directory"@);
    let b = pushed_if(a, tool_enabled(only, "grep_search"@), "grep_search"@);
    let c = pushed_if(b, tool_enabled(only, "fetch_web"@), "fetch_web"@);
    c + data_tools(only)
}

/// The guidance on the enabled tools that find information.
pub open spec fn retrieval_lines(only: Seq<ToolName>) -> Seq<Seq<char>> {
    let a = pushed_if(Seq::empty(), tool_enabled(only, "list_directory"@), LIST_DIRECTORY_LINE@);
    let b = pushed_if(a, tool_enabled(only, "grep_search"@), GREP_SEARCH_LINE@);
    let c = pushed_if(b, tool_enabled(only, "fetch_web"@), FETCH_WEB_LINE@);
    pushed_if(
        c,
        data_tools(only).len() > 0,
        "- "@ + join_of(data_tools(only), " / "@) + DATA_TAIL@,
    )
}

/// A section that names some tools and gives a line on each.
pub open spec fn group_section(title: Seq<char>, names: Seq<Seq<char>>, lines: Seq<Seq<char>>) -> Seq<
    char,
> {
    title + join_of(names, ", "@) + ")\n"@ + join_of(lines, "\n"@)
}

fn group_text(title: &str, names: &Vec<String>, lines: &Vec<String>) -> (r: String)
    ensures
        r@ == group_section(title@, views(names@), views(lines@)),
{
    let mut s = title.to_owned();
    let n = join(names, ", ");
    s.append(n.as_str());
    s.append(")\n");
    let l = join(lines, "\n");
    s.append(l.as_str());
    s
}

/// The sections on the enabled tools.
pub open spec fn tool_sections(only: Seq<ToolName>, allow: Seq<Seq<char>>) -> Seq<Seq<char>> {
    let a = pushed_if(
        Seq::empty(),
        tool_enabled(only, "execute_bash"@),
        commands_section(allow),
    );
    let b = pushed_if(
        a,
        file_tools(only).len() > 0,
        group_section("## 2-2. File Operations ("@, file_tools(only), file_lines(only)),
    );
    pushed_if(
        b,
        retrieval_tools(only).len() > 0,
        group_section(
            "## 2-3. Information Retrieval ("@,
            retrieval_tools(only),
            retrieval_lines(only),
        ),
    )
}

/// The sections that all system messages share. Section numbers are fixed: a
/// disabled tool only takes its own line away.
pub open spec fn base_sections(only: Seq<ToolName>, allow: Seq<Seq<char>>) -> Seq<Seq<char>> {
    let tools = tool_sections(only, allow);
    pushed_if(
        seq![WORKSPACE_SECTION@],
        tools.len() > 0,
        TOOLS_HEAD@ + join_of(tools, "\n\n"@),
    ).push(STYLE_SECTION@)
}

/// Whatever tools are enabled, the workspace section comes first and the style
/// section last.
pub proof fn sections_keep_their_place(only: Seq<ToolName>, allow: Seq<Seq<char>>)
    ensures
        base_sections(only, allow)[0] == WORKSPACE_SECTION@,
        base_sections(only, allow).last() == STYLE_SECTION@,
        2 <= base_sections(only, allow).len() <= 3,
{
}

/// A system message names enabled tools only.
pub proof fn named_tools_are_enabled(only: Seq<ToolName>, name: Seq<char>)
    requires
        file_tools(only).contains(name) || retrieval_tools(only).contains(name),
    ensures
        tool_enabled(only, name),
{
}

/// The text of a system message.
pub open spec fn system_text(sections: Seq<Seq<char>>) -> Seq<char> {
    PREAMBLE@ + join_of(sections, "\n\n"@)
}

/// A section that ends with a limit on the length of a report.
pub open spec fn limit_section(head: Seq<char>, limit: nat, tail: Seq<char>) -> Seq<char> {
    head + decimal(limit) + tail
}

fn base_system_sections(config: &Config, allow: &Vec<String>) -> (r: Vec<String>)
    ensures
        views(r@) == base_sections(config.only_tools@, views(allow@)),
{
    let ghost only = config.only_tools@;
    let mut tools: Vec<String> = Vec::new();
    proof {
        assert(views(tools@) =~= Seq::<Seq<char>>::empty());
    }
    let mut commands = String::from_str(COMMANDS_HEAD);
    let allowed = join(allow, ", ");
    commands.append(allowed.as_str());
    commands.append(COMMANDS_TAIL);
    push_if(&mut tools, config.is_tool_enabled("execute_bash"), commands.as_str());

    let mut names: Vec<String> = Vec::new();
    let mut lines: Vec<String> = Vec::new();
    proof {
        assert(views(names@) =~= Seq::<Seq<char>>::empty());
        assert(views(lines@) =~= Seq::<Seq<char>>::empty());
    }
    let on = config.is_tool_enabled("read_file");
    push_if(&mut names, on, "read_file");
    push_if(&mut lines, on, READ_FILE_LINE);
    let on = config.is_tool_enabled("str_replace_editor");
    push_if(&mut names, on, "str_replace_editor");
    let mut replace = String::from_str(STR_REPLACE_HEAD);
    if config.is_tool_enabled("write_file") {
        replace.append(STR_REPLACE_CHOICE);
    }
    replace.append(STR_REPLACE_TAIL);
    push_if(&mut lines, on, replace.as_str());
    let on = config.is_tool_enabled("write_file");
    push_if(&mut names, on, "write_file");
    push_if(&mut lines, on, WRITE_FILE_LINE);
    let files = group_text("## 2-2. File Operations (", &names, &lines);
    proof {
        assert(views(names@).len() == names@.len());
    }
    push_if(&mut tools, names.len() > 0, files.as_str());

    let mut names: Vec<String> = Vec::new();
    let mut lines: Vec<String> = Vec::new();
    proof {
        assert(views(names@) =~= Seq::<Seq<char>>::empty());
        assert(views(lines@) =~= Seq::<Seq<char>>::empty());
    }
    let on = config.is_tool_enabled("list_directory");
    push_if(&mut names, on, "list_directory");
    push_if(&mut lines, on, LIST_DIRECTORY_LINE);
    let on = config.is_tool_enabled("grep_search");
    push_if(&mut names, on, "grep_search");
    push_if(&mut lines, on, GREP_SEARCH_LINE);
    let on = config.is_tool_enabled("fetch_web");
    push_if(&mut names, on, "fetch_web");
    push_if(&mut lines, on, FETCH_WEB_LINE);
    let ghost others = views(names@);
    let mut data: Vec<String> = Vec::new();
    proof {
        assert(views(data@) =~= Seq::<Seq<char>>::empty());
    }
    let search = config.is_tool_enabled("data_search");
    let schema = config.is_tool_enabled("data_schema");
    push_if(&mut data, search, "data_search");
    push_if(&mut data, schema, "data_schema");
    push_if(&mut names, search, "data_search");
    push_if(&mut names, schema, "data_schema");
    proof {
        assert(views(names@) =~= others + data_tools(only));
    }
    let mut line = String::from_str("- ");
    let listed = join(&data, " / ");
    line.append(listed.as_str());
    line.append(DATA_TAIL);
    proof {
        assert(views(data@).len() == data@.len());
    }
    push_if(&mut lines, data.len() > 0, line.as_str());
    let retrieval = group_text("## 2-3. Information Retrieval (", &names, &lines);
    proof {
        assert(views(names@).len() == names@.len());
    }
    push_if(&mut tools, names.len() > 0, retrieval.as_str());

    let mut umbrella = String::from_str(TOOLS_HEAD);
    let inner = join(&tools, "\n\n");
    umbrella.append(inner.as_str());
    let mut sections: Vec<String> = Vec::new();
    sections.push(WORKSPACE_SECTION.to_owned());
    proof {
        assert(views(sections@) =~= seq![WORKSPACE_SECTION@]);
        assert(views(tools@).len() == tools@.len());
    }
    push_if(&mut sections, tools.len() > 0, umbrella.as_str());
    push_if(&mut sections, true, STYLE_SECTION);
    sections
}

fn build_system_message(sections: &Vec<String>) -> (r: Message)
    ensures
        r@ == plain_message("system"@, system_text(views(sections@)), r.timestamp),
{
    let mut s = String::from_str(PREAMBLE);
    let body = join(sections, "\n\n");
    s.append(body.as_str());
    Message::plain("system", s.as_str(), now_seconds())
}

/// The initial system message, with the rules of the workspace. Sections that
/// refer to disabled tools are left out. `allow` lists the command patterns
/// that may be executed.
pub fn system_message(config: &Config, allow: &Vec<String>) -> (r: Message)
    ensures
        r@ == plain_message(
            "system"@,
            system_text(base_sections(config.only_tools@, views(allow@))),
            r.timestamp,
        ),
{
    let sections = base_system_sections(config, allow);
    build_system_message(&sections)
}

fn limited_message(
    config: &Config,
    allow: &Vec<String>,
    head: &str,
    limit: usize,
    tail: &str,
) -> (r: Message)
    ensures
        r@ == plain_message(
            "system"@,
            system_text(
                base_sections(config.only_tools@, views(allow@)).push(
                    limit_section(head@, limit as nat, tail@),
                ),
            ),
            r.timestamp,
        ),
{
    let mut sections = base_system_sections(config, allow);
    let mut s = head.to_owned();
    let n = usize_text(limit);
    s.append(n.as_str());
    s.append(tail);
    push_if(&mut sections, true, s.as_str());
    build_system_message(&sections)
}

/// The system message of a task of a static plan. `limit` is the length that
/// its report may have.
pub fn system_message_mode1_task_loop(config: &Config, allow: &Vec<String>, limit: usize) -> (r:
    Message)
    ensures
        r@ == plain_message(
            "system"@,
            system_text(
                base_sections(config.only_tools@, views(allow@)).push(
                    limit_section(TASK_LOOP_HEAD@, limit as nat, TASK_LOOP_TAIL@),
                ),
            ),
            r.timestamp,
        ),
{
    limited_message(config, allow, TASK_LOOP_HEAD, limit, TASK_LOOP_TAIL)
}

/// The system message of the planner of a dynamic plan, which only updates the
/// plan. `limit` is the length that its note may have.
pub fn system_message_mode2_replan(config: &Config, allow: &Vec<String>, limit: usize) -> (r:
    Message)
    ensures
        r@ == plain_message(
            "system"@,
            system_text(
                base_sections(config.only_tools@, views(allow@)).push(
                    limit_section(REPLAN_HEAD@, limit as nat, REPLAN_TAIL@),
                ),
            ),
            r.timestamp,
        ),
{
    limited_message(config, allow, REPLAN_HEAD, limit, REPLAN_TAIL)
}

/// The system message of a task of a dynamic plan, which executes one task and
/// marks it done. `limit` is the length that its report may have.
pub fn system_message_mode2_task_loop(config: &Config, allow: &Vec<String>, limit: usize) -> (r:
    Message)
    ensures
        r@ == plain_message(
            "system"@,
            system_text(
                base_sections(config.only_tools@, views(allow@)).push(
                    limit_section(DYNAMIC_TASK_HEAD@, limit as nat, DYNAMIC_TASK_TAIL@),
                ),
            ),
            r.timestamp,
        ),
{
    limited_message(config, allow, DYNAMIC_TASK_HEAD, limit, DYNAMIC_TASK_TAIL)
}

// ---------------------------------------------------------------------------
// Startup report
// ---------------------------------------------------------------------------

/// A text with one more line: a label and a value.
pub open spec fn with_line(s: Seq<char>, label: Seq<char>, value: Seq<char>) -> Seq<char> {
    s + label + value + "\n"@
}

fn put_line(s: &mut String, label: &str, value: &str)
    ensures
        final(s)@ == with_line(old(s)@, label@, value@),
{
    s.append(label);
    s.append(value);
    s.append("\n");
}

pub open spec fn bool_text(b: bool) -> Seq<char> {
    if b {
        "true"@
    } else {
        "false"@
    }
}

fn bool_str(b: bool) -> (r: &'static str)
    ensures
        r@ == bool_text(b),
{
    if b {
        "true"
    } else {
        "false"
    }
}

/// The name of a todo execution mode.
pub open spec fn mode_name(todo_mode: u8) -> Seq<char> {
    if todo_mode == 1 {
        "Plan-Exec-Static"@
    } else if todo_mode == 2 {
        "Plan-Exec-Dynamic"@
    } else {
        "ReAct"@
    }
}

/// Whether a secret is set, without the secret.
pub open spec fn secret_state(o: Option<String>) -> Seq<char> {
    if o is Some {
        "(set)"@
    } else {
        "(none)"@
    }
}

fn secret_str(o: &Option<String>) -> (r: &'static str)
    ensures
        r@ == secret_state(*o),
{
    if o.is_some() {
        "(set)"
    } else {
        "(none)"
    }
}

/// The part of the report that every configuration has.
pub open spec fn report_base(
    config: Config,
    provider: LlmProvider,
    dir: Seq<char>,
    version: Seq<char>,
) -> Seq<char> {
    let s = "The "@ + APP_NAME@ + " v"@ + version
        + "\nCopyright (C) 2026 SrFeO3. All rights reserved.\n"@ + APP_DESCRIPTION@
        + "\n\nCONFIGURATION:\n"@;
    let s = with_line(s, "  mode               : "@, mode_name(config.todo_mode));
    let s = with_line(
        s,
        "  run                : "@,
        if config.query is Some || config.todo_mode > 0 {
            "batch"@
        } else {
            "interactive"@
        },
    );
    let s = with_line(s, "  working-dir        : "@, dir);
    let s = with_line(s, "  unsafe-reflex      : "@, bool_text(config.unsafe_reflex));
    let s = with_line(s, "  llm-url            : "@, config.llm_url@);
    let s = with_line(s, "  llm-provider       : "@, provider_name(provider));
    let s = with_line(s, "  llm-model          : "@, config.llm_model@);
    let s = with_line(s, "  llm-api-key        : "@, secret_state(config.llm_api_key));
    let s = with_line(s, "  tool-result-format : "@, format_name(config.tool_result_format));
    let s = with_line(s, "  llm-rpm            : "@, decimal(config.llm_rpm as nat));
    let s = with_line(s, "  verbose-level      : "@, decimal(config.verbose_level as nat));
    let s = with_line(s, "  pretty-level       : "@, decimal(config.pretty_level as nat));
    let s = with_line(s, "  max-output-tokens  : "@, decimal(config.max_output_tokens as nat));
    let s = with_line(
        s,
        "  max-reasoning-empty-responses: "@,
        decimal(config.max_reasoning_empty_responses as nat),
    );
    let s = with_line(s, "  max-reasoning-turns: "@, decimal(config.max_reasoning_turns as nat));
    let s = with_line(s, "  max-replan-attempts: "@, decimal(config.max_replan_attempts as nat));
    let s = with_line(s, "  max-tool-output-bytes: "@, decimal(config.max_tool_output_bytes as nat));
    let s = with_line(s, "  tool-timeout-secs   : "@, decimal(config.tool_timeout_secs as nat));
    with_line(s, "  session-label      : "@, config.session_label@)
}

/// The names of a list of tools.
pub open spec fn tool_texts(tools: Seq<ToolName>) -> Seq<Seq<char>> {
    tools.map_values(|t: ToolName| tool_text(t))
}

/// Whether one of the listed tools is a data tool.
pub open spec fn lists_data_tool(tools: Seq<ToolName>) -> bool {
    exists|i: int| 0 <= i < tools.len() && is_data_tool(#[trigger] tools[i])
}

pub open spec fn is_data_tool(t: ToolName) -> bool {
    t == ToolName::DataSearch || t == ToolName::DataSchema
}

pub const DATA_TOOL_WARNING: &'static str = "[Warning] data_search/data_schema require --db-type; they stay disabled without it.";

/// The report with the enabled tools.
pub open spec fn report_tools(s: Seq<char>, config: Config) -> Seq<char> {
    let only = config.only_tools@;
    if only.len() == 0 {
        with_line(s, "  only-tools         : all (default)"@, ""@)
    } else {
        let t = with_line(s, "  only-tools         : "@, join_of(tool_texts(only), ", "@));
        if lists_data_tool(only) && config.db_type is None {
            with_line(t, C_YELLOW@ + DATA_TOOL_WARNING@, RESET@)
        } else {
            t
        }
    }
}

pub const DB_URL_REQUIRED: &'static str = "[DB_CONFIG_ERROR] --db-url is required when --db-type is set. Provide the database HTTP endpoint URL.";

pub open spec fn known_db_type(t: Seq<char>) -> bool {
    t == "greptimedb"@ || t == "clickhouse"@ || t == "influxdb"@
}

pub open spec fn basic_auth_type(t: Seq<char>) -> bool {
    t == "greptimedb"@ || t == "clickhouse"@
}

/// Why the database configuration is refused.
pub open spec fn db_error(config: Config) -> Option<Seq<char>> {
    match config.db_type {
        None => None,
        Some(t) => if config.db_url is None {
            Some(DB_URL_REQUIRED@)
        } else if !known_db_type(t@) {
            Some(
                "[DB_UNKNOWN_TYPE] Unsupported database type '"@ + t@
                    + "'. Supported types: greptimedb, clickhouse, influxdb."@,
            )
        } else {
            None
        },
    }
}

/// The report with the database, where one is configured and accepted.
pub open spec fn report_db(s: Seq<char>, config: Config) -> Seq<char> {
    match (config.db_type, config.db_url) {
        (Some(t), Some(url)) => if !known_db_type(t@) {
            s
        } else {
            let warn = basic_auth_type(t@) && config.db_auth_key is Some
                && !config.db_auth_key->0@.contains(':');
            let a = if warn {
                with_line(
                    s,
                    C_YELLOW@ + "[Warning] --db-auth-key for "@ + t@
                        + " should be in 'user:password' format (Basic auth)."@,
                    RESET@,
                )
            } else {
                s
            };
            let a = with_line(a, "  db-type            : "@, t@);
            let a = with_line(a, "  db-url             : "@, url@);
            let a = with_line(a, "  db-auth-key        : "@, secret_state(config.db_auth_key));
            let a = with_line(a, "  db-timeout         : "@, decimal(config.db_timeout as nat) + "s"@);
            let a = with_line(a, "  db-max-bytes       : "@, decimal(config.db_max_bytes as nat));
            with_line(a, "  db-unsafe-reflex   : "@, bool_text(config.db_unsafe_reflex))
        },
        _ => s,
    }
}

/// What is printed at startup, and the error that then stops it, if any.
#[derive(Debug, PartialEq, Eq)]
pub struct StartupReport {
    pub text: String,
    pub error: Option<String>,
}

fn report_base_text(config: &Config, provider: &LlmProvider, dir: &str, version: &str) -> (r: String)
    ensures
        r@ == report_base(*config, *provider, dir@, version@),
{
    let mut s = String::from_str("The ");
    s.append(APP_NAME);
    s.append(" v");
    s.append(version);
    s.append("\nCopyright (C) 2026 SrFeO3. All rights reserved.\n");
    s.append(APP_DESCRIPTION);
    s.append("\n\nCONFIGURATION:\n");
    put_line(
        &mut s,
        "  mode               : ",
        if config.todo_mode == 1 {
            "Plan-Exec-Static"
        } else if config.todo_mode == 2 {
            "Plan-Exec-Dynamic"
        } else {
            "ReAct"
        },
    );
    put_line(
        &mut s,
        "  run                : ",
        if config.query.is_some() || config.todo_mode > 0 {
            "batch"
        } else {
            "interactive"
        },
    );
    put_line(&mut s, "  working-dir        : ", dir);
    put_line(&mut s, "  unsafe-reflex      : ", bool_str(config.unsafe_reflex));
    put_line(&mut s, "  llm-url            : ", config.llm_url.as_str());
    put_line(&mut s, "  llm-provider       : ", provider.name());
    put_line(&mut s, "  llm-model          : ", config.llm_model.as_str());
    put_line(&mut s, "  llm-api-key        : ", secret_str(&config.llm_api_key));
    put_line(&mut s, "  tool-result-format : ", config.tool_result_format.name());
    put_line(&mut s, "  llm-rpm            : ", u64_text(config.llm_rpm as u64).as_str());
    put_line(&mut s, "  verbose-level      : ", u64_text(config.verbose_level as u64).as_str());
    put_line(&mut s, "  pretty-level       : ", u64_text(config.pretty_level as u64).as_str());
    put_line(&mut s, "  max-output-tokens  : ", u64_text(config.max_output_tokens as u64).as_str());
    put_line(
        &mut s,
        "  max-reasoning-empty-responses: ",
        u64_text(config.max_reasoning_empty_responses as u64).as_str(),
    );
    put_line(
        &mut s,
        "  max-reasoning-turns: ",
        u64_text(config.max_reasoning_turns as u64).as_str(),
    );
    put_line(
        &mut s,
        "  max-replan-attempts: ",
        u64_text(config.max_replan_attempts as u64).as_str(),
    );
    put_line(
        &mut s,
        "  max-tool-output-bytes: ",
        usize_text(config.max_tool_output_bytes).as_str(),
    );
    put_line(&mut s, "  tool-timeout-secs   : ", u64_text(config.tool_timeout_secs).as_str());
    put_line(&mut s, "  session-label      : ", config.session_label.as_str());
    s
}

fn report_tools_text(s: &mut String, config: &Config)
    ensures
        final(s)@ == report_tools(old(s)@, *config),
{
    let ghost only = config.only_tools@;
    if config.only_tools.len() == 0 {
        put_line(s, "  only-tools         : all (default)", "");
        return;
    }
    let mut names: Vec<String> = Vec::new();
    let mut data = false;
    let mut i: usize = 0;
    while i < config.only_tools.len()
        invariant
            i <= config.only_tools@.len(),
            names@.len() == i,
            only == config.only_tools@,
            forall|k: int| 0 <= k < i ==> #[trigger] names@[k]@ == tool_text(only[k]),
            data == exists|k: int| 0 <= k < i && is_data_tool(#[trigger] only[k]),
        decreases config.only_tools@.len() - i,
    {
        let t = config.only_tools[i];
        names.push(t.as_str().to_owned());
        if t == ToolName::DataSearch || t == ToolName::DataSchema {
            proof {
                assert(is_data_tool(only[i as int]));
            }
            data = true;
        }
        i = i + 1;
    }
    proof {
        assert(views(names@) =~= tool_texts(only));
    }
    let list = join(&names, ", ");
    put_line(s, "  only-tools         : ", list.as_str());
    if data && config.db_type.is_none() {
        let mut w = String::from_str(C_YELLOW);
        w.append(DATA_TOOL_WARNING);
        put_line(s, w.as_str(), RESET);
    }
}

fn report_db_text(s: &mut String, config: &Config) -> (r: Option<String>)
    ensures
        final(s)@ == report_db(old(s)@, *config),
        match r {
            Some(e) => db_error(*config) == Some(e@),
            None => db_error(*config) is None,
        },
{
    match &config.db_type {
        None => None,
        Some(t) => match &config.db_url {
            None => Some(DB_URL_REQUIRED.to_owned()),
            Some(url) => {
                let t = t.as_str();
                let basic = str_eq(t, "greptimedb") || str_eq(t, "clickhouse");
                if !basic && !str_eq(t, "influxdb") {
                    let mut e = String::from_str("[DB_UNKNOWN_TYPE] Unsupported database type '");
                    e.append(t);
                    e.append("'. Supported types: greptimedb, clickhouse, influxdb.");
                    return Some(e);
                }
                let warn = match &config.db_auth_key {
                    Some(k) => basic && !contains_char(k.as_str(), ':'),
                    None => false,
                };
                if warn {
                    let mut w = String::from_str(C_YELLOW);
                    w.append("[Warning] --db-auth-key for ");
                    w.append(t);
                    w.append(" should be in 'user:password' format (Basic auth).");
                    put_line(s, w.as_str(), RESET);
                }
                put_line(s, "  db-type            : ", t);
                put_line(s, "  db-url             : ", url.as_str());
                put_line(s, "  db-auth-key        : ", secret_str(&config.db_auth_key));
                let mut timeout = u64_text(config.db_timeout);
                timeout.append("s");
                put_line(s, "  db-timeout         : ", timeout.as_str());
                put_line(s, "  db-max-bytes       : ", usize_text(config.db_max_bytes).as_str());
                put_line(s, "  db-unsafe-reflex   : ", bool_str(config.db_unsafe_reflex));
                None
            },
        },
    }
}

/// The banner and the configuration summary of a run in the directory `dir`,
/// and the error that stops a run whose database configuration is refused.
pub fn print_startup_info(config: &Config, provider: &LlmProvider, dir: &str, version: &str) -> (r:
    StartupReport)
    ensures
        r.text@ == report_db(
            report_tools(report_base(*config, *provider, dir@, version@), *config),
            *config,
        ),
        match r.error {
            Some(e) => db_error(*config) == Some(e@),
            None => db_error(*config) is None,
        },
{
    let mut s = report_base_text(config, provider, dir, version);
    report_tools_text(&mut s, config);
    let error = report_db_text(&mut s, config);
    StartupReport { text: s, error }
}

} // verus!
