//! Laws of the start: which tools a model is told of, and what the plain forms of
//! attachments and pages come to.

use vstd::prelude::*;
use vstd::string::*;

use crate::attach::{attached_files, AttachMode, TextRead};
use crate::attached_file::{attached_paths, first_failure, missing, oversized};
use crate::nontext::{sheets_text, PageText};
use crate::startup::{
    base_sections, commands_section, data_tools, file_tools, retrieval_tools, tool_enabled,
    tool_sections, tool_text, ToolName,
};
use crate::text::{decimal, join_of};
use crate::text_laws::{lemma_run_push, run_together};

verus! {

// ---------------------------------------------------------------------------
// Tools
// ---------------------------------------------------------------------------

/// No two tools share a name.
pub proof fn tools_have_their_own_names(a: ToolName, b: ToolName)
    ensures
        tool_text(a) == tool_text(b) <==> a == b,
{
    reveal_strlit("read_file");
    reveal_strlit("write_file");
    reveal_strlit("str_replace_editor");
    reveal_strlit("grep_search");
    reveal_strlit("list_directory");
    reveal_strlit("execute_bash");
    reveal_strlit("fetch_web");
    reveal_strlit("data_search");
    reveal_strlit("data_schema");
    reveal_strlit("calc");
    assert("read_file"@.len() == 9 && "read_file"@[0] == 'r');
    assert("write_file"@.len() == 10);
    assert("str_replace_editor"@.len() == 18);
    assert("grep_search"@.len() == 11 && "grep_search"@[0] == 'g');
    assert("list_directory"@.len() == 14);
    assert("execute_bash"@.len() == 12);
    assert("fetch_web"@.len() == 9 && "fetch_web"@[0] == 'f');
    assert("data_search"@.len() == 11 && "data_search"@[0] == 'd' && "data_search"@[6] == 'e');
    assert("data_schema"@.len() == 11 && "data_schema"@[0] == 'd' && "data_schema"@[6] == 'c');
    assert("calc"@.len() == 4);
}

/// A list of tools enables just the tools in it, and an empty list all of them.
pub proof fn lists_enable_their_tools(only: Seq<ToolName>, t: ToolName)
    ensures
        tool_enabled(only, tool_text(t)) <==> only.len() == 0 || only.contains(t),
{
    assert forall|x: ToolName| #[trigger] tool_text(x) == tool_text(t) implies x == t by {
        tools_have_their_own_names(x, t);
    }
    if only.contains(t) {
        let i = choose|i: int| 0 <= i < only.len() && only[i] == t;
        assert(tool_text(only[i]) == tool_text(t));
    }
}

/// A model is told of every enabled tool that works on files or finds information.
pub proof fn enabled_tools_are_named(only: Seq<ToolName>)
    ensures
        tool_enabled(only, "read_file"@) ==> file_tools(only).contains("read_file"@),
        tool_enabled(only, "write_file"@) ==> file_tools(only).contains("write_file"@),
        tool_enabled(only, "str_replace_editor"@) ==> file_tools(only).contains(
            "str_replace_editor"@,
        ),
        tool_enabled(only, "list_directory"@) ==> retrieval_tools(only).contains(
            "list_directory"@,
        ),
        tool_enabled(only, "grep_search"@) ==> retrieval_tools(only).contains("grep_search"@),
        tool_enabled(only, "fetch_web"@) ==> retrieval_tools(only).contains("fetch_web"@),
        tool_enabled(only, "data_search"@) ==> retrieval_tools(only).contains("data_search"@),
        tool_enabled(only, "data_schema"@) ==> retrieval_tools(only).contains("data_schema"@),
{
    let f = file_tools(only);
    let none = Seq::<Seq<char>>::empty();
    let a = crate::startup::pushed_if(none, tool_enabled(only, "read_file"@), "read_file"@);
    let b = crate::startup::pushed_if(
        a,
        tool_enabled(only, "str_replace_editor"@),
        "str_replace_editor"@,
    );
    if tool_enabled(only, "read_file"@) {
        assert(f[0] == "read_file"@);
    }
    if tool_enabled(only, "str_replace_editor"@) {
        assert(f[a.len() as int] == "str_replace_editor"@);
    }
    if tool_enabled(only, "write_file"@) {
        assert(f[b.len() as int] == "write_file"@);
    }
    let r = retrieval_tools(only);
    let p = crate::startup::pushed_if(none, tool_enabled(only, "list_directory"@), "list_directory"@);
    let q = crate::startup::pushed_if(p, tool_enabled(only, "grep_search"@), "grep_search"@);
    let s = crate::startup::pushed_if(q, tool_enabled(only, "fetch_web"@), "fetch_web"@);
    let d = crate::startup::pushed_if(none, tool_enabled(only, "data_search"@), "data_search"@);
    assert(r == s + data_tools(only));
    if tool_enabled(only, "list_directory"@) {
        assert(r[0] == "list_directory"@);
    }
    if tool_enabled(only, "grep_search"@) {
        assert(r[p.len() as int] == "grep_search"@);
    }
    if tool_enabled(only, "fetch_web"@) {
        assert(r[q.len() as int] == "fetch_web"@);
    }
    if tool_enabled(only, "data_search"@) {
        assert(r[s.len() as int] == "data_search"@);
    }
    if tool_enabled(only, "data_schema"@) {
        assert(r[(s.len() + d.len()) as int] == "data_schema"@);
    }
}

/// Commands have their section exactly where they are enabled, and it names every
/// command that is allowed.
pub proof fn commands_have_their_section(only: Seq<ToolName>, allow: Seq<Seq<char>>)
    ensures
        tool_enabled(only, "execute_bash"@) ==> tool_sections(only, allow).len() > 0
            && tool_sections(only, allow)[0] == commands_section(allow),
        commands_section(allow) == crate::startup::COMMANDS_HEAD@ + join_of(allow, ", "@)
            + crate::startup::COMMANDS_TAIL@,
        tool_sections(only, allow).len() == (if tool_enabled(only, "execute_bash"@) {
            1int
        } else {
            0
        }) + (if file_tools(only).len() > 0 {
            1int
        } else {
            0
        }) + (if retrieval_tools(only).len() > 0 {
            1int
        } else {
            0
        }),
        base_sections(only, allow).len() == if tool_sections(only, allow).len() > 0 {
            3int
        } else {
            2int
        },
{
}

// ---------------------------------------------------------------------------
// Plain forms
// ---------------------------------------------------------------------------

/// The plain form of the list of files names the same files and asks the same as the
/// full one.
pub proof fn plain_references_agree(input: Seq<char>)
    requires
        attached_files(input).2 == AttachMode::Raw,
    ensures
        attached_paths(input).0 == attached_files(input).0,
        attached_paths(input).1.len() == attached_files(input).1.len(),
        forall|i: int|
            0 <= i < attached_paths(input).1.len() ==> #[trigger] attached_paths(input).1[i]
                == attached_files(input).1[i].path,
{
}

/// The missing files are just those that do not exist.
pub proof fn missing_files_do_not_exist(
    paths: Seq<Seq<char>>,
    found: Seq<bool>,
    n: int,
    p: Seq<char>,
)
    requires
        0 <= n <= paths.len(),
    ensures
        missing(paths, found, n).contains(p) <==> exists|i: int|
            0 <= i < n && #[trigger] paths[i] == p && !found[i],
    decreases n,
{
    if n > 0 {
        missing_files_do_not_exist(paths, found, n - 1, p);
        let before = missing(paths, found, n - 1);
        let out = missing(paths, found, n);
        if !found[n - 1] {
            assert(out[out.len() - 1] == paths[n - 1]);
            if before.contains(p) {
                let k = choose|k: int| 0 <= k < before.len() && before[k] == p;
                assert(out[k] == p);
            }
            if out.contains(p) {
                let k = choose|k: int| 0 <= k < out.len() && out[k] == p;
                if k < before.len() {
                    assert(before[k] == p);
                }
            }
        }
    }
}

/// The files to ask about are just those over the limit, each with its size.
pub proof fn large_files_are_over_the_limit(
    paths: Seq<Seq<char>>,
    sizes: Seq<Option<u64>>,
    max: u64,
    n: int,
    f: (Seq<char>, u64),
)
    requires
        0 <= n <= paths.len(),
    ensures
        oversized(paths, sizes, max, n).contains(f) <==> exists|i: int|
            0 <= i < n && #[trigger] paths[i] == f.0 && sizes[i] == Some(f.1) && f.1 > max,
    decreases n,
{
    if n > 0 {
        large_files_are_over_the_limit(paths, sizes, max, n - 1, f);
        let before = oversized(paths, sizes, max, n - 1);
        let out = oversized(paths, sizes, max, n);
        if sizes[n - 1] is Some && sizes[n - 1]->0 > max {
            assert(out[out.len() - 1] == (paths[n - 1], sizes[n - 1]->0));
            if before.contains(f) {
                let k = choose|k: int| 0 <= k < before.len() && before[k] == f;
                assert(out[k] == f);
            }
            if out.contains(f) {
                let k = choose|k: int| 0 <= k < out.len() && out[k] == f;
                if k < before.len() {
                    assert(before[k] == f);
                } else {
                    assert(paths[n - 1] == f.0);
                }
            }
        }
    }
}

/// The first failure is the first file that could not be read.
pub proof fn the_first_failure_is_found(texts: Seq<TextRead>, i: int)
    requires
        0 <= i <= texts.len(),
    ensures
        i <= first_failure(texts, i) <= texts.len(),
        forall|k: int| i <= k < first_failure(texts, i) ==> (#[trigger] texts[k]) is Ok,
        first_failure(texts, i) < texts.len() ==> texts[first_failure(texts, i)] is Err,
    decreases texts.len() - i,
{
    if i < texts.len() && texts[i] is Ok {
        the_first_failure_is_found(texts, i + 1);
    }
}

/// The sheet of a page in the plain form.
pub open spec fn plain_sheet(i: int, page: PageText) -> Seq<char> {
    (if i > 0 {
        "\n"@
    } else {
        Seq::empty()
    }) + "--- Page "@ + decimal((i + 1) as nat) + " ---\n"@ + match page {
        Err(e) => "[Text extraction error: "@ + e@ + "]\n"@,
        Ok(t) => if t@.len() == 0 || "\n"@.is_suffix_of(t@) {
            t@
        } else {
            t@ + "\n"@
        },
    }
}

/// The plain text of a document has every page, in order, each under its number.
pub proof fn plain_documents_hold_every_page(pages: Seq<PageText>, n: int)
    requires
        0 <= n <= pages.len(),
    ensures
        sheets_text(pages, n) == run_together(
            Seq::new(n as nat, |i: int| plain_sheet(i, pages[i])),
        ),
    decreases n,
{
    let f = |i: int| plain_sheet(i, pages[i]);
    if n > 0 {
        plain_documents_hold_every_page(pages, n - 1);
        let before = Seq::new((n - 1) as nat, f);
        assert(Seq::new(n as nat, f) =~= before.push(f(n - 1)));
        lemma_run_push(before, f(n - 1));
        assert(sheets_text(pages, n) =~= sheets_text(pages, n - 1) + plain_sheet(
            n - 1,
            pages[n - 1],
        ));
    } else {
        assert(Seq::new(0, f) =~= Seq::<Seq<char>>::empty());
    }
}

} // verus!
