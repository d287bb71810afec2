//! Laws of tool results as text: what a model reads of a result is all of it.

use vstd::prelude::*;
use vstd::string::*;

use crate::compat_provider::{
    command_text, entry_lines, is_truncated, match_lines, search_text, tool_result_text,
};
use crate::json_model::{group_json, JsonView};
use crate::text::{decimal, trimmed_end};
use crate::text_laws::{lemma_run_push, run_together};

verus! {

broadcast use group_json;

proof fn lemma_tools()
    ensures
        "read_file"@ != "execute_bash"@,
        "fetch_web"@ != "execute_bash"@,
        "read_file"@ != "write_file"@,
        "fetch_web"@ != "read_file"@,
        "write_file"@ != "fetch_web"@,
        "write_file"@ != "execute_bash"@,
        "grep_search"@ != "read_file"@,
        "grep_search"@ != "fetch_web"@,
        "grep_search"@ != "execute_bash"@,
        "grep_search"@ != "write_file"@,
        "grep_search"@ != "str_replace_editor"@,
        "list_directory"@ != "read_file"@,
        "list_directory"@ != "fetch_web"@,
        "list_directory"@ != "execute_bash"@,
        "list_directory"@ != "write_file"@,
        "list_directory"@ != "str_replace_editor"@,
        "list_directory"@ != "grep_search"@,
        "str_replace_editor"@ != "read_file"@,
        "str_replace_editor"@ != "fetch_web"@,
        "str_replace_editor"@ != "execute_bash"@,
        "str_replace_editor"@ != "write_file"@,
{
    reveal_strlit("read_file");
    reveal_strlit("fetch_web");
    reveal_strlit("execute_bash");
    reveal_strlit("write_file");
    reveal_strlit("grep_search");
    reveal_strlit("list_directory");
    reveal_strlit("str_replace_editor");
    assert("read_file"@.len() == 9 && "fetch_web"@.len() == 9);
    assert("read_file"@[0] == 'r' && "fetch_web"@[0] == 'f');
    assert("execute_bash"@.len() == 12 && "write_file"@.len() == 10);
    assert("grep_search"@.len() == 11 && "list_directory"@.len() == 14);
    assert("str_replace_editor"@.len() == 18);
}

/// A file or page that was read is given whole.
pub proof fn contents_are_given_whole(result: JsonView)
    ensures
        tool_result_text(result, "read_file"@) == result.str_at("content"@),
        tool_result_text(result, "fetch_web"@) == result.str_at("content"@),
{
}

/// Of a command its output is given, and what it said of an error where it failed.
pub proof fn commands_give_their_output(result: JsonView)
    requires
        result.str_at("stdout"@) is Some,
        result.str_at("stderr"@) is Some,
    ensures
        ({
            let text = tool_result_text(result, "execute_bash"@);
            let failed = result.i64_at("exit_code"@) is Some && result.i64_at("exit_code"@)->0 != 0;
            &&& text is Some
            &&& !failed ==> text->0 == result.str_at("stdout"@)->0
            &&& failed ==> result.str_at("stdout"@)->0.is_prefix_of(text->0) && result.str_at(
                "stderr"@,
            )->0.is_suffix_of(text->0)
        }),
{
    lemma_tools();
    let out = result.str_at("stdout"@)->0;
    let err = result.str_at("stderr"@)->0;
    let text = command_text(result);
    assert(text.subrange(0, out.len() as int) =~= out);
    if result.i64_at("exit_code"@) is Some && result.i64_at("exit_code"@)->0 != 0 {
        assert(text.subrange(text.len() - err.len(), text.len() as int) =~= err);
    }
}

/// A written file is told by its size and path.
pub proof fn written_files_are_told(result: JsonView, path: Seq<char>, n: u64)
    requires
        result.str_at("path"@) == Some(path),
        result.get("bytes_written"@) == Some(JsonView::Int(n as int)),
    ensures
        tool_result_text(result, "write_file"@) == Some(
            "Written "@ + decimal(n as nat) + " bytes to "@ + path,
        ),
{
    lemma_tools();
}

/// One match of a search, as a line.
pub open spec fn match_line(path: Seq<char>, line: nat, text: Seq<char>) -> Seq<char> {
    path + ":"@ + decimal(line) + ":"@ + text + "\n"@
}

/// Every match of a search has its line, with its path, its line number and its text, in
/// order, and their number is told.
pub proof fn every_match_is_given(
    result: JsonView,
    paths: Seq<Seq<char>>,
    numbers: Seq<u64>,
    texts: Seq<Seq<char>>,
)
    requires
        result.array_at("matches"@) is Some,
        ({
            let m = result.array_at("matches"@)->0;
            &&& m.len() > 0
            &&& paths.len() == m.len() && numbers.len() == m.len() && texts.len() == m.len()
            &&& forall|i: int|
                0 <= i < m.len() ==> (#[trigger] m[i]).str_at("path"@) == Some(paths[i])
                    && m[i].get("line"@) == Some(JsonView::Int(numbers[i] as int)) && m[i].str_at(
                    "text"@,
                ) == Some(texts[i])
        }),
    ensures
        ({
            let lines = Seq::new(
                paths.len(),
                |i: int| match_line(paths[i], numbers[i] as nat, texts[i]),
            );
            let text = tool_result_text(result, "grep_search"@);
            &&& text is Some
            &&& run_together(lines).is_prefix_of(text->0)
            &&& !is_truncated(result) ==> text->0 == run_together(lines) + "\u{2192} "@ + decimal(
                paths.len(),
            ) + " matches"@
        }),
{
    lemma_tools();
    let m = result.array_at("matches"@)->0;
    lemma_match_lines(m, paths, numbers, texts, m.len() as int);
    let lines = Seq::new(
        paths.len(),
        |i: int| match_line(paths[i], numbers[i] as nat, texts[i]),
    );
    assert(lines.take(m.len() as int) =~= lines);
    let text = search_text(result)->0;
    let head = run_together(lines);
    assert(text.subrange(0, head.len() as int) =~= head);
}

proof fn lemma_match_lines(
    m: Seq<JsonView>,
    paths: Seq<Seq<char>>,
    numbers: Seq<u64>,
    texts: Seq<Seq<char>>,
    n: int,
)
    requires
        0 <= n <= m.len(),
        paths.len() == m.len() && numbers.len() == m.len() && texts.len() == m.len(),
        forall|i: int|
            0 <= i < m.len() ==> (#[trigger] m[i]).str_at("path"@) == Some(paths[i]) && m[i].get(
                "line"@,
            ) == Some(JsonView::Int(numbers[i] as int)) && m[i].str_at("text"@) == Some(texts[i]),
    ensures
        match_lines(m, n) == run_together(
            Seq::new(
                paths.len(),
                |i: int| match_line(paths[i], numbers[i] as nat, texts[i]),
            ).take(n),
        ),
    decreases n,
{
    let lines = Seq::new(
        paths.len(),
        |i: int| match_line(paths[i], numbers[i] as nat, texts[i]),
    );
    if n > 0 {
        lemma_match_lines(m, paths, numbers, texts, n - 1);
        assert(m[n - 1].str_at("path"@) == Some(paths[n - 1]));
        assert(lines.take(n) =~= lines.take(n - 1).push(lines[n - 1]));
        lemma_run_push(lines.take(n - 1), lines[n - 1]);
        assert(match_lines(m, n) =~= match_lines(m, n - 1) + lines[n - 1]);
    } else {
        assert(lines.take(0) =~= Seq::<Seq<char>>::empty());
    }
}

/// A search without a match says so.
pub proof fn empty_searches_say_so(result: JsonView)
    requires
        result.array_at("matches"@) is Some,
        result.array_at("matches"@)->0.len() == 0,
        !is_truncated(result),
    ensures
        tool_result_text(result, "grep_search"@) == Some("No matches found."@),
{
    lemma_tools();
}

/// One entry of a directory, as a line.
pub open spec fn entry_line(name: Seq<char>, kind: Seq<char>, size: nat) -> Seq<char> {
    name + "\t"@ + kind + "\t"@ + decimal(size) + " bytes\n"@
}

/// Every entry of a directory has its line, with its name, its kind and its size, in
/// order.
pub proof fn every_entry_is_given(
    entries: Seq<JsonView>,
    names: Seq<Seq<char>>,
    kinds: Seq<Seq<char>>,
    sizes: Seq<u64>,
    n: int,
)
    requires
        0 <= n <= entries.len(),
        names.len() == entries.len() && kinds.len() == entries.len() && sizes.len()
            == entries.len(),
        forall|i: int|
            0 <= i < entries.len() ==> (#[trigger] entries[i]).str_at("name"@) == Some(names[i])
                && entries[i].str_at("type"@) == Some(kinds[i]) && entries[i].get("size"@) == Some(
                JsonView::Int(sizes[i] as int),
            ),
    ensures
        entry_lines(entries, n) == run_together(
            Seq::new(
                names.len(),
                |i: int| entry_line(names[i], kinds[i], sizes[i] as nat),
            ).take(n),
        ),
    decreases n,
{
    let lines = Seq::new(names.len(), |i: int| entry_line(names[i], kinds[i], sizes[i] as nat));
    if n > 0 {
        every_entry_is_given(entries, names, kinds, sizes, n - 1);
        assert(entries[n - 1].str_at("name"@) == Some(names[n - 1]));
        assert(lines.take(n) =~= lines.take(n - 1).push(lines[n - 1]));
        lemma_run_push(lines.take(n - 1), lines[n - 1]);
        assert(entry_lines(entries, n) =~= entry_lines(entries, n - 1) + lines[n - 1]);
    } else {
        assert(lines.take(0) =~= Seq::<Seq<char>>::empty());
    }
}

/// A directory is given by all its entries, without the line feed at the end; an empty
/// one says so.
pub proof fn directories_give_their_entries(result: JsonView)
    requires
        result.array_at("entries"@) is Some,
    ensures
        ({
            let entries = result.array_at("entries"@)->0;
            tool_result_text(result, "list_directory"@) == Some(
                if entries.len() == 0 {
                    "(empty directory)"@
                } else {
                    trimmed_end(entry_lines(entries, entries.len() as int))
                },
            )
        }),
{
    lemma_tools();
}

/// A replacement is told by the number of places and the path.
pub proof fn replacements_are_told(
    result: JsonView,
    path: Seq<char>,
    kind: Seq<char>,
    n: u64,
)
    requires
        result.str_at("path"@) == Some(path),
        result.str_at("match_type"@) == Some(kind),
        result.get("occurrences_replaced"@) == Some(JsonView::Int(n as int)),
        result.get("fuzzy_match_detail"@) is None,
    ensures
        tool_result_text(result, "str_replace_editor"@) == Some(
            "Replaced "@ + decimal(n as nat) + " occurrence(s) in "@ + path + " ("@ + kind + ")"@,
        ),
{
    lemma_tools();
}

} // verus!
