//! Laws of what passes without the user: no more than plain reading below the working
//! directory, and no less.

use vstd::prelude::*;
use vstd::string::*;

use crate::json_model::JsonView;
use crate::reflex::reflex_reason;
use crate::reflex_literal::{
    after_any, after_either, around_either, before_any, counted_path, exact_command, filters, plain_path, plain_query, readers, redirects,
    head_tail_path, read_path, safe_subpath, shallow_command, without_filters, without_redirect,
};
use crate::text::{
    after_prefix, before_suffix, first_from, is_space, last_upto, lemma_first_from,
    lemma_last_upto, lemma_space_end, lemma_text_end, occurs_at, space_end, split_first,
    split_last, text_contains, text_end, trimmed, trimmed_end, trimmed_start,
};

verus! {

/// A letter or digit of ASCII, or one of `_`, `-`, `/` and `.`.
pub open spec fn is_plain(c: char) -> bool {
    ||| 'a' <= c <= 'z'
    ||| 'A' <= c <= 'Z'
    ||| '0' <= c <= '9'
    ||| c == '_' || c == '-' || c == '/' || c == '.'
}

/// A path below the working directory, as it is commonly written.
pub open spec fn is_path_below(p: Seq<char>) -> bool {
    &&& p.len() > 0
    &&& p[0] != '/'
    &&& p.last() != '/'
    &&& forall|k: int| 0 <= k < p.len() ==> is_plain(#[trigger] p[k])
    &&& forall|k: int| 0 <= k < p.len() - 1 ==> !(#[trigger] p[k] == '/' && p[k + 1] == '/')
    &&& forall|k: int| 0 <= k < p.len() - 1 ==> !(#[trigger] p[k] == '.' && p[k + 1] == '.')
}

proof fn lemma_no_pair(p: Seq<char>, c: char, pair: Seq<char>)
    requires
        pair == seq![c, c],
        forall|k: int| 0 <= k < p.len() - 1 ==> !(#[trigger] p[k] == c && p[k + 1] == c),
    ensures
        !text_contains(p, pair),
{
    if text_contains(p, pair) {
        let k = choose|k: int| occurs_at(p, pair, k);
        assert(p.subrange(k, k + 2)[0] == p[k]);
        assert(p.subrange(k, k + 2)[1] == p[k + 1]);
        assert(pair[0] == c && pair[1] == c);
    }
}

proof fn lemma_below_is_plain(p: Seq<char>)
    requires
        is_path_below(p),
    ensures
        plain_path(p),
{
    reveal_strlit("//");
    reveal_strlit("..");
    assert("//"@ =~= seq!['/', '/']);
    assert(".."@ =~= seq!['.', '.']);
    lemma_no_pair(p, '/', "//"@);
    lemma_no_pair(p, '.', ".."@);
    assert forall|k: int| 0 <= k < p.len() implies crate::reflex_literal::is_path_char(
        #[trigger] p[k],
    ) by {
        assert(is_plain(p[k]));
    }
}

/// A path below the working directory passes, whether it begins with `./` or not.
pub proof fn paths_below_pass(p: Seq<char>)
    requires
        is_path_below(p),
    ensures
        safe_subpath(p),
        safe_subpath("./"@ + p),
{
    reveal_strlit("./");
    lemma_below_is_plain(p);
    let q = "./"@ + p;
    assert(q.subrange(0, 2) =~= "./"@);
    assert(q.skip(2) =~= p);
    if "./"@.is_prefix_of(p) {
        let s = p.skip(2);
        assert(p.subrange(0, 2) == "./"@);
        assert(p.subrange(0, 2)[0] == p[0] && p.subrange(0, 2)[1] == p[1]);
        assert("./"@[1] == '/');
        assert(p.len() > 2);
        assert(s[0] == p[2]);
        assert(p[1] == '/');
        assert(is_path_below(s)) by {
            assert(s.last() == p.last());
            assert forall|k: int| 0 <= k < s.len() implies is_plain(#[trigger] s[k]) by {
                assert(s[k] == p[k + 2]);
            }
            assert forall|k: int| 0 <= k < s.len() - 1 implies !(#[trigger] s[k] == '/' && s[k + 1]
                == '/') by {
                assert(s[k] == p[k + 2] && s[k + 1] == p[k + 3]);
            }
            assert forall|k: int| 0 <= k < s.len() - 1 implies !(#[trigger] s[k] == '.' && s[k + 1]
                == '.') by {
                assert(s[k] == p[k + 2] && s[k + 1] == p[k + 3]);
            }
        }
        lemma_below_is_plain(s);
    }
}

/// What passes as a path is made of plain characters, begins with no `/` and nowhere
/// steps upwards.
pub proof fn passing_paths_are_below(p: Seq<char>)
    requires
        safe_subpath(p),
    ensures
        p.len() > 0,
        p[0] != '/',
        forall|k: int| 0 <= k < p.len() ==> is_plain(#[trigger] p[k]),
        forall|k: int| 0 <= k < p.len() - 1 ==> !(#[trigger] p[k] == '.' && p[k + 1] == '.'),
{
    crate::reflex_literal::safe_paths_stay_below(p);
    reveal_strlit("..");
    assert(".."@ =~= seq!['.', '.']);
    assert forall|k: int| 0 <= k < p.len() - 1 implies !(#[trigger] p[k] == '.' && p[k + 1]
        == '.') by {
        if p[k] == '.' && p[k + 1] == '.' {
            assert(p.subrange(k, k + 2) =~= ".."@);
            assert(occurs_at(p, ".."@, k));
        }
    }
    assert forall|k: int| 0 <= k < p.len() implies is_plain(#[trigger] p[k]) by {
        assert(crate::reflex_literal::is_path_char(p[k]));
    }
}

proof fn lemma_tools()
    ensures
        "read_file"@ != "grep_search"@,
        "list_directory"@ != "grep_search"@,
        "execute_bash"@ != "grep_search"@,
        "execute_bash"@ != "read_file"@,
        "execute_bash"@ != "write_file"@,
        "execute_bash"@ != "str_replace_editor"@,
        "execute_bash"@ != "list_directory"@,
        "grep_search"@ != "write_file"@,
        "grep_search"@ != "str_replace_editor"@,
{
    reveal_strlit("execute_bash");
    reveal_strlit("grep_search");
    reveal_strlit("read_file");
    reveal_strlit("write_file");
    reveal_strlit("str_replace_editor");
    reveal_strlit("list_directory");
    assert("execute_bash"@.len() == 12);
    assert("grep_search"@.len() == 11);
    assert("read_file"@.len() == 9);
    assert("write_file"@.len() == 10);
    assert("str_replace_editor"@.len() == 18);
    assert("list_directory"@.len() == 14);
}

/// The tools that work on a file below the working directory pass, with the path as the
/// reason; so does a search for plain words there.
pub proof fn plain_work_below_passes(args: JsonView, path: Seq<char>, query: Seq<char>)
    requires
        is_path_below(path),
        args.str_at("path"@) == Some(path),
        args.str_at("query"@) == Some(query),
        query.len() > 0,
        forall|k: int|
            0 <= k < query.len() ==> 'a' <= #[trigger] query[k] <= 'z' || 'A' <= query[k] <= 'Z'
                || '0' <= query[k] <= '9' || query[k] == '_' || query[k] == '-' || query[k] == ' ',
    ensures
        reflex_reason("read_file"@, args) == Some("A reasonably peaceful path: "@ + path),
        reflex_reason("write_file"@, args) == Some("A reasonably peaceful path: "@ + path),
        reflex_reason("str_replace_editor"@, args) == Some("A reasonably peaceful path: "@ + path),
        reflex_reason("list_directory"@, args) == Some("A reasonably peaceful path: "@ + path),
        reflex_reason("grep_search"@, args) == Some(
            "A reasonably quiet query along a peaceful path (path: '"@ + path + "', query: '"@
                + query + "')"@,
        ),
{
    lemma_tools();
    paths_below_pass(path);
    assert(plain_query(query)) by {
        assert forall|k: int| 0 <= k < query.len() implies crate::reflex_literal::is_query_char(
            #[trigger] query[k],
        ) by {}
    }
}

/// A search for anything but plain words does not pass.
pub proof fn other_searches_do_not_pass(args: JsonView, query: Seq<char>, k: int)
    requires
        args.str_at("query"@) == Some(query),
        0 <= k < query.len(),
        !('a' <= query[k] <= 'z' || 'A' <= query[k] <= 'Z' || '0' <= query[k] <= '9' || query[k]
            == '_' || query[k] == '-' || query[k] == ' '),
    ensures
        reflex_reason("grep_search"@, args) is None,
{
    lemma_tools();
    assert(!crate::reflex_literal::is_query_char(query[k]));
}

// ---------------------------------------------------------------------------
// Commands
// ---------------------------------------------------------------------------

/// A character that a passing command may hold: a plain one, white space, or one of those
/// that a redirection to nowhere, a filter and a number of lines are written with.
pub open spec fn is_calm(c: char) -> bool {
    is_plain(c) || is_space(c) || c == '|' || c == '>' || c == '&' || c == '+'
}

/// Whether a text holds calm characters only.
pub open spec fn all_calm(s: Seq<char>) -> bool {
    forall|k: int| 0 <= k < s.len() ==> is_calm(#[trigger] s[k])
}

proof fn lemma_calm_lists()
    ensures
        forall|i: int| 0 <= i < redirects().len() ==> all_calm(#[trigger] redirects()[i]),
        forall|i: int| 0 <= i < filters().len() ==> all_calm(#[trigger] filters()[i]),
        forall|i: int| 0 <= i < readers().len() ==> all_calm(#[trigger] readers()[i]),
{
    reveal_strlit(" > /dev/null 2>&1");
    reveal_strlit(" 2>&1");
    reveal_strlit(" > /dev/null");
    reveal_strlit(" 2> /dev/null");
    reveal_strlit(" >/dev/null");
    assert(all_calm(" > /dev/null 2>&1"@));
    assert(all_calm(" 2>&1"@));
    assert(all_calm(" > /dev/null"@));
    assert(all_calm(" 2> /dev/null"@));
    assert(all_calm(" >/dev/null"@));
    assert forall|i: int| 0 <= i < redirects().len() implies all_calm(#[trigger] redirects()[i]) by {
        assert(redirects()[i] == " > /dev/null 2>&1"@ || redirects()[i] == " 2>&1"@ || redirects()[i] == " > /dev/null"@ || redirects()[i] == " 2> /dev/null"@ || redirects()[i] == " >/dev/null"@);
    }
    reveal_strlit(" | cat -A");
    reveal_strlit(" | wc -l");
    reveal_strlit(" | wc -c");
    reveal_strlit(" | sort");
    reveal_strlit(" | sort -n");
    reveal_strlit(" | uniq");
    assert(all_calm(" | cat -A"@));
    assert(all_calm(" | wc -l"@));
    assert(all_calm(" | wc -c"@));
    assert(all_calm(" | sort"@));
    assert(all_calm(" | sort -n"@));
    assert(all_calm(" | uniq"@));
    assert forall|i: int| 0 <= i < filters().len() implies all_calm(#[trigger] filters()[i]) by {
        assert(filters()[i] == " | cat -A"@ || filters()[i] == " | wc -l"@ || filters()[i] == " | wc -c"@ || filters()[i] == " | sort"@ || filters()[i] == " | sort -n"@ || filters()[i] == " | uniq"@);
    }
    reveal_strlit("cat ");
    reveal_strlit("nl ");
    reveal_strlit("file ");
    reveal_strlit("stat ");
    reveal_strlit("md5sum ");
    reveal_strlit("sha256sum ");
    reveal_strlit("wc -l ");
    reveal_strlit("wc -c ");
    assert(all_calm("cat "@));
    assert(all_calm("nl "@));
    assert(all_calm("file "@));
    assert(all_calm("stat "@));
    assert(all_calm("md5sum "@));
    assert(all_calm("sha256sum "@));
    assert(all_calm("wc -l "@));
    assert(all_calm("wc -c "@));
    assert forall|i: int| 0 <= i < readers().len() implies all_calm(#[trigger] readers()[i]) by {
        assert(readers()[i] == "cat "@ || readers()[i] == "nl "@ || readers()[i] == "file "@ || readers()[i] == "stat "@ || readers()[i] == "md5sum "@ || readers()[i] == "sha256sum "@ || readers()[i] == "wc -l "@ || readers()[i] == "wc -c "@);
    }
}

proof fn lemma_calm_end(s: Seq<char>)
    requires
        all_calm(trimmed_end(s)),
    ensures
        all_calm(s),
{
    lemma_text_end(s, s.len() as int);
    let e = text_end(s, s.len() as int);
    lemma_spaces_behind(s, s.len() as int);
    assert forall|k: int| 0 <= k < s.len() implies is_calm(#[trigger] s[k]) by {
        if k < e {
            assert(trimmed_end(s)[k] == s[k]);
        }
    }
}

proof fn lemma_spaces_behind(s: Seq<char>, n: int)
    requires
        0 <= n <= s.len(),
    ensures
        forall|k: int| text_end(s, n) <= k < n ==> is_space(#[trigger] s[k]),
    decreases n,
{
    if 0 < n && is_space(s[n - 1]) {
        lemma_spaces_behind(s, n - 1);
    }
}

proof fn lemma_spaces_before(s: Seq<char>, i: int)
    requires
        0 <= i <= s.len(),
    ensures
        forall|k: int| i <= k < space_end(s, i) ==> is_space(#[trigger] s[k]),
    decreases s.len() - i,
{
    if i < s.len() && is_space(s[i]) {
        lemma_spaces_before(s, i + 1);
    }
}

proof fn lemma_calm_trimmed(s: Seq<char>)
    requires
        all_calm(trimmed(s)),
    ensures
        all_calm(s),
{
    let t = trimmed_start(s);
    lemma_calm_end(t);
    lemma_space_end(s, 0);
    lemma_spaces_before(s, 0);
    assert forall|k: int| 0 <= k < s.len() implies is_calm(#[trigger] s[k]) by {
        if k >= space_end(s, 0) {
            assert(t[k - space_end(s, 0)] == s[k]);
        }
    }
}

proof fn lemma_calm_before(s: Seq<char>, endings: Seq<Seq<char>>, i: int)
    requires
        0 <= i <= endings.len(),
        forall|k: int| 0 <= k < endings.len() ==> all_calm(#[trigger] endings[k]),
        before_any(s, endings, i) is Some,
        all_calm(before_any(s, endings, i)->0),
    ensures
        all_calm(s),
    decreases endings.len() - i,
{
    if before_suffix(s, endings[i]) is Some {
        let x = before_suffix(s, endings[i])->0;
        let e = endings[i];
        assert(s =~= x + e) by {
            assert(s.subrange(s.len() - e.len(), s.len() as int) == e);
        }
        assert forall|k: int| 0 <= k < s.len() implies is_calm(#[trigger] s[k]) by {
            if k < x.len() {
                assert(s[k] == x[k]);
            } else {
                assert(s[k] == e[k - x.len()]);
            }
        }
    } else {
        lemma_calm_before(s, endings, i + 1);
    }
}

proof fn lemma_calm_after(s: Seq<char>, beginnings: Seq<Seq<char>>, i: int)
    requires
        0 <= i <= beginnings.len(),
        forall|k: int| 0 <= k < beginnings.len() ==> all_calm(#[trigger] beginnings[k]),
        after_any(s, beginnings, i) is Some,
        all_calm(after_any(s, beginnings, i)->0),
    ensures
        all_calm(s),
    decreases beginnings.len() - i,
{
    if after_prefix(s, beginnings[i]) is Some {
        let x = after_prefix(s, beginnings[i])->0;
        let b = beginnings[i];
        assert(s =~= b + x) by {
            assert(s.subrange(0, b.len() as int) == b);
        }
        assert forall|k: int| 0 <= k < s.len() implies is_calm(#[trigger] s[k]) by {
            if k < b.len() {
                assert(s[k] == b[k]);
            } else {
                assert(s[k] == x[k - b.len()]);
            }
        }
    } else {
        lemma_calm_after(s, beginnings, i + 1);
    }
}

proof fn lemma_calm_filters(cmd: Seq<char>)
    requires
        all_calm(without_filters(cmd)),
    ensures
        all_calm(cmd),
    decreases cmd.len(),
{
    lemma_calm_lists();
    let t = trimmed_end(cmd);
    match before_any(t, filters(), 0) {
        Some(s) => {
            if s.len() < cmd.len() {
                lemma_calm_filters(s);
            }
            lemma_calm_before(t, filters(), 0);
        },
        None => {},
    }
    lemma_calm_end(cmd);
}

proof fn lemma_calm_redirect(cmd: Seq<char>)
    requires
        all_calm(without_redirect(cmd)),
    ensures
        all_calm(cmd),
{
    lemma_calm_lists();
    let t = trimmed_end(cmd);
    match before_any(t, redirects(), 0) {
        Some(s) => {
            lemma_calm_before(t, redirects(), 0);
        },
        None => {},
    }
    lemma_calm_end(cmd);
}

proof fn lemma_calm_both(a: Seq<char>, b: Seq<char>)
    requires
        all_calm(a),
        all_calm(b),
    ensures
        all_calm(a + b),
{
    assert forall|k: int| 0 <= k < (a + b).len() implies is_calm(#[trigger] (a + b)[k]) by {
        if k < a.len() {
            assert((a + b)[k] == a[k]);
        } else {
            assert((a + b)[k] == b[k - a.len()]);
        }
    }
}

proof fn lemma_calm_count(s: Seq<char>)
    requires
        crate::reflex_literal::is_line_count(s),
    ensures
        all_calm(s),
{
    assert forall|k: int| 0 <= k < s.len() implies is_calm(#[trigger] s[k]) by {
        if s[0] == '+' {
            if k > 0 {
                assert(s.drop_first()[k - 1] == s[k]);
            }
        }
    }
}

proof fn lemma_calm_options()
    ensures
        all_calm("head -n "@),
        all_calm("head -"@),
        all_calm("tail -n "@),
        all_calm("tail -"@),
        all_calm(" | tail -n "@),
        all_calm(" | tail -"@),
        all_calm(" "@),
{
    reveal_strlit("head -n ");
    reveal_strlit("head -");
    reveal_strlit("tail -n ");
    reveal_strlit("tail -");
    reveal_strlit(" | tail -n ");
    reveal_strlit(" | tail -");
    reveal_strlit(" ");
}

proof fn lemma_calm_around(
    s: Seq<char>,
    a: Seq<char>,
    b: Option<Seq<char>>,
)
    requires
        all_calm(a),
        b is Some ==> all_calm(b->0),
        around_either(s, a, b) is Some,
        all_calm((around_either(s, a, b)->0).0),
        all_calm((around_either(s, a, b)->0).1),
    ensures
        all_calm(s),
{
    let m = if split_last(s, a) is Some {
        a
    } else {
        b->0
    };
    let p = split_last(s, m)->0;
    lemma_last_upto(s, m, s.len() as int);
    let k = last_upto(s, m, s.len() as int)->0;
    assert(occurs_at(s, m, k));
    assert(s =~= p.0 + m + p.1) by {
        assert(s.subrange(k, k + m.len()) == m);
    }
    lemma_calm_both(p.0, m);
    lemma_calm_both(p.0 + m, p.1);
}

proof fn lemma_calm_after_either(s: Seq<char>, a: Seq<char>, b: Option<Seq<char>>)
    requires
        all_calm(a),
        b is Some ==> all_calm(b->0),
        after_either(s, a, b) is Some,
        all_calm(after_either(s, a, b)->0),
    ensures
        all_calm(s),
{
    let m = if after_prefix(s, a) is Some {
        a
    } else {
        b->0
    };
    let x = after_prefix(s, m)->0;
    assert(s =~= m + x) by {
        assert(s.subrange(0, m.len() as int) == m);
    }
    lemma_calm_both(m, x);
}

proof fn lemma_calm_counted(rest: Seq<char>)
    requires
        counted_path(rest) is Some,
        all_calm(counted_path(rest)->0),
    ensures
        all_calm(rest),
{
    lemma_calm_options();
    let p = split_first(rest, " "@)->0;
    lemma_first_from(rest, " "@, 0);
    let k = first_from(rest, " "@, 0)->0;
    assert(occurs_at(rest, " "@, k));
    lemma_calm_count(p.0);
    assert(rest =~= p.0 + " "@ + p.1) by {
        assert(rest.subrange(k, k + " "@.len()) == " "@);
    }
    lemma_calm_both(p.0, " "@);
    lemma_calm_both(p.0 + " "@, p.1);
}

proof fn lemma_calm_head_tail(input: Seq<char>, short: bool)
    requires
        head_tail_path(input, short) is Some,
        all_calm(head_tail_path(input, short)->0),
    ensures
        all_calm(input),
{
    lemma_calm_options();
    let h = crate::reflex_literal::short_form(short, "head -"@);
    let t = crate::reflex_literal::short_form(short, "tail -"@);
    let pt = crate::reflex_literal::short_form(short, " | tail -"@);
    match after_either(input, "head -n "@, h) {
        Some(rest) => {
            let remaining = counted_path(rest)->0;
            match around_either(remaining, " | tail -n "@, pt) {
                Some(p) => {
                    lemma_calm_trimmed(p.0);
                    lemma_calm_count(p.1);
                    lemma_calm_around(remaining, " | tail -n "@, pt);
                },
                None => {
                    lemma_calm_trimmed(remaining);
                },
            }
            lemma_calm_counted(rest);
            lemma_calm_after_either(input, "head -n "@, h);
        },
        None => {
            let rest = after_either(input, "tail -n "@, t)->0;
            let remaining = counted_path(rest)->0;
            lemma_calm_trimmed(remaining);
            lemma_calm_counted(rest);
            lemma_calm_after_either(input, "tail -n "@, t);
        },
    }
}

/// A command that passes without being one of the few exact ones holds nothing but calm
/// characters: no `;`, no quote, no substitution and nothing else by which a second
/// command could come in.
pub proof fn reading_commands_are_calm(cmd: Seq<char>, short: bool)
    requires
        shallow_command(cmd, short),
    ensures
        all_calm(cmd),
{
    let c = crate::reflex_literal::core_command(cmd);
    lemma_calm_lists();
    if crate::reflex_literal::safe_if_any(read_path(c)) {
        let p = read_path(c)->0;
        passing_paths_are_below(p);
        assert(all_calm(p));
        let rest = after_any(c, readers(), 0)->0;
        lemma_calm_trimmed(rest);
        lemma_calm_after(c, readers(), 0);
    } else {
        let p = head_tail_path(c, short)->0;
        passing_paths_are_below(p);
        assert(all_calm(p));
        lemma_calm_head_tail(c, short);
    }
    lemma_calm_filters(without_redirect(cmd));
    lemma_calm_redirect(cmd);
}

proof fn lemma_marked()
    ensures
        forall|i: int|
            0 <= i < redirects().len() ==> (#[trigger] redirects()[i]).len() > 0
                && redirects()[i].contains('>'),
        forall|i: int|
            0 <= i < filters().len() ==> (#[trigger] filters()[i]).len() > 0
                && filters()[i].contains('|'),
{
    reveal_strlit(" > /dev/null 2>&1");
    assert(" > /dev/null 2>&1"@[1] == '>');
    reveal_strlit(" 2>&1");
    assert(" 2>&1"@[2] == '>');
    reveal_strlit(" > /dev/null");
    assert(" > /dev/null"@[1] == '>');
    reveal_strlit(" 2> /dev/null");
    assert(" 2> /dev/null"@[2] == '>');
    reveal_strlit(" >/dev/null");
    assert(" >/dev/null"@[1] == '>');
    assert forall|i: int| 0 <= i < redirects().len() implies (#[trigger] redirects()[i]).len() > 0
        && redirects()[i].contains('>') by {
        assert(redirects()[i] == " > /dev/null 2>&1"@ || redirects()[i] == " 2>&1"@ || redirects()[i] == " > /dev/null"@ || redirects()[i] == " 2> /dev/null"@ || redirects()[i] == " >/dev/null"@);
    }
    reveal_strlit(" | cat -A");
    assert(" | cat -A"@[1] == '|');
    reveal_strlit(" | wc -l");
    assert(" | wc -l"@[1] == '|');
    reveal_strlit(" | wc -c");
    assert(" | wc -c"@[1] == '|');
    reveal_strlit(" | sort");
    assert(" | sort"@[1] == '|');
    reveal_strlit(" | sort -n");
    assert(" | sort -n"@[1] == '|');
    reveal_strlit(" | uniq");
    assert(" | uniq"@[1] == '|');
    assert forall|i: int| 0 <= i < filters().len() implies (#[trigger] filters()[i]).len() > 0
        && filters()[i].contains('|') by {
        assert(filters()[i] == " | cat -A"@ || filters()[i] == " | wc -l"@ || filters()[i] == " | wc -c"@ || filters()[i] == " | sort"@ || filters()[i] == " | sort -n"@ || filters()[i] == " | uniq"@);
    }
}

proof fn lemma_none_ends(s: Seq<char>, endings: Seq<Seq<char>>, c: char, i: int)
    requires
        0 <= i <= endings.len(),
        forall|k: int| 0 <= k < endings.len() ==> (#[trigger] endings[k]).contains(c),
        forall|k: int| 0 <= k < s.len() ==> #[trigger] s[k] != c,
    ensures
        before_any(s, endings, i) is None,
    decreases endings.len() - i,
{
    if i < endings.len() {
        let e = endings[i];
        if before_suffix(s, e) is Some {
            let k = choose|k: int| 0 <= k < e.len() && e[k] == c;
            let t = s.subrange(s.len() - e.len(), s.len() as int);
            assert(t == e);
            assert(t[k] == s[s.len() - e.len() + k]);
        }
        lemma_none_ends(s, endings, c, i + 1);
    }
}

/// Showing a file below the working directory passes.
pub proof fn showing_a_file_below_passes(path: Seq<char>, args: JsonView)
    requires
        is_path_below(path),
        args.str_at("command"@) == Some("cat "@ + path),
    ensures
        shallow_command("cat "@ + path, false),
        reflex_reason("execute_bash"@, args) == Some(
            "A reasonably familiar pattern: "@ + "cat "@ + path,
        ) || exact_command("cat "@ + path),
{
    reveal_strlit("cat ");
    let s = "cat "@ + path;
    assert(s[0] == 'c' && s[1] == 'a' && s[2] == 't' && s[3] == ' ');
    assert(s.last() == path.last());
    assert(is_plain(path[path.len() - 1]));
    assert(text_end(s, s.len() as int) == s.len());
    assert(trimmed_end(s) =~= s);
    assert forall|k: int| 0 <= k < s.len() implies #[trigger] s[k] != '>' && s[k] != '|' by {
        if k >= 4 {
            assert(s[k] == path[k - 4]);
            assert(is_plain(path[k - 4]));
        }
    }
    lemma_marked();
    lemma_none_ends(s, redirects(), '>', 0);
    lemma_none_ends(s, filters(), '|', 0);
    assert(s.subrange(0, 4) =~= "cat "@);
    assert(s.skip(4) =~= path);
    assert(readers()[0] == "cat "@);
    assert(after_any(s, readers(), 0) == Some(path));
    assert(is_plain(path[0]));
    assert(space_end(path, 0) == 0);
    assert(trimmed_start(path) =~= path);
    assert(text_end(path, path.len() as int) == path.len());
    assert(trimmed(path) =~= path);
    paths_below_pass(path);
    lemma_tools();
    assert("A reasonably familiar pattern: "@ + s =~= "A reasonably familiar pattern: "@ + "cat "@
        + path);
}

} // verus!
