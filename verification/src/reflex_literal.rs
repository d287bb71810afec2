//! Shallow filter of tool arguments by literal comparison.
//!
//! A query, path or command passes where it has one of a few plain forms. The
//! filter is a first heuristic, predictable and easy to audit; it is no
//! security boundary on its own.

use vstd::prelude::*;
use vstd::string::*;

use crate::text::{
    after_prefix, before_suffix, char_is_ascii_alnum, chars_of, contains, is_ascii_alnum, occurs_at,
    opt_pair_view, opt_str_view, parse_upto, parsed_upto, rsplit_once, split_first, split_last,
    split_once, starts_with, str_eq, strip_prefix, strip_suffix, text_contains, trim, trim_end,
    trimmed, trimmed_end, views,
};

verus! {

// ---------------------------------------------------------------------------
// Addresses
// ---------------------------------------------------------------------------

/// The beginnings of addresses that pass.
pub open spec fn allowed_prefixes() -> Seq<Seq<char>> {
    seq![
        "https://docs.rs/anyhow/"@,
        "https://docs.rs/arc-swap/"@,
        "https://docs.rs/async-trait/"@,
        "https://docs.rs/chrono/"@,
        "https://docs.rs/clap/"@,
        "https://docs.rs/directories/"@,
        "https://docs.rs/futures/"@,
        "https://docs.rs/futures-util/"@,
        "https://docs.rs/lazy_static/"@,
        "https://docs.rs/log/"@,
        "https://docs.rs/once_cell/"@,
        "https://docs.rs/pollster/"@,
        "https://docs.rs/regex/"@,
        "https://docs.rs/thiserror/"@,
        "https://docs.rs/tokio/"@,
        "https://docs.rs/tracing/"@,
        "https://docs.rs/tracing-subscriber/"@,
        "https://docs.rs/bytes/"@,
        "https://docs.rs/http/"@,
        "https://docs.rs/hyper/"@,
        "https://docs.rs/postcard/"@,
        "https://docs.rs/quinn/"@,
        "https://docs.rs/reqwest/"@,
        "https://docs.rs/serde/"@,
        "https://docs.rs/serde_json/"@,
        "https://docs.rs/serde_yaml/"@,
        "https://docs.rs/url/"@,
        "https://docs.rs/rustls/"@,
        "https://docs.rs/webpki-roots/"@,
        "https://docs.rs/x509-parser/"@,
        "https://docs.rs/bollard/"@,
        "https://docs.rs/k8s-openapi/"@,
        "https://docs.rs/kube/"@,
        "https://docs.rs/arboard/"@,
        "https://docs.rs/cursor-icon/"@,
        "https://docs.rs/eframe/"@,
        "https://docs.rs/egui/"@,
        "https://docs.rs/muda/"@,
        "https://docs.rs/rfd/"@,
        "https://docs.rs/rustyline/"@,
        "https://docs.rs/winit/"@,
        "https://docs.rs/bytemuck/"@,
        "https://docs.rs/glyphon/"@,
        "https://docs.rs/wgpu/"@,
        "https://docs.rs/cosmic-text/"@,
        "https://docs.rs/ropey/"@,
        "https://docs.rs/unicode-segmentation/"@,
        "https://docs.rs/unicode-width/"@,
        "https://docs.rs/fixedbitset/"@,
        "https://docs.rs/lru/"@,
        "https://docs.rs/petgraph/"@,
        "https://docs.rs/slotmap/"@,
    ]
}

fn prefixes() -> (r: Vec<String>)
    ensures
        views(r@) == allowed_prefixes(),
{
    let mut v: Vec<String> = Vec::new();
    v.push("https://docs.rs/anyhow/".to_owned());
    v.push("https://docs.rs/arc-swap/".to_owned());
    v.push("https://docs.rs/async-trait/".to_owned());
    v.push("https://docs.rs/chrono/".to_owned());
    v.push("https://docs.rs/clap/".to_owned());
    v.push("https://docs.rs/directories/".to_owned());
    v.push("https://docs.rs/futures/".to_owned());
    v.push("https://docs.rs/futures-util/".to_owned());
    v.push("https://docs.rs/lazy_static/".to_owned());
    v.push("https://docs.rs/log/".to_owned());
    v.push("https://docs.rs/once_cell/".to_owned());
    v.push("https://docs.rs/pollster/".to_owned());
    v.push("https://docs.rs/regex/".to_owned());
    v.push("https://docs.rs/thiserror/".to_owned());
    v.push("https://docs.rs/tokio/".to_owned());
    v.push("https://docs.rs/tracing/".to_owned());
    v.push("https://docs.rs/tracing-subscriber/".to_owned());
    v.push("https://docs.rs/bytes/".to_owned());
    v.push("https://docs.rs/http/".to_owned());
    v.push("https://docs.rs/hyper/".to_owned());
    v.push("https://docs.rs/postcard/".to_owned());
    v.push("https://docs.rs/quinn/".to_owned());
    v.push("https://docs.rs/reqwest/".to_owned());
    v.push("https://docs.rs/serde/".to_owned());
    v.push("https://docs.rs/serde_json/".to_owned());
    v.push("https://docs.rs/serde_yaml/".to_owned());
    v.push("https://docs.rs/url/".to_owned());
    v.push("https://docs.rs/rustls/".to_owned());
    v.push("https://docs.rs/webpki-roots/".to_owned());
    v.push("https://docs.rs/x509-parser/".to_owned());
    v.push("https://docs.rs/bollard/".to_owned());
    v.push("https://docs.rs/k8s-openapi/".to_owned());
    v.push("https://docs.rs/kube/".to_owned());
    v.push("https://docs.rs/arboard/".to_owned());
    v.push("https://docs.rs/cursor-icon/".to_owned());
    v.push("https://docs.rs/eframe/".to_owned());
    v.push("https://docs.rs/egui/".to_owned());
    v.push("https://docs.rs/muda/".to_owned());
    v.push("https://docs.rs/rfd/".to_owned());
    v.push("https://docs.rs/rustyline/".to_owned());
    v.push("https://docs.rs/winit/".to_owned());
    v.push("https://docs.rs/bytemuck/".to_owned());
    v.push("https://docs.rs/glyphon/".to_owned());
    v.push("https://docs.rs/wgpu/".to_owned());
    v.push("https://docs.rs/cosmic-text/".to_owned());
    v.push("https://docs.rs/ropey/".to_owned());
    v.push("https://docs.rs/unicode-segmentation/".to_owned());
    v.push("https://docs.rs/unicode-width/".to_owned());
    v.push("https://docs.rs/fixedbitset/".to_owned());
    v.push("https://docs.rs/lru/".to_owned());
    v.push("https://docs.rs/petgraph/".to_owned());
    v.push("https://docs.rs/slotmap/".to_owned());
    proof {
        assert(views(v@) =~= allowed_prefixes());
    }
    v
}

/// A character of a page name.
pub open spec fn is_page_char(c: char) -> bool {
    is_ascii_alnum(c) || c == '_' || c == '-' || c == '.'
}

/// Whether an address is an allowed beginning and a page name.
pub open spec fn is_page_of(url: Seq<char>, prefix: Seq<char>) -> bool {
    &&& prefix.is_prefix_of(url)
    &&& forall|k: int| prefix.len() <= k < url.len() ==> is_page_char(#[trigger] url[k])
}

/// Whether an address passes.
pub open spec fn safe_url(url: Seq<char>) -> bool {
    &&& !text_contains(url, ".."@)
    &&& exists|i: int|
        0 <= i < allowed_prefixes().len() && is_page_of(url, #[trigger] allowed_prefixes()[i])
}

fn page_of(url: &str, prefix: &str) -> (r: bool)
    ensures
        r == is_page_of(url@, prefix@),
{
    if !starts_with(url, prefix) {
        return false;
    }
    let cs = chars_of(url);
    let from: usize = prefix.unicode_len();
    let mut i: usize = from;
    while i < cs.len()
        invariant
            cs@ == url@,
            from == prefix@.len(),
            from <= i <= cs@.len(),
            forall|k: int| from <= k < i ==> is_page_char(#[trigger] url@[k]),
        decreases cs@.len() - i,
    {
        let c = cs[i];
        if !(char_is_ascii_alnum(c) || c == '_' || c == '-' || c == '.') {
            proof {
                assert(!is_page_char(url@[i as int]));
            }
            return false;
        }
        i = i + 1;
    }
    true
}

/// Whether an address is the documentation of a known crate.
pub fn is_safe_url(url: &str) -> (r: bool)
    ensures
        r == safe_url(url@),
{
    if contains(url, "..") {
        return false;
    }
    let list = prefixes();
    let mut i: usize = 0;
    while i < list.len()
        invariant
            i <= list@.len(),
            views(list@) == allowed_prefixes(),
            !text_contains(url@, ".."@),
            forall|k: int| 0 <= k < i ==> !is_page_of(url@, #[trigger] allowed_prefixes()[k]),
        decreases list@.len() - i,
    {
        proof {
            assert(views(list@)[i as int] == list@[i as int]@);
        }
        if page_of(url, list[i].as_str()) {
            proof {
                assert(is_page_of(url@, allowed_prefixes()[i as int]));
            }
            return true;
        }
        i = i + 1;
    }
    proof {
        assert(list@.len() == views(list@).len());
    }
    false
}

// ---------------------------------------------------------------------------
// Queries
// ---------------------------------------------------------------------------

/// A character of a plain query.
pub open spec fn is_query_char(c: char) -> bool {
    is_ascii_alnum(c) || c == '_' || c == '-' || c == ' '
}

/// A query of plain characters, not empty.
pub open spec fn plain_query(q: Seq<char>) -> bool {
    q.len() > 0 && forall|k: int| 0 <= k < q.len() ==> is_query_char(#[trigger] q[k])
}

/// Whether a query passes: ASCII letters and digits, `_`, `-` and blanks.
pub fn is_safe_grep_query(query: &str) -> (r: bool)
    ensures
        r == plain_query(query@),
{
    let cs = chars_of(query);
    if cs.len() == 0 {
        return false;
    }
    let mut i: usize = 0;
    while i < cs.len()
        invariant
            cs@ == query@,
            i <= cs@.len(),
            forall|k: int| 0 <= k < i ==> is_query_char(#[trigger] query@[k]),
        decreases cs@.len() - i,
    {
        let c = cs[i];
        if !(char_is_ascii_alnum(c) || c == '_' || c == '-' || c == ' ') {
            proof {
                assert(!is_query_char(query@[i as int]));
            }
            return false;
        }
        i = i + 1;
    }
    true
}

// ---------------------------------------------------------------------------
// Paths
// ---------------------------------------------------------------------------

/// A character of a plain path.
pub open spec fn is_path_char(c: char) -> bool {
    is_ascii_alnum(c) || c == '_' || c == '-' || c == '/' || c == '.'
}

/// A path below the working directory: plain characters, no empty segment and
/// no step upwards.
pub open spec fn plain_path(p: Seq<char>) -> bool {
    &&& p.len() > 0
    &&& p[0] != '/'
    &&& p.last() != '/'
    &&& !text_contains(p, "//"@)
    &&& !text_contains(p, ".."@)
    &&& forall|k: int| 0 <= k < p.len() ==> is_path_char(#[trigger] p[k])
}

/// A path without a leading `./`.
pub open spec fn path_body(p: Seq<char>) -> Seq<char> {
    match after_prefix(p, "./"@) {
        Some(s) => s,
        None => p,
    }
}

/// Whether a path passes.
pub open spec fn safe_subpath(p: Seq<char>) -> bool {
    p == "."@ || p == "./"@ || plain_path(path_body(p))
}

fn is_plain_path(p: &str) -> (r: bool)
    ensures
        r == plain_path(p@),
{
    let cs = chars_of(p);
    let n: usize = cs.len();
    if n == 0 {
        return false;
    }
    if cs[0] == '/' || cs[n - 1] == '/' || contains(p, "//") || contains(p, "..") {
        return false;
    }
    let mut i: usize = 0;
    while i < n
        invariant
            n == cs@.len(),
            cs@ == p@,
            i <= n,
            forall|k: int| 0 <= k < i ==> is_path_char(#[trigger] p@[k]),
        decreases n - i,
    {
        let c = cs[i];
        if !(char_is_ascii_alnum(c) || c == '_' || c == '-' || c == '/' || c == '.') {
            proof {
                assert(!is_path_char(p@[i as int]));
            }
            return false;
        }
        i = i + 1;
    }
    true
}

/// Whether a path lies below the working directory, by its plain form.
pub fn is_safe_subpath(path_str: &str) -> (r: bool)
    ensures
        r == safe_subpath(path_str@),
{
    if str_eq(path_str, ".") || str_eq(path_str, "./") {
        return true;
    }
    match strip_prefix(path_str, "./") {
        Some(body) => is_plain_path(body),
        None => is_plain_path(path_str),
    }
}

/// Whether a path, by its form, names something below the working directory: it
/// does not begin with `/`, it holds no `..`, and its characters are plain.
pub open spec fn lies_below(p: Seq<char>) -> bool {
    &&& p.len() > 0
    &&& p[0] != '/'
    &&& !text_contains(p, ".."@)
    &&& forall|k: int| 0 <= k < p.len() ==> is_path_char(#[trigger] p[k])
}

/// A path that passes names something below the working directory: it holds no
/// `..`, it does not begin with `/`, and it is made of plain characters.
pub proof fn safe_paths_stay_below(p: Seq<char>)
    requires
        safe_subpath(p),
    ensures
        lies_below(p),
{
    reveal_strlit(".");
    reveal_strlit("./");
    reveal_strlit("..");
    if p == "."@ || p == "./"@ {
        if text_contains(p, ".."@) {
            let k = choose|k: int| occurs_at(p, ".."@, k);
            assert(p.subrange(k, k + 2)[1] == p[k + 1]);
            assert(".."@[1] == '.');
        }
    } else {
        match after_prefix(p, "./"@) {
            Some(s) => {
                assert(p =~= "./"@ + s);
                if text_contains(p, ".."@) {
                    let k = choose|k: int| occurs_at(p, ".."@, k);
                    assert(p.subrange(k, k + 2) == ".."@);
                    assert(p.subrange(k, k + 2)[0] == p[k]);
                    assert(p.subrange(k, k + 2)[1] == p[k + 1]);
                    assert(".."@[0] == '.' && ".."@[1] == '.');
                    assert(k >= 2);
                    assert(s.subrange(k - 2, k) =~= ".."@);
                    assert(occurs_at(s, ".."@, k - 2));
                }
                assert forall|k: int| 0 <= k < p.len() implies is_path_char(#[trigger] p[k]) by {
                    if k >= 2 {
                        assert(p[k] == s[k - 2]);
                    }
                }
            },
            None => {},
        }
    }
}

// ---------------------------------------------------------------------------
// Commands
// ---------------------------------------------------------------------------

/// The redirections that may end a command.
pub open spec fn redirects() -> Seq<Seq<char>> {
    seq![
        " > /dev/null 2>&1"@,
        " 2>&1"@,
        " > /dev/null"@,
        " 2> /dev/null"@,
        " >/dev/null"@,
    ]
}

fn redirects_list() -> (r: Vec<String>)
    ensures
        views(r@) == redirects(),
{
    let mut v: Vec<String> = Vec::new();
    v.push(" > /dev/null 2>&1".to_owned());
    v.push(" 2>&1".to_owned());
    v.push(" > /dev/null".to_owned());
    v.push(" 2> /dev/null".to_owned());
    v.push(" >/dev/null".to_owned());
    proof {
        assert(views(v@) =~= redirects());
    }
    v
}

/// The filters that may follow a reading command.
pub open spec fn filters() -> Seq<Seq<char>> {
    seq![
        " | cat -A"@,
        " | wc -l"@,
        " | wc -c"@,
        " | sort"@,
        " | sort -n"@,
        " | uniq"@,
    ]
}

fn filters_list() -> (r: Vec<String>)
    ensures
        views(r@) == filters(),
{
    let mut v: Vec<String> = Vec::new();
    v.push(" | cat -A".to_owned());
    v.push(" | wc -l".to_owned());
    v.push(" | wc -c".to_owned());
    v.push(" | sort".to_owned());
    v.push(" | sort -n".to_owned());
    v.push(" | uniq".to_owned());
    proof {
        assert(views(v@) =~= filters());
    }
    v
}

/// The commands that read one file.
pub open spec fn readers() -> Seq<Seq<char>> {
    seq![
        "cat "@,
        "nl "@,
        "file "@,
        "stat "@,
        "md5sum "@,
        "sha256sum "@,
        "wc -l "@,
        "wc -c "@,
    ]
}

fn readers_list() -> (r: Vec<String>)
    ensures
        views(r@) == readers(),
{
    let mut v: Vec<String> = Vec::new();
    v.push("cat ".to_owned());
    v.push("nl ".to_owned());
    v.push("file ".to_owned());
    v.push("stat ".to_owned());
    v.push("md5sum ".to_owned());
    v.push("sha256sum ".to_owned());
    v.push("wc -l ".to_owned());
    v.push("wc -c ".to_owned());
    proof {
        assert(views(v@) =~= readers());
    }
    v
}

/// What is before the first of the given endings, from the `i`-th on, that a
/// text has.
pub open spec fn before_any(s: Seq<char>, endings: Seq<Seq<char>>, i: int) -> Option<Seq<char>>
    decreases endings.len() - i,
{
    if i < 0 || i >= endings.len() {
        None
    } else {
        match before_suffix(s, endings[i]) {
            Some(x) => Some(x),
            None => before_any(s, endings, i + 1),
        }
    }
}

/// What is after the first of the given beginnings, from the `i`-th on, that a
/// text has.
pub open spec fn after_any(s: Seq<char>, beginnings: Seq<Seq<char>>, i: int) -> Option<Seq<char>>
    decreases beginnings.len() - i,
{
    if i < 0 || i >= beginnings.len() {
        None
    } else {
        match after_prefix(s, beginnings[i]) {
            Some(x) => Some(x),
            None => after_any(s, beginnings, i + 1),
        }
    }
}

fn strip_any_end<'a>(s: &'a str, endings: &Vec<String>) -> (r: Option<&'a str>)
    ensures
        opt_str_view(r) == before_any(s@, views(endings@), 0),
{
    let ghost all = views(endings@);
    let mut i: usize = 0;
    while i < endings.len()
        invariant
            i <= endings@.len(),
            all == views(endings@),
            before_any(s@, all, i as int) == before_any(s@, all, 0),
        decreases endings@.len() - i,
    {
        match strip_suffix(s, endings[i].as_str()) {
            Some(x) => {
                return Some(x);
            },
            None => {},
        }
        i = i + 1;
    }
    None
}

fn strip_any_start<'a>(s: &'a str, beginnings: &Vec<String>) -> (r: Option<&'a str>)
    ensures
        opt_str_view(r) == after_any(s@, views(beginnings@), 0),
{
    let ghost all = views(beginnings@);
    let mut i: usize = 0;
    while i < beginnings.len()
        invariant
            i <= beginnings@.len(),
            all == views(beginnings@),
            after_any(s@, all, i as int) == after_any(s@, all, 0),
        decreases beginnings@.len() - i,
    {
        match strip_prefix(s, beginnings[i].as_str()) {
            Some(x) => {
                return Some(x);
            },
            None => {},
        }
        i = i + 1;
    }
    None
}

/// A command without trailing blanks and without the redirection that may end
/// it.
pub open spec fn without_redirect(cmd: Seq<char>) -> Seq<char> {
    let t = trimmed_end(cmd);
    match before_any(t, redirects(), 0) {
        Some(s) => s,
        None => t,
    }
}

/// A command without the filters and blanks that end it.
pub open spec fn without_filters(cmd: Seq<char>) -> Seq<char>
    decreases cmd.len(),
{
    let t = trimmed_end(cmd);
    match before_any(t, filters(), 0) {
        Some(s) => if s.len() < cmd.len() {
            without_filters(s)
        } else {
            s
        },
        None => t,
    }
}

fn strip_redirect<'a>(cmd: &'a str) -> (r: &'a str)
    ensures
        r@ == without_redirect(cmd@),
{
    let t = trim_end(cmd);
    let list = redirects_list();
    match strip_any_end(t, &list) {
        Some(s) => s,
        None => t,
    }
}

proof fn lemma_filter_shortens(s: Seq<char>, i: int)
    requires
        0 <= i,
        before_any(s, filters(), i) is Some,
    ensures
        before_any(s, filters(), i)->0.len() < s.len(),
    decreases filters().len() - i,
{
    reveal_strlit(" | cat -A");
    reveal_strlit(" | wc -l");
    reveal_strlit(" | wc -c");
    reveal_strlit(" | sort");
    reveal_strlit(" | sort -n");
    reveal_strlit(" | uniq");
    if i < filters().len() && before_suffix(s, filters()[i]) is None {
        lemma_filter_shortens(s, i + 1);
    }
}

fn strip_filters<'a>(cmd: &'a str) -> (r: &'a str)
    ensures
        r@ == without_filters(cmd@),
{
    let list = filters_list();
    let mut input: &str = cmd;
    loop
        invariant
            views(list@) == filters(),
            without_filters(input@) == without_filters(cmd@),
        decreases input@.len(),
    {
        let ghost before = input@;
        let t = trim_end(input);
        proof {
            crate::text::lemma_text_end(before, before.len() as int);
        }
        match strip_any_end(t, &list) {
            Some(s) => {
                proof {
                    lemma_filter_shortens(t@, 0);
                }
                input = s;
            },
            None => {
                return t;
            },
        }
    }
}

/// Whether a command is one of the few that pass as they are.
pub open spec fn exact_command(cmd: Seq<char>) -> bool {
    let c = without_redirect(cmd);
    c == "cargo check"@ || c == "cargo fmt"@ || c == "cargo clippy"@
}

/// Whether a command is one of the few that pass as they are, but for a
/// redirection at the end.
pub fn is_exact_matched_command(cmd: &str) -> (r: bool)
    ensures
        r == exact_command(cmd@),
{
    let c = strip_redirect(cmd);
    str_eq(c, "cargo check") || str_eq(c, "cargo fmt") || str_eq(c, "cargo clippy")
}

/// The path that a command of one file reads; `None` where the command is
/// another or has no path.
pub open spec fn read_path(input: Seq<char>) -> Option<Seq<char>> {
    match after_any(input, readers(), 0) {
        Some(rest) => if trimmed(rest).len() > 0 {
            Some(trimmed(rest))
        } else {
            None
        },
        None => None,
    }
}

/// The path that a reading command names.
pub fn basic_read_path<'a>(input: &'a str) -> (r: Option<&'a str>)
    ensures
        opt_str_view(r) == read_path(input@),
{
    let list = readers_list();
    match strip_any_start(input, &list) {
        Some(rest) => {
            let path = trim(rest);
            if path.is_empty() {
                None
            } else {
                Some(path)
            }
        },
        None => None,
    }
}

/// Whether a text is a number of lines.
pub open spec fn is_line_count(s: Seq<char>) -> bool {
    parsed_upto(s, usize::MAX as nat) is Some
}

fn is_count(s: &str) -> (r: bool)
    ensures
        r == is_line_count(s@),
{
    parse_upto(s, usize::MAX as u64).is_some()
}

/// The text after a beginning, or after a second one where it has not the
/// first.
pub open spec fn after_either(s: Seq<char>, a: Seq<char>, b: Option<Seq<char>>) -> Option<Seq<char>> {
    match after_prefix(s, a) {
        Some(x) => Some(x),
        None => match b {
            Some(p) => after_prefix(s, p),
            None => None,
        },
    }
}

/// The parts around the last occurrence of a text, or of a second one where it
/// does not occur.
pub open spec fn around_either(s: Seq<char>, a: Seq<char>, b: Option<Seq<char>>) -> Option<
    (Seq<char>, Seq<char>),
> {
    match split_last(s, a) {
        Some(x) => Some(x),
        None => match b {
            Some(p) => split_last(s, p),
            None => None,
        },
    }
}

/// The short form of an option, where short forms are taken.
pub open spec fn short_form(short: bool, s: Seq<char>) -> Option<Seq<char>> {
    if short {
        Some(s)
    } else {
        None
    }
}

/// The path behind a number of lines.
pub open spec fn counted_path(rest: Seq<char>) -> Option<Seq<char>> {
    match split_first(rest, " "@) {
        Some(p) => if is_line_count(p.0) {
            Some(p.1)
        } else {
            None
        },
        None => None,
    }
}

/// The path that a `head` or `tail` command reads, with `head -5` for
/// `head -n 5` where short forms are taken; `None` where the command is
/// another.
pub open spec fn head_tail_path(input: Seq<char>, short: bool) -> Option<Seq<char>> {
    match after_either(input, "head -n "@, short_form(short, "head -"@)) {
        Some(rest) => match counted_path(rest) {
            Some(remaining) => match around_either(
                remaining,
                " | tail -n "@,
                short_form(short, " | tail -"@),
            ) {
                Some(p) => if is_line_count(p.1) {
                    Some(trimmed(p.0))
                } else {
                    None
                },
                None => Some(trimmed(remaining)),
            },
            None => None,
        },
        None => match after_either(input, "tail -n "@, short_form(short, "tail -"@)) {
            Some(rest) => match counted_path(rest) {
                Some(remaining) => Some(trimmed(remaining)),
                None => None,
            },
            None => None,
        },
    }
}

fn strip_either<'a>(s: &'a str, a: &str, b: &str, short: bool) -> (r: Option<&'a str>)
    ensures
        opt_str_view(r) == after_either(s@, a@, short_form(short, b@)),
{
    match strip_prefix(s, a) {
        Some(x) => Some(x),
        None => if short {
            strip_prefix(s, b)
        } else {
            None
        },
    }
}

fn split_either<'a>(s: &'a str, a: &str, b: &str, short: bool) -> (r: Option<(&'a str, &'a str)>)
    ensures
        opt_pair_view(r) == around_either(s@, a@, short_form(short, b@)),
{
    match rsplit_once(s, a) {
        Some(x) => Some(x),
        None => if short {
            rsplit_once(s, b)
        } else {
            None
        },
    }
}

fn path_after_count<'a>(rest: &'a str) -> (r: Option<&'a str>)
    ensures
        opt_str_view(r) == counted_path(rest@),
{
    match split_once(rest, " ") {
        Some((num, remaining)) => if is_count(num) {
            Some(remaining)
        } else {
            None
        },
        None => None,
    }
}

/// The path that a `head` or `tail` command names.
pub fn head_tail_read_path<'a>(input: &'a str, short: bool) -> (r: Option<&'a str>)
    ensures
        opt_str_view(r) == head_tail_path(input@, short),
{
    match strip_either(input, "head -n ", "head -", short) {
        Some(rest) => match path_after_count(rest) {
            Some(remaining) => match split_either(remaining, " | tail -n ", " | tail -", short) {
                Some((path, num)) => if is_count(num) {
                    Some(trim(path))
                } else {
                    None
                },
                None => Some(trim(remaining)),
            },
            None => None,
        },
        None => match strip_either(input, "tail -n ", "tail -", short) {
            Some(rest) => match path_after_count(rest) {
                Some(remaining) => Some(trim(remaining)),
                None => None,
            },
            None => None,
        },
    }
}

/// Whether an optional path is there and passes.
pub open spec fn safe_if_any(p: Option<Seq<char>>) -> bool {
    p is Some && safe_subpath(p->0)
}

/// The command that is left of an input without redirection and filters.
pub open spec fn core_command(cmd: Seq<char>) -> Seq<char> {
    without_filters(without_redirect(cmd))
}

/// Whether a command reads one file below the working directory.
pub open spec fn shallow_command(cmd: Seq<char>, short: bool) -> bool {
    let c = core_command(cmd);
    safe_if_any(read_path(c)) || safe_if_any(head_tail_path(c, short))
}

fn is_safe_if_any(p: Option<&str>) -> (r: bool)
    ensures
        r == safe_if_any(opt_str_view(p)),
{
    match p {
        Some(s) => is_safe_subpath(s),
        None => false,
    }
}

/// Whether a command reads one file below the working directory, with short
/// forms of its options or without.
pub fn matches_read_command(cmd: &str, short: bool) -> (r: bool)
    ensures
        r == shallow_command(cmd@, short),
{
    let c = strip_filters(strip_redirect(cmd));
    is_safe_if_any(basic_read_path(c)) || is_safe_if_any(head_tail_read_path(c, short))
}

/// Whether a command reads one file below the working directory; `head -5` is
/// taken for `head -n 5`.
pub fn is_shallow_matched_command(cmd: &str) -> (r: bool)
    ensures
        r == shallow_command(cmd@, true),
{
    matches_read_command(cmd, true)
}

/// A command that passes reads one path, and that path is below the working
/// directory and holds plain characters only.
pub proof fn passing_commands_read_below(cmd: Seq<char>, short: bool)
    requires
        shallow_command(cmd, short),
    ensures
        ({
            let c = core_command(cmd);
            exists|p: Seq<char>|
                (read_path(c) == Some(p) || head_tail_path(c, short) == Some(p))
                    && #[trigger] lies_below(p)
        }),
{
    let c = core_command(cmd);
    let p = if safe_if_any(read_path(c)) {
        read_path(c)->0
    } else {
        head_tail_path(c, short)->0
    };
    safe_paths_stay_below(p);
    assert(lies_below(p));
}

} // verus!
