//! The knowledge base: statements for its SQLite database, the read-only query
//! tool and the schema tool.
//!
//! The database itself is run by the caller. This module says which statements
//! it runs, with which values, and what is answered to the rows that come back.

use vstd::prelude::*;
use vstd::string::*;
use vstd::utf8::is_ascii_chars;

use crate::json_model::{
    drop_member, empty_object, group_json, json_seq, key_index, lemma_drop_member, lemma_key_index,
    lemma_key_index_is, lemma_slot_index, member, members_of, set_member, set_member_reads_back,
    slot_index, Json, JsonView, Members,
};
use crate::json_text::{json_read, json_written, parse_json, print_json, Reading};
use crate::kb_schema::{listed_tables, listing, notes_of, purpose_of, table_meta, table_notes};
use crate::text::{
    after_prefix, ascii_lower, byte_len, char_is_ascii_alnum, chars_of, contains_char, cut_bytes,
    decimal, decimal_int, eq_ignore_ascii_case, first_from, head_within, i64_text, is_ascii_alnum,
    join, join_of, lemma_first_from, occurs_at, opt_str_view, opt_view, pairs_view, parse_i64,
    parsed_signed, replace, replaced, split_first, split_once, str_eq, str_or, string_of,
    strip_prefix, text_or, trim, trim_start, trimmed, trimmed_start, usize_text, utf8_len, views,
    words, words_of,
};

verus! {

broadcast use group_json;

// ---------------------------------------------------------------------------
// Statements
// ---------------------------------------------------------------------------

/// A value bound to a statement.
#[derive(Debug, PartialEq, Eq)]
pub enum Cell {
    Null,
    Text(String),
    Whole(i64),
    /// A JSON number, bound as a float.
    Number(Json),
}

/// What a bound value is.
pub enum CellView {
    Null,
    Text(Seq<char>),
    Whole(int),
    Number(JsonView),
}

impl View for Cell {
    type V = CellView;

    open spec fn view(&self) -> CellView {
        match *self {
            Cell::Null => CellView::Null,
            Cell::Text(s) => CellView::Text(s@),
            Cell::Whole(n) => CellView::Whole(n as int),
            Cell::Number(j) => CellView::Number(j@),
        }
    }
}

/// The contents of a list of bound values.
pub open spec fn cells_view(v: Seq<Cell>) -> Seq<CellView> {
    v.map_values(|c: Cell| c@)
}

/// A statement with the values bound to it, in order.
#[derive(Debug, PartialEq, Eq)]
pub struct Statement {
    pub sql: String,
    pub params: Vec<Cell>,
}

/// What a statement is.
pub struct StatementView {
    pub sql: Seq<char>,
    pub params: Seq<CellView>,
}

impl View for Statement {
    type V = StatementView;

    open spec fn view(&self) -> StatementView {
        StatementView { sql: self.sql@, params: cells_view(self.params@) }
    }
}

/// The contents of a list of statements.
pub open spec fn statements_view(v: Seq<Statement>) -> Seq<StatementView> {
    v.map_values(|s: Statement| s@)
}

/// A text, or nothing.
pub open spec fn text_cell(o: Option<Seq<char>>) -> CellView {
    match o {
        Some(s) => CellView::Text(s),
        None => CellView::Null,
    }
}

/// An integer, or nothing.
pub open spec fn whole_cell(o: Option<int>) -> CellView {
    match o {
        Some(n) => CellView::Whole(n),
        None => CellView::Null,
    }
}

/// The number named `k` of an item, or nothing.
pub open spec fn number_cell(item: JsonView, k: Seq<char>) -> CellView {
    match item.get(k) {
        Some(JsonView::Int(n)) => CellView::Number(JsonView::Int(n)),
        Some(JsonView::Real(s)) => CellView::Number(JsonView::Real(s)),
        _ => CellView::Null,
    }
}

impl Cell {
    /// A text.
    pub fn text(s: &str) -> (r: Cell)
        ensures
            r@ == CellView::Text(s@),
    {
        Cell::Text(s.to_owned())
    }

    /// A text, or nothing.
    pub fn opt_text(o: Option<&str>) -> (r: Cell)
        ensures
            r@ == text_cell(opt_str_view(o)),
    {
        match o {
            Some(s) => Cell::Text(s.to_owned()),
            None => Cell::Null,
        }
    }

    /// A text, or nothing.
    pub fn owned_text(o: &Option<String>) -> (r: Cell)
        ensures
            r@ == text_cell(opt_view(*o)),
    {
        match o {
            Some(s) => Cell::Text(s.clone()),
            None => Cell::Null,
        }
    }

    /// The integer named `k` of an item, or nothing.
    pub fn whole_at(item: &Json, k: &str) -> (r: Cell)
        ensures
            r@ == whole_cell(item@.i64_at(k@)),
    {
        match item.i64_at(k) {
            Some(n) => Cell::Whole(n),
            None => Cell::Null,
        }
    }

    /// The number named `k` of an item, or nothing.
    pub fn number_at(item: &Json, k: &str) -> (r: Cell)
        ensures
            r@ == number_cell(item@, k@),
    {
        match item.get(k) {
            Some(v) => match v {
                Json::Unsigned(n) => Cell::Number(Json::Unsigned(*n)),
                Json::Signed(n) => Cell::Number(Json::Signed(*n)),
                Json::Real(s) => Cell::Number(Json::Real(s.clone())),
                _ => Cell::Null,
            },
            None => Cell::Null,
        }
    }
}

// ---------------------------------------------------------------------------
// Small helpers
// ---------------------------------------------------------------------------

/// Bytes that a query answers at most, where nothing is configured.
pub const DEFAULT_MAX_BYTES: usize = 65536;

/// The configured limit, or the default for zero.
pub fn raw_max_bytes(configured: usize) -> (r: usize)
    ensures
        r == (if configured == 0 {
            DEFAULT_MAX_BYTES
        } else {
            configured
        }),
{
    if configured == 0 {
        DEFAULT_MAX_BYTES
    } else {
        configured
    }
}

/// A lower-case hexadecimal digit.
pub open spec fn hex_digit(n: int) -> char {
    if n < 10 {
        (('0' as int) + n) as char
    } else {
        (('a' as int) + n - 10) as char
    }
}

/// The first `n` bytes in lower-case hexadecimal.
pub open spec fn hex_of(bytes: Seq<u8>, n: int) -> Seq<char>
    decreases n,
{
    if n <= 0 {
        Seq::empty()
    } else {
        hex_of(bytes, n - 1).push(hex_digit(bytes[n - 1] as int / 16)).push(
            hex_digit(bytes[n - 1] as int % 16),
        )
    }
}

fn hex_char(n: u8) -> (r: char)
    requires
        n < 16,
    ensures
        r == hex_digit(n as int),
{
    if n < 10 {
        (48u8 + n) as char
    } else {
        (87u8 + n) as char
    }
}

/// The first `n` bytes in lower-case hexadecimal.
pub fn hex(bytes: &Vec<u8>, n: usize) -> (r: String)
    requires
        n <= bytes@.len(),
    ensures
        r@ == hex_of(bytes@, n as int),
        r@.len() == 2 * n,
{
    let mut s = String::new();
    let mut i: usize = 0;
    proof {
        assert(s@ =~= hex_of(bytes@, 0));
    }
    while i < n
        invariant
            i <= n <= bytes@.len(),
            s@ == hex_of(bytes@, i as int),
            s@.len() == 2 * i,
        decreases n - i,
    {
        s.push(hex_char(bytes[i] / 16));
        s.push(hex_char(bytes[i] % 16));
        i = i + 1;
    }
    s
}

/// The SHA-256 digest of a sequence of bytes.
pub uninterp spec fn sha256_of(bytes: Seq<u8>) -> Seq<u8>;

/// `sha2::Sha256::digest`: 32 bytes that depend on the input alone.
#[verifier::external_body]
pub(crate) fn sha256(bytes: &[u8]) -> (r: Vec<u8>)
    ensures
        r@ == sha256_of(bytes@),
        r@.len() == 32,
{
    <sha2::Sha256 as sha2::Digest>::digest(bytes).to_vec()
}

/// The digest of a content, in hexadecimal.
pub open spec fn content_hash(bytes: Seq<u8>) -> Seq<char> {
    hex_of(sha256_of(bytes), 32)
}

/// The digest of a text, in hexadecimal.
pub open spec fn text_hash(s: Seq<char>) -> Seq<char> {
    content_hash(vstd::utf8::encode_utf8(s))
}

/// The digest of a content, in hexadecimal.
pub fn sha256_bytes(bytes: &Vec<u8>) -> (r: String)
    ensures
        r@ == content_hash(bytes@),
        r@.len() == 64,
{
    let d = sha256(bytes.as_slice());
    hex(&d, 32)
}

/// The digest of a text, in hexadecimal.
pub fn sha256_hex(s: &str) -> (r: String)
    ensures
        r@ == text_hash(s@),
        r@.len() == 64,
{
    let d = sha256(s.as_bytes());
    hex(&d, 32)
}

/// What `UnicodeNormalization::nfkc` gives.
pub uninterp spec fn compatibility_form(s: Seq<char>) -> Seq<char>;

/// The NFKC form of a text; an ASCII text has this form already.
pub open spec fn nfkc_of(s: Seq<char>) -> Seq<char> {
    if is_ascii_chars(s) {
        s
    } else {
        compatibility_form(s)
    }
}

/// `unicode_normalization::UnicodeNormalization::nfkc`: the NFKC form, a
/// function of the text alone. ASCII characters neither decompose nor compose,
/// so that an ASCII text stays as it is.
#[verifier::external_body]
pub(crate) fn nfkc(s: &str) -> (r: String)
    ensures
        r@ == compatibility_form(s@),
        is_ascii_chars(s@) ==> r@ == s@,
{
    unicode_normalization::UnicodeNormalization::nfkc(s).collect()
}

/// A character of a directory name: itself where it is safe there.
pub open spec fn safe_char(c: char) -> char {
    if is_ascii_alnum(c) || c == '.' || c == '-' || c == '_' {
        c
    } else {
        '_'
    }
}

/// The first 64 characters of a path, made safe for a directory name.
pub open spec fn safe_name(path: Seq<char>) -> Seq<char> {
    Seq::new(
        if path.len() <= 64 {
            path.len()
        } else {
            64
        },
        |i: int| safe_char(path[i]),
    )
}

/// The name of the library of a working directory whose path has a digest.
pub open spec fn library_named(path: Seq<char>, digest: Seq<u8>) -> Seq<char> {
    "kb-"@ + safe_name(path) + "-"@ + hex_of(digest, 8)
}

/// The name of the library of a working directory whose path has a digest.
pub fn library_name_of(path: &str, digest: &Vec<u8>) -> (r: String)
    requires
        digest@.len() == 32,
    ensures
        r@ == library_named(path@, digest@),
{
    let cs = chars_of(path);
    let mut safe = String::new();
    let mut i: usize = 0;
    while i < cs.len() && i < 64
        invariant
            cs@ == path@,
            i <= cs@.len(),
            i <= 64,
            safe@ =~= Seq::new(i as nat, |k: int| safe_char(path@[k])),
        decreases 64 - i,
    {
        let c = cs[i];
        if char_is_ascii_alnum(c) || c == '.' || c == '-' || c == '_' {
            safe.push(c);
        } else {
            safe.push('_');
        }
        i = i + 1;
    }
    proof {
        assert(safe@ =~= safe_name(path@));
    }
    let h = hex(digest, 8);
    let mut s = String::from_str("kb-");
    s.append(safe.as_str());
    s.append("-");
    s.append(h.as_str());
    s
}

/// The name of the library of a working directory: one per directory, so that
/// the library stays outside the workspace.
pub fn library_name(path: &str) -> (r: String)
    ensures
        r@ == library_named(path@, sha256_of(vstd::utf8::encode_utf8(path@))),
{
    let d = sha256(path.as_bytes());
    library_name_of(path, &d)
}

/// The object that a text holds; the object without members where it holds
/// none.
pub open spec fn object_read(reading: Reading) -> JsonView {
    match reading {
        Reading::Value(JsonView::Object(m)) => JsonView::Object(m),
        _ => empty_object(),
    }
}

/// What a reader found, as the library holds it.
pub open spec fn reading_of(r: Result<Json, String>) -> Reading {
    match r {
        Ok(j) => Reading::Value(j@),
        Err(e) => Reading::Malformed(e@),
    }
}

/// The object that was read; the object without members where none was.
pub fn read_object(r: Result<Json, String>) -> (o: Json)
    ensures
        o@ == object_read(reading_of(r)),
        o is Object,
{
    match r {
        Ok(j) => match j {
            Json::Object(m) => Json::Object(m),
            _ => Json::object(),
        },
        Err(_) => Json::object(),
    }
}

/// The object that a text holds.
pub fn parse_json_obj(s: &str) -> (r: Json)
    ensures
        r@ == object_read(json_read(s@)),
        r is Object,
{
    let read = parse_json(s);
    read_object(read)
}

/// The members after the first `n` of a patch: a null removes its key.
pub open spec fn patched(target: Members, patch: Members, n: int) -> Members
    decreases n,
{
    if n <= 0 {
        target
    } else {
        let m = patched(target, patch, n - 1);
        if patch[n - 1].1 is Null {
            drop_member(m, patch[n - 1].0)
        } else {
            set_member(m, patch[n - 1].0, patch[n - 1].1)
        }
    }
}

/// The error on a patch that is no object.
pub const NO_OBJECT: &'static str = "[KB_EXEC_ERROR] attributes / annotations must be JSON objects.";

/// An object with a patch merged into it.
pub open spec fn merged(target: JsonView, patch: JsonView) -> Result<JsonView, Seq<char>> {
    match (target, patch) {
        (JsonView::Object(t), JsonView::Object(p)) => Ok(
            JsonView::Object(patched(t, p, p.len() as int)),
        ),
        _ => Err(NO_OBJECT@),
    }
}

/// The outcome of a step that gives a JSON value.
pub open spec fn json_outcome(r: Result<Json, String>) -> Result<JsonView, Seq<char>> {
    match r {
        Ok(j) => Ok(j@),
        Err(e) => Err(e@),
    }
}

/// Merges a patch into an object; a null value removes its key.
pub fn merge_json_obj(target: Json, patch: &Json) -> (r: Result<Json, String>)
    requires
        target is Object,
    ensures
        json_outcome(r) == merged(target@, patch@),
        r is Ok ==> r->Ok_0 is Object,
{
    let p = match patch {
        Json::Object(p) => p,
        _ => {
            return Err(NO_OBJECT.to_owned());
        },
    };
    let mut out = target;
    let ghost t = target@->Object_0;
    let ghost m = members_of(p@);
    let mut i: usize = 0;
    while i < p.len()
        invariant
            i <= p@.len(),
            m == members_of(p@),
            out is Object,
            out@ == JsonView::Object(patched(t, m, i as int)),
        decreases p@.len() - i,
    {
        match &p[i].1 {
            Json::Null => {
                out = out.without(p[i].0.as_str());
            },
            v => {
                out = out.with(p[i].0.as_str(), v.copy());
            },
        }
        i = i + 1;
    }
    Ok(out)
}

/// The text of a value.
pub open spec fn value_text(v: Option<JsonView>) -> Option<Seq<char>> {
    match v {
        Some(j) => Some(json_written(j)),
        None => None,
    }
}

/// The compact text of a value.
pub fn json_to_text(v: Option<&Json>) -> (r: Option<String>)
    ensures
        opt_view(r) == value_text(crate::json_model::opt_json(v)),
{
    match v {
        Some(j) => Some(print_json(j)),
        None => None,
    }
}

/// An identifier in double quotes, its own quotes doubled.
pub open spec fn quoted(s: Seq<char>) -> Seq<char> {
    "\""@ + replaced(s, "\""@, "\"\""@) + "\""@
}

/// Quotes an identifier for a statement.
pub fn quote_ident(s: &str) -> (r: String)
    ensures
        r@ == quoted(s@),
{
    proof {
        reveal_strlit("\"");
    }
    let inner = replace(s, "\"", "\"\"");
    let mut out = String::from_str("\"");
    out.append(inner.as_str());
    out.append("\"");
    out
}

/// Doubles the single quotes of a text for a statement.
pub fn escape_sql_string(s: &str) -> (r: String)
    ensures
        r@ == replaced(s@, "'"@, "''"@),
{
    proof {
        reveal_strlit("'");
    }
    replace(s, "'", "''")
}


/// Whether no key occurs twice.
pub open spec fn distinct_keys(m: Members) -> bool {
    forall|i: int, j: int| 0 <= i < j < m.len() ==> (#[trigger] m[i]).0 != (#[trigger] m[j]).0
}

proof fn lemma_patch_keeps_distinct(m: Members, k: Seq<char>, v: JsonView)
    requires
        distinct_keys(m),
    ensures
        distinct_keys(set_member(m, k, v)),
        distinct_keys(drop_member(m, k)),
        member(drop_member(m, k), k) is None,
{
    lemma_key_index(m, k, 0);
    lemma_slot_index(m, k, 0);
    let i = key_index(m, k, 0);
    let d = drop_member(m, k);
    assert forall|x: int| 0 <= x < d.len() implies d[x].0 != k by {
        if i < m.len() {
            if x < i {
                assert(d[x] == m[x]);
            } else {
                assert(d[x] == m[x + 1]);
            }
        }
    }
    lemma_key_index_is(d, k, 0, d.len() as int);
    assert(distinct_keys(d)) by {
        if i < m.len() {
            assert forall|x: int, y: int| 0 <= x < y < d.len() implies (#[trigger] d[x]).0 != (
            #[trigger] d[y]).0 by {
                let a = if x < i {
                    x
                } else {
                    x + 1
                };
                let b = if y < i {
                    y
                } else {
                    y + 1
                };
                assert(d[x] == m[a] && d[y] == m[b]);
            }
        }
    }
    let n = set_member(m, k, v);
    assert(distinct_keys(n)) by {
        if i < m.len() {
            assert forall|x: int, y: int| 0 <= x < y < n.len() implies (#[trigger] n[x]).0 != (
            #[trigger] n[y]).0 by {
                assert(n[x].0 == m[x].0 && n[y].0 == m[y].0);
            }
        } else {
            let at = slot_index(m, k, 0);
            assert forall|x: int, y: int| 0 <= x < y < n.len() implies (#[trigger] n[x]).0 != (
            #[trigger] n[y]).0 by {
                if x < at {
                    assert(n[x] == m[x]);
                } else if x > at {
                    assert(n[x] == m[x - 1]);
                }
                if y < at {
                    assert(n[y] == m[y]);
                } else if y > at {
                    assert(n[y] == m[y - 1]);
                }
            }
        }
    }
}

proof fn lemma_patched(target: Members, patch: Members, n: int, k: Seq<char>)
    requires
        distinct_keys(target),
        distinct_keys(patch),
        0 <= n <= patch.len(),
    ensures
        distinct_keys(patched(target, patch, n)),
        ({
            let i = key_index(patch, k, 0);
            let got = member(patched(target, patch, n), k);
            if i < n {
                got == if patch[i].1 is Null {
                    None
                } else {
                    Some(patch[i].1)
                }
            } else {
                got == member(target, k)
            }
        }),
    decreases n,
{
    lemma_key_index(patch, k, 0);
    if n > 0 {
        lemma_patched(target, patch, n - 1, k);
        let m = patched(target, patch, n - 1);
        let key = patch[n - 1].0;
        lemma_patch_keeps_distinct(m, key, patch[n - 1].1);
        set_member_reads_back(m, key, patch[n - 1].1, k);
        if k != key {
            lemma_drop_member(m, key, k);
        } else {
            lemma_key_index_is(patch, k, 0, n - 1);
        }
    }
}

/// Merging a patch sets every key that the patch gives a value, removes every
/// key that the patch gives a null, and leaves every other key as it was.
pub proof fn merge_sets_removes_and_keeps(target: Members, patch: Members, k: Seq<char>)
    requires
        distinct_keys(target),
        distinct_keys(patch),
    ensures
        ({
            let result = merged(JsonView::Object(target), JsonView::Object(patch));
            &&& result is Ok
            &&& match member(patch, k) {
                None => result->Ok_0.get(k) == member(target, k),
                Some(v) => if v is Null {
                    result->Ok_0.get(k) is None
                } else {
                    result->Ok_0.get(k) == Some(v)
                },
            }
        }),
{
    lemma_key_index(patch, k, 0);
    lemma_patched(target, patch, patch.len() as int, k);
}

// ---------------------------------------------------------------------------
// Read-only queries
// ---------------------------------------------------------------------------

/// What a query begins with, after its leading comments.
pub enum Leading {
    /// The query itself.
    Query(Seq<char>),
    Nothing,
    /// A line comment that no line follows.
    OnlyComments,
    /// A block comment without an end.
    Unclosed,
}

/// A query without its leading blanks and comments.
pub open spec fn without_comments(s: Seq<char>) -> Leading
    decreases s.len(),
{
    let t = trimmed_start(s);
    if t.len() == 0 {
        Leading::Nothing
    } else {
        match after_prefix(t, "--"@) {
            Some(rest) => match split_first(rest, "\n"@) {
                Some(p) => if p.1.len() < s.len() {
                    without_comments(p.1)
                } else {
                    Leading::Nothing
                },
                None => Leading::OnlyComments,
            },
            None => match after_prefix(t, "/*"@) {
                Some(rest) => match split_first(rest, "*/"@) {
                    Some(p) => if p.1.len() < s.len() {
                        without_comments(p.1)
                    } else {
                        Leading::Nothing
                    },
                    None => Leading::Unclosed,
                },
                None => Leading::Query(t),
            },
        }
    }
}

pub const EMPTY_QUERY: &'static str = "[KB_READONLY_VIOLATION] Empty query. Write operations are not allowed. Only SELECT/WITH/EXPLAIN are permitted.";

pub const COMMENT_QUERY: &'static str = "[KB_READONLY_VIOLATION] Query contains only comments. Only SELECT/WITH/EXPLAIN are permitted.";

pub const UNCLOSED_COMMENT: &'static str = "[KB_READONLY_VIOLATION] Unclosed block comment.";

pub const WRITE_QUERY: &'static str = "[KB_READONLY_VIOLATION] Write operations are not allowed. Only SELECT/WITH/EXPLAIN are permitted. Rewrite your query as a read-only operation.";

/// Whether a keyword, in any letter case, begins a query that only reads.
pub open spec fn reads_only(keyword: Seq<char>) -> bool {
    let k = ascii_lower(keyword);
    k == ascii_lower("SELECT"@) || k == ascii_lower("WITH"@) || k == ascii_lower("EXPLAIN"@)
}

/// A character of a keyword or a name in a query.
pub open spec fn is_name_char(c: char) -> bool {
    is_ascii_alnum(c) || c == '_' || c == '$' || c as u32 > 127
}

/// End of the run of name characters that starts at `i`.
pub open spec fn name_end(s: Seq<char>, i: int) -> int
    decreases s.len() - i,
{
    if 0 <= i < s.len() && is_name_char(s[i]) {
        name_end(s, i + 1)
    } else {
        i
    }
}

/// The keyword that a query begins with, whatever follows it.
pub open spec fn first_keyword(s: Seq<char>) -> Seq<char> {
    s.subrange(0, name_end(s, 0))
}

/// Why a query is refused.
pub open spec fn query_refusal(query: Seq<char>) -> Option<Seq<char>> {
    match without_comments(query) {
        Leading::Nothing => Some(EMPTY_QUERY@),
        Leading::OnlyComments => Some(COMMENT_QUERY@),
        Leading::Unclosed => Some(UNCLOSED_COMMENT@),
        Leading::Query(t) => if reads_only(first_keyword(t)) {
            None
        } else {
            Some(WRITE_QUERY@)
        },
    }
}

/// Whether a keyword, in any letter case, begins a query that only reads.
pub fn keyword_reads_only(keyword: &str) -> (r: bool)
    ensures
        r == reads_only(keyword@),
{
    eq_ignore_ascii_case(keyword, "SELECT") || eq_ignore_ascii_case(keyword, "WITH")
        || eq_ignore_ascii_case(keyword, "EXPLAIN")
}

fn keyword_of(s: &str) -> (r: String)
    ensures
        r@ == first_keyword(s@),
{
    let cs = chars_of(s);
    let mut i: usize = 0;
    while i < cs.len() && (char_is_ascii_alnum(cs[i]) || cs[i] == '_' || cs[i] == '$' || cs[i] as u32
        > 127)
        invariant
            cs@ == s@,
            i <= cs@.len(),
            name_end(s@, i as int) == name_end(s@, 0),
        decreases cs@.len() - i,
    {
        i = i + 1;
    }
    string_of(&cs, 0, i)
}

/// The refusal of a query; `None` where it is admitted. A query is admitted
/// where its first keyword after the leading comments is a reading one.
pub fn sanitize_query(query: &str) -> (r: Option<&'static str>)
    ensures
        opt_str_view(r) == query_refusal(query@),
{
    let mut s: &str = query;
    loop
        invariant
            without_comments(s@) == without_comments(query@),
        decreases s@.len(),
    {
        let ghost before = s@;
        let t = trim_start(s);
        proof {
            crate::text::lemma_space_end(before, 0);
            reveal_strlit("--");
            reveal_strlit("/*");
        }
        if t.is_empty() {
            return Some(EMPTY_QUERY);
        }
        match strip_prefix(t, "--") {
            Some(rest) => {
                match split_once(rest, "\n") {
                    Some((_, after)) => {
                        proof {
                            crate::text::lemma_first_from(rest@, "\n"@, 0);
                        }
                        s = after;
                    },
                    None => {
                        return Some(COMMENT_QUERY);
                    },
                }
            },
            None => match strip_prefix(t, "/*") {
                Some(rest) => {
                    match split_once(rest, "*/") {
                        Some((_, after)) => {
                            proof {
                                crate::text::lemma_first_from(rest@, "*/"@, 0);
                            }
                            s = after;
                        },
                        None => {
                            return Some(UNCLOSED_COMMENT);
                        },
                    }
                },
                None => {
                    let first = keyword_of(t);
                    if keyword_reads_only(first.as_str()) {
                        return None;
                    }
                    return Some(WRITE_QUERY);
                },
            },
        }
    }
}

/// A line comment before a query decides nothing.
pub proof fn line_comments_decide_nothing(comment: Seq<char>, query: Seq<char>)
    requires
        !comment.contains('\n'),
    ensures
        query_refusal("--"@ + comment + "\n"@ + query) == query_refusal(query),
{
    reveal_strlit("--");
    reveal_strlit("\n");
    let s = "--"@ + comment + "\n"@ + query;
    let rest = comment + "\n"@ + query;
    assert(s[0] == '-');
    assert(crate::text::space_end(s, 0) == 0);
    assert(trimmed_start(s) =~= s);
    assert(s.subrange(0, 2) =~= "--"@);
    assert(s.skip(2) =~= rest);
    assert(after_prefix(s, "--"@) == Some(rest));
    let at = comment.len() as int;
    assert(rest.subrange(at, at + 1) =~= "\n"@);
    assert forall|k: int| 0 <= k < at implies !occurs_at(rest, "\n"@, k) by {
        assert(rest[k] == comment[k]);
        assert(comment.contains(comment[k]));
        if occurs_at(rest, "\n"@, k) {
            assert(rest.subrange(k, k + 1)[0] == rest[k]);
            assert("\n"@[0] == '\n');
        }
    }
    lemma_first_from(rest, "\n"@, 0);
    assert(occurs_at(rest, "\n"@, at));
    assert(first_from(rest, "\n"@, 0) == Some(at));
    assert(rest.skip(at + 1) =~= query);
    assert(query.len() < s.len());
}

/// A query is admitted just where it begins, after its comments, with a keyword
/// that reads.
pub proof fn admitted_queries_read(query: Seq<char>)
    ensures
        query_refusal(query) is None <==> {
            &&& without_comments(query) is Query
            &&& reads_only(first_keyword(without_comments(query)->Query_0))
        },
{
}

// ---------------------------------------------------------------------------
// Rows
// ---------------------------------------------------------------------------

/// A value that the database answered.
#[derive(Debug, PartialEq, Eq)]
pub enum DbValue {
    Null,
    Whole(i64),
    /// A float, as it is shown and as JSON writes it; JSON has none that is not
    /// finite.
    Real { shown: String, json: Option<String> },
    Text(String),
    /// Bytes, by their number.
    Blob(usize),
}

/// A blob as it is shown.
pub open spec fn blob_text(n: nat) -> Seq<char> {
    "<blob "@ + decimal(n) + " bytes>"@
}

/// A value as a field of a table.
pub open spec fn shown_value(v: DbValue) -> Seq<char> {
    match v {
        DbValue::Null => Seq::empty(),
        DbValue::Whole(n) => decimal_int(n as int),
        DbValue::Real { shown, json: _ } => shown@,
        DbValue::Text(t) => t@,
        DbValue::Blob(n) => blob_text(n as nat),
    }
}

/// A value as JSON.
pub open spec fn json_of_db(v: DbValue) -> JsonView {
    match v {
        DbValue::Null => JsonView::Null,
        DbValue::Whole(n) => JsonView::Int(n as int),
        DbValue::Real { shown: _, json } => match json {
            Some(t) => JsonView::Real(t@),
            None => JsonView::Null,
        },
        DbValue::Text(t) => JsonView::Str(t@),
        DbValue::Blob(n) => JsonView::Str(blob_text(n as nat)),
    }
}

fn blob_label(n: usize) -> (r: String)
    ensures
        r@ == blob_text(n as nat),
{
    let mut s = String::from_str("<blob ");
    let d = usize_text(n);
    s.append(d.as_str());
    s.append(" bytes>");
    s
}

impl DbValue {
    /// The value as a field of a table.
    pub fn shown(&self) -> (r: String)
        ensures
            r@ == shown_value(*self),
    {
        match self {
            DbValue::Null => {
                let s = String::new();
                proof {
                    assert(s@ =~= Seq::<char>::empty());
                }
                s
            },
            DbValue::Whole(n) => i64_text(*n),
            DbValue::Real { shown, json: _ } => shown.clone(),
            DbValue::Text(t) => t.clone(),
            DbValue::Blob(n) => blob_label(*n),
        }
    }

    /// The value as JSON.
    pub fn to_json(&self) -> (r: Json)
        ensures
            r@ == json_of_db(*self),
    {
        match self {
            DbValue::Null => Json::Null,
            DbValue::Whole(n) => Json::number(*n),
            DbValue::Real { shown: _, json } => match json {
                Some(t) => Json::Real(t.clone()),
                None => Json::Null,
            },
            DbValue::Text(t) => Json::Str(t.clone()),
            DbValue::Blob(n) => Json::Str(blob_label(*n)),
        }
    }
}

/// Whether a field is written in quotes.
pub open spec fn needs_quotes(f: Seq<char>) -> bool {
    f.contains(',') || f.contains('"') || f.contains('\n') || f.contains('\r')
}

/// A field as CSV writes it.
pub open spec fn csv_field(f: Seq<char>) -> Seq<char> {
    if needs_quotes(f) {
        quoted(f)
    } else {
        f
    }
}

/// A record as CSV writes it.
pub open spec fn csv_record(fields: Seq<Seq<char>>) -> Seq<char> {
    join_of(fields.map_values(|f: Seq<char>| csv_field(f)), ","@)
}

/// Joins fields to a CSV record.
pub fn csv_join(fields: &Vec<String>) -> (r: String)
    ensures
        r@ == csv_record(views(fields@)),
{
    let mut out: Vec<String> = Vec::new();
    let mut i: usize = 0;
    while i < fields.len()
        invariant
            i <= fields@.len(),
            out@.len() == i,
            forall|k: int| 0 <= k < i ==> (#[trigger] out@[k])@ == csv_field(fields@[k]@),
        decreases fields@.len() - i,
    {
        let f = fields[i].as_str();
        if contains_char(f, ',') || contains_char(f, '"') || contains_char(f, '\n')
            || contains_char(f, '\r') {
            out.push(quote_ident(f));
        } else {
            out.push(f.to_owned());
        }
        i = i + 1;
    }
    proof {
        assert(views(out@) =~= views(fields@).map_values(|f: Seq<char>| csv_field(f)));
    }
    join(&out, ",")
}

/// The fields of a row.
pub open spec fn shown_row(row: Seq<DbValue>) -> Seq<Seq<char>> {
    row.map_values(|v: DbValue| shown_value(v))
}

/// A table of rows as CSV: the header and the first `n` rows, a line each.
pub open spec fn csv_table(headers: Seq<Seq<char>>, rows: Seq<Vec<DbValue>>, n: int) -> Seq<char>
    decreases n,
{
    if n <= 0 {
        csv_record(headers).push('\n')
    } else {
        (csv_table(headers, rows, n - 1) + csv_record(shown_row(rows[n - 1]@))).push('\n')
    }
}

/// Renders rows as CSV with a header line.
pub fn rows_to_csv(headers: &Vec<String>, rows: &Vec<Vec<DbValue>>) -> (r: String)
    ensures
        r@ == csv_table(views(headers@), rows@, rows@.len() as int),
{
    let mut out = csv_join(headers);
    out.push('\n');
    let mut i: usize = 0;
    while i < rows.len()
        invariant
            i <= rows@.len(),
            out@ == csv_table(views(headers@), rows@, i as int),
        decreases rows@.len() - i,
    {
        let row = &rows[i];
        let mut vals: Vec<String> = Vec::new();
        let mut k: usize = 0;
        while k < row.len()
            invariant
                k <= row@.len(),
                vals@.len() == k,
                forall|x: int| 0 <= x < k ==> (#[trigger] vals@[x])@ == shown_value(row@[x]),
            decreases row@.len() - k,
        {
            vals.push(row[k].shown());
            k = k + 1;
        }
        proof {
            assert(views(vals@) =~= shown_row(row@));
        }
        let line = csv_join(&vals);
        out.append(line.as_str());
        out.push('\n');
        i = i + 1;
    }
    out
}

/// A result cut at a number of bytes, with a notice where something is missing.
pub open spec fn truncated(body: Seq<char>, max: nat) -> Seq<char> {
    if utf8_len(body) <= max {
        body
    } else {
        head_within(body, max) + "\n[KB_TRUNCATED] Result truncated at "@ + decimal(max)
            + " bytes. Use tighter WHERE filters, GROUP BY aggregation, or smaller LIMIT to retrieve complete data."@
    }
}

/// Cuts a result at a number of bytes, at an edge between characters.
pub fn truncate_body(body: &str, max_bytes: usize) -> (r: String)
    ensures
        r@ == truncated(body@, max_bytes as nat),
{
    if byte_len(body) <= max_bytes {
        return body.to_owned();
    }
    let head = cut_bytes(body, max_bytes);
    let mut s = head.to_owned();
    s.append("\n[KB_TRUNCATED] Result truncated at ");
    let d = usize_text(max_bytes);
    s.append(d.as_str());
    s.append(
        " bytes. Use tighter WHERE filters, GROUP BY aggregation, or smaller LIMIT to retrieve complete data.",
    );
    s
}

/// The answer to a query: its rows as CSV, within the limit.
pub fn search_answer(headers: &Vec<String>, rows: &Vec<Vec<DbValue>>, max_bytes: usize) -> (r: Json)
    ensures
        r@ == empty_object().with(
            "content"@,
            JsonView::Str(
                truncated(
                    csv_table(views(headers@), rows@, rows@.len() as int),
                    max_bytes as nat,
                ),
            ),
        ),
{
    let csv = rows_to_csv(headers, rows);
    Json::object().with("content", Json::Str(truncate_body(csv.as_str(), max_bytes)))
}

/// The error on a query that cannot be prepared.
pub fn syntax_error(why: &str) -> (r: String)
    ensures
        r@ == "[KB_SYNTAX_ERROR] Query syntax error: "@ + why@
            + ". Check your SQL syntax and try again (use data_kb_schema to confirm table/column names)."@,
{
    let mut s = String::from_str("[KB_SYNTAX_ERROR] Query syntax error: ");
    s.append(why);
    s.append(
        ". Check your SQL syntax and try again (use data_kb_schema to confirm table/column names).",
    );
    s
}

/// The error on a query that fails while it runs.
pub fn execution_error(why: &str) -> (r: String)
    ensures
        r@ == "[KB_EXEC_ERROR] Execution error: "@ + why@
            + ". Verify table/column names exist (use data_kb_schema to check) and that you are not writing (INSERT/UPDATE/DELETE)."@,
{
    let mut s = String::from_str("[KB_EXEC_ERROR] Execution error: ");
    s.append(why);
    s.append(
        ". Verify table/column names exist (use data_kb_schema to check) and that you are not writing (INSERT/UPDATE/DELETE).",
    );
    s
}

// ---------------------------------------------------------------------------
// Schema
// ---------------------------------------------------------------------------

/// Asks for the row statistics of the database.
pub const STATISTICS_QUERY: &'static str = "SELECT tbl, stat FROM sqlite_stat1";

/// Asks whether a table or view exists.
pub const EXISTS_QUERY: &'static str = "SELECT EXISTS(SELECT 1 FROM sqlite_master WHERE name = ?1 AND type IN ('table','view'))";

/// The first number of a statistic.
pub open spec fn stat_rows(stat: Seq<char>) -> Option<int> {
    parsed_signed(
        if words_of(stat).len() > 0 {
            words_of(stat)[0]
        } else {
            "0"@
        },
        0x7fff_ffff_ffff_ffff,
    )
}

/// The number of rows that the statistics from row `i` on give a table: the
/// first that can be read, or zero.
pub open spec fn approx_rows(stats: Seq<(Seq<char>, Seq<char>)>, name: Seq<char>, i: int) -> int
    decreases stats.len() - i,
{
    if i < 0 || i >= stats.len() {
        0
    } else if stats[i].0 == name && stat_rows(stats[i].1) is Some {
        stat_rows(stats[i].1)->0
    } else {
        approx_rows(stats, name, i + 1)
    }
}

/// The approximate number of rows of a table, by the database's statistics.
pub fn approx_row_count(stats: &Vec<(String, String)>, name: &str) -> (r: i64)
    ensures
        r == approx_rows(pairs_view(stats@), name@, 0),
{
    let ghost pairs = pairs_view(stats@);
    let mut i: usize = 0;
    while i < stats.len()
        invariant
            i <= stats@.len(),
            pairs == pairs_view(stats@),
            approx_rows(pairs, name@, i as int) == approx_rows(pairs, name@, 0),
        decreases stats@.len() - i,
    {
        if str_eq(stats[i].0.as_str(), name) {
            let list = words(stats[i].1.as_str());
            let n = if list.len() > 0 {
                proof {
                    assert(views(list@)[0] == list@[0]@);
                }
                parse_i64(list[0].as_str())
            } else {
                parse_i64("0")
            };
            match n {
                Some(k) => {
                    return k;
                },
                None => {},
            }
        }
        i = i + 1;
    }
    0
}

/// One entry of the list of tables.
pub open spec fn table_entry(
    name: Seq<char>,
    kind: Seq<char>,
    stats: Seq<(Seq<char>, Seq<char>)>,
) -> JsonView {
    empty_object().with("name"@, JsonView::Str(name)).with("type"@, JsonView::Str(kind)).with(
        "purpose"@,
        JsonView::Str(text_or(purpose_of(name), ""@)),
    ).with("approx_rows"@, JsonView::Int(approx_rows(stats, name, 0)))
}

/// The list of tables.
pub open spec fn table_entries(stats: Seq<(Seq<char>, Seq<char>)>) -> Seq<JsonView> {
    listing().map_values(|p: (Seq<char>, Seq<char>)| table_entry(p.0, p.1, stats))
}

/// The answer without a table name: every table and view, with its purpose and
/// its approximate number of rows.
pub fn list_tables(stats: &Vec<(String, String)>) -> (r: Json)
    ensures
        r@ == empty_object().with("status"@, JsonView::Str("ok"@)).with(
            "tables"@,
            JsonView::Array(table_entries(pairs_view(stats@))),
        ),
{
    let tables = listed_tables();
    let mut items: Vec<Json> = Vec::new();
    let mut i: usize = 0;
    while i < tables.len()
        invariant
            i <= tables@.len(),
            items@.len() == i,
            forall|k: int|
                0 <= k < i ==> (#[trigger] items@[k])@ == table_entry(
                    tables@[k].0@,
                    tables@[k].1@,
                    pairs_view(stats@),
                ),
        decreases tables@.len() - i,
    {
        let name = tables[i].0.as_str();
        let purpose = str_or(table_meta(name), "");
        let entry = Json::object().with("name", Json::text(name)).with(
            "type",
            Json::text(tables[i].1.as_str()),
        ).with("purpose", Json::text(purpose)).with(
            "approx_rows",
            Json::number(approx_row_count(stats, name)),
        );
        items.push(entry);
        i = i + 1;
    }
    proof {
        assert forall|k: int| 0 <= k < items@.len() implies (#[trigger] items@[k])@
            == table_entries(pairs_view(stats@))[k] by {
            assert(pairs_view(tables@)[k] == listing()[k]);
        }
        assert(tables@.len() == pairs_view(tables@).len());
        assert(json_seq(items@) =~= table_entries(pairs_view(stats@)));
    }
    Json::object().with("status", Json::text("ok")).with("tables", Json::Array(items))
}

/// The name of the table to describe; `None` where all are to be listed.
pub open spec fn asked_table(table: Option<Seq<char>>) -> Option<Seq<char>> {
    match table {
        Some(t) => if trimmed(t).len() > 0 {
            Some(trimmed(t))
        } else {
            None
        },
        None => None,
    }
}

/// The name of the table to describe; `None` where all are to be listed.
pub fn requested_table<'a>(table: Option<&'a str>) -> (r: Option<&'a str>)
    ensures
        opt_str_view(r) == asked_table(opt_str_view(table)),
{
    match table {
        Some(t) => {
            let t = trim(t);
            if t.is_empty() {
                None
            } else {
                Some(t)
            }
        },
        None => None,
    }
}

/// The error on a table that does not exist.
pub fn table_not_found(name: &str) -> (r: String)
    ensures
        r@ == "[KB_EXEC_ERROR] Table or view not found: '"@ + name@
            + "'. Verify the name (use data_kb_schema with no table to list all)."@,
{
    let mut s = String::from_str("[KB_EXEC_ERROR] Table or view not found: '");
    s.append(name);
    s.append("'. Verify the name (use data_kb_schema with no table to list all).");
    s
}

/// Asks for the columns of a table.
pub fn columns_query(name: &str) -> (r: String)
    ensures
        r@ == "PRAGMA table_info("@ + quoted(name@) + ")"@,
{
    let q = quote_ident(name);
    let mut s = String::from_str("PRAGMA table_info(");
    s.append(q.as_str());
    s.append(")");
    s
}

/// Asks for a few rows of a table.
pub fn samples_query(name: &str) -> (r: String)
    ensures
        r@ == "SELECT * FROM "@ + quoted(name@) + " LIMIT 3"@,
{
    let q = quote_ident(name);
    let mut s = String::from_str("SELECT * FROM ");
    s.append(q.as_str());
    s.append(" LIMIT 3");
    s
}

/// A column of a table: its name, its type and its place in the primary key.
#[derive(Debug, PartialEq, Eq)]
pub struct Column {
    pub name: String,
    pub kind: String,
    pub pk: i64,
}

/// A column as JSON.
pub open spec fn column_json(c: Column) -> JsonView {
    empty_object().with("name"@, JsonView::Str(c.name@)).with("type"@, JsonView::Str(c.kind@)).with(
        "pk"@,
        JsonView::Bool(c.pk == 1),
    )
}

/// The first `n` fields of a row as an object.
pub open spec fn record_json(names: Seq<Seq<char>>, row: Seq<DbValue>, n: int) -> JsonView
    decreases n,
{
    if n <= 0 {
        empty_object()
    } else {
        record_json(names, row, n - 1).with(
            names[n - 1],
            if n <= row.len() {
                json_of_db(row[n - 1])
            } else {
                JsonView::Null
            },
        )
    }
}

/// Rows as objects.
pub open spec fn records_json(names: Seq<Seq<char>>, rows: Seq<Vec<DbValue>>) -> Seq<JsonView> {
    rows.map_values(|row: Vec<DbValue>| record_json(names, row@, names.len() as int))
}

fn record(names: &Vec<String>, row: &Vec<DbValue>) -> (r: Json)
    ensures
        r@ == record_json(views(names@), row@, names@.len() as int),
{
    let mut rec = Json::object();
    let mut i: usize = 0;
    while i < names.len()
        invariant
            i <= names@.len(),
            rec@ == record_json(views(names@), row@, i as int),
        decreases names@.len() - i,
    {
        let v = if i < row.len() {
            row[i].to_json()
        } else {
            Json::Null
        };
        rec = rec.with(names[i].as_str(), v);
        i = i + 1;
    }
    rec
}

/// The answer for one table: its purpose, its notes, its columns and a few of
/// its rows.
pub fn describe_table(
    name: &str,
    columns: &Vec<Column>,
    sample_names: &Vec<String>,
    samples: &Vec<Vec<DbValue>>,
) -> (r: Json)
    ensures
        r@ == empty_object().with("status"@, JsonView::Str("ok"@)).with(
            "table"@,
            JsonView::Str(name@),
        ).with("purpose"@, JsonView::Str(text_or(purpose_of(name@), ""@))).with(
            "notes"@,
            JsonView::Str(text_or(notes_of(name@), ""@)),
        ).with(
            "columns"@,
            JsonView::Array(columns@.map_values(|c: Column| column_json(c))),
        ).with("samples"@, JsonView::Array(records_json(views(sample_names@), samples@))),
{
    let mut cols: Vec<Json> = Vec::new();
    let mut i: usize = 0;
    while i < columns.len()
        invariant
            i <= columns@.len(),
            cols@.len() == i,
            forall|k: int| 0 <= k < i ==> (#[trigger] cols@[k])@ == column_json(columns@[k]),
        decreases columns@.len() - i,
    {
        let c = &columns[i];
        cols.push(
            Json::object().with("name", Json::text(c.name.as_str())).with(
                "type",
                Json::text(c.kind.as_str()),
            ).with("pk", Json::Bool(c.pk == 1)),
        );
        i = i + 1;
    }
    let mut rows: Vec<Json> = Vec::new();
    let mut k: usize = 0;
    while k < samples.len()
        invariant
            k <= samples@.len(),
            rows@.len() == k,
            forall|x: int|
                0 <= x < k ==> (#[trigger] rows@[x])@ == record_json(
                    views(sample_names@),
                    samples@[x]@,
                    sample_names@.len() as int,
                ),
        decreases samples@.len() - k,
    {
        rows.push(record(sample_names, &samples[k]));
        k = k + 1;
    }
    proof {
        assert(json_seq(cols@) =~= columns@.map_values(|c: Column| column_json(c)));
        assert(json_seq(rows@) =~= records_json(views(sample_names@), samples@));
    }
    Json::object().with("status", Json::text("ok")).with("table", Json::text(name)).with(
        "purpose",
        Json::text(str_or(table_meta(name), "")),
    ).with("notes", Json::text(str_or(table_notes(name), ""))).with(
        "columns",
        Json::Array(cols),
    ).with("samples", Json::Array(rows))
}

} // verus!
