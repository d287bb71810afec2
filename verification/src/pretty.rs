//! What is shown while tools run: shortened arguments, previews with a diff,
//! and results.
//!
//! Every function returns the text that is shown.

use vstd::prelude::*;
use vstd::string::*;

use crate::json_model::{group_json, json_seq, members_of, opt_json, Json, JsonView, Members};
use crate::json_text::{
    compact, escaped_upto, json_written, lemma_escaped_parts, print_json, quoted,
};
use crate::startup::{
    BG_GREEN, BG_RED, C_GRAY, C_GREEN, C_RED, EMPTY, ERASE_LINE, HDR_GREEN, HDR_RED, RESET,
};
use crate::text::{
    byte_len, chars_of, decimal, decimal_int, ends_with, i64_text, lemma_lines_len, lines, lines_of,
    opt_is, opt_str_view, pad_right, padded, replace, replaced, split_first, split_once, str_eq,
    str_or, string_of, text_or, u128_text, u64_text, usize_text, utf8_len, views,
};

verus! {

broadcast use group_json;

// ---------------------------------------------------------------------------
// Shortening
// ---------------------------------------------------------------------------

/// How many characters stay at each end of a text of `n` characters that is cut:
/// at most `limit`, and so few that the text becomes shorter.
pub open spec fn kept_end(n: nat, limit: nat) -> int {
    if n < 4 {
        0
    } else if (n - 4) / 2 < limit {
        (n - 4) / 2
    } else {
        limit as int
    }
}

/// A text of at most `limit` characters as it is; a longer one by its first and
/// last characters.
pub open spec fn shortened(s: Seq<char>, limit: nat) -> Seq<char> {
    if s.len() <= limit {
        s
    } else {
        let k = kept_end(s.len(), limit);
        s.take(k) + "..."@ + s.skip(s.len() - k)
    }
}

/// Shortens a text of over `limit` characters to its first and last ones.
pub fn truncate_str(s: &str, limit: usize) -> (r: String)
    ensures
        r@ == shortened(s@, limit as nat),
{
    let cs = chars_of(s);
    let n: usize = cs.len();
    if n <= limit {
        return s.to_owned();
    }
    let k: usize = if n < 4 {
        0
    } else if (n - 4) / 2 < limit {
        (n - 4) / 2
    } else {
        limit
    };
    let mut out = string_of(&cs, 0, k);
    let last = string_of(&cs, n - k, n);
    out.append("...");
    out.append(last.as_str());
    proof {
        assert(s@.subrange(0, k as int) =~= s@.take(k as int));
        assert(s@.subrange(n - k, n as int) =~= s@.skip(n - k));
    }
    out
}

/// A text over the limit becomes shorter, and is not shown in full.
pub proof fn long_texts_are_cut(s: Seq<char>, limit: nat)
    requires
        s.len() > limit,
        limit >= 3,
    ensures
        shortened(s, limit).len() < s.len(),
        shortened(s, limit).len() <= 2 * limit + 3,
{
    reveal_strlit("...");
}

/// A value with its texts shortened and its lists reduced to the first and the
/// last element.
pub open spec fn shortened_json(j: JsonView) -> JsonView
    decreases j,
{
    match j {
        JsonView::Str(s) => JsonView::Str(shortened(s, 10)),
        JsonView::Array(a) => if a.len() == 0 {
            j
        } else if a.len() == 1 {
            JsonView::Array(seq![shortened_json(a[0])])
        } else if a.len() == 2 {
            JsonView::Array(seq![shortened_json(a[0]), shortened_json(a[1])])
        } else {
            JsonView::Array(
                seq![
                    shortened_json(a[0]),
                    JsonView::Str("..."@),
                    shortened_json(a[a.len() - 1]),
                ],
            )
        },
        JsonView::Object(m) => JsonView::Object(shortened_members(m, m.len())),
        other => other,
    }
}

/// The first `n` members with their values shortened.
pub open spec fn shortened_members(m: Members, n: nat) -> Members
    decreases m, n,
{
    if n == 0 || n > m.len() {
        Seq::empty()
    } else {
        shortened_members(m, (n - 1) as nat).push((m[n - 1].0, shortened_json(m[n - 1].1)))
    }
}

fn walk(value: &Json) -> (r: Json)
    ensures
        r@ == shortened_json(value@),
    decreases value,
{
    match value {
        Json::Str(s) => Json::Str(truncate_str(s.as_str(), 10)),
        Json::Array(v) => {
            let mut out: Vec<Json> = Vec::new();
            let n: usize = v.len();
            if n > 0 {
                let a = walk(&v[0]);
                out.push(a);
            }
            if n > 2 {
                out.push(Json::text("..."));
            }
            if n > 1 {
                let z = walk(&v[n - 1]);
                out.push(z);
            }
            proof {
                let a = json_seq(v@);
                assert(value@ == JsonView::Array(a));
                if n == 0 {
                    assert(json_seq(out@) =~= a);
                } else if n == 1 {
                    assert(json_seq(out@) =~= seq![shortened_json(a[0])]);
                } else if n == 2 {
                    assert(json_seq(out@) =~= seq![shortened_json(a[0]), shortened_json(a[1])]);
                } else {
                    assert(json_seq(out@) =~= seq![
                        shortened_json(a[0]),
                        JsonView::Str("..."@),
                        shortened_json(a[a.len() - 1]),
                    ]);
                }
            }
            Json::Array(out)
        },
        Json::Object(v) => {
            let ghost m = members_of(v@);
            let mut out: Vec<(String, Json)> = Vec::new();
            let mut i: usize = 0;
            proof {
                assert(members_of(out@) =~= shortened_members(m, 0));
            }
            while i < v.len()
                invariant
                    i <= v@.len(),
                    m == members_of(v@),
                    decreases_to!(value => v),
                    members_of(out@) == shortened_members(m, i as nat),
                decreases v@.len() - i,
            {
                let w = walk(&v[i].1);
                let k = v[i].0.clone();
                let ghost before = out@;
                out.push((k, w));
                proof {
                    assert(members_of(out@) =~= members_of(before).push((k@, w@)));
                    assert(m[i as int] == (v@[i as int].0@, v@[i as int].1@));
                }
                i = i + 1;
            }
            Json::Object(out)
        },
        other => other.copy(),
    }
}

/// A text of over ten characters is shown cut: what is written is shorter than the
/// text in full.
pub proof fn long_texts_are_written_cut(s: Seq<char>)
    requires
        s.len() > 10,
    ensures
        json_written(shortened_json(JsonView::Str(s))).len() < json_written(JsonView::Str(s)).len(),
{
    reveal_strlit("...");
    let k = kept_end(s.len(), 10);
    let a = s.take(k);
    let m = s.subrange(k, s.len() - k);
    let z = s.skip(s.len() - k);
    let cut = shortened(s, 10);
    assert(s =~= a + m + z);
    assert(cut == a + "..."@ + z);
    lemma_escaped_parts(a + m, z);
    lemma_escaped_parts(a, m);
    lemma_escaped_parts(a + "..."@, z);
    lemma_escaped_parts(a, "..."@);
    let d = "..."@;
    assert(escaped_upto(d, 3).len() == 3) by {
        assert(d[0] == '.' && d[1] == '.' && d[2] == '.');
        reveal_with_fuel(escaped_upto, 4);
    }
    assert(m.len() >= 4);
    assert(compact(JsonView::Str(cut)) == quoted(cut));
    assert(compact(JsonView::Str(s)) == quoted(s));
    assert(shortened_json(JsonView::Str(s)) == JsonView::Str(cut));
}

/// Shortens the texts and lists of a value for display.
pub fn truncated_value(original: &Json) -> (r: Json)
    ensures
        r@ == shortened_json(original@),
{
    walk(original)
}

/// A value for display: its texts and lists are shortened, the value itself is
/// left alone.
pub fn truncate(original: &Json) -> (r: String)
    ensures
        r@ == json_written(shortened_json(original@)),
{
    let t = walk(original);
    print_json(&t)
}

// ---------------------------------------------------------------------------
// Differences
// ---------------------------------------------------------------------------

/// A line of a difference.
#[derive(Debug, PartialEq, Eq)]
pub enum DiffLine {
    /// In both texts.
    Context(String),
    /// In the old text only.
    Removed(String),
    /// In the new text only.
    Added(String),
}

/// What a line of a difference is.
pub enum DiffView {
    Context(Seq<char>),
    Removed(Seq<char>),
    Added(Seq<char>),
}

impl View for DiffLine {
    type V = DiffView;

    open spec fn view(&self) -> DiffView {
        match *self {
            DiffLine::Context(s) => DiffView::Context(s@),
            DiffLine::Removed(s) => DiffView::Removed(s@),
            DiffLine::Added(s) => DiffView::Added(s@),
        }
    }
}

/// The contents of a difference.
pub open spec fn diff_view(v: Seq<DiffLine>) -> Seq<DiffView> {
    v.map_values(|d: DiffLine| d@)
}

/// The length of the longest common subsequence of the first `i` lines of `a`
/// and the first `j` lines of `b`.
pub open spec fn common_len(a: Seq<Seq<char>>, b: Seq<Seq<char>>, i: int, j: int) -> nat
    decreases i + j,
{
    if i <= 0 || j <= 0 {
        0
    } else if a[i - 1] == b[j - 1] {
        common_len(a, b, i - 1, j - 1) + 1
    } else if common_len(a, b, i - 1, j) >= common_len(a, b, i, j - 1) {
        common_len(a, b, i - 1, j)
    } else {
        common_len(a, b, i, j - 1)
    }
}

/// The difference between the first `i` lines of `a` and the first `j` lines
/// of `b`: equal last lines are kept; else a line of `b` is added where that
/// loses nothing of the longest common subsequence, and a line of `a` is
/// removed where it does.
pub open spec fn diff_of(a: Seq<Seq<char>>, b: Seq<Seq<char>>, i: int, j: int) -> Seq<DiffView>
    decreases i + j,
{
    if i < 0 || j < 0 || (i == 0 && j == 0) {
        Seq::empty()
    } else if i > 0 && j > 0 && a[i - 1] == b[j - 1] {
        diff_of(a, b, i - 1, j - 1).push(DiffView::Context(a[i - 1]))
    } else if j > 0 && (i == 0 || common_len(a, b, i, j - 1) >= common_len(a, b, i - 1, j)) {
        diff_of(a, b, i, j - 1).push(DiffView::Added(b[j - 1]))
    } else {
        diff_of(a, b, i - 1, j).push(DiffView::Removed(a[i - 1]))
    }
}

proof fn lemma_common_bound(a: Seq<Seq<char>>, b: Seq<Seq<char>>, i: int, j: int)
    requires
        0 <= i,
        0 <= j,
    ensures
        common_len(a, b, i, j) <= i,
        common_len(a, b, i, j) <= j,
    decreases i + j,
{
    if i > 0 && j > 0 {
        lemma_common_bound(a, b, i - 1, j - 1);
        lemma_common_bound(a, b, i - 1, j);
        lemma_common_bound(a, b, i, j - 1);
    }
}

/// A row of the table of [`common_len`].
pub open spec fn is_row(row: Seq<usize>, a: Seq<Seq<char>>, b: Seq<Seq<char>>, i: int) -> bool {
    &&& row.len() == b.len() + 1
    &&& forall|j: int| 0 <= j <= b.len() ==> #[trigger] row[j] == common_len(a, b, i, j)
}

fn common_table(old_lines: &Vec<String>, new_lines: &Vec<String>) -> (r: Vec<Vec<usize>>)
    ensures
        r@.len() == old_lines@.len() + 1,
        forall|i: int|
            0 <= i <= old_lines@.len() ==> is_row(
                (#[trigger] r@[i])@,
                views(old_lines@),
                views(new_lines@),
                i,
            ),
{
    let ghost a = views(old_lines@);
    let ghost b = views(new_lines@);
    let mut table: Vec<Vec<usize>> = Vec::new();
    let mut first: Vec<usize> = Vec::new();
    first.push(0);
    let mut k: usize = 0;
    while k < new_lines.len()
        invariant
            k <= new_lines@.len(),
            b == views(new_lines@),
            first@.len() == k + 1,
            forall|j: int| 0 <= j <= k ==> #[trigger] first@[j] == common_len(a, b, 0, j),
        decreases new_lines@.len() - k,
    {
        first.push(0);
        k = k + 1;
    }
    table.push(first);
    let mut i: usize = 0;
    while i < old_lines.len()
        invariant
            i <= old_lines@.len(),
            a == views(old_lines@),
            b == views(new_lines@),
            table@.len() == i + 1,
            forall|x: int| 0 <= x <= i ==> is_row((#[trigger] table@[x])@, a, b, x),
        decreases old_lines@.len() - i,
    {
        let mut row: Vec<usize> = Vec::new();
        row.push(0);
        let mut j: usize = 0;
        while j < new_lines.len()
            invariant
                j <= new_lines@.len(),
                i < old_lines@.len(),
                a == views(old_lines@),
                b == views(new_lines@),
                table@.len() == i + 1,
                is_row(table@[i as int]@, a, b, i as int),
                row@.len() == j + 1,
                forall|x: int| 0 <= x <= j ==> #[trigger] row@[x] == common_len(a, b, i + 1, x),
            decreases new_lines@.len() - j,
        {
            let up: usize = table[i][j + 1];
            let diagonal: usize = table[i][j];
            let left: usize = row[j];
            proof {
                lemma_common_bound(a, b, i as int, j as int);
                assert(a[i as int] == old_lines@[i as int]@);
                assert(b[j as int] == new_lines@[j as int]@);
                assert(table@[i as int]@[j as int] == common_len(a, b, i as int, j as int));
                assert(table@[i as int]@[j + 1] == common_len(a, b, i as int, j + 1));
                assert(row@[j as int] == common_len(a, b, i + 1, j as int));
            }
            if str_eq(old_lines[i].as_str(), new_lines[j].as_str()) {
                row.push(diagonal + 1);
            } else if up >= left {
                row.push(up);
            } else {
                row.push(left);
            }
            j = j + 1;
        }
        table.push(row);
        i = i + 1;
    }
    table
}

/// The difference between two lists of lines, by their longest common
/// subsequence.
pub fn compute_diff(old_lines: &Vec<String>, new_lines: &Vec<String>) -> (r: Vec<DiffLine>)
    ensures
        diff_view(r@) == diff_of(
            views(old_lines@),
            views(new_lines@),
            old_lines@.len() as int,
            new_lines@.len() as int,
        ),
{
    let ghost a = views(old_lines@);
    let ghost b = views(new_lines@);
    let ghost m = old_lines@.len() as int;
    let ghost n = new_lines@.len() as int;
    let table = common_table(old_lines, new_lines);
    let mut i: usize = old_lines.len();
    let mut j: usize = new_lines.len();
    let mut back: Vec<DiffLine> = Vec::new();
    proof {
        assert(diff_of(a, b, m, n) + reversed(diff_view(back@)) =~= diff_of(a, b, m, n));
    }
    while i > 0 || j > 0
        invariant
            i <= old_lines@.len(),
            j <= new_lines@.len(),
            a == views(old_lines@),
            b == views(new_lines@),
            table@.len() == old_lines@.len() + 1,
            forall|x: int|
                0 <= x <= old_lines@.len() ==> is_row((#[trigger] table@[x])@, a, b, x),
            diff_of(a, b, i as int, j as int) + reversed(diff_view(back@)) == diff_of(a, b, m, n),
        decreases i + j,
    {
        let ghost before = back@;
        let ghost d = diff_of(a, b, i as int, j as int);
        if i > 0 && j > 0 && str_eq(old_lines[i - 1].as_str(), new_lines[j - 1].as_str()) {
            proof {
                assert(a[i - 1] == old_lines@[i - 1]@);
                assert(b[j - 1] == new_lines@[j - 1]@);
            }
            back.push(DiffLine::Context(old_lines[i - 1].clone()));
            i = i - 1;
            j = j - 1;
        } else {
            let add = if j == 0 {
                false
            } else if i == 0 {
                true
            } else {
                let left: usize = table[i][j - 1];
                let up: usize = table[i - 1][j];
                proof {
                    assert(table@[i as int]@[j - 1] == common_len(a, b, i as int, j - 1));
                    assert(table@[i - 1]@[j as int] == common_len(a, b, i - 1, j as int));
                }
                left >= up
            };
            proof {
                if i > 0 {
                    assert(a[i - 1] == old_lines@[i - 1]@);
                }
                if j > 0 {
                    assert(b[j - 1] == new_lines@[j - 1]@);
                }
            }
            if add {
                back.push(DiffLine::Added(new_lines[j - 1].clone()));
                j = j - 1;
            } else {
                back.push(DiffLine::Removed(old_lines[i - 1].clone()));
                i = i - 1;
            }
        }
        proof {
            let last = back@.last()@;
            assert(diff_view(back@) =~= diff_view(before).push(last));
            lemma_reversed_push(diff_view(before), last);
            assert(d == diff_of(a, b, i as int, j as int).push(last));
            assert(diff_of(a, b, i as int, j as int) + reversed(diff_view(back@)) =~= d + reversed(
                diff_view(before),
            ));
        }
    }
    let mut out: Vec<DiffLine> = Vec::new();
    proof {
        assert(diff_view(out@) + reversed(diff_view(back@)) =~= reversed(diff_view(back@)));
        assert(diff_of(a, b, 0, 0) + reversed(diff_view(back@)) =~= reversed(diff_view(back@)));
    }
    while back.len() > 0
        invariant
            diff_view(out@) + reversed(diff_view(back@)) == diff_of(a, b, m, n),
        decreases back@.len(),
    {
        let ghost before = back@;
        let ghost done = out@;
        match back.pop() {
            Some(d) => {
                out.push(d);
                proof {
                    assert(diff_view(before) =~= diff_view(back@).push(d@));
                    lemma_reversed_push(diff_view(back@), d@);
                    assert(diff_view(out@) =~= diff_view(done).push(d@));
                    assert(diff_view(out@) + reversed(diff_view(back@)) =~= diff_view(done)
                        + reversed(diff_view(before)));
                }
            },
            None => {},
        }
    }
    proof {
        assert(diff_view(out@) + reversed(diff_view(back@)) =~= diff_view(out@));
    }
    out
}

/// A sequence backwards.
pub open spec fn reversed(s: Seq<DiffView>) -> Seq<DiffView> {
    Seq::new(s.len(), |i: int| s[s.len() - 1 - i])
}

proof fn lemma_reversed_push(s: Seq<DiffView>, d: DiffView)
    ensures
        reversed(s.push(d)) == seq![d] + reversed(s),
{
    assert(reversed(s.push(d)) =~= seq![d] + reversed(s));
}

// ---------------------------------------------------------------------------
// Laws of differences
// ---------------------------------------------------------------------------

/// The lines of the old text in a difference.
pub open spec fn old_side(d: Seq<DiffView>) -> Seq<Seq<char>>
    decreases d.len(),
{
    if d.len() == 0 {
        Seq::empty()
    } else {
        match d.last() {
            DiffView::Context(s) => old_side(d.drop_last()).push(s),
            DiffView::Removed(s) => old_side(d.drop_last()).push(s),
            DiffView::Added(_) => old_side(d.drop_last()),
        }
    }
}

/// The lines of the new text in a difference.
pub open spec fn new_side(d: Seq<DiffView>) -> Seq<Seq<char>>
    decreases d.len(),
{
    if d.len() == 0 {
        Seq::empty()
    } else {
        match d.last() {
            DiffView::Context(s) => new_side(d.drop_last()).push(s),
            DiffView::Removed(_) => new_side(d.drop_last()),
            DiffView::Added(s) => new_side(d.drop_last()).push(s),
        }
    }
}

/// How many lines a difference keeps.
pub open spec fn kept_lines(d: Seq<DiffView>) -> nat
    decreases d.len(),
{
    if d.len() == 0 {
        0
    } else {
        kept_lines(d.drop_last()) + if d.last() is Context {
            1nat
        } else {
            0nat
        }
    }
}

proof fn lemma_sides(a: Seq<Seq<char>>, b: Seq<Seq<char>>, i: int, j: int)
    requires
        0 <= i <= a.len(),
        0 <= j <= b.len(),
    ensures
        old_side(diff_of(a, b, i, j)) == a.take(i),
        new_side(diff_of(a, b, i, j)) == b.take(j),
        kept_lines(diff_of(a, b, i, j)) == common_len(a, b, i, j),
    decreases i + j,
{
    let d = diff_of(a, b, i, j);
    if i > 0 || j > 0 {
        if i > 0 && j > 0 && a[i - 1] == b[j - 1] {
            lemma_sides(a, b, i - 1, j - 1);
            assert(d.drop_last() =~= diff_of(a, b, i - 1, j - 1));
            assert(a.take(i) =~= a.take(i - 1).push(a[i - 1]));
            assert(b.take(j) =~= b.take(j - 1).push(b[j - 1]));
        } else if j > 0 && (i == 0 || common_len(a, b, i, j - 1) >= common_len(a, b, i - 1, j)) {
            lemma_sides(a, b, i, j - 1);
            assert(d.drop_last() =~= diff_of(a, b, i, j - 1));
            assert(b.take(j) =~= b.take(j - 1).push(b[j - 1]));
        } else {
            lemma_sides(a, b, i - 1, j);
            assert(d.drop_last() =~= diff_of(a, b, i - 1, j));
            assert(a.take(i) =~= a.take(i - 1).push(a[i - 1]));
        }
    } else {
        assert(old_side(d) =~= a.take(0));
        assert(new_side(d) =~= b.take(0));
    }
}

/// A difference holds both texts: its kept and removed lines are the old one,
/// its kept and added lines the new one.
pub proof fn diff_holds_both_texts(a: Seq<Seq<char>>, b: Seq<Seq<char>>)
    ensures
        old_side(diff_of(a, b, a.len() as int, b.len() as int)) == a,
        new_side(diff_of(a, b, a.len() as int, b.len() as int)) == b,
{
    lemma_sides(a, b, a.len() as int, b.len() as int);
    assert(a.take(a.len() as int) =~= a);
    assert(b.take(b.len() as int) =~= b);
}

/// Pairs of places, ascending in both, with equal lines, below `i` and `j`.
pub open spec fn common_pairs(
    p: Seq<(int, int)>,
    a: Seq<Seq<char>>,
    b: Seq<Seq<char>>,
    i: int,
    j: int,
) -> bool {
    &&& forall|k: int|
        0 <= k < p.len() ==> 0 <= (#[trigger] p[k]).0 < i && 0 <= p[k].1 < j && a[p[k].0]
            == b[p[k].1]
    &&& forall|k: int, l: int|
        0 <= k < l < p.len() ==> (#[trigger] p[k]).0 < (#[trigger] p[l]).0 && p[k].1 < p[l].1
}

proof fn lemma_common_step(a: Seq<Seq<char>>, b: Seq<Seq<char>>, i: int, j: int)
    requires
        0 <= i,
        0 <= j,
    ensures
        i > 0 ==> common_len(a, b, i, j) <= common_len(a, b, i - 1, j) + 1,
        j > 0 ==> common_len(a, b, i, j) <= common_len(a, b, i, j - 1) + 1,
        i > 0 ==> common_len(a, b, i - 1, j) <= common_len(a, b, i, j),
        j > 0 ==> common_len(a, b, i, j - 1) <= common_len(a, b, i, j),
    decreases i + j,
{
    if i > 0 && j > 0 {
        lemma_common_step(a, b, i - 1, j);
        lemma_common_step(a, b, i, j - 1);
        lemma_common_step(a, b, i - 1, j - 1);
    }
}

proof fn lemma_common_is_longest(
    p: Seq<(int, int)>,
    a: Seq<Seq<char>>,
    b: Seq<Seq<char>>,
    i: int,
    j: int,
)
    requires
        0 <= i <= a.len(),
        0 <= j <= b.len(),
        common_pairs(p, a, b, i, j),
    ensures
        p.len() <= common_len(a, b, i, j),
    decreases i + j,
{
    if p.len() > 0 {
        let last = p[p.len() - 1];
        let q = p.drop_last();
        if last.0 == i - 1 && last.1 == j - 1 {
            assert(common_pairs(q, a, b, i - 1, j - 1)) by {
                assert forall|k: int| 0 <= k < q.len() implies 0 <= (#[trigger] q[k]).0 < i - 1
                    && 0 <= q[k].1 < j - 1 && a[q[k].0] == b[q[k].1] by {
                    assert(q[k] == p[k]);
                    assert(p[k].0 < p[p.len() - 1].0);
                }
                assert forall|k: int, l: int| 0 <= k < l < q.len() implies (#[trigger] q[k]).0 < (
                #[trigger] q[l]).0 && q[k].1 < q[l].1 by {
                    assert(q[k] == p[k] && q[l] == p[l]);
                }
            }
            lemma_common_is_longest(q, a, b, i - 1, j - 1);
        } else if last.0 < i - 1 {
            assert(common_pairs(p, a, b, i - 1, j)) by {
                assert forall|k: int| 0 <= k < p.len() implies 0 <= (#[trigger] p[k]).0 < i - 1
                    && 0 <= p[k].1 < j && a[p[k].0] == b[p[k].1] by {
                    if k < p.len() - 1 {
                        assert(p[k].0 < p[p.len() - 1].0);
                    }
                }
            }
            lemma_common_is_longest(p, a, b, i - 1, j);
            lemma_common_step(a, b, i, j);
        } else {
            assert(common_pairs(p, a, b, i, j - 1)) by {
                assert forall|k: int| 0 <= k < p.len() implies 0 <= (#[trigger] p[k]).0 < i && 0
                    <= p[k].1 < j - 1 && a[p[k].0] == b[p[k].1] by {
                    if k < p.len() - 1 {
                        assert(p[k].1 < p[p.len() - 1].1);
                    }
                }
            }
            lemma_common_is_longest(p, a, b, i, j - 1);
            lemma_common_step(a, b, i, j);
        }
    }
}

/// A difference keeps as many lines as any can: no common subsequence of the
/// two texts is longer.
pub proof fn diff_keeps_as_much_as_any(
    a: Seq<Seq<char>>,
    b: Seq<Seq<char>>,
    p: Seq<(int, int)>,
)
    requires
        common_pairs(p, a, b, a.len() as int, b.len() as int),
    ensures
        p.len() <= kept_lines(diff_of(a, b, a.len() as int, b.len() as int)),
{
    lemma_sides(a, b, a.len() as int, b.len() as int);
    lemma_common_is_longest(p, a, b, a.len() as int, b.len() as int);
}

// ---------------------------------------------------------------------------
// Previews
// ---------------------------------------------------------------------------

/// The label of how an old text was found.
pub open spec fn match_label(kind: Option<Seq<char>>) -> Seq<char> {
    if kind == Some("exact"@) {
        "["@ + C_GREEN@ + "exact"@ + RESET@ + "]"@
    } else if kind == Some("fuzzy"@) {
        "["@ + C_RED@ + "fuzzy"@ + RESET@ + "]"@
    } else {
        Seq::empty()
    }
}

fn label_of(kind: Option<&str>) -> (r: String)
    ensures
        r@ == match_label(opt_str_view(kind)),
{
    let mut s = String::new();
    if opt_is(kind, "exact") {
        s = String::from_str("[");
        s.append(C_GREEN);
        s.append("exact");
        s.append(RESET);
        s.append("]");
    } else if opt_is(kind, "fuzzy") {
        s = String::from_str("[");
        s.append(C_RED);
        s.append("fuzzy");
        s.append(RESET);
        s.append("]");
    } else {
        proof {
            assert(s@ =~= Seq::<char>::empty());
        }
    }
    s
}

/// A line of a preview: two columns of numbers, a mark and the text.
pub open spec fn preview_line(
    head: Seq<char>,
    old: Seq<char>,
    middle: Seq<char>,
    new: Seq<char>,
    body: Seq<char>,
    mark: Seq<char>,
    erase: Seq<char>,
    text: Seq<char>,
) -> Seq<char> {
    " "@ + head + padded(old, 4) + middle + padded(new, 4) + " "@ + body + mark + " "@ + erase
        + text + RESET@ + "\n"@
}

fn line_of_preview(
    head: &str,
    old: &str,
    middle: &str,
    new: &str,
    body: &str,
    mark: &str,
    erase: &str,
    text: &str,
) -> (r: String)
    ensures
        r@ == preview_line(head@, old@, middle@, new@, body@, mark@, erase@, text@),
{
    let o = pad_right(old, 4);
    let n = pad_right(new, 4);
    let mut s = String::from_str(" ");
    s.append(head);
    s.append(o.as_str());
    s.append(middle);
    s.append(n.as_str());
    s.append(" ");
    s.append(body);
    s.append(mark);
    s.append(" ");
    s.append(erase);
    s.append(text);
    s.append(RESET);
    s.append("\n");
    s
}

/// How many of the first `n` lines are in the old text.
pub open spec fn old_count(d: Seq<DiffView>, n: int) -> nat
    decreases n,
{
    if n <= 0 {
        0
    } else {
        old_count(d, n - 1) + if d[n - 1] is Added {
            0nat
        } else {
            1nat
        }
    }
}

/// How many of the first `n` lines are in the new text.
pub open spec fn new_count(d: Seq<DiffView>, n: int) -> nat
    decreases n,
{
    if n <= 0 {
        0
    } else {
        new_count(d, n - 1) + if d[n - 1] is Removed {
            0nat
        } else {
            1nat
        }
    }
}

/// How many of the first `n` lines are added.
pub open spec fn added_count(d: Seq<DiffView>, n: int) -> nat
    decreases n,
{
    if n <= 0 {
        0
    } else {
        added_count(d, n - 1) + if d[n - 1] is Added {
            1nat
        } else {
            0nat
        }
    }
}

/// How many of the first `n` lines are removed.
pub open spec fn removed_count(d: Seq<DiffView>, n: int) -> nat
    decreases n,
{
    if n <= 0 {
        0
    } else {
        removed_count(d, n - 1) + if d[n - 1] is Removed {
            1nat
        } else {
            0nat
        }
    }
}

/// The first `n` lines of a difference, numbered from `start` in either text.
pub open spec fn preview_lines(d: Seq<DiffView>, start: nat, n: int) -> Seq<char>
    decreases n,
{
    if n <= 0 {
        Seq::empty()
    } else {
        let old = decimal(start + old_count(d, n - 1));
        let new = decimal(start + new_count(d, n - 1));
        preview_lines(d, start, n - 1) + match d[n - 1] {
            DiffView::Context(c) => preview_line(
                C_GRAY@,
                old,
                C_GRAY@,
                new,
                RESET@,
                "  "@,
                EMPTY@,
                c,
            ),
            DiffView::Removed(c) => preview_line(
                HDR_RED@,
                old,
                EMPTY@,
                EMPTY@,
                BG_RED@,
                " -"@,
                ERASE_LINE@,
                c,
            ),
            DiffView::Added(c) => preview_line(
                HDR_GREEN@,
                EMPTY@,
                EMPTY@,
                new,
                BG_GREEN@,
                " +"@,
                ERASE_LINE@,
                c,
            ),
        }
    }
}

/// The title of a preview.
pub open spec fn preview_title(path: Seq<char>, label: Seq<char>) -> Seq<char> {
    if label.len() == 0 {
        "-- Code Preview: "@ + path + " --\n"@
    } else {
        "-- Code Preview: "@ + path + " "@ + label + " --\n"@
    }
}

/// A preview: a title, the numbered lines and the counts.
pub open spec fn preview_text(
    path: Seq<char>,
    start: nat,
    d: Seq<DiffView>,
    kind: Option<Seq<char>>,
) -> Seq<char> {
    let n = d.len() as int;
    "\n"@ + preview_title(path, match_label(kind)) + preview_lines(d, start, n) + "\n["@ + C_GREEN@
        + "+"@ + decimal(added_count(d, n)) + RESET@ + ", "@ + C_RED@ + "-"@ + decimal(
        removed_count(d, n),
    ) + RESET@ + "]\n"@
}

proof fn lemma_counts(d: Seq<DiffView>, n: int)
    requires
        0 <= n,
    ensures
        old_count(d, n) <= n,
        new_count(d, n) <= n,
        added_count(d, n) <= n,
        removed_count(d, n) <= n,
    decreases n,
{
    if n > 0 {
        lemma_counts(d, n - 1);
    }
}

/// Shows a difference with line numbers and counts.
pub fn show_diff_preview(
    path: &str,
    start_line: usize,
    diff: &Vec<DiffLine>,
    match_type: Option<&str>,
) -> (r: String)
    ensures
        r@ == preview_text(
            path@,
            start_line as nat,
            diff_view(diff@),
            opt_str_view(match_type),
        ),
{
    let ghost d = diff_view(diff@);
    let label = label_of(match_type);
    let mut title = String::from_str("-- Code Preview: ");
    title.append(path);
    if label.as_str().is_empty() {
        title.append(" --\n");
    } else {
        title.append(" ");
        title.append(label.as_str());
        title.append(" --\n");
    }
    let mut body = String::new();
    let n: usize = diff.len();
    let mut old_cur: u128 = start_line as u128;
    let mut new_cur: u128 = start_line as u128;
    let mut added: usize = 0;
    let mut removed: usize = 0;
    let mut i: usize = 0;
    proof {
        assert(body@ =~= preview_lines(d, start_line as nat, 0));
    }
    while i < n
        invariant
            i <= n,
            n == diff@.len(),
            d == diff_view(diff@),
            old_cur == start_line + old_count(d, i as int),
            new_cur == start_line + new_count(d, i as int),
            added == added_count(d, i as int),
            removed == removed_count(d, i as int),
            body@ == preview_lines(d, start_line as nat, i as int),
        decreases n - i,
    {
        proof {
            lemma_counts(d, i as int);
            assert(d[i as int] == diff@[i as int]@);
        }
        let old = u128_text(old_cur);
        let new = u128_text(new_cur);
        match &diff[i] {
            DiffLine::Context(c) => {
                let line = line_of_preview(
                    C_GRAY,
                    old.as_str(),
                    C_GRAY,
                    new.as_str(),
                    RESET,
                    "  ",
                    EMPTY,
                    c.as_str(),
                );
                body.append(line.as_str());
                old_cur = old_cur + 1;
                new_cur = new_cur + 1;
            },
            DiffLine::Removed(c) => {
                let line = line_of_preview(
                    HDR_RED,
                    old.as_str(),
                    EMPTY,
                    EMPTY,
                    BG_RED,
                    " -",
                    ERASE_LINE,
                    c.as_str(),
                );
                body.append(line.as_str());
                removed = removed + 1;
                old_cur = old_cur + 1;
            },
            DiffLine::Added(c) => {
                let line = line_of_preview(
                    HDR_GREEN,
                    EMPTY,
                    EMPTY,
                    new.as_str(),
                    BG_GREEN,
                    " +",
                    ERASE_LINE,
                    c.as_str(),
                );
                body.append(line.as_str());
                added = added + 1;
                new_cur = new_cur + 1;
            },
        }
        i = i + 1;
    }
    let plus = usize_text(added);
    let minus = usize_text(removed);
    let mut s = String::from_str("\n");
    s.append(title.as_str());
    s.append(body.as_str());
    s.append("\n[");
    s.append(C_GREEN);
    s.append("+");
    s.append(plus.as_str());
    s.append(RESET);
    s.append(", ");
    s.append(C_RED);
    s.append("-");
    s.append(minus.as_str());
    s.append(RESET);
    s.append("]\n");
    s
}

// ---------------------------------------------------------------------------
// Replacements
// ---------------------------------------------------------------------------

/// A replacement that a tool call asks for.
#[derive(Debug, PartialEq, Eq)]
pub struct Replacement {
    pub path: String,
    pub old_string: String,
    pub new_string: String,
}

/// The replacement that arguments ask for; `None` where a part is missing or
/// nothing would change.
pub open spec fn asked_replacement(args: JsonView) -> Option<(Seq<char>, Seq<char>, Seq<char>)> {
    match (args.str_at("path"@), args.str_at("old_string"@), args.str_at("new_string"@)) {
        (Some(path), Some(old), Some(new)) => if old == new {
            None
        } else {
            Some((path, old, new))
        },
        _ => None,
    }
}

/// Reads the replacement that arguments ask for.
pub fn read_replacement(args: &Json) -> (r: Option<Replacement>)
    ensures
        match r {
            Some(x) => asked_replacement(args@) == Some(
                (x.path@, x.old_string@, x.new_string@),
            ),
            None => asked_replacement(args@) is None,
        },
{
    match (args.str_at("path"), args.str_at("old_string"), args.str_at("new_string")) {
        (Some(path), Some(old), Some(new)) => if str_eq(old, new) {
            None
        } else {
            Some(
                Replacement {
                    path: path.to_owned(),
                    old_string: old.to_owned(),
                    new_string: new.to_owned(),
                },
            )
        },
        _ => None,
    }
}

/// Whether the lines of `part` stand in `all` at `i`.
pub open spec fn lines_at(all: Seq<Seq<char>>, part: Seq<Seq<char>>, i: int) -> bool {
    &&& 0 <= i
    &&& i + part.len() <= all.len()
    &&& all.subrange(i, i + part.len()) == part
}

/// The first place at or after `i`, before the last line, where the lines of
/// `part` stand in `all`.
pub open spec fn first_lines(all: Seq<Seq<char>>, part: Seq<Seq<char>>, i: int) -> Option<int>
    decreases all.len() - i,
{
    if i < 0 || i >= all.len() {
        None
    } else if lines_at(all, part, i) {
        Some(i)
    } else {
        first_lines(all, part, i + 1)
    }
}

fn same_lines(all: &Vec<String>, part: &Vec<String>, i: usize) -> (r: bool)
    requires
        i <= all@.len(),
    ensures
        r == lines_at(views(all@), views(part@), i as int),
{
    let n: usize = part.len();
    let total: usize = all.len();
    if n > total - i {
        return false;
    }
    let mut k: usize = 0;
    while k < n
        invariant
            k <= n,
            n == part@.len(),
            total == all@.len(),
            i + n <= total,
            forall|x: int| 0 <= x < k ==> (#[trigger] part@[x])@ == all@[i + x]@,
        decreases n - k,
    {
        if !str_eq(all[i + k].as_str(), part[k].as_str()) {
            proof {
                assert(views(all@).subrange(i as int, i + n)[k as int] != views(part@)[k as int]);
            }
            return false;
        }
        k = k + 1;
    }
    proof {
        assert(views(all@).subrange(i as int, i + n) =~= views(part@));
    }
    true
}

fn find_lines(all: &Vec<String>, part: &Vec<String>) -> (r: Option<usize>)
    ensures
        match r {
            Some(i) => first_lines(views(all@), views(part@), 0) == Some(i as int) && lines_at(
                views(all@),
                views(part@),
                i as int,
            ),
            None => first_lines(views(all@), views(part@), 0) is None,
        },
{
    let mut i: usize = 0;
    while i < all.len()
        invariant
            i <= all@.len(),
            first_lines(views(all@), views(part@), i as int) == first_lines(
                views(all@),
                views(part@),
                0,
            ),
        decreases all@.len() - i,
    {
        if same_lines(all, part, i) {
            return Some(i);
        }
        i = i + 1;
    }
    None
}

/// Where the context before line `start` begins: two lines before it, by the
/// low 32 bits of its number.
pub open spec fn context_start(start: int) -> int {
    let low = start % 0x1_0000_0000;
    if 2 <= low < 0x8000_0000 {
        low - 2
    } else {
        0
    }
}

/// The lines from `from` up to `to` as context.
pub open spec fn context_lines(lines: Seq<Seq<char>>, from: int, to: int) -> Seq<DiffView> {
    if 0 <= from <= to <= lines.len() {
        lines.subrange(from, to).map_values(|l: Seq<char>| DiffView::Context(l))
    } else {
        Seq::empty()
    }
}

/// The lesser of two numbers.
pub open spec fn lesser(a: int, b: int) -> int {
    if a <= b {
        a
    } else {
        b
    }
}

/// The difference of a replacement of the lines from `start` on, with up to
/// two lines before and three lines after.
pub open spec fn replaced_diff(
    file: Seq<Seq<char>>,
    old: Seq<Seq<char>>,
    new: Seq<Seq<char>>,
    start: int,
) -> Seq<DiffView> {
    let end = start + old.len();
    context_lines(file, context_start(start), lesser(start, file.len() as int)) + diff_of(
        old,
        new,
        old.len() as int,
        new.len() as int,
    ) + context_lines(file, end, lesser(end + 3, file.len() as int))
}

fn push_context(out: &mut Vec<DiffLine>, lines: &Vec<String>, from: usize, to: usize)
    requires
        to <= lines@.len(),
    ensures
        diff_view(final(out)@) == diff_view(old(out)@) + context_lines(
            views(lines@),
            from as int,
            to as int,
        ),
{
    let ghost start = out@;
    let ghost want = context_lines(views(lines@), from as int, to as int);
    let mut i: usize = from;
    proof {
        assert(diff_view(out@) =~= diff_view(start) + want.take(0));
    }
    while i < to
        invariant
            from <= i,
            i <= to || from > to,
            to <= lines@.len(),
            want == context_lines(views(lines@), from as int, to as int),
            from <= to ==> diff_view(out@) == diff_view(start) + want.take(i - from),
            from > to ==> out@ == start,
        decreases to - i,
    {
        let ghost before = out@;
        let line = lines[i].clone();
        out.push(DiffLine::Context(line));
        proof {
            assert(diff_view(out@) =~= diff_view(before).push(DiffView::Context(line@)));
            assert(want[i - from] == DiffView::Context(views(lines@)[i as int]));
            assert(want.take(i - from + 1) =~= want.take(i - from).push(want[i - from]));
            assert(diff_view(start) + want.take(i - from + 1) =~= (diff_view(start) + want.take(
                i - from,
            )).push(want[i - from]));
        }
        i = i + 1;
    }
    proof {
        if from <= to {
            assert(want.take(to - from) =~= want);
        } else {
            assert(diff_view(start) + want =~= diff_view(start));
        }
    }
}

fn diff_around(file: &Vec<String>, old: &Vec<String>, new: &Vec<String>, start: usize) -> (r: Vec<
    DiffLine,
>)
    requires
        start + old@.len() <= usize::MAX,
    ensures
        diff_view(r@) == replaced_diff(views(file@), views(old@), views(new@), start as int),
{
    let n: usize = file.len();
    let low: u64 = (start as u64) % 0x1_0000_0000;
    let from: usize = if 2 <= low && low < 0x8000_0000 {
        (low - 2) as usize
    } else {
        0
    };
    let end: usize = start + old.len();
    let before: usize = if start <= n {
        start
    } else {
        n
    };
    let mut out: Vec<DiffLine> = Vec::new();
    push_context(&mut out, file, from, before);
    let mut diff = compute_diff(old, new);
    let ghost head = diff_view(out@);
    let ghost middle = diff_view(diff@);
    proof {
        assert(diff_view(Seq::<DiffLine>::empty()) =~= Seq::<DiffView>::empty());
        assert(head =~= context_lines(views(file@), context_start(start as int), before as int));
    }
    let ghost taken = out@;
    out.append(&mut diff);
    proof {
        assert(diff_view(out@) =~= head + middle);
    }
    if end < n {
        let after: usize = if n - end <= 3 {
            n
        } else {
            end + 3
        };
        push_context(&mut out, file, end, after);
    } else {
        proof {
            let c = context_lines(
                views(file@),
                end as int,
                lesser(end + 3, views(file@).len() as int),
            );
            assert(c.len() == 0);
            assert(diff_view(out@) =~= head + middle + c);
        }
    }
    out
}

/// A preview of a replacement: the number of its first line, the difference,
/// and whether the old text was found exactly.
#[derive(Debug, PartialEq, Eq)]
pub struct ReplacePreview {
    pub line: usize,
    pub diff: Vec<DiffLine>,
    pub exact: bool,
}

/// Whether a character has a meaning of its own in a pattern.
pub open spec fn is_meta(c: char) -> bool {
    c == '\\' || c == '.' || c == '+' || c == '*' || c == '?' || c == '(' || c == ')' || c == '|'
        || c == '[' || c == ']' || c == '{' || c == '}' || c == '^' || c == '$' || c == '#' || c
        == '&' || c == '-' || c == '~'
}

/// The first `n` characters as a pattern that matches them literally.
pub open spec fn escaped(s: Seq<char>, n: int) -> Seq<char>
    decreases n,
{
    if n <= 0 {
        Seq::empty()
    } else if is_meta(s[n - 1]) {
        escaped(s, n - 1).push('\\').push(s[n - 1])
    } else {
        escaped(s, n - 1).push(s[n - 1])
    }
}

/// `regex::escape`: a backslash before every character with a meaning of its
/// own in a pattern.
#[verifier::external_body]
pub(crate) fn regex_escape(s: &str) -> (r: String)
    ensures
        r@ == escaped(s@, s@.len() as int),
{
    regex::escape(s)
}

/// The pattern that matches a text with any white space where it has blanks.
pub open spec fn fuzzy_pattern(old: Seq<char>) -> Seq<char> {
    replaced(escaped(old, old.len() as int), " "@, "\\s*"@)
}

/// The first match of a pattern.
#[derive(Debug, PartialEq, Eq)]
pub enum PatternMatch {
    /// The pattern is none.
    Invalid,
    Absent,
    /// The text before the match and the match itself.
    Found { before: String, matched: String },
}

/// The first match of a pattern.
pub enum MatchView {
    Invalid,
    Absent,
    Found { before: Seq<char>, matched: Seq<char> },
}

impl View for PatternMatch {
    type V = MatchView;

    open spec fn view(&self) -> MatchView {
        match *self {
            PatternMatch::Invalid => MatchView::Invalid,
            PatternMatch::Absent => MatchView::Absent,
            PatternMatch::Found { before, matched } => MatchView::Found {
                before: before@,
                matched: matched@,
            },
        }
    }
}

/// The first match of a pattern in a text.
pub uninterp spec fn first_match(pattern: Seq<char>, text: Seq<char>) -> MatchView;

/// `regex::Regex::new` and `regex::Regex::find`: the first match, a function of
/// the pattern and the text alone. A match is a part of the text, and what is
/// before it is the part that leads up to it.
#[verifier::external_body]
pub(crate) fn find_pattern(pattern: &str, text: &str) -> (r: PatternMatch)
    ensures
        r@ == first_match(pattern@, text@),
        match r {
            PatternMatch::Found { before, matched } => (before@ + matched@).is_prefix_of(text@),
            _ => true,
        },
{
    match regex::Regex::new(pattern) {
        Err(_) => PatternMatch::Invalid,
        Ok(re) => match re.find(text) {
            None => PatternMatch::Absent,
            Some(m) => PatternMatch::Found {
                before: text[..m.start()].to_string(),
                matched: m.as_str().to_string(),
            },
        },
    }
}

/// How many line feeds the first `n` characters hold.
pub open spec fn feeds(s: Seq<char>, n: int) -> nat
    decreases n,
{
    if n <= 0 {
        0
    } else {
        feeds(s, n - 1) + if s[n - 1] == '\n' {
            1nat
        } else {
            0nat
        }
    }
}

/// How many line feeds a text holds.
pub open spec fn feed_count(s: Seq<char>) -> nat {
    feeds(s, s.len() as int)
}

fn count_feeds(s: &str) -> (r: usize)
    ensures
        r == feed_count(s@),
        r <= s@.len(),
{
    let cs = chars_of(s);
    let mut count: usize = 0;
    let mut i: usize = 0;
    while i < cs.len()
        invariant
            i <= cs@.len(),
            cs@ == s@,
            count <= i,
            count == feeds(s@, i as int),
        decreases cs@.len() - i,
    {
        if cs[i] == '\n' {
            count = count + 1;
        }
        i = i + 1;
    }
    count
}

/// The preview of a replacement in a file, where `found` is the first match of
/// the old text with its blanks loosened.
pub open spec fn replace_preview(
    old: Seq<char>,
    new: Seq<char>,
    content: Seq<char>,
    found: MatchView,
) -> Option<(int, Seq<DiffView>, bool)> {
    let file = lines_of(content);
    match first_lines(file, lines_of(old), 0) {
        Some(start) => Some(
            (start + 1, replaced_diff(file, lines_of(old), lines_of(new), start), true),
        ),
        None => match found {
            MatchView::Found { before, matched } => Some(
                (
                    feed_count(before) as int + 1,
                    replaced_diff(file, lines_of(matched), lines_of(new), feed_count(before) as int),
                    false,
                ),
            ),
            _ => None,
        },
    }
}

/// The preview of a replacement in a file, where `found` is the first match of
/// the old text with its blanks loosened.
pub fn preview_with_match(x: &Replacement, content: &str, found: &PatternMatch) -> (r: Option<
    ReplacePreview,
>)
    requires
        match found@ {
            MatchView::Found { before, matched } => (before + matched).is_prefix_of(content@),
            _ => true,
        },
        content@.len() < usize::MAX,
    ensures
        match r {
            Some(p) => replace_preview(x.old_string@, x.new_string@, content@, found@) == Some(
                (p.line as int, diff_view(p.diff@), p.exact),
            ),
            None => replace_preview(x.old_string@, x.new_string@, content@, found@) is None,
        },
{
    let file = lines(content);
    let old = lines(x.old_string.as_str());
    let new = lines(x.new_string.as_str());
    match find_lines(&file, &old) {
        Some(start) => {
            proof {
                assert(file@.len() == views(file@).len());
                assert(old@.len() == views(old@).len());
                lemma_lines_len(content@);
            }
            let diff = diff_around(&file, &old, &new, start);
            Some(ReplacePreview { line: start + 1, diff, exact: true })
        },
        None => match found {
            PatternMatch::Found { before, matched } => {
                let start: usize = count_feeds(before.as_str());
                let part = lines(matched.as_str());
                proof {
                    assert(part@.len() == views(part@).len());
                    lemma_lines_len(matched@);
                }
                let diff = diff_around(&file, &part, &new, start);
                Some(ReplacePreview { line: start + 1, diff, exact: false })
            },
            _ => None,
        },
    }
}

/// Finds the old text of a replacement in a file, line by line, or with its
/// blanks loosened, and gives the preview of the replacement.
pub fn compute_str_replace_diff(x: &Replacement, content: &str) -> (r: Option<ReplacePreview>)
    requires
        content@.len() < usize::MAX,
    ensures
        ({
            let found = first_match(fuzzy_pattern(x.old_string@), content@);
            match r {
                Some(p) => replace_preview(x.old_string@, x.new_string@, content@, found) == Some(
                    (p.line as int, diff_view(p.diff@), p.exact),
                ),
                None => replace_preview(x.old_string@, x.new_string@, content@, found) is None,
            }
        }),
{
    proof {
        reveal_strlit(" ");
    }
    let file = lines(content);
    let old = lines(x.old_string.as_str());
    let found = match find_lines(&file, &old) {
        Some(_) => PatternMatch::Absent,
        None => {
            let literal = regex_escape(x.old_string.as_str());
            let pattern = replace(literal.as_str(), " ", "\\s*");
            find_pattern(pattern.as_str(), content)
        },
    };
    preview_with_match(x, content, &found)
}

/// What is shown where the old text is not in the file.
pub open spec fn unmatched_text(path: Seq<char>, old: Seq<char>, new: Seq<char>) -> Seq<char> {
    C_RED@ + "Could not match old_string in: "@ + path + RESET@ + "\n  old: "@ + HDR_RED@ + old
        + RESET@ + "\n  new: "@ + HDR_GREEN@ + new + RESET@ + "\n"@
}

/// What is shown before a replacement, where `found` is the first match of the
/// old text with its blanks loosened.
pub open spec fn replacement_text(
    path: Seq<char>,
    old: Seq<char>,
    new: Seq<char>,
    content: Seq<char>,
    found: MatchView,
) -> Seq<char> {
    match replace_preview(old, new, content, found) {
        Some(p) => preview_text(
            path,
            p.0 as nat,
            p.1,
            Some(
                if p.2 {
                    "exact"@
                } else {
                    "fuzzy"@
                },
            ),
        ),
        None => unmatched_text(path, old, new),
    }
}

fn show_replacement(x: &Replacement, preview: &Option<ReplacePreview>) -> (r: String)
    ensures
        r@ == match *preview {
            Some(p) => preview_text(
                x.path@,
                p.line as nat,
                diff_view(p.diff@),
                Some(
                    if p.exact {
                        "exact"@
                    } else {
                        "fuzzy"@
                    },
                ),
            ),
            None => unmatched_text(x.path@, x.old_string@, x.new_string@),
        },
{
    match preview {
        Some(p) => {
            let kind = if p.exact {
                "exact"
            } else {
                "fuzzy"
            };
            show_diff_preview(x.path.as_str(), p.line, &p.diff, Some(kind))
        },
        None => {
            let mut s = String::from_str(C_RED);
            s.append("Could not match old_string in: ");
            s.append(x.path.as_str());
            s.append(RESET);
            s.append("\n  old: ");
            s.append(HDR_RED);
            s.append(x.old_string.as_str());
            s.append(RESET);
            s.append("\n  new: ");
            s.append(HDR_GREEN);
            s.append(x.new_string.as_str());
            s.append(RESET);
            s.append("\n");
            s
        },
    }
}

/// What is shown before the call of a tool. `file` is the file that a
/// replacement names and `found` the first match of its old text with the
/// blanks loosened.
pub open spec fn command_text(
    name: Seq<char>,
    args: JsonView,
    file: Option<Seq<char>>,
    found: MatchView,
) -> Seq<char> {
    if name == "read_file"@ {
        one_line("-- Read: "@, args.str_at("path"@))
    } else if name == "write_file"@ {
        match (args.str_at("path"@), args.str_at("content"@)) {
            (Some(path), Some(content)) => preview_text(path, 1, all_added(content), None),
            _ => Seq::empty(),
        }
    } else if name == "str_replace_editor"@ {
        match (asked_replacement(args), file) {
            (Some(x), Some(content)) => replacement_text(x.0, x.1, x.2, content, found),
            _ => Seq::empty(),
        }
    } else if name == "execute_bash"@ {
        one_line("-- Command: "@, args.str_at("command"@))
    } else if name == "grep_search"@ {
        match (args.str_at("query"@), args.str_at("path"@)) {
            (Some(query), Some(path)) => "-- Grep: "@ + query + " (in "@ + path + ")\n"@,
            (Some(query), None) => "-- Grep: "@ + query + "\n"@,
            _ => Seq::empty(),
        }
    } else if name == "list_directory"@ {
        one_line("-- List: "@, args.str_at("path"@))
    } else if name == "fetch_web"@ {
        one_line("-- Fetch: "@, args.str_at("url"@))
    } else {
        Seq::empty()
    }
}

/// A line of a label and a value; nothing where there is no value.
pub open spec fn one_line(label: Seq<char>, value: Option<Seq<char>>) -> Seq<char> {
    match value {
        Some(v) => label + v + "\n"@,
        None => Seq::empty(),
    }
}

/// Every line of a text as an added one.
pub open spec fn all_added(content: Seq<char>) -> Seq<DiffView> {
    lines_of(content).map_values(|l: Seq<char>| DiffView::Added(l))
}

fn line_of_value(label: &str, value: Option<&str>) -> (r: String)
    ensures
        r@ == one_line(label@, opt_str_view(value)),
{
    match value {
        Some(v) => {
            let mut s = String::from_str(label);
            s.append(v);
            s.append("\n");
            s
        },
        None => empty_text(),
    }
}

fn empty_text() -> (r: String)
    ensures
        r@ == Seq::<char>::empty(),
{
    let s = String::new();
    proof {
        assert(s@ =~= Seq::<char>::empty());
    }
    s
}

fn added_lines(content: &str) -> (r: Vec<DiffLine>)
    ensures
        diff_view(r@) == all_added(content@),
{
    let list = lines(content);
    let mut out: Vec<DiffLine> = Vec::new();
    let mut i: usize = 0;
    while i < list.len()
        invariant
            i <= list@.len(),
            out@.len() == i,
            forall|k: int| 0 <= k < i ==> (#[trigger] out@[k])@ == DiffView::Added(list@[k]@),
        decreases list@.len() - i,
    {
        out.push(DiffLine::Added(list[i].clone()));
        i = i + 1;
    }
    proof {
        assert(diff_view(out@) =~= views(list@).map_values(|l: Seq<char>| DiffView::Added(l)));
    }
    out
}

/// Shows a tool call before it runs. `file` is the content of the file that a
/// replacement names, where it can be read.
pub fn pretty_print_command(name: &str, args: &Json, file: Option<&str>) -> (r: String)
    requires
        file is Some ==> file->0@.len() < usize::MAX,
    ensures
        r@ == command_text(
            name@,
            args@,
            opt_str_view(file),
            first_match(
                fuzzy_pattern(text_or(args@.str_at("old_string"@), ""@)),
                text_or(opt_str_view(file), ""@),
            ),
        ),
{
    if str_eq(name, "read_file") {
        line_of_value("-- Read: ", args.str_at("path"))
    } else if str_eq(name, "write_file") {
        match (args.str_at("path"), args.str_at("content")) {
            (Some(path), Some(content)) => {
                let diff = added_lines(content);
                show_diff_preview(path, 1, &diff, None)
            },
            _ => empty_text(),
        }
    } else if str_eq(name, "str_replace_editor") {
        match (read_replacement(args), file) {
            (Some(x), Some(content)) => {
                let preview = compute_str_replace_diff(&x, content);
                show_replacement(&x, &preview)
            },
            _ => empty_text(),
        }
    } else if str_eq(name, "execute_bash") {
        line_of_value("-- Command: ", args.str_at("command"))
    } else if str_eq(name, "grep_search") {
        match (args.str_at("query"), args.str_at("path")) {
            (Some(query), Some(path)) => {
                let mut s = String::from_str("-- Grep: ");
                s.append(query);
                s.append(" (in ");
                s.append(path);
                s.append(")\n");
                s
            },
            (Some(query), None) => {
                let mut s = String::from_str("-- Grep: ");
                s.append(query);
                s.append("\n");
                s
            },
            _ => empty_text(),
        }
    } else if str_eq(name, "list_directory") {
        line_of_value("-- List: ", args.str_at("path"))
    } else if str_eq(name, "fetch_web") {
        line_of_value("-- Fetch: ", args.str_at("url"))
    } else {
        empty_text()
    }
}

// ---------------------------------------------------------------------------
// Results
// ---------------------------------------------------------------------------

/// The lines of a file that hold the first occurrence of a text.
pub open spec fn occurrence_lines(content: Seq<char>, new: Seq<char>) -> Option<(int, int)> {
    match split_first(content, new) {
        Some(p) => Some(
            (
                feed_count(p.0) as int + 1,
                feed_count(p.0) as int + 1 + feed_count(new) as int,
            ),
        ),
        None => None,
    }
}

/// The lines of a file that hold the new text of a replacement.
pub fn compute_replace_lines(args: &Json, content: &str) -> (r: Option<(u64, u64)>)
    requires
        content@.len() < u64::MAX,
    ensures
        match r {
            Some(p) => args@.str_at("new_string"@) is Some && occurrence_lines(
                content@,
                args@.str_at("new_string"@)->0,
            ) == Some((p.0 as int, p.1 as int)),
            None => args@.str_at("new_string"@) is None || occurrence_lines(
                content@,
                args@.str_at("new_string"@)->0,
            ) is None,
        },
{
    match args.str_at("new_string") {
        None => None,
        Some(new) => match split_once(content, new) {
            None => None,
            Some((before, _)) => {
                proof {
                    crate::text::lemma_first_from(content@, new@, 0);
                }
                let above: u64 = count_feeds(before) as u64;
                let within: u64 = count_feeds(new) as u64;
                Some((above + 1, above + 1 + within))
            },
        },
    }
}

/// A plural ending.
pub open spec fn ending(n: int, many: Seq<char>) -> Seq<char> {
    if n != 1 {
        many
    } else {
        ""@
    }
}

/// A text without its line breaks.
pub open spec fn unbroken(s: Seq<char>) -> Seq<char> {
    replaced(replaced(s, "\r"@, ""@), "\n"@, ""@)
}

/// The first ten characters of a text.
pub open spec fn first_ten(s: Seq<char>) -> Seq<char> {
    if s.len() <= 10 {
        s
    } else {
        s.take(10)
    }
}

/// The last ten characters of a text.
pub open spec fn last_ten(s: Seq<char>) -> Seq<char> {
    if s.len() <= 10 {
        s
    } else {
        s.skip(s.len() - 10)
    }
}

/// The beginning and the end of a content: its first and its last ten
/// characters, line breaks left out.
pub open spec fn excerpt(content: Seq<char>) -> Seq<char> {
    first_ten(unbroken(content)) + " ... "@ + last_ten(unbroken(content))
}

fn excerpt_of(content: &str) -> (r: String)
    ensures
        r@ == excerpt(content@),
{
    proof {
        reveal_strlit("\r");
        reveal_strlit("\n");
    }
    let a = replace(content, "\r", "");
    let t = replace(a.as_str(), "\n", "");
    let cs = chars_of(t.as_str());
    let n: usize = cs.len();
    let k: usize = if n <= 10 {
        n
    } else {
        10
    };
    let mut s = string_of(&cs, 0, k);
    let last = string_of(&cs, n - k, n);
    proof {
        assert(t@.subrange(0, k as int) =~= first_ten(t@));
        assert(t@.subrange(n - k, n as int) =~= last_ten(t@));
    }
    s.append(" ... ");
    s.append(last.as_str());
    s
}

/// The number named `k`, or zero.
pub open spec fn count_at(j: JsonView, k: Seq<char>) -> int {
    match j.u64_at(k) {
        Some(n) => n,
        None => 0,
    }
}

fn number_at(j: &Json, k: &str) -> (r: u64)
    ensures
        r == count_at(j@, k@),
{
    match j.u64_at(k) {
        Some(n) => n,
        None => 0,
    }
}

/// The result of reading a file.
pub open spec fn read_result(j: JsonView) -> Seq<char> {
    let content = text_or(j.str_at("content"@), ""@);
    "["@ + decimal(utf8_len(content)) + " bytes, L"@ + decimal(count_at(j, "start_line"@) as nat)
        + "-L"@ + decimal(count_at(j, "end_line"@) as nat) + " (file total: "@ + decimal(
        count_at(j, "total_lines"@) as nat,
    ) + " lines) ("@ + text_or(j.str_at("path"@), "?"@) + ")] "@ + excerpt(content) + "\n"@
}

fn show_read(j: &Json) -> (r: String)
    ensures
        r@ == read_result(j@),
{
    let content = str_or(j.str_at("content"), "");
    let bytes = usize_text(byte_len(content));
    let start = u64_text(number_at(j, "start_line"));
    let end = u64_text(number_at(j, "end_line"));
    let total = u64_text(number_at(j, "total_lines"));
    let ends = excerpt_of(content);
    let mut s = String::from_str("[");
    s.append(bytes.as_str());
    s.append(" bytes, L");
    s.append(start.as_str());
    s.append("-L");
    s.append(end.as_str());
    s.append(" (file total: ");
    s.append(total.as_str());
    s.append(" lines) (");
    s.append(str_or(j.str_at("path"), "?"));
    s.append(")] ");
    s.append(ends.as_str());
    s.append("\n");
    s
}

/// The result of writing a file, with the ends of the content where it is known.
pub open spec fn write_result(j: JsonView, content: Option<Seq<char>>) -> Seq<char> {
    "["@ + decimal(count_at(j, "bytes_written"@) as nat) + " bytes ("@ + text_or(
        j.str_at("path"@),
        "?"@,
    ) + ")]"@ + (match content {
        Some(c) => " "@ + excerpt(c),
        None => ""@,
    }) + "\n"@
}

fn show_write(j: &Json, content: Option<&str>) -> (r: String)
    ensures
        r@ == write_result(j@, opt_str_view(content)),
{
    let bytes = u64_text(number_at(j, "bytes_written"));
    let ends = match content {
        Some(c) => {
            let mut e = String::from_str(" ");
            let x = excerpt_of(c);
            e.append(x.as_str());
            e
        },
        None => "".to_owned(),
    };
    let mut s = String::from_str("[");
    s.append(bytes.as_str());
    s.append(" bytes (");
    s.append(str_or(j.str_at("path"), "?"));
    s.append(")]");
    s.append(ends.as_str());
    s.append("\n");
    s
}

/// The result of a replacement; `place` is where the new text stands.
pub open spec fn replace_result(j: JsonView, place: Option<(u64, u64)>) -> Seq<char> {
    let label = match_label(j.str_at("match_type"@));
    let path = text_or(j.str_at("path"@), "?"@);
    match place {
        Some(p) => "[L"@ + decimal(p.0 as nat) + "-L"@ + decimal(p.1 as nat) + ": "@ + label
            + " ("@ + path + ")]\n"@,
        None => "[: "@ + label + " ("@ + path + ")]\n"@,
    }
}

fn show_replace(j: &Json, place: Option<(u64, u64)>) -> (r: String)
    ensures
        r@ == replace_result(j@, place),
{
    let label = label_of(j.str_at("match_type"));
    let path = str_or(j.str_at("path"), "?");
    match place {
        Some((a, b)) => {
            let from = u64_text(a);
            let to = u64_text(b);
            let mut s = String::from_str("[L");
            s.append(from.as_str());
            s.append("-L");
            s.append(to.as_str());
            s.append(": ");
            s.append(label.as_str());
            s.append(" (");
            s.append(path);
            s.append(")]\n");
            s
        },
        None => {
            let mut s = String::from_str("[: ");
            s.append(label.as_str());
            s.append(" (");
            s.append(path);
            s.append(")]\n");
            s
        },
    }
}

/// The lines of the first `n` matches of a search.
pub open spec fn match_lines(a: Seq<JsonView>, n: int) -> Seq<char>
    decreases n,
{
    if n <= 0 {
        Seq::empty()
    } else {
        match_lines(a, n - 1) + (" - "@ + text_or(a[n - 1].str_at("path"@), "?"@) + ":"@ + decimal(
            count_at(a[n - 1], "line"@) as nat,
        ) + ":"@ + text_or(a[n - 1].str_at("text"@), ""@) + "\n"@)
    }
}

/// The result of a search.
pub open spec fn grep_result(j: JsonView) -> Seq<char> {
    let total = count_at(j, "total_matches"@);
    (match j.array_at("matches"@) {
        Some(a) => match_lines(a, a.len() as int),
        None => Seq::empty(),
    }) + ("["@ + decimal(total as nat) + " match"@ + ending(total, "es"@) + "]\n"@)
}

fn show_grep(j: &Json) -> (r: String)
    ensures
        r@ == grep_result(j@),
{
    let mut s = empty_text();
    match j.array_at("matches") {
        Some(v) => {
            let ghost a = json_seq(v@);
            let mut i: usize = 0;
            while i < v.len()
                invariant
                    i <= v@.len(),
                    a == json_seq(v@),
                    s@ == match_lines(a, i as int),
                decreases v@.len() - i,
            {
                let m = &v[i];
                proof {
                    assert(a[i as int] == m@);
                }
                let line = u64_text(number_at(m, "line"));
                let mut t = String::from_str(" - ");
                t.append(str_or(m.str_at("path"), "?"));
                t.append(":");
                t.append(line.as_str());
                t.append(":");
                t.append(str_or(m.str_at("text"), ""));
                t.append("\n");
                s.append(t.as_str());
                i = i + 1;
            }
        },
        None => {},
    }
    let total: u64 = number_at(j, "total_matches");
    let d = u64_text(total);
    let mut t = String::from_str("[");
    t.append(d.as_str());
    t.append(" match");
    t.append(
        if total != 1 {
            "es"
        } else {
            ""
        },
    );
    t.append("]\n");
    s.append(t.as_str());
    s
}

/// The mark behind the name of a directory entry.
pub open spec fn entry_mark(kind: Seq<char>) -> Seq<char> {
    if kind == "directory"@ {
        "/"@
    } else if kind == "symlink"@ {
        "@"@
    } else {
        ""@
    }
}

/// The lines of the first `n` entries of a directory.
pub open spec fn entry_lines(a: Seq<JsonView>, n: int) -> Seq<char>
    decreases n,
{
    if n <= 0 {
        Seq::empty()
    } else {
        entry_lines(a, n - 1) + (" - "@ + text_or(a[n - 1].str_at("name"@), "?"@) + entry_mark(
            text_or(a[n - 1].str_at("type"@), "?"@),
        ) + "\n"@)
    }
}

/// The result of listing a directory.
pub open spec fn list_result(j: JsonView) -> Seq<char> {
    let a = match j.array_at("entries"@) {
        Some(a) => a,
        None => Seq::empty(),
    };
    entry_lines(a, a.len() as int) + ("["@ + decimal(a.len()) + " item"@ + ending(
        a.len() as int,
        "s"@,
    ) + "]\n"@)
}

fn show_list(j: &Json) -> (r: String)
    ensures
        r@ == list_result(j@),
{
    let mut s = empty_text();
    let mut count: usize = 0;
    match j.array_at("entries") {
        Some(v) => {
            let ghost a = json_seq(v@);
            let mut i: usize = 0;
            while i < v.len()
                invariant
                    i <= v@.len(),
                    a == json_seq(v@),
                    s@ == entry_lines(a, i as int),
                decreases v@.len() - i,
            {
                let e = &v[i];
                proof {
                    assert(a[i as int] == e@);
                }
                let kind = str_or(e.str_at("type"), "?");
                let mut t = String::from_str(" - ");
                t.append(str_or(e.str_at("name"), "?"));
                t.append(
                    if str_eq(kind, "directory") {
                        "/"
                    } else if str_eq(kind, "symlink") {
                        "@"
                    } else {
                        ""
                    },
                );
                t.append("\n");
                s.append(t.as_str());
                i = i + 1;
            }
            count = v.len();
        },
        None => {},
    }
    let d = usize_text(count);
    let mut t = String::from_str("[");
    t.append(d.as_str());
    t.append(" item");
    t.append(
        if count != 1 {
            "s"
        } else {
            ""
        },
    );
    t.append("]\n");
    s.append(t.as_str());
    s
}

/// The first `n` lines, each with a line feed.
pub open spec fn fed_lines(lines: Seq<Seq<char>>, n: int) -> Seq<char>
    decreases n,
{
    if n <= 0 {
        Seq::empty()
    } else {
        fed_lines(lines, n - 1) + lines[n - 1] + "\n"@
    }
}

/// An output stream of a command; nothing where it is empty.
pub open spec fn stream_text(label: Seq<char>, out: Seq<char>) -> Seq<char> {
    if out.len() == 0 {
        Seq::empty()
    } else {
        C_GRAY@ + label + RESET@ + "\n"@ + fed_lines(lines_of(out), lines_of(out).len() as int) + (
        if "\n"@.is_suffix_of(out) {
            ""@
        } else {
            "\n"@
        })
    }
}

fn show_stream(label: &str, out: &str) -> (r: String)
    ensures
        r@ == stream_text(label@, out@),
{
    if out.is_empty() {
        return empty_text();
    }
    let list = lines(out);
    let ghost all = views(list@);
    let mut body = empty_text();
    let mut i: usize = 0;
    while i < list.len()
        invariant
            i <= list@.len(),
            all == views(list@),
            body@ == fed_lines(all, i as int),
        decreases list@.len() - i,
    {
        body.append(list[i].as_str());
        body.append("\n");
        i = i + 1;
    }
    let mut s = String::from_str(C_GRAY);
    s.append(label);
    s.append(RESET);
    s.append("\n");
    s.append(body.as_str());
    s.append(
        if ends_with(out, "\n") {
            ""
        } else {
            "\n"
        },
    );
    s
}

/// The result of a command.
pub open spec fn bash_result(j: JsonView) -> Seq<char> {
    let exit = match j.i64_at("exit_code"@) {
        Some(n) => n,
        None => 0,
    };
    stream_text("stdout:"@, text_or(j.str_at("stdout"@), ""@)) + stream_text(
        "stderr:"@,
        text_or(j.str_at("stderr"@), ""@),
    ) + ("[exit "@ + (if exit == 0 {
        C_GREEN@
    } else {
        C_RED@
    }) + decimal_int(exit) + RESET@ + "]\n"@)
}

fn show_bash(j: &Json) -> (r: String)
    ensures
        r@ == bash_result(j@),
{
    let exit: i64 = match j.i64_at("exit_code") {
        Some(n) => n,
        None => 0,
    };
    let out = show_stream("stdout:", str_or(j.str_at("stdout"), ""));
    let err = show_stream("stderr:", str_or(j.str_at("stderr"), ""));
    let code = i64_text(exit);
    let mut t = String::from_str("[exit ");
    t.append(
        if exit == 0 {
            C_GREEN
        } else {
            C_RED
        },
    );
    t.append(code.as_str());
    t.append(RESET);
    t.append("]\n");
    let mut s = out;
    s.append(err.as_str());
    s.append(t.as_str());
    s
}

/// The result of fetching a page.
pub open spec fn fetch_result(j: JsonView) -> Seq<char> {
    let content = text_or(j.str_at("content"@), ""@);
    "["@ + decimal(utf8_len(content)) + " bytes ("@ + text_or(j.str_at("url"@), "?"@) + ")] "@
        + excerpt(content) + "\n"@
}

fn show_fetch(j: &Json) -> (r: String)
    ensures
        r@ == fetch_result(j@),
{
    let content = str_or(j.str_at("content"), "");
    let bytes = usize_text(byte_len(content));
    let ends = excerpt_of(content);
    let mut s = String::from_str("[");
    s.append(bytes.as_str());
    s.append(" bytes (");
    s.append(str_or(j.str_at("url"), "?"));
    s.append(")] ");
    s.append(ends.as_str());
    s.append("\n");
    s
}

/// A result as it is written.
pub open spec fn raw_result(j: JsonView) -> Seq<char> {
    C_GRAY@ + "Result:"@ + RESET@ + " "@ + json_written(j) + "\n"@
}

/// A result that has no form of its own, as it is written.
pub(crate) fn show_raw(j: &Json) -> (r: String)
    ensures
        r@ == raw_result(j@),
{
    let t = print_json(j);
    let mut s = String::from_str(C_GRAY);
    s.append("Result:");
    s.append(RESET);
    s.append(" ");
    s.append(t.as_str());
    s.append("\n");
    s
}

/// Why a tool failed, where a result says so.
pub open spec fn failure_reason(j: JsonView) -> Option<Seq<char>> {
    match j.str_at("error"@) {
        Some(e) => Some(e),
        None => if j.str_at("status"@) == Some("error"@) {
            j.str_at("message"@)
        } else {
            None
        },
    }
}

/// Why a tool failed, where a result says so.
pub(crate) fn find_failure<'a>(j: &'a Json) -> (r: Option<&'a str>)
    ensures
        opt_str_view(r) == failure_reason(j@),
{
    match j.str_at("error") {
        Some(e) => Some(e),
        None => if opt_is(j.str_at("status"), "error") {
            j.str_at("message")
        } else {
            None
        },
    }
}

/// A text on one line.
pub open spec fn flat(s: Seq<char>) -> Seq<char> {
    replaced(replaced(s, "\r\n"@, " "@), "\n"@, " "@)
}

/// The line on a failure.
pub open spec fn failure_text(reason: Seq<char>) -> Seq<char> {
    C_RED@ + "Error: "@ + reason + RESET@ + "\n"@
}

/// Shows a failure, on one line or as it is.
pub(crate) fn show_failure(reason: &str, on_one_line: bool) -> (r: String)
    ensures
        r@ == failure_text(
            if on_one_line {
                flat(reason@)
            } else {
                reason@
            },
        ),
{
    let mut s = String::from_str(C_RED);
    s.append("Error: ");
    if on_one_line {
        proof {
            reveal_strlit("\r\n");
            reveal_strlit("\n");
        }
        let a = replace(reason, "\r\n", " ");
        let b = replace(a.as_str(), "\n", " ");
        s.append(b.as_str());
    } else {
        s.append(reason);
    }
    s.append(RESET);
    s.append("\n");
    s
}

/// Whether a tool has a form of its own for results.
pub open spec fn is_known_tool(name: Seq<char>) -> bool {
    is_one_line_tool(name) || name == "execute_bash"@ || name == "fetch_web"@
}

/// Whether the failures of a tool are shown on one line.
pub open spec fn is_one_line_tool(name: Seq<char>) -> bool {
    name == "read_file"@ || name == "write_file"@ || name == "str_replace_editor"@ || name
        == "grep_search"@ || name == "list_directory"@
}

/// The result of a tool that did its work.
pub open spec fn success_text(
    name: Seq<char>,
    j: JsonView,
    args: Option<JsonView>,
    place: Option<(u64, u64)>,
) -> Seq<char> {
    if name == "read_file"@ {
        read_result(j)
    } else if name == "write_file"@ {
        write_result(
            j,
            match args {
                Some(a) => a.str_at("content"@),
                None => None,
            },
        )
    } else if name == "str_replace_editor"@ {
        replace_result(j, place)
    } else if name == "grep_search"@ {
        grep_result(j)
    } else if name == "list_directory"@ {
        list_result(j)
    } else if name == "execute_bash"@ {
        bash_result(j)
    } else if name == "fetch_web"@ {
        fetch_result(j)
    } else {
        raw_result(j)
    }
}

/// The result of a tool, called with the given arguments: why it failed, or what
/// it did.
pub open spec fn result_text(
    name: Seq<char>,
    j: JsonView,
    args: Option<JsonView>,
    place: Option<(u64, u64)>,
) -> Seq<char> {
    if !(j is Object) {
        raw_result(j)
    } else {
        match failure_reason(j) {
            Some(reason) if is_one_line_tool(name) => failure_text(flat(reason)),
            Some(reason) if is_known_tool(name) => failure_text(reason),
            _ => success_text(name, j, args, place),
        }
    }
}

/// Shows the result of a tool, called with the given arguments. `place` is where
/// the new text of a replacement stands in the file, as
/// [`compute_replace_lines`] finds it.
pub fn pretty_print_result(
    name: &str,
    result: &Json,
    args: Option<&Json>,
    place: Option<(u64, u64)>,
) -> (r: String)
    ensures
        r@ == result_text(name@, result@, opt_json(args), place),
{
    match result {
        Json::Object(_) => {},
        _ => {
            return show_raw(result);
        },
    }
    let on_one_line = str_eq(name, "read_file") || str_eq(name, "write_file") || str_eq(
        name,
        "str_replace_editor",
    ) || str_eq(name, "grep_search") || str_eq(name, "list_directory");
    match find_failure(result) {
        Some(reason) => {
            if on_one_line || str_eq(name, "execute_bash") || str_eq(name, "fetch_web") {
                return show_failure(reason, on_one_line);
            }
        },
        None => {},
    }
    if str_eq(name, "read_file") {
        show_read(result)
    } else if str_eq(name, "write_file") {
        let content = match args {
            Some(a) => a.str_at("content"),
            None => None,
        };
        show_write(result, content)
    } else if str_eq(name, "str_replace_editor") {
        show_replace(result, place)
    } else if str_eq(name, "grep_search") {
        show_grep(result)
    } else if str_eq(name, "list_directory") {
        show_list(result)
    } else if str_eq(name, "execute_bash") {
        show_bash(result)
    } else if str_eq(name, "fetch_web") {
        show_fetch(result)
    } else {
        show_raw(result)
    }
}

} // verus!
