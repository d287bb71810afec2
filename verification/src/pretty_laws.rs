//! Laws of what is shown before and after a tool runs: the user sees every line that
//! changes, and every result.

use vstd::prelude::*;
use vstd::string::*;

use crate::json_model::{group_json, JsonView, Members};
use crate::pretty::{
    added_count, all_added, context_lines, context_start, diff_of, diff_holds_both_texts, feeds,
    fed_lines, first_lines, kept_lines, lines_at, match_lines, new_count, new_side, old_count,
    old_side, preview_lines, removed_count, replaced_diff, shortened_json, shortened_members,
    DiffView,
};
use crate::startup::RESET;
use crate::text::{decimal, lines_of};
use crate::text_laws::{lemma_run_push, run_together};
use crate::pretty_data::{cell_width, column_width};

verus! {

broadcast use group_json;

// ---------------------------------------------------------------------------
// Previews
// ---------------------------------------------------------------------------

/// The text of a line of a difference.
pub open spec fn text_in(d: DiffView) -> Seq<char> {
    match d {
        DiffView::Context(c) => c,
        DiffView::Removed(c) => c,
        DiffView::Added(c) => c,
    }
}

/// Every line of a difference is shown behind those before it, with its whole text at
/// the end.
pub proof fn every_line_is_previewed(d: Seq<DiffView>, start: nat, n: int)
    requires
        0 < n <= d.len(),
    ensures
        ({
            let before = preview_lines(d, start, n - 1);
            let now = preview_lines(d, start, n);
            &&& before.is_prefix_of(now)
            &&& now.len() > before.len()
            &&& (text_in(d[n - 1]) + RESET@ + "\n"@).is_suffix_of(now)
        }),
        preview_lines(d, start, 0).len() == 0,
{
    let before = preview_lines(d, start, n - 1);
    let now = preview_lines(d, start, n);
    let end = text_in(d[n - 1]) + RESET@ + "\n"@;
    reveal_strlit("\n");
    assert(now.subrange(0, before.len() as int) =~= before);
    assert(now.subrange(now.len() - end.len(), now.len() as int) =~= end);
}

/// The numbers beside the lines count the lines of either text, and the counts at the end
/// are those of the lines added and removed.
pub proof fn lines_are_counted(d: Seq<DiffView>, n: int)
    requires
        0 <= n <= d.len(),
    ensures
        old_count(d, n) == old_side(d.take(n)).len(),
        new_count(d, n) == new_side(d.take(n)).len(),
        added_count(d, n) + kept_lines(d.take(n)) == new_side(d.take(n)).len(),
        removed_count(d, n) + kept_lines(d.take(n)) == old_side(d.take(n)).len(),
    decreases n,
{
    if n > 0 {
        lines_are_counted(d, n - 1);
        assert(d.take(n).drop_last() =~= d.take(n - 1));
        assert(d.take(n).last() == d[n - 1]);
    }
}

/// A new file is previewed with all of its lines, every one as added.
pub proof fn new_files_are_all_added(content: Seq<char>)
    ensures
        new_side(all_added(content)) == lines_of(content),
        old_side(all_added(content)).len() == 0,
{
    let l = lines_of(content);
    lemma_all_added(l, l.len() as int);
    let d = all_added(content);
    assert(d.take(d.len() as int) =~= d);
    assert(l.take(l.len() as int) =~= l);
}

proof fn lemma_all_added(l: Seq<Seq<char>>, n: int)
    requires
        0 <= n <= l.len(),
    ensures
        new_side(l.map_values(|x: Seq<char>| DiffView::Added(x)).take(n)) == l.take(n),
        old_side(l.map_values(|x: Seq<char>| DiffView::Added(x)).take(n)).len() == 0,
    decreases n,
{
    let d = l.map_values(|x: Seq<char>| DiffView::Added(x));
    if n > 0 {
        lemma_all_added(l, n - 1);
        assert(d.take(n).drop_last() =~= d.take(n - 1));
        assert(d.take(n).last() == DiffView::Added(l[n - 1]));
        assert(l.take(n) =~= l.take(n - 1).push(l[n - 1]));
    } else {
        assert(new_side(d.take(0)) =~= l.take(0));
    }
}

/// The place of a replacement is the first at which the old lines stand.
pub proof fn the_first_place_is_found(all: Seq<Seq<char>>, part: Seq<Seq<char>>, i: int)
    requires
        0 <= i <= all.len(),
    ensures
        match first_lines(all, part, i) {
            Some(k) => i <= k < all.len() && lines_at(all, part, k) && forall|j: int|
                i <= j < k ==> !lines_at(all, part, j),
            None => forall|j: int| i <= j < all.len() ==> !lines_at(all, part, j),
        },
    decreases all.len() - i,
{
    if i < all.len() && !lines_at(all, part, i) {
        the_first_place_is_found(all, part, i + 1);
    }
}

proof fn lemma_sides_add(a: Seq<DiffView>, b: Seq<DiffView>)
    ensures
        old_side(a + b) == old_side(a) + old_side(b),
        new_side(a + b) == new_side(a) + new_side(b),
    decreases b.len(),
{
    if b.len() == 0 {
        assert(a + b =~= a);
        assert(old_side(a) + old_side(b) =~= old_side(a));
        assert(new_side(a) + new_side(b) =~= new_side(a));
    } else {
        lemma_sides_add(a, b.drop_last());
        assert((a + b).drop_last() =~= a + b.drop_last());
        assert((a + b).last() == b.last());
        assert(old_side(a + b) =~= old_side(a) + old_side(b));
        assert(new_side(a + b) =~= new_side(a) + new_side(b));
    }
}

proof fn lemma_context(l: Seq<Seq<char>>, n: int)
    requires
        0 <= n <= l.len(),
    ensures
        old_side(l.map_values(|x: Seq<char>| DiffView::Context(x)).take(n)) == l.take(n),
        new_side(l.map_values(|x: Seq<char>| DiffView::Context(x)).take(n)) == l.take(n),
    decreases n,
{
    let d = l.map_values(|x: Seq<char>| DiffView::Context(x));
    if n > 0 {
        lemma_context(l, n - 1);
        assert(d.take(n).drop_last() =~= d.take(n - 1));
        assert(d.take(n).last() == DiffView::Context(l[n - 1]));
        assert(l.take(n) =~= l.take(n - 1).push(l[n - 1]));
    } else {
        assert(new_side(d.take(0)) =~= l.take(0));
        assert(old_side(d.take(0)) =~= l.take(0));
    }
}

proof fn lemma_context_lines(lines: Seq<Seq<char>>, from: int, to: int)
    requires
        0 <= from <= to <= lines.len(),
    ensures
        old_side(context_lines(lines, from, to)) == lines.subrange(from, to),
        new_side(context_lines(lines, from, to)) == lines.subrange(from, to),
{
    let l = lines.subrange(from, to);
    lemma_context(l, l.len() as int);
    let d = l.map_values(|x: Seq<char>| DiffView::Context(x));
    assert(d.take(l.len() as int) =~= d);
    assert(l.take(l.len() as int) =~= l);
}

/// The preview of a replacement is the piece of the file around it, before and after: the
/// old lines with up to two lines before and three behind them, and in their place the new
/// ones.
pub proof fn replacements_are_previewed(
    file: Seq<Seq<char>>,
    old: Seq<Seq<char>>,
    new: Seq<Seq<char>>,
    start: int,
)
    requires
        lines_at(file, old, start),
        start < 0x8000_0000,
    ensures
        ({
            let d = replaced_diff(file, old, new, start);
            let from = if start >= 2 {
                start - 2
            } else {
                0
            };
            let end = start + old.len();
            let to = if end + 3 <= file.len() {
                end + 3
            } else {
                file.len() as int
            };
            &&& old_side(d) == file.subrange(from, to)
            &&& new_side(d) == file.subrange(from, start) + new + file.subrange(end, to)
        }),
{
    let end = start + old.len();
    let from = if start >= 2 {
        start - 2
    } else {
        0
    };
    let to = if end + 3 <= file.len() {
        end + 3
    } else {
        file.len() as int
    };
    assert(context_start(start) == from);
    let a = context_lines(file, from, start);
    let b = diff_of(old, new, old.len() as int, new.len() as int);
    let c = context_lines(file, end, to);
    lemma_context_lines(file, from, start);
    lemma_context_lines(file, end, to);
    diff_holds_both_texts(old, new);
    lemma_sides_add(a, b);
    lemma_sides_add(a + b, c);
    assert(file.subrange(start, end) == old);
    assert(file.subrange(from, start) + old + file.subrange(end, to) =~= file.subrange(from, to));
}

// ---------------------------------------------------------------------------
// Results
// ---------------------------------------------------------------------------

/// Every match of a search is shown, in order, with its path, its line and its text.
pub proof fn every_match_is_shown(
    a: Seq<JsonView>,
    paths: Seq<Seq<char>>,
    numbers: Seq<u64>,
    texts: Seq<Seq<char>>,
    n: int,
)
    requires
        0 <= n <= a.len(),
        paths.len() == a.len() && numbers.len() == a.len() && texts.len() == a.len(),
        forall|i: int|
            0 <= i < a.len() ==> (#[trigger] a[i]).str_at("path"@) == Some(paths[i]) && a[i].get(
                "line"@,
            ) == Some(JsonView::Int(numbers[i] as int)) && a[i].str_at("text"@) == Some(texts[i]),
    ensures
        match_lines(a, n) == run_together(
            Seq::new(
                n as nat,
                |i: int|
                    " - "@ + paths[i] + ":"@ + decimal(numbers[i] as nat) + ":"@ + texts[i] + "\n"@,
            ),
        ),
    decreases n,
{
    let f = |i: int|
        " - "@ + paths[i] + ":"@ + decimal(numbers[i] as nat) + ":"@ + texts[i] + "\n"@;
    if n > 0 {
        every_match_is_shown(a, paths, numbers, texts, n - 1);
        assert(a[n - 1].str_at("path"@) == Some(paths[n - 1]));
        let before = Seq::new((n - 1) as nat, f);
        assert(Seq::new(n as nat, f) =~= before.push(f(n - 1)));
        lemma_run_push(before, f(n - 1));
    } else {
        assert(Seq::new(0, f) =~= Seq::<Seq<char>>::empty());
    }
}

/// A value that is shown short keeps all of its members, by name and in order, and a
/// value within it that is no text, list or object stays as it is.
pub proof fn short_values_keep_their_members(m: Members, n: nat, i: int)
    requires
        n <= m.len(),
        0 <= i < n,
    ensures
        shortened_members(m, n).len() == n,
        shortened_members(m, n)[i].0 == m[i].0,
        shortened_members(m, n)[i].1 == shortened_json(m[i].1),
        m[i].1 is Int || m[i].1 is Bool || m[i].1 is Null || m[i].1 is Real ==> shortened_members(
            m,
            n,
        )[i].1 == m[i].1,
    decreases n,
{
    lemma_short_len(m, n);
    lemma_short_len(m, (n - 1) as nat);
    if i < n - 1 {
        short_values_keep_their_members(m, (n - 1) as nat, i);
    }
}

proof fn lemma_short_len(m: Members, n: nat)
    requires
        n <= m.len(),
    ensures
        shortened_members(m, n).len() == n,
    decreases n,
{
    if n > 0 {
        lemma_short_len(m, (n - 1) as nat);
    }
}

/// Every line of what a command printed is shown.
pub proof fn every_printed_line_is_shown(lines: Seq<Seq<char>>, n: int)
    requires
        0 <= n <= lines.len(),
    ensures
        fed_lines(lines, n) == run_together(lines.take(n).map_values(|l: Seq<char>| l + "\n"@)),
    decreases n,
{
    let f = |l: Seq<char>| l + "\n"@;
    if n > 0 {
        every_printed_line_is_shown(lines, n - 1);
        let before = lines.take(n - 1).map_values(f);
        assert(lines.take(n).map_values(f) =~= before.push(f(lines[n - 1])));
        lemma_run_push(before, f(lines[n - 1]));
        assert(run_together(before) + lines[n - 1] + "\n"@ =~= run_together(before) + (lines[n - 1]
            + "\n"@));
    } else {
        assert(lines.take(0).map_values(f) =~= Seq::<Seq<char>>::empty());
    }
}

/// Line feeds are counted one by one.
pub proof fn line_feeds_are_counted(a: Seq<char>, b: Seq<char>, n: int)
    requires
        0 <= n <= b.len(),
    ensures
        feeds(a + b, a.len() + n) == feeds(a, a.len() as int) + feeds(b, n),
    decreases n,
{
    if n > 0 {
        line_feeds_are_counted(a, b, n - 1);
        assert((a + b)[a.len() + n - 1] == b[n - 1]);
    } else {
        lemma_feeds_front(a, b, a.len() as int);
    }
}

proof fn lemma_feeds_front(a: Seq<char>, b: Seq<char>, n: int)
    requires
        0 <= n <= a.len(),
    ensures
        feeds(a + b, n) == feeds(a, n),
    decreases n,
{
    if n > 0 {
        lemma_feeds_front(a, b, n - 1);
        assert((a + b)[n - 1] == a[n - 1]);
    }
}

/// A column is as wide as its widest cell, and no wider: every cell and the header fit,
/// and one of them fills it.
pub proof fn columns_are_as_wide_as_their_cells(
    headers: Seq<Seq<char>>,
    rows: Seq<Seq<Seq<char>>>,
    c: int,
    n: int,
)
    requires
        0 <= n <= rows.len(),
        0 <= c < headers.len(),
    ensures
        column_width(headers, rows, c, n) >= cell_width(headers[c]),
        forall|i: int|
            0 <= i < n && c < rows[i].len() ==> cell_width(#[trigger] rows[i][c]) <= column_width(
                headers,
                rows,
                c,
                n,
            ),
        column_width(headers, rows, c, n) == cell_width(headers[c]) || exists|i: int|
            0 <= i < n && c < rows[i].len() && cell_width(#[trigger] rows[i][c]) == column_width(
                headers,
                rows,
                c,
                n,
            ),
    decreases n,
{
    if n > 0 {
        columns_are_as_wide_as_their_cells(headers, rows, c, n - 1);
    }
}

} // verus!
