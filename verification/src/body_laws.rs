//! Laws of the body of a page: no span, line, item, table or heading of it gets lost, and
//! all stand in reading order.

use vstd::prelude::*;
use vstd::string::*;

use crate::file_pdf::{
    clamped_level, extra_event, extras_between, with_chrome, with_content, with_marginal, Extra,
    RegionData, RegionKind, SheetView, annotation_facts, built_sheet, image_fact, link_facts,
    with_contents, with_marginals, PageData,
};
use crate::pdf_body::{
    blocks_upto, body_blocks, columns, is_body_span, line_of, marked_blocks, paragraph_done,
    place_of, reading_order, reads_before, styled, table_rows, with_cells, BuildView, EventView,
    Rise, Span, TableData, TextLine,
};
use crate::text::{join_of, squeezed, trimmed};
use crate::text_laws::{joining_puts_the_separator_between, lemma_run_push, run_together};

verus! {

// ---------------------------------------------------------------------------
// Spans
// ---------------------------------------------------------------------------

proof fn lemma_place(spans: Seq<Span>, order: Seq<int>, k: int, i: int)
    requires
        0 <= i <= order.len(),
    ensures
        i <= place_of(spans, order, k, i) <= order.len(),
        forall|j: int|
            i <= j < place_of(spans, order, k, i) ==> !reads_before(spans, k, #[trigger] order[j]),
        place_of(spans, order, k, i) < order.len() ==> reads_before(
            spans,
            k,
            order[place_of(spans, order, k, i)],
        ),
    decreases order.len() - i,
{
    if i < order.len() && !reads_before(spans, k, order[i]) {
        lemma_place(spans, order, k, i + 1);
    }
}

/// Every span of the running text is read once, and nothing else is: neither blank spans
/// nor those of tables.
pub proof fn every_span_is_read_once(spans: Seq<Span>, n: int, k: int)
    requires
        0 <= n <= spans.len(),
    ensures
        reading_order(spans, n).contains(k) <==> 0 <= k < n && is_body_span(spans[k]),
        reading_order(spans, n).no_duplicates(),
    decreases n,
{
    if n > 0 {
        every_span_is_read_once(spans, n - 1, k);
        every_span_is_read_once(spans, n - 1, n - 1);
        let before = reading_order(spans, n - 1);
        if is_body_span(spans[n - 1]) {
            let at = place_of(spans, before, n - 1, 0);
            lemma_place(spans, before, n - 1, 0);
            let out = before.insert(at, n - 1);
            assert(out[at] == n - 1);
            if before.contains(k) {
                let j = choose|j: int| 0 <= j < before.len() && before[j] == k;
                if j < at {
                    assert(out[j] == k);
                } else {
                    assert(out[j + 1] == k);
                }
            }
            if out.contains(k) {
                let j = choose|j: int| 0 <= j < out.len() && out[j] == k;
                if j < at {
                    assert(before[j] == k);
                } else if j > at {
                    assert(before[j - 1] == k);
                }
            }
            assert forall|a: int, b: int| 0 <= a < b < out.len() implies out[a] != out[b] by {
                let x = if a < at {
                    a
                } else {
                    a - 1
                };
                let y = if b < at {
                    b
                } else {
                    b - 1
                };
                if a == at {
                    assert(out[b] == before[y]);
                    assert(before.contains(before[y]));
                } else if b == at {
                    assert(out[a] == before[x]);
                    assert(before.contains(before[x]));
                } else {
                    assert(out[a] == before[x] && out[b] == before[y]);
                }
            }
        }
    }
}

/// Spans are read from the top down, and on one line from left to right.
pub proof fn spans_are_read_in_order(spans: Seq<Span>, n: int)
    requires
        0 <= n <= spans.len(),
    ensures
        forall|i: int, j: int|
            0 <= i < j < reading_order(spans, n).len() ==> !reads_before(
                spans,
                (#[trigger] reading_order(spans, n)[j]),
                (#[trigger] reading_order(spans, n)[i]),
            ),
    decreases n,
{
    if n > 0 {
        spans_are_read_in_order(spans, n - 1);
        let before = reading_order(spans, n - 1);
        if is_body_span(spans[n - 1]) {
            let at = place_of(spans, before, n - 1, 0);
            lemma_place(spans, before, n - 1, 0);
            let out = before.insert(at, n - 1);
            assert forall|i: int, j: int| 0 <= i < j < out.len() implies !reads_before(
                spans,
                (#[trigger] out[j]),
                (#[trigger] out[i]),
            ) by {
                if i == at {
                    assert(out[j] == before[j - 1]);
                    if j - 1 > at {
                        assert(!reads_before(spans, before[j - 1], before[at]));
                    }
                    assert(reads_before(spans, n - 1, before[at]));
                } else if j == at {
                    assert(out[i] == before[i]);
                } else {
                    let x = if i < at {
                        i
                    } else {
                        i - 1
                    };
                    let y = if j < at {
                        j
                    } else {
                        j - 1
                    };
                    assert(out[i] == before[x] && out[j] == before[y]);
                }
            }
        }
    }
}

/// The text of a span stands between its marks: it is never dropped for its style.
pub proof fn styles_keep_the_text(s: Span)
    requires
        trimmed(s.text@).len() > 0,
    ensures
        exists|a: Seq<char>, b: Seq<char>|
            a.len() == b.len() && styled(s) == #[trigger] (a + trimmed(s.text@) + b),
        s.rise == Rise::Level && !s.bold && !s.italic && !s.mono ==> styled(s) == trimmed(s.text@),
        s.rise == Rise::Superscript ==> styled(s) == "^"@ + trimmed(s.text@) + "^"@,
        s.rise == Rise::Subscript ==> styled(s) == "~"@ + trimmed(s.text@) + "~"@,
        s.rise == Rise::Level && s.bold && !s.italic && !s.mono ==> styled(s) == "**"@ + trimmed(
            s.text@,
        ) + "**"@,
        s.rise == Rise::Level && !s.bold && s.italic && !s.mono ==> styled(s) == "*"@ + trimmed(
            s.text@,
        ) + "*"@,
        s.rise == Rise::Level && !s.bold && !s.italic && s.mono ==> styled(s) == "`"@ + trimmed(
            s.text@,
        ) + "`"@,
{
    let t = trimmed(s.text@);
    let none = Seq::<char>::empty();
    let bold = if s.bold {
        "**"@
    } else {
        none
    };
    let italic = if s.italic {
        "*"@
    } else {
        none
    };
    let mono = if s.mono {
        "`"@
    } else {
        none
    };
    match s.rise {
        Rise::Superscript => {
            assert(styled(s) == "^"@ + t + "^"@);
        },
        Rise::Subscript => {
            assert(styled(s) == "~"@ + t + "~"@);
        },
        Rise::Level => {
            let a = bold + italic + mono;
            let b = mono + italic + bold;
            assert(styled(s) =~= a + t + b);
            if !s.italic && !s.mono {
                assert(styled(s) =~= bold + t + bold);
            }
            if !s.bold && !s.mono {
                assert(styled(s) =~= italic + t + italic);
            }
            if !s.bold && !s.italic {
                assert(styled(s) =~= mono + t + mono);
            }
            if !s.bold && !s.italic && !s.mono {
                assert(styled(s) =~= t);
            }
        },
    }
}

/// A line has its spans, from left to right with a blank between each two, with their
/// styles and without.
pub proof fn lines_hold_their_spans(spans: Seq<Span>, group: Seq<int>)
    ensures
        line_of(spans, group).spans == group,
        line_of(spans, group).raw == join_of(
            group.map_values(|i: int| trimmed(spans[i].text@)),
            " "@,
        ),
        line_of(spans, group).text == squeezed(
            join_of(group.map_values(|i: int| styled(spans[i])), " "@),
        ),
        group.len() == 1 ==> line_of(spans, group).raw == trimmed(spans[group[0]].text@),
{
}

// ---------------------------------------------------------------------------
// Blocks
// ---------------------------------------------------------------------------

/// The texts of paragraphs.
pub open spec fn paragraphs(events: Seq<EventView>) -> Seq<Seq<char>> {
    events.map_values(
        |e: EventView|
            match e {
                EventView::Paragraph(t) => t,
                _ => Seq::empty(),
            },
    )
}

/// The texts of lines.
pub open spec fn line_texts(lines: Seq<TextLine>) -> Seq<Seq<char>> {
    lines.map_values(|l: TextLine| l.text@)
}

proof fn lemma_join_last(parts: Seq<Seq<char>>, more: Seq<Seq<char>>, sep: Seq<char>)
    requires
        more.len() > 0,
    ensures
        join_of(parts.push(join_of(more, sep)), sep) == join_of(parts + more, sep),
{
    let j = join_of(more, sep);
    if parts.len() == 0 {
        assert(parts + more =~= more);
        assert(parts.push(j) =~= seq![j]);
    } else {
        joining_puts_the_separator_between(parts, more, sep);
        joining_puts_the_separator_between(parts, seq![j], sep);
        assert(parts + seq![j] =~= parts.push(j));
    }
}

proof fn lemma_join_push(a: Seq<Seq<char>>, b: Seq<Seq<char>>, t: Seq<char>, sep: Seq<char>)
    requires
        join_of(a, sep) == join_of(b, sep),
        a.len() == 0 <==> b.len() == 0,
    ensures
        join_of(a.push(t), sep) == join_of(b.push(t), sep),
{
    if a.len() > 0 {
        joining_puts_the_separator_between(a, seq![t], sep);
        joining_puts_the_separator_between(b, seq![t], sep);
        assert(a + seq![t] =~= a.push(t));
        assert(b + seq![t] =~= b.push(t));
    } else {
        assert(a.push(t) =~= b.push(t));
    }
}

proof fn lemma_paragraphs(lines: Seq<TextLine>, markers: Seq<Option<Seq<char>>>, n: int)
    requires
        0 <= n <= lines.len(),
        markers.len() == lines.len(),
        forall|i: int| 0 <= i < markers.len() ==> (#[trigger] markers[i]) is None,
    ensures
        ({
            let b = blocks_upto(lines, markers, n);
            &&& b.items.len() == 0
            &&& forall|i: int| 0 <= i < b.events.len() ==> (#[trigger] b.events[i]) is Paragraph
            &&& n > 0 ==> b.para.len() > 0
            &&& n == 0 ==> b.para.len() == 0 && b.events.len() == 0
            &&& join_of(paragraphs(b.events) + b.para, " "@) == join_of(
                line_texts(lines.take(n)),
                " "@,
            )
        }),
    decreases n,
{
    let b = blocks_upto(lines, markers, n);
    if n > 0 {
        lemma_paragraphs(lines, markers, n - 1);
        assert(markers[n - 1] is None);
        let before = blocks_upto(lines, markers, n - 1);
        let t = lines[n - 1].text@;
        let p = if lines[n - 1].apart {
            paragraph_done(before)
        } else {
            before
        };
        assert(b.para == p.para.push(t));
        assert(b.events == p.events);
        if lines[n - 1].apart && before.para.len() > 0 {
            lemma_join_last(paragraphs(before.events), before.para, " "@);
            assert(paragraphs(p.events) =~= paragraphs(before.events).push(
                join_of(before.para, " "@),
            ));
            assert(paragraphs(p.events) + p.para =~= paragraphs(p.events));
        }
        let x = paragraphs(p.events) + p.para;
        assert(join_of(x, " "@) == join_of(line_texts(lines.take(n - 1)), " "@));
        assert(line_texts(lines.take(n)) =~= line_texts(lines.take(n - 1)).push(t));
        lemma_join_push(x, line_texts(lines.take(n - 1)), t, " "@);
        assert(paragraphs(b.events) + b.para =~= x.push(t));
    } else {
        assert(paragraphs(b.events) + b.para =~= Seq::<Seq<char>>::empty());
        assert(line_texts(lines.take(0)) =~= Seq::<Seq<char>>::empty());
    }
}

/// Running text without list markers becomes paragraphs, and the paragraphs together are
/// all of its lines, in order.
pub proof fn paragraphs_hold_all_their_lines(lines: Seq<TextLine>, markers: Seq<Option<Seq<char>>>)
    requires
        markers.len() == lines.len(),
        forall|i: int| 0 <= i < markers.len() ==> (#[trigger] markers[i]) is None,
    ensures
        ({
            let events = marked_blocks(lines, markers).events;
            &&& forall|i: int| 0 <= i < events.len() ==> (#[trigger] events[i]) is Paragraph
            &&& join_of(paragraphs(events), " "@) == join_of(line_texts(lines), " "@)
            &&& events.len() > 0 <==> lines.len() > 0
        }),
{
    let n = lines.len() as int;
    lemma_paragraphs(lines, markers, n);
    assert(lines.take(n) =~= lines);
    let b = blocks_upto(lines, markers, n);
    let p = paragraph_done(b);
    if b.para.len() > 0 {
        lemma_join_last(paragraphs(b.events), b.para, " "@);
        assert(paragraphs(p.events) =~= paragraphs(b.events).push(join_of(b.para, " "@)));
    } else {
        assert(paragraphs(b.events) + b.para =~= paragraphs(b.events));
    }
}

/// How many items the lists among the first `n` blocks have.
pub open spec fn item_count(events: Seq<EventView>, n: int) -> int
    decreases n,
{
    if n <= 0 {
        0
    } else {
        item_count(events, n - 1) + match events[n - 1] {
            EventView::ListBlock(items) => items.len() as int,
            _ => 0,
        }
    }
}

/// How many of the first `n` lines start with a marker.
pub open spec fn marked_count(markers: Seq<Option<Seq<char>>>, n: int) -> int
    decreases n,
{
    if n <= 0 {
        0
    } else {
        marked_count(markers, n - 1) + if markers[n - 1] is Some {
            1int
        } else {
            0int
        }
    }
}

proof fn lemma_item_count(a: Seq<EventView>, e: EventView, n: int)
    requires
        0 <= n <= a.len(),
    ensures
        item_count(a.push(e), n) == item_count(a, n),
    decreases n,
{
    if n > 0 {
        lemma_item_count(a, e, n - 1);
        assert(a.push(e)[n - 1] == a[n - 1]);
    }
}

proof fn lemma_items_upto(lines: Seq<TextLine>, markers: Seq<Option<Seq<char>>>, n: int)
    requires
        0 <= n <= lines.len(),
        markers.len() == lines.len(),
    ensures
        ({
            let b = blocks_upto(lines, markers, n);
            item_count(b.events, b.events.len() as int) + b.items.len() == marked_count(markers, n)
        }),
    decreases n,
{
    if n > 0 {
        lemma_items_upto(lines, markers, n - 1);
        let b = blocks_upto(lines, markers, n - 1);
        lemma_done_counts(b, lines);
        lemma_done_counts(crate::pdf_body::list_done(b, lines), lines);
    }
}

proof fn lemma_done_counts(b: BuildView, lines: Seq<TextLine>)
    ensures
        ({
            let p = paragraph_done(b);
            item_count(p.events, p.events.len() as int) == item_count(
                b.events,
                b.events.len() as int,
            ) && p.items == b.items
        }),
        ({
            let l = crate::pdf_body::list_done(b, lines);
            item_count(l.events, l.events.len() as int) == item_count(
                b.events,
                b.events.len() as int,
            ) + b.items.len() && l.items.len() == 0
        }),
{
    let p = paragraph_done(b);
    if b.para.len() > 0 {
        lemma_item_count(
            b.events,
            EventView::Paragraph(join_of(b.para, " "@)),
            b.events.len() as int,
        );
    }
    let l = crate::pdf_body::list_done(b, lines);
    if b.items.len() > 0 {
        let block = crate::pdf_body::leveled(lines, b.items);
        assert(block.len() == b.items.len());
        lemma_item_count(b.events, EventView::ListBlock(block), b.events.len() as int);
        assert(l.events[l.events.len() - 1] == EventView::ListBlock(block));
    }
}

/// Every line that starts with a list marker becomes an item of a list.
pub proof fn every_marked_line_is_an_item(lines: Seq<TextLine>, markers: Seq<Option<Seq<char>>>)
    requires
        markers.len() == lines.len(),
    ensures
        ({
            let events = marked_blocks(lines, markers).events;
            item_count(events, events.len() as int) == marked_count(markers, lines.len() as int)
        }),
{
    let n = lines.len() as int;
    lemma_items_upto(lines, markers, n);
    let b = blocks_upto(lines, markers, n);
    lemma_done_counts(b, lines);
    lemma_done_counts(paragraph_done(b), lines);
}

// ---------------------------------------------------------------------------
// Sheets
// ---------------------------------------------------------------------------

/// Tables and rules stand in the order given, each as its block.
pub proof fn extras_stand_in_order(extras: Seq<Extra>, i: int, n: int, k: int)
    requires
        0 <= i <= n <= extras.len(),
        0 <= k < n - i,
    ensures
        extras_between(extras, i, n).len() == n - i,
        extras_between(extras, i, n)[k] == extra_event(extras[i + k]),
    decreases n - i,
{
    lemma_extras_len(extras, i, n);
    lemma_extras_len(extras, i, n - 1);
    if k < n - 1 - i {
        extras_stand_in_order(extras, i, n - 1, k);
    }
}

proof fn lemma_extras_len(extras: Seq<Extra>, i: int, n: int)
    requires
        0 <= i <= n <= extras.len(),
    ensures
        extras_between(extras, i, n).len() == n - i,
    decreases n - i,
{
    if i < n {
        lemma_extras_len(extras, i, n - 1);
    }
}

/// A region adds its content behind what is there: a heading itself, with the tables and
/// rules above it before it, a label its text, a body all of its blocks. What was there
/// stays, and tables and rules are taken in turn.
pub proof fn regions_add_their_content(
    s: SheetView,
    done: int,
    r: RegionData,
    extras: Seq<Extra>,
)
    requires
        0 <= done <= extras.len(),
        trimmed(r.text@).len() > 0,
    ensures
        ({
            let (out, next) = with_content(s, done, r, extras);
            &&& s.events.is_prefix_of(out.events)
            &&& done <= next <= extras.len()
            &&& r.kind is Heading ==> out.events == s.events + extras_between(extras, done, next)
                + seq![EventView::Heading(clamped_level(r.kind->Heading_0), squeezed(trimmed(r.text@)))]
                && out.headings == s.headings.push((s.num, clamped_level(r.kind->Heading_0)))
                && (r.extras_above <= extras.len() && r.extras_above > done ==> next
                == r.extras_above)
            &&& r.kind == RegionKind::MarginalLabel ==> out.events == s.events + seq![
                EventView::Paragraph(squeezed(trimmed(r.text@))),
            ] && next == done
            &&& r.kind == RegionKind::Body ==> out.events == s.events + body_blocks(r.lines@).events
                && next == done
            &&& !(r.kind is Heading) && r.kind != RegionKind::MarginalLabel && r.kind
                != RegionKind::Body ==> out.events == s.events && next == done
        }),
        forall|level: u8| 1 <= level <= 6 ==> #[trigger] clamped_level(level) == level,
{
    let (out, next) = with_content(s, done, r, extras);
    assert(out.events.subrange(0, s.events.len() as int) =~= s.events);
    if r.kind is Heading {
        assert(out.events =~= s.events + extras_between(extras, done, next) + seq![
            EventView::Heading(clamped_level(r.kind->Heading_0), squeezed(trimmed(r.text@))),
        ]);
    } else if r.kind == RegionKind::MarginalLabel {
        assert(out.events =~= s.events + seq![EventView::Paragraph(squeezed(trimmed(r.text@)))]);
    }
}

/// A header, footer or page number is taken for what it is, behind what is there of it;
/// an artifact is listed; nothing else of the sheet changes.
pub proof fn marginals_are_taken_for_what_they_are(s: SheetView, r: RegionData)
    requires
        squeezed(trimmed(r.text@)).len() > 0,
        trimmed(r.text@).len() > 0,
    ensures
        ({
            let out = with_marginal(s, r);
            let t = squeezed(trimmed(r.text@));
            &&& out.events == s.events && out.num == s.num
            &&& r.kind == RegionKind::Header ==> out.header is Some && t.is_suffix_of(
                out.header->0.text,
            ) && (s.header is None ==> out.header->0.text == t && out.header->0.section == r.section)
                && (s.header is Some ==> s.header->0.text.is_prefix_of(out.header->0.text))
            &&& r.kind == RegionKind::Footer ==> out.footer is Some && t.is_suffix_of(
                out.footer->0.text,
            ) && (s.footer is None ==> out.footer->0.text == t) && (s.footer is Some
                ==> s.footer->0.text.is_prefix_of(out.footer->0.text))
            &&& r.kind == RegionKind::PageNumber ==> out.page_number is Some && t.is_suffix_of(
                out.page_number->0.text,
            ) && (s.page_number is None ==> out.page_number->0.text == t)
            &&& r.kind == RegionKind::Artifact ==> out.artifacts == s.artifacts.push(t)
            &&& r.kind != RegionKind::Header ==> out.header == s.header
            &&& r.kind != RegionKind::Footer ==> out.footer == s.footer
            &&& r.kind != RegionKind::PageNumber ==> out.page_number == s.page_number
            &&& r.kind != RegionKind::Artifact ==> out.artifacts == s.artifacts
        }),
{
    let t = squeezed(trimmed(r.text@));
    lemma_chrome(s.header, trimmed(r.text@), r.section);
    lemma_chrome(s.footer, trimmed(r.text@), r.section);
    lemma_chrome(s.page_number, trimmed(r.text@), r.section);
}

proof fn lemma_chrome(
    o: Option<crate::file_pdf::ChromeView>,
    text: Seq<char>,
    section: Option<usize>,
)
    requires
        squeezed(text).len() > 0,
    ensures
        ({
            let out = with_chrome(o, text, section);
            let t = squeezed(text);
            &&& out is Some
            &&& t.is_suffix_of(out->0.text)
            &&& o is None ==> out->0.text == t && out->0.section == section
            &&& o is Some ==> o->0.text.is_prefix_of(out->0.text)
        }),
{
    let out = with_chrome(o, text, section)->0.text;
    let t = squeezed(text);
    assert(out.subrange(out.len() - t.len(), out.len() as int) =~= t);
    if o is Some {
        assert(out.subrange(0, o->0.text.len() as int) =~= o->0.text);
    }
}

// ---------------------------------------------------------------------------
// Tables
// ---------------------------------------------------------------------------

/// A row of a table is its cells, one after the other, each between bars; a row that is
/// short is filled up.
pub proof fn rows_hold_all_their_cells(
    out: Seq<char>,
    row: Seq<crate::pdf_body::Cell>,
    n: int,
)
    requires
        0 <= n,
    ensures
        with_cells(out, row, n) == out + run_together(
            Seq::new(
                n as nat,
                |i: int|
                    " "@ + (if i < row.len() {
                        crate::pdf_body::cell_text(row[i])
                    } else {
                        trimmed(Seq::empty())
                    }) + " |"@,
            ),
        ),
    decreases n,
{
    let f = |i: int|
        " "@ + (if i < row.len() {
            crate::pdf_body::cell_text(row[i])
        } else {
            trimmed(Seq::empty())
        }) + " |"@;
    if n > 0 {
        rows_hold_all_their_cells(out, row, n - 1);
        let before = Seq::new((n - 1) as nat, f);
        assert(Seq::new(n as nat, f) =~= before.push(f(n - 1)));
        lemma_run_push(before, f(n - 1));
        let t = if n - 1 < row.len() {
            crate::pdf_body::cell_text(row[n - 1])
        } else {
            trimmed(Seq::empty())
        };
        assert(out + run_together(before) + " "@ + t + " |"@ =~= out + (run_together(before) + (" "@
            + t + " |"@)));
    } else {
        assert(Seq::new(0, f) =~= Seq::<Seq<char>>::empty());
        assert(out + Seq::<char>::empty() =~= out);
    }
}

/// Each row of a table adds a line behind those before it, with a rule under the header.
pub proof fn tables_hold_all_their_rows(t: TableData, n: int)
    requires
        0 < n <= t.rows@.len(),
    ensures
        table_rows(t, n - 1).is_prefix_of(table_rows(t, n)),
        !(n == 2 && t.has_header) ==> table_rows(t, n) == with_cells(
            table_rows(t, n - 1) + "|"@,
            t.rows@[n - 1]@,
            columns(t),
        ) + "\n"@,
        t.col_count >= 1 ==> columns(t) == t.col_count,
{
    let before = table_rows(t, n - 1);
    let out = table_rows(t, n);
    let head = if n == 2 && t.has_header {
        crate::pdf_body::with_dashes(before + "|"@, columns(t)) + "\n"@
    } else {
        before
    };
    lemma_dashes(before + "|"@, columns(t));
    rows_hold_all_their_cells(head + "|"@, t.rows@[n - 1]@, columns(t));
    assert(head.subrange(0, before.len() as int) =~= before) by {
        if n == 2 && t.has_header {
            let d = crate::pdf_body::with_dashes(before + "|"@, columns(t));
            assert(d.subrange(0, (before + "|"@).len() as int) == before + "|"@);
            assert forall|i: int| 0 <= i < before.len() implies head[i] == before[i] by {
                assert(d.subrange(0, (before + "|"@).len() as int)[i] == d[i]);
                assert((before + "|"@)[i] == before[i]);
            }
        }
    }
    assert forall|i: int| 0 <= i < before.len() implies out[i] == before[i] by {
        assert(head.subrange(0, before.len() as int)[i] == head[i]);
    }
    assert(out.subrange(0, before.len() as int) =~= before);
}

proof fn lemma_dashes(out: Seq<char>, n: int)
    ensures
        out.is_prefix_of(crate::pdf_body::with_dashes(out, n)),
    decreases n,
{
    let d = crate::pdf_body::with_dashes(out, n);
    if n > 0 {
        lemma_dashes(out, n - 1);
        let b = crate::pdf_body::with_dashes(out, n - 1);
        assert(b.subrange(0, out.len() as int) == out);
        assert forall|i: int| 0 <= i < out.len() implies d[i] == out[i] by {
            assert(b.subrange(0, out.len() as int)[i] == b[i]);
        }
    }
    assert(d.subrange(0, out.len() as int) =~= out);
}

/// How far the tables and rules have come after the first `n` regions never exceeds their
/// number.
proof fn lemma_extras_done(s: SheetView, regions: Seq<RegionData>, extras: Seq<Extra>, n: int)
    requires
        0 <= n <= regions.len(),
    ensures
        0 <= with_contents(s, regions, extras, n).1 <= extras.len(),
    decreases n,
{
    if n > 0 {
        lemma_extras_done(s, regions, extras, n - 1);
    }
}

/// The sheet of a page has its number, a note on each image, on each link and on each
/// other annotation, and the content of all of its regions with the tables and rules that
/// are left behind it. A page that could not be read has its number and the error.
pub proof fn sheets_hold_their_page(num: usize, page: Result<PageData, String>)
    ensures
        ({
            let out = built_sheet(num, page);
            &&& page is Err ==> out.error == Some(page->Err_0@) && out.events.len() == 0
            &&& out.num == num
            &&& page is Ok ==> {
                let p = page->Ok_0;
                let a = SheetView {
                    image_notes: out.image_notes,
                    link_notes: out.link_notes,
                    annotation_notes: out.annotation_notes,
                    ..crate::file_pdf::blank_sheet(num)
                };
                let b = with_marginals(a, p.regions@, p.regions@.len() as int);
                let c = with_contents(b, p.regions@, p.extras@, p.regions@.len() as int);
                &&& out.image_notes.len() == p.images@.len()
                &&& forall|i: int|
                    0 <= i < p.images@.len() ==> #[trigger] out.image_notes[i] == image_fact(
                        p.images@[i].0,
                        p.images@[i].1,
                    )
                &&& out.link_notes == link_facts(p.annotations@, p.annotations@.len() as int)
                &&& out.annotation_notes == annotation_facts(
                    p.annotations@,
                    p.annotations@.len() as int,
                )
                &&& out.events == c.0.events + extras_between(p.extras@, c.1, p.extras@.len() as int)
                &&& c.0.events.is_prefix_of(out.events)
                &&& out.events.len() == c.0.events.len() + (p.extras@.len() - c.1)
                &&& out.headings == c.0.headings
                &&& out.header == c.0.header && out.footer == c.0.footer && out.page_number
                    == c.0.page_number
            }
        }),
{
    let out = built_sheet(num, page);
    if page is Ok {
        let p = page->Ok_0;
        let n = p.regions@.len() as int;
        let a = SheetView {
            image_notes: crate::file_pdf::image_facts(p.images@),
            link_notes: link_facts(p.annotations@, p.annotations@.len() as int),
            annotation_notes: annotation_facts(p.annotations@, p.annotations@.len() as int),
            ..crate::file_pdf::blank_sheet(num)
        };
        lemma_marginals_keep(a, p.regions@, n);
        let b = with_marginals(a, p.regions@, n);
        lemma_contents_keep(b, p.regions@, p.extras@, n);
        lemma_extras_done(b, p.regions@, p.extras@, n);
        let c = with_contents(b, p.regions@, p.extras@, n);
        lemma_extras_len(p.extras@, c.1, p.extras@.len() as int);
        assert(out.events.subrange(0, c.0.events.len() as int) =~= c.0.events);
    }
}

proof fn lemma_marginals_keep(s: SheetView, regions: Seq<RegionData>, n: int)
    requires
        0 <= n <= regions.len(),
    ensures
        ({
            let out = with_marginals(s, regions, n);
            &&& out.num == s.num
            &&& out.image_notes == s.image_notes
            &&& out.link_notes == s.link_notes
            &&& out.annotation_notes == s.annotation_notes
            &&& out.events == s.events
            &&& out.error == s.error
        }),
    decreases n,
{
    if n > 0 {
        lemma_marginals_keep(s, regions, n - 1);
    }
}

proof fn lemma_contents_keep(s: SheetView, regions: Seq<RegionData>, extras: Seq<Extra>, n: int)
    requires
        0 <= n <= regions.len(),
    ensures
        ({
            let out = with_contents(s, regions, extras, n).0;
            &&& out.num == s.num
            &&& out.image_notes == s.image_notes
            &&& out.link_notes == s.link_notes
            &&& out.annotation_notes == s.annotation_notes
            &&& out.header == s.header && out.footer == s.footer
            &&& out.page_number == s.page_number
            &&& out.error == s.error
        }),
    decreases n,
{
    if n > 0 {
        lemma_contents_keep(s, regions, extras, n - 1);
    }
}

} // verus!
