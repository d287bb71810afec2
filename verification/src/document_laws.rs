//! Laws of review documents: every page and every block of it is in the document, in
//! order, and each fact holds of just the pages that it names.

use vstd::prelude::*;
use vstd::string::*;

use crate::file_pdf::{
    annotation_facts, collapsed, link_facts, page_runs, range_error, resolved_range, sheet_text,
    with_events, with_notes, AnnotationData, ChromeView, SheetView,
};
use crate::pdf_body::{event_text, EventView};
use crate::pdf_facts::{
    bodiless, chrome_runs, extracted_count, facts_of, facts_text, failed_notes, folio_of, folios,
    label_notes, legend_text, metadata_notes, pages_with, pick, review_text, run_line, run_lines,
    size_runs, unnumbered, with_sheets, DocMeta, FactsView, Folio, PageSize, RunView, after_heading,
    label_at, label_end, label_note_of, list_notes_of, paged_notes, folio_runs, LabelRange,
};
use crate::text::{decimal, opt_view};
use crate::text_laws::{lemma_run_push, run_together, texts_run_on, texts_stand_in_order};

verus! {

// ---------------------------------------------------------------------------
// The whole document
// ---------------------------------------------------------------------------

/// The texts of pages.
pub open spec fn page_texts(sheets: Seq<SheetView>) -> Seq<Seq<char>> {
    sheets.map_values(|s: SheetView| sheet_text(s))
}

proof fn lemma_sheets(s: Seq<char>, sheets: Seq<SheetView>, n: int)
    requires
        0 <= n <= sheets.len(),
    ensures
        with_sheets(s, sheets, n) == s + run_together(page_texts(sheets.take(n))),
    decreases n,
{
    if n > 0 {
        lemma_sheets(s, sheets, n - 1);
        let t = sheet_text(sheets[n - 1]);
        assert(page_texts(sheets.take(n)) =~= page_texts(sheets.take(n - 1)).push(t));
        lemma_run_push(page_texts(sheets.take(n - 1)), t);
        assert(s + run_together(page_texts(sheets.take(n - 1))) + t =~= s + (run_together(
            page_texts(sheets.take(n - 1)),
        ) + t));
    } else {
        assert(page_texts(sheets.take(0)) =~= Seq::<Seq<char>>::empty());
        assert(s + Seq::<char>::empty() =~= s);
    }
}

/// A review document is its head, which begins with the path and the number of pages,
/// followed by the text of every page, in order and with nothing between or behind
/// them.
pub proof fn documents_hold_every_page(
    path: Seq<char>,
    page_count: usize,
    range: Option<(usize, usize)>,
    sheets: Seq<SheetView>,
    sizes: Seq<PageSize>,
    meta: DocMeta,
)
    ensures
        ({
            let text = review_text(path, page_count, range, sheets, sizes, meta);
            let start = "[pdf-review] "@ + path + " ("@ + decimal(page_count as nat) + " pages"@;
            &&& start.is_prefix_of(text)
            &&& exists|head: Seq<char>|
                start.is_prefix_of(head) && #[trigger] (head + run_together(page_texts(sheets)))
                    == text
        }),
{
    let text = review_text(path, page_count, range, sheets, sizes, meta);
    let start = "[pdf-review] "@ + path + " ("@ + decimal(page_count as nat) + " pages"@;
    let a = legend_text(path, page_count, range) + facts_text(facts_of(sheets, sizes, meta, range));
    let b = match meta.outline {
        Some(items) => a + "[outline]\n"@ + crate::file_pdf::with_outline(
            Seq::empty(),
            items,
            ""@,
            items@.len(),
        ),
        None => a,
    };
    lemma_sheets(b, sheets, sheets.len() as int);
    assert(sheets.take(sheets.len() as int) =~= sheets);
    assert(b + run_together(page_texts(sheets)) == text);
    assert(b.take(start.len() as int) =~= start);
    assert(text.take(start.len() as int) =~= start);
}

/// Between the head and the pages stand the facts of the document.
pub proof fn documents_hold_their_facts(
    path: Seq<char>,
    page_count: usize,
    range: Option<(usize, usize)>,
    sheets: Seq<SheetView>,
    sizes: Seq<PageSize>,
    meta: DocMeta,
)
    ensures
        (legend_text(path, page_count, range) + facts_text(
            facts_of(sheets, sizes, meta, range),
        )).is_prefix_of(review_text(path, page_count, range, sheets, sizes, meta)),
{
    let text = review_text(path, page_count, range, sheets, sizes, meta);
    let a = legend_text(path, page_count, range) + facts_text(facts_of(sheets, sizes, meta, range));
    let b = match meta.outline {
        Some(items) => a + "[outline]\n"@ + crate::file_pdf::with_outline(
            Seq::empty(),
            items,
            ""@,
            items@.len(),
        ),
        None => a,
    };
    lemma_sheets(b, sheets, sheets.len() as int);
    assert(text.take(a.len() as int) =~= a);
}

/// Each page stands in the document behind those before it and before those behind it,
/// wherever the list of pages is cut.
pub proof fn pages_stand_in_order(sheets: Seq<SheetView>, k: int)
    requires
        0 <= k < sheets.len(),
    ensures
        run_together(page_texts(sheets)) == run_together(page_texts(sheets.take(k))) + sheet_text(
            sheets[k],
        ) + run_together(page_texts(sheets.skip(k + 1))),
        run_together(page_texts(sheets)) == run_together(page_texts(sheets.take(k)))
            + run_together(page_texts(sheets.skip(k))),
        page_texts(sheets).len() == sheets.len(),
{
    let t = page_texts(sheets);
    texts_stand_in_order(t, k);
    assert(t.take(k) =~= page_texts(sheets.take(k)));
    assert(t.skip(k + 1) =~= page_texts(sheets.skip(k + 1)));
    texts_run_on(t.take(k), t.skip(k));
    assert(t.take(k) + t.skip(k) =~= t);
    assert(t.skip(k) =~= page_texts(sheets.skip(k)));
}

/// A page range is refused exactly where it is empty, starts before the first page or
/// goes beyond the last; without one the document is taken whole.
pub proof fn ranges_lie_in_the_document(s: usize, e: usize, page_count: usize)
    ensures
        range_error(s, e, page_count) is None <==> 1 <= s <= e <= page_count,
        resolved_range(Some((s, e)), page_count) == (s, e),
        resolved_range(None, page_count) == (1usize, page_count),
{
}

// ---------------------------------------------------------------------------
// Pages
// ---------------------------------------------------------------------------

/// Notes stand one a line, each behind the label.
pub proof fn notes_stand_one_a_line(s: Seq<char>, label: Seq<char>, notes: Seq<Seq<char>>, n: int)
    requires
        0 <= n <= notes.len(),
    ensures
        with_notes(s, label, notes, n) == s + run_together(
            notes.take(n).map_values(|x: Seq<char>| label + x + "\n"@),
        ),
    decreases n,
{
    let f = |x: Seq<char>| label + x + "\n"@;
    if n > 0 {
        notes_stand_one_a_line(s, label, notes, n - 1);
        let before = notes.take(n - 1).map_values(f);
        assert(notes.take(n).map_values(f) =~= before.push(f(notes[n - 1])));
        lemma_run_push(before, f(notes[n - 1]));
        assert(s + run_together(before) + label + notes[n - 1] + "\n"@ =~= s + (run_together(before)
            + (label + notes[n - 1] + "\n"@)));
    } else {
        assert(notes.take(0).map_values(f) =~= Seq::<Seq<char>>::empty());
        assert(s + Seq::<char>::empty() =~= s);
    }
}

/// The blocks of a page stand one after the other, each followed by a line feed.
pub proof fn blocks_stand_in_order(s: Seq<char>, events: Seq<EventView>, n: int)
    requires
        0 <= n <= events.len(),
    ensures
        with_events(s, events, n) == s + run_together(
            events.take(n).map_values(|e: EventView| event_text(e) + "\n"@),
        ),
    decreases n,
{
    let f = |e: EventView| event_text(e) + "\n"@;
    if n > 0 {
        blocks_stand_in_order(s, events, n - 1);
        let before = events.take(n - 1).map_values(f);
        assert(events.take(n).map_values(f) =~= before.push(f(events[n - 1])));
        lemma_run_push(before, f(events[n - 1]));
        assert(s + run_together(before) + event_text(events[n - 1]) + "\n"@ =~= s + (run_together(
            before,
        ) + (event_text(events[n - 1]) + "\n"@)));
    } else {
        assert(events.take(0).map_values(f) =~= Seq::<Seq<char>>::empty());
        assert(s + Seq::<char>::empty() =~= s);
    }
}

/// A labelled line, where there is something to say.
pub open spec fn labelled(label: Seq<char>, c: Option<ChromeView>) -> Seq<char> {
    match c {
        Some(v) => label + v.text + "\n"@,
        None => Seq::empty(),
    }
}

/// Notes, one a line.
pub open spec fn noted(label: Seq<char>, notes: Seq<Seq<char>>) -> Seq<char> {
    run_together(notes.map_values(|x: Seq<char>| label + x + "\n"@))
}

/// The blocks of a page behind a line feed; nothing where there are none.
pub open spec fn bodied(events: Seq<EventView>) -> Seq<char> {
    if events.len() == 0 {
        Seq::empty()
    } else {
        "\n"@ + run_together(events.map_values(|e: EventView| event_text(e) + "\n"@))
    }
}

/// The text of a page has its number, its header, page number and footer, its artifacts,
/// images, links and annotations, and all of its blocks, in this order; blank lines
/// are drawn together. A page that could not be read has its number and the error.
pub proof fn pages_hold_all_their_parts(s: SheetView)
    ensures
        ({
            let head = "--- page "@ + decimal(s.num as nat) + " ---\n"@;
            &&& s.error is Some ==> sheet_text(s) == head + "[Text extraction error: "@ + s.error->0
                + "]\n"@
            &&& s.error is None ==> sheet_text(s) == collapsed(
                head + labelled("[header] "@, s.header) + labelled("[page-number] "@, s.page_number)
                    + labelled("[footer] "@, s.footer) + noted("[artifact] "@, s.artifacts) + noted(
                    ""@,
                    s.image_notes,
                ) + noted(""@, s.link_notes) + noted(""@, s.annotation_notes) + bodied(s.events),
            )
        }),
{
    if s.error is None {
        let head = "--- page "@ + decimal(s.num as nat) + " ---\n"@;
        let a1 = crate::file_pdf::with_label(head, "[header] "@, s.header);
        assert(a1 =~= head + labelled("[header] "@, s.header));
        let a2 = crate::file_pdf::with_label(a1, "[page-number] "@, s.page_number);
        assert(a2 =~= a1 + labelled("[page-number] "@, s.page_number));
        let a3 = crate::file_pdf::with_label(a2, "[footer] "@, s.footer);
        assert(a3 =~= a2 + labelled("[footer] "@, s.footer));
        lemma_noted(a3, "[artifact] "@, s.artifacts);
        let a4 = a3 + noted("[artifact] "@, s.artifacts);
        lemma_noted(a4, ""@, s.image_notes);
        let a5 = a4 + noted(""@, s.image_notes);
        lemma_noted(a5, ""@, s.link_notes);
        let a6 = a5 + noted(""@, s.link_notes);
        lemma_noted(a6, ""@, s.annotation_notes);
        let a7 = a6 + noted(""@, s.annotation_notes);
        blocks_stand_in_order(a7 + "\n"@, s.events, s.events.len() as int);
        assert(s.events.take(s.events.len() as int) =~= s.events);
        let r = run_together(s.events.map_values(|e: EventView| event_text(e) + "\n"@));
        assert(a7 + "\n"@ + r =~= a7 + ("\n"@ + r));
        assert(a7 + Seq::<char>::empty() =~= a7);
    }
}

proof fn lemma_noted(s: Seq<char>, label: Seq<char>, notes: Seq<Seq<char>>)
    ensures
        with_notes(s, label, notes, notes.len() as int) == s + noted(label, notes),
{
    notes_stand_one_a_line(s, label, notes, notes.len() as int);
    assert(notes.take(notes.len() as int) =~= notes);
}

/// The facts of a document hold its number of pages, the range that was taken, and every
/// note under its label.
pub proof fn facts_hold_all_their_notes(f: FactsView)
    ensures
        facts_text(f) == "[format-facts]\npages: "@ + decimal(f.page_count as nat) + "\n"@ + (
        match f.extracted {
            Some(r) => "extracted: "@ + crate::file_pdf::page_range(r.0, r.1) + "\n"@,
            None => Seq::empty(),
        }) + noted("metadata: "@, f.metadata_notes) + noted("page-size: "@, f.size_notes) + noted(
            "page-number: "@,
            f.page_number_notes,
        ) + noted("page-label: "@, f.label_notes) + run_together(
            f.header_runs.map_values(|r: RunView| run_line("header"@, r)),
        ) + run_together(f.footer_runs.map_values(|r: RunView| run_line("footer"@, r))) + noted(
            "heading: "@,
            f.heading_notes,
        ) + noted("list: "@, f.list_notes) + noted("note: "@, f.notes),
{
    let a0 = "[format-facts]\npages: "@ + decimal(f.page_count as nat) + "\n"@;
    let x = match f.extracted {
        Some(r) => "extracted: "@ + crate::file_pdf::page_range(r.0, r.1) + "\n"@,
        None => Seq::empty(),
    };
    let a1 = match f.extracted {
        Some(r) => a0 + "extracted: "@ + crate::file_pdf::page_range(r.0, r.1) + "\n"@,
        None => a0,
    };
    assert(a1 =~= a0 + x);
    lemma_noted(a1, "metadata: "@, f.metadata_notes);
    let a2 = a1 + noted("metadata: "@, f.metadata_notes);
    lemma_noted(a2, "page-size: "@, f.size_notes);
    let a3 = a2 + noted("page-size: "@, f.size_notes);
    lemma_noted(a3, "page-number: "@, f.page_number_notes);
    let a4 = a3 + noted("page-number: "@, f.page_number_notes);
    lemma_noted(a4, "page-label: "@, f.label_notes);
    let a5 = a4 + noted("page-label: "@, f.label_notes);
    lemma_run_lines("header"@, f.header_runs, f.header_runs.len() as int);
    lemma_run_lines("footer"@, f.footer_runs, f.footer_runs.len() as int);
    assert(f.header_runs.take(f.header_runs.len() as int) =~= f.header_runs);
    assert(f.footer_runs.take(f.footer_runs.len() as int) =~= f.footer_runs);
    let a7 = a5 + run_lines("header"@, f.header_runs, f.header_runs.len() as int) + run_lines(
        "footer"@,
        f.footer_runs,
        f.footer_runs.len() as int,
    );
    lemma_noted(a7, "heading: "@, f.heading_notes);
    let a8 = a7 + noted("heading: "@, f.heading_notes);
    lemma_noted(a8, "list: "@, f.list_notes);
    let a9 = a8 + noted("list: "@, f.list_notes);
    lemma_noted(a9, "note: "@, f.notes);
}

proof fn lemma_run_lines(label: Seq<char>, runs: Seq<RunView>, n: int)
    requires
        0 <= n <= runs.len(),
    ensures
        run_lines(label, runs, n) == run_together(
            runs.take(n).map_values(|r: RunView| run_line(label, r)),
        ),
    decreases n,
{
    let f = |r: RunView| run_line(label, r);
    if n > 0 {
        lemma_run_lines(label, runs, n - 1);
        let before = runs.take(n - 1).map_values(f);
        assert(runs.take(n).map_values(f) =~= before.push(f(runs[n - 1])));
        lemma_run_push(before, f(runs[n - 1]));
    } else {
        assert(runs.take(0).map_values(f) =~= Seq::<Seq<char>>::empty());
    }
}

// ---------------------------------------------------------------------------
// Facts
// ---------------------------------------------------------------------------

/// The pages without a number are just those: each was read and has no page number.
pub proof fn unnumbered_pages_have_no_number(sheets: Seq<SheetView>, n: int, p: usize)
    requires
        0 <= n <= sheets.len(),
    ensures
        unnumbered(sheets, n).contains(p) <==> exists|i: int|
            0 <= i < n && (#[trigger] sheets[i]).num == p && sheets[i].error is None
                && sheets[i].page_number is None,
    decreases n,
{
    if n > 0 {
        unnumbered_pages_have_no_number(sheets, n - 1, p);
        let s = sheets[n - 1];
        let before = unnumbered(sheets, n - 1);
        let out = unnumbered(sheets, n);
        if s.error is None && s.page_number is None {
            assert(out[out.len() - 1] == s.num);
            if before.contains(p) {
                let k = choose|k: int| 0 <= k < before.len() && before[k] == p;
                assert(out[k] == p);
            }
            if out.contains(p) {
                let k = choose|k: int| 0 <= k < out.len() && out[k] == p;
                if k < before.len() {
                    assert(before[k] == p);
                }
            }
        }
    }
}

/// The pages without a body are just those: each was read and has no block.
pub proof fn bodiless_pages_have_no_block(sheets: Seq<SheetView>, n: int, p: usize)
    requires
        0 <= n <= sheets.len(),
    ensures
        bodiless(sheets, n).contains(p) <==> exists|i: int|
            0 <= i < n && (#[trigger] sheets[i]).num == p && sheets[i].error is None
                && sheets[i].events.len() == 0,
    decreases n,
{
    if n > 0 {
        bodiless_pages_have_no_block(sheets, n - 1, p);
        let s = sheets[n - 1];
        let before = bodiless(sheets, n - 1);
        let out = bodiless(sheets, n);
        if s.error is None && s.events.len() == 0 {
            assert(out[out.len() - 1] == s.num);
            if before.contains(p) {
                let k = choose|k: int| 0 <= k < before.len() && before[k] == p;
                assert(out[k] == p);
            }
            if out.contains(p) {
                let k = choose|k: int| 0 <= k < out.len() && out[k] == p;
                if k < before.len() {
                    assert(before[k] == p);
                }
            }
        }
    }
}

/// The numbers that pages carry are those of the pages that were read, each with its
/// page.
pub proof fn folios_are_those_of_the_pages(sheets: Seq<SheetView>, n: int, f: Folio)
    requires
        0 <= n <= sheets.len(),
    ensures
        folios(sheets, n).contains(f) <==> exists|i: int|
            0 <= i < n && (#[trigger] sheets[i]).num == f.0 && sheets[i].error is None && folio_of(
                sheets[i],
            ) is Some && (folio_of(sheets[i])->0) as u32 == f.1,
        folios(sheets, n).len() <= n,
    decreases n,
{
    if n > 0 {
        folios_are_those_of_the_pages(sheets, n - 1, f);
        let s = sheets[n - 1];
        let before = folios(sheets, n - 1);
        let out = folios(sheets, n);
        if s.error is None && folio_of(s) is Some {
            assert(out[out.len() - 1] == (s.num, (folio_of(s)->0) as u32));
            if before.contains(f) {
                let k = choose|k: int| 0 <= k < before.len() && before[k] == f;
                assert(out[k] == f);
            }
            if out.contains(f) {
                let k = choose|k: int| 0 <= k < out.len() && out[k] == f;
                if k < before.len() {
                    assert(before[k] == f);
                }
            }
        }
    }
}

/// A number's pages are all those that carry it.
pub proof fn pages_of_a_number(entries: Seq<Folio>, v: u32, n: int, p: usize)
    requires
        0 <= n <= entries.len(),
    ensures
        pages_with(entries, v, n).contains(p) <==> exists|i: int|
            0 <= i < n && #[trigger] entries[i] == (p, v),
    decreases n,
{
    if n > 0 {
        pages_of_a_number(entries, v, n - 1, p);
        let before = pages_with(entries, v, n - 1);
        let out = pages_with(entries, v, n);
        if entries[n - 1].1 == v {
            assert(out[out.len() - 1] == entries[n - 1].0);
            if before.contains(p) {
                let k = choose|k: int| 0 <= k < before.len() && before[k] == p;
                assert(out[k] == p);
            }
            if out.contains(p) {
                let k = choose|k: int| 0 <= k < out.len() && out[k] == p;
                if k < before.len() {
                    assert(before[k] == p);
                }
                if k == before.len() {
                    assert(entries[n - 1] == (p, v));
                }
            }
        }
    }
}

/// How many pages were read: all but those with an error.
pub proof fn pages_are_read_or_failed(sheets: Seq<SheetView>, n: int)
    requires
        0 <= n <= sheets.len(),
    ensures
        extracted_count(sheets, n) + failed_notes(sheets, n).len() == n,
        n > 0 ==> (failed_notes(sheets, n).len() > failed_notes(sheets, n - 1).len()
            <==> sheets[n - 1].error is Some),
    decreases n,
{
    if n > 0 {
        pages_are_read_or_failed(sheets, n - 1);
    }
}

/// The runs of a list of pages are the pages: every page lies in a run, every run holds
/// pages of the list alone, and no run goes on in the next.
pub proof fn page_runs_are_the_pages(pages: Seq<usize>, n: int, p: int)
    requires
        0 <= n <= pages.len(),
    ensures
        ({
            let runs = page_runs(pages, n);
            &&& (exists|i: int| 0 <= i < n && #[trigger] pages[i] == p) <==> (exists|k: int|
                0 <= k < runs.len() && (#[trigger] runs[k]).0 <= p <= runs[k].1)
            &&& n > 0 ==> runs.len() > 0 && runs.last().1 == pages[n - 1]
            &&& forall|k: int| 0 <= k < runs.len() ==> (#[trigger] runs[k]).0 <= runs[k].1
            &&& forall|k: int|
                0 < k < runs.len() ==> (#[trigger] runs[k]).0 != runs[k - 1].1 + 1
        }),
    decreases n,
{
    if n > 0 {
        page_runs_are_the_pages(pages, n - 1, p);
        let before = page_runs(pages, n - 1);
        let out = page_runs(pages, n);
        let q = pages[n - 1];
        let last = out.len() - 1;
        if before.len() > 0 && q == before.last().1 + 1 {
            assert(out.len() == before.len());
            assert forall|k: int| 0 <= k < last implies out[k] == before[k] by {}
            assert(out[last] == (before[last].0, q));
            assert forall|k: int| 0 < k < out.len() implies (#[trigger] out[k]).0 != out[k - 1].1
                + 1 by {
                assert(before[k].0 != before[k - 1].1 + 1);
                assert(out[k].0 == before[k].0);
                assert(out[k - 1] == before[k - 1]);
            }
        } else {
            assert(out.len() == before.len() + 1);
            assert forall|k: int| 0 <= k < last implies out[k] == before[k] by {}
            assert(out[last] == (q, q));
            assert forall|k: int| 0 < k < out.len() implies (#[trigger] out[k]).0 != out[k - 1].1
                + 1 by {
                if k < last {
                    assert(before[k].0 != before[k - 1].1 + 1);
                }
            }
        }
        if exists|i: int| 0 <= i < n && #[trigger] pages[i] == p {
            let i = choose|i: int| 0 <= i < n && #[trigger] pages[i] == p;
            if i == n - 1 {
                assert(out[last].0 <= p <= out[last].1);
            } else {
                let k = choose|k: int|
                    0 <= k < before.len() && (#[trigger] before[k]).0 <= p <= before[k].1;
                assert(out[k].0 <= p <= out[k].1);
            }
        }
        if exists|k: int| 0 <= k < out.len() && (#[trigger] out[k]).0 <= p <= out[k].1 {
            let k = choose|k: int| 0 <= k < out.len() && (#[trigger] out[k]).0 <= p <= out[k].1;
            if k < before.len() && before[k].0 <= p <= before[k].1 {
            } else {
                assert(pages[n - 1] == p);
            }
        }
    }
}

/// The size of every page is noted: it lies in a run of its own size, and a run holds no
/// page of another.
pub proof fn sizes_are_those_of_the_pages(sizes: Seq<PageSize>, n: int, p: int, w: u32, h: u32)
    requires
        0 <= n <= sizes.len(),
    ensures
        ({
            let runs = size_runs(sizes, n);
            &&& (exists|i: int| 0 <= i < n && (#[trigger] sizes[i]).0 == p && sizes[i].1 == w
                && sizes[i].2 == h) <==> (exists|k: int|
                0 <= k < runs.len() && (#[trigger] runs[k]).0 <= p <= runs[k].1 && runs[k].2 == w
                    && runs[k].3 == h)
            &&& forall|k: int| 0 <= k < runs.len() ==> (#[trigger] runs[k]).0 <= runs[k].1
        }),
    decreases n,
{
    if n > 0 {
        sizes_are_those_of_the_pages(sizes, n - 1, p, w, h);
        let before = size_runs(sizes, n - 1);
        let out = size_runs(sizes, n);
        let q = sizes[n - 1];
        let last = out.len() - 1;
        assert forall|k: int| 0 <= k < last implies out[k] == before[k] by {}
        if exists|i: int|
            0 <= i < n && (#[trigger] sizes[i]).0 == p && sizes[i].1 == w && sizes[i].2 == h {
            let i = choose|i: int|
                0 <= i < n && (#[trigger] sizes[i]).0 == p && sizes[i].1 == w && sizes[i].2 == h;
            if i == n - 1 {
                assert(out[last].0 <= p <= out[last].1 && out[last].2 == w && out[last].3 == h);
            } else {
                let k = choose|k: int|
                    0 <= k < before.len() && (#[trigger] before[k]).0 <= p <= before[k].1
                        && before[k].2 == w && before[k].3 == h;
                assert(out[k].0 <= p <= out[k].1 && out[k].2 == w && out[k].3 == h);
            }
        }
        if exists|k: int|
            0 <= k < out.len() && (#[trigger] out[k]).0 <= p <= out[k].1 && out[k].2 == w
                && out[k].3 == h {
            let k = choose|k: int|
                0 <= k < out.len() && (#[trigger] out[k]).0 <= p <= out[k].1 && out[k].2 == w
                    && out[k].3 == h;
            if k < before.len() && before[k].0 <= p <= before[k].1 && before[k].2 == w
                && before[k].3 == h {
            } else {
                assert(sizes[n - 1].0 == p && sizes[n - 1].1 == w && sizes[n - 1].2 == h);
            }
        }
    }
}

/// Every page that was read lies in a run with its own header (or footer), and a run
/// ends with the last page that it was drawn over.
pub proof fn pages_lie_in_a_run(sheets: Seq<SheetView>, footer: bool, n: int, i: int)
    requires
        0 <= i < n <= sheets.len(),
        sheets[i].error is None,
    ensures
        exists|k: int|
            0 <= k < chrome_runs(sheets, footer, n).len() && (#[trigger] chrome_runs(
                sheets,
                footer,
                n,
            )[k]).chrome == pick(sheets[i], footer),
        i == n - 1 ==> chrome_runs(sheets, footer, n).last().end == sheets[i].num && chrome_runs(
            sheets,
            footer,
            n,
        ).last().chrome == pick(sheets[i], footer),
    decreases n,
{
    let before = chrome_runs(sheets, footer, n - 1);
    let out = chrome_runs(sheets, footer, n);
    if i == n - 1 {
        assert(out[out.len() - 1].chrome == pick(sheets[i], footer));
    } else {
        pages_lie_in_a_run(sheets, footer, n - 1, i);
        let k = choose|k: int|
            0 <= k < before.len() && (#[trigger] before[k]).chrome == pick(sheets[i], footer);
        assert(out[k].chrome == before[k].chrome);
    }
}

/// Every run starts at a page with its header (or footer).
pub proof fn runs_start_at_a_page(sheets: Seq<SheetView>, footer: bool, n: int, k: int)
    requires
        0 <= n <= sheets.len(),
        0 <= k < chrome_runs(sheets, footer, n).len(),
    ensures
        exists|i: int|
            0 <= i < n && (#[trigger] sheets[i]).num == chrome_runs(sheets, footer, n)[k].start
                && pick(sheets[i], footer) == chrome_runs(sheets, footer, n)[k].chrome
                && sheets[i].error is None,
    decreases n,
{
    let before = chrome_runs(sheets, footer, n - 1);
    let out = chrome_runs(sheets, footer, n);
    if k < before.len() {
        runs_start_at_a_page(sheets, footer, n - 1, k);
        assert(out[k].chrome == before[k].chrome && out[k].start == before[k].start);
    } else {
        assert(sheets[n - 1].num == out[k].start);
    }
}

/// Neighbouring runs differ in their header (or footer).
pub proof fn neighbouring_runs_differ(sheets: Seq<SheetView>, footer: bool, n: int, k: int)
    requires
        0 <= n <= sheets.len(),
        0 < k < chrome_runs(sheets, footer, n).len(),
    ensures
        chrome_runs(sheets, footer, n)[k].chrome != chrome_runs(sheets, footer, n)[k - 1].chrome,
    decreases n,
{
    let before = chrome_runs(sheets, footer, n - 1);
    let out = chrome_runs(sheets, footer, n);
    if k < before.len() {
        neighbouring_runs_differ(sheets, footer, n - 1, k);
        assert(out[k].chrome == before[k].chrome);
    }
    assert(out[k - 1].chrome == before[k - 1].chrome);
}

/// The metadata names the producer, the creator, the title and the authors, as far as
/// there are any.
pub proof fn metadata_is_noted(m: DocMeta)
    ensures
        m.producer is Some ==> metadata_notes(m).contains("producer '"@ + m.producer->0@ + "'"@),
        m.creator is Some ==> metadata_notes(m).contains("creator '"@ + m.creator->0@ + "'"@),
        m.title is Some ==> metadata_notes(m).contains("title '"@ + m.title->0@ + "'"@),
        m.authors@.len() == 1 ==> metadata_notes(m).contains(
            "author '"@ + m.authors@[0]@ + "'"@,
        ),
        metadata_notes(m).len() == (if m.producer is Some {
            1int
        } else {
            0
        }) + (if m.creator is Some {
            1int
        } else {
            0
        }) + (if m.title is Some {
            1int
        } else {
            0
        }) + (if m.authors@.len() > 0 {
            1int
        } else {
            0
        }),
{
    let a = crate::pdf_facts::with_quoted(Seq::empty(), "producer '"@, opt_view(m.producer));
    let b = crate::pdf_facts::with_quoted(a, "creator '"@, opt_view(m.creator));
    let c = crate::pdf_facts::with_quoted(b, "title '"@, opt_view(m.title));
    let out = metadata_notes(m);
    if m.producer is Some {
        assert(out[0] == "producer '"@ + m.producer->0@ + "'"@);
    }
    if m.creator is Some {
        assert(out[a.len() as int] == "creator '"@ + m.creator->0@ + "'"@);
    }
    if m.title is Some {
        assert(out[b.len() as int] == "title '"@ + m.title->0@ + "'"@);
    }
    if m.authors@.len() == 1 {
        assert(crate::text::views(m.authors@)[0] == m.authors@[0]@);
        assert(out[c.len() as int] == "author '"@ + m.authors@[0]@ + "'"@);
    }
}

// ---------------------------------------------------------------------------
// From a page to its sheet
// ---------------------------------------------------------------------------

/// The links of a page are noted, and so are its other annotations that say something;
/// each for itself, in order.
pub proof fn annotations_are_noted_one_by_one(
    a: Seq<AnnotationData>,
    b: Seq<AnnotationData>,
    n: int,
)
    requires
        0 <= n <= b.len(),
    ensures
        link_facts(a + b, a.len() + n) == link_facts(a, a.len() as int) + link_facts(b, n),
        annotation_facts(a + b, a.len() + n) == annotation_facts(a, a.len() as int)
            + annotation_facts(b, n),
        n == 1 && b[0].url is Some ==> link_facts(b, 1) == seq!["[link] "@ + b[0].url->0@]
            && annotation_facts(b, 1).len() == 0,
        n == 1 && b[0].url is None ==> link_facts(b, 1).len() == 0,
        n == 1 && b[0].url is None ==> (annotation_facts(b, 1).len() == 1 <==> (b[0].contents
            is Some || b[0].author is Some)),
    decreases n,
{
    if n > 0 {
        annotations_are_noted_one_by_one(a, b, n - 1);
        assert((a + b)[a.len() + n - 1] == b[n - 1]);
        assert(link_facts(a + b, a.len() + n) =~= link_facts(a, a.len() as int) + link_facts(b, n));
        assert(annotation_facts(a + b, a.len() + n) =~= annotation_facts(a, a.len() as int)
            + annotation_facts(b, n));
        if n == 1 {
            assert(link_facts(b, 0) =~= Seq::<Seq<char>>::empty());
            assert(annotation_facts(b, 0) =~= Seq::<Seq<char>>::empty());
            if b[0].url is Some {
                assert(link_facts(b, 1) =~= seq!["[link] "@ + b[0].url->0@]);
            }
        }
    } else {
        lemma_annotations_front(a, b, a.len() as int);
        assert(link_facts(a, a.len() as int) + link_facts(b, 0) =~= link_facts(a, a.len() as int));
        assert(annotation_facts(a, a.len() as int) + annotation_facts(b, 0) =~= annotation_facts(
            a,
            a.len() as int,
        ));
    }
}

proof fn lemma_annotations_front(a: Seq<AnnotationData>, b: Seq<AnnotationData>, n: int)
    requires
        0 <= n <= a.len(),
    ensures
        link_facts(a + b, n) == link_facts(a, n),
        annotation_facts(a + b, n) == annotation_facts(a, n),
    decreases n,
{
    if n > 0 {
        lemma_annotations_front(a, b, n - 1);
        assert((a + b)[n - 1] == a[n - 1]);
    }
}

/// The labels of every range are noted, from its first page to the one before the next
/// range, with the first and the last label.
pub proof fn every_range_of_labels_is_noted(
    labels: Seq<LabelRange>,
    page_count: usize,
    n: int,
    i: int,
)
    requires
        0 <= i < n <= labels.len(),
    ensures
        label_notes(labels, page_count, n).len() == n,
        ({
            let end = label_end(labels, page_count, i);
            let r = labels[i];
            &&& label_notes(labels, page_count, n)[i] == label_note_of(
                r.start_page,
                end,
                label_at(r, r.start_page),
                label_at(r, end),
            )
            &&& i + 1 < labels.len() && labels[i + 1].start_page > r.start_page ==> end + 1
                == labels[i + 1].start_page
            &&& i + 1 == labels.len() && page_count > r.start_page ==> end + 1 == page_count
        }),
    decreases n,
{
    lemma_label_notes(labels, page_count, n);
    lemma_label_notes(labels, page_count, n - 1);
    if i < n - 1 {
        every_range_of_labels_is_noted(labels, page_count, n - 1, i);
    }
}

proof fn lemma_label_notes(labels: Seq<LabelRange>, page_count: usize, n: int)
    requires
        0 <= n <= labels.len(),
    ensures
        label_notes(labels, page_count, n).len() == n,
    decreases n,
{
    if n > 0 {
        lemma_label_notes(labels, page_count, n - 1);
    }
}

/// A heading is noted where its level is more than one below that of the heading before
/// it, and there alone; it then is the one before the next.
pub proof fn skipped_levels_are_noted(
    notes: Seq<Seq<char>>,
    before: Option<u8>,
    page: usize,
    level: u8,
)
    ensures
        ({
            let out = after_heading((notes, before), (page, level));
            &&& out.1 == Some(level)
            &&& out.0.len() > notes.len() <==> before is Some && level > before->0 + 1
            &&& out.0.len() <= notes.len() + 1
            &&& notes.is_prefix_of(out.0)
        }),
{
    let out = after_heading((notes, before), (page, level));
    assert(out.0.subrange(0, notes.len() as int) =~= notes);
}

/// The notes on the lists of a document are those of its pages, one after the other.
pub proof fn notes_on_lists_are_those_of_the_pages(sheets: Seq<SheetView>, n: int)
    requires
        0 < n <= sheets.len(),
    ensures
        ({
            let s = sheets[n - 1];
            &&& s.error is Some ==> list_notes_of(sheets, n) == list_notes_of(sheets, n - 1)
            &&& s.error is None ==> list_notes_of(sheets, n) == list_notes_of(sheets, n - 1)
                + s.list_notes.map_values(
                |x: Seq<char>| "p."@ + decimal(s.num as nat) + ": "@ + x,
            )
        }),
        list_notes_of(sheets, 0).len() == 0,
{
    let s = sheets[n - 1];
    lemma_paged(s.num, s.list_notes, s.list_notes.len() as int);
    assert(s.list_notes.take(s.list_notes.len() as int) =~= s.list_notes);
}

proof fn lemma_paged(num: usize, notes: Seq<Seq<char>>, n: int)
    requires
        0 <= n <= notes.len(),
    ensures
        paged_notes(num, notes, n) == notes.take(n).map_values(
            |x: Seq<char>| "p."@ + decimal(num as nat) + ": "@ + x,
        ),
    decreases n,
{
    let f = |x: Seq<char>| "p."@ + decimal(num as nat) + ": "@ + x;
    if n > 0 {
        lemma_paged(num, notes, n - 1);
        assert(notes.take(n).map_values(f) =~= notes.take(n - 1).map_values(f).push(
            f(notes[n - 1]),
        ));
    } else {
        assert(notes.take(0).map_values(f) =~= Seq::<Seq<char>>::empty());
    }
}

/// Every page number lies in a run, and in a run pages and numbers go up together.
pub proof fn numbers_lie_in_a_run(entries: Seq<Folio>, n: int, i: int)
    requires
        0 <= i < n <= entries.len(),
    ensures
        exists|k: int|
            0 <= k < folio_runs(entries, n).len() && in_run(
                #[trigger] folio_runs(entries, n)[k],
                entries[i],
            ),
        folio_runs(entries, n).last().1 == entries[n - 1].0,
        folio_runs(entries, n).last().3 == entries[n - 1].1,
    decreases n,
{
    let before = folio_runs(entries, n - 1);
    let out = folio_runs(entries, n);
    let p = entries[n - 1];
    if n > 1 {
        numbers_lie_in_a_run(
            entries,
            n - 1,
            if i < n - 1 {
                i
            } else {
                0
            },
        );
        lemma_runs_even(entries, n - 1);
    }
    lemma_runs_even(entries, n);
    if i == n - 1 {
        assert(in_run(out[out.len() - 1], p));
    } else {
        let k = choose|k: int|
            0 <= k < before.len() && in_run(#[trigger] before[k], entries[i]);
        if k == before.len() - 1 && out.len() == before.len() {
            assert(out[k].0 == before[k].0 && out[k].2 == before[k].2);
            assert(in_run(out[k], entries[i]));
        } else {
            assert(out[k] == before[k]);
        }
    }
}

/// Whether a page and its number lie in a run.
pub open spec fn in_run(r: (usize, usize, u32, u32), f: Folio) -> bool {
    r.0 <= f.0 <= r.1 && r.2 <= f.1 <= r.3 && f.0 - r.0 == f.1 - r.2
}

proof fn lemma_runs_even(entries: Seq<Folio>, n: int)
    requires
        0 <= n <= entries.len(),
    ensures
        forall|k: int|
            0 <= k < folio_runs(entries, n).len() ==> (#[trigger] folio_runs(entries, n)[k]).0
                <= folio_runs(entries, n)[k].1 && folio_runs(entries, n)[k].1 - folio_runs(
                entries,
                n,
            )[k].0 == folio_runs(entries, n)[k].3 - folio_runs(entries, n)[k].2,
    decreases n,
{
    if n > 0 {
        lemma_runs_even(entries, n - 1);
        let before = folio_runs(entries, n - 1);
        let out = folio_runs(entries, n);
        assert forall|k: int| 0 <= k < out.len() implies (#[trigger] out[k]).0 <= out[k].1
            && out[k].1 - out[k].0 == out[k].3 - out[k].2 by {
            if k < before.len() - 1 {
                assert(out[k] == before[k]);
            } else if k < before.len() && out.len() > before.len() {
                assert(out[k] == before[k]);
            } else if k < before.len() {
                assert(before[k].0 <= before[k].1);
            }
        }
    }
}

} // verus!
