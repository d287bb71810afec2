//! Factual observations about the format of a PDF.

use vstd::prelude::*;
use vstd::string::*;

use crate::file_pdf::{
    chrome_view, digits_number, fmt_pages, number_digits, page_range, pages_text, parse_page_number,
    parse_total, range_error, range_str, render_outline, resolve_range, resolved_range, sheet_text,
    sheets_view, sum_digits, with_notes, with_outline, Chrome, ChromeView, OutlineNode, PageSheet,
    PdfRangeResult, SheetView,
};
use crate::pdf_body::events_view;
use crate::text::{
    decimal, join, join_of, lemma_views_push, opt_view, run_of, str_eq, u128_text, u64_text,
    usize_text, views,
};

verus! {

/// Adds a note to a list.
fn put(notes: &mut Vec<String>, s: String)
    ensures
        views(final(notes)@) == views(old(notes)@).push(s@),
{
    proof {
        lemma_views_push(notes@, s);
    }
    notes.push(s);
}

// ---------------------------------------------------------------------------
// Page labels
// ---------------------------------------------------------------------------

/// The numbering style of a range of page labels.
#[derive(Debug, Clone, Copy, PartialEq, Eq, Structural)]
pub enum LabelStyle {
    Decimal,
    RomanUpper,
    RomanLower,
    AlphaUpper,
    AlphaLower,
    /// No number.
    Plain,
}

/// A range of page labels, up to the start of the next.
#[derive(Debug, PartialEq, Eq)]
pub struct LabelRange {
    /// 0-based first page.
    pub start_page: usize,
    pub style: LabelStyle,
    pub prefix: Option<String>,
    /// Number of the first page.
    pub start_value: u32,
}

/// The prefix of a label, or nothing.
pub open spec fn label_prefix(prefix: Option<Seq<char>>) -> Seq<char> {
    match prefix {
        Some(p) => p,
        None => Seq::empty(),
    }
}

/// One decimal place of a Roman numeral, given the signs for one, five and ten of
/// the place.
pub open spec fn roman_place(d: int, one: char, five: char, ten: char) -> Seq<char> {
    if d <= 3 {
        run_of(one, d)
    } else if d == 4 {
        seq![one, five]
    } else if d <= 8 {
        seq![five] + run_of(one, d - 5)
    } else {
        seq![one, ten]
    }
}

/// A Roman numeral; nothing for zero.
pub open spec fn roman(n: int, upper: bool) -> Seq<char> {
    if upper {
        run_of('M', n / 1000) + roman_place(n / 100 % 10, 'C', 'D', 'M') + roman_place(
            n / 10 % 10,
            'X',
            'L',
            'C',
        ) + roman_place(n % 10, 'I', 'V', 'X')
    } else {
        run_of('m', n / 1000) + roman_place(n / 100 % 10, 'c', 'd', 'm') + roman_place(
            n / 10 % 10,
            'x',
            'l',
            'c',
        ) + roman_place(n % 10, 'i', 'v', 'x')
    }
}

/// A number in letters: after A to Z come AA, AB and so on; nothing for zero.
pub open spec fn letters(n: int, first: char) -> Seq<char>
    decreases n,
{
    if n <= 0 {
        Seq::empty()
    } else {
        letters((n - 1) / 26, first).push((first as int + (n - 1) % 26) as char)
    }
}

/// A number in a style.
pub open spec fn styled(style: LabelStyle, n: int) -> Seq<char> {
    match style {
        LabelStyle::Decimal => decimal(n as nat),
        LabelStyle::RomanUpper => roman(n, true),
        LabelStyle::RomanLower => roman(n, false),
        LabelStyle::AlphaUpper => letters(n, 'A'),
        LabelStyle::AlphaLower => letters(n, 'a'),
        LabelStyle::Plain => Seq::empty(),
    }
}

/// The label of a page in a range: its prefix and, but for a plain range, its
/// number in the style of the range.
pub open spec fn label_at(r: LabelRange, page: usize) -> Seq<char> {
    label_prefix(opt_view(r.prefix)) + styled(r.style, r.start_value + (page - r.start_page))
}

/// `pdf_oxide::extractors::page_labels::PageLabelRange::format_label`. The label
/// is the prefix of the range, followed by the number of the page in the style of
/// the range.
#[verifier::external_body]
pub(crate) fn page_label(range: &LabelRange, page: usize) -> (r: String)
    requires
        range.start_page <= page,
        range.start_value + (page - range.start_page) <= u32::MAX,
    ensures
        r@ == label_at(*range, page),
{
    let style = match range.style {
        LabelStyle::Decimal => pdf_oxide::extractors::page_labels::PageLabelStyle::Decimal,
        LabelStyle::RomanUpper => pdf_oxide::extractors::page_labels::PageLabelStyle::RomanUpper,
        LabelStyle::RomanLower => pdf_oxide::extractors::page_labels::PageLabelStyle::RomanLower,
        LabelStyle::AlphaUpper => pdf_oxide::extractors::page_labels::PageLabelStyle::AlphaUpper,
        LabelStyle::AlphaLower => pdf_oxide::extractors::page_labels::PageLabelStyle::AlphaLower,
        LabelStyle::Plain => pdf_oxide::extractors::page_labels::PageLabelStyle::None,
    };
    let mut r = pdf_oxide::extractors::page_labels::PageLabelRange::new(range.start_page);
    r.prefix = range.prefix.clone();
    r.with_style(style).with_start_value(range.start_value).format_label(page)
}

/// `a` less one, at least 0.
pub open spec fn one_less(a: usize) -> int {
    if a > 0 {
        a - 1
    } else {
        0
    }
}

/// The 0-based last page of a range of labels.
pub open spec fn label_end(labels: Seq<LabelRange>, page_count: usize, i: int) -> usize {
    let start = labels[i].start_page;
    let end = if i + 1 < labels.len() {
        one_less(labels[i + 1].start_page)
    } else {
        one_less(page_count)
    };
    if end > start {
        end as usize
    } else {
        start
    }
}

/// The note on the labels of the pages `start` to `end`, given the first and the
/// last label.
pub open spec fn label_note_of(
    start: usize,
    end: usize,
    first: Seq<char>,
    last: Seq<char>,
) -> Seq<char> {
    if start == end {
        "p."@ + decimal((start + 1) as nat) + ": '"@ + first + "'"@
    } else {
        "p."@ + decimal((start + 1) as nat) + "-p."@ + decimal((end + 1) as nat) + ": '"@ + first
            + "'..'"@ + last + "'"@
    }
}

/// The note on a range of labels.
pub open spec fn label_note(r: LabelRange, end: usize) -> Seq<char> {
    label_note_of(r.start_page, end, label_at(r, r.start_page), label_at(r, end))
}

/// Writes the note on the labels of the pages `start` to `end` (0-based).
pub fn note_on_labels(start: usize, end: usize, first: &str, last: &str) -> (r: String)
    ensures
        r@ == label_note_of(start, end, first@, last@),
{
    let mut s = String::from_str("p.");
    let a = u128_text(start as u128 + 1);
    s.append(a.as_str());
    if start == end {
        s.append(": '");
        s.append(first);
        s.append("'");
    } else {
        s.append("-p.");
        let b = u128_text(end as u128 + 1);
        s.append(b.as_str());
        s.append(": '");
        s.append(first);
        s.append("'..'");
        s.append(last);
        s.append("'");
    }
    s
}

/// The notes on the first `n` ranges of labels.
pub open spec fn label_notes(labels: Seq<LabelRange>, page_count: usize, n: int) -> Seq<Seq<char>>
    decreases n,
{
    if n <= 0 {
        Seq::empty()
    } else {
        label_notes(labels, page_count, n - 1).push(
            label_note(labels[n - 1], label_end(labels, page_count, n - 1)),
        )
    }
}

/// Whether every label has a number of 32 bits.
pub open spec fn labels_fit(labels: Seq<LabelRange>, page_count: usize) -> bool {
    forall|i: int|
        0 <= i < labels.len() ==> (#[trigger] labels[i]).start_value + (label_end(
            labels,
            page_count,
            i,
        ) - labels[i].start_page) <= u32::MAX
}

fn list_labels(labels: &Vec<LabelRange>, page_count: usize) -> (r: Vec<String>)
    requires
        labels_fit(labels@, page_count),
    ensures
        views(r@) == label_notes(labels@, page_count, labels@.len() as int),
{
    let mut out: Vec<String> = Vec::new();
    let n: usize = labels.len();
    let mut i: usize = 0;
    proof {
        assert(views(out@) =~= Seq::<Seq<char>>::empty());
    }
    while i < n
        invariant
            i <= n,
            n == labels@.len(),
            labels_fit(labels@, page_count),
            views(out@) == label_notes(labels@, page_count, i as int),
        decreases n - i,
    {
        let range = &labels[i];
        let start: usize = range.start_page;
        let last: usize = if i + 1 < n {
            labels[i + 1].start_page.saturating_sub(1)
        } else {
            page_count.saturating_sub(1)
        };
        let end: usize = if last > start {
            last
        } else {
            start
        };
        proof {
            assert(end == label_end(labels@, page_count, i as int));
            assert(labels@[i as int].start_value + (end - labels@[i as int].start_page) <= u32::MAX);
        }
        let first = page_label(range, start);
        let last_label = page_label(range, end);
        let s = note_on_labels(start, end, first.as_str(), last_label.as_str());
        put(&mut out, s);
        i = i + 1;
    }
    out
}

// ---------------------------------------------------------------------------
// Metadata and sizes
// ---------------------------------------------------------------------------

/// Facts of a document as a whole.
#[derive(Debug, PartialEq, Eq)]
pub struct DocMeta {
    pub producer: Option<String>,
    pub creator: Option<String>,
    pub title: Option<String>,
    pub authors: Vec<String>,
    pub page_labels: Vec<LabelRange>,
    pub outline: Option<Vec<OutlineNode>>,
}

/// A list with one more quoted value where there is one.
pub open spec fn with_quoted(notes: Seq<Seq<char>>, label: Seq<char>, o: Option<Seq<char>>) -> Seq<
    Seq<char>,
> {
    match o {
        Some(s) => notes.push(label + s + "'"@),
        None => notes,
    }
}

fn put_quoted(notes: &mut Vec<String>, label: &str, o: &Option<String>)
    ensures
        views(final(notes)@) == with_quoted(views(old(notes)@), label@, opt_view(*o)),
{
    match o {
        Some(v) => {
            let mut s = label.to_owned();
            s.append(v.as_str());
            s.append("'");
            put(notes, s);
        },
        None => {},
    }
}

/// The notes on the metadata of a document.
pub open spec fn metadata_notes(m: DocMeta) -> Seq<Seq<char>> {
    let a = with_quoted(Seq::empty(), "producer '"@, opt_view(m.producer));
    let b = with_quoted(a, "creator '"@, opt_view(m.creator));
    let c = with_quoted(b, "title '"@, opt_view(m.title));
    if m.authors@.len() > 0 {
        c.push("author '"@ + join_of(views(m.authors@), ", "@) + "'"@)
    } else {
        c
    }
}

fn list_metadata(m: &DocMeta) -> (r: Vec<String>)
    ensures
        views(r@) == metadata_notes(*m),
{
    let mut out: Vec<String> = Vec::new();
    proof {
        assert(views(out@) =~= Seq::<Seq<char>>::empty());
    }
    put_quoted(&mut out, "producer '", &m.producer);
    put_quoted(&mut out, "creator '", &m.creator);
    put_quoted(&mut out, "title '", &m.title);
    if m.authors.len() > 0 {
        let mut s = String::from_str("author '");
        let a = join(&m.authors, ", ");
        s.append(a.as_str());
        s.append("'");
        put(&mut out, s);
    }
    out
}

/// A page with its width and height in points.
pub type PageSize = (usize, u32, u32);

/// A run of pages of one size: first, last, width, height.
pub type SizeRun = (usize, usize, u32, u32);

/// The runs of consecutive pages of one size among the first `n`.
pub open spec fn size_runs(sizes: Seq<PageSize>, n: int) -> Seq<SizeRun>
    decreases n,
{
    if n <= 0 {
        Seq::empty()
    } else {
        let before = size_runs(sizes, n - 1);
        let p = sizes[n - 1];
        let l = before.last();
        if before.len() > 0 && p.0 == l.1 + 1 && l.2 == p.1 && l.3 == p.2 {
            before.drop_last().push((l.0, p.0, l.2, l.3))
        } else {
            before.push((p.0, p.0, p.1, p.2))
        }
    }
}

/// The note on a run of pages of one size.
pub open spec fn size_note(r: SizeRun) -> Seq<char> {
    page_range(r.0, r.1) + ": '"@ + decimal(r.2 as nat) + "x"@ + decimal(r.3 as nat) + " pt'"@
}

fn list_sizes(sizes: &Vec<PageSize>) -> (r: Vec<String>)
    ensures
        views(r@) == size_runs(sizes@, sizes@.len() as int).map_values(|x: SizeRun| size_note(x)),
{
    let mut runs: Vec<SizeRun> = Vec::new();
    let mut i: usize = 0;
    while i < sizes.len()
        invariant
            i <= sizes@.len(),
            runs@ == size_runs(sizes@, i as int),
        decreases sizes@.len() - i,
    {
        let p: PageSize = sizes[i];
        let n: usize = runs.len();
        if n > 0 && p.0 > 0 && p.0 - 1 == runs[n - 1].1 && runs[n - 1].2 == p.1 && runs[n - 1].3
            == p.2 {
            let l: SizeRun = runs[n - 1];
            let ghost before = runs@;
            runs.pop();
            runs.push((l.0, p.0, l.2, l.3));
            proof {
                assert(runs@ =~= before.drop_last().push((l.0, p.0, l.2, l.3)));
            }
        } else {
            runs.push((p.0, p.0, p.1, p.2));
        }
        i = i + 1;
    }
    let mut out: Vec<String> = Vec::new();
    let mut k: usize = 0;
    while k < runs.len()
        invariant
            k <= runs@.len(),
            out@.len() == k,
            forall|j: int| 0 <= j < k ==> (#[trigger] out@[j])@ == size_note(runs@[j]),
        decreases runs@.len() - k,
    {
        let r: SizeRun = runs[k];
        let mut s = range_str(r.0, r.1);
        s.append(": '");
        let w = u64_text(r.2 as u64);
        s.append(w.as_str());
        s.append("x");
        let h = u64_text(r.3 as u64);
        s.append(h.as_str());
        s.append(" pt'");
        out.push(s);
        k = k + 1;
    }
    proof {
        assert(views(out@) =~= runs@.map_values(|x: SizeRun| size_note(x)));
    }
    out
}

// ---------------------------------------------------------------------------
// Page numbers
// ---------------------------------------------------------------------------

/// A page with a number that it carries.
pub type Folio = (usize, u32);

/// The number that a page carries.
pub open spec fn folio_of(s: SheetView) -> Option<nat> {
    match s.page_number {
        Some(c) => digits_number(number_digits(c.text)),
        None => None,
    }
}

/// The pages among the first `n` that carry a number.
pub open spec fn folios(sheets: Seq<SheetView>, n: int) -> Seq<Folio>
    decreases n,
{
    if n <= 0 {
        Seq::empty()
    } else {
        let s = sheets[n - 1];
        match folio_of(s) {
            Some(v) if s.error is None => folios(sheets, n - 1).push((s.num, v as u32)),
            _ => folios(sheets, n - 1),
        }
    }
}

/// The notes on page numbers among the first `n` that hold no number.
pub open spec fn not_numeric(sheets: Seq<SheetView>, n: int) -> Seq<Seq<char>>
    decreases n,
{
    if n <= 0 {
        Seq::empty()
    } else {
        let s = sheets[n - 1];
        match s.page_number {
            Some(c) if s.error is None && folio_of(s) is None => not_numeric(sheets, n - 1).push(
                "p."@ + decimal(s.num as nat) + ": page number '"@ + c.text + "' is not numeric"@,
            ),
            _ => not_numeric(sheets, n - 1),
        }
    }
}

/// The pages among the first `n` without a page number.
pub open spec fn unnumbered(sheets: Seq<SheetView>, n: int) -> Seq<usize>
    decreases n,
{
    if n <= 0 {
        Seq::empty()
    } else {
        let s = sheets[n - 1];
        if s.error is None && s.page_number is None {
            unnumbered(sheets, n - 1).push(s.num)
        } else {
            unnumbered(sheets, n - 1)
        }
    }
}

/// How many of the first `n` pages were extracted.
pub open spec fn extracted_count(sheets: Seq<SheetView>, n: int) -> nat
    decreases n,
{
    if n <= 0 {
        0
    } else {
        extracted_count(sheets, n - 1) + if sheets[n - 1].error is None {
            1nat
        } else {
            0nat
        }
    }
}

/// The note on pages that lack something: all of them, or some.
pub open spec fn lack_note(all: Seq<char>, some: Seq<char>, pages: Seq<usize>, count: nat) -> Seq<
    Seq<char>,
> {
    if pages.len() == count && count > 0 {
        seq![all]
    } else if pages.len() > 0 {
        seq![some + pages_text(pages)]
    } else {
        Seq::empty()
    }
}

/// A run of pages whose numbers go up by one: first and last page, first and
/// last number.
pub type FolioRun = (usize, usize, u32, u32);

/// The runs among the first `n` numbered pages.
pub open spec fn folio_runs(entries: Seq<Folio>, n: int) -> Seq<FolioRun>
    decreases n,
{
    if n <= 0 {
        Seq::empty()
    } else {
        let before = folio_runs(entries, n - 1);
        let p = entries[n - 1];
        let l = before.last();
        if before.len() > 0 && p.0 == l.1 + 1 && p.1 == l.3 + 1 {
            before.drop_last().push((l.0, p.0, l.2, p.1))
        } else {
            before.push((p.0, p.0, p.1, p.1))
        }
    }
}

/// The note on a run of page numbers.
pub open spec fn folio_note(r: FolioRun) -> Seq<char> {
    if r.0 == r.1 {
        "p."@ + decimal(r.0 as nat) + ": '"@ + decimal(r.2 as nat) + "'"@
    } else {
        "p."@ + decimal(r.0 as nat) + "-p."@ + decimal(r.1 as nat) + ": '"@ + decimal(r.2 as nat)
            + "'..'"@ + decimal(r.3 as nat) + "'"@
    }
}

/// The pages among the first `n` entries that carry the number `v`.
pub open spec fn pages_with(entries: Seq<Folio>, v: u32, n: int) -> Seq<usize>
    decreases n,
{
    if n <= 0 {
        Seq::empty()
    } else if entries[n - 1].1 == v {
        pages_with(entries, v, n - 1).push(entries[n - 1].0)
    } else {
        pages_with(entries, v, n - 1)
    }
}

/// Whether a number stands on more than one page.
pub open spec fn is_repeated(entries: Seq<Folio>, v: u32) -> bool {
    pages_with(entries, v, entries.len() as int).len() > 1
}

/// The smallest repeated number above `v` among the first `n` entries.
pub open spec fn next_repeated(entries: Seq<Folio>, v: int, n: int) -> Option<u32>
    decreases n,
{
    if n <= 0 {
        None
    } else {
        let before = next_repeated(entries, v, n - 1);
        let x = entries[n - 1].1;
        if x > v && is_repeated(entries, x) && (before is None || x < before->0) {
            Some(x)
        } else {
            before
        }
    }
}

/// The note on a repeated number.
pub open spec fn repeated_note(entries: Seq<Folio>, v: u32) -> Seq<char> {
    "page number '"@ + decimal(v as nat) + "' appears on "@ + pages_text(
        pages_with(entries, v, entries.len() as int),
    )
}

/// The notes on the repeated numbers above `v`, in ascending order.
pub open spec fn repeated_notes(entries: Seq<Folio>, v: int) -> Seq<Seq<char>>
    decreases u32::MAX - v,
{
    match next_repeated(entries, v, entries.len() as int) {
        Some(x) => if v < x {
            seq![repeated_note(entries, x)] + repeated_notes(entries, x as int)
        } else {
            Seq::empty()
        },
        None => Seq::empty(),
    }
}

/// The pages among the first `n` that give a total.
pub open spec fn totals(sheets: Seq<SheetView>, n: int) -> Seq<Folio>
    decreases n,
{
    if n <= 0 {
        Seq::empty()
    } else {
        let s = sheets[n - 1];
        match s.page_number {
            Some(c) if s.error is None => match digits_number(sum_digits(c.text)) {
                Some(t) => totals(sheets, n - 1).push((s.num, t as u32)),
                None => totals(sheets, n - 1),
            },
            _ => totals(sheets, n - 1),
        }
    }
}

/// Whether all totals are the same.
pub open spec fn one_total(t: Seq<Folio>) -> bool {
    forall|i: int| 0 <= i < t.len() ==> (#[trigger] t[i]).1 == t[0].1
}

/// One page with its total.
pub open spec fn total_part(f: Folio) -> Seq<char> {
    "p."@ + decimal(f.0 as nat) + " '"@ + decimal(f.1 as nat) + "'"@
}

/// The note on the totals.
pub open spec fn total_notes(t: Seq<Folio>) -> Seq<Seq<char>> {
    if t.len() == 0 {
        Seq::empty()
    } else if one_total(t) {
        seq![
            "'of "@ + decimal(t[0].1 as nat) + "' on "@ + pages_text(
                t.map_values(|f: Folio| f.0),
            ),
        ]
    } else {
        seq!["'of' totals: "@ + join_of(t.map_values(|f: Folio| total_part(f)), ", "@)]
    }
}

/// The notes on page numbers.
pub open spec fn page_number_notes(sheets: Seq<SheetView>) -> Seq<Seq<char>> {
    let n = sheets.len() as int;
    let entries = folios(sheets, n);
    not_numeric(sheets, n) + lack_note(
        "no page numbers on any page"@,
        "no page number on "@,
        unnumbered(sheets, n),
        extracted_count(sheets, n),
    ) + folio_runs(entries, entries.len() as int).map_values(|r: FolioRun| folio_note(r))
        + repeated_notes(entries, -1) + total_notes(totals(sheets, n))
}

fn put_lack(notes: &mut Vec<String>, all: &str, some: &str, pages: &Vec<usize>, count: usize)
    ensures
        views(final(notes)@) == views(old(notes)@) + lack_note(all@, some@, pages@, count as nat),
{
    let ghost start = views(notes@);
    if pages.len() == count && count > 0 {
        put(notes, all.to_owned());
        proof {
            assert(start.push(all@) =~= start + seq![all@]);
        }
    } else if pages.len() > 0 {
        let mut s = some.to_owned();
        let p = fmt_pages(pages);
        s.append(p.as_str());
        put(notes, s);
        proof {
            assert(start.push(s@) =~= start + seq![s@]);
        }
    } else {
        proof {
            assert(start + Seq::<Seq<char>>::empty() =~= start);
        }
    }
}

fn put_folio_runs(notes: &mut Vec<String>, entries: &Vec<Folio>)
    ensures
        views(final(notes)@) == views(old(notes)@) + folio_runs(
            entries@,
            entries@.len() as int,
        ).map_values(|r: FolioRun| folio_note(r)),
{
    let mut runs: Vec<FolioRun> = Vec::new();
    let mut i: usize = 0;
    while i < entries.len()
        invariant
            i <= entries@.len(),
            runs@ == folio_runs(entries@, i as int),
        decreases entries@.len() - i,
    {
        let p: Folio = entries[i];
        let n: usize = runs.len();
        if n > 0 && p.0 > 0 && p.0 - 1 == runs[n - 1].1 && p.1 > 0 && p.1 - 1 == runs[n - 1].3 {
            let l: FolioRun = runs[n - 1];
            let ghost before = runs@;
            runs.pop();
            runs.push((l.0, p.0, l.2, p.1));
            proof {
                assert(runs@ =~= before.drop_last().push((l.0, p.0, l.2, p.1)));
            }
        } else {
            runs.push((p.0, p.0, p.1, p.1));
        }
        i = i + 1;
    }
    let ghost start = views(notes@);
    let ghost all = runs@.map_values(|r: FolioRun| folio_note(r));
    let mut k: usize = 0;
    proof {
        assert(start + all.take(0) =~= start);
    }
    while k < runs.len()
        invariant
            k <= runs@.len(),
            start == views(old(notes)@),
            all == runs@.map_values(|r: FolioRun| folio_note(r)),
            views(notes@) == start + all.take(k as int),
        decreases runs@.len() - k,
    {
        let r: FolioRun = runs[k];
        let mut s = String::from_str("p.");
        let a = usize_text(r.0);
        s.append(a.as_str());
        if r.0 != r.1 {
            s.append("-p.");
            let b = usize_text(r.1);
            s.append(b.as_str());
        }
        s.append(": '");
        let c = u64_text(r.2 as u64);
        s.append(c.as_str());
        if r.0 != r.1 {
            s.append("'..'");
            let d = u64_text(r.3 as u64);
            s.append(d.as_str());
        }
        s.append("'");
        put(notes, s);
        proof {
            assert(all[k as int] == s@);
            assert((start + all.take(k as int)).push(s@) =~= start + all.take(k + 1));
        }
        k = k + 1;
    }
    proof {
        assert(all.take(all.len() as int) =~= all);
    }
}

fn collect_pages(entries: &Vec<Folio>, v: u32) -> (r: Vec<usize>)
    ensures
        r@ == pages_with(entries@, v, entries@.len() as int),
{
    let mut out: Vec<usize> = Vec::new();
    let mut i: usize = 0;
    while i < entries.len()
        invariant
            i <= entries@.len(),
            out@ == pages_with(entries@, v, i as int),
        decreases entries@.len() - i,
    {
        if entries[i].1 == v {
            out.push(entries[i].0);
        }
        i = i + 1;
    }
    out
}

fn find_repeated(entries: &Vec<Folio>, v: i64) -> (r: Option<u32>)
    ensures
        r == next_repeated(entries@, v as int, entries@.len() as int),
        r is Some ==> r->0 > v,
{
    let mut best: Option<u32> = None;
    let mut i: usize = 0;
    while i < entries.len()
        invariant
            i <= entries@.len(),
            best == next_repeated(entries@, v as int, i as int),
            best is Some ==> best->0 > v,
        decreases entries@.len() - i,
    {
        let x: u32 = entries[i].1;
        if x as i64 > v && collect_pages(entries, x).len() > 1 {
            let smaller = match best {
                None => true,
                Some(b) => x < b,
            };
            if smaller {
                best = Some(x);
            }
        }
        i = i + 1;
    }
    best
}

fn put_repeated(notes: &mut Vec<String>, entries: &Vec<Folio>)
    ensures
        views(final(notes)@) == views(old(notes)@) + repeated_notes(entries@, -1),
{
    let ghost start = views(notes@);
    let ghost all = repeated_notes(entries@, -1);
    let mut v: i64 = -1;
    loop
        invariant
            -1 <= v <= u32::MAX,
            all == repeated_notes(entries@, -1),
            start == views(old(notes)@),
            views(notes@) + repeated_notes(entries@, v as int) == start + all,
        decreases u32::MAX - v,
    {
        match find_repeated(entries, v) {
            None => {
                proof {
                    assert(views(notes@) + repeated_notes(entries@, v as int) =~= views(notes@));
                }
                return;
            },
            Some(x) => {
                let mut s = String::from_str("page number '");
                let a = u64_text(x as u64);
                s.append(a.as_str());
                s.append("' appears on ");
                let p = fmt_pages(&collect_pages(entries, x));
                s.append(p.as_str());
                proof {
                    let now = views(notes@);
                    assert(now + (seq![s@] + repeated_notes(entries@, x as int)) =~= now.push(s@)
                        + repeated_notes(entries@, x as int));
                }
                put(notes, s);
                v = x as i64;
            },
        }
    }
}

fn put_totals(notes: &mut Vec<String>, t: &Vec<Folio>)
    ensures
        views(final(notes)@) == views(old(notes)@) + total_notes(t@),
{
    let ghost start = views(notes@);
    if t.len() == 0 {
        proof {
            assert(start + Seq::<Seq<char>>::empty() =~= start);
        }
        return;
    }
    let mut same = true;
    let mut pages: Vec<usize> = Vec::new();
    let mut parts: Vec<String> = Vec::new();
    let mut i: usize = 0;
    while i < t.len()
        invariant
            0 < t@.len(),
            i <= t@.len(),
            pages@.len() == i,
            parts@.len() == i,
            forall|k: int| 0 <= k < i ==> (#[trigger] pages@[k]) == t@[k].0,
            forall|k: int| 0 <= k < i ==> (#[trigger] parts@[k])@ == total_part(t@[k]),
            same == (forall|k: int| 0 <= k < i ==> (#[trigger] t@[k]).1 == t@[0].1),
        decreases t@.len() - i,
    {
        if t[i].1 != t[0].1 {
            proof {
                assert(t@[i as int].1 != t@[0].1);
            }
            same = false;
        }
        pages.push(t[i].0);
        let mut s = String::from_str("p.");
        let a = usize_text(t[i].0);
        s.append(a.as_str());
        s.append(" '");
        let b = u64_text(t[i].1 as u64);
        s.append(b.as_str());
        s.append("'");
        parts.push(s);
        i = i + 1;
    }
    proof {
        assert(pages@ =~= t@.map_values(|f: Folio| f.0));
        assert(views(parts@) =~= t@.map_values(|f: Folio| total_part(f)));
        assert(same == one_total(t@));
    }
    let mut s = String::new();
    if same {
        s = String::from_str("'of ");
        let n = u64_text(t[0].1 as u64);
        s.append(n.as_str());
        s.append("' on ");
        let p = fmt_pages(&pages);
        s.append(p.as_str());
    } else {
        s = String::from_str("'of' totals: ");
        let p = join(&parts, ", ");
        s.append(p.as_str());
    }
    put(notes, s);
    proof {
        assert(start.push(s@) =~= start + seq![s@]);
    }
}

fn list_page_numbers(sheets: &Vec<PageSheet>) -> (r: Vec<String>)
    ensures
        views(r@) == page_number_notes(sheets_view(sheets@)),
{
    let ghost sv = sheets_view(sheets@);
    let mut out: Vec<String> = Vec::new();
    let mut entries: Vec<Folio> = Vec::new();
    let mut missing: Vec<usize> = Vec::new();
    let mut all: Vec<Folio> = Vec::new();
    let mut count: usize = 0;
    let mut i: usize = 0;
    proof {
        assert(views(out@) =~= Seq::<Seq<char>>::empty());
    }
    while i < sheets.len()
        invariant
            i <= sheets@.len(),
            count <= i,
            sv == sheets_view(sheets@),
            views(out@) == not_numeric(sv, i as int),
            entries@ == folios(sv, i as int),
            missing@ == unnumbered(sv, i as int),
            all@ == totals(sv, i as int),
            count == extracted_count(sv, i as int),
        decreases sheets@.len() - i,
    {
        let s = &sheets[i];
        proof {
            assert(sv[i as int] == s@);
        }
        if s.error.is_none() {
            count = count + 1;
            match &s.page_number {
                None => {
                    missing.push(s.num);
                },
                Some(c) => {
                    match parse_page_number(c.text.as_str()) {
                        Some(n) => {
                            entries.push((s.num, n));
                        },
                        None => {
                            let mut t = String::from_str("p.");
                            let a = usize_text(s.num);
                            t.append(a.as_str());
                            t.append(": page number '");
                            t.append(c.text.as_str());
                            t.append("' is not numeric");
                            put(&mut out, t);
                        },
                    }
                    match parse_total(c.text.as_str()) {
                        Some(n) => {
                            all.push((s.num, n));
                        },
                        None => {},
                    }
                },
            }
        }
        i = i + 1;
    }
    proof {
        assert(sv.len() == sheets@.len());
    }
    put_lack(&mut out, "no page numbers on any page", "no page number on ", &missing, count);
    put_folio_runs(&mut out, &entries);
    put_repeated(&mut out, &entries);
    put_totals(&mut out, &all);
    out
}

// ---------------------------------------------------------------------------
// Headers, footers, headings, lists
// ---------------------------------------------------------------------------

/// A run of pages that share a header or footer, or lack it.
#[derive(Debug, PartialEq, Eq)]
pub struct Run {
    pub start: usize,
    pub end: usize,
    pub chrome: Option<Chrome>,
}

/// What such a run is.
#[verifier::ext_equal]
pub struct RunView {
    pub start: usize,
    pub end: usize,
    pub chrome: Option<ChromeView>,
}

impl View for Run {
    type V = RunView;

    open spec fn view(&self) -> RunView {
        RunView { start: self.start, end: self.end, chrome: chrome_view(self.chrome) }
    }
}

/// The contents of a list of runs.
pub open spec fn runs_view(v: Seq<Run>) -> Seq<RunView> {
    v.map_values(|r: Run| r@)
}

/// The header or the footer of a page.
pub open spec fn pick(s: SheetView, footer: bool) -> Option<ChromeView> {
    if footer {
        s.footer
    } else {
        s.header
    }
}

/// The runs of pages among the first `n` that share a header (or footer).
pub open spec fn chrome_runs(sheets: Seq<SheetView>, footer: bool, n: int) -> Seq<RunView>
    decreases n,
{
    if n <= 0 {
        Seq::empty()
    } else {
        let before = chrome_runs(sheets, footer, n - 1);
        let s = sheets[n - 1];
        let c = pick(s, footer);
        if s.error is Some {
            before
        } else if before.len() > 0 && before.last().chrome == c {
            before.drop_last().push(RunView { end: s.num, ..before.last() })
        } else {
            before.push(RunView { start: s.num, end: s.num, chrome: c })
        }
    }
}

fn same_chrome(a: &Option<Chrome>, b: &Option<Chrome>) -> (r: bool)
    ensures
        r == (chrome_view(*a) == chrome_view(*b)),
{
    match (a, b) {
        (None, None) => true,
        (Some(x), Some(y)) => str_eq(x.text.as_str(), y.text.as_str()) && match (
            x.section,
            y.section,
        ) {
            (None, None) => true,
            (Some(p), Some(q)) => p == q,
            _ => false,
        },
        _ => false,
    }
}

fn copy_chrome(c: &Option<Chrome>) -> (r: Option<Chrome>)
    ensures
        chrome_view(r) == chrome_view(*c),
{
    match c {
        Some(x) => Some(Chrome { text: x.text.clone(), section: x.section }),
        None => None,
    }
}

/// Groups the extracted pages into runs that share a header, or a footer.
pub fn build_runs(sheets: &Vec<PageSheet>, footer: bool) -> (r: Vec<Run>)
    ensures
        runs_view(r@) == chrome_runs(sheets_view(sheets@), footer, sheets@.len() as int),
{
    let ghost sv = sheets_view(sheets@);
    let mut runs: Vec<Run> = Vec::new();
    let mut i: usize = 0;
    proof {
        assert(runs_view(runs@) =~= Seq::<RunView>::empty());
    }
    while i < sheets.len()
        invariant
            i <= sheets@.len(),
            sv == sheets_view(sheets@),
            runs_view(runs@) == chrome_runs(sv, footer, i as int),
        decreases sheets@.len() - i,
    {
        let s = &sheets[i];
        proof {
            assert(sv[i as int] == s@);
        }
        if s.error.is_none() {
            let c = if footer {
                &s.footer
            } else {
                &s.header
            };
            let n: usize = runs.len();
            let ghost before = runs_view(runs@);
            proof {
                assert(before.len() == n);
                if n > 0 {
                    assert(before.last() == runs@[n - 1]@);
                }
            }
            let joins = n > 0 && same_chrome(&runs[n - 1].chrome, c);
            if joins {
                match runs.pop() {
                    Some(l) => {
                        let mut l = l;
                        l.end = s.num;
                        proof {
                            assert(runs_view(runs@) =~= before.drop_last());
                            assert(runs_view(runs@.push(l)) =~= before.drop_last().push(l@));
                        }
                        runs.push(l);
                    },
                    None => {},
                }
            } else {
                let r = Run { start: s.num, end: s.num, chrome: copy_chrome(c) };
                proof {
                    assert(runs_view(runs@.push(r)) =~= before.push(r@));
                }
                runs.push(r);
            }
        }
        i = i + 1;
    }
    runs
}

/// The line on a run of pages.
pub open spec fn run_line(label: Seq<char>, r: RunView) -> Seq<char> {
    let head = label + ": "@ + page_range(r.start, r.end);
    match r.chrome {
        None => head + ": (none)\n"@,
        Some(c) => {
            let a = head + ": '"@ + c.text + "'"@;
            match c.section {
                Some(s) => a + " (section "@ + decimal(s as nat) + ")\n"@,
                None => a + "\n"@,
            }
        },
    }
}

/// The lines on the first `n` runs of pages.
pub open spec fn run_lines(label: Seq<char>, runs: Seq<RunView>, n: int) -> Seq<char>
    decreases n,
{
    if n <= 0 {
        Seq::empty()
    } else {
        run_lines(label, runs, n - 1) + run_line(label, runs[n - 1])
    }
}

/// Renders runs of headers or footers, with the section of each, when known.
pub fn render_runs(label: &str, runs: &Vec<Run>) -> (r: String)
    ensures
        r@ == run_lines(label@, runs_view(runs@), runs@.len() as int),
{
    let mut out = String::new();
    let mut i: usize = 0;
    while i < runs.len()
        invariant
            i <= runs@.len(),
            out@ == run_lines(label@, runs_view(runs@), i as int),
        decreases runs@.len() - i,
    {
        let run = &runs[i];
        let mut s = label.to_owned();
        s.append(": ");
        let range = range_str(run.start, run.end);
        s.append(range.as_str());
        match &run.chrome {
            None => {
                s.append(": (none)\n");
            },
            Some(c) => {
                s.append(": '");
                s.append(c.text.as_str());
                s.append("'");
                match c.section {
                    Some(n) => {
                        s.append(" (section ");
                        let t = usize_text(n);
                        s.append(t.as_str());
                        s.append(")\n");
                    },
                    None => {
                        s.append("\n");
                    },
                }
            },
        }
        out.append(s.as_str());
        i = i + 1;
    }
    out
}

/// The notes on headings so far, and the level of the last.
pub type HeadingState = (Seq<Seq<char>>, Option<u8>);

/// The state after one heading: a level that goes down by more than one is
/// noted.
pub open spec fn after_heading(st: HeadingState, h: (usize, u8)) -> HeadingState {
    let notes = match st.1 {
        Some(prev) if h.1 > prev + 1 => st.0.push(
            "p."@ + decimal(h.0 as nat) + ": H"@ + decimal(h.1 as nat) + " follows H"@ + decimal(
                prev as nat,
            ),
        ),
        _ => st.0,
    };
    (notes, Some(h.1))
}

/// The state after the first `n` headings of a page.
pub open spec fn after_headings(st: HeadingState, hs: Seq<(usize, u8)>, n: int) -> HeadingState
    decreases n,
{
    if n <= 0 {
        st
    } else {
        after_heading(after_headings(st, hs, n - 1), hs[n - 1])
    }
}

/// The state after the headings of the first `n` pages.
pub open spec fn heading_state(sheets: Seq<SheetView>, n: int) -> HeadingState
    decreases n,
{
    if n <= 0 {
        (Seq::empty(), None)
    } else {
        let before = heading_state(sheets, n - 1);
        let s = sheets[n - 1];
        if s.error is None {
            after_headings(before, s.headings, s.headings.len() as int)
        } else {
            before
        }
    }
}

fn list_headings(sheets: &Vec<PageSheet>) -> (r: Vec<String>)
    ensures
        views(r@) == heading_state(sheets_view(sheets@), sheets@.len() as int).0,
{
    let ghost sv = sheets_view(sheets@);
    let mut out: Vec<String> = Vec::new();
    let mut prev: Option<u8> = None;
    let mut i: usize = 0;
    proof {
        assert(views(out@) =~= Seq::<Seq<char>>::empty());
    }
    while i < sheets.len()
        invariant
            i <= sheets@.len(),
            sv == sheets_view(sheets@),
            (views(out@), prev) == heading_state(sv, i as int),
        decreases sheets@.len() - i,
    {
        let s = &sheets[i];
        proof {
            assert(sv[i as int] == s@);
        }
        if s.error.is_none() {
            let ghost before = (views(out@), prev);
            let mut k: usize = 0;
            while k < s.headings.len()
                invariant
                    k <= s.headings@.len(),
                    (views(out@), prev) == after_headings(before, s.headings@, k as int),
                decreases s.headings@.len() - k,
            {
                let (page, level): (usize, u8) = s.headings[k];
                match prev {
                    Some(p) => {
                        if level > 0 && level - 1 > p {
                            let mut t = String::from_str("p.");
                            let a = usize_text(page);
                            t.append(a.as_str());
                            t.append(": H");
                            let b = u64_text(level as u64);
                            t.append(b.as_str());
                            t.append(" follows H");
                            let c = u64_text(p as u64);
                            t.append(c.as_str());
                            put(&mut out, t);
                        }
                    },
                    None => {},
                }
                prev = Some(level);
                k = k + 1;
            }
        }
        i = i + 1;
    }
    out
}

/// The first `n` notes of a page, each with its page.
pub open spec fn paged_notes(num: usize, notes: Seq<Seq<char>>, n: int) -> Seq<Seq<char>>
    decreases n,
{
    if n <= 0 {
        Seq::empty()
    } else {
        paged_notes(num, notes, n - 1).push("p."@ + decimal(num as nat) + ": "@ + notes[n - 1])
    }
}

/// The notes on the lists of the first `n` pages.
pub open spec fn list_notes_of(sheets: Seq<SheetView>, n: int) -> Seq<Seq<char>>
    decreases n,
{
    if n <= 0 {
        Seq::empty()
    } else {
        let s = sheets[n - 1];
        if s.error is None {
            list_notes_of(sheets, n - 1) + paged_notes(
                s.num,
                s.list_notes,
                s.list_notes.len() as int,
            )
        } else {
            list_notes_of(sheets, n - 1)
        }
    }
}

fn list_lists(sheets: &Vec<PageSheet>) -> (r: Vec<String>)
    ensures
        views(r@) == list_notes_of(sheets_view(sheets@), sheets@.len() as int),
{
    let ghost sv = sheets_view(sheets@);
    let mut out: Vec<String> = Vec::new();
    let mut i: usize = 0;
    proof {
        assert(views(out@) =~= Seq::<Seq<char>>::empty());
    }
    while i < sheets.len()
        invariant
            i <= sheets@.len(),
            sv == sheets_view(sheets@),
            views(out@) == list_notes_of(sv, i as int),
        decreases sheets@.len() - i,
    {
        let s = &sheets[i];
        proof {
            assert(sv[i as int] == s@);
        }
        if s.error.is_none() {
            let ghost before = views(out@);
            let ghost nv = views(s.list_notes@);
            let mut k: usize = 0;
            proof {
                assert(before + paged_notes(s.num, nv, 0) =~= before);
                assert(nv.len() == s.list_notes@.len());
            }
            while k < s.list_notes.len()
                invariant
                    k <= s.list_notes@.len(),
                    nv == views(s.list_notes@),
                    views(out@) == before + paged_notes(s.num, nv, k as int),
                decreases s.list_notes@.len() - k,
            {
                let mut t = String::from_str("p.");
                let a = usize_text(s.num);
                t.append(a.as_str());
                t.append(": ");
                t.append(s.list_notes[k].as_str());
                proof {
                    assert(nv[k as int] == s.list_notes@[k as int]@);
                    assert((before + paged_notes(s.num, nv, k as int)).push(t@) =~= before
                        + paged_notes(s.num, nv, k + 1));
                }
                put(&mut out, t);
                k = k + 1;
            }
        }
        i = i + 1;
    }
    out
}

/// The notes on pages among the first `n` that could not be extracted.
pub open spec fn failed_notes(sheets: Seq<SheetView>, n: int) -> Seq<Seq<char>>
    decreases n,
{
    if n <= 0 {
        Seq::empty()
    } else {
        let s = sheets[n - 1];
        if s.error is Some {
            failed_notes(sheets, n - 1).push(
                "p."@ + decimal(s.num as nat) + ": extraction failed"@,
            )
        } else {
            failed_notes(sheets, n - 1)
        }
    }
}

/// The extracted pages among the first `n` without a body.
pub open spec fn bodiless(sheets: Seq<SheetView>, n: int) -> Seq<usize>
    decreases n,
{
    if n <= 0 {
        Seq::empty()
    } else {
        let s = sheets[n - 1];
        if s.error is None && s.events.len() == 0 {
            bodiless(sheets, n - 1).push(s.num)
        } else {
            bodiless(sheets, n - 1)
        }
    }
}

/// The remaining notes.
pub open spec fn misc_notes(sheets: Seq<SheetView>) -> Seq<Seq<char>> {
    let n = sheets.len() as int;
    failed_notes(sheets, n) + lack_note(
        "no body text on any page"@,
        "no body text on "@,
        bodiless(sheets, n),
        extracted_count(sheets, n),
    )
}

fn list_misc(sheets: &Vec<PageSheet>) -> (r: Vec<String>)
    ensures
        views(r@) == misc_notes(sheets_view(sheets@)),
{
    let ghost sv = sheets_view(sheets@);
    let mut out: Vec<String> = Vec::new();
    let mut empty: Vec<usize> = Vec::new();
    let mut count: usize = 0;
    let mut i: usize = 0;
    proof {
        assert(views(out@) =~= Seq::<Seq<char>>::empty());
    }
    while i < sheets.len()
        invariant
            i <= sheets@.len(),
            count <= i,
            sv == sheets_view(sheets@),
            views(out@) == failed_notes(sv, i as int),
            empty@ == bodiless(sv, i as int),
            count == extracted_count(sv, i as int),
        decreases sheets@.len() - i,
    {
        let s = &sheets[i];
        proof {
            assert(sv[i as int] == s@);
            assert(events_view(s.events@).len() == s.events@.len());
        }
        if s.error.is_none() {
            count = count + 1;
            if s.events.len() == 0 {
                empty.push(s.num);
            }
        } else {
            let mut t = String::from_str("p.");
            let a = usize_text(s.num);
            t.append(a.as_str());
            t.append(": extraction failed");
            put(&mut out, t);
        }
        i = i + 1;
    }
    proof {
        assert(sv.len() == sheets@.len());
    }
    put_lack(&mut out, "no body text on any page", "no body text on ", &empty, count);
    out
}

// ---------------------------------------------------------------------------
// All facts
// ---------------------------------------------------------------------------

/// Factual observations about the format of a document.
#[derive(Debug, PartialEq, Eq)]
pub struct FormatFacts {
    pub page_count: usize,
    /// 1-based page range that was asked for.
    pub extracted: Option<(usize, usize)>,
    pub metadata_notes: Vec<String>,
    pub size_notes: Vec<String>,
    pub page_number_notes: Vec<String>,
    pub label_notes: Vec<String>,
    pub header_runs: Vec<Run>,
    pub footer_runs: Vec<Run>,
    pub heading_notes: Vec<String>,
    pub list_notes: Vec<String>,
    pub notes: Vec<String>,
}

/// What the observations are.
#[verifier::ext_equal]
pub struct FactsView {
    pub page_count: usize,
    pub extracted: Option<(usize, usize)>,
    pub metadata_notes: Seq<Seq<char>>,
    pub size_notes: Seq<Seq<char>>,
    pub page_number_notes: Seq<Seq<char>>,
    pub label_notes: Seq<Seq<char>>,
    pub header_runs: Seq<RunView>,
    pub footer_runs: Seq<RunView>,
    pub heading_notes: Seq<Seq<char>>,
    pub list_notes: Seq<Seq<char>>,
    pub notes: Seq<Seq<char>>,
}

impl View for FormatFacts {
    type V = FactsView;

    open spec fn view(&self) -> FactsView {
        FactsView {
            page_count: self.page_count,
            extracted: self.extracted,
            metadata_notes: views(self.metadata_notes@),
            size_notes: views(self.size_notes@),
            page_number_notes: views(self.page_number_notes@),
            label_notes: views(self.label_notes@),
            header_runs: runs_view(self.header_runs@),
            footer_runs: runs_view(self.footer_runs@),
            heading_notes: views(self.heading_notes@),
            list_notes: views(self.list_notes@),
            notes: views(self.notes@),
        }
    }
}

/// The observations on a document. Sizes and labels cover the whole document,
/// the other facts the extracted pages.
pub open spec fn facts_of(
    sheets: Seq<SheetView>,
    sizes: Seq<PageSize>,
    meta: DocMeta,
    range: Option<(usize, usize)>,
) -> FactsView {
    let n = sheets.len() as int;
    FactsView {
        page_count: sizes.len() as usize,
        extracted: range,
        metadata_notes: metadata_notes(meta),
        size_notes: size_runs(sizes, sizes.len() as int).map_values(|x: SizeRun| size_note(x)),
        page_number_notes: page_number_notes(sheets),
        label_notes: label_notes(
            meta.page_labels@,
            sizes.len() as usize,
            meta.page_labels@.len() as int,
        ),
        header_runs: chrome_runs(sheets, false, n),
        footer_runs: chrome_runs(sheets, true, n),
        heading_notes: heading_state(sheets, n).0,
        list_notes: list_notes_of(sheets, n),
        notes: misc_notes(sheets),
    }
}

/// The text of the observations.
pub open spec fn facts_text(f: FactsView) -> Seq<char> {
    let a = "[format-facts]\npages: "@ + decimal(f.page_count as nat) + "\n"@;
    let a = match f.extracted {
        Some(r) => a + "extracted: "@ + page_range(r.0, r.1) + "\n"@,
        None => a,
    };
    let a = with_notes(a, "metadata: "@, f.metadata_notes, f.metadata_notes.len() as int);
    let a = with_notes(a, "page-size: "@, f.size_notes, f.size_notes.len() as int);
    let a = with_notes(a, "page-number: "@, f.page_number_notes, f.page_number_notes.len() as int);
    let a = with_notes(a, "page-label: "@, f.label_notes, f.label_notes.len() as int);
    let a = a + run_lines("header"@, f.header_runs, f.header_runs.len() as int);
    let a = a + run_lines("footer"@, f.footer_runs, f.footer_runs.len() as int);
    let a = with_notes(a, "heading: "@, f.heading_notes, f.heading_notes.len() as int);
    let a = with_notes(a, "list: "@, f.list_notes, f.list_notes.len() as int);
    with_notes(a, "note: "@, f.notes, f.notes.len() as int)
}

fn put_lines(s: &mut String, label: &str, notes: &Vec<String>)
    ensures
        final(s)@ == with_notes(old(s)@, label@, views(notes@), views(notes@).len() as int),
{
    let ghost start = s@;
    let mut i: usize = 0;
    while i < notes.len()
        invariant
            i <= notes@.len(),
            start == old(s)@,
            s@ == with_notes(start, label@, views(notes@), i as int),
        decreases notes@.len() - i,
    {
        s.append(label);
        s.append(notes[i].as_str());
        s.append("\n");
        i = i + 1;
    }
}

impl FormatFacts {
    /// Collects the observations on a document.
    pub fn analyze(
        sheets: &Vec<PageSheet>,
        page_sizes: &Vec<PageSize>,
        meta: &DocMeta,
        range: Option<(usize, usize)>,
    ) -> (r: FormatFacts)
        requires
            labels_fit(meta.page_labels@, page_sizes@.len() as usize),
        ensures
            r@ == facts_of(sheets_view(sheets@), page_sizes@, *meta, range),
    {
        let page_count: usize = page_sizes.len();
        proof {
            assert(sheets_view(sheets@).len() == sheets@.len());
        }
        FormatFacts {
            page_count,
            extracted: range,
            metadata_notes: list_metadata(meta),
            size_notes: list_sizes(page_sizes),
            page_number_notes: list_page_numbers(sheets),
            label_notes: list_labels(&meta.page_labels, page_count),
            header_runs: build_runs(sheets, false),
            footer_runs: build_runs(sheets, true),
            heading_notes: list_headings(sheets),
            list_notes: list_lists(sheets),
            notes: list_misc(sheets),
        }
    }

    /// Renders the observations.
    pub fn render(&self) -> (r: String)
        ensures
            r@ == facts_text(self@),
    {
        let mut out = String::from_str("[format-facts]\npages: ");
        let n = usize_text(self.page_count);
        out.append(n.as_str());
        out.append("\n");
        match self.extracted {
            Some((s, e)) => {
                out.append("extracted: ");
                let r = range_str(s, e);
                out.append(r.as_str());
                out.append("\n");
            },
            None => {},
        }
        proof {
            assert(runs_view(self.header_runs@).len() == self.header_runs@.len());
            assert(runs_view(self.footer_runs@).len() == self.footer_runs@.len());
        }
        put_lines(&mut out, "metadata: ", &self.metadata_notes);
        put_lines(&mut out, "page-size: ", &self.size_notes);
        put_lines(&mut out, "page-number: ", &self.page_number_notes);
        put_lines(&mut out, "page-label: ", &self.label_notes);
        let h = render_runs("header", &self.header_runs);
        out.append(h.as_str());
        let f = render_runs("footer", &self.footer_runs);
        out.append(f.as_str());
        put_lines(&mut out, "heading: ", &self.heading_notes);
        put_lines(&mut out, "list: ", &self.list_notes);
        put_lines(&mut out, "note: ", &self.notes);
        out
    }
}

// ---------------------------------------------------------------------------
// The review document
// ---------------------------------------------------------------------------

pub const LEGEND: &'static str = ") - format facts and [outline] below; per-page sheets with labeled [header]/[footer]/[page-number]/[artifact]/[link]/[image]/[annotation]; inline **bold** *italic* ^sup^ ~sub~; body text per page.\n";

/// The first line of a review document.
pub open spec fn legend_text(path: Seq<char>, page_count: usize, range: Option<(usize, usize)>) -> Seq<
    char,
> {
    let a = "[pdf-review] "@ + path + " ("@ + decimal(page_count as nat) + " pages"@;
    let b = match range {
        Some(r) => a + ", extracted "@ + page_range(r.0, r.1),
        None => a,
    };
    b + LEGEND@
}

/// A text with the first `n` sheets.
pub open spec fn with_sheets(s: Seq<char>, sheets: Seq<SheetView>, n: int) -> Seq<char>
    decreases n,
{
    if n <= 0 {
        s
    } else {
        with_sheets(s, sheets, n - 1) + sheet_text(sheets[n - 1])
    }
}

/// A review document.
pub open spec fn review_text(
    path: Seq<char>,
    page_count: usize,
    range: Option<(usize, usize)>,
    sheets: Seq<SheetView>,
    sizes: Seq<PageSize>,
    meta: DocMeta,
) -> Seq<char> {
    let a = legend_text(path, page_count, range) + facts_text(facts_of(sheets, sizes, meta, range));
    let b = match meta.outline {
        Some(items) => a + "[outline]\n"@ + with_outline(Seq::empty(), items, ""@, items@.len()),
        None => a,
    };
    with_sheets(b, sheets, sheets.len() as int)
}

/// Composes the review document of a PDF, or of a page range of it, from its
/// sheets and its document facts. A range that the document does not have is
/// refused.
pub fn extract_text_from_pdf(
    path: &str,
    range: Option<(usize, usize)>,
    page_sizes: &Vec<PageSize>,
    sheets: &Vec<PageSheet>,
    meta: &DocMeta,
) -> (r: Result<PdfRangeResult, String>)
    requires
        labels_fit(meta.page_labels@, page_sizes@.len() as usize),
    ensures
        ({
            let page_count = page_sizes@.len() as usize;
            let refused = match range {
                Some(p) => range_error(p.0, p.1, page_count),
                None => None,
            };
            match r {
                Err(e) => refused == Some(e@),
                Ok(v) => {
                    &&& refused is None
                    &&& v.page_count == page_count
                    &&& (v.start, v.end) == resolved_range(range, page_count)
                    &&& v.text@ == review_text(
                        path@,
                        page_count,
                        range,
                        sheets_view(sheets@),
                        page_sizes@,
                        *meta,
                    )
                },
            }
        }),
{
    let page_count: usize = page_sizes.len();
    let (start, end): (usize, usize) = match resolve_range(range, page_count) {
        Ok(v) => v,
        Err(e) => {
            return Err(e);
        },
    };
    let mut out = String::from_str("[pdf-review] ");
    out.append(path);
    out.append(" (");
    let n = usize_text(page_count);
    out.append(n.as_str());
    out.append(" pages");
    match range {
        Some((s, e)) => {
            out.append(", extracted ");
            let t = range_str(s, e);
            out.append(t.as_str());
        },
        None => {},
    }
    out.append(LEGEND);
    let facts = FormatFacts::analyze(sheets, page_sizes, meta, range);
    let f = facts.render();
    out.append(f.as_str());
    match &meta.outline {
        Some(items) => {
            out.append("[outline]\n");
            let o = render_outline(items);
            out.append(o.as_str());
        },
        None => {},
    }
    let ghost head = out@;
    let ghost sv = sheets_view(sheets@);
    let mut i: usize = 0;
    while i < sheets.len()
        invariant
            i <= sheets@.len(),
            sv == sheets_view(sheets@),
            out@ == with_sheets(head, sv, i as int),
        decreases sheets@.len() - i,
    {
        proof {
            assert(sv[i as int] == sheets@[i as int]@);
        }
        let t = sheets[i].render();
        out.append(t.as_str());
        i = i + 1;
    }
    Ok(PdfRangeResult { page_count, start, end, text: out })
}

} // verus!
