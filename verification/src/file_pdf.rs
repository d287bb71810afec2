//! PDF extraction for document review (format and content).
//!
//! Turns what was extracted of a PDF into a review document:
//!
//! - A `[format-facts]` section with factual observations about metadata, page
//!   sizes, page-number sequences, page labels, header and footer content,
//!   heading levels and list markers.
//! - An `[outline]` section with the bookmarks, when there are any.
//! - One sheet per page with labelled headers, page numbers, footers, artifacts,
//!   links, images and annotations, followed by the body as Markdown.
//!
//! Facts alone are recorded: no expectations, causes or instructions.

use vstd::prelude::*;
use vstd::string::*;
use vstd::utf8::is_ascii_chars;

use crate::attach::{file_size_text, format_file_size};
pub use crate::pdf_facts::extract_text_from_pdf;

use crate::pdf_body::{
    body_blocks, build_events, event_text, events_view, lemma_events_push, lines_related, render_event,
    render_table, table_rows, ContentEvent, EventView, TableData, TextLine,
};
use crate::startup::{C_DIM_GRAY, RESET};
use crate::text::{
    byte_len, chars_of, decimal, digit_end, fed, is_digit, is_line, is_space, join, join_of,
    lemma_decimal, lemma_decimal_first, lemma_fed_push, lemma_lines_are_lines, lemma_lines_of_fed,
    lemma_views_push, lines, lines_of, no_digit_first, opt_view, parse_upto, parsed_upto, squeeze,
    squeezed, string_of, trim, trimmed, u128_text, u64_text, usize_text, utf8_len, views,
};

verus! {

// ---------------------------------------------------------------------------
// Page ranges
// ---------------------------------------------------------------------------

/// The review text with the page range that it covers.
#[derive(Debug, PartialEq, Eq)]
pub struct PdfRangeResult {
    pub page_count: usize,
    pub start: usize,
    pub end: usize,
    pub text: String,
}

/// Why a page range is refused.
pub open spec fn range_error(s: usize, e: usize, page_count: usize) -> Option<Seq<char>> {
    let head = "Invalid page range: p."@ + decimal(s as nat) + "-p."@ + decimal(e as nat);
    if s < 1 || e < 1 || s > e {
        Some(head + " (1-based, start must be <= end)"@)
    } else if s > page_count || e > page_count {
        Some(head + " exceeds "@ + decimal(page_count as nat) + " pages"@)
    } else {
        None
    }
}

/// The first and last page of an extraction: those asked for, or all.
pub open spec fn resolved_range(range: Option<(usize, usize)>, page_count: usize) -> (usize, usize) {
    match range {
        None => (1, page_count),
        Some(r) => r,
    }
}

/// Checks a page range, which is 1-based and inclusive; none is all pages.
pub fn resolve_range(range: Option<(usize, usize)>, page_count: usize) -> (r: Result<
    (usize, usize),
    String,
>)
    ensures
        match range {
            None => r is Ok && r->Ok_0 == (1usize, page_count),
            Some(p) => match r {
                Ok(v) => range_error(p.0, p.1, page_count) is None && v == p,
                Err(e) => range_error(p.0, p.1, page_count) == Some(e@),
            },
        },
{
    match range {
        None => Ok((1, page_count)),
        Some((s, e)) => {
            let mut m = String::from_str("Invalid page range: p.");
            let a = usize_text(s);
            let b = usize_text(e);
            m.append(a.as_str());
            m.append("-p.");
            m.append(b.as_str());
            if s < 1 || e < 1 || s > e {
                m.append(" (1-based, start must be <= end)");
                return Err(m);
            }
            if s > page_count || e > page_count {
                m.append(" exceeds ");
                let n = usize_text(page_count);
                m.append(n.as_str());
                m.append(" pages");
                return Err(m);
            }
            Ok((s, e))
        },
    }
}

// ---------------------------------------------------------------------------
// Sheets
// ---------------------------------------------------------------------------

/// Text of a header, footer or page number, with the section that it belongs
/// to, when known.
#[derive(Debug, PartialEq, Eq)]
pub struct Chrome {
    pub text: String,
    pub section: Option<usize>,
}

/// What such a text is.
pub struct ChromeView {
    pub text: Seq<char>,
    pub section: Option<usize>,
}

/// The contents of an optional header, footer or page number.
pub open spec fn chrome_view(o: Option<Chrome>) -> Option<ChromeView> {
    match o {
        Some(c) => Some(ChromeView { text: c.text@, section: c.section }),
        None => None,
    }
}

/// One page of the review document.
#[derive(Debug, PartialEq, Eq)]
pub struct PageSheet {
    /// 1-based position in the document.
    pub num: usize,
    pub header: Option<Chrome>,
    pub footer: Option<Chrome>,
    pub page_number: Option<Chrome>,
    pub artifacts: Vec<String>,
    pub image_notes: Vec<String>,
    pub link_notes: Vec<String>,
    pub annotation_notes: Vec<String>,
    /// Content blocks in reading order.
    pub events: Vec<ContentEvent>,
    /// Heading levels in reading order, each with its page.
    pub headings: Vec<(usize, u8)>,
    pub list_notes: Vec<String>,
    pub error: Option<String>,
}

/// What a page of the review document is.
#[verifier::ext_equal]
pub struct SheetView {
    pub num: usize,
    pub header: Option<ChromeView>,
    pub footer: Option<ChromeView>,
    pub page_number: Option<ChromeView>,
    pub artifacts: Seq<Seq<char>>,
    pub image_notes: Seq<Seq<char>>,
    pub link_notes: Seq<Seq<char>>,
    pub annotation_notes: Seq<Seq<char>>,
    pub events: Seq<EventView>,
    pub headings: Seq<(usize, u8)>,
    pub list_notes: Seq<Seq<char>>,
    pub error: Option<Seq<char>>,
}

impl View for PageSheet {
    type V = SheetView;

    open spec fn view(&self) -> SheetView {
        SheetView {
            num: self.num,
            header: chrome_view(self.header),
            footer: chrome_view(self.footer),
            page_number: chrome_view(self.page_number),
            artifacts: views(self.artifacts@),
            image_notes: views(self.image_notes@),
            link_notes: views(self.link_notes@),
            annotation_notes: views(self.annotation_notes@),
            events: events_view(self.events@),
            headings: self.headings@,
            list_notes: views(self.list_notes@),
            error: opt_view(self.error),
        }
    }
}

/// The contents of a list of sheets.
pub open spec fn sheets_view(v: Seq<PageSheet>) -> Seq<SheetView> {
    v.map_values(|s: PageSheet| s@)
}

/// An empty page.
pub open spec fn blank_sheet(num: usize) -> SheetView {
    SheetView {
        num,
        header: None,
        footer: None,
        page_number: None,
        artifacts: Seq::empty(),
        image_notes: Seq::empty(),
        link_notes: Seq::empty(),
        annotation_notes: Seq::empty(),
        events: Seq::empty(),
        headings: Seq::empty(),
        list_notes: Seq::empty(),
        error: None,
    }
}

fn new_sheet(num: usize) -> (r: PageSheet)
    ensures
        r@ == blank_sheet(num),
{
    let r = PageSheet {
        num,
        header: None,
        footer: None,
        page_number: None,
        artifacts: Vec::new(),
        image_notes: Vec::new(),
        link_notes: Vec::new(),
        annotation_notes: Vec::new(),
        events: Vec::new(),
        headings: Vec::new(),
        list_notes: Vec::new(),
        error: None,
    };
    proof {
        assert(views(r.artifacts@) =~= Seq::<Seq<char>>::empty());
        assert(views(r.image_notes@) =~= Seq::<Seq<char>>::empty());
        assert(views(r.link_notes@) =~= Seq::<Seq<char>>::empty());
        assert(views(r.annotation_notes@) =~= Seq::<Seq<char>>::empty());
        assert(views(r.list_notes@) =~= Seq::<Seq<char>>::empty());
        assert(events_view(r.events@) =~= Seq::<EventView>::empty());
        assert(r.headings@ =~= Seq::<(usize, u8)>::empty());
    }
    r
}

/// One more part of a header, footer or page number, joined with ` | `.
pub open spec fn with_chrome(o: Option<ChromeView>, text: Seq<char>, section: Option<usize>) -> Option<
    ChromeView,
> {
    let t = squeezed(text);
    if t.len() == 0 {
        o
    } else {
        match o {
            Some(c) => Some(ChromeView { text: c.text + " | "@ + t, ..c }),
            None => Some(ChromeView { text: t, section }),
        }
    }
}

/// Merges one more part into a header, footer or page number.
pub fn push_chrome(target: &mut Option<Chrome>, text: &str, section: Option<usize>)
    ensures
        chrome_view(*final(target)) == with_chrome(chrome_view(*old(target)), text@, section),
{
    let t = squeeze(text);
    if t.as_str().is_empty() {
        return;
    }
    match target.take() {
        Some(c) => {
            let mut c = c;
            c.text.append(" | ");
            c.text.append(t.as_str());
            *target = Some(c);
        },
        None => {
            *target = Some(Chrome { text: t, section });
        },
    }
}

/// `[image] WxH`, in pixels.
pub open spec fn image_fact(width: u32, height: u32) -> Seq<char> {
    "[image] "@ + decimal(width as nat) + "x"@ + decimal(height as nat)
}

pub fn image_note(width: u32, height: u32) -> (r: String)
    ensures
        r@ == image_fact(width, height),
{
    let mut s = String::from_str("[image] ");
    let w = u64_text(width as u64);
    s.append(w.as_str());
    s.append("x");
    let h = u64_text(height as u64);
    s.append(h.as_str());
    s
}

/// `[link] URL`.
pub fn link_note(url: &str) -> (r: String)
    ensures
        r@ == "[link] "@ + url@,
{
    let mut s = String::from_str("[link] ");
    s.append(url);
    s
}

/// `[annotation] subtype: contents (author X)`.
pub open spec fn annotation_fact(
    subtype: Seq<char>,
    contents: Option<Seq<char>>,
    author: Option<Seq<char>>,
) -> Seq<char> {
    let a = "[annotation] "@ + subtype;
    let b = match contents {
        Some(c) => a + ": "@ + c,
        None => a,
    };
    match author {
        Some(x) => b + " (author "@ + x + ")"@,
        None => b,
    }
}

pub fn annotation_note(subtype: &str, contents: &Option<String>, author: &Option<String>) -> (r:
    String)
    ensures
        r@ == annotation_fact(subtype@, opt_view(*contents), opt_view(*author)),
{
    let mut s = String::from_str("[annotation] ");
    s.append(subtype);
    match contents {
        Some(c) => {
            s.append(": ");
            s.append(c.as_str());
        },
        None => {},
    }
    match author {
        Some(a) => {
            s.append(" (author ");
            s.append(a.as_str());
            s.append(")");
        },
        None => {},
    }
    s
}

/// An annotation of a page.
#[derive(Debug, PartialEq, Eq)]
pub struct AnnotationData {
    /// Target of a link.
    pub url: Option<String>,
    pub subtype: Option<String>,
    pub contents: Option<String>,
    pub author: Option<String>,
}

/// The role of a region of a page.
#[derive(Debug, Clone, Copy, PartialEq, Eq, Structural)]
pub enum RegionKind {
    Header,
    Footer,
    PageNumber,
    Artifact,
    Heading(u8),
    MarginalLabel,
    Body,
}

/// A region of a page.
#[derive(Debug, PartialEq, Eq)]
pub struct RegionData {
    pub kind: RegionKind,
    pub text: String,
    pub section: Option<usize>,
    /// How many tables and rules stand above it.
    pub extras_above: usize,
    /// Lines of a body region.
    pub lines: Vec<TextLine>,
}

/// A table or a rule, which stands beside the regions of a page.
#[derive(Debug, PartialEq, Eq)]
pub enum Extra {
    Table(TableData),
    Rule,
}

/// A table or a rule as a content block.
pub open spec fn extra_event(e: Extra) -> EventView {
    match e {
        Extra::Table(t) => EventView::Table(table_rows(t, t.rows@.len() as int)),
        Extra::Rule => EventView::Rule,
    }
}

fn make_extra(e: &Extra) -> (r: ContentEvent)
    ensures
        r@ == extra_event(*e),
{
    match e {
        Extra::Table(t) => ContentEvent::Table(render_table(t)),
        Extra::Rule => ContentEvent::Rule,
    }
}

/// Whether a table has anything to show.
pub fn table_is_shown(t: &TableData) -> (r: bool)
    ensures
        r == (t.rows@.len() > 0 && t.col_count > 0),
{
    t.rows.len() > 0 && t.col_count > 0
}

/// The blocks of the tables and rules from `i` up to `n`.
pub open spec fn extras_between(extras: Seq<Extra>, i: int, n: int) -> Seq<EventView>
    decreases n - i,
{
    if i < n {
        extras_between(extras, i, n - 1).push(extra_event(extras[n - 1]))
    } else {
        Seq::empty()
    }
}

/// A heading level from 1 to 6.
pub open spec fn clamped_level(level: u8) -> u8 {
    if level < 1 {
        1
    } else if level > 6 {
        6
    } else {
        level
    }
}

/// The sheet with the header, footer, page number or artifact of a region.
pub open spec fn with_marginal(s: SheetView, r: RegionData) -> SheetView {
    let text = trimmed(r.text@);
    if text.len() == 0 {
        s
    } else {
        match r.kind {
            RegionKind::Header => SheetView {
                header: with_chrome(s.header, text, r.section),
                ..s
            },
            RegionKind::Footer => SheetView {
                footer: with_chrome(s.footer, text, r.section),
                ..s
            },
            RegionKind::PageNumber => SheetView {
                page_number: with_chrome(s.page_number, text, r.section),
                ..s
            },
            RegionKind::Artifact => SheetView { artifacts: s.artifacts.push(squeezed(text)), ..s },
            _ => s,
        }
    }
}

/// The sheet with the headers, footers, page numbers and artifacts of the first
/// `n` regions.
pub open spec fn with_marginals(s: SheetView, regions: Seq<RegionData>, n: int) -> SheetView
    decreases n,
{
    if n <= 0 {
        s
    } else {
        with_marginal(with_marginals(s, regions, n - 1), regions[n - 1])
    }
}

/// How far the tables and rules have come when a heading region is reached.
pub open spec fn next_extra(done: int, above: usize, count: nat) -> int {
    let upto = if above < count {
        above as int
    } else {
        count as int
    };
    if upto > done {
        upto
    } else {
        done
    }
}

/// The sheet with the content of a region, and the number of tables and rules
/// that stand in it.
pub open spec fn with_content(
    s: SheetView,
    done: int,
    r: RegionData,
    extras: Seq<Extra>,
) -> (SheetView, int) {
    let text = trimmed(r.text@);
    if text.len() == 0 {
        (s, done)
    } else {
        match r.kind {
            RegionKind::Heading(level) => {
                let next = next_extra(done, r.extras_above, extras.len());
                (
                    SheetView {
                        headings: s.headings.push((s.num, clamped_level(level))),
                        events: (s.events + extras_between(extras, done, next)).push(
                            EventView::Heading(clamped_level(level), squeezed(text)),
                        ),
                        ..s
                    },
                    next,
                )
            },
            RegionKind::MarginalLabel => (
                SheetView { events: s.events.push(EventView::Paragraph(squeezed(text))), ..s },
                done,
            ),
            RegionKind::Body => {
                let b = body_blocks(r.lines@);
                (
                    SheetView {
                        events: s.events + b.events,
                        list_notes: s.list_notes + b.notes,
                        ..s
                    },
                    done,
                )
            },
            _ => (s, done),
        }
    }
}

/// The sheet with the content of the first `n` regions.
pub open spec fn with_contents(s: SheetView, regions: Seq<RegionData>, extras: Seq<Extra>, n: int) -> (
    SheetView,
    int,
)
    decreases n,
{
    if n <= 0 {
        (s, 0)
    } else {
        let before = with_contents(s, regions, extras, n - 1);
        with_content(before.0, before.1, regions[n - 1], extras)
    }
}

/// The notes on the images of a page.
pub open spec fn image_facts(images: Seq<(u32, u32)>) -> Seq<Seq<char>> {
    images.map_values(|p: (u32, u32)| image_fact(p.0, p.1))
}

/// The notes on the links among the first `n` annotations.
pub open spec fn link_facts(a: Seq<AnnotationData>, n: int) -> Seq<Seq<char>>
    decreases n,
{
    if n <= 0 {
        Seq::empty()
    } else {
        match a[n - 1].url {
            Some(u) => link_facts(a, n - 1).push("[link] "@ + u@),
            None => link_facts(a, n - 1),
        }
    }
}

/// The notes on the first `n` annotations that are no links and say something.
pub open spec fn annotation_facts(a: Seq<AnnotationData>, n: int) -> Seq<Seq<char>>
    decreases n,
{
    if n <= 0 {
        Seq::empty()
    } else {
        let x = a[n - 1];
        if x.url is None && (x.contents is Some || x.author is Some) {
            annotation_facts(a, n - 1).push(
                annotation_fact(
                    match x.subtype {
                        Some(s) => s@,
                        None => "Annot"@,
                    },
                    opt_view(x.contents),
                    opt_view(x.author),
                ),
            )
        } else {
            annotation_facts(a, n - 1)
        }
    }
}

/// What a page gives: its regions, its tables and rules from the top of the
/// order in which they are merged in, the sizes of its images, its annotations.
#[derive(Debug, PartialEq, Eq)]
pub struct PageData {
    pub regions: Vec<RegionData>,
    pub extras: Vec<Extra>,
    pub images: Vec<(u32, u32)>,
    pub annotations: Vec<AnnotationData>,
}

/// The sheet of a page.
pub open spec fn built_sheet(num: usize, page: Result<PageData, String>) -> SheetView {
    match page {
        Err(e) => SheetView { error: Some(e@), ..blank_sheet(num) },
        Ok(p) => {
            let a = SheetView {
                image_notes: image_facts(p.images@),
                link_notes: link_facts(p.annotations@, p.annotations@.len() as int),
                annotation_notes: annotation_facts(p.annotations@, p.annotations@.len() as int),
                ..blank_sheet(num)
            };
            let b = with_marginals(a, p.regions@, p.regions@.len() as int);
            let c = with_contents(b, p.regions@, p.extras@, p.regions@.len() as int);
            SheetView {
                events: c.0.events + extras_between(p.extras@, c.1, p.extras@.len() as int),
                ..c.0
            }
        },
    }
}

/// Whether the lines of every body region say how they lie to each other.
pub open spec fn page_related(page: Result<PageData, String>) -> bool {
    match page {
        Ok(p) => forall|i: int|
            0 <= i < p.regions@.len() ==> lines_related((#[trigger] p.regions@[i]).lines@),
        Err(_) => true,
    }
}

fn push_extras(events: &mut Vec<ContentEvent>, extras: &Vec<Extra>, from: usize, to: usize)
    requires
        to <= extras@.len(),
    ensures
        events_view(final(events)@) == events_view(old(events)@) + extras_between(
            extras@,
            from as int,
            to as int,
        ),
{
    let ghost start = events_view(events@);
    let mut i: usize = from;
    proof {
        assert(start + extras_between(extras@, from as int, from as int) =~= start);
        if from >= to {
            assert(start + extras_between(extras@, from as int, to as int) =~= start);
        }
    }
    while i < to
        invariant
            to <= extras@.len(),
            from <= i,
            from < to ==> i <= to,
            from >= to ==> i == from,
            start == events_view(old(events)@),
            events_view(events@) == start + extras_between(extras@, from as int, i as int),
        decreases to - i,
    {
        let e = make_extra(&extras[i]);
        proof {
            lemma_events_push(events@, e);
            assert((start + extras_between(extras@, from as int, i as int)).push(e@) =~= start
                + extras_between(extras@, from as int, i + 1));
        }
        events.push(e);
        i = i + 1;
    }
}

fn append_strings(out: &mut Vec<String>, more: Vec<String>)
    ensures
        views(final(out)@) == views(old(out)@) + views(more@),
{
    let mut more = more;
    let ghost a = out@;
    let ghost b = more@;
    out.append(&mut more);
    proof {
        assert(views(out@) =~= views(a) + views(b));
    }
}

fn append_events(out: &mut Vec<ContentEvent>, more: Vec<ContentEvent>)
    ensures
        events_view(final(out)@) == events_view(old(out)@) + events_view(more@),
{
    let mut more = more;
    let ghost a = out@;
    let ghost b = more@;
    out.append(&mut more);
    proof {
        assert(events_view(out@) =~= events_view(a) + events_view(b));
    }
}

impl PageSheet {
    fn add_notes(&mut self, page: &PageData)
        ensures
            old(self)@ == blank_sheet(old(self).num) ==> final(self)@ == (SheetView {
                image_notes: image_facts(page.images@),
                link_notes: link_facts(page.annotations@, page.annotations@.len() as int),
                annotation_notes: annotation_facts(
                    page.annotations@,
                    page.annotations@.len() as int,
                ),
                ..blank_sheet(old(self).num)
            }),
    {
        let mut images: Vec<String> = Vec::new();
        let mut i: usize = 0;
        while i < page.images.len()
            invariant
                i <= page.images@.len(),
                images@.len() == i,
                forall|k: int|
                    0 <= k < i ==> (#[trigger] images@[k])@ == image_fact(
                        page.images@[k].0,
                        page.images@[k].1,
                    ),
            decreases page.images@.len() - i,
        {
            images.push(image_note(page.images[i].0, page.images[i].1));
            i = i + 1;
        }
        proof {
            assert(views(images@) =~= image_facts(page.images@));
        }
        let mut links: Vec<String> = Vec::new();
        let mut notes: Vec<String> = Vec::new();
        let mut j: usize = 0;
        proof {
            assert(views(links@) =~= Seq::<Seq<char>>::empty());
            assert(views(notes@) =~= Seq::<Seq<char>>::empty());
        }
        while j < page.annotations.len()
            invariant
                j <= page.annotations@.len(),
                views(links@) == link_facts(page.annotations@, j as int),
                views(notes@) == annotation_facts(page.annotations@, j as int),
            decreases page.annotations@.len() - j,
        {
            let a = &page.annotations[j];
            match &a.url {
                Some(u) => {
                    let n = link_note(u.as_str());
                    proof {
                        lemma_views_push(links@, n);
                    }
                    links.push(n);
                },
                None => {
                    if a.contents.is_some() || a.author.is_some() {
                        let n = match &a.subtype {
                            Some(s) => annotation_note(s.as_str(), &a.contents, &a.author),
                            None => annotation_note("Annot", &a.contents, &a.author),
                        };
                        proof {
                            lemma_views_push(notes@, n);
                        }
                        notes.push(n);
                    }
                },
            }
            j = j + 1;
        }
        self.image_notes = images;
        self.link_notes = links;
        self.annotation_notes = notes;
    }

    fn add_marginal(&mut self, r: &RegionData)
        ensures
            final(self)@ == with_marginal(old(self)@, *r),
    {
        let text = trim(r.text.as_str());
        if text.is_empty() {
            return;
        }
        match r.kind {
            RegionKind::Header => {
                push_chrome(&mut self.header, text, r.section);
            },
            RegionKind::Footer => {
                push_chrome(&mut self.footer, text, r.section);
            },
            RegionKind::PageNumber => {
                push_chrome(&mut self.page_number, text, r.section);
            },
            RegionKind::Artifact => {
                let t = squeeze(text);
                proof {
                    lemma_views_push(self.artifacts@, t);
                }
                self.artifacts.push(t);
            },
            _ => {},
        }
    }

    fn add_content(&mut self, done: usize, r: &RegionData, extras: &Vec<Extra>) -> (next: usize)
        requires
            done <= extras@.len(),
            lines_related(r.lines@),
        ensures
            (final(self)@, next as int) == with_content(old(self)@, done as int, *r, extras@),
            next <= extras@.len(),
    {
        let text = trim(r.text.as_str());
        if text.is_empty() {
            return done;
        }
        match r.kind {
            RegionKind::Heading(level) => {
                let upto: usize = if r.extras_above < extras.len() {
                    r.extras_above
                } else {
                    extras.len()
                };
                let next: usize = if upto > done {
                    upto
                } else {
                    done
                };
                push_extras(&mut self.events, extras, done, next);
                let level: u8 = if level < 1 {
                    1
                } else if level > 6 {
                    6
                } else {
                    level
                };
                self.headings.push((self.num, level));
                let e = ContentEvent::Heading { level, text: squeeze(text) };
                proof {
                    lemma_events_push(self.events@, e);
                }
                self.events.push(e);
                next
            },
            RegionKind::MarginalLabel => {
                let e = ContentEvent::Paragraph(squeeze(text));
                proof {
                    lemma_events_push(self.events@, e);
                }
                self.events.push(e);
                done
            },
            RegionKind::Body => {
                let (events, notes) = build_events(&r.lines);
                append_events(&mut self.events, events);
                append_strings(&mut self.list_notes, notes);
                done
            },
            _ => done,
        }
    }

    /// Builds the sheet of a page from what was extracted of it, or from the
    /// error that the extraction ended with.
    pub fn build(num: usize, page: &Result<PageData, String>) -> (r: PageSheet)
        requires
            page_related(*page),
        ensures
            r@ == built_sheet(num, *page),
    {
        let mut sheet = new_sheet(num);
        let p = match page {
            Ok(p) => p,
            Err(e) => {
                sheet.error = Some(e.clone());
                return sheet;
            },
        };
        sheet.add_notes(p);
        let ghost a = sheet@;
        let mut i: usize = 0;
        while i < p.regions.len()
            invariant
                i <= p.regions@.len(),
                sheet@ == with_marginals(a, p.regions@, i as int),
            decreases p.regions@.len() - i,
        {
            sheet.add_marginal(&p.regions[i]);
            i = i + 1;
        }
        let ghost b = sheet@;
        let mut done: usize = 0;
        let mut j: usize = 0;
        while j < p.regions.len()
            invariant
                j <= p.regions@.len(),
                page_related(*page),
                *page == Ok::<PageData, String>(*p),
                done <= p.extras@.len(),
                (sheet@, done as int) == with_contents(b, p.regions@, p.extras@, j as int),
            decreases p.regions@.len() - j,
        {
            proof {
                assert(lines_related(p.regions@[j as int].lines@));
            }
            done = sheet.add_content(done, &p.regions[j], &p.extras);
            j = j + 1;
        }
        push_extras(&mut sheet.events, &p.extras, done, p.extras.len());
        sheet
    }
}

/// A text with each note on a line of its own, after a label.
pub open spec fn with_notes(s: Seq<char>, label: Seq<char>, notes: Seq<Seq<char>>, n: int) -> Seq<char>
    decreases n,
{
    if n <= 0 {
        s
    } else {
        with_notes(s, label, notes, n - 1) + label + notes[n - 1] + "\n"@
    }
}

fn put_notes(s: &mut String, label: &str, notes: &Vec<String>)
    ensures
        final(s)@ == with_notes(old(s)@, label@, views(notes@), notes@.len() as int),
{
    let ghost start = s@;
    let mut i: usize = 0;
    while i < notes.len()
        invariant
            i <= notes@.len(),
            start == old(s)@,
            s@ == with_notes(start, label@, views(notes@), i as int),
        decreases notes@.len() - i,
    {
        s.append(label);
        s.append(notes[i].as_str());
        s.append("\n");
        i = i + 1;
    }
}

/// A text with the blocks of a page, one after the other.
pub open spec fn with_events(s: Seq<char>, events: Seq<EventView>, n: int) -> Seq<char>
    decreases n,
{
    if n <= 0 {
        s
    } else {
        with_events(s, events, n - 1) + event_text(events[n - 1]) + "\n"@
    }
}

/// A text with a labelled line where there is something to say.
pub open spec fn with_label(s: Seq<char>, label: Seq<char>, c: Option<ChromeView>) -> Seq<char> {
    match c {
        Some(v) => s + label + v.text + "\n"@,
        None => s,
    }
}

fn put_label(s: &mut String, label: &str, c: &Option<Chrome>)
    ensures
        final(s)@ == with_label(old(s)@, label@, chrome_view(*c)),
{
    match c {
        Some(v) => {
            s.append(label);
            s.append(v.text.as_str());
            s.append("\n");
        },
        None => {},
    }
}

/// The lines among the first `n` with no more than one blank line in a row, and
/// whether the last of them is blank.
pub open spec fn unblanked(lines: Seq<Seq<char>>, n: int) -> (Seq<char>, bool)
    decreases n,
{
    if n <= 0 {
        (Seq::empty(), false)
    } else {
        let before = unblanked(lines, n - 1);
        if trimmed(lines[n - 1]).len() == 0 {
            if before.1 {
                before
            } else {
                (before.0.push('\n'), true)
            }
        } else {
            ((before.0 + lines[n - 1]).push('\n'), false)
        }
    }
}

/// A text without the line feeds that end it.
pub open spec fn without_feeds(s: Seq<char>) -> Seq<char>
    decreases s.len(),
{
    if s.len() > 0 && s.last() == '\n' {
        without_feeds(s.drop_last())
    } else {
        s
    }
}

/// A text with no more than one blank line in a row, ending in one line feed.
pub open spec fn collapsed(s: Seq<char>) -> Seq<char> {
    let ls = lines_of(s);
    without_feeds(unblanked(ls, ls.len() as int).0).push('\n')
}

/// Collapses runs of blank lines to a single blank line.
pub fn collapse_blank_lines(s: &str) -> (r: String)
    ensures
        r@ == collapsed(s@),
{
    let ls = lines(s);
    let ghost lv = views(ls@);
    let mut out = String::new();
    let mut blank = false;
    let mut i: usize = 0;
    while i < ls.len()
        invariant
            i <= ls@.len(),
            lv == views(ls@),
            (out@, blank) == unblanked(lv, i as int),
        decreases ls@.len() - i,
    {
        proof {
            assert(lv[i as int] == ls@[i as int]@);
        }
        if trim(ls[i].as_str()).is_empty() {
            if !blank {
                out.push('\n');
                blank = true;
            }
        } else {
            out.append(ls[i].as_str());
            out.push('\n');
            blank = false;
        }
        i = i + 1;
    }
    let cs = chars_of(out.as_str());
    let mut n: usize = cs.len();
    proof {
        assert(cs@.take(n as int) =~= cs@);
        assert(lv.len() == ls@.len());
    }
    while n > 0 && cs[n - 1] == '\n'
        invariant
            n <= cs@.len(),
            without_feeds(cs@.take(n as int)) == without_feeds(cs@),
        decreases n,
    {
        proof {
            assert(cs@.take(n as int).last() == cs@[n - 1]);
            assert(cs@.take(n as int).drop_last() =~= cs@.take(n - 1));
        }
        n = n - 1;
    }
    proof {
        if n > 0 {
            assert(cs@.take(n as int).last() == cs@[n - 1]);
        }
        assert(cs@.subrange(0, n as int) =~= cs@.take(n as int));
    }
    let mut r = string_of(&cs, 0, n);
    r.push('\n');
    r
}

/// Whether a line holds white space only.
pub open spec fn is_blank(line: Seq<char>) -> bool {
    trimmed(line).len() == 0
}

/// The first `n` lines with each run of blank ones made a single empty one.
pub open spec fn squeezed_lines(lines: Seq<Seq<char>>, n: int) -> Seq<Seq<char>>
    decreases n,
{
    if n <= 0 {
        Seq::empty()
    } else {
        let before = squeezed_lines(lines, n - 1);
        if !is_blank(lines[n - 1]) {
            before.push(lines[n - 1])
        } else if before.len() > 0 && is_blank(before.last()) {
            before
        } else {
            before.push(Seq::empty())
        }
    }
}

/// The lines of a collapsed text: at least one, and none that is blank at the end
/// but where there is nothing else.
pub open spec fn collapsed_lines(s: Seq<char>) -> Seq<Seq<char>> {
    let q = squeezed_lines(lines_of(s), lines_of(s).len() as int);
    if q.len() == 0 {
        seq![Seq::empty()]
    } else if q.len() > 1 && is_blank(q.last()) {
        q.drop_last()
    } else {
        q
    }
}

/// The lines among the first `n` that are not blank, each with whether a blank
/// line stands right before it.
pub open spec fn text_lines(lines: Seq<Seq<char>>, n: int) -> Seq<(Seq<char>, bool)>
    decreases n,
{
    if n <= 0 {
        Seq::empty()
    } else if is_blank(lines[n - 1]) {
        text_lines(lines, n - 1)
    } else {
        text_lines(lines, n - 1).push((lines[n - 1], n > 1 && is_blank(lines[n - 2])))
    }
}

/// Whether no two blank lines stand together.
pub open spec fn blanks_apart(lines: Seq<Seq<char>>) -> bool {
    forall|i: int|
        0 < i < lines.len() ==> !(is_blank(#[trigger] lines[i]) && is_blank(lines[i - 1]))
}

proof fn lemma_empty_is_blank()
    ensures
        is_blank(Seq::<char>::empty()),
{
}

proof fn lemma_text_lines_push(lines: Seq<Seq<char>>, l: Seq<char>, n: int)
    requires
        0 <= n <= lines.len(),
    ensures
        text_lines(lines.push(l), n) == text_lines(lines, n),
    decreases n,
{
    if n > 0 {
        lemma_text_lines_push(lines, l, n - 1);
        assert(lines.push(l)[n - 1] == lines[n - 1]);
        if n > 1 {
            assert(lines.push(l)[n - 2] == lines[n - 2]);
        }
    }
}

/// What squeezing keeps, line by line.
proof fn lemma_squeezed(lines: Seq<Seq<char>>, n: int)
    requires
        0 <= n <= lines.len(),
        forall|i: int| 0 <= i < lines.len() ==> is_line(#[trigger] lines[i]),
    ensures
        ({
            let q = squeezed_lines(lines, n);
            &&& q.len() == 0 <==> n == 0
            &&& n > 0 ==> is_blank(q.last()) == is_blank(lines[n - 1])
            &&& blanks_apart(q)
            &&& forall|i: int| 0 <= i < q.len() ==> is_line(#[trigger] q[i])
            &&& forall|i: int| 0 <= i < q.len() && is_blank(#[trigger] q[i]) ==> q[i].len() == 0
            &&& text_lines(q, q.len() as int) == text_lines(lines, n)
            &&& unblanked(lines, n) == (fed(q, 0), n > 0 && is_blank(lines[n - 1]))
        }),
    decreases n,
{
    lemma_empty_is_blank();
    if n > 0 {
        lemma_squeezed(lines, n - 1);
        let b = squeezed_lines(lines, n - 1);
        let q = squeezed_lines(lines, n);
        let line = lines[n - 1];
        if !is_blank(line) {
            lemma_fed_push(b, line, 0);
            lemma_text_lines_push(b, line, b.len() as int);
            assert(q.drop_last() =~= b);
            if b.len() > 0 {
                assert(q[q.len() - 2] == b.last());
            }
            assert(text_lines(q, q.len() as int) =~= text_lines(lines, n));
        } else if b.len() > 0 && is_blank(b.last()) {
            assert(q == b);
        } else {
            lemma_fed_push(b, Seq::empty(), 0);
            lemma_text_lines_push(b, Seq::empty(), b.len() as int);
            assert(fed(b, 0) + Seq::<char>::empty() =~= fed(b, 0));
            if b.len() > 0 {
                assert(q[q.len() - 2] == b.last());
            }
        }
        assert forall|i: int| 0 < i < q.len() implies !(is_blank(#[trigger] q[i]) && is_blank(
            q[i - 1],
        )) by {
            if i < b.len() {
                assert(q[i] == b[i] && q[i - 1] == b[i - 1]);
            } else {
                assert(q[i - 1] == b.last());
            }
        }
        assert forall|i: int| 0 <= i < q.len() implies is_line(#[trigger] q[i]) by {
            if i < b.len() {
                assert(q[i] == b[i]);
            }
        }
        assert forall|i: int| 0 <= i < q.len() && is_blank(#[trigger] q[i]) implies q[i].len()
            == 0 by {
            if i < b.len() {
                assert(q[i] == b[i]);
            }
        }
    } else {
        assert(fed(squeezed_lines(lines, 0), 0) =~= Seq::<char>::empty());
    }
}

proof fn lemma_no_feeds(s: Seq<char>)
    requires
        s.len() == 0 || s.last() != '\n',
    ensures
        without_feeds(s) == s,
        without_feeds(s.push('\n')) == s,
        without_feeds(s.push('\n').push('\n')) == s,
{
    let one = s.push('\n');
    let two = one.push('\n');
    assert(one.drop_last() =~= s);
    assert(two.drop_last() =~= one);
    assert(one.last() == '\n' && two.last() == '\n');
    assert(without_feeds(s) == s);
    assert(without_feeds(one) == without_feeds(one.drop_last()));
    assert(without_feeds(two) == without_feeds(two.drop_last()));
}

/// Lines of which the last is not blank end in one line feed.
proof fn lemma_fed_end(lines: Seq<Seq<char>>)
    requires
        lines.len() > 0,
        is_line(lines.last()),
        lines.last().len() > 0,
    ensures
        fed(lines, 0).len() > 1,
        fed(lines, 0).last() == '\n',
        fed(lines, 0).drop_last().last() != '\n',
{
    let b = lines.drop_last();
    let l = lines.last();
    assert(b.push(l) =~= lines);
    lemma_fed_push(b, l, 0);
    let t = fed(b, 0) + l;
    assert(fed(lines, 0) == t.push('\n'));
    assert(t.push('\n').drop_last() =~= t);
    assert(t.last() == l.last());
    assert(l.contains(l.last()));
}

/// The collapsed text is made of the collapsed lines.
proof fn lemma_collapsed(s: Seq<char>)
    requires
        forall|i: int| 0 <= i < lines_of(s).len() ==> is_line(#[trigger] lines_of(s)[i]),
    ensures
        collapsed(s) == fed(collapsed_lines(s), 0),
        lines_of(collapsed(s)) == collapsed_lines(s),
        collapsed_lines(s).len() > 0,
        collapsed_lines(s).last().len() > 0 || collapsed_lines(s) == seq![Seq::<char>::empty()],
        blanks_apart(collapsed_lines(s)),
        forall|i: int|
            0 <= i < collapsed_lines(s).len() && is_blank(#[trigger] collapsed_lines(s)[i])
                ==> collapsed_lines(s)[i].len() == 0,
        text_lines(collapsed_lines(s), collapsed_lines(s).len() as int) == text_lines(
            lines_of(s),
            lines_of(s).len() as int,
        ),
{
    let ls = lines_of(s);
    let n = ls.len() as int;
    let q = squeezed_lines(ls, n);
    let r = collapsed_lines(s);
    let none = Seq::<char>::empty();
    lemma_empty_is_blank();
    lemma_squeezed(ls, n);
    lemma_no_feeds(none);
    assert(fed(Seq::<Seq<char>>::empty(), 0) =~= none);
    lemma_fed_push(Seq::<Seq<char>>::empty(), none, 0);
    assert(Seq::<Seq<char>>::empty().push(none) =~= seq![none]);
    assert(fed(seq![none], 0) =~= none.push('\n'));
    if q.len() == 0 {
        assert(q =~= Seq::<Seq<char>>::empty());
        assert(text_lines(r, 1) =~= Seq::<(Seq<char>, bool)>::empty()) by {
            assert(text_lines(r, 0) =~= Seq::<(Seq<char>, bool)>::empty());
        }
    } else if q.len() == 1 && is_blank(q.last()) {
        assert(q =~= seq![none]);
    } else if is_blank(q.last()) {
        let b = q.drop_last();
        assert(b.push(none) =~= q);
        assert(b.last() == q[q.len() - 2]);
        assert(is_blank(q[q.len() - 1]));
        assert(!is_blank(b.last()));
        lemma_fed_push(b, none, 0);
        lemma_fed_end(b);
        let t = fed(b, 0).drop_last();
        assert(fed(b, 0) =~= t.push('\n'));
        assert(fed(b, 0) + none =~= fed(b, 0));
        lemma_no_feeds(t);
        lemma_text_lines_push(b, none, b.len() as int);
        assert forall|i: int| 0 < i < b.len() implies !(is_blank(#[trigger] b[i]) && is_blank(
            b[i - 1],
        )) by {
            assert(b[i] == q[i] && b[i - 1] == q[i - 1]);
        }
    } else {
        if q.last().len() == 0 {
            assert(q.last() =~= none);
        }
        lemma_fed_end(q);
        let t = fed(q, 0).drop_last();
        assert(fed(q, 0) =~= t.push('\n'));
        lemma_no_feeds(t);
    }
    assert forall|i: int| 0 <= i < r.len() implies is_line(#[trigger] r[i]) by {
        if q.len() > 0 {
            assert(r[i] == q[i]);
        }
    }
    lemma_lines_of_fed(r);
}

/// Squeezing lines without two blank ones together changes nothing.
proof fn lemma_squeezed_same(lines: Seq<Seq<char>>, n: int)
    requires
        0 <= n <= lines.len(),
        blanks_apart(lines),
        forall|i: int| 0 <= i < lines.len() && is_blank(#[trigger] lines[i]) ==> lines[i].len() == 0,
    ensures
        squeezed_lines(lines, n) == lines.take(n),
    decreases n,
{
    if n > 0 {
        lemma_squeezed_same(lines, n - 1);
        assert(lines.take(n) =~= lines.take(n - 1).push(lines[n - 1]));
        if n > 1 {
            assert(lines.take(n - 1).last() == lines[n - 2]);
            assert(!(is_blank(lines[n - 1]) && is_blank(lines[n - 2])));
        }
        if is_blank(lines[n - 1]) {
            assert(lines[n - 1] =~= Seq::<char>::empty());
        }
    } else {
        assert(lines.take(0) =~= Seq::<Seq<char>>::empty());
    }
}

/// A collapsed text ends in exactly one line feed, holds no two blank lines
/// together, and keeps the other lines as they are and in order, with a blank line
/// before one of them just where the text has one. Collapsing it again changes
/// nothing.
pub proof fn collapsing_keeps_the_text(s: Seq<char>)
    requires
        !s.contains('\r'),
    ensures
        collapsed(s).len() > 0,
        collapsed(s).last() == '\n',
        collapsed(s).len() > 1 ==> collapsed(s)[collapsed(s).len() - 2] != '\n',
        blanks_apart(lines_of(collapsed(s))),
        text_lines(lines_of(collapsed(s)), lines_of(collapsed(s)).len() as int) == text_lines(
            lines_of(s),
            lines_of(s).len() as int,
        ),
        collapsed(collapsed(s)) == collapsed(s),
{
    lemma_lines_are_lines(s);
    lemma_collapsed(s);
    let r = collapsed_lines(s);
    let c = collapsed(s);
    let none = Seq::<char>::empty();
    lemma_empty_is_blank();
    if r.last().len() > 0 {
        let q = squeezed_lines(lines_of(s), lines_of(s).len() as int);
        lemma_squeezed(lines_of(s), lines_of(s).len() as int);
        assert(is_line(r.last())) by {
            assert(r.last() == q[r.len() - 1]);
        }
        lemma_fed_end(r);
        assert(c.drop_last().last() == c[c.len() - 2]);
    } else {
        lemma_fed_push(Seq::<Seq<char>>::empty(), none, 0);
        assert(Seq::<Seq<char>>::empty().push(none) =~= r);
        assert(fed(Seq::<Seq<char>>::empty(), 0) =~= none);
        assert(c =~= seq!['\n']);
    }
    lemma_squeezed_same(r, r.len() as int);
    assert(r.take(r.len() as int) =~= r);
    assert(lines_of(c) == r);
    assert forall|i: int| 0 <= i < lines_of(c).len() implies is_line(#[trigger] lines_of(c)[i]) by {
        if lines_of(s).len() > 0 {
            lemma_squeezed(lines_of(s), lines_of(s).len() as int);
            let q = squeezed_lines(lines_of(s), lines_of(s).len() as int);
            assert(r[i] == q[i]);
        }
    }
    lemma_collapsed(c);
    if is_blank(r.last()) {
        assert(r.last().len() == 0) by {
            assert(r[r.len() - 1] == r.last());
        }
    }
    assert(collapsed_lines(c) == r);
}

/// The text of a page.
pub open spec fn sheet_text(s: SheetView) -> Seq<char> {
    let head = "--- page "@ + decimal(s.num as nat) + " ---\n"@;
    match s.error {
        Some(e) => head + "[Text extraction error: "@ + e + "]\n"@,
        None => {
            let a = with_label(head, "[header] "@, s.header);
            let a = with_label(a, "[page-number] "@, s.page_number);
            let a = with_label(a, "[footer] "@, s.footer);
            let a = with_notes(a, "[artifact] "@, s.artifacts, s.artifacts.len() as int);
            let a = with_notes(a, ""@, s.image_notes, s.image_notes.len() as int);
            let a = with_notes(a, ""@, s.link_notes, s.link_notes.len() as int);
            let a = with_notes(a, ""@, s.annotation_notes, s.annotation_notes.len() as int);
            let a = if s.events.len() > 0 {
                with_events(a + "\n"@, s.events, s.events.len() as int)
            } else {
                a
            };
            collapsed(a)
        },
    }
}

impl PageSheet {
    /// Renders the page.
    pub fn render(&self) -> (r: String)
        ensures
            r@ == sheet_text(self@),
    {
        let mut out = String::from_str("--- page ");
        let n = usize_text(self.num);
        out.append(n.as_str());
        out.append(" ---\n");
        match &self.error {
            Some(e) => {
                out.append("[Text extraction error: ");
                out.append(e.as_str());
                out.append("]\n");
                return out;
            },
            None => {},
        }
        put_label(&mut out, "[header] ", &self.header);
        put_label(&mut out, "[page-number] ", &self.page_number);
        put_label(&mut out, "[footer] ", &self.footer);
        proof {
            assert(views(self.artifacts@).len() == self.artifacts@.len());
            assert(views(self.image_notes@).len() == self.image_notes@.len());
            assert(views(self.link_notes@).len() == self.link_notes@.len());
            assert(views(self.annotation_notes@).len() == self.annotation_notes@.len());
            assert(events_view(self.events@).len() == self.events@.len());
        }
        put_notes(&mut out, "[artifact] ", &self.artifacts);
        put_notes(&mut out, "", &self.image_notes);
        put_notes(&mut out, "", &self.link_notes);
        put_notes(&mut out, "", &self.annotation_notes);
        if self.events.len() > 0 {
            out.append("\n");
            let ghost start = out@;
            let ghost ev = events_view(self.events@);
            let mut i: usize = 0;
            while i < self.events.len()
                invariant
                    i <= self.events@.len(),
                    ev == events_view(self.events@),
                    out@ == with_events(start, ev, i as int),
                decreases self.events@.len() - i,
            {
                proof {
                    assert(ev[i as int] == self.events@[i as int]@);
                }
                let t = render_event(&self.events[i]);
                out.append(t.as_str());
                out.append("\n");
                i = i + 1;
            }
        }
        collapse_blank_lines(out.as_str())
    }
}

// ---------------------------------------------------------------------------
// Outline
// ---------------------------------------------------------------------------

/// A bookmark.
#[derive(Debug, PartialEq, Eq)]
pub struct OutlineNode {
    pub title: String,
    /// 0-based page that it points to, when it is a page.
    pub page: Option<usize>,
    pub children: Vec<OutlineNode>,
}

/// The line of a bookmark.
pub open spec fn outline_line(n: OutlineNode, indent: Seq<char>) -> Seq<char> {
    indent + squeezed(n.title@) + (match n.page {
        Some(p) => " (p."@ + decimal((p + 1) as nat) + ")"@,
        None => ""@,
    }) + "\n"@
}

/// A text with the first `n` bookmarks of a list and all under them.
pub open spec fn with_outline(out: Seq<char>, items: Vec<OutlineNode>, indent: Seq<char>, n: nat) -> Seq<
    char,
>
    decreases items, n,
{
    if n == 0 || n > items@.len() {
        out
    } else {
        let node = items[n - 1];
        with_outline(
            with_outline(out, items, indent, (n - 1) as nat) + outline_line(node, indent),
            node.children,
            indent + "  "@,
            node.children@.len(),
        )
    }
}

fn outline_line_text(n: &OutlineNode, indent: &str) -> (r: String)
    ensures
        r@ == outline_line(*n, indent@),
{
    let mut s = indent.to_owned();
    let t = squeeze(n.title.as_str());
    s.append(t.as_str());
    let dest = match n.page {
        Some(p) => {
            let mut d = String::from_str(" (p.");
            let k = u128_text(p as u128 + 1);
            d.append(k.as_str());
            d.append(")");
            d
        },
        None => "".to_owned(),
    };
    s.append(dest.as_str());
    s.append("\n");
    s
}

/// Renders one level of the outline and all under it.
pub fn render_outline_level(items: &Vec<OutlineNode>, indent: &str, out: &mut String)
    ensures
        final(out)@ == with_outline(old(out)@, *items, indent@, items@.len()),
    decreases items,
{
    let ghost start = out@;
    let mut i: usize = 0;
    while i < items.len()
        invariant
            i <= items@.len(),
            start == old(out)@,
            out@ == with_outline(start, *items, indent@, i as nat),
        decreases items@.len() - i,
    {
        let node = &items[i];
        let line = outline_line_text(node, indent);
        out.append(line.as_str());
        let mut deeper = indent.to_owned();
        deeper.append("  ");
        render_outline_level(&node.children, deeper.as_str(), out);
        i = i + 1;
    }
}

/// Renders the outline as a nested list, with the page of each bookmark that
/// points to one.
pub fn render_outline(items: &Vec<OutlineNode>) -> (r: String)
    ensures
        r@ == with_outline(Seq::empty(), *items, ""@, items@.len()),
{
    let mut out = String::new();
    render_outline_level(items, "", &mut out);
    out
}

// ---------------------------------------------------------------------------
// Page lists and folios
// ---------------------------------------------------------------------------

/// `p.3` or `p.3-p.7`.
pub open spec fn page_range(start: usize, end: usize) -> Seq<char> {
    if start == end {
        "p."@ + decimal(start as nat)
    } else {
        "p."@ + decimal(start as nat) + "-p."@ + decimal(end as nat)
    }
}

pub fn range_str(start: usize, end: usize) -> (r: String)
    ensures
        r@ == page_range(start, end),
{
    let mut s = String::from_str("p.");
    let a = usize_text(start);
    s.append(a.as_str());
    if start != end {
        s.append("-p.");
        let b = usize_text(end);
        s.append(b.as_str());
    }
    s
}

/// The runs of consecutive numbers among the first `n`, as pairs of first and
/// last.
pub open spec fn page_runs(pages: Seq<usize>, n: int) -> Seq<(usize, usize)>
    decreases n,
{
    if n <= 0 {
        Seq::empty()
    } else {
        let before = page_runs(pages, n - 1);
        let p = pages[n - 1];
        if before.len() > 0 && p == before.last().1 + 1 {
            before.drop_last().push((before.last().0, p))
        } else {
            before.push((p, p))
        }
    }
}

/// A list of pages with ranges, such as `p.1-p.3, p.5, p.7-p.8`.
pub open spec fn pages_text(pages: Seq<usize>) -> Seq<char> {
    join_of(
        page_runs(pages, pages.len() as int).map_values(|r: (usize, usize)| page_range(r.0, r.1)),
        ", "@,
    )
}

/// Formats a list of pages with ranges, such as `p.1-p.3, p.5, p.7-p.8`.
pub fn fmt_pages(pages: &Vec<usize>) -> (r: String)
    ensures
        r@ == pages_text(pages@),
{
    let mut runs: Vec<(usize, usize)> = Vec::new();
    let mut i: usize = 0;
    while i < pages.len()
        invariant
            i <= pages@.len(),
            runs@ == page_runs(pages@, i as int),
        decreases pages@.len() - i,
    {
        let p: usize = pages[i];
        let n: usize = runs.len();
        if n > 0 && p > 0 && p - 1 == runs[n - 1].1 {
            let start: usize = runs[n - 1].0;
            let ghost before = runs@;
            runs.pop();
            runs.push((start, p));
            proof {
                assert(runs@ =~= before.drop_last().push((before.last().0, p)));
            }
        } else {
            runs.push((p, p));
        }
        i = i + 1;
    }
    let mut parts: Vec<String> = Vec::new();
    let mut k: usize = 0;
    while k < runs.len()
        invariant
            k <= runs@.len(),
            parts@.len() == k,
            forall|j: int|
                0 <= j < k ==> (#[trigger] parts@[j])@ == page_range(runs@[j].0, runs@[j].1),
        decreases runs@.len() - k,
    {
        parts.push(range_str(runs[k].0, runs[k].1));
        k = k + 1;
    }
    proof {
        assert(views(parts@) =~= runs@.map_values(|r: (usize, usize)| page_range(r.0, r.1)));
    }
    join(&parts, ", ")
}

/// First ASCII digit at or after `i`, or the length of the text.
pub open spec fn digit_start(s: Seq<char>, i: int) -> int
    decreases s.len() - i,
{
    if 0 <= i < s.len() && !is_digit(s[i]) {
        digit_start(s, i + 1)
    } else {
        i
    }
}

/// The first run of ASCII digits in a text.
pub open spec fn ascii_digits(s: Seq<char>) -> Option<Seq<char>> {
    let a = digit_start(s, 0);
    if a < s.len() {
        Some(s.subrange(a, digit_end(s, a)))
    } else {
        None
    }
}

/// The first run of decimal digits of any script in a text.
pub uninterp spec fn first_digits(text: Seq<char>) -> Option<Seq<char>>;

/// `regex::Regex::find` of `\d+`: the first run of decimal digits. The outcome is
/// a function of the text alone; in an ASCII text it is the first run of ASCII
/// digits.
#[verifier::external_body]
pub(crate) fn find_digits(text: &str) -> (r: Option<String>)
    ensures
        opt_view(r) == first_digits(text@),
        is_ascii_chars(text@) ==> opt_view(r) == ascii_digits(text@),
{
    regex::Regex::new(r"\d+").unwrap().find(text).map(|m| m.as_str().to_string())
}

/// The first run of decimal digits in a text, spelled out where it is ASCII.
pub open spec fn number_digits(text: Seq<char>) -> Option<Seq<char>> {
    if is_ascii_chars(text) {
        ascii_digits(text)
    } else {
        first_digits(text)
    }
}

/// End of the run of white space that starts at `i`.
pub open spec fn space_end(s: Seq<char>, i: int) -> int
    decreases s.len() - i,
{
    if 0 <= i < s.len() && is_space(s[i]) {
        space_end(s, i + 1)
    } else {
        i
    }
}

/// Where the digits of a total begin after a number that ends at `e`: behind a
/// `/` or an `of`, with white space around it.
pub open spec fn total_start(s: Seq<char>, e: int) -> Option<int> {
    let k = space_end(s, e);
    if k < s.len() && s[k] == '/' {
        Some(space_end(s, k + 1))
    } else if k + 1 < s.len() && s[k] == 'o' && s[k + 1] == 'f' {
        Some(space_end(s, k + 2))
    } else {
        None
    }
}

/// The total behind the first number at or after `i` that has one.
pub open spec fn total_from(s: Seq<char>, i: int) -> Option<Seq<char>>
    decreases s.len() - i,
{
    if i < 0 || i >= s.len() {
        None
    } else if !is_digit(s[i]) {
        total_from(s, i + 1)
    } else {
        let m = total_start(s, digit_end(s, i));
        if m is Some && m->0 < s.len() && is_digit(s[m->0]) {
            Some(s.subrange(m->0, digit_end(s, m->0)))
        } else {
            total_from(s, i + 1)
        }
    }
}

/// The digits of the total in a text such as `3 of 42` or `3/42`.
pub uninterp spec fn total_digits(text: Seq<char>) -> Option<Seq<char>>;

/// The digits of the total in a text, spelled out where it is ASCII.
pub open spec fn sum_digits(text: Seq<char>) -> Option<Seq<char>> {
    if is_ascii_chars(text) {
        total_from(text, 0)
    } else {
        total_digits(text)
    }
}

/// `regex::Regex::captures` of `(?:\d+\s*(?:/|of)\s*)(\d+)`, first group. The
/// outcome is a function of the text alone. It is spelled out for ASCII texts,
/// where `\d` and `\s` hold the ASCII digits and white space only.
#[verifier::external_body]
pub(crate) fn find_total(text: &str) -> (r: Option<String>)
    ensures
        opt_view(r) == total_digits(text@),
        is_ascii_chars(text@) ==> opt_view(r) == total_from(text@, 0),
{
    regex::Regex::new(r"(?:\d+\s*(?:/|of)\s*)(\d+)")
        .unwrap()
        .captures(text)
        .map(|c| c[1].to_string())
}

/// The number of 32 bits that some digits denote.
pub open spec fn digits_number(o: Option<Seq<char>>) -> Option<nat> {
    match o {
        Some(s) => parsed_upto(s, u32::MAX as nat),
        None => None,
    }
}

/// The number of 32 bits that some digits denote.
pub fn number_of(digits: &Option<String>) -> (r: Option<u32>)
    ensures
        match r {
            Some(n) => digits_number(opt_view(*digits)) == Some(n as nat),
            None => digits_number(opt_view(*digits)) is None,
        },
{
    match digits {
        Some(s) => match parse_upto(s.as_str(), u32::MAX as u64) {
            Some(n) => Some(n as u32),
            None => None,
        },
        None => None,
    }
}

/// Parses the first integer of a page number, such as `3` or `Page 3 of 42`.
pub fn parse_page_number(text: &str) -> (r: Option<u32>)
    ensures
        match r {
            Some(n) => digits_number(number_digits(text@)) == Some(n as nat),
            None => digits_number(number_digits(text@)) is None,
        },
{
    number_of(&find_digits(text))
}

/// Parses the total of a page number such as `x of y` or `x/y`.
pub fn parse_total(text: &str) -> (r: Option<u32>)
    ensures
        match r {
            Some(n) => digits_number(sum_digits(text@)) == Some(n as nat),
            None => digits_number(sum_digits(text@)) is None,
        },
{
    number_of(&find_total(text))
}

// ---------------------------------------------------------------------------
// Saving
// ---------------------------------------------------------------------------

/// The name under which a text is saved, on the given attempt: names of later
/// attempts end in `_1`, `_2` and so on. The name holds the page range, so that
/// different ranges of one file stay apart.
pub open spec fn saved_name(orig: Seq<char>, range: Option<(usize, usize)>, attempt: u64) -> Seq<
    char,
> {
    let a = orig + "_converted_for_llm"@;
    let b = match range {
        Some(r) => a + "_p"@ + decimal(r.0 as nat) + "-p"@ + decimal(r.1 as nat),
        None => a,
    };
    let c = if attempt > 0 {
        b + "_"@ + decimal(attempt as nat)
    } else {
        b
    };
    c + ".txt"@
}

/// The name under which a text is saved, on the given attempt.
pub fn converted_name(orig_path: &str, page_range: Option<(usize, usize)>, attempt: u64) -> (r:
    String)
    ensures
        r@ == saved_name(orig_path@, page_range, attempt),
{
    let mut s = orig_path.to_owned();
    s.append("_converted_for_llm");
    match page_range {
        Some((a, b)) => {
            s.append("_p");
            let x = usize_text(a);
            s.append(x.as_str());
            s.append("-p");
            let y = usize_text(b);
            s.append(y.as_str());
        },
        None => {},
    }
    if attempt > 0 {
        s.append("_");
        let n = u64_text(attempt);
        s.append(n.as_str());
    }
    s.append(".txt");
    s
}

/// The attempt after one whose name is taken; `None` where the name is free, or
/// no further attempt can be counted.
pub fn after_taken(attempt: u64, taken: bool) -> (r: Option<u64>)
    ensures
        r == if taken && attempt < u64::MAX {
            Some((attempt + 1) as u64)
        } else {
            None
        },
{
    if taken && attempt < u64::MAX {
        Some(attempt + 1)
    } else {
        None
    }
}

/// The end of a saved name after the page range: the number of the attempt and
/// the extension.
spec fn name_tail(attempt: u64) -> Seq<char> {
    if attempt > 0 {
        "_"@ + decimal(attempt as nat) + ".txt"@
    } else {
        ".txt"@
    }
}

/// The end of a saved name, from the page range on.
spec fn name_end(range: Option<(usize, usize)>, attempt: u64) -> Seq<char> {
    match range {
        Some(p) => "_p"@ + decimal(p.0 as nat) + after_first(p.1, attempt),
        None => name_tail(attempt),
    }
}

/// The end of a saved name, from the dash in the page range on.
spec fn after_first(last: usize, attempt: u64) -> Seq<char> {
    "-p"@ + decimal(last as nat) + name_tail(attempt)
}

proof fn lemma_saved_name(orig: Seq<char>, range: Option<(usize, usize)>, attempt: u64)
    ensures
        saved_name(orig, range, attempt) == orig + "_converted_for_llm"@ + name_end(range, attempt),
{
    assert(saved_name(orig, range, attempt) =~= orig + "_converted_for_llm"@ + name_end(
        range,
        attempt,
    ));
}

proof fn lemma_tail(attempt: u64)
    ensures
        name_tail(attempt).len() > 1,
        attempt == 0 ==> name_tail(attempt)[0] == '.',
        attempt > 0 ==> {
            &&& name_tail(attempt)[0] == '_'
            &&& is_digit(name_tail(attempt)[1])
            &&& name_tail(attempt).skip(1) == decimal(attempt as nat) + ".txt"@
        },
        no_digit_first(name_tail(attempt)),
        no_digit_first(".txt"@),
{
    reveal_strlit("_");
    reveal_strlit(".txt");
    lemma_decimal(attempt as nat);
    if attempt > 0 {
        assert(name_tail(attempt)[1] == decimal(attempt as nat)[0]);
        assert(name_tail(attempt).skip(1) =~= decimal(attempt as nat) + ".txt"@);
    }
}

proof fn lemma_tails_differ(a: u64, b: u64)
    requires
        name_tail(a) == name_tail(b),
    ensures
        a == b,
{
    lemma_tail(a);
    lemma_tail(b);
    if a > 0 && b > 0 {
        lemma_decimal_first(a as nat, b as nat, ".txt"@, ".txt"@);
    }
}

proof fn lemma_range_end(p: (usize, usize), attempt: u64)
    ensures
        name_end(Some(p), attempt)[0] == '_',
        name_end(Some(p), attempt)[1] == 'p',
        name_end(Some(p), attempt).skip(2) == decimal(p.0 as nat) + after_first(p.1, attempt),
        no_digit_first(after_first(p.1, attempt)),
        after_first(p.1, attempt).skip(2) == decimal(p.1 as nat) + name_tail(attempt),
{
    reveal_strlit("_p");
    reveal_strlit("-p");
    let s = name_end(Some(p), attempt);
    let rest = after_first(p.1, attempt);
    assert(s.skip(2) =~= decimal(p.0 as nat) + rest);
    assert(rest.skip(2) =~= decimal(p.1 as nat) + name_tail(attempt));
    assert(rest[0] == '-');
}

proof fn lemma_ranges_differ(p: (usize, usize), q: (usize, usize), a: u64, b: u64)
    requires
        name_end(Some(p), a) == name_end(Some(q), b),
    ensures
        p == q,
        a == b,
{
    lemma_range_end(p, a);
    lemma_range_end(q, b);
    lemma_decimal_first(p.0 as nat, q.0 as nat, after_first(p.1, a), after_first(q.1, b));
    lemma_tail(a);
    lemma_tail(b);
    lemma_decimal_first(p.1 as nat, q.1 as nat, name_tail(a), name_tail(b));
    lemma_tails_differ(a, b);
}

proof fn lemma_range_or_not(p: (usize, usize), a: u64, b: u64)
    ensures
        name_end(Some(p), a) != name_end(None, b),
{
    lemma_range_end(p, a);
    lemma_tail(b);
}

/// Different page ranges of a file, and different attempts at a name, give
/// different names.
pub proof fn saved_names_stay_apart(
    orig: Seq<char>,
    r: Option<(usize, usize)>,
    s: Option<(usize, usize)>,
    a: u64,
    b: u64,
)
    requires
        saved_name(orig, r, a) == saved_name(orig, s, b),
    ensures
        r == s,
        a == b,
{
    let head = orig + "_converted_for_llm"@;
    lemma_saved_name(orig, r, a);
    lemma_saved_name(orig, s, b);
    assert((head + name_end(r, a)).skip(head.len() as int) =~= name_end(r, a));
    assert((head + name_end(s, b)).skip(head.len() as int) =~= name_end(s, b));
    match (r, s) {
        (Some(p), Some(q)) => {
            lemma_ranges_differ(p, q, a, b);
        },
        (None, None) => {
            lemma_tails_differ(a, b);
        },
        (None, Some(q)) => {
            lemma_range_or_not(q, b, a);
        },
        (Some(p), None) => {
            lemma_range_or_not(p, a, b);
        },
    }
}

/// What is shown of a saved text.
pub fn converted_notice(path: &str, text: &str) -> (r: String)
    ensures
        r@ == C_DIM_GRAY@ + "[Converted] "@ + path@ + " (Markdown, "@ + file_size_text(
            utf8_len(text@),
        ) + ")"@ + RESET@,
{
    let mut s = String::from_str(C_DIM_GRAY);
    s.append("[Converted] ");
    s.append(path);
    s.append(" (Markdown, ");
    let size = format_file_size(byte_len(text) as u64);
    s.append(size.as_str());
    s.append(")");
    s.append(RESET);
    s
}

} // verus!
