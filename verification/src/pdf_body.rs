//! The body of a PDF page: lines, paragraphs, lists and tables as Markdown.
//!
//! Positions on a page are floating-point numbers and stay outside. What they
//! decide comes in as plain values: the line that a span belongs to, the order
//! of spans on a line, and how lines lie to each other.

use vstd::prelude::*;
use vstd::string::*;
use vstd::utf8::is_ascii_chars;

use crate::text::{
    chars_of, decimal, digit_end, first_from, is_digit, is_letter, is_space, join, join_of,
    lemma_views_push, opt_view, parse_upto, parsed_upto, repeat_char, replace, replaced, run_of,
    split_once, squeeze, squeezed, trim, trim_start, trimmed, trimmed_start, u64_text, views,
};

verus! {

// ---------------------------------------------------------------------------
// Spans and lines
// ---------------------------------------------------------------------------

/// How far a span is set off the line of text.
#[derive(Debug, Clone, Copy, PartialEq, Eq, Structural)]
pub enum Rise {
    Superscript,
    Subscript,
    Level,
}

/// A run of text of one style.
#[derive(Debug, PartialEq, Eq)]
pub struct Span {
    pub text: String,
    pub rise: Rise,
    pub bold: bool,
    pub italic: bool,
    pub mono: bool,
    /// The line that the span belongs to; lines further up have larger keys.
    pub line_key: i64,
    /// Where the span stands on its line, from left to right.
    pub order: u64,
    /// Whether the span is part of a table.
    pub in_table: bool,
}

/// The text of a span with inline style markers.
pub open spec fn styled(s: Span) -> Seq<char> {
    let text = trimmed(s.text@);
    if text.len() == 0 {
        Seq::empty()
    } else {
        match s.rise {
            Rise::Superscript => "^"@ + text + "^"@,
            Rise::Subscript => "~"@ + text + "~"@,
            Rise::Level => {
                let bold = if s.bold {
                    "**"@
                } else {
                    Seq::empty()
                };
                let italic = if s.italic {
                    "*"@
                } else {
                    Seq::empty()
                };
                let mono = if s.mono {
                    "`"@
                } else {
                    Seq::empty()
                };
                bold + italic + mono + text + mono + italic + bold
            },
        }
    }
}

/// The text of a span with inline style markers.
pub fn styled_text(span: &Span) -> (r: String)
    ensures
        r@ == styled(*span),
{
    let text = trim(span.text.as_str());
    if text.is_empty() {
        return String::new();
    }
    match span.rise {
        Rise::Superscript => {
            let mut s = String::from_str("^");
            s.append(text);
            s.append("^");
            s
        },
        Rise::Subscript => {
            let mut s = String::from_str("~");
            s.append(text);
            s.append("~");
            s
        },
        Rise::Level => {
            let ghost e = Seq::<char>::empty();
            let bold = if span.bold {
                "**".to_owned()
            } else {
                String::new()
            };
            let italic = if span.italic {
                "*".to_owned()
            } else {
                String::new()
            };
            let mono = if span.mono {
                "`".to_owned()
            } else {
                String::new()
            };
            let mut s = bold.clone();
            s.append(italic.as_str());
            s.append(mono.as_str());
            s.append(text);
            s.append(mono.as_str());
            s.append(italic.as_str());
            s.append(bold.as_str());
            s
        },
    }
}

/// Whether a span is part of the running text.
pub open spec fn is_body_span(s: Span) -> bool {
    trimmed(s.text@).len() > 0 && !s.in_table
}

fn check_body_span(s: &Span) -> (r: bool)
    ensures
        r == is_body_span(*s),
{
    !trim(s.text.as_str()).is_empty() && !s.in_table
}

/// Whether span `a` is read before span `b`: further up, or further left on
/// the same line, or earlier where both stand at one place.
pub open spec fn reads_before(spans: Seq<Span>, a: int, b: int) -> bool {
    let x = spans[a];
    let y = spans[b];
    x.line_key > y.line_key || (x.line_key == y.line_key && (x.order < y.order || (x.order == y.order
        && a < b)))
}

/// The spans of the running text among the first `n`, in reading order: each is
/// put behind all that are read before it.
pub open spec fn reading_order(spans: Seq<Span>, n: int) -> Seq<int>
    decreases n,
{
    if n <= 0 {
        Seq::empty()
    } else if is_body_span(spans[n - 1]) {
        let before = reading_order(spans, n - 1);
        before.insert(place_of(spans, before, n - 1, 0), n - 1)
    } else {
        reading_order(spans, n - 1)
    }
}

/// The first place at or after `i` whose span is read after span `k`.
pub open spec fn place_of(spans: Seq<Span>, order: Seq<int>, k: int, i: int) -> int
    decreases order.len() - i,
{
    if i < 0 || i >= order.len() {
        order.len() as int
    } else if reads_before(spans, k, order[i]) {
        i
    } else {
        place_of(spans, order, k, i + 1)
    }
}

proof fn lemma_place(spans: Seq<Span>, order: Seq<int>, k: int, i: int)
    requires
        0 <= i <= order.len(),
    ensures
        i <= place_of(spans, order, k, i) <= order.len(),
    decreases order.len() - i,
{
    if i < order.len() && !reads_before(spans, k, order[i]) {
        lemma_place(spans, order, k, i + 1);
    }
}

/// Positions as integers.
pub open spec fn ints(v: Seq<usize>) -> Seq<int> {
    v.map_values(|x: usize| x as int)
}

fn comes_first(spans: &Vec<Span>, a: usize, b: usize) -> (r: bool)
    requires
        a < spans@.len(),
        b < spans@.len(),
    ensures
        r == reads_before(spans@, a as int, b as int),
{
    let x = &spans[a];
    let y = &spans[b];
    x.line_key > y.line_key || (x.line_key == y.line_key && (x.order < y.order || (x.order == y.order
        && a < b)))
}

fn order_spans(spans: &Vec<Span>) -> (r: Vec<usize>)
    ensures
        ints(r@) == reading_order(spans@, spans@.len() as int),
        forall|k: int| 0 <= k < r@.len() ==> (#[trigger] r@[k]) < spans@.len(),
{
    let mut out: Vec<usize> = Vec::new();
    let mut n: usize = 0;
    proof {
        assert(ints(out@) =~= Seq::<int>::empty());
    }
    while n < spans.len()
        invariant
            n <= spans@.len(),
            ints(out@) == reading_order(spans@, n as int),
            forall|k: int| 0 <= k < out@.len() ==> (#[trigger] out@[k]) < n,
        decreases spans@.len() - n,
    {
        if check_body_span(&spans[n]) {
            let ghost before = ints(out@);
            let m: usize = out.len();
            let mut i: usize = 0;
            while i < m && !comes_first(spans, n, out[i])
                invariant
                    i <= m,
                    m == out@.len(),
                    n < spans@.len(),
                    before == ints(out@),
                    forall|k: int| 0 <= k < out@.len() ==> (#[trigger] out@[k]) < n,
                    place_of(spans@, before, n as int, i as int) == place_of(
                        spans@,
                        before,
                        n as int,
                        0,
                    ),
                decreases m - i,
            {
                proof {
                    assert(before[i as int] == out@[i as int]);
                }
                i = i + 1;
            }
            proof {
                if i < m {
                    assert(before[i as int] == out@[i as int]);
                }
                assert(before.len() == m);
            }
            out.insert(i, n);
            proof {
                assert(ints(out@) =~= before.insert(i as int, n as int));
            }
        }
        n = n + 1;
    }
    out
}

/// A line of the running text.
#[derive(Debug, PartialEq, Eq)]
pub struct AssembledLine {
    /// Positions of its spans, from left to right.
    pub spans: Vec<usize>,
    /// Its text with inline style markers.
    pub text: String,
    /// Its text without them.
    pub raw: String,
}

/// What a line of the running text is.
#[verifier::ext_equal]
pub struct AssembledView {
    pub spans: Seq<int>,
    pub text: Seq<char>,
    pub raw: Seq<char>,
}

impl View for AssembledLine {
    type V = AssembledView;

    open spec fn view(&self) -> AssembledView {
        AssembledView { spans: ints(self.spans@), text: self.text@, raw: self.raw@ }
    }
}

/// The contents of a list of lines.
pub open spec fn lines_view(v: Seq<AssembledLine>) -> Seq<AssembledView> {
    v.map_values(|l: AssembledLine| l@)
}

/// The line made of the given spans.
pub open spec fn line_of(spans: Seq<Span>, group: Seq<int>) -> AssembledView {
    AssembledView {
        spans: group,
        text: squeezed(join_of(group.map_values(|i: int| styled(spans[i])), " "@)),
        raw: join_of(group.map_values(|i: int| trimmed(spans[i].text@)), " "@),
    }
}

/// End of the run of spans on one line that starts at `i`.
pub open spec fn group_end(spans: Seq<Span>, order: Seq<int>, start: int, i: int) -> int
    decreases order.len() - i,
{
    if 0 <= i < order.len() && spans[order[i]].line_key == spans[order[start]].line_key {
        group_end(spans, order, start, i + 1)
    } else {
        i
    }
}

/// The lines of the spans in reading order from position `i` on; a line without
/// text is left out.
pub open spec fn lines_from(spans: Seq<Span>, order: Seq<int>, i: int) -> Seq<AssembledView>
    decreases order.len() - i,
{
    let e = group_end(spans, order, i, i);
    if 0 <= i < e && e <= order.len() {
        let line = line_of(spans, order.subrange(i, e));
        let rest = lines_from(spans, order, e);
        if line.text.len() > 0 {
            seq![line] + rest
        } else {
            rest
        }
    } else {
        Seq::empty()
    }
}

/// The lines of the running text, from the top down.
pub open spec fn assembled(spans: Seq<Span>) -> Seq<AssembledView> {
    lines_from(spans, reading_order(spans, spans.len() as int), 0)
}

fn make_line(spans: &Vec<Span>, order: &Vec<usize>, from: usize, to: usize) -> (r: AssembledLine)
    requires
        from <= to <= order@.len(),
        forall|k: int| 0 <= k < order@.len() ==> (#[trigger] order@[k]) < spans@.len(),
    ensures
        r@ == line_of(spans@, ints(order@).subrange(from as int, to as int)),
{
    let ghost group = ints(order@).subrange(from as int, to as int);
    let mut ids: Vec<usize> = Vec::new();
    let mut texts: Vec<String> = Vec::new();
    let mut raws: Vec<String> = Vec::new();
    let mut i: usize = from;
    while i < to
        invariant
            from <= i <= to <= order@.len(),
            group == ints(order@).subrange(from as int, to as int),
            forall|k: int| 0 <= k < order@.len() ==> (#[trigger] order@[k]) < spans@.len(),
            ids@.len() == i - from,
            texts@.len() == i - from,
            raws@.len() == i - from,
            forall|k: int| 0 <= k < i - from ==> (#[trigger] ids@[k]) == group[k],
            forall|k: int|
                0 <= k < i - from ==> (#[trigger] texts@[k])@ == styled(spans@[group[k]]),
            forall|k: int|
                0 <= k < i - from ==> (#[trigger] raws@[k])@ == trimmed(spans@[group[k]].text@),
        decreases to - i,
    {
        let s = &spans[order[i]];
        proof {
            assert(group[i - from] == order@[i as int]);
        }
        ids.push(order[i]);
        texts.push(styled_text(s));
        raws.push(trim(s.text.as_str()).to_owned());
        i = i + 1;
    }
    proof {
        assert(ints(ids@) =~= group);
        assert(views(texts@) =~= group.map_values(|k: int| styled(spans@[k])));
        assert(views(raws@) =~= group.map_values(|k: int| trimmed(spans@[k].text@)));
    }
    let joined = join(&texts, " ");
    AssembledLine { spans: ids, text: squeeze(joined.as_str()), raw: join(&raws, " ") }
}

/// Groups spans into lines and applies inline styling. Spans of tables are left
/// out.
pub fn assemble_lines(spans: &Vec<Span>) -> (r: Vec<AssembledLine>)
    ensures
        lines_view(r@) == assembled(spans@),
{
    let order = order_spans(spans);
    let ghost ov = ints(order@);
    let n: usize = order.len();
    let mut out: Vec<AssembledLine> = Vec::new();
    let mut i: usize = 0;
    proof {
        assert(lines_view(out@) + lines_from(spans@, ov, 0) =~= lines_from(spans@, ov, 0));
        assert(ov.len() == n);
    }
    while i < n
        invariant
            i <= n,
            n == order@.len(),
            ov == ints(order@),
            ov.len() == n,
            forall|k: int| 0 <= k < order@.len() ==> (#[trigger] order@[k]) < spans@.len(),
            lines_view(out@) + lines_from(spans@, ov, i as int) == lines_from(spans@, ov, 0),
        decreases n - i,
    {
        proof {
            assert(ov[i as int] == order@[i as int]);
        }
        let key: i64 = spans[order[i]].line_key;
        let mut e: usize = i + 1;
        proof {
            assert(group_end(spans@, ov, i as int, i as int) == group_end(
                spans@,
                ov,
                i as int,
                e as int,
            ));
        }
        while e < n && spans[order[e]].line_key == key
            invariant
                i < e <= n,
                n == order@.len(),
                ov == ints(order@),
                ov.len() == n,
                key == spans@[ov[i as int]].line_key,
                forall|k: int| 0 <= k < order@.len() ==> (#[trigger] order@[k]) < spans@.len(),
                group_end(spans@, ov, i as int, i as int) == group_end(
                    spans@,
                    ov,
                    i as int,
                    e as int,
                ),
            decreases n - e,
        {
            proof {
                assert(ov[e as int] == order@[e as int]);
            }
            e = e + 1;
        }
        proof {
            if e < n {
                assert(ov[e as int] == order@[e as int]);
            }
        }
        let line = make_line(spans, &order, i, e);
        let ghost rest = lines_from(spans@, ov, e as int);
        if !line.text.as_str().is_empty() {
            proof {
                assert(lines_view(out@.push(line)) =~= lines_view(out@).push(line@));
                assert(lines_view(out@) + (seq![line@] + rest) =~= lines_view(out@).push(line@)
                    + rest);
            }
            out.push(line);
        }
        i = e;
    }
    proof {
        assert(lines_view(out@) + lines_from(spans@, ov, n as int) =~= lines_view(out@));
    }
    out
}

// ---------------------------------------------------------------------------
// List markers
// ---------------------------------------------------------------------------

/// The list marker that a line starts with.
pub uninterp spec fn marker_of(raw: Seq<char>) -> Option<Seq<char>>;

/// Whether `c` ends a number or a letter that marks a list item.
pub open spec fn ends_marker(c: char) -> bool {
    c == '.' || c == ')'
}

/// End of the run of ASCII letters and digits that starts at `i`.
pub open spec fn alphanumeric_end(s: Seq<char>, i: int) -> int
    decreases s.len() - i,
{
    if 0 <= i < s.len() && (is_letter(s[i]) || is_digit(s[i])) {
        alphanumeric_end(s, i + 1)
    } else {
        i
    }
}

/// Length of the bullet, number, letter or bracket that an ASCII text starts
/// with, or 0.
pub open spec fn marker_len(s: Seq<char>) -> int {
    if s.len() == 0 {
        0
    } else if s[0] == '*' || s[0] == '-' {
        1
    } else if is_digit(s[0]) {
        let e = digit_end(s, 0);
        if e <= 3 && e < s.len() && ends_marker(s[e]) {
            e + 1
        } else {
            0
        }
    } else if is_letter(s[0]) {
        if s.len() > 1 && ends_marker(s[1]) {
            2
        } else {
            0
        }
    } else if s[0] == '(' {
        let e = alphanumeric_end(s, 1);
        if 1 < e && e < s.len() && s[e] == ')' {
            e + 1
        } else {
            0
        }
    } else {
        0
    }
}

/// The list marker that an ASCII line starts with: it ends the line or is
/// followed by white space.
pub open spec fn ascii_marker(s: Seq<char>) -> Option<Seq<char>> {
    let n = marker_len(s);
    if n > 0 && (n == s.len() || is_space(s[n])) {
        Some(s.take(n))
    } else {
        None
    }
}

/// The list marker that a line starts with, spelled out where the line is ASCII.
pub open spec fn list_marker(raw: Seq<char>) -> Option<Seq<char>> {
    if is_ascii_chars(raw) {
        ascii_marker(raw)
    } else {
        marker_of(raw)
    }
}

/// `regex::Regex::captures` of
/// `^([•◦‣▪・*\-]|\d{1,3}[.)]|[a-zA-Z][.)]|\([a-zA-Z0-9]+\))(?:\s+|$)`, first
/// group: a list marker such as `1.`, `-`, `(a)` or `*` at the start of a line.
/// The outcome is a function of the line alone. It is spelled out for ASCII
/// lines, where `\d` and `\s` hold the ASCII digits and white space only.
#[verifier::external_body]
pub(crate) fn find_marker(raw: &str) -> (r: Option<String>)
    ensures
        opt_view(r) == marker_of(raw@),
        is_ascii_chars(raw@) ==> opt_view(r) == ascii_marker(raw@),
{
    regex::Regex::new(r"^([•◦‣▪・*\-]|\d{1,3}[.)]|[a-zA-Z][.)]|\([a-zA-Z0-9]+\))(?:\s+|$)")
        .unwrap()
        .captures(raw)
        .map(|c| c[1].to_string())
}

/// A styled line without its marker; the whole line where nothing else is left.
pub open spec fn unmarked(line: Seq<char>, marker: Seq<char>) -> Seq<char> {
    match first_from(line, marker, 0) {
        Some(i) => {
            let rest = trimmed_start(line.skip(i + marker.len()));
            if rest.len() == 0 {
                line
            } else {
                rest
            }
        },
        None => line,
    }
}

/// Strips the marker from a styled line, keeping the styling of the rest.
pub fn strip_marker(styled: &str, marker: &str) -> (r: String)
    ensures
        r@ == unmarked(styled@, marker@),
{
    match split_once(styled, marker) {
        Some((_, tail)) => {
            let rest = trim_start(tail);
            if rest.is_empty() {
                styled.to_owned()
            } else {
                rest.to_owned()
            }
        },
        None => styled.to_owned(),
    }
}

// ---------------------------------------------------------------------------
// Content blocks
// ---------------------------------------------------------------------------

/// One item of a list.
#[derive(Debug, PartialEq, Eq)]
pub struct ListItem {
    pub level: usize,
    pub marker: String,
    pub text: String,
}

/// A content block of a page.
#[derive(Debug, PartialEq, Eq)]
pub enum ContentEvent {
    Heading { level: u8, text: String },
    Paragraph(String),
    ListBlock(Vec<ListItem>),
    Table(String),
    Rule,
}

/// What a list item is.
pub struct ItemView {
    pub level: usize,
    pub marker: Seq<char>,
    pub text: Seq<char>,
}

/// What a content block is.
#[verifier::ext_equal]
pub enum EventView {
    Heading(u8, Seq<char>),
    Paragraph(Seq<char>),
    ListBlock(Seq<ItemView>),
    Table(Seq<char>),
    Rule,
}

impl View for ListItem {
    type V = ItemView;

    open spec fn view(&self) -> ItemView {
        ItemView { level: self.level, marker: self.marker@, text: self.text@ }
    }
}

pub open spec fn items_view(v: Seq<ListItem>) -> Seq<ItemView> {
    v.map_values(|i: ListItem| i@)
}

impl View for ContentEvent {
    type V = EventView;

    open spec fn view(&self) -> EventView {
        match *self {
            ContentEvent::Heading { level, text } => EventView::Heading(level, text@),
            ContentEvent::Paragraph(text) => EventView::Paragraph(text@),
            ContentEvent::ListBlock(items) => EventView::ListBlock(items_view(items@)),
            ContentEvent::Table(text) => EventView::Table(text@),
            ContentEvent::Rule => EventView::Rule,
        }
    }
}

/// The contents of a list of blocks.
pub open spec fn events_view(v: Seq<ContentEvent>) -> Seq<EventView> {
    v.map_values(|e: ContentEvent| e@)
}

pub proof fn lemma_events_push(v: Seq<ContentEvent>, e: ContentEvent)
    ensures
        events_view(v.push(e)) == events_view(v).push(e@),
{
    assert(events_view(v.push(e)) =~= events_view(v).push(e@));
}

/// Whether a list of numbers does not go up by one each time.
pub open spec fn is_irregular(nums: Seq<u64>) -> bool {
    exists|i: int| 0 < i < nums.len() && #[trigger] nums[i] != nums[i - 1] + 1
}

/// The marker without the dots and brackets that end it.
pub open spec fn marker_stem(m: Seq<char>) -> Seq<char>
    decreases m.len(),
{
    if m.len() > 0 && (m.last() == '.' || m.last() == ')') {
        marker_stem(m.drop_last())
    } else {
        m
    }
}

fn stem_of<'a>(m: &'a str) -> (r: &'a str)
    ensures
        r@ == marker_stem(m@),
{
    let cs = chars_of(m);
    let mut n: usize = cs.len();
    proof {
        assert(m@.take(n as int) =~= m@);
    }
    while n > 0 && (cs[n - 1] == '.' || cs[n - 1] == ')')
        invariant
            n <= cs@.len(),
            cs@ == m@,
            marker_stem(m@.take(n as int)) == marker_stem(m@),
        decreases n,
    {
        proof {
            assert(m@.take(n as int).drop_last() =~= m@.take(n - 1));
            assert(m@.take(n as int).last() == m@[n - 1]);
        }
        n = n - 1;
    }
    proof {
        if n > 0 {
            assert(m@.take(n as int).last() == m@[n - 1]);
        }
        assert(m@.subrange(0, n as int) =~= m@.take(n as int));
    }
    m.substring_char(0, n)
}

/// The numbers of the top-level markers among the first `n` items.
pub open spec fn marker_numbers(items: Seq<ItemView>, n: int) -> Seq<u64>
    decreases n,
{
    if n <= 0 {
        Seq::empty()
    } else {
        let i = items[n - 1];
        match parsed_upto(marker_stem(i.marker), u32::MAX as nat) {
            Some(v) if i.level == 0 => marker_numbers(items, n - 1).push(v as u64),
            _ => marker_numbers(items, n - 1),
        }
    }
}

/// Numbers as texts.
pub open spec fn number_texts(nums: Seq<u64>) -> Seq<Seq<char>> {
    nums.map_values(|n: u64| decimal(n as nat))
}

/// The notes on a numbered list whose top-level markers do not go up by one.
pub open spec fn sequence_notes(items: Seq<ItemView>) -> Seq<Seq<char>> {
    let nums = marker_numbers(items, items.len() as int);
    if is_irregular(nums) {
        seq!["markers "@ + join_of(number_texts(nums), ", "@)]
    } else {
        Seq::empty()
    }
}

/// Notes the markers of a list whose top-level numbers do not go up by one. The
/// values alone are recorded.
pub fn check_list_sequence(block: &Vec<ListItem>, list_notes: &mut Vec<String>)
    ensures
        views(final(list_notes)@) == views(old(list_notes)@) + sequence_notes(items_view(block@)),
{
    let ghost iv = items_view(block@);
    let ghost start = views(list_notes@);
    let mut nums: Vec<u64> = Vec::new();
    let mut i: usize = 0;
    while i < block.len()
        invariant
            i <= block@.len(),
            iv == items_view(block@),
            nums@ == marker_numbers(iv, i as int),
            forall|k: int| 0 <= k < nums@.len() ==> (#[trigger] nums@[k]) <= u32::MAX,
        decreases block@.len() - i,
    {
        proof {
            assert(iv[i as int] == block@[i as int]@);
        }
        if block[i].level == 0 {
            match parse_upto(stem_of(block[i].marker.as_str()), u32::MAX as u64) {
                Some(n) => {
                    nums.push(n);
                },
                None => {},
            }
        }
        i = i + 1;
    }
    let mut texts: Vec<String> = Vec::new();
    let mut irregular = false;
    let mut k: usize = 0;
    while k < nums.len()
        invariant
            k <= nums@.len(),
            texts@.len() == k,
            forall|j: int| 0 <= j < nums@.len() ==> (#[trigger] nums@[j]) <= u32::MAX,
            forall|j: int| 0 <= j < k ==> (#[trigger] texts@[j])@ == decimal(nums@[j] as nat),
            irregular == exists|j: int| 0 < j < k && #[trigger] nums@[j] != nums@[j - 1] + 1,
        decreases nums@.len() - k,
    {
        texts.push(u64_text(nums[k]));
        if k > 0 && nums[k] != nums[k - 1] + 1 {
            proof {
                assert(nums@[k as int] != nums@[k - 1] + 1);
            }
            irregular = true;
        }
        k = k + 1;
    }
    proof {
        assert(views(texts@) =~= number_texts(nums@));
    }
    if irregular {
        let mut note = String::from_str("markers ");
        let shown = join(&texts, ", ");
        note.append(shown.as_str());
        proof {
            lemma_views_push(list_notes@, note);
            assert(start.push(note@) =~= start + seq![note@]);
        }
        list_notes.push(note);
    } else {
        proof {
            assert(start + Seq::<Seq<char>>::empty() =~= start);
        }
    }
}

/// A line of the running text and how it lies to the others.
#[derive(Debug, PartialEq, Eq)]
pub struct TextLine {
    pub text: String,
    pub raw: String,
    /// Whether it follows the line before it closely (within 0.8 of its height).
    pub close: bool,
    /// Whether there is a gap before it (over 0.5 of its height).
    pub apart: bool,
    /// Rank of its indent among those of all lines.
    pub indent: usize,
    /// For each line, whether this one starts no more than a point left of it.
    pub not_left_of: Vec<bool>,
    /// For each line, whether the two start within half a point.
    pub level_with: Vec<bool>,
}

/// Whether each line says how it lies to every line.
pub open spec fn lines_related(lines: Seq<TextLine>) -> bool {
    forall|i: int|
        0 <= i < lines.len() ==> (#[trigger] lines[i]).not_left_of@.len() == lines.len()
            && lines[i].level_with@.len() == lines.len()
}

/// A list item whose level is not decided yet.
pub struct DraftItem {
    /// Position of the line that it starts on.
    pub line: usize,
    pub marker: String,
    pub text: String,
}

/// What such an item is.
pub struct DraftView {
    pub line: int,
    pub marker: Seq<char>,
    pub text: Seq<char>,
}

impl View for DraftItem {
    type V = DraftView;

    open spec fn view(&self) -> DraftView {
        DraftView { line: self.line as int, marker: self.marker@, text: self.text@ }
    }
}

pub open spec fn drafts_view(v: Seq<DraftItem>) -> Seq<DraftView> {
    v.map_values(|d: DraftItem| d@)
}

/// The smallest indent among the first `n` items that are level with the line.
pub open spec fn level_indent(lines: Seq<TextLine>, items: Seq<DraftView>, line: int, n: int) -> Option<
    usize,
>
    decreases n,
{
    if n <= 0 {
        None
    } else {
        let before = level_indent(lines, items, line, n - 1);
        let other = items[n - 1].line;
        let indent = lines[other].indent;
        if lines[line].level_with@[other] && (before is None || indent < before->0) {
            Some(indent)
        } else {
            before
        }
    }
}

/// Whether the indent of item `k` does not come up before.
pub open spec fn is_new_indent(lines: Seq<TextLine>, items: Seq<DraftView>, k: int) -> bool {
    forall|j: int|
        0 <= j < k ==> lines[(#[trigger] items[j]).line].indent != lines[items[k].line].indent
}

/// How many distinct indents under the given one the first `n` items have.
pub open spec fn indents_under(lines: Seq<TextLine>, items: Seq<DraftView>, indent: usize, n: int) -> nat
    decreases n,
{
    if n <= 0 {
        0
    } else {
        indents_under(lines, items, indent, n - 1) + if lines[items[n - 1].line].indent < indent
            && is_new_indent(lines, items, n - 1) {
            1nat
        } else {
            0nat
        }
    }
}

/// The nesting level of an item: the place of its indent among the distinct
/// indents of the list, at most 5.
pub open spec fn item_level(lines: Seq<TextLine>, items: Seq<DraftView>, line: int) -> usize {
    match level_indent(lines, items, line, items.len() as int) {
        None => 0,
        Some(indent) => {
            let n = indents_under(lines, items, indent, items.len() as int);
            if n < 5 {
                n as usize
            } else {
                5
            }
        },
    }
}

/// The items of a list with their levels.
pub open spec fn leveled(lines: Seq<TextLine>, items: Seq<DraftView>) -> Seq<ItemView> {
    items.map_values(
        |d: DraftView|
            ItemView { level: item_level(lines, items, d.line), marker: d.marker, text: d.text },
    )
}

/// Blocks under construction.
#[verifier::ext_equal]
pub struct BuildView {
    pub events: Seq<EventView>,
    pub items: Seq<DraftView>,
    pub para: Seq<Seq<char>>,
    pub notes: Seq<Seq<char>>,
}

/// The paragraph under construction becomes a block.
pub open spec fn paragraph_done(b: BuildView) -> BuildView {
    if b.para.len() == 0 {
        b
    } else {
        BuildView {
            events: b.events.push(EventView::Paragraph(join_of(b.para, " "@))),
            para: Seq::empty(),
            ..b
        }
    }
}

/// The list under construction becomes a block.
pub open spec fn list_done(b: BuildView, lines: Seq<TextLine>) -> BuildView {
    if b.items.len() == 0 {
        b
    } else {
        let block = leveled(lines, b.items);
        BuildView {
            events: b.events.push(EventView::ListBlock(block)),
            items: Seq::empty(),
            notes: b.notes + sequence_notes(block),
            ..b
        }
    }
}

/// The blocks after line `i`, which starts with the given marker or with none.
pub open spec fn with_body_line(
    b: BuildView,
    lines: Seq<TextLine>,
    i: int,
    marker: Option<Seq<char>>,
) -> BuildView {
    let line = lines[i];
    match marker {
        Some(m) => {
            let p = paragraph_done(b);
            BuildView {
                items: p.items.push(
                    DraftView { line: i, marker: m, text: unmarked(line.text@, m) },
                ),
                ..p
            }
        },
        None => if b.items.len() > 0 && line.close && line.not_left_of@[b.items.last().line] {
            let last = b.items.last();
            BuildView {
                items: b.items.drop_last().push(
                    DraftView { text: last.text + " "@ + line.text@, ..last },
                ),
                ..b
            }
        } else {
            let l = list_done(b, lines);
            let p = if line.apart {
                paragraph_done(l)
            } else {
                l
            };
            BuildView { para: p.para.push(line.text@), ..p }
        },
    }
}

/// The contents of a list of optional markers.
pub open spec fn markers_view(v: Seq<Option<String>>) -> Seq<Option<Seq<char>>> {
    v.map_values(|m: Option<String>| opt_view(m))
}

/// The markers that lines start with.
pub open spec fn markers_of(lines: Seq<TextLine>) -> Seq<Option<Seq<char>>> {
    lines.map_values(|l: TextLine| list_marker(l.raw@))
}

/// The blocks after the first `n` lines.
pub open spec fn blocks_upto(lines: Seq<TextLine>, markers: Seq<Option<Seq<char>>>, n: int) -> BuildView
    decreases n,
{
    if n <= 0 {
        BuildView {
            events: Seq::empty(),
            items: Seq::empty(),
            para: Seq::empty(),
            notes: Seq::empty(),
        }
    } else {
        with_body_line(
            blocks_upto(lines, markers, n - 1),
            lines,
            n - 1,
            markers[n - 1],
        )
    }
}

/// The blocks of all lines, which start with the given markers.
pub open spec fn marked_blocks(lines: Seq<TextLine>, markers: Seq<Option<Seq<char>>>) -> BuildView {
    list_done(paragraph_done(blocks_upto(lines, markers, lines.len() as int)), lines)
}

/// The blocks of all lines.
pub open spec fn body_blocks(lines: Seq<TextLine>) -> BuildView {
    marked_blocks(lines, markers_of(lines))
}

/// Blocks under construction.
struct Builder {
    events: Vec<ContentEvent>,
    items: Vec<DraftItem>,
    para: Vec<String>,
    notes: Vec<String>,
}

impl View for Builder {
    type V = BuildView;

    closed spec fn view(&self) -> BuildView {
        BuildView {
            events: events_view(self.events@),
            items: drafts_view(self.items@),
            para: views(self.para@),
            notes: views(self.notes@),
        }
    }
}

/// Whether the items start on lines that there are.
spec fn drafts_ok(items: Seq<DraftItem>, n: int) -> bool {
    forall|k: int| 0 <= k < items.len() ==> (#[trigger] items[k]).line < n
}

fn find_level(lines: &Vec<TextLine>, items: &Vec<DraftItem>, line: usize) -> (r: usize)
    requires
        lines_related(lines@),
        drafts_ok(items@, lines@.len() as int),
        line < lines@.len(),
    ensures
        r == item_level(lines@, drafts_view(items@), line as int),
{
    let ghost iv = drafts_view(items@);
    let n: usize = items.len();
    let mut indent: Option<usize> = None;
    let mut i: usize = 0;
    while i < n
        invariant
            i <= n,
            n == items@.len(),
            iv == drafts_view(items@),
            lines_related(lines@),
            drafts_ok(items@, lines@.len() as int),
            line < lines@.len(),
            indent == level_indent(lines@, iv, line as int, i as int),
        decreases n - i,
    {
        let other: usize = items[i].line;
        proof {
            assert(iv[i as int] == items@[i as int]@);
            assert(lines@[line as int].level_with@.len() == lines@.len());
        }
        let x: usize = lines[other].indent;
        if lines[line].level_with[other] {
            let smaller = match indent {
                None => true,
                Some(b) => x < b,
            };
            if smaller {
                indent = Some(x);
            }
        }
        i = i + 1;
    }
    let target: usize = match indent {
        None => {
            return 0;
        },
        Some(x) => x,
    };
    let mut count: usize = 0;
    let mut k: usize = 0;
    while k < n
        invariant
            k <= n,
            n == items@.len(),
            iv == drafts_view(items@),
            lines_related(lines@),
            drafts_ok(items@, lines@.len() as int),
            count <= k,
            count == indents_under(lines@, iv, target, k as int),
        decreases n - k,
    {
        let x: usize = lines[items[k].line].indent;
        let mut new = true;
        let mut j: usize = 0;
        while j < k
            invariant
                j <= k < n,
                n == items@.len(),
                iv == drafts_view(items@),
                drafts_ok(items@, lines@.len() as int),
                x == lines@[iv[k as int].line].indent,
                new == (forall|m: int|
                    0 <= m < j ==> lines@[(#[trigger] iv[m]).line].indent
                        != lines@[iv[k as int].line].indent),
            decreases k - j,
        {
            proof {
                assert(iv[j as int] == items@[j as int]@);
            }
            if lines[items[j].line].indent == x {
                proof {
                    assert(lines@[iv[j as int].line].indent == x);
                }
                new = false;
            }
            j = j + 1;
        }
        proof {
            assert(iv[k as int] == items@[k as int]@);
            assert(new == is_new_indent(lines@, iv, k as int));
        }
        if x < target && new {
            count = count + 1;
        }
        k = k + 1;
    }
    if count < 5 {
        count
    } else {
        5
    }
}

impl Builder {
    fn flush_paragraph(&mut self)
        ensures
            final(self)@ == paragraph_done(old(self)@),
            final(self).items@ == old(self).items@,
    {
        proof {
            assert(views(self.para@).len() == self.para@.len());
        }
        if self.para.len() == 0 {
            return;
        }
        let e = ContentEvent::Paragraph(join(&self.para, " "));
        proof {
            lemma_events_push(self.events@, e);
        }
        self.events.push(e);
        self.para = Vec::new();
        proof {
            assert(views(self.para@) =~= Seq::<Seq<char>>::empty());
        }
    }

    fn flush_list(&mut self, lines: &Vec<TextLine>)
        requires
            lines_related(lines@),
            drafts_ok(old(self).items@, lines@.len() as int),
        ensures
            final(self)@ == list_done(old(self)@, lines@),
            final(self).items@.len() == 0,
    {
        proof {
            assert(drafts_view(self.items@).len() == self.items@.len());
        }
        if self.items.len() == 0 {
            return;
        }
        let ghost iv = drafts_view(self.items@);
        let mut block: Vec<ListItem> = Vec::new();
        let mut i: usize = 0;
        while i < self.items.len()
            invariant
                i <= self.items@.len(),
                lines_related(lines@),
                drafts_ok(self.items@, lines@.len() as int),
                iv == drafts_view(self.items@),
                block@.len() == i,
                forall|k: int|
                    0 <= k < i ==> (#[trigger] block@[k])@ == leveled(lines@, iv)[k],
            decreases self.items@.len() - i,
        {
            let d = &self.items[i];
            let level: usize = find_level(lines, &self.items, d.line);
            proof {
                assert(iv[i as int] == d@);
            }
            block.push(ListItem { level, marker: d.marker.clone(), text: d.text.clone() });
            i = i + 1;
        }
        proof {
            assert(items_view(block@) =~= leveled(lines@, iv));
        }
        check_list_sequence(&block, &mut self.notes);
        let e = ContentEvent::ListBlock(block);
        proof {
            lemma_events_push(self.events@, e);
        }
        self.events.push(e);
        self.items = Vec::new();
        proof {
            assert(drafts_view(self.items@) =~= Seq::<DraftView>::empty());
        }
    }

    fn add_line(&mut self, lines: &Vec<TextLine>, i: usize, marker: Option<String>)
        requires
            lines_related(lines@),
            i < lines@.len(),
            drafts_ok(old(self).items@, lines@.len() as int),
        ensures
            final(self)@ == with_body_line(
                old(self)@,
                lines@,
                i as int,
                opt_view(marker),
            ),
            drafts_ok(final(self).items@, lines@.len() as int),
    {
        let line = &lines[i];
        match marker {
            Some(m) => {
                self.flush_paragraph();
                let text = strip_marker(line.text.as_str(), m.as_str());
                let d = DraftItem { line: i, marker: m, text };
                proof {
                    assert(drafts_view(self.items@.push(d)) =~= drafts_view(self.items@).push(d@));
                }
                self.items.push(d);
            },
            None => {
                let n: usize = self.items.len();
                let ghost iv = drafts_view(self.items@);
                proof {
                    assert(iv.len() == n);
                    if n > 0 {
                        assert(iv.last() == self.items@[n - 1]@);
                        assert(self.items@[n - 1].line < lines@.len());
                    }
                    assert(line.not_left_of@.len() == lines@.len());
                }
                if n > 0 && line.close && line.not_left_of[self.items[n - 1].line] {
                    match self.items.pop() {
                        Some(d) => {
                            let mut d = d;
                            d.text.append(" ");
                            d.text.append(line.text.as_str());
                            proof {
                                assert(drafts_view(self.items@) =~= iv.drop_last());
                                assert(drafts_view(self.items@.push(d)) =~= iv.drop_last().push(
                                    d@,
                                ));
                            }
                            self.items.push(d);
                        },
                        None => {},
                    }
                    return;
                }
                self.flush_list(lines);
                if line.apart {
                    self.flush_paragraph();
                }
                let t = line.text.clone();
                proof {
                    lemma_views_push(self.para@, t);
                }
                self.para.push(t);
            },
        }
    }
}

/// Builds the content blocks of a run of lines that start with the given
/// markers, and the notes on its lists.
pub fn build_marked(lines: &Vec<TextLine>, markers: &Vec<Option<String>>) -> (r: (
    Vec<ContentEvent>,
    Vec<String>,
))
    requires
        lines_related(lines@),
        markers@.len() == lines@.len(),
    ensures
        events_view(r.0@) == marked_blocks(lines@, markers_view(markers@)).events,
        views(r.1@) == marked_blocks(lines@, markers_view(markers@)).notes,
{
    let mut b = Builder {
        events: Vec::new(),
        items: Vec::new(),
        para: Vec::new(),
        notes: Vec::new(),
    };
    proof {
        assert(events_view(b.events@) =~= Seq::<EventView>::empty());
        assert(drafts_view(b.items@) =~= Seq::<DraftView>::empty());
        assert(views(b.para@) =~= Seq::<Seq<char>>::empty());
        assert(views(b.notes@) =~= Seq::<Seq<char>>::empty());
    }
    let mut i: usize = 0;
    while i < lines.len()
        invariant
            i <= lines@.len(),
            markers@.len() == lines@.len(),
            lines_related(lines@),
            drafts_ok(b.items@, lines@.len() as int),
            b@ == blocks_upto(lines@, markers_view(markers@), i as int),
        decreases lines@.len() - i,
    {
        let marker = match &markers[i] {
            Some(m) => Some(m.clone()),
            None => None,
        };
        b.add_line(lines, i, marker);
        i = i + 1;
    }
    b.flush_paragraph();
    b.flush_list(lines);
    (b.events, b.notes)
}

/// Builds the content blocks of a run of lines, paragraphs split by gaps and
/// lists nested by indent, and the notes on its lists.
pub fn build_events(lines: &Vec<TextLine>) -> (r: (Vec<ContentEvent>, Vec<String>))
    requires
        lines_related(lines@),
    ensures
        events_view(r.0@) == body_blocks(lines@).events,
        views(r.1@) == body_blocks(lines@).notes,
{
    let mut markers: Vec<Option<String>> = Vec::new();
    let mut i: usize = 0;
    while i < lines.len()
        invariant
            i <= lines@.len(),
            markers@.len() == i,
            forall|k: int|
                0 <= k < i ==> opt_view(#[trigger] markers@[k]) == list_marker(lines@[k].raw@),
        decreases lines@.len() - i,
    {
        markers.push(find_marker(lines[i].raw.as_str()));
        i = i + 1;
    }
    proof {
        assert(markers_view(markers@) =~= markers_of(lines@));
    }
    build_marked(lines, &markers)
}

// ---------------------------------------------------------------------------
// Markdown
// ---------------------------------------------------------------------------

/// One cell of a table.
#[derive(Debug, PartialEq, Eq)]
pub struct Cell {
    pub text: String,
    pub colspan: u32,
    pub rowspan: u32,
}

/// A table.
#[derive(Debug, PartialEq, Eq)]
pub struct TableData {
    pub rows: Vec<Vec<Cell>>,
    pub col_count: usize,
    pub has_header: bool,
}

/// The text of a cell on one line, with its spans where it has any.
pub open spec fn cell_text(c: Cell) -> Seq<char> {
    let t = squeezed(replaced(replaced(c.text@, "|"@, "\\|"@), "\n"@, " "@));
    let a = if c.colspan > 1 {
        t + " (colspan "@ + decimal(c.colspan as nat) + ")"@
    } else {
        t
    };
    let b = if c.rowspan > 1 {
        a + " (rowspan "@ + decimal(c.rowspan as nat) + ")"@
    } else {
        a
    };
    trimmed(b)
}

fn cell_str(c: &Cell) -> (r: String)
    ensures
        r@ == cell_text(*c),
{
    proof {
        reveal_strlit("|");
        reveal_strlit("\n");
    }
    let piped = replace(c.text.as_str(), "|", "\\|");
    let flat = replace(piped.as_str(), "\n", " ");
    let mut t = squeeze(flat.as_str());
    if c.colspan > 1 {
        t.append(" (colspan ");
        let n = u64_text(c.colspan as u64);
        t.append(n.as_str());
        t.append(")");
    }
    if c.rowspan > 1 {
        t.append(" (rowspan ");
        let n = u64_text(c.rowspan as u64);
        t.append(n.as_str());
        t.append(")");
    }
    trim(t.as_str()).to_owned()
}

/// A text with the first `n` cells of a row.
pub open spec fn with_cells(out: Seq<char>, row: Seq<Cell>, n: int) -> Seq<char>
    decreases n,
{
    if n <= 0 {
        out
    } else {
        let text = if n - 1 < row.len() {
            cell_text(row[n - 1])
        } else {
            trimmed(Seq::empty())
        };
        with_cells(out, row, n - 1) + " "@ + text + " |"@
    }
}

/// A text with the rule under a header of `n` columns.
pub open spec fn with_dashes(out: Seq<char>, n: int) -> Seq<char>
    decreases n,
{
    if n <= 0 {
        out
    } else {
        with_dashes(out, n - 1) + "---|"@
    }
}

/// The number of columns of a table, at least one.
pub open spec fn columns(t: TableData) -> int {
    if t.col_count > 1 {
        t.col_count as int
    } else {
        1
    }
}

/// The first `n` rows of a table as Markdown.
pub open spec fn table_rows(t: TableData, n: int) -> Seq<char>
    decreases n,
{
    if n <= 0 {
        Seq::empty()
    } else {
        let before = table_rows(t, n - 1);
        let head = if n == 2 && t.has_header {
            with_dashes(before + "|"@, columns(t)) + "\n"@
        } else {
            before
        };
        with_cells(head + "|"@, t.rows@[n - 1]@, columns(t)) + "\n"@
    }
}

/// Renders a table as a Markdown pipe table.
pub fn render_table(table: &TableData) -> (r: String)
    ensures
        r@ == table_rows(*table, table.rows@.len() as int),
{
    let cols: usize = if table.col_count > 1 {
        table.col_count
    } else {
        1
    };
    let mut out = String::new();
    let mut ri: usize = 0;
    while ri < table.rows.len()
        invariant
            ri <= table.rows@.len(),
            cols == columns(*table),
            out@ == table_rows(*table, ri as int),
        decreases table.rows@.len() - ri,
    {
        if ri == 1 && table.has_header {
            out.append("|");
            let ghost head = out@;
            let mut c: usize = 0;
            while c < cols
                invariant
                    c <= cols,
                    out@ == with_dashes(head, c as int),
                decreases cols - c,
            {
                out.append("---|");
                c = c + 1;
            }
            out.append("\n");
        }
        out.append("|");
        let ghost head = out@;
        let row = &table.rows[ri];
        let mut ci: usize = 0;
        while ci < cols
            invariant
                ci <= cols,
                out@ == with_cells(head, row@, ci as int),
            decreases cols - ci,
        {
            let text = if ci < row.len() {
                cell_str(&row[ci])
            } else {
                let e = String::new();
                trim(e.as_str()).to_owned()
            };
            out.append(" ");
            out.append(text.as_str());
            out.append(" |");
            ci = ci + 1;
        }
        out.append("\n");
        ri = ri + 1;
    }
    out
}

/// A list item as Markdown.
pub open spec fn item_text(i: ItemView) -> Seq<char> {
    run_of(' ', 2 * i.level) + i.marker + " "@ + i.text
}

/// A content block as Markdown.
pub open spec fn event_text(e: EventView) -> Seq<char> {
    match e {
        EventView::Heading(level, text) => run_of('#', level as int) + " "@ + text,
        EventView::Paragraph(text) => text,
        EventView::ListBlock(items) => join_of(
            items.map_values(|i: ItemView| item_text(i)),
            "\n"@,
        ),
        EventView::Table(text) => text,
        EventView::Rule => "---"@,
    }
}

fn indent_of(level: usize) -> (r: String)
    ensures
        r@ == run_of(' ', 2 * level),
{
    let mut s = String::new();
    let mut i: usize = 0;
    while i < level
        invariant
            i <= level,
            s@ =~= run_of(' ', 2 * i),
        decreases level - i,
    {
        s.push(' ');
        s.push(' ');
        i = i + 1;
    }
    s
}

/// Renders a content block as Markdown.
pub fn render_event(event: &ContentEvent) -> (r: String)
    ensures
        r@ == event_text(event@),
{
    match event {
        ContentEvent::Heading { level, text } => {
            let mut s = repeat_char('#', *level as usize);
            s.append(" ");
            s.append(text.as_str());
            s
        },
        ContentEvent::Paragraph(text) => text.clone(),
        ContentEvent::ListBlock(items) => {
            let mut lines: Vec<String> = Vec::new();
            let mut i: usize = 0;
            while i < items.len()
                invariant
                    i <= items@.len(),
                    lines@.len() == i,
                    forall|k: int| 0 <= k < i ==> (#[trigger] lines@[k])@ == item_text(items@[k]@),
                decreases items@.len() - i,
            {
                let mut s = indent_of(items[i].level);
                s.append(items[i].marker.as_str());
                s.append(" ");
                s.append(items[i].text.as_str());
                lines.push(s);
                i = i + 1;
            }
            proof {
                assert(views(lines@) =~= items_view(items@).map_values(
                    |x: ItemView| item_text(x),
                ));
            }
            join(&lines, "\n")
        },
        ContentEvent::Table(text) => text.clone(),
        ContentEvent::Rule => "---".to_owned(),
    }
}

} // verus!
