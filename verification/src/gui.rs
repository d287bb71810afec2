//! What the graphical shell shows: the coloured output of the program and the
//! state of the todo workspace.
//!
//! The shell runs the program as a child and hands its output over in chunks.
//! Escape sequences become styles; a sequence or character that a chunk cuts
//! waits for the next one. Windows, processes and files are left to the
//! caller.

use vstd::prelude::*;
use vstd::string::*;
use vstd::utf8::*;

use crate::text::{
    after_prefix, byte_len, chars_of, decimal, edge_upto, is_letter, lemma_byte_len, lines,
    lines_of, opt_str_view, opt_view, parse_upto, parsed_upto, split, split_on, starts_with,
    string_of, strip_prefix, trim, trimmed, usize_text, utf8_fault, utf8_len, utf8_text, views,
};

verus! {

// ---------------------------------------------------------------------------
// Colours and styles
// ---------------------------------------------------------------------------

/// A colour.
#[derive(Debug, Clone, Copy, PartialEq, Eq, Structural)]
pub struct Colour {
    pub red: u8,
    pub green: u8,
    pub blue: u8,
}

/// White.
pub open spec fn white() -> Colour {
    Colour { red: 255, green: 255, blue: 255 }
}

fn white_colour() -> (r: Colour)
    ensures
        r == white(),
{
    Colour { red: 255, green: 255, blue: 255 }
}

/// How a piece of output looks.
#[derive(Debug, Clone, Copy, PartialEq, Eq, Structural)]
pub struct OutputStyle {
    pub foreground: Option<Colour>,
    pub background: Option<Colour>,
    pub bold: bool,
    pub dim: bool,
    pub italic: bool,
    pub underline: bool,
}

/// The style of plain output.
pub open spec fn plain_style() -> OutputStyle {
    OutputStyle {
        foreground: None,
        background: None,
        bold: false,
        dim: false,
        italic: false,
        underline: false,
    }
}

impl Default for OutputStyle {
    fn default() -> (r: OutputStyle)
        ensures
            r == plain_style(),
    {
        OutputStyle {
            foreground: None,
            background: None,
            bold: false,
            dim: false,
            italic: false,
            underline: false,
        }
    }
}

/// A grey.
pub open spec fn grey_of(level: int) -> Colour {
    Colour { red: level as u8, green: level as u8, blue: level as u8 }
}

/// One of the eight basic colours, dark or bright.
pub open spec fn basic_colour(index: int, bright: bool) -> Option<Colour> {
    let low: u8 = if bright {
        92
    } else {
        65
    };
    let high: u8 = if bright {
        255
    } else {
        205
    };
    if index == 0 {
        Some(
            grey_of(
                if bright {
                    130
                } else {
                    60
                },
            ),
        )
    } else if index == 7 {
        Some(
            grey_of(
                if bright {
                    230
                } else {
                    180
                },
            ),
        )
    } else if 0 < index < 7 {
        Some(
            Colour {
                red: if index % 2 == 1 {
                    high
                } else {
                    low
                },
                green: if (index / 2) % 2 == 1 {
                    high
                } else {
                    low
                },
                blue: if index / 4 == 1 {
                    high
                } else {
                    low
                },
            },
        )
    } else {
        None
    }
}

/// One of the eight basic colours, dark or bright.
pub fn ansi_color(index: u16, bright: bool) -> (r: Option<Colour>)
    ensures
        r == basic_colour(index as int, bright),
{
    let low: u8 = if bright {
        92
    } else {
        65
    };
    let high: u8 = if bright {
        255
    } else {
        205
    };
    if index == 0 {
        let level: u8 = if bright {
            130
        } else {
            60
        };
        Some(Colour { red: level, green: level, blue: level })
    } else if index == 7 {
        let level: u8 = if bright {
            230
        } else {
            180
        };
        Some(Colour { red: level, green: level, blue: level })
    } else if index < 7 {
        Some(
            Colour {
                red: if index % 2 == 1 {
                    high
                } else {
                    low
                },
                green: if (index / 2) % 2 == 1 {
                    high
                } else {
                    low
                },
                blue: if index / 4 == 1 {
                    high
                } else {
                    low
                },
            },
        )
    } else {
        None
    }
}

/// A level of the colour cube.
pub open spec fn cube_level(n: int) -> u8 {
    if n == 0 {
        0
    } else {
        (55 + n * 40) as u8
    }
}

/// The colour of a number: the basic colours, a cube, greys; white beyond.
pub open spec fn numbered_colour(value: int) -> Colour {
    if value < 8 {
        basic_colour(value, false)->0
    } else if value < 16 {
        basic_colour(value - 8, true)->0
    } else if value < 232 {
        let v = value - 16;
        Colour {
            red: cube_level((v / 36) % 6),
            green: cube_level((v / 6) % 6),
            blue: cube_level(v % 6),
        }
    } else if value < 256 {
        grey_of(8 + (value - 232) * 10)
    } else {
        white()
    }
}

fn cube(n: u16) -> (r: u8)
    requires
        n < 6,
    ensures
        r == cube_level(n as int),
{
    if n == 0 {
        0
    } else {
        (55 + n * 40) as u8
    }
}

/// The colour of a number.
pub fn ansi_256_color(value: u16) -> (r: Colour)
    ensures
        r == numbered_colour(value as int),
{
    if value < 8 {
        match ansi_color(value, false) {
            Some(c) => c,
            None => white_colour(),
        }
    } else if value < 16 {
        match ansi_color(value - 8, true) {
            Some(c) => c,
            None => white_colour(),
        }
    } else if value < 232 {
        let v: u16 = value - 16;
        Colour { red: cube((v / 36) % 6), green: cube((v / 6) % 6), blue: cube(v % 6) }
    } else if value < 256 {
        let level: u8 = (8 + (value - 232) * 10) as u8;
        Colour { red: level, green: level, blue: level }
    } else {
        white_colour()
    }
}

/// The colour of the text in a style: white on a background where none is set.
pub fn foreground_for_style(style: OutputStyle) -> (r: Option<Colour>)
    ensures
        r == match style.foreground {
            Some(c) => Some(c),
            None => if style.background is Some {
                Some(white())
            } else {
                None
            },
        },
{
    match style.foreground {
        Some(c) => Some(c),
        None => match style.background {
            Some(_) => Some(white_colour()),
            None => None,
        },
    }
}

/// The value at a place.
pub open spec fn value_at(values: Seq<u16>, i: int) -> Option<int> {
    if 0 <= i < values.len() {
        Some(values[i] as int)
    } else {
        None
    }
}

/// A value as a colour component.
pub open spec fn component(n: int) -> u8 {
    if n <= 255 {
        n as u8
    } else {
        255
    }
}

/// The colour that the values from `start` on spell out, and where it ends.
pub open spec fn spelled_colour(values: Seq<u16>, start: int) -> Option<(Colour, int)> {
    let kind = value_at(values, start);
    if kind == Some(5int) {
        match value_at(values, start + 1) {
            Some(n) => Some((numbered_colour(n), start + 2)),
            None => None,
        }
    } else if kind == Some(2int) {
        match (
            value_at(values, start + 1),
            value_at(values, start + 2),
            value_at(values, start + 3),
        ) {
            (Some(r), Some(g), Some(b)) => Some(
                (
                    Colour { red: component(r), green: component(g), blue: component(b) },
                    start + 4,
                ),
            ),
            _ => None,
        }
    } else {
        None
    }
}

fn to_component(n: u16) -> (r: u8)
    ensures
        r == component(n as int),
{
    if n <= 255 {
        n as u8
    } else {
        255
    }
}

/// Reads the colour that the values from `start` on spell out.
pub fn parse_extended_color(values: &Vec<u16>, start: usize) -> (r: Option<(Colour, usize)>)
    ensures
        match r {
            Some(p) => spelled_colour(values@, start as int) == Some((p.0, p.1 as int)),
            None => spelled_colour(values@, start as int) is None,
        },
        r is Some ==> start < (r->0).1 <= values@.len(),
{
    let n: usize = values.len();
    if start >= n {
        return None;
    }
    let left: usize = n - start;
    if values[start] == 5 {
        if left < 2 {
            return None;
        }
        return Some((ansi_256_color(values[start + 1]), start + 2));
    }
    if values[start] == 2 {
        if left < 4 {
            return None;
        }
        let c = Colour {
            red: to_component(values[start + 1]),
            green: to_component(values[start + 2]),
            blue: to_component(values[start + 3]),
        };
        return Some((c, start + 4));
    }
    None
}

/// A style after one simple value.
pub open spec fn restyled(style: OutputStyle, v: int) -> OutputStyle {
    if v == 0 {
        plain_style()
    } else if v == 1 {
        OutputStyle { bold: true, ..style }
    } else if v == 2 {
        OutputStyle { dim: true, ..style }
    } else if v == 3 {
        OutputStyle { italic: true, ..style }
    } else if v == 4 {
        OutputStyle { underline: true, ..style }
    } else if v == 22 {
        OutputStyle { bold: false, dim: false, ..style }
    } else if v == 23 {
        OutputStyle { italic: false, ..style }
    } else if v == 24 {
        OutputStyle { underline: false, ..style }
    } else if 30 <= v <= 37 {
        OutputStyle { foreground: basic_colour(v - 30, false), ..style }
    } else if v == 39 {
        OutputStyle { foreground: None, ..style }
    } else if 40 <= v <= 47 {
        OutputStyle { background: basic_colour(v - 40, false), ..style }
    } else if v == 49 {
        OutputStyle { background: None, ..style }
    } else if 90 <= v <= 97 {
        OutputStyle { foreground: basic_colour(v - 90, true), ..style }
    } else if 100 <= v <= 107 {
        OutputStyle { background: basic_colour(v - 100, true), ..style }
    } else {
        style
    }
}

/// A style after the values from `i` on. After a spelled-out colour one value
/// is passed over; one that is cut short ends the sequence.
pub open spec fn styled(style: OutputStyle, values: Seq<u16>, i: int) -> OutputStyle
    decreases values.len() - i,
{
    if i < 0 || i >= values.len() {
        style
    } else if values[i] == 38 || values[i] == 48 {
        match spelled_colour(values, i + 1) {
            Some(p) => {
                let next = if values[i] == 38 {
                    OutputStyle { foreground: Some(p.0), ..style }
                } else {
                    OutputStyle { background: Some(p.0), ..style }
                };
                if i < p.1 && p.1 + 1 < values.len() {
                    styled(next, values, p.1 + 1)
                } else {
                    next
                }
            },
            None => style,
        }
    } else {
        styled(restyled(style, values[i] as int), values, i + 1)
    }
}

/// A parameter of a sequence; zero where it is no number.
pub open spec fn parameter(part: Seq<char>) -> u16 {
    match parsed_upto(part, 0xffff) {
        Some(n) => n as u16,
        None => 0,
    }
}

/// The parameters of a sequence.
pub open spec fn parameters(params: Seq<char>) -> Seq<u16> {
    if params.len() == 0 {
        seq![0u16]
    } else {
        split_on(params, ";"@).map_values(|p: Seq<char>| parameter(p))
    }
}

fn read_parameters(params: &str) -> (r: Vec<u16>)
    ensures
        r@ == parameters(params@),
{
    let mut out: Vec<u16> = Vec::new();
    if params.is_empty() {
        out.push(0);
        proof {
            assert(out@ =~= parameters(params@));
        }
        return out;
    }
    proof {
        reveal_strlit(";");
    }
    let parts = split(params, ";");
    let ghost all = split_on(params@, ";"@);
    let mut i: usize = 0;
    while i < parts.len()
        invariant
            i <= parts@.len(),
            all == views(parts@),
            out@.len() == i,
            forall|k: int| 0 <= k < i ==> #[trigger] out@[k] == parameter(all[k]),
        decreases parts@.len() - i,
    {
        let v: u16 = match parse_upto(parts[i].as_str(), 0xffff) {
            Some(n) => n as u16,
            None => 0,
        };
        proof {
            assert(all[i as int] == parts@[i as int]@);
        }
        out.push(v);
        i = i + 1;
    }
    proof {
        assert(out@ =~= parameters(params@));
    }
    out
}

impl OutputStyle {
    /// The style after one simple value.
    pub fn after_value(self, v: u16) -> (r: OutputStyle)
        ensures
            r == restyled(self, v as int),
    {
        let mut s = self;
        if v == 0 {
            s = OutputStyle::default();
        } else if v == 1 {
            s.bold = true;
        } else if v == 2 {
            s.dim = true;
        } else if v == 3 {
            s.italic = true;
        } else if v == 4 {
            s.underline = true;
        } else if v == 22 {
            s.bold = false;
            s.dim = false;
        } else if v == 23 {
            s.italic = false;
        } else if v == 24 {
            s.underline = false;
        } else if 30 <= v && v <= 37 {
            s.foreground = ansi_color(v - 30, false);
        } else if v == 39 {
            s.foreground = None;
        } else if 40 <= v && v <= 47 {
            s.background = ansi_color(v - 40, false);
        } else if v == 49 {
            s.background = None;
        } else if 90 <= v && v <= 97 {
            s.foreground = ansi_color(v - 90, true);
        } else if 100 <= v && v <= 107 {
            s.background = ansi_color(v - 100, true);
        }
        s
    }

    /// The style after a sequence with the given parameters.
    pub fn apply_sgr(self, params: &str) -> (r: OutputStyle)
        ensures
            r == styled(self, parameters(params@), 0),
    {
        let values = read_parameters(params);
        let n: usize = values.len();
        let mut style = self;
        let mut i: usize = 0;
        while i < n
            invariant
                n == values@.len(),
                styled(style, values@, i as int) == styled(self, values@, 0),
                values@ == parameters(params@),
            decreases n - i,
        {
            let v: u16 = values[i];
            if v == 38 || v == 48 {
                match parse_extended_color(&values, i + 1) {
                    Some((c, next)) => {
                        if v == 38 {
                            style.foreground = Some(c);
                        } else {
                            style.background = Some(c);
                        }
                        if n - next <= 1 {
                            return style;
                        }
                        i = next + 1;
                    },
                    None => {
                        return style;
                    },
                }
            } else {
                style = style.after_value(v);
                i = i + 1;
            }
        }
        style
    }
}

// ---------------------------------------------------------------------------
// Output
// ---------------------------------------------------------------------------

/// A piece of a line in one style.
#[derive(Debug, PartialEq, Eq)]
pub struct OutputSpan {
    pub text: String,
    pub style: OutputStyle,
}

/// A line of output.
#[derive(Debug, PartialEq, Eq)]
pub struct OutputLine {
    pub spans: Vec<OutputSpan>,
}

/// What a piece of a line is.
#[verifier::ext_equal]
pub struct SpanView {
    pub text: Seq<char>,
    pub style: OutputStyle,
}

impl View for OutputSpan {
    type V = SpanView;

    open spec fn view(&self) -> SpanView {
        SpanView { text: self.text@, style: self.style }
    }
}

/// The contents of a list of pieces.
pub open spec fn spans_view(v: Seq<OutputSpan>) -> Seq<SpanView> {
    v.map_values(|s: OutputSpan| s@)
}

impl View for OutputLine {
    type V = Seq<SpanView>;

    open spec fn view(&self) -> Seq<SpanView> {
        spans_view(self.spans@)
    }
}

/// The contents of a list of lines.
pub open spec fn output_view(v: Seq<OutputLine>) -> Seq<Seq<SpanView>> {
    v.map_values(|l: OutputLine| l@)
}

/// The output so far: its lines and the number of bytes they count as.
#[derive(Debug, PartialEq, Eq)]
pub struct Screen {
    pub lines: Vec<OutputLine>,
    pub bytes: usize,
}

/// The output so far and the style of what follows.
#[verifier::ext_equal]
pub struct ScreenView {
    pub style: OutputStyle,
    pub lines: Seq<Seq<SpanView>>,
    pub bytes: int,
}

/// What stands at the beginning of a text.
pub enum Token {
    /// A sequence that the text cuts.
    Wait,
    /// A sequence that sets the style: its parameters and its length.
    Style(Seq<char>, int),
    /// Something that is passed over, by its length.
    Pass(int),
    LineFeed,
    Put(char),
}

fn char_is_letter(c: char) -> (r: bool)
    ensures
        r == is_letter(c),
{
    ('a' <= c && c <= 'z') || ('A' <= c && c <= 'Z')
}

/// Where the control sequence whose parameters are at `e` ends: at a letter or
/// at the next escape.
pub open spec fn control_end(t: Seq<char>, e: int) -> int
    decreases t.len() - e,
{
    if 0 <= e < t.len() && !is_letter(t[e]) && t[e] != '\u{1b}' {
        control_end(t, e + 1)
    } else {
        e
    }
}

/// Where the system command whose text is at `e` ends: behind a bell or an
/// escape with a backslash.
pub open spec fn command_end(t: Seq<char>, e: int) -> int
    decreases t.len() - e,
{
    if e < 0 || e >= t.len() {
        e
    } else if t[e] == '\u{7}' {
        e + 1
    } else if t[e] == '\u{1b}' && e + 1 < t.len() && t[e + 1] == '\\' {
        e + 2
    } else {
        command_end(t, e + 1)
    }
}

/// What stands at the beginning of a text that is not empty. A system command
/// that ends with the text waits for what follows.
pub open spec fn token(t: Seq<char>) -> Token {
    if t[0] == '\n' {
        Token::LineFeed
    } else if t[0] == '\r' {
        Token::Pass(1)
    } else if t[0] != '\u{1b}' {
        Token::Put(t[0])
    } else if t.len() < 2 {
        Token::Wait
    } else if t[1] == '[' {
        let end = control_end(t, 2);
        if end >= t.len() {
            Token::Wait
        } else if t[end] == 'm' {
            Token::Style(t.subrange(2, end), end + 1)
        } else {
            Token::Pass(end + 1)
        }
    } else if t[1] == ']' {
        let end = command_end(t, 2);
        if end >= t.len() {
            Token::Wait
        } else {
            Token::Pass(end)
        }
    } else {
        Token::Pass(2)
    }
}

/// The length of what stands at the beginning of a text.
pub open spec fn token_len(k: Token) -> int {
    match k {
        Token::Wait => 0,
        Token::Style(_, n) => n,
        Token::Pass(n) => n,
        Token::LineFeed => 1,
        Token::Put(_) => 1,
    }
}

/// The number of bytes of a character.
pub open spec fn char_bytes(c: char) -> int {
    encode_scalar(c as u32).len() as int
}

/// A line with a character put at its end.
pub open spec fn put_char(line: Seq<SpanView>, style: OutputStyle, c: char) -> Seq<SpanView> {
    if line.len() > 0 && line.last().style == style {
        line.drop_last().push(SpanView { text: line.last().text.push(c), style })
    } else {
        line.push(SpanView { text: seq![c], style })
    }
}

/// The output after what stands at the beginning of a text.
pub open spec fn after_token(sc: ScreenView, k: Token) -> ScreenView {
    match k {
        Token::Wait => sc,
        Token::Style(params, _) => ScreenView {
            style: styled(sc.style, parameters(params), 0),
            ..sc
        },
        Token::Pass(_) => sc,
        Token::LineFeed => ScreenView { lines: sc.lines.push(Seq::empty()), ..sc },
        Token::Put(c) => ScreenView {
            lines: sc.lines.drop_last().push(put_char(sc.lines.last(), sc.style, c)),
            bytes: sc.bytes + char_bytes(c),
            ..sc
        },
    }
}

/// The output after a text, and the end of the text that waits for more.
pub open spec fn fed(sc: ScreenView, t: Seq<char>) -> (ScreenView, Seq<char>)
    decreases t.len(),
{
    if t.len() == 0 {
        (sc, t)
    } else {
        let n = token_len(token(t));
        if 0 < n <= t.len() {
            fed(after_token(sc, token(t)), t.skip(n))
        } else {
            (sc, t)
        }
    }
}

/// The lines, with an empty one where there is none.
pub open spec fn started(lines: Seq<Seq<SpanView>>) -> Seq<Seq<SpanView>> {
    if lines.len() == 0 {
        seq![Seq::empty()]
    } else {
        lines
    }
}

proof fn lemma_control_end(t: Seq<char>, e: int)
    requires
        0 <= e <= t.len(),
    ensures
        e <= control_end(t, e) <= t.len(),
    decreases t.len() - e,
{
    if e < t.len() && !is_letter(t[e]) && t[e] != '\u{1b}' {
        lemma_control_end(t, e + 1);
    }
}

proof fn lemma_command_end(t: Seq<char>, e: int)
    requires
        0 <= e <= t.len(),
    ensures
        e <= command_end(t, e) <= t.len(),
    decreases t.len() - e,
{
    if e < t.len() && t[e] != '\u{7}' && !(t[e] == '\u{1b}' && e + 1 < t.len() && t[e + 1]
        == '\\') {
        lemma_command_end(t, e + 1);
    }
}

proof fn lemma_token_len(t: Seq<char>)
    requires
        t.len() > 0,
    ensures
        0 <= token_len(token(t)) <= t.len(),
        token_len(token(t)) == 0 <==> token(t) is Wait,
{
    if t.len() >= 2 {
        lemma_control_end(t, 2);
        lemma_command_end(t, 2);
    }
}

/// Reads escape sequences; what a chunk cuts waits for the next.
#[derive(Debug, PartialEq, Eq)]
pub struct AnsiParser {
    pub style: OutputStyle,
    pub pending: String,
}

/// The output with the style of a parser.
pub open spec fn screen_view(parser: AnsiParser, screen: Screen) -> ScreenView {
    ScreenView {
        style: parser.style,
        lines: output_view(screen.lines@),
        bytes: screen.bytes as int,
    }
}

/// The output before a chunk: it has a line.
pub open spec fn ready(sc: ScreenView) -> ScreenView {
    ScreenView { lines: started(sc.lines), ..sc }
}

fn len_utf8(c: char) -> (r: usize)
    ensures
        r == char_bytes(c),
        1 <= r <= 4,
{
    let n: u32 = c as u32;
    if n <= 0x7f {
        1
    } else if n <= 0x7ff {
        2
    } else if n <= 0xffff {
        3
    } else {
        4
    }
}

impl Screen {
    /// No output.
    pub fn new() -> (r: Screen)
        ensures
            r.lines@.len() == 0,
            r.bytes == 0,
    {
        Screen { lines: Vec::new(), bytes: 0 }
    }

    fn put(&mut self, style: OutputStyle, c: char)
        requires
            old(self).lines@.len() > 0,
            old(self).bytes + 4 <= usize::MAX,
        ensures
            output_view(final(self).lines@) == output_view(old(self).lines@).drop_last().push(
                put_char(output_view(old(self).lines@).last(), style, c),
            ),
            final(self).bytes == old(self).bytes + char_bytes(c),
            final(self).lines@.len() == old(self).lines@.len(),
    {
        let ghost before = self.lines@;
        match self.lines.pop() {
            Some(line) => {
                let mut line = line;
                let ghost spans = line.spans@;
                let joins = match line.spans.last() {
                    Some(s) => s.style == style,
                    None => false,
                };
                if joins {
                    match line.spans.pop() {
                        Some(span) => {
                            let mut span = span;
                            span.text.push(c);
                            line.spans.push(span);
                            proof {
                                assert(spans_view(line.spans@) =~= put_char(
                                    spans_view(spans),
                                    style,
                                    c,
                                ));
                            }
                        },
                        None => {},
                    }
                } else {
                    let mut text = String::new();
                    text.push(c);
                    proof {
                        assert(text@ =~= seq![c]);
                    }
                    line.spans.push(OutputSpan { text, style });
                    proof {
                        assert(spans_view(line.spans@) =~= put_char(spans_view(spans), style, c));
                    }
                }
                self.lines.push(line);
                proof {
                    assert(output_view(self.lines@) =~= output_view(before).drop_last().push(
                        put_char(output_view(before).last(), style, c),
                    ));
                }
            },
            None => {},
        }
        self.bytes = self.bytes + len_utf8(c);
    }

    fn feed_line(&mut self)
        ensures
            output_view(final(self).lines@) == output_view(old(self).lines@).push(Seq::empty()),
            final(self).bytes == old(self).bytes,
            final(self).lines@.len() > 0,
    {
        let ghost before = self.lines@;
        let line = OutputLine { spans: Vec::new() };
        self.lines.push(line);
        proof {
            assert(spans_view(line.spans@) =~= Seq::<SpanView>::empty());
            assert(output_view(self.lines@) =~= output_view(before).push(Seq::empty()));
        }
    }
}

fn find_control_end(cs: &Vec<char>, i: usize) -> (r: usize)
    requires
        i + 2 <= cs@.len(),
    ensures
        r - i == control_end(cs@.skip(i as int), 2),
        i + 2 <= r <= cs@.len(),
{
    let ghost t = cs@.skip(i as int);
    let n: usize = cs.len();
    let mut e: usize = i + 2;
    while e < n && !char_is_letter(cs[e]) && cs[e] != '\u{1b}'
        invariant
            n == cs@.len(),
            t == cs@.skip(i as int),
            i + 2 <= e <= n,
            control_end(t, e - i) == control_end(t, 2),
        decreases n - e,
    {
        proof {
            assert(t[e - i] == cs@[e as int]);
        }
        e = e + 1;
    }
    proof {
        if e < n {
            assert(t[e - i] == cs@[e as int]);
        }
    }
    e
}

fn find_command_end(cs: &Vec<char>, i: usize) -> (r: usize)
    requires
        i + 2 <= cs@.len(),
    ensures
        r - i == command_end(cs@.skip(i as int), 2),
        i + 2 <= r <= cs@.len(),
{
    let ghost t = cs@.skip(i as int);
    let n: usize = cs.len();
    let mut e: usize = i + 2;
    while e < n
        invariant
            n == cs@.len(),
            t == cs@.skip(i as int),
            i + 2 <= e <= n,
            command_end(t, e - i) == command_end(t, 2),
        decreases n - e,
    {
        proof {
            assert(t[e - i] == cs@[e as int]);
            if e + 1 < n {
                assert(t[e + 1 - i] == cs@[e + 1]);
            }
        }
        if cs[e] == '\u{7}' {
            return e + 1;
        }
        if cs[e] == '\u{1b}' && n - e > 1 && cs[e + 1] == '\\' {
            return e + 2;
        }
        e = e + 1;
    }
    e
}

impl AnsiParser {
    /// A parser at the beginning of its output.
    pub fn new() -> (r: AnsiParser)
        ensures
            r.style == plain_style(),
            r.pending@.len() == 0,
    {
        AnsiParser { style: OutputStyle::default(), pending: String::new() }
    }

    /// Reads a chunk of output.
    #[verifier::spinoff_prover]
    #[verifier::rlimit(60)]
    pub fn feed(&mut self, text: &str, screen: &mut Screen)
        requires
            old(screen).bytes + 4 * (old(self).pending@.len() + text@.len()) <= usize::MAX,
        ensures
            (screen_view(*final(self), *final(screen)), final(self).pending@) == fed(
                ready(screen_view(*old(self), *old(screen))),
                old(self).pending@ + text@,
            ),
            final(screen).lines@.len() > 0,
            final(screen).bytes <= old(screen).bytes + 4 * (old(self).pending@.len()
                + text@.len()),
    {
        let ghost total = self.pending@ + text@;
        let ghost first = ready(screen_view(*self, *screen));
        let ghost bound = screen.bytes + 4 * (self.pending@.len() + text@.len());
        let mut input = self.pending.clone();
        input.append(text);
        self.pending = String::new();
        proof {
            assert(self.pending@ =~= Seq::<char>::empty());
        }
        let cs = chars_of(input.as_str());
        let n: usize = cs.len();
        if screen.lines.len() == 0 {
            screen.feed_line();
            proof {
                assert(output_view(screen.lines@) =~= seq![Seq::<SpanView>::empty()]);
            }
        } else {
            proof {
                assert(output_view(screen.lines@).len() == screen.lines@.len());
            }
        }
        let mut i: usize = 0;
        proof {
            assert(cs@.skip(0) =~= total);
            assert(screen_view(*self, *screen) =~= first);
        }
        while i < n
            invariant
                i <= n,
                n == cs@.len(),
                cs@ == total,
                total == old(self).pending@ + text@,
                first == ready(screen_view(*old(self), *old(screen))),
                bound == old(screen).bytes + 4 * (old(self).pending@.len() + text@.len()),
                self.pending@ == Seq::<char>::empty(),
                screen.lines@.len() > 0,
                screen.bytes + 4 * (n - i) <= bound,
                bound <= usize::MAX,
                fed(screen_view(*self, *screen), cs@.skip(i as int)) == fed(first, total),
            decreases n - i,
        {
            let ghost t = cs@.skip(i as int);
            let ghost sc = screen_view(*self, *screen);
            let ch = cs[i];
            proof {
                lemma_token_len(t);
                assert(t[0] == ch);
                assert(t.len() == n - i);
                if n - i > 1 {
                    assert(t[1] == cs@[i + 1]);
                }
            }
            if ch == '\n' {
                screen.feed_line();
                proof {
                    assert(t.skip(1) =~= cs@.skip(i + 1));
                    assert(screen_view(*self, *screen) =~= after_token(sc, token(t)));
                }
                i = i + 1;
            } else if ch == '\r' {
                proof {
                    assert(t.skip(1) =~= cs@.skip(i + 1));
                }
                i = i + 1;
            } else if ch != '\u{1b}' {
                screen.put(self.style, ch);
                proof {
                    assert(t.skip(1) =~= cs@.skip(i + 1));
                    assert(screen_view(*self, *screen) =~= after_token(sc, token(t)));
                }
                i = i + 1;
            } else {
                if n - i < 2 {
                    self.pending = string_of(&cs, i, n);
                    proof {
                        assert(cs@.subrange(i as int, n as int) =~= t);
                    }
                    return;
                }
                if cs[i + 1] == '[' {
                    let end: usize = find_control_end(&cs, i);
                    if end >= n {
                        self.pending = string_of(&cs, i, n);
                        proof {
                            assert(cs@.subrange(i as int, n as int) =~= t);
                        }
                        return;
                    }
                    proof {
                        assert(t[end - i] == cs@[end as int]);
                        assert(t.skip(end - i + 1) =~= cs@.skip(end + 1));
                    }
                    if cs[end] == 'm' {
                        let params = string_of(&cs, i + 2, end);
                        proof {
                            assert(params@ =~= t.subrange(2, end - i));
                        }
                        self.style = self.style.apply_sgr(params.as_str());
                        proof {
                            assert(screen_view(*self, *screen) =~= after_token(sc, token(t)));
                        }
                    }
                    i = end + 1;
                } else if cs[i + 1] == ']' {
                    let end: usize = find_command_end(&cs, i);
                    if end >= n {
                        self.pending = string_of(&cs, i, n);
                        proof {
                            assert(cs@.subrange(i as int, n as int) =~= t);
                        }
                        return;
                    }
                    proof {
                        assert(t.skip(end - i) =~= cs@.skip(end as int));
                    }
                    i = end;
                } else {
                    proof {
                        assert(t.skip(2) =~= cs@.skip(i + 2));
                    }
                    i = i + 2;
                }
            }
        }
        proof {
            assert(cs@.skip(n as int) =~= Seq::<char>::empty());
        }
    }
}

// ---------------------------------------------------------------------------
// Chunks
// ---------------------------------------------------------------------------

proof fn lemma_control_end_extends(a: Seq<char>, b: Seq<char>, e: int)
    requires
        0 <= e,
        control_end(a, e) < a.len(),
    ensures
        control_end(a + b, e) == control_end(a, e),
    decreases a.len() - e,
{
    if e < a.len() {
        assert((a + b)[e] == a[e]);
        if !is_letter(a[e]) && a[e] != '\u{1b}' {
            lemma_control_end_extends(a, b, e + 1);
        }
    }
}

proof fn lemma_command_end_extends(a: Seq<char>, b: Seq<char>, e: int)
    requires
        0 <= e,
        command_end(a, e) < a.len(),
    ensures
        command_end(a + b, e) == command_end(a, e),
    decreases a.len() - e,
{
    if e < a.len() {
        assert((a + b)[e] == a[e]);
        if e + 1 < a.len() {
            assert((a + b)[e + 1] == a[e + 1]);
        } else if a[e] == '\u{1b}' {
            assert(command_end(a, e) == command_end(a, e + 1));
        }
        if a[e] != '\u{7}' && !(a[e] == '\u{1b}' && e + 1 < a.len() && a[e + 1] == '\\') {
            lemma_command_end_extends(a, b, e + 1);
        }
    }
}

/// What a text decides is not changed by what follows it.
proof fn lemma_token_extends(a: Seq<char>, b: Seq<char>)
    requires
        a.len() > 0,
        !(token(a) is Wait),
    ensures
        token(a + b) == token(a),
{
    let t = a + b;
    assert(t[0] == a[0]);
    if a[0] == '\u{1b}' {
        assert(t[1] == a[1]);
        if a[1] == '[' {
            lemma_control_end(a, 2);
            lemma_control_end_extends(a, b, 2);
            let end = control_end(a, 2);
            assert(t[end] == a[end]);
            assert(t.subrange(2, end) =~= a.subrange(2, end));
        } else if a[1] == ']' {
            lemma_command_end(a, 2);
            lemma_command_end_extends(a, b, 2);
        }
    }
}

/// Where the output is cut into chunks does not matter: a chunk after another
/// gives what the two give at once.
pub proof fn chunks_do_not_matter(sc: ScreenView, a: Seq<char>, b: Seq<char>)
    ensures
        fed(sc, a + b) == fed(fed(sc, a).0, fed(sc, a).1 + b),
    decreases a.len(),
{
    if a.len() > 0 {
        lemma_token_len(a);
        if !(token(a) is Wait) {
            let n = token_len(token(a));
            lemma_token_extends(a, b);
            assert((a + b).skip(n) =~= a.skip(n) + b);
            chunks_do_not_matter(after_token(sc, token(a)), a.skip(n), b);
        }
    } else {
        assert(a + b =~= b);
        assert(fed(sc, a).1 + b =~= b);
    }
}

/// What waits goes on waiting until more comes.
pub proof fn what_waits_goes_on_waiting(sc: ScreenView, t: Seq<char>)
    ensures
        fed(fed(sc, t).0, fed(sc, t).1) == fed(sc, t),
{
    chunks_do_not_matter(sc, t, Seq::empty());
    assert(t + Seq::<char>::empty() =~= t);
    assert(fed(sc, t).1 + Seq::<char>::empty() =~= fed(sc, t).1);
}

impl AnsiParser {
    /// Reads what waits once more, at the end of the output.
    pub fn finish(&mut self, screen: &mut Screen)
        requires
            old(screen).bytes + 4 * old(self).pending@.len() <= usize::MAX,
        ensures
            old(self).pending@.len() == 0 ==> *final(self) == *old(self) && *final(screen) == *old(
                screen,
            ),
            old(self).pending@.len() > 0 ==> (
                screen_view(*final(self), *final(screen)),
                final(self).pending@,
            ) == fed(ready(screen_view(*old(self), *old(screen))), old(self).pending@),
    {
        if !self.pending.as_str().is_empty() {
            proof {
                assert(self.pending@ + ""@ =~= self.pending@) by {
                    reveal_strlit("");
                }
                reveal_strlit("");
            }
            self.feed("", screen);
        }
    }
}

/// The number of leading bytes, at most `n`, that are UTF-8.
pub open spec fn longest_valid(bytes: Seq<u8>, n: int) -> int
    decreases n,
{
    if n <= 0 {
        0
    } else if valid_utf8(bytes.take(n)) {
        n
    } else {
        longest_valid(bytes, n - 1)
    }
}

/// The text that bytes give now, and the bytes that wait for more: the longest
/// beginning that is UTF-8, and a replacement character for one byte that no
/// further bytes can mend.
pub open spec fn decoded(bytes: Seq<u8>) -> (Seq<char>, Seq<u8>) {
    if valid_utf8(bytes) {
        (decode_utf8(bytes), Seq::empty())
    } else {
        let v = longest_valid(bytes, bytes.len() as int);
        if utf8_fault(bytes).broken {
            (decode_utf8(bytes.take(v)).push('\u{fffd}'), bytes.skip(v + 1))
        } else {
            (decode_utf8(bytes.take(v)), bytes.skip(v))
        }
    }
}

proof fn lemma_longest_is(bytes: Seq<u8>, v: int, n: int)
    requires
        0 <= v <= n <= bytes.len(),
        valid_utf8(bytes.take(v)),
        forall|k: int| v < k <= n ==> !valid_utf8(#[trigger] bytes.take(k)),
    ensures
        longest_valid(bytes, n) == v,
    decreases n - v,
{
    if n > v {
        assert(!valid_utf8(bytes.take(n)));
        lemma_longest_is(bytes, v, n - 1);
    }
}

proof fn lemma_decoded_len(bytes: Seq<u8>)
    requires
        valid_utf8(bytes),
    ensures
        decode_utf8(bytes).len() <= bytes.len(),
{
    decode_utf8_encode_utf8(bytes);
    lemma_byte_len(decode_utf8(bytes));
}

fn take_decoded(pending: &mut Vec<u8>) -> (r: Option<String>)
    ensures
        final(pending)@ == decoded(old(pending)@).1,
        match r {
            Some(t) => t@ == decoded(old(pending)@).0 && t@.len() <= old(pending)@.len()
                && hands_on(old(pending)@),
            None => decoded(old(pending)@).0.len() == 0 && !valid_utf8(old(pending)@),
        },
{
    let ghost bytes = pending@;
    let read = utf8_text(pending);
    match read {
        Ok(s) => {
            proof {
                lemma_decoded_len(bytes);
            }
            *pending = Vec::new();
            proof {
                assert(pending@ =~= Seq::<u8>::empty());
            }
            Some(s)
        },
        Err(e) => {
            proof {
                lemma_longest_is(bytes, e.valid as int, bytes.len() as int);
                lemma_decoded_len(bytes.take(e.valid as int));
            }
            let rest = pending.split_off(e.valid);
            let head = utf8_text(pending);
            let mut text = match head {
                Ok(s) => s,
                Err(_) => String::new(),
            };
            proof {
                assert(pending@ =~= bytes.take(e.valid as int));
                assert(rest@ =~= bytes.skip(e.valid as int));
            }
            let mut rest = rest;
            if e.broken {
                text.push('\u{fffd}');
                let tail = rest.split_off(1);
                proof {
                    assert(tail@ =~= bytes.skip(e.valid + 1));
                }
                *pending = tail;
                Some(text)
            } else {
                *pending = rest;
                if e.valid > 0 {
                    proof {
                        assert(decode_utf8(bytes.take(e.valid as int)).len() > 0);
                    }
                    Some(text)
                } else {
                    proof {
                        assert(bytes.take(0) =~= Seq::<u8>::empty());
                    }
                    None
                }
            }
        },
    }
}

/// One of the two streams of the program: the bytes and the characters that
/// wait for more.
#[derive(Debug, PartialEq, Eq)]
pub struct Stream {
    pub pending: Vec<u8>,
    pub parser: AnsiParser,
}

/// Whether a text is handed on: none is where nothing could be decoded.
pub open spec fn hands_on(bytes: Seq<u8>) -> bool {
    valid_utf8(bytes) || decoded(bytes).0.len() > 0
}

/// The output after a text.
pub open spec fn shown_after(sc: ScreenView, waiting: Seq<char>, text: Seq<char>) -> (
    ScreenView,
    Seq<char>,
) {
    fed(ready(sc), waiting + text)
}

impl Stream {
    /// A stream of which nothing came yet.
    pub fn new() -> (r: Stream)
        ensures
            r.pending@.len() == 0,
            r.parser.style == plain_style(),
            r.parser.pending@.len() == 0,
    {
        Stream { pending: Vec::new(), parser: AnsiParser::new() }
    }

    /// Reads a chunk of bytes.
    pub fn append_output_bytes(&mut self, bytes: &Vec<u8>, screen: &mut Screen)
        requires
            old(screen).bytes + 4 * (old(self).parser.pending@.len() + old(self).pending@.len()
                + bytes@.len()) <= usize::MAX,
        ensures
            final(self).pending@ == decoded(old(self).pending@ + bytes@).1,
            hands_on(old(self).pending@ + bytes@) ==> (
                screen_view(final(self).parser, *final(screen)),
                final(self).parser.pending@,
            ) == shown_after(
                screen_view(old(self).parser, *old(screen)),
                old(self).parser.pending@,
                decoded(old(self).pending@ + bytes@).0,
            ),
            !hands_on(old(self).pending@ + bytes@) ==> final(self).parser == old(self).parser
                && *final(screen) == *old(screen),
    {
        let ghost all = self.pending@ + bytes@;
        let mut i: usize = 0;
        proof {
            assert(bytes@.take(0) =~= Seq::<u8>::empty());
            assert(self.pending@ + bytes@.take(0) =~= self.pending@);
        }
        while i < bytes.len()
            invariant
                i <= bytes@.len(),
                self.pending@ == old(self).pending@ + bytes@.take(i as int),
                self.parser == old(self).parser,
                *screen == *old(screen),
            decreases bytes@.len() - i,
        {
            self.pending.push(bytes[i]);
            proof {
                assert(bytes@.take(i + 1) =~= bytes@.take(i as int).push(bytes@[i as int]));
                assert(self.pending@ =~= old(self).pending@ + bytes@.take(i + 1));
            }
            i = i + 1;
        }
        proof {
            assert(bytes@.take(bytes@.len() as int) =~= bytes@);
            assert(self.pending@ =~= all);
        }
        match take_decoded(&mut self.pending) {
            Some(text) => {
                self.parser.feed(text.as_str(), screen);
            },
            None => {},
        }
    }
}

/// What `String::from_utf8_lossy` gives.
pub uninterp spec fn repaired_text(bytes: Seq<u8>) -> Seq<char>;

/// The text of bytes, with replacement characters where they are no UTF-8.
pub open spec fn lossy_of(bytes: Seq<u8>) -> Seq<char> {
    if valid_utf8(bytes) {
        decode_utf8(bytes)
    } else {
        repaired_text(bytes)
    }
}

/// `String::from_utf8_lossy`: a text that depends on the bytes alone and is
/// what they encode where they are UTF-8.
#[verifier::external_body]
pub(crate) fn lossy_text(bytes: &Vec<u8>) -> (r: String)
    ensures
        r@ == repaired_text(bytes@),
        valid_utf8(bytes@) ==> r@ == decode_utf8(bytes@),
{
    String::from_utf8_lossy(bytes).into_owned()
}

/// The output after the end of a stream, whose last bytes read as `text`.
pub open spec fn closed(sc: ScreenView, waiting: Seq<char>, text: Option<Seq<char>>) -> (
    ScreenView,
    Seq<char>,
) {
    let (a, w) = match text {
        Some(t) => shown_after(sc, waiting, t),
        None => (sc, waiting),
    };
    if w.len() > 0 {
        fed(ready(a), w)
    } else {
        (a, w)
    }
}

/// Whether a screen has room for as many more characters.
pub open spec fn has_room(screen: Screen, chars: nat) -> bool {
    screen.bytes + 4 * chars <= usize::MAX
}

proof fn lemma_fed_waits(sc: ScreenView, t: Seq<char>)
    ensures
        fed(sc, t).1.len() <= t.len(),
        fed(sc, t).0.bytes <= sc.bytes + 4 * (t.len() - fed(sc, t).1.len()),
    decreases t.len(),
{
    if t.len() > 0 {
        lemma_token_len(t);
        let n = token_len(token(t));
        if 0 < n {
            lemma_fed_waits(after_token(sc, token(t)), t.skip(n));
        }
    }
}

impl Stream {
    /// Ends the stream, whose waiting bytes read as `text`.
    pub fn close_with(&mut self, text: Option<&str>, screen: &mut Screen)
        requires
            has_room(
                *old(screen),
                old(self).parser.pending@.len() + (match text {
                    Some(t) => t@.len(),
                    None => 0,
                }),
            ),
        ensures
            final(self).pending@.len() == 0,
            (screen_view(final(self).parser, *final(screen)), final(self).parser.pending@)
                == closed(
                screen_view(old(self).parser, *old(screen)),
                old(self).parser.pending@,
                opt_str_view(text),
            ),
    {
        self.pending = Vec::new();
        match text {
            Some(t) => {
                proof {
                    lemma_fed_waits(
                        ready(screen_view(self.parser, *screen)),
                        self.parser.pending@ + t@,
                    );
                }
                self.parser.feed(t, screen);
            },
            None => {},
        }
        self.parser.finish(screen);
    }

    /// Ends the stream; whether there was room for what it holds. Where there
    /// was none, nothing changes.
    pub fn close(&mut self, screen: &mut Screen) -> (r: bool)
        ensures
            ({
                let text = if old(self).pending@.len() > 0 {
                    Some(lossy_of(old(self).pending@))
                } else {
                    None
                };
                &&& r == has_room(
                    *old(screen),
                    old(self).parser.pending@.len() + (match text {
                        Some(t) => t.len(),
                        None => 0,
                    }),
                )
                &&& r ==> {
                    &&& final(self).pending@.len() == 0
                    &&& (
                        screen_view(final(self).parser, *final(screen)),
                        final(self).parser.pending@,
                    ) == closed(
                        screen_view(old(self).parser, *old(screen)),
                        old(self).parser.pending@,
                        text,
                    )
                }
                &&& !r ==> *final(self) == *old(self) && *final(screen) == *old(screen)
            }),
    {
        let waiting: u128 = self.parser.pending.as_str().unicode_len() as u128;
        if self.pending.len() > 0 {
            let text = lossy_text(&self.pending);
            let more: u128 = text.as_str().unicode_len() as u128;
            if screen.bytes as u128 + 4 * (waiting + more) > usize::MAX as u128 {
                return false;
            }
            self.close_with(Some(text.as_str()), screen);
        } else {
            if screen.bytes as u128 + 4 * waiting > usize::MAX as u128 {
                return false;
            }
            self.close_with(None, screen);
        }
        true
    }
}

// ---------------------------------------------------------------------------
// Trimming
// ---------------------------------------------------------------------------

/// Bytes of output that are kept.
pub const OUTPUT_LIMIT: usize = 2_097_152;

/// A text without the leading characters that fit into `n` bytes.
pub open spec fn without_head(s: Seq<char>, n: nat) -> Seq<char> {
    let bytes = encode_utf8(s);
    decode_utf8(bytes.skip(edge_upto(bytes, n as int)))
}

/// The pieces of a line after `need` bytes were taken from its beginning, and
/// how many are still to be taken.
pub open spec fn trimmed_spans(spans: Seq<SpanView>, need: int) -> (Seq<SpanView>, int)
    decreases spans.len(),
{
    if need <= 0 || spans.len() == 0 {
        (spans, need)
    } else if utf8_len(spans[0].text) <= need {
        trimmed_spans(spans.drop_first(), need - utf8_len(spans[0].text))
    } else {
        (
            spans.update(
                0,
                SpanView { text: without_head(spans[0].text, need as nat), ..spans[0] },
            ),
            0,
        )
    }
}

/// The output within the limit: what is too much is taken from the first line,
/// which goes where nothing is left of it.
pub open spec fn trimmed_output(lines: Seq<Seq<SpanView>>, bytes: int) -> (
    Seq<Seq<SpanView>>,
    int,
) {
    if bytes <= OUTPUT_LIMIT || lines.len() == 0 {
        (lines, bytes)
    } else {
        let (spans, left) = trimmed_spans(lines[0], bytes - OUTPUT_LIMIT);
        (
            if spans.len() == 0 {
                lines.drop_first()
            } else {
                lines.update(0, spans)
            },
            OUTPUT_LIMIT + left,
        )
    }
}

fn cut_head(text: &str, n: usize) -> (r: String)
    requires
        n < utf8_len(text@),
    ensures
        r@ == without_head(text@, n as nat),
{
    let ghost bytes = encode_utf8(text@);
    let mut b: usize = n;
    proof {
        encode_utf8_valid_utf8(text@);
        is_char_boundary_start_end_of_seq(bytes);
    }
    while b > 0 && !text.is_char_boundary(b)
        invariant
            bytes == encode_utf8(text@),
            b <= n < bytes.len(),
            edge_upto(bytes, b as int) == edge_upto(bytes, n as int),
        decreases b,
    {
        b = b - 1;
    }
    let (_, tail) = text.split_at(b);
    proof {
        encode_utf8_decode_utf8(tail@);
        assert(bytes.subrange(b as int, bytes.len() as int) =~= bytes.skip(b as int));
    }
    tail.to_owned()
}

fn trim_spans(spans: &mut Vec<OutputSpan>, need: usize) -> (r: usize)
    ensures
        (spans_view(final(spans)@), r as int) == trimmed_spans(
            spans_view(old(spans)@),
            need as int,
        ),
        r <= need,
{
    let mut left: usize = need;
    while left > 0 && spans.len() > 0
        invariant
            left <= need,
            trimmed_spans(spans_view(spans@), left as int) == trimmed_spans(
                spans_view(old(spans)@),
                need as int,
            ),
        decreases spans@.len(),
    {
        let ghost before = spans_view(spans@);
        let first = spans.remove(0);
        let n: usize = byte_len(first.text.as_str());
        proof {
            assert(before[0] == first@);
            assert(spans_view(spans@) =~= before.drop_first());
        }
        if n <= left {
            left = left - n;
        } else {
            let text = cut_head(first.text.as_str(), left);
            let ghost cut = SpanView { text: text@, style: first.style };
            spans.insert(0, OutputSpan { text, style: first.style });
            proof {
                assert(spans_view(spans@) =~= before.update(0, cut));
            }
            return 0;
        }
    }
    left
}

impl Screen {
    /// Keeps the output within its limit.
    pub fn trim_output(&mut self)
        ensures
            (output_view(final(self).lines@), final(self).bytes as int) == trimmed_output(
                output_view(old(self).lines@),
                old(self).bytes as int,
            ),
    {
        if self.bytes <= OUTPUT_LIMIT || self.lines.len() == 0 {
            proof {
                assert(output_view(self.lines@).len() == self.lines@.len());
            }
            return;
        }
        let ghost before = output_view(self.lines@);
        let mut first = self.lines.remove(0);
        let ghost spans = first@;
        let left: usize = trim_spans(&mut first.spans, self.bytes - OUTPUT_LIMIT);
        self.bytes = OUTPUT_LIMIT + left;
        proof {
            assert(before[0] == spans);
            assert(output_view(self.lines@) =~= before.drop_first());
            assert(first@ == spans_view(first.spans@));
            assert(first@.len() == first.spans@.len());
        }
        if first.spans.len() > 0 {
            let ghost kept = first@;
            self.lines.insert(0, first);
            proof {
                assert(output_view(self.lines@) =~= before.update(0, kept));
            }
        }
    }
}

proof fn lemma_trimmed_spans(spans: Seq<SpanView>, need: int)
    requires
        0 <= need,
    ensures
        0 <= trimmed_spans(spans, need).1 <= need,
        trimmed_spans(spans, need).1 > 0 ==> trimmed_spans(spans, need).0.len() == 0,
    decreases spans.len(),
{
    if need > 0 && spans.len() > 0 && utf8_len(spans[0].text) <= need {
        lemma_trimmed_spans(spans.drop_first(), need - utf8_len(spans[0].text));
    }
}

/// Trimming never counts more than before; output over the limit comes down to
/// it, or loses its first line.
pub proof fn trimming_comes_down(lines: Seq<Seq<SpanView>>, bytes: int)
    requires
        lines.len() > 0,
        bytes > OUTPUT_LIMIT,
    ensures
        trimmed_output(lines, bytes).1 <= bytes,
        trimmed_output(lines, bytes).1 == OUTPUT_LIMIT || trimmed_output(lines, bytes).0
            == lines.drop_first(),
{
    lemma_trimmed_spans(lines[0], bytes - OUTPUT_LIMIT);
}

// ---------------------------------------------------------------------------
// The todo workspace
// ---------------------------------------------------------------------------

/// Whether a todo mode has a workspace to show.
pub fn is_todo_mode(todo_mode: u8) -> (r: bool)
    ensures
        r == (todo_mode == 1 || todo_mode == 2),
{
    todo_mode == 1 || todo_mode == 2
}

/// How far the tasks of a plan are.
#[derive(Debug, PartialEq, Eq)]
pub struct TaskSummary {
    pub total: usize,
    pub completed: usize,
    pub pending: usize,
    pub next_task: Option<String>,
}

/// How far the tasks of a plan are.
pub struct SummaryView {
    pub completed: int,
    pub pending: int,
    pub next_task: Option<Seq<char>>,
}

/// Where the list of tasks begins: behind the first heading of that name.
pub open spec fn tasks_start(lines: Seq<Seq<char>>, i: int) -> int
    decreases lines.len() - i,
{
    if i < 0 || i >= lines.len() {
        lines.len() as int
    } else if "## Tasks"@.is_prefix_of(trimmed(lines[i])) {
        i + 1
    } else {
        tasks_start(lines, i + 1)
    }
}

/// Where the list of tasks ends: at the next heading that is not again of that
/// name.
pub open spec fn tasks_end(lines: Seq<Seq<char>>, i: int) -> int
    decreases lines.len() - i,
{
    if i < 0 || i >= lines.len() {
        lines.len() as int
    } else if "##"@.is_prefix_of(trimmed(lines[i])) && !"## Tasks"@.is_prefix_of(
        trimmed(lines[i]),
    ) {
        i
    } else {
        tasks_end(lines, i + 1)
    }
}

/// Whether a line is a completed task.
pub open spec fn is_completed_task(line: Seq<char>) -> bool {
    "- [x]"@.is_prefix_of(trimmed(line))
}

/// The task that a line leaves open.
pub open spec fn open_task(line: Seq<char>) -> Option<Seq<char>> {
    match after_prefix(trimmed(line), "- [ ]"@) {
        Some(d) => Some(trimmed(d)),
        None => None,
    }
}

/// How far the tasks on the lines from `from` up to `to` are.
pub open spec fn summary_of(lines: Seq<Seq<char>>, from: int, to: int) -> SummaryView
    decreases to - from,
{
    if from >= to {
        SummaryView { completed: 0, pending: 0, next_task: None }
    } else {
        let s = summary_of(lines, from, to - 1);
        if is_completed_task(lines[to - 1]) {
            SummaryView { completed: s.completed + 1, ..s }
        } else {
            match open_task(lines[to - 1]) {
                Some(d) => SummaryView {
                    completed: s.completed,
                    pending: s.pending + 1,
                    next_task: if s.next_task is None {
                        Some(d)
                    } else {
                        s.next_task
                    },
                },
                None => s,
            }
        }
    }
}

/// How far the tasks of a plan are: those in the list of tasks.
pub open spec fn task_summary(todo: Seq<char>) -> SummaryView {
    let all = lines_of(todo);
    let start = tasks_start(all, 0);
    summary_of(all, start, tasks_end(all, start))
}

proof fn lemma_tasks_start(lines: Seq<Seq<char>>, i: int)
    requires
        0 <= i <= lines.len(),
    ensures
        i <= tasks_start(lines, i) <= lines.len(),
    decreases lines.len() - i,
{
    if i < lines.len() && !"## Tasks"@.is_prefix_of(trimmed(lines[i])) {
        lemma_tasks_start(lines, i + 1);
    }
}

/// Counts the tasks of a plan and finds the next one.
pub fn parse_task_summary(todo_md: &str) -> (r: TaskSummary)
    ensures
        r.completed == task_summary(todo_md@).completed,
        r.pending == task_summary(todo_md@).pending,
        r.total == r.completed + r.pending,
        opt_view(r.next_task) == task_summary(todo_md@).next_task,
{
    let list = lines(todo_md);
    let ghost all = views(list@);
    let n: usize = list.len();
    let mut i: usize = 0;
    while i < n && !starts_with(trim(list[i].as_str()), "## Tasks")
        invariant
            i <= n,
            n == list@.len(),
            all == views(list@),
            tasks_start(all, i as int) == tasks_start(all, 0),
        decreases n - i,
    {
        i = i + 1;
    }
    if i < n {
        i = i + 1;
    }
    let ghost start = tasks_start(all, 0);
    proof {
        lemma_tasks_start(all, 0);
        assert(start == i);
    }
    let mut summary = TaskSummary { total: 0, completed: 0, pending: 0, next_task: None };
    while i < n
        invariant
            start <= i <= n,
            0 <= start,
            n == list@.len(),
            all == views(list@),
            all == lines_of(todo_md@),
            start == tasks_start(all, 0),
            tasks_end(all, i as int) == tasks_end(all, start),
            summary.completed == summary_of(all, start, i as int).completed,
            summary.pending == summary_of(all, start, i as int).pending,
            summary.total == summary.completed + summary.pending,
            summary.total <= i,
            opt_view(summary.next_task) == summary_of(all, start, i as int).next_task,
        decreases n - i,
    {
        let line = trim(list[i].as_str());
        proof {
            assert(all[i as int] == list@[i as int]@);
            lemma_heading_is_no_task(line@);
        }
        if starts_with(line, "## Tasks") {
            i = i + 1;
            continue;
        }
        if starts_with(line, "##") {
            return summary;
        }
        if starts_with(line, "- [x]") {
            summary.total = summary.total + 1;
            summary.completed = summary.completed + 1;
        } else {
            match strip_prefix(line, "- [ ]") {
                Some(d) => {
                    summary.total = summary.total + 1;
                    summary.pending = summary.pending + 1;
                    if summary.next_task.is_none() {
                        summary.next_task = Some(trim(d).to_owned());
                    }
                },
                None => {},
            }
        }
        i = i + 1;
    }
    summary
}

proof fn lemma_heading_is_no_task(line: Seq<char>)
    ensures
        "## Tasks"@.is_prefix_of(line) ==> !"- [x]"@.is_prefix_of(line) && after_prefix(
            line,
            "- [ ]"@,
        ) is None,
{
    reveal_strlit("## Tasks");
    reveal_strlit("- [x]");
    reveal_strlit("- [ ]");
    if "## Tasks"@.is_prefix_of(line) {
        assert(line.subrange(0, 8)[0] == line[0]);
        assert("## Tasks"@[0] == '#');
        if "- [x]"@.is_prefix_of(line) {
            assert(line.subrange(0, 5)[0] == line[0]);
            assert("- [x]"@[0] == '-');
        }
        if "- [ ]"@.is_prefix_of(line) {
            assert(line.subrange(0, 5)[0] == line[0]);
            assert("- [ ]"@[0] == '-');
        }
    }
}

/// The lines on the progress of a plan.
pub fn progress_text(summary: &TaskSummary) -> (r: String)
    ensures
        r@ == "Progress: "@ + decimal(summary.completed as nat) + " / "@ + decimal(
            summary.total as nat,
        ) + " ("@ + decimal(summary.pending as nat) + " pending)"@,
{
    let a = usize_text(summary.completed);
    let b = usize_text(summary.total);
    let c = usize_text(summary.pending);
    let mut s = String::from_str("Progress: ");
    s.append(a.as_str());
    s.append(" / ");
    s.append(b.as_str());
    s.append(" (");
    s.append(c.as_str());
    s.append(" pending)");
    s
}

/// What is shown of an exit of the program.
pub fn exit_notice(status: &str) -> (r: String)
    ensures
        r@ == "\n[CLI process exited: "@ + status@ + "]\n"@,
{
    let mut s = String::from_str("\n[CLI process exited: ");
    s.append(status);
    s.append("]\n");
    s
}

/// What is shown of an error in reading the output of the program.
pub fn read_error_notice(why: &str) -> (r: String)
    ensures
        r@ == "\n[process read error] "@ + why@ + "\n"@,
{
    let mut s = String::from_str("\n[process read error] ");
    s.append(why);
    s.append("\n");
    s
}

/// Whether an input is sent to the program.
pub fn sends_input(input: &str, running: bool) -> (r: bool)
    ensures
        r == (trimmed(input@).len() > 0 && running),
{
    running && !trim(input).is_empty()
}

} // verus!
