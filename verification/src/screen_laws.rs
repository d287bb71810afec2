//! Laws of the graphical shell: all that a program prints is shown, in its style, and
//! nothing that is meant for the terminal is.

use vstd::prelude::*;
use vstd::string::*;

use crate::gui::{
    after_token, basic_colour, fed, is_completed_task, open_task, parameters, plain_style, put_char,
    restyled, spelled_colour, styled, summary_of, tasks_end, tasks_start, token, trimmed_output,
    value_at, Colour, OutputStyle, ScreenView, SpanView, Token, OUTPUT_LIMIT,
};
use crate::text::{is_letter, trimmed};
use crate::text_laws::{lemma_run_push, run_together};

verus! {

/// The text of a line.
pub open spec fn text_of(line: Seq<SpanView>) -> Seq<char> {
    run_together(line.map_values(|s: SpanView| s.text))
}

proof fn lemma_put(line: Seq<SpanView>, style: OutputStyle, c: char)
    ensures
        text_of(put_char(line, style, c)) == text_of(line).push(c),
        put_char(line, style, c).len() > 0,
        put_char(line, style, c).last().style == style,
{
    let f = |s: SpanView| s.text;
    let out = put_char(line, style, c);
    if line.len() > 0 && line.last().style == style {
        let head = line.drop_last();
        assert(line.map_values(f) =~= head.map_values(f).push(line.last().text));
        assert(out.map_values(f) =~= head.map_values(f).push(line.last().text.push(c)));
        lemma_run_push(head.map_values(f), line.last().text);
        lemma_run_push(head.map_values(f), line.last().text.push(c));
        assert(run_together(head.map_values(f)) + line.last().text.push(c) =~= (run_together(
            head.map_values(f),
        ) + line.last().text).push(c));
    } else {
        assert(out.map_values(f) =~= line.map_values(f).push(seq![c]));
        lemma_run_push(line.map_values(f), seq![c]);
        assert(text_of(line) + seq![c] =~= text_of(line).push(c));
    }
}

/// Whether a text holds no line feed, carriage return or escape.
pub open spec fn is_printable(t: Seq<char>) -> bool {
    forall|i: int|
        0 <= i < t.len() ==> #[trigger] t[i] != '\n' && t[i] != '\r' && t[i] != '\u{1b}'
}

/// Printed text is shown at the end of the last line, all of it and in the present
/// style; the lines above stay, and nothing waits.
pub proof fn printed_text_is_shown(sc: ScreenView, t: Seq<char>)
    requires
        sc.lines.len() > 0,
        is_printable(t),
    ensures
        ({
            let (out, waiting) = fed(sc, t);
            &&& waiting.len() == 0
            &&& out.style == sc.style
            &&& out.lines.len() == sc.lines.len()
            &&& forall|i: int|
                0 <= i < sc.lines.len() - 1 ==> #[trigger] out.lines[i] == sc.lines[i]
            &&& text_of(out.lines.last()) == text_of(sc.lines.last()) + t
            &&& t.len() > 0 ==> out.lines.last().len() > 0 && out.lines.last().last().style
                == sc.style
        }),
    decreases t.len(),
{
    if t.len() == 0 {
        assert(text_of(sc.lines.last()) + t =~= text_of(sc.lines.last()));
    } else {
        let c = t[0];
        assert(c != '\n' && c != '\r' && c != '\u{1b}');
        let k = token(t);
        assert(k == Token::Put(c));
        let next = after_token(sc, k);
        let rest = t.skip(1);
        assert(is_printable(rest)) by {
            assert forall|i: int| 0 <= i < rest.len() implies #[trigger] rest[i] != '\n' && rest[i]
                != '\r' && rest[i] != '\u{1b}' by {
                assert(rest[i] == t[i + 1]);
            }
        }
        lemma_put(sc.lines.last(), sc.style, c);
        assert(next.lines.last() == put_char(sc.lines.last(), sc.style, c));
        printed_text_is_shown(next, rest);
        assert(fed(sc, t) == fed(next, rest));
        assert(text_of(sc.lines.last()).push(c) + rest =~= text_of(sc.lines.last()) + t);
        let out = fed(sc, t).0;
        if rest.len() == 0 {
            assert(out == next);
        }
        assert forall|i: int| 0 <= i < sc.lines.len() - 1 implies #[trigger] out.lines[i]
            == sc.lines[i] by {
            assert(next.lines[i] == sc.lines[i]);
        }
    }
}

/// A line feed starts a line and a carriage return does nothing; the style stays.
pub proof fn line_feeds_start_a_line(sc: ScreenView, t: Seq<char>)
    requires
        t.len() > 0,
    ensures
        t[0] == '\n' ==> fed(sc, t) == fed(
            ScreenView { lines: sc.lines.push(Seq::empty()), ..sc },
            t.skip(1),
        ),
        t[0] == '\r' ==> fed(sc, t) == fed(sc, t.skip(1)),
{
}

/// Whether a text can stand between the beginning and the end of a control sequence.
pub open spec fn is_inner(p: Seq<char>) -> bool {
    forall|i: int| 0 <= i < p.len() ==> !is_letter(#[trigger] p[i]) && p[i] != '\u{1b}'
}

proof fn lemma_control(p: Seq<char>, c: char, rest: Seq<char>, i: int)
    requires
        is_inner(p),
        is_letter(c),
        0 <= i <= p.len(),
    ensures
        ({
            let t = seq!['\u{1b}', '['] + p + seq![c] + rest;
            crate::gui::control_end(t, 2 + i) == 2 + p.len()
        }),
    decreases p.len() - i,
{
    let t = seq!['\u{1b}', '['] + p + seq![c] + rest;
    if i < p.len() {
        assert(t[2 + i] == p[i]);
        lemma_control(p, c, rest, i + 1);
    } else {
        assert(t[2 + i] == c);
    }
}

/// A sequence that sets the style sets it and shows nothing; any other control sequence
/// does nothing at all.
pub proof fn control_sequences_show_nothing(
    sc: ScreenView,
    p: Seq<char>,
    c: char,
    rest: Seq<char>,
)
    requires
        is_inner(p),
        is_letter(c),
    ensures
        ({
            let t = seq!['\u{1b}', '['] + p + seq![c] + rest;
            fed(sc, t) == fed(
                if c == 'm' {
                    ScreenView { style: styled(sc.style, parameters(p), 0), ..sc }
                } else {
                    sc
                },
                rest,
            )
        }),
{
    let t = seq!['\u{1b}', '['] + p + seq![c] + rest;
    lemma_control(p, c, rest, 0);
    let end: int = 2 + p.len() as int;
    assert(t[0] == '\u{1b}' && t[1] == '[');
    assert(t[end] == c);
    assert(t.subrange(2, end) =~= p);
    assert(t.skip(end + 1) =~= rest);
}

// ---------------------------------------------------------------------------
// Styles
// ---------------------------------------------------------------------------

/// Each value changes what it stands for and nothing else: zero takes everything back,
/// and what one value sets another takes back.
pub proof fn values_change_their_own(style: OutputStyle, v: int)
    ensures
        restyled(style, 0) == plain_style(),
        restyled(style, 1) == (OutputStyle { bold: true, ..style }),
        restyled(style, 2) == (OutputStyle { dim: true, ..style }),
        restyled(style, 3) == (OutputStyle { italic: true, ..style }),
        restyled(style, 4) == (OutputStyle { underline: true, ..style }),
        restyled(restyled(style, 1), 22).bold == false,
        restyled(restyled(style, 2), 22).dim == false,
        restyled(restyled(style, 3), 23).italic == false,
        restyled(restyled(style, 4), 24).underline == false,
        restyled(style, 39) == (OutputStyle { foreground: None, ..style }),
        restyled(style, 49) == (OutputStyle { background: None, ..style }),
        30 <= v <= 37 ==> restyled(style, v) == (OutputStyle {
            foreground: basic_colour(v - 30, false),
            ..style
        }),
        40 <= v <= 47 ==> restyled(style, v) == (OutputStyle {
            background: basic_colour(v - 40, false),
            ..style
        }),
        90 <= v <= 97 ==> restyled(style, v) == (OutputStyle {
            foreground: basic_colour(v - 90, true),
            ..style
        }),
        100 <= v <= 107 ==> restyled(style, v) == (OutputStyle {
            background: basic_colour(v - 100, true),
            ..style
        }),
        v > 107 ==> restyled(style, v) == style,
{
}

/// Simple values are taken one after the other.
pub proof fn values_are_taken_in_turn(style: OutputStyle, values: Seq<u16>, i: int)
    requires
        0 <= i < values.len(),
        values[i] != 38,
        values[i] != 48,
    ensures
        styled(style, values, i) == styled(restyled(style, values[i] as int), values, i + 1),
        styled(style, values, values.len() as int) == style,
{
}

/// A colour that is spelled out by its parts is taken as it is.
pub proof fn spelled_colours_are_taken(style: OutputStyle, back: bool, r: u8, g: u8, b: u8)
    ensures
        ({
            let values = seq![
                if back {
                    48u16
                } else {
                    38u16
                },
                2u16,
                r as u16,
                g as u16,
                b as u16,
            ];
            let c = Some(Colour { red: r, green: g, blue: b });
            styled(style, values, 0) == if back {
                OutputStyle { background: c, ..style }
            } else {
                OutputStyle { foreground: c, ..style }
            }
        }),
{
    let values = seq![
        if back {
            48u16
        } else {
            38u16
        },
        2u16,
        r as u16,
        g as u16,
        b as u16,
    ];
    assert(value_at(values, 1) == Some(2int));
    assert(value_at(values, 2) == Some(r as int));
    assert(value_at(values, 3) == Some(g as int));
    assert(value_at(values, 4) == Some(b as int));
    assert(spelled_colour(values, 1) == Some((Colour { red: r, green: g, blue: b }, 5int)));
}

// ---------------------------------------------------------------------------
// What is kept
// ---------------------------------------------------------------------------

/// Output within the limit is kept whole, and of more than that only the first line
/// loses something.
pub proof fn only_the_first_line_is_trimmed(
    lines: Seq<Seq<SpanView>>,
    bytes: int,
    i: int,
)
    requires
        lines.len() > 0,
    ensures
        bytes <= OUTPUT_LIMIT ==> trimmed_output(lines, bytes) == (lines, bytes),
        ({
            let out = trimmed_output(lines, bytes).0;
            let gone = lines.len() - out.len();
            &&& gone == 0 || gone == 1
            &&& 0 < i < lines.len() ==> out[i - gone] == lines[i]
        }),
{
}

// ---------------------------------------------------------------------------
// Tasks
// ---------------------------------------------------------------------------

/// Every line of the list of tasks counts as what it is: a completed task, an open one,
/// or none. The next task is the first that is open.
pub proof fn tasks_are_counted(lines: Seq<Seq<char>>, from: int, to: int)
    requires
        0 <= from < to <= lines.len(),
    ensures
        ({
            let s = summary_of(lines, from, to);
            let before = summary_of(lines, from, to - 1);
            let line = lines[to - 1];
            let is_open = !is_completed_task(line) && open_task(line) is Some;
            &&& s.completed == before.completed + if is_completed_task(line) {
                1int
            } else {
                0int
            }
            &&& s.pending == before.pending + if is_open {
                1int
            } else {
                0int
            }
            &&& before.next_task is Some ==> s.next_task == before.next_task
            &&& before.next_task is None && is_open ==> s.next_task == open_task(line)
            &&& before.next_task is None && !is_open ==> s.next_task is None
        }),
        summary_of(lines, from, from).completed == 0,
        summary_of(lines, from, from).pending == 0,
        summary_of(lines, from, from).next_task is None,
{
}

/// A task that is checked is completed, one that is not is open, with the text behind
/// its box.
pub proof fn boxes_tell_tasks_apart(text: Seq<char>)
    requires
        text.len() > 0,
        !crate::text::is_space(text[0]),
        !crate::text::is_space(text.last()),
    ensures
        is_completed_task("- [x] "@ + text),
        !is_completed_task("- [ ] "@ + text),
        open_task("- [ ] "@ + text) == Some(text),
        open_task("- [x] "@ + text) is None,
{
    reveal_strlit("- [x] ");
    reveal_strlit("- [ ] ");
    reveal_strlit("- [x]");
    reveal_strlit("- [ ]");
    let a = "- [x] "@ + text;
    let b = "- [ ] "@ + text;
    lemma_whole(a);
    lemma_whole(b);
    lemma_whole(text);
    assert(a.subrange(0, 5) =~= "- [x]"@);
    assert(b.subrange(0, 5) =~= "- [ ]"@);
    assert(a[3] == 'x' && b[3] == ' ');
    assert("- [x]"@[3] == 'x' && "- [ ]"@[3] == ' ');
    let rest = b.skip(5);
    assert(rest =~= seq![' '] + text);
    assert(rest[0] == ' ' && rest[1] == text[0]);
    assert(crate::text::space_end(rest, 1) == 1);
    assert(crate::text::space_end(rest, 0) == 1);
    assert(rest.skip(1) =~= text);
    assert(crate::text::trimmed_start(rest) =~= text);
    assert(crate::text::text_end(text, text.len() as int) == text.len());
    assert(trimmed(rest) =~= text);
}

proof fn lemma_whole(s: Seq<char>)
    requires
        s.len() > 0,
        !crate::text::is_space(s[0]),
        !crate::text::is_space(s.last()),
    ensures
        trimmed(s) == s,
{
    assert(crate::text::space_end(s, 0) == 0);
    assert(crate::text::trimmed_start(s) =~= s);
    assert(crate::text::text_end(s, s.len() as int) == s.len());
    assert(s.take(s.len() as int) =~= s);
}

/// The tasks begin behind the heading of that name and end at the next one.
pub proof fn tasks_stand_under_their_heading(lines: Seq<Seq<char>>, i: int)
    requires
        0 <= i <= lines.len(),
    ensures
        i <= tasks_start(lines, i) <= lines.len(),
        i <= tasks_end(lines, i) <= lines.len(),
        forall|k: int|
            i <= k < tasks_start(lines, i) - 1 ==> !"## Tasks"@.is_prefix_of(
                trimmed(#[trigger] lines[k]),
            ),
        forall|k: int|
            i <= k < tasks_end(lines, i) ==> !"##"@.is_prefix_of(trimmed(#[trigger] lines[k]))
                || "## Tasks"@.is_prefix_of(trimmed(lines[k])),
        tasks_end(lines, i) < lines.len() ==> "##"@.is_prefix_of(
            trimmed(lines[tasks_end(lines, i)]),
        ),
    decreases lines.len() - i,
{
    if i < lines.len() {
        tasks_stand_under_their_heading(lines, i + 1);
    }
}

} // verus!
