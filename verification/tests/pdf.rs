//! Review documents of PDF files.

use always_goofy_things::file_pdf::{
    after_taken, annotation_note, collapse_blank_lines, converted_name, converted_notice, fmt_pages, image_note,
    link_note, number_of, parse_page_number, parse_total, push_chrome, range_str, render_outline,
    resolve_range, table_is_shown, AnnotationData, Chrome, Extra, OutlineNode, PageData, PageSheet,
    RegionData, RegionKind,
};
use always_goofy_things::pdf_body::{
    assemble_lines, build_events, build_marked, check_list_sequence, render_event, render_table,
    strip_marker, styled_text, Cell, ContentEvent, ListItem, Rise, Span, TableData, TextLine,
};
use always_goofy_things::pdf_facts::{
    build_runs, extract_text_from_pdf, note_on_labels, render_runs, DocMeta, FormatFacts,
    LabelRange, LabelStyle,
};

fn span(text: &str, line_key: i64, order: u64) -> Span {
    Span {
        text: text.to_string(),
        rise: Rise::Level,
        bold: false,
        italic: false,
        mono: false,
        line_key,
        order,
        in_table: false,
    }
}

/// Lines with the given indents, each close to the one before.
fn lines(list: &[(&str, usize)]) -> Vec<TextLine> {
    list.iter()
        .map(|(text, indent)| TextLine {
            text: text.to_string(),
            raw: text.to_string(),
            close: true,
            apart: false,
            indent: *indent,
            not_left_of: list.iter().map(|(_, other)| indent >= other).collect(),
            level_with: list.iter().map(|(_, other)| indent == other).collect(),
        })
        .collect()
}

fn item(level: usize, marker: &str, text: &str) -> ListItem {
    ListItem { level, marker: marker.to_string(), text: text.to_string() }
}

fn no_meta() -> DocMeta {
    DocMeta {
        producer: None,
        creator: None,
        title: None,
        authors: Vec::new(),
        page_labels: Vec::new(),
        outline: None,
    }
}

fn region(kind: RegionKind, text: &str) -> RegionData {
    RegionData { kind, text: text.to_string(), section: None, extras_above: 0, lines: Vec::new() }
}

fn page(regions: Vec<RegionData>) -> PageData {
    PageData { regions, extras: Vec::new(), images: Vec::new(), annotations: Vec::new() }
}

#[test]
fn page_ranges_are_resolved() {
    assert_eq!(resolve_range(None, 7), Ok((1, 7)));
    assert_eq!(resolve_range(Some((2, 3)), 7), Ok((2, 3)));
    assert_eq!(
        resolve_range(Some((3, 2)), 7),
        Err("Invalid page range: p.3-p.2 (1-based, start must be <= end)".to_string())
    );
    assert_eq!(
        resolve_range(Some((0, 2)), 7),
        Err("Invalid page range: p.0-p.2 (1-based, start must be <= end)".to_string())
    );
    assert_eq!(
        resolve_range(Some((2, 8)), 7),
        Err("Invalid page range: p.2-p.8 exceeds 7 pages".to_string())
    );
}

#[test]
fn pages_are_listed_with_ranges() {
    assert_eq!(fmt_pages(&vec![1, 2, 3, 5, 7, 8]), "p.1-p.3, p.5, p.7-p.8");
    assert_eq!(fmt_pages(&Vec::new()), "");
    assert_eq!(range_str(3, 3), "p.3");
    assert_eq!(range_str(3, 7), "p.3-p.7");
}

#[test]
fn numbers_are_found_in_page_numbers() {
    assert_eq!(parse_page_number("Page 3 of 42"), Some(3));
    assert_eq!(parse_page_number("iv"), None);
    assert_eq!(parse_page_number("99999999999"), None);
    assert_eq!(parse_page_number("\u{7b2c}12\u{9801}"), Some(12));
    assert_eq!(parse_total("Page 3 of 42"), Some(42));
    assert_eq!(parse_total("3/ 42"), Some(42));
    assert_eq!(parse_total("1 x 2/5"), Some(5));
    assert_eq!(parse_total("3 42"), None);
    assert_eq!(number_of(&Some("7".to_string())), Some(7));
    assert_eq!(number_of(&None), None);
}

#[test]
fn spans_become_lines() {
    let mut bold = span("b", 10, 2);
    bold.bold = true;
    bold.italic = true;
    let mut code = span(" c ", 10, 3);
    code.mono = true;
    let mut sup = span("2", 5, 1);
    sup.rise = Rise::Superscript;
    let mut sub = span("i", 5, 2);
    sub.rise = Rise::Subscript;
    let mut cell = span("in a table", 10, 0);
    cell.in_table = true;
    assert_eq!(styled_text(&bold), "***b***");
    assert_eq!(styled_text(&span("  ", 0, 0)), "");
    let got = assemble_lines(&vec![sub, bold, code, span("a", 10, 1), sup, cell]);
    assert_eq!(got.len(), 2);
    assert_eq!(got[0].text, "a ***b*** `c`");
    assert_eq!(got[0].raw, "a b c");
    assert_eq!(got[0].spans, vec![3, 1, 2]);
    assert_eq!(got[1].text, "^2^ ~i~");
}

#[test]
fn lists_are_nested_by_indent() {
    let (events, notes) = build_events(&lines(&[
        ("Intro", 0),
        ("more", 0),
        ("1. one", 1),
        ("- inner", 2),
        ("rest", 2),
        ("3. three", 1),
    ]));
    assert_eq!(
        events,
        vec![
            ContentEvent::Paragraph("Intro more".to_string()),
            ContentEvent::ListBlock(vec![
                item(0, "1.", "one"),
                item(1, "-", "inner rest"),
                item(0, "3.", "three"),
            ]),
        ]
    );
    assert_eq!(notes, vec!["markers 1, 3".to_string()]);
    assert_eq!(render_event(&events[1]), "1. one\n  - inner rest\n3. three");
}

#[test]
fn markers_stand_at_the_start_of_a_line() {
    let marker = |line: &str| match build_events(&lines(&[(line, 0)])).0.remove(0) {
        ContentEvent::ListBlock(items) => Some(items[0].marker.clone()),
        _ => None,
    };
    assert_eq!(marker("* x"), Some("*".to_string()));
    assert_eq!(marker("123) x"), Some("123)".to_string()));
    assert_eq!(marker("1234) x"), None);
    assert_eq!(marker("a. x"), Some("a.".to_string()));
    assert_eq!(marker("ab. x"), None);
    assert_eq!(marker("(iv) x"), Some("(iv)".to_string()));
    assert_eq!(marker("() x"), None);
    assert_eq!(marker("-x"), None);
    assert_eq!(marker("-"), Some("-".to_string()));
    assert_eq!(marker("\u{2022} x"), Some("\u{2022}".to_string()));
}

#[test]
fn blocks_follow_the_given_markers() {
    let mut l = lines(&[("1. one", 0), ("two", 0)]);
    l[1].apart = true;
    l[1].close = false;
    let (events, _) = build_marked(&l, &vec![None, None]);
    assert_eq!(
        events,
        vec![
            ContentEvent::Paragraph("1. one".to_string()),
            ContentEvent::Paragraph("two".to_string()),
        ]
    );
    let (events, _) = build_marked(&l, &vec![Some("1.".to_string()), None]);
    assert_eq!(events[0], ContentEvent::ListBlock(vec![item(0, "1.", "one")]));
    assert_eq!(strip_marker("**1.**", "1."), "**");
    assert_eq!(strip_marker("1.  ", "1."), "1.  ");
    assert_eq!(strip_marker(" x ", "1."), " x ");
}

#[test]
fn list_numbers_go_up_by_one() {
    let mut notes: Vec<String> = Vec::new();
    check_list_sequence(&vec![item(0, "1.", ""), item(1, "7.", ""), item(0, "2)", "")], &mut notes);
    assert!(notes.is_empty());
    check_list_sequence(&vec![item(0, "2.", ""), item(0, "1.", "")], &mut notes);
    assert_eq!(notes, vec!["markers 2, 1".to_string()]);
}

#[test]
fn tables_become_markdown() {
    let cell = |text: &str| Cell { text: text.to_string(), colspan: 1, rowspan: 1 };
    let mut wide = cell("x\ny");
    wide.colspan = 2;
    wide.rowspan = 3;
    let t = TableData {
        rows: vec![vec![cell("a|b"), cell("c")], vec![wide]],
        col_count: 2,
        has_header: true,
    };
    assert_eq!(
        render_table(&t),
        "| a\\|b | c |\n|---|---|\n| x y (colspan 2) (rowspan 3) |  |\n"
    );
    assert!(table_is_shown(&t));
}

#[test]
fn blank_lines_are_collapsed() {
    assert_eq!(collapse_blank_lines("a\n\n \n\nb\n\n"), "a\n\nb\n");
    assert_eq!(collapse_blank_lines(""), "\n");
    for s in ["", "\n\n", "a", " \n\n a \n \n\nb\nc\n\n", "\n\na\n"] {
        let r = collapse_blank_lines(s);
        assert_eq!(collapse_blank_lines(&r), r);
        assert!(r.ends_with('\n') && !r.ends_with("\n\n"));
        assert!(!r.contains("\n\n\n"));
        let kept = |t: &str| t.lines().filter(|l| !l.trim().is_empty()).map(|l| l.to_string()).collect::<Vec<_>>();
        assert_eq!(kept(&r), kept(s));
    }
}

#[test]
fn notes_name_what_stands_on_a_page() {
    let some = |s: &str| Some(s.to_string());
    assert_eq!(image_note(3, 4), "[image] 3x4");
    assert_eq!(link_note("http://x"), "[link] http://x");
    assert_eq!(annotation_note("Text", &some("c"), &some("me")), "[annotation] Text: c (author me)");
    assert_eq!(annotation_note("Text", &None, &None), "[annotation] Text");
    let mut c: Option<Chrome> = None;
    push_chrome(&mut c, "  ", None);
    assert_eq!(c, None);
    push_chrome(&mut c, "a  b", Some(1));
    push_chrome(&mut c, "c", None);
    assert_eq!(c, Some(Chrome { text: "a b | c".to_string(), section: Some(1) }));
}

#[test]
fn outlines_are_indented() {
    let node = |title: &str, page: Option<usize>, children: Vec<OutlineNode>| OutlineNode {
        title: title.to_string(),
        page,
        children,
    };
    let items = vec![
        node("One", Some(0), vec![node("A  b", None, Vec::new())]),
        node("Two", Some(4), Vec::new()),
    ];
    assert_eq!(render_outline(&items), "One (p.1)\n  A b\nTwo (p.5)\n");
}

#[test]
fn a_page_becomes_a_sheet() {
    let mut heading = region(RegionKind::Heading(9), " Title ");
    heading.extras_above = 1;
    let mut body = region(RegionKind::Body, "text");
    body.lines = lines(&[("text", 0)]);
    let mut p = page(vec![
        region(RegionKind::Header, "Head"),
        region(RegionKind::PageNumber, "1 of 2"),
        region(RegionKind::Artifact, "mark"),
        heading,
        body,
        region(RegionKind::MarginalLabel, "label"),
    ]);
    p.extras = vec![Extra::Rule, Extra::Rule];
    p.images = vec![(5, 6)];
    p.annotations = vec![
        AnnotationData { url: Some("u".to_string()), subtype: None, contents: None, author: None },
        AnnotationData { url: None, subtype: None, contents: Some("c".to_string()), author: None },
        AnnotationData { url: None, subtype: None, contents: None, author: None },
    ];
    let s = PageSheet::build(1, &Ok(p));
    assert_eq!(s.headings, vec![(1, 6)]);
    assert_eq!(
        s.render(),
        "--- page 1 ---\n[header] Head\n[page-number] 1 of 2\n[artifact] mark\n[image] 5x6\n[link] u\n[annotation] Annot: c\n\n---\n###### Title\ntext\nlabel\n---\n"
    );
    let broken = PageSheet::build(2, &Err("why".to_string()));
    assert_eq!(broken.render(), "--- page 2 ---\n[Text extraction error: why]\n");
}

#[test]
fn labels_are_formatted() {
    let label = |style: LabelStyle| {
        let mut m = no_meta();
        m.page_labels = vec![LabelRange { start_page: 0, style, prefix: Some("A-".to_string()), start_value: 4 }];
        FormatFacts::analyze(&Vec::new(), &vec![(1, 10, 20), (2, 10, 20)], &m, None).label_notes
    };
    assert_eq!(label(LabelStyle::Decimal), vec!["p.1-p.2: 'A-4'..'A-5'".to_string()]);
    assert_eq!(label(LabelStyle::RomanUpper), vec!["p.1-p.2: 'A-IV'..'A-V'".to_string()]);
    assert_eq!(label(LabelStyle::RomanLower), vec!["p.1-p.2: 'A-iv'..'A-v'".to_string()]);
    assert_eq!(label(LabelStyle::AlphaUpper), vec!["p.1-p.2: 'A-D'..'A-E'".to_string()]);
    assert_eq!(label(LabelStyle::AlphaLower), vec!["p.1-p.2: 'A-d'..'A-e'".to_string()]);
    assert_eq!(label(LabelStyle::Plain), vec!["p.1-p.2: 'A-'..'A-'".to_string()]);
    assert_eq!(note_on_labels(2, 2, "x", "y"), "p.3: 'x'");
    let number = |style: LabelStyle, start_value: u32| {
        let mut m = no_meta();
        m.page_labels = vec![LabelRange { start_page: 0, style, prefix: None, start_value }];
        FormatFacts::analyze(&Vec::new(), &vec![(1, 10, 20)], &m, None).label_notes
    };
    assert_eq!(number(LabelStyle::RomanUpper, 1994), vec!["p.1: 'MCMXCIV'".to_string()]);
    assert_eq!(number(LabelStyle::RomanLower, 4388), vec!["p.1: 'mmmmccclxxxviii'".to_string()]);
    assert_eq!(number(LabelStyle::RomanUpper, 666), vec!["p.1: 'DCLXVI'".to_string()]);
    assert_eq!(number(LabelStyle::AlphaUpper, 26), vec!["p.1: 'Z'".to_string()]);
    assert_eq!(number(LabelStyle::AlphaUpper, 27), vec!["p.1: 'AA'".to_string()]);
    assert_eq!(number(LabelStyle::AlphaLower, 703), vec!["p.1: 'aaa'".to_string()]);
}

fn numbered(texts: &[Option<&str>]) -> Vec<PageSheet> {
    texts
        .iter()
        .enumerate()
        .map(|(i, t)| {
            let regions = match t {
                Some(t) => vec![region(RegionKind::PageNumber, t)],
                None => Vec::new(),
            };
            PageSheet::build(i + 1, &Ok(page(regions)))
        })
        .collect()
}

fn number_notes(texts: &[Option<&str>]) -> Vec<String> {
    FormatFacts::analyze(&numbered(texts), &Vec::new(), &no_meta(), None).page_number_notes
}

#[test]
fn page_numbers_are_checked() {
    assert_eq!(number_notes(&[Some("1"), Some("2"), Some("3")]), vec!["p.1-p.3: '1'..'3'".to_string()]);
    assert_eq!(
        number_notes(&[Some("1 of 9"), None, Some("x"), Some("1 of 8")]),
        vec![
            "p.3: page number 'x' is not numeric".to_string(),
            "no page number on p.2".to_string(),
            "p.1: '1'".to_string(),
            "p.4: '1'".to_string(),
            "page number '1' appears on p.1, p.4".to_string(),
            "'of' totals: p.1 '9', p.4 '8'".to_string(),
        ]
    );
    assert_eq!(number_notes(&[None, None]), vec!["no page numbers on any page".to_string()]);
    assert_eq!(
        number_notes(&[Some("1/2"), Some("2/2")]),
        vec!["p.1-p.2: '1'..'2'".to_string(), "'of 2' on p.1-p.2".to_string()]
    );
}

#[test]
fn headers_and_headings_are_compared() {
    let sheet = |num: usize, header: &str, level: u8| {
        PageSheet::build(
            num,
            &Ok(page(vec![region(RegionKind::Header, header), region(RegionKind::Heading(level), "t")])),
        )
    };
    let mut sheets = vec![sheet(1, "A", 1), sheet(2, "A", 3), sheet(3, "", 2)];
    sheets.push(PageSheet::build(4, &Err("e".to_string())));
    let runs = build_runs(&sheets, false);
    assert_eq!(render_runs("header", &runs), "header: p.1-p.2: 'A'\nheader: p.3: (none)\n");
    let facts = FormatFacts::analyze(&sheets, &Vec::new(), &no_meta(), None);
    assert_eq!(facts.heading_notes, vec!["p.2: H3 follows H1".to_string()]);
    assert_eq!(facts.notes, vec!["p.4: extraction failed".to_string()]);
}

#[test]
fn a_review_document_is_put_together() {
    let mut m = no_meta();
    m.title = Some("T".to_string());
    m.authors = vec!["x".to_string(), "y".to_string()];
    m.outline = Some(vec![OutlineNode { title: "O".to_string(), page: Some(0), children: Vec::new() }]);
    let mut body = region(RegionKind::Body, "text");
    body.lines = lines(&[("text", 0)]);
    let sheets = vec![PageSheet::build(2, &Ok(page(vec![body])))];
    let sizes = vec![(1, 595, 842), (2, 595, 842), (3, 842, 595)];
    let r = extract_text_from_pdf("a.pdf", Some((2, 2)), &sizes, &sheets, &m).unwrap();
    assert_eq!((r.page_count, r.start, r.end), (3, 2, 2));
    let (legend, rest) = r.text.split_once('\n').unwrap();
    assert!(legend.starts_with("[pdf-review] a.pdf (3 pages, extracted p.2) - format facts"));
    assert_eq!(
        rest,
        "[format-facts]\npages: 3\nextracted: p.2\nmetadata: title 'T'\nmetadata: author 'x, y'\npage-size: p.1-p.2: '595x842 pt'\npage-size: p.3: '842x595 pt'\npage-number: no page numbers on any page\nheader: p.2: (none)\nfooter: p.2: (none)\n[outline]\nO (p.1)\n--- page 2 ---\n\ntext\n"
    );
    assert_eq!(
        extract_text_from_pdf("a.pdf", Some((2, 9)), &sizes, &sheets, &m).err().unwrap(),
        "Invalid page range: p.2-p.9 exceeds 3 pages"
    );
}

#[test]
fn texts_are_saved_under_their_own_names() {
    assert_eq!(converted_name("a.pdf", None, 0), "a.pdf_converted_for_llm.txt");
    assert_eq!(converted_name("a.pdf", Some((1, 2)), 3), "a.pdf_converted_for_llm_p1-p2_3.txt");
    assert_ne!(converted_name("a", Some((1, 23)), 0), converted_name("a", Some((12, 3)), 0));
    assert_ne!(converted_name("a", None, 1), converted_name("a", None, 2));
    assert_eq!(after_taken(0, true), Some(1));
    assert_eq!(after_taken(7, false), None);
    assert_eq!(after_taken(u64::MAX, true), None);
    assert!(converted_notice("o.txt", "abc").contains("[Converted] o.txt (Markdown, "));
}
