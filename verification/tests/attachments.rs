//! File references, file kinds and encodings, and numbers for people.

use always_goofy_things::attach::{
    attach_file, check_oversized_files, format_file_size, parse_attached_files, parse_file_spec,
    plan_read, read_attached_files, validate_files, AttachMode, AttachedSpec, ReadPlan,
    OVERLOADED_BYTES,
};
use always_goofy_things::attached_file;
use always_goofy_things::file::{
    classify_file, classify_lowered, convert_audio_to_base64, convert_image_to_data_url,
    data_url_text, detect_audio_format, detect_image_mime, parse_data_url, FileType,
};
use always_goofy_things::float_text::{fmt_duration, quotient_text};
use always_goofy_things::llm_stats::{fmt_ms, fmt_tokens};
use always_goofy_things::nontext;

fn spec(path: &str, range: Option<(usize, usize)>) -> AttachedSpec {
    AttachedSpec { path: path.to_string(), page_range: range }
}

fn strings(list: &[&str]) -> Vec<String> {
    list.iter().map(|s| s.to_string()).collect()
}

#[test]
fn references_stand_before_the_query() {
    assert_eq!(
        parse_attached_files("@a.txt, @b.txt  explain\nthis"),
        ("explain\nthis".to_string(), vec![spec("a.txt", None), spec("b.txt", None)], AttachMode::Raw)
    );
    assert_eq!(
        parse_attached_files("  plain @a"),
        ("  plain @a".to_string(), vec![], AttachMode::Raw)
    );
    assert_eq!(
        parse_attached_files("@@spec.pdf:3-7 Review"),
        ("Review".to_string(), vec![spec("spec.pdf", Some((3, 7)))], AttachMode::TextExtraction)
    );
    assert_eq!(
        parse_attached_files("@spec.pdf:3-7"),
        ("".to_string(), vec![spec("spec.pdf:3-7", None)], AttachMode::Raw)
    );
    assert_eq!(
        parse_attached_files("@@a.pdf:2,@b.pdf"),
        ("".to_string(), vec![spec("a.pdf", Some((2, 2))), spec("b.pdf", None)], AttachMode::TextExtraction)
    );
    assert_eq!(parse_attached_files("@ x"), ("@ x".to_string(), vec![], AttachMode::Raw));
    assert_eq!(parse_attached_files("@a, b").0, ", b");
}

#[test]
fn page_ranges_end_a_reference() {
    assert_eq!(parse_file_spec("a.pdf:3-7"), spec("a.pdf", Some((3, 7))));
    assert_eq!(parse_file_spec("a.pdf:9"), spec("a.pdf", Some((9, 9))));
    assert_eq!(parse_file_spec("notes:v2.md"), spec("notes:v2.md", None));
    assert_eq!(parse_file_spec("a:1:2"), spec("a:1", Some((2, 2))));
    assert_eq!(parse_file_spec("a.pdf:0-0"), spec("a.pdf", Some((0, 0))));
    assert_eq!(
        parse_file_spec("a.pdf:99999999999999999999999"),
        spec("a.pdf:99999999999999999999999", None)
    );
    assert_eq!(parse_file_spec(":3"), spec(":3", None));
}

#[test]
fn missing_and_large_files_are_found() {
    let specs = vec![spec("a", None), spec("b", None), spec("c", None)];
    assert_eq!(validate_files(&specs, &vec![true, true, true]), Ok(()));
    assert_eq!(validate_files(&specs, &vec![false, true, false]), Err(strings(&["a", "c"])));
    assert_eq!(
        check_oversized_files(&specs, &vec![Some(OVERLOADED_BYTES), Some(OVERLOADED_BYTES + 1), None], OVERLOADED_BYTES),
        vec![("b".to_string(), OVERLOADED_BYTES + 1)]
    );
}

#[test]
fn sizes_are_written_as_floats_are() {
    for bytes in [
        0u64,
        1,
        1023,
        1024,
        1075,
        1076,
        1126,
        1536,
        1587,
        1588,
        10189,
        1048575,
        1048576,
        25481220,
        1073741823,
        1073741824,
        5_000_000_000,
        u64::MAX,
    ] {
        let mut size = bytes as f64;
        let mut unit = 0;
        while size >= 1024.0 && unit < 3 {
            size /= 1024.0;
            unit += 1;
        }
        let want = if unit == 0 {
            format!("{bytes} bytes")
        } else {
            format!("{:.1} {} ({} bytes)", size, ["bytes", "KB", "MB", "GB"][unit], bytes)
        };
        assert_eq!(format_file_size(bytes), want);
        assert_eq!(attached_file::format_file_size(bytes), want);
    }
    assert_eq!(format_file_size(25481220), "24.3 MB (25481220 bytes)");
}

#[test]
fn quotients_are_written_as_floats_are() {
    for n in [0u64, 1, 49, 50, 51, 950, 1049, 1050, 1051, 12345, 99949, 99950, 123456789] {
        assert_eq!(quotient_text(n, 1000), format!("{:.1}", n as f64 / 1000.0));
        assert_eq!(fmt_tokens(n), format!("{:.1}K ({})", n as f64 / 1000.0, n));
    }
}

#[test]
fn durations_are_minutes_and_the_seconds_left() {
    for ms in [0u64, 1, 49, 50, 51, 499, 38149, 38150, 59949, 59950, 59999] {
        let want = format!("{:.1}s", ms as f64 / 1000.0);
        assert_eq!(fmt_ms(ms), want);
        assert_eq!(fmt_duration(ms), want);
    }
    for (ms, want) in [
        (38100u64, "38.1s"),
        (60000, "1m 0.0s"),
        (62300, "1m 2.3s"),
        (89999, "1m 30.0s"),
        (90001, "1m 30.0s"),
        (100000, "1m 40.0s"),
        (119940, "1m 59.9s"),
        (119960, "2m 0.0s"),
        (3_599_999, "60m 0.0s"),
        (7_200_000, "120m 0.0s"),
        (1_234_567_890, "20576m 7.9s"),
    ] {
        assert_eq!(fmt_ms(ms), want);
        assert_eq!(fmt_duration(ms), want);
    }
}

#[test]
fn files_are_read_by_their_kind() {
    assert_eq!(plan_read(&spec("a.txt", None), AttachMode::Raw), ReadPlan::Text);
    assert_eq!(plan_read(&spec("a.pdf", None), AttachMode::Raw), ReadPlan::Bytes);
    assert_eq!(plan_read(&spec("a.PDF", None), AttachMode::TextExtraction), ReadPlan::PdfText);
    assert_eq!(plan_read(&spec("a.txt", Some((1, 2))), AttachMode::TextExtraction), ReadPlan::Refused);
    let text = Ok("content".to_string());
    let bytes = Ok(vec![1u8, 2, 3]);
    let f = attach_file(&spec("a.txt", None), AttachMode::Raw, &text, &bytes).unwrap();
    assert_eq!((f.content.as_str(), f.attach_type), ("content", FileType::Text));
    let f = attach_file(&spec("a.pdf", None), AttachMode::Raw, &text, &bytes).unwrap();
    assert_eq!(f.content, "AQID");
    let f = attach_file(&spec("a.png", None), AttachMode::Raw, &text, &bytes).unwrap();
    assert_eq!(f.content, "data:image/png;base64,AQID");
    let f = attach_file(&spec("a.wav", None), AttachMode::Raw, &text, &bytes).unwrap();
    assert_eq!(f.content, "AQID");
    let f = attach_file(&spec("a.pdf", Some((1, 2))), AttachMode::TextExtraction, &text, &bytes).unwrap();
    assert_eq!((f.content.as_str(), f.page_range), ("content", Some((1, 2))));
    assert_eq!(
        attach_file(&spec("a.md", Some((1, 2))), AttachMode::TextExtraction, &text, &bytes),
        Err("Page range is only supported for PDF files: 'a.md'".to_string())
    );
    let failed: Result<String, String> = Err("gone".to_string());
    assert_eq!(
        read_attached_files(&vec![spec("a.txt", None)], AttachMode::Raw, &vec![failed], &vec![Ok(vec![])]),
        Err("Failed to read 'a.txt': gone".to_string())
    );
    let two = read_attached_files(
        &vec![spec("a", None), spec("b", None)],
        AttachMode::Raw,
        &vec![Ok("x".to_string()), Ok("y".to_string())],
        &vec![Ok(vec![]), Ok(vec![])],
    )
    .unwrap();
    assert_eq!(two[1].content, "y");
}

#[test]
fn kinds_follow_the_extension() {
    assert_eq!(classify_file("X.Pdf"), FileType::Document { mime: "application/pdf".to_string() });
    assert_eq!(classify_file("a.jpeg"), FileType::Image { mime: "image/jpeg".to_string() });
    assert_eq!(classify_file("a.WAV"), FileType::Audio { format: "wav".to_string() });
    assert_eq!(classify_file("a.rs"), FileType::Text);
    assert_eq!(classify_lowered("a.gif"), FileType::Image { mime: "image/gif".to_string() });
    assert_eq!(detect_image_mime("a.webp"), Some("image/webp"));
    assert_eq!(detect_image_mime("a.txt"), None);
    assert_eq!(detect_audio_format("a.mp3"), Some("mp3"));
}

#[test]
fn data_urls_read_back() {
    let url = data_url_text("image/png", "AQID");
    assert_eq!(url, "data:image/png;base64,AQID");
    assert_eq!(parse_data_url(&url), Some(("image/png", "AQID")));
    assert_eq!(parse_data_url("data:image/png,AQID"), None);
    assert_eq!(parse_data_url("http://x"), None);
    assert_eq!(
        convert_image_to_data_url("a.png", &Ok(vec![255])),
        Ok("data:image/png;base64,/w==".to_string())
    );
    assert!(convert_image_to_data_url("a.txt", &Ok(vec![255])).is_err());
    assert_eq!(
        convert_audio_to_base64("a.mp3", &Ok(vec![])),
        Ok(("mp3".to_string(), "".to_string()))
    );
    assert!(convert_audio_to_base64("a.mp3", &Err("x".to_string())).is_err());
}

#[test]
fn the_plain_form_of_references() {
    assert_eq!(
        attached_file::parse_attached_files("@a.txt, @b.txt go"),
        ("go".to_string(), strings(&["a.txt", "b.txt"]))
    );
    assert_eq!(
        attached_file::parse_attached_files("@a.txt one\ntwo"),
        ("one\ntwo".to_string(), strings(&["a.txt"]))
    );
    assert_eq!(
        attached_file::parse_attached_files("no files"),
        ("no files".to_string(), vec![])
    );
    assert_eq!(
        attached_file::validate_files(&strings(&["a"]), &vec![false]),
        Err(strings(&["a"]))
    );
    assert_eq!(
        attached_file::check_oversized_files(&strings(&["a"]), &vec![Some(9)], 8),
        vec![("a".to_string(), 9)]
    );
    let read = attached_file::read_attached_files(&strings(&["a"]), &vec![Ok("t".to_string())]).unwrap();
    assert_eq!((read[0].path.as_str(), read[0].content.as_str()), ("a", "t"));
    assert!(attached_file::read_attached_files(&strings(&["a"]), &vec![Err("e".to_string())]).is_err());
}

#[test]
fn the_plain_form_of_conversions() {
    assert_eq!(
        nontext::convert_image_to_data_url("a.gif", &Ok(vec![1, 2, 3])),
        Ok("data:image/gif;base64,AQID".to_string())
    );
    assert_eq!(
        nontext::convert_audio_to_base64("a.wav", &Ok(vec![1, 2, 3])),
        Ok(("wav".to_string(), "AQID".to_string()))
    );
    assert_eq!(
        nontext::extract_text_from_pdf(&vec![Ok("one".to_string()), Err("bad".to_string()), Ok("".to_string())]),
        "--- Page 1 ---\none\n\n--- Page 2 ---\n[Text extraction error: bad]\n\n--- Page 3 ---\n"
    );
    assert_eq!(nontext::converted_name("a.pdf", 0), "a.pdf_converted_for_llm.txt");
    assert_eq!(nontext::converted_name("a.pdf", 2), "a.pdf_converted_for_llm_2.txt");
    assert_eq!(nontext::saved_notice("p"), "\x1b[90m[Saved] Converted text written to p\x1b[0m");
}
