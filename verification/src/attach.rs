//! Attached file support for `@file` references.
//!
//! Parses `@path1, @path2, ...` prefixes from the beginning of user input,
//! decides which files are missing or oversized, and turns what was read of
//! them into attachments. Classification and encoding stand in
//! [`crate::file`].
//!
//! | Prefix | Mode | Behaviour |
//! |--------|------|-----------|
//! | `@`    | Raw  | Send the file as it is (PDF as base64, images as data URL, text as UTF-8) |
//! | `@@`   | Text | Force text extraction (PDF as Markdown) |
//! | `@@f:3-7` | Text | Text extraction of pages 3-7 only (1-based, inclusive; `@@f:3` is page 3) |

use vstd::prelude::*;
use vstd::string::*;

use crate::file::{
    audio_format, base64_encode, base64_text, classify_file, convert_audio_to_base64,
    convert_image_to_data_url, data_url, file_kind, image_mime, read_failure, read_failure_text,
    FileRead, FileType, FileTypeView,
};
use crate::float_text::{double_quotient, one_decimal, quotient_text};
use crate::text::{
    char_is_space, chars_of, decimal, digits_upto, ends_with, is_space, lemma_space_end,
    lowercase_of, parse_digits, space_end, split, split_last, split_on, starts_with, to_lowercase,
    trim, trimmed, rsplit_once, u64_text, contains_char, views, lemma_views_push,
};

verus! {

/// A file reference parsed from `@`/`@@` prefixes, with an optional page range.
#[derive(Debug, PartialEq, Eq)]
pub struct AttachedSpec {
    pub path: String,
    /// 1-based inclusive page range from `@@file.pdf:3-7` (`None`: all pages).
    pub page_range: Option<(usize, usize)>,
}

/// What a file reference is.
pub struct AttachedSpecView {
    pub path: Seq<char>,
    pub page_range: Option<(usize, usize)>,
}

impl View for AttachedSpec {
    type V = AttachedSpecView;

    open spec fn view(&self) -> AttachedSpecView {
        AttachedSpecView { path: self.path@, page_range: self.page_range }
    }
}

/// The contents of a list of file references.
pub open spec fn specs_view(v: Seq<AttachedSpec>) -> Seq<AttachedSpecView> {
    v.map_values(|s: AttachedSpec| s@)
}

/// Size threshold for large-file confirmation (1 MiB).
pub const OVERLOADED_BYTES: u64 = 1_048_576;

/// How attached files are read and sent.
#[derive(Debug, Clone, Copy, PartialEq, Eq, Structural)]
pub enum AttachMode {
    /// `@file`: file contents as they are (raw bytes, base64 for binary).
    Raw,
    /// `@@file`: text extraction (PDF as Markdown).
    TextExtraction,
}

/// An attached file.
#[derive(Debug, PartialEq, Eq)]
pub struct AttachedFile {
    pub path: String,
    pub content: String,
    pub attach_type: FileType,
    /// 1-based inclusive page range that was asked for (`None`: all pages).
    pub page_range: Option<(usize, usize)>,
}

/// What an attached file is.
pub struct AttachedFileView {
    pub path: Seq<char>,
    pub content: Seq<char>,
    pub attach_type: FileTypeView,
    pub page_range: Option<(usize, usize)>,
}

impl View for AttachedFile {
    type V = AttachedFileView;

    open spec fn view(&self) -> AttachedFileView {
        AttachedFileView {
            path: self.path@,
            content: self.content@,
            attach_type: self.attach_type@,
            page_range: self.page_range,
        }
    }
}

/// The contents of a list of attached files.
pub open spec fn files_view(v: Seq<AttachedFile>) -> Seq<AttachedFileView> {
    v.map_values(|f: AttachedFile| f@)
}

impl AttachedFile {
    /// A file with the same contents.
    pub fn copy(&self) -> (r: AttachedFile)
        ensures
            r@ == self@,
    {
        AttachedFile {
            path: self.path.clone(),
            content: self.content.clone(),
            attach_type: self.attach_type.copy(),
            page_range: self.page_range,
        }
    }
}

/// A list with the same contents.
pub fn copy_files(files: &Vec<AttachedFile>) -> (r: Vec<AttachedFile>)
    ensures
        files_view(r@) == files_view(files@),
{
    let mut out: Vec<AttachedFile> = Vec::new();
    let mut i: usize = 0;
    while i < files.len()
        invariant
            i <= files@.len(),
            out@.len() == i,
            forall|k: int| 0 <= k < i ==> #[trigger] out@[k]@ == files@[k]@,
        decreases files@.len() - i,
    {
        out.push(files[i].copy());
        i = i + 1;
    }
    proof {
        assert(files_view(out@) =~= files_view(files@));
    }
    out
}

// ---------------------------------------------------------------------------
// Sizes
// ---------------------------------------------------------------------------

/// A size of 1 KB or more, in a unit of `per` bytes.
pub open spec fn size_in(bytes: nat, per: nat, unit: Seq<char>) -> Seq<char> {
    let q = double_quotient(bytes, per);
    one_decimal(q.0, q.1) + " "@ + unit + " ("@ + decimal(bytes) + " bytes)"@
}

/// A file size for people, such as `24.3 MB (25481220 bytes)`.
pub open spec fn file_size_text(bytes: nat) -> Seq<char> {
    if bytes < 1024 {
        decimal(bytes) + " bytes"@
    } else if bytes < 1_048_576 {
        size_in(bytes, 1024, "KB"@)
    } else if bytes < 1_073_741_824 {
        size_in(bytes, 1_048_576, "MB"@)
    } else {
        size_in(bytes, 1_073_741_824, "GB"@)
    }
}

/// Formats a file size for people, such as `24.3 MB (25481220 bytes)`.
pub fn format_file_size(bytes: u64) -> (r: String)
    ensures
        r@ == file_size_text(bytes as nat),
{
    let count = u64_text(bytes);
    if bytes < 1024 {
        let mut s = count;
        s.append(" bytes");
        return s;
    }
    let (per, unit): (u64, &str) = if bytes < 1_048_576 {
        (1024, "KB")
    } else if bytes < 1_073_741_824 {
        (1_048_576, "MB")
    } else {
        (1_073_741_824, "GB")
    };
    let mut s = quotient_text(bytes, per);
    s.append(" ");
    s.append(unit);
    s.append(" (");
    s.append(count.as_str());
    s.append(" bytes)");
    s
}

// ---------------------------------------------------------------------------
// The list of files at the start of an input
// ---------------------------------------------------------------------------

/// First position at or after `i` that holds a comma or white space.
pub open spec fn word_end(s: Seq<char>, i: int) -> int
    decreases s.len() - i,
{
    if 0 <= i < s.len() && s[i] != ',' && !is_space(s[i]) {
        word_end(s, i + 1)
    } else {
        i
    }
}

/// Whether an `@` followed by at least one character of a path stands at `p`.
pub open spec fn reference_at(s: Seq<char>, p: int) -> bool {
    0 <= p < s.len() && s[p] == '@' && word_end(s, p + 1) > p + 1
}

/// End of the comma-separated references, the first of which stands at `p`.
pub open spec fn references_end(s: Seq<char>, p: int) -> int
    decreases s.len() - p,
{
    let e = word_end(s, p + 1);
    let c = space_end(s, e);
    if 0 <= p && 0 <= c < s.len() && s[c] == ',' && reference_at(s, space_end(s, c + 1)) && p
        < space_end(s, c + 1) {
        references_end(s, space_end(s, c + 1))
    } else {
        e
    }
}

proof fn lemma_word_end(s: Seq<char>, i: int)
    requires
        0 <= i <= s.len(),
    ensures
        i <= word_end(s, i) <= s.len(),
    decreases s.len() - i,
{
    if i < s.len() && s[i] != ',' && !is_space(s[i]) {
        lemma_word_end(s, i + 1);
    }
}

proof fn lemma_references_end(s: Seq<char>, p: int)
    requires
        reference_at(s, p),
    ensures
        p < references_end(s, p) <= s.len(),
    decreases s.len() - p,
{
    let e = word_end(s, p + 1);
    lemma_word_end(s, p + 1);
    lemma_space_end(s, e);
    let c = space_end(s, e);
    if c < s.len() && s[c] == ',' {
        lemma_space_end(s, c + 1);
        if reference_at(s, space_end(s, c + 1)) {
            lemma_references_end(s, space_end(s, c + 1));
        }
    }
}

fn find_word_end(cs: &Vec<char>, from: usize) -> (r: usize)
    requires
        from <= cs@.len(),
    ensures
        r == word_end(cs@, from as int),
        from <= r <= cs@.len(),
{
    let mut i: usize = from;
    while i < cs.len() && cs[i] != ',' && !char_is_space(cs[i])
        invariant
            from <= i <= cs@.len(),
            word_end(cs@, i as int) == word_end(cs@, from as int),
        decreases cs@.len() - i,
    {
        i = i + 1;
    }
    i
}

fn find_space_end(cs: &Vec<char>, from: usize) -> (r: usize)
    requires
        from <= cs@.len(),
    ensures
        r == space_end(cs@, from as int),
        from <= r <= cs@.len(),
{
    let mut i: usize = from;
    while i < cs.len() && char_is_space(cs[i])
        invariant
            from <= i <= cs@.len(),
            space_end(cs@, i as int) == space_end(cs@, from as int),
        decreases cs@.len() - i,
    {
        i = i + 1;
    }
    i
}

fn is_reference_at(cs: &Vec<char>, p: usize) -> (r: bool)
    requires
        p <= cs@.len(),
    ensures
        r == reference_at(cs@, p as int),
{
    if p >= cs.len() || cs[p] != '@' {
        return false;
    }
    find_word_end(cs, p + 1) > p + 1
}

fn find_references_end(cs: &Vec<char>, from: usize) -> (r: usize)
    requires
        reference_at(cs@, from as int),
    ensures
        r == references_end(cs@, from as int),
        from < r <= cs@.len(),
{
    let n: usize = cs.len();
    let mut p: usize = from;
    loop
        invariant
            n == cs@.len(),
            from <= p < n,
            reference_at(cs@, p as int),
            references_end(cs@, p as int) == references_end(cs@, from as int),
        decreases n - p,
    {
        let e: usize = find_word_end(cs, p + 1);
        let c: usize = find_space_end(cs, e);
        if c < n && cs[c] == ',' {
            let g: usize = find_space_end(cs, c + 1);
            if is_reference_at(cs, g) {
                p = g;
                continue;
            }
        }
        return e;
    }
}

/// The file-list segment of an input that starts with references, and what
/// follows the white space after it.
pub open spec fn reference_list(s: Seq<char>) -> Option<(Seq<char>, Seq<char>)> {
    if reference_at(s, 0) {
        let e = references_end(s, 0);
        Some((s.take(e), s.skip(space_end(s, e))))
    } else {
        None
    }
}

/// Splits an input that starts with references into the file-list segment and
/// what follows the white space after it.
pub fn split_references<'a>(s: &'a str) -> (r: Option<(&'a str, &'a str)>)
    ensures
        match r {
            Some(p) => reference_list(s@) == Some((p.0@, p.1@)),
            None => reference_list(s@) is None,
        },
{
    let cs = chars_of(s);
    if !is_reference_at(&cs, 0) {
        return None;
    }
    let e: usize = find_references_end(&cs, 0);
    let g: usize = find_space_end(&cs, e);
    Some((s.substring_char(0, e), s.substring_char(g, cs.len())))
}

/// A text without its leading `@` characters.
pub open spec fn without_ats(s: Seq<char>) -> Seq<char>
    decreases s.len(),
{
    if s.len() > 0 && s[0] == '@' {
        without_ats(s.skip(1))
    } else {
        s
    }
}

/// Strips the leading `@` characters of a text.
pub fn strip_ats<'a>(s: &'a str) -> (r: &'a str)
    ensures
        r@ == without_ats(s@),
{
    let cs = chars_of(s);
    let mut i: usize = 0;
    proof {
        assert(s@.skip(0) =~= s@);
    }
    while i < cs.len() && cs[i] == '@'
        invariant
            i <= cs@.len(),
            cs@ == s@,
            without_ats(s@.skip(i as int)) == without_ats(s@),
        decreases cs@.len() - i,
    {
        proof {
            assert(s@.skip(i as int).skip(1) =~= s@.skip(i + 1));
        }
        i = i + 1;
    }
    s.substring_char(i, cs.len())
}

/// The pages that a suffix asks for: `<first>` or `<first>-<last>`, each a run
/// of digits that a `usize` can hold.
pub open spec fn page_suffix(s: Seq<char>) -> Option<(nat, nat)> {
    match split_last(s, "-"@) {
        None => match digits_upto(s, usize::MAX as nat) {
            Some(n) => Some((n, n)),
            None => None,
        },
        Some(p) => match (digits_upto(p.0, usize::MAX as nat), digits_upto(p.1, usize::MAX as nat)) {
            (Some(a), Some(b)) => Some((a, b)),
            _ => None,
        },
    }
}

/// A file token with the page range that may end it.
///
/// Only a suffix of `:` followed by digits, and maybe `-` and digits, after a
/// path of one line is a range; anything else stays part of the path.
pub open spec fn token_spec(token: Seq<char>) -> AttachedSpecView {
    let literal = AttachedSpecView { path: token, page_range: None };
    match split_last(token, ":"@) {
        None => literal,
        Some(p) => match page_suffix(p.1) {
            Some(pages) if p.0.len() > 0 && !p.0.contains('\n') => AttachedSpecView {
                path: p.0,
                page_range: Some((pages.0 as usize, pages.1 as usize)),
            },
            _ => literal,
        },
    }
}

fn parse_page_suffix(s: &str) -> (r: Option<(usize, usize)>)
    ensures
        match r {
            Some(p) => page_suffix(s@) == Some((p.0 as nat, p.1 as nat)),
            None => page_suffix(s@) is None,
        },
{
    match rsplit_once(s, "-") {
        None => {
            let cs = chars_of(s);
            proof {
                assert(cs@.skip(0) =~= s@);
            }
            match parse_digits(&cs, 0, usize::MAX as u64) {
                Some(n) => Some((n as usize, n as usize)),
                None => None,
            }
        },
        Some((a, b)) => {
            let x = chars_of(a);
            let y = chars_of(b);
            proof {
                assert(x@.skip(0) =~= a@);
                assert(y@.skip(0) =~= b@);
            }
            match (parse_digits(&x, 0, usize::MAX as u64), parse_digits(&y, 0, usize::MAX as u64)) {
                (Some(m), Some(n)) => Some((m as usize, n as usize)),
                _ => None,
            }
        },
    }
}

/// Splits a trailing `:start-end` or `:start` page range off a file token.
pub fn parse_file_spec(token: &str) -> (r: AttachedSpec)
    ensures
        r@ == token_spec(token@),
{
    match rsplit_once(token, ":") {
        None => {},
        Some((path, suffix)) => {
            match parse_page_suffix(suffix) {
                Some(pages) => {
                    if !path.is_empty() && !contains_char(path, '\n') {
                        return AttachedSpec { path: path.to_owned(), page_range: Some(pages) };
                    }
                },
                None => {},
            }
        },
    }
    AttachedSpec { path: token.to_owned(), page_range: None }
}

/// One part of the file list as a file reference.
pub open spec fn part_spec(part: Seq<char>, mode: AttachMode) -> AttachedSpecView {
    let token = without_ats(trimmed(part));
    if mode == AttachMode::TextExtraction {
        token_spec(token)
    } else {
        AttachedSpecView { path: token, page_range: None }
    }
}

/// The query, the file references and the mode of a user input.
pub open spec fn attached_files(input: Seq<char>) -> (Seq<char>, Seq<AttachedSpecView>, AttachMode) {
    let t = trimmed(input);
    if !"@"@.is_prefix_of(t) {
        (input, Seq::empty(), AttachMode::Raw)
    } else {
        let mode = if "@@"@.is_prefix_of(t) {
            AttachMode::TextExtraction
        } else {
            AttachMode::Raw
        };
        let effective = if mode == AttachMode::TextExtraction {
            t.skip(1)
        } else {
            t
        };
        match reference_list(effective) {
            None => (input, Seq::empty(), mode),
            Some(l) => (
                l.1,
                split_on(l.0, ","@).map_values(|p: Seq<char>| part_spec(p, mode)),
                mode,
            ),
        }
    }
}

fn parse_part(part: &str, mode: AttachMode) -> (r: AttachedSpec)
    ensures
        r@ == part_spec(part@, mode),
{
    let token = strip_ats(trim(part));
    match mode {
        AttachMode::TextExtraction => parse_file_spec(token),
        AttachMode::Raw => AttachedSpec { path: token.to_owned(), page_range: None },
    }
}

/// Parses the `@file` or `@@file` references at the beginning of a user input.
///
/// Returns the query, the references and the mode; an input without references
/// comes back whole. In text extraction a trailing `:start-end` on a file name
/// selects a 1-based inclusive page range.
pub fn parse_attached_files(input: &str) -> (r: (String, Vec<AttachedSpec>, AttachMode))
    ensures
        (r.0@, specs_view(r.1@), r.2) == attached_files(input@),
{
    let t = trim(input);
    let none: Vec<AttachedSpec> = Vec::new();
    proof {
        reveal_strlit("@");
        reveal_strlit("@@");
        reveal_strlit(",");
        assert(specs_view(none@) =~= Seq::<AttachedSpecView>::empty());
        if "@@"@.is_prefix_of(t@) {
            assert("@"@ =~= t@.subrange(0, 1)) by {
                assert("@@"@ == t@.subrange(0, 2));
                assert(t@.subrange(0, 2)[0] == t@[0]);
            }
        }
    }
    let (effective, mode): (&str, AttachMode) = if starts_with(t, "@@") {
        (t.substring_char(1, t.unicode_len()), AttachMode::TextExtraction)
    } else if starts_with(t, "@") {
        (t, AttachMode::Raw)
    } else {
        return (input.to_owned(), none, AttachMode::Raw);
    };
    match split_references(effective) {
        None => (input.to_owned(), none, mode),
        Some((list, rest)) => {
            let parts = split(list, ",");
            let mut specs: Vec<AttachedSpec> = Vec::new();
            let mut i: usize = 0;
            while i < parts.len()
                invariant
                    i <= parts@.len(),
                    specs@.len() == i,
                    forall|k: int|
                        0 <= k < i ==> #[trigger] specs@[k]@ == part_spec(parts@[k]@, mode),
                decreases parts@.len() - i,
            {
                let spec = parse_part(parts[i].as_str(), mode);
                specs.push(spec);
                i = i + 1;
            }
            proof {
                assert(specs_view(specs@) =~= views(parts@).map_values(
                    |p: Seq<char>| part_spec(p, mode),
                ));
            }
            (rest.to_owned(), specs, mode)
        },
    }
}

// ---------------------------------------------------------------------------
// Checking and reading
// ---------------------------------------------------------------------------

/// The paths, among the first `n`, of the files that do not exist.
pub open spec fn missing_paths(specs: Seq<AttachedSpecView>, exists: Seq<bool>, n: int) -> Seq<
    Seq<char>,
>
    decreases n,
{
    if n <= 0 {
        Seq::empty()
    } else if !exists[n - 1] {
        missing_paths(specs, exists, n - 1).push(specs[n - 1].path)
    } else {
        missing_paths(specs, exists, n - 1)
    }
}

/// Decides from what exists whether every referenced file is there. The
/// missing ones are named in order.
pub fn validate_files(specs: &Vec<AttachedSpec>, exists: &Vec<bool>) -> (r: Result<(), Vec<String>>)
    requires
        exists@.len() == specs@.len(),
    ensures
        ({
            let missing = missing_paths(specs_view(specs@), exists@, specs@.len() as int);
            match r {
                Ok(_) => missing.len() == 0,
                Err(paths) => missing.len() > 0 && views(paths@) == missing,
            }
        }),
{
    let mut missing: Vec<String> = Vec::new();
    let mut i: usize = 0;
    proof {
        assert(views(missing@) =~= Seq::<Seq<char>>::empty());
    }
    while i < specs.len()
        invariant
            i <= specs@.len(),
            exists@.len() == specs@.len(),
            views(missing@) == missing_paths(specs_view(specs@), exists@, i as int),
        decreases specs@.len() - i,
    {
        if !exists[i] {
            let p = specs[i].path.clone();
            proof {
                lemma_views_push(missing@, p);
            }
            missing.push(p);
        }
        i = i + 1;
    }
    if missing.len() == 0 {
        proof {
            assert(views(missing@).len() == 0);
        }
        Ok(())
    } else {
        proof {
            assert(views(missing@).len() == missing@.len());
        }
        Err(missing)
    }
}

/// The contents of a list of paths with sizes.
pub open spec fn sized_view(v: Seq<(String, u64)>) -> Seq<(Seq<char>, u64)> {
    v.map_values(|p: (String, u64)| (p.0@, p.1))
}

/// The paths and sizes, among the first `n`, of the files over `max` bytes.
pub open spec fn oversized(
    specs: Seq<AttachedSpecView>,
    sizes: Seq<Option<u64>>,
    max: u64,
    n: int,
) -> Seq<(Seq<char>, u64)>
    decreases n,
{
    if n <= 0 {
        Seq::empty()
    } else {
        match sizes[n - 1] {
            Some(len) if len > max => oversized(specs, sizes, max, n - 1).push(
                (specs[n - 1].path, len),
            ),
            _ => oversized(specs, sizes, max, n - 1),
        }
    }
}

/// The files whose size, where it could be determined, exceeds `max_bytes`.
pub fn check_oversized_files(
    specs: &Vec<AttachedSpec>,
    sizes: &Vec<Option<u64>>,
    max_bytes: u64,
) -> (r: Vec<(String, u64)>)
    requires
        sizes@.len() == specs@.len(),
    ensures
        sized_view(r@) == oversized(specs_view(specs@), sizes@, max_bytes, specs@.len() as int),
{
    let mut out: Vec<(String, u64)> = Vec::new();
    let mut i: usize = 0;
    proof {
        assert(sized_view(out@) =~= Seq::<(Seq<char>, u64)>::empty());
    }
    while i < specs.len()
        invariant
            i <= specs@.len(),
            sizes@.len() == specs@.len(),
            sized_view(out@) == oversized(specs_view(specs@), sizes@, max_bytes, i as int),
        decreases specs@.len() - i,
    {
        match sizes[i] {
            Some(len) => {
                if len > max_bytes {
                    let p = specs[i].path.clone();
                    proof {
                        assert(sized_view(out@.push((p, len))) =~= sized_view(out@).push(
                            (p@, len),
                        ));
                    }
                    out.push((p, len));
                }
            },
            None => {},
        }
        i = i + 1;
    }
    out
}

/// What reading a file as text gave: the text, or why it failed.
pub type TextRead = Result<String, String>;

/// The kind under which a file is attached.
pub open spec fn attach_kind(path: Seq<char>, mode: AttachMode) -> FileTypeView {
    let kind = file_kind(lowercase_of(path));
    if mode == AttachMode::TextExtraction && kind is Document {
        FileTypeView::Text
    } else {
        kind
    }
}

/// The content of an attachment, from what reading it as text and as bytes
/// gave.
pub open spec fn attach_content(
    spec: AttachedSpecView,
    mode: AttachMode,
    text: TextRead,
    bytes: FileRead,
) -> Result<Seq<char>, Seq<char>> {
    let lower = lowercase_of(spec.path);
    match attach_kind(spec.path, mode) {
        FileTypeView::Text => if ".pdf"@.is_suffix_of(lower) {
            match text {
                Ok(t) => Ok(t@),
                Err(why) => Err(why@),
            }
        } else if spec.page_range is Some {
            Err("Page range is only supported for PDF files: '"@ + spec.path + "'"@)
        } else {
            match text {
                Ok(t) => Ok(t@),
                Err(why) => Err(read_failure(spec.path, why@)),
            }
        },
        FileTypeView::Document(_) => match bytes {
            Ok(b) => Ok(base64_text(b@)),
            Err(why) => Err(read_failure(spec.path, why@)),
        },
        FileTypeView::Image(mime) => match bytes {
            Ok(b) => Ok(data_url(mime, base64_text(b@))),
            Err(why) => Err(read_failure(spec.path, why@)),
        },
        FileTypeView::Audio(_) => match bytes {
            Ok(b) => Ok(base64_text(b@)),
            Err(why) => Err(read_failure(spec.path, why@)),
        },
    }
}

/// The attachment, or the error, that a file reference comes to.
pub open spec fn attachment(
    spec: AttachedSpecView,
    mode: AttachMode,
    text: TextRead,
    bytes: FileRead,
) -> Result<AttachedFileView, Seq<char>> {
    match attach_content(spec, mode, text, bytes) {
        Ok(content) => Ok(
            AttachedFileView {
                path: spec.path,
                content,
                attach_type: attach_kind(spec.path, mode),
                page_range: spec.page_range,
            },
        ),
        Err(e) => Err(e),
    }
}

/// What is read of a file before it is attached.
#[derive(Debug, Clone, Copy, PartialEq, Eq, Structural)]
pub enum ReadPlan {
    /// Text extraction of a PDF, restricted to the page range.
    PdfText,
    /// The file as UTF-8 text.
    Text,
    /// The bytes of the file.
    Bytes,
    /// Nothing: the reference is refused.
    Refused,
}

/// What has to be read for a file reference.
pub open spec fn read_plan(spec: AttachedSpecView, mode: AttachMode) -> ReadPlan {
    match attach_kind(spec.path, mode) {
        FileTypeView::Text => if ".pdf"@.is_suffix_of(lowercase_of(spec.path)) {
            ReadPlan::PdfText
        } else if spec.page_range is Some {
            ReadPlan::Refused
        } else {
            ReadPlan::Text
        },
        _ => ReadPlan::Bytes,
    }
}

fn kind_for(path: &str, mode: AttachMode) -> (r: FileType)
    ensures
        r@ == attach_kind(path@, mode),
{
    let kind = classify_file(path);
    match (mode, &kind) {
        (AttachMode::TextExtraction, FileType::Document { .. }) => FileType::Text,
        _ => kind,
    }
}

/// What has to be read for a file reference.
pub fn plan_read(spec: &AttachedSpec, mode: AttachMode) -> (r: ReadPlan)
    ensures
        r == read_plan(spec@, mode),
{
    match kind_for(spec.path.as_str(), mode) {
        FileType::Text => {
            let lower = to_lowercase(spec.path.as_str());
            if ends_with(lower.as_str(), ".pdf") {
                ReadPlan::PdfText
            } else if spec.page_range.is_some() {
                ReadPlan::Refused
            } else {
                ReadPlan::Text
            }
        },
        _ => ReadPlan::Bytes,
    }
}

/// Where a path is an image (or an audio) file, its media type (or format) is
/// the one that the conversion finds.
proof fn lemma_kind_agrees(path: Seq<char>, mode: AttachMode)
    ensures
        attach_kind(path, mode) matches FileTypeView::Image(m) ==> image_mime(lowercase_of(path))
            == Some(m),
        attach_kind(path, mode) matches FileTypeView::Audio(f) ==> audio_format(lowercase_of(path))
            == Some(f),
{
}

/// Turns what was read of one file into an attachment.
pub fn attach_file(spec: &AttachedSpec, mode: AttachMode, text: &TextRead, bytes: &FileRead) -> (r:
    Result<AttachedFile, String>)
    ensures
        match r {
            Ok(f) => attachment(spec@, mode, *text, *bytes) matches Ok(v) && v == f@,
            Err(e) => attachment(spec@, mode, *text, *bytes) matches Err(v) && v == e@,
        },
{
    let path = spec.path.as_str();
    let kind = kind_for(path, mode);
    proof {
        lemma_kind_agrees(path@, mode);
    }
    let content: String = match &kind {
        FileType::Text => {
            let lower = to_lowercase(path);
            if ends_with(lower.as_str(), ".pdf") {
                match text {
                    Ok(t) => t.clone(),
                    Err(why) => {
                        return Err(why.clone());
                    },
                }
            } else if spec.page_range.is_some() {
                let mut s = String::from_str("Page range is only supported for PDF files: '");
                s.append(path);
                s.append("'");
                return Err(s);
            } else {
                match text {
                    Ok(t) => t.clone(),
                    Err(why) => {
                        return Err(read_failure_text(path, why.as_str()));
                    },
                }
            }
        },
        FileType::Document { .. } => match bytes {
            Ok(b) => base64_encode(b),
            Err(why) => {
                return Err(read_failure_text(path, why.as_str()));
            },
        },
        FileType::Image { .. } => match convert_image_to_data_url(path, bytes) {
            Ok(url) => url,
            Err(e) => {
                return Err(e);
            },
        },
        FileType::Audio { .. } => match convert_audio_to_base64(path, bytes) {
            Ok(p) => p.1,
            Err(e) => {
                return Err(e);
            },
        },
    };
    Ok(
        AttachedFile {
            path: spec.path.clone(),
            content,
            attach_type: kind,
            page_range: spec.page_range,
        },
    )
}

/// The attachments of the first `n` references, or the first error.
pub open spec fn attachments(
    specs: Seq<AttachedSpecView>,
    mode: AttachMode,
    texts: Seq<TextRead>,
    bytes: Seq<FileRead>,
    n: int,
) -> Result<Seq<AttachedFileView>, Seq<char>>
    decreases n,
{
    if n <= 0 {
        Ok(Seq::empty())
    } else {
        match attachments(specs, mode, texts, bytes, n - 1) {
            Err(e) => Err(e),
            Ok(done) => match attachment(specs[n - 1], mode, texts[n - 1], bytes[n - 1]) {
                Ok(f) => Ok(done.push(f)),
                Err(e) => Err(e),
            },
        }
    }
}

proof fn lemma_attachments_err(
    specs: Seq<AttachedSpecView>,
    mode: AttachMode,
    texts: Seq<TextRead>,
    bytes: Seq<FileRead>,
    i: int,
    n: int,
)
    requires
        0 <= i <= n,
        attachments(specs, mode, texts, bytes, i) is Err,
    ensures
        attachments(specs, mode, texts, bytes, n) == attachments(specs, mode, texts, bytes, i),
    decreases n - i,
{
    if i < n {
        lemma_attachments_err(specs, mode, texts, bytes, i, n - 1);
    }
}

/// Turns what was read of the referenced files into attachments, in order; the
/// first file that fails fails the whole list.
pub fn read_attached_files(
    specs: &Vec<AttachedSpec>,
    mode: AttachMode,
    texts: &Vec<TextRead>,
    bytes: &Vec<FileRead>,
) -> (r: Result<Vec<AttachedFile>, String>)
    requires
        texts@.len() == specs@.len(),
        bytes@.len() == specs@.len(),
    ensures
        ({
            let all = attachments(
                specs_view(specs@),
                mode,
                texts@,
                bytes@,
                specs@.len() as int,
            );
            match r {
                Ok(files) => all matches Ok(v) && v == files_view(files@),
                Err(e) => all matches Err(v) && v == e@,
            }
        }),
{
    let mut files: Vec<AttachedFile> = Vec::new();
    let mut i: usize = 0;
    let ghost sv = specs_view(specs@);
    proof {
        assert(files_view(files@) =~= Seq::<AttachedFileView>::empty());
    }
    while i < specs.len()
        invariant
            i <= specs@.len(),
            sv == specs_view(specs@),
            texts@.len() == specs@.len(),
            bytes@.len() == specs@.len(),
            attachments(sv, mode, texts@, bytes@, i as int) matches Ok(v) && v == files_view(
                files@,
            ),
        decreases specs@.len() - i,
    {
        match attach_file(&specs[i], mode, &texts[i], &bytes[i]) {
            Ok(f) => {
                proof {
                    assert(files_view(files@.push(f)) =~= files_view(files@).push(f@));
                }
                files.push(f);
            },
            Err(e) => {
                proof {
                    lemma_attachments_err(
                        sv,
                        mode,
                        texts@,
                        bytes@,
                        i + 1,
                        specs@.len() as int,
                    );
                }
                return Err(e);
            },
        }
        i = i + 1;
    }
    Ok(files)
}

} // verus!
