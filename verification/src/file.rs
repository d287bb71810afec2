//! File classification and content encoding.
//!
//! [`FileType`] maps extensions to content kinds. The conversions encode file
//! content into the representations that LLM endpoints take (UTF-8, base64
//! data URLs, raw base64).

use base64::Engine as _;
use vstd::prelude::*;
use vstd::string::*;

use crate::text::{
    after_prefix, before_suffix, ends_with, first_from, lemma_first_from, lowercase_of, occurs_at,
    opt_pair_view, opt_str_view, split_first, split_once, strip_prefix, strip_suffix, to_lowercase,
};

verus! {

/// The kind of a file, by its extension.
#[derive(Debug, PartialEq, Eq)]
pub enum FileType {
    Text,
    Image { mime: String },
    Audio { format: String },
    Document { mime: String },
}

/// What a file kind is.
pub enum FileTypeView {
    Text,
    Image(Seq<char>),
    Audio(Seq<char>),
    Document(Seq<char>),
}

impl View for FileType {
    type V = FileTypeView;

    open spec fn view(&self) -> FileTypeView {
        match *self {
            FileType::Text => FileTypeView::Text,
            FileType::Image { mime } => FileTypeView::Image(mime@),
            FileType::Audio { format } => FileTypeView::Audio(format@),
            FileType::Document { mime } => FileTypeView::Document(mime@),
        }
    }
}

impl FileType {
    /// A kind with the same contents.
    pub fn copy(&self) -> (r: FileType)
        ensures
            r@ == self@,
    {
        match self {
            FileType::Text => FileType::Text,
            FileType::Image { mime } => FileType::Image { mime: mime.clone() },
            FileType::Audio { format } => FileType::Audio { format: format.clone() },
            FileType::Document { mime } => FileType::Document { mime: mime.clone() },
        }
    }
}

/// The image media type that an extension in lower case stands for.
pub open spec fn image_mime(lower: Seq<char>) -> Option<Seq<char>> {
    if ".png"@.is_suffix_of(lower) {
        Some("image/png"@)
    } else if ".jpg"@.is_suffix_of(lower) || ".jpeg"@.is_suffix_of(lower) {
        Some("image/jpeg"@)
    } else if ".gif"@.is_suffix_of(lower) {
        Some("image/gif"@)
    } else if ".webp"@.is_suffix_of(lower) {
        Some("image/webp"@)
    } else {
        None
    }
}

/// The audio format that an extension in lower case stands for.
pub open spec fn audio_format(lower: Seq<char>) -> Option<Seq<char>> {
    if ".wav"@.is_suffix_of(lower) {
        Some("wav"@)
    } else if ".mp3"@.is_suffix_of(lower) {
        Some("mp3"@)
    } else {
        None
    }
}

/// The kind of a file whose path is given in lower case.
pub open spec fn file_kind(lower: Seq<char>) -> FileTypeView {
    if ".pdf"@.is_suffix_of(lower) {
        FileTypeView::Document("application/pdf"@)
    } else {
        match image_mime(lower) {
            Some(m) => FileTypeView::Image(m),
            None => match audio_format(lower) {
                Some(f) => FileTypeView::Audio(f),
                None => FileTypeView::Text,
            },
        }
    }
}

/// The image media type of a path given in lower case.
pub fn image_mime_of(lower: &str) -> (r: Option<&'static str>)
    ensures
        opt_str_view(r) == image_mime(lower@),
{
    if ends_with(lower, ".png") {
        Some("image/png")
    } else if ends_with(lower, ".jpg") || ends_with(lower, ".jpeg") {
        Some("image/jpeg")
    } else if ends_with(lower, ".gif") {
        Some("image/gif")
    } else if ends_with(lower, ".webp") {
        Some("image/webp")
    } else {
        None
    }
}

/// The audio format of a path given in lower case.
pub fn audio_format_of(lower: &str) -> (r: Option<&'static str>)
    ensures
        opt_str_view(r) == audio_format(lower@),
{
    if ends_with(lower, ".wav") {
        Some("wav")
    } else if ends_with(lower, ".mp3") {
        Some("mp3")
    } else {
        None
    }
}

/// Classifies a path given in lower case.
pub fn classify_lowered(lower: &str) -> (r: FileType)
    ensures
        r@ == file_kind(lower@),
{
    if ends_with(lower, ".pdf") {
        return FileType::Document { mime: "application/pdf".to_owned() };
    }
    match image_mime_of(lower) {
        Some(m) => FileType::Image { mime: m.to_owned() },
        None => match audio_format_of(lower) {
            Some(f) => FileType::Audio { format: f.to_owned() },
            None => FileType::Text,
        },
    }
}

/// Classifies a file by its extension, whatever its case.
pub fn classify_file(path: &str) -> (r: FileType)
    ensures
        r@ == file_kind(lowercase_of(path@)),
{
    let lower = to_lowercase(path);
    classify_lowered(lower.as_str())
}

/// The image media type that the extension of `path` stands for.
pub fn detect_image_mime(path: &str) -> (r: Option<&'static str>)
    ensures
        opt_str_view(r) == image_mime(lowercase_of(path@)),
{
    let lower = to_lowercase(path);
    image_mime_of(lower.as_str())
}

/// The audio format that the extension of `path` stands for.
pub fn detect_audio_format(path: &str) -> (r: Option<&'static str>)
    ensures
        opt_str_view(r) == audio_format(lowercase_of(path@)),
{
    let lower = to_lowercase(path);
    audio_format_of(lower.as_str())
}

// ---------------------------------------------------------------------------
// Base64
// ---------------------------------------------------------------------------

/// The character for six bits in the standard base64 alphabet.
pub open spec fn base64_char(n: int) -> char {
    if n < 26 {
        (65 + n) as u8 as char
    } else if n < 52 {
        (71 + n) as u8 as char
    } else if n < 62 {
        (n - 4) as u8 as char
    } else if n == 62 {
        '+'
    } else {
        '/'
    }
}

/// The standard base64 text, with padding, of some bytes: four characters for
/// every three bytes.
pub open spec fn base64_text(bytes: Seq<u8>) -> Seq<char>
    decreases bytes.len(),
{
    if bytes.len() == 0 {
        Seq::empty()
    } else {
        let a = bytes[0] as int;
        let b = if bytes.len() > 1 {
            bytes[1] as int
        } else {
            0
        };
        let c = if bytes.len() > 2 {
            bytes[2] as int
        } else {
            0
        };
        let third = if bytes.len() > 1 {
            base64_char(b % 16 * 4 + c / 64)
        } else {
            '='
        };
        let fourth = if bytes.len() > 2 {
            base64_char(c % 64)
        } else {
            '='
        };
        let rest = if bytes.len() > 3 {
            base64_text(bytes.skip(3))
        } else {
            Seq::empty()
        };
        seq![base64_char(a / 4), base64_char(a % 4 * 16 + b / 16), third, fourth] + rest
    }
}

/// `base64::engine::general_purpose::STANDARD.encode`: the text of the standard
/// alphabet, with padding.
#[verifier::external_body]
pub(crate) fn base64_encode(bytes: &Vec<u8>) -> (r: String)
    ensures
        r@ == base64_text(bytes@),
{
    base64::engine::general_purpose::STANDARD.encode(bytes)
}

/// What reading a file gave: its bytes, or why it failed.
pub type FileRead = Result<Vec<u8>, String>;

/// `"Failed to read '<path>': <why>"`.
pub open spec fn read_failure(path: Seq<char>, why: Seq<char>) -> Seq<char> {
    "Failed to read '"@ + path + "': "@ + why
}

pub fn read_failure_text(path: &str, why: &str) -> (r: String)
    ensures
        r@ == read_failure(path@, why@),
{
    let mut s = String::from_str("Failed to read '");
    s.append(path);
    s.append("': ");
    s.append(why);
    s
}

/// A data URL of a media type and a base64 text.
pub open spec fn data_url(mime: Seq<char>, base64: Seq<char>) -> Seq<char> {
    "data:"@ + mime + ";base64,"@ + base64
}

pub fn data_url_text(mime: &str, base64: &str) -> (r: String)
    ensures
        r@ == data_url(mime@, base64@),
{
    let mut s = String::from_str("data:");
    s.append(mime);
    s.append(";base64,");
    s.append(base64);
    s
}

/// Turns what was read of an image file into a `data:` URL. A path that names
/// no image is refused, whatever was read.
pub fn convert_image_to_data_url(path: &str, read: &FileRead) -> (r: Result<String, String>)
    ensures
        match image_mime(lowercase_of(path@)) {
            None => r is Err && r->Err_0@ == "Unsupported image format: '"@ + path@ + "'"@,
            Some(mime) => match *read {
                Ok(bytes) => r is Ok && r->Ok_0@ == data_url(mime, base64_text(bytes@)),
                Err(why) => r is Err && r->Err_0@ == read_failure(path@, why@),
            },
        },
{
    match detect_image_mime(path) {
        None => {
            let mut s = String::from_str("Unsupported image format: '");
            s.append(path);
            s.append("'");
            Err(s)
        },
        Some(mime) => match read {
            Ok(bytes) => {
                let b64 = base64_encode(bytes);
                Ok(data_url_text(mime, b64.as_str()))
            },
            Err(why) => Err(read_failure_text(path, why.as_str())),
        },
    }
}

/// Turns what was read of an audio file into its format and raw base64 text. A
/// path that names no audio is refused, whatever was read.
pub fn convert_audio_to_base64(path: &str, read: &FileRead) -> (r: Result<
    (String, String),
    String,
>)
    ensures
        match audio_format(lowercase_of(path@)) {
            None => r is Err && r->Err_0@ == "Unsupported audio format: '"@ + path@ + "'"@,
            Some(format) => match *read {
                Ok(bytes) => r is Ok && r->Ok_0.0@ == format && r->Ok_0.1@ == base64_text(bytes@),
                Err(why) => r is Err && r->Err_0@ == read_failure(path@, why@),
            },
        },
{
    match detect_audio_format(path) {
        None => {
            let mut s = String::from_str("Unsupported audio format: '");
            s.append(path);
            s.append("'");
            Err(s)
        },
        Some(format) => match read {
            Ok(bytes) => Ok((format.to_owned(), base64_encode(bytes))),
            Err(why) => Err(read_failure_text(path, why.as_str())),
        },
    }
}

// ---------------------------------------------------------------------------
// Data URLs
// ---------------------------------------------------------------------------

/// The media type and the payload of a `data:<mime>;base64,<data>` URL.
pub open spec fn data_url_parts(url: Seq<char>) -> Option<(Seq<char>, Seq<char>)> {
    match after_prefix(url, "data:"@) {
        None => None,
        Some(rest) => match split_first(rest, ","@) {
            None => None,
            Some(parts) => match before_suffix(parts.0, ";base64"@) {
                None => None,
                Some(mime) => Some((mime, parts.1)),
            },
        },
    }
}

/// Splits a `data:<mime>;base64,<data>` URL into its media type and payload.
pub fn parse_data_url<'a>(url: &'a str) -> (r: Option<(&'a str, &'a str)>)
    ensures
        opt_pair_view(r) == data_url_parts(url@),
{
    match strip_prefix(url, "data:") {
        None => None,
        Some(rest) => match split_once(rest, ",") {
            None => None,
            Some((head, data)) => match strip_suffix(head, ";base64") {
                None => None,
                Some(mime) => Some((mime, data)),
            },
        },
    }
}

/// Reading a data URL back gives the media type and the payload that it was
/// made of, where the media type holds no comma.
pub proof fn data_url_reads_back(mime: Seq<char>, data: Seq<char>)
    requires
        !mime.contains(','),
    ensures
        data_url_parts(data_url(mime, data)) == Some((mime, data)),
{
    reveal_strlit("data:");
    reveal_strlit(";base64,");
    reveal_strlit(";base64");
    reveal_strlit(",");
    let url = data_url(mime, data);
    let rest = mime + ";base64,"@ + data;
    let head = mime + ";base64"@;
    assert(url =~= "data:"@ + rest);
    assert(url.subrange(0, 5) =~= "data:"@);
    assert(url.skip(5) =~= rest);
    let at = head.len() as int;
    assert(rest =~= head + ","@ + data);
    assert(rest.subrange(at, at + 1) =~= ","@);
    assert forall|k: int| 0 <= k < at implies !occurs_at(rest, ","@, k) by {
        assert(rest[k] == head[k]);
        if occurs_at(rest, ","@, k) {
            assert(rest.subrange(k, k + 1)[0] == rest[k]);
            assert(","@[0] == ',');
            if k < mime.len() {
                assert(mime.contains(mime[k]));
            }
        }
    }
    lemma_first_from(rest, ","@, 0);
    assert(occurs_at(rest, ","@, at));
    assert(first_from(rest, ","@, 0) == Some(at));
    assert(rest.take(at) =~= head);
    assert(rest.skip(at + 1) =~= data);
    assert(head.subrange(head.len() - 7, head.len() as int) =~= ";base64"@);
    assert(head.take(head.len() - 7) =~= mime);
}

} // verus!
