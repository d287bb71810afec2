//! Media conversion for non-text attachments: the plain forms.

use vstd::prelude::*;
use vstd::string::*;

use crate::file::FileRead;
use crate::startup::{C_DIM_GRAY, RESET};
use crate::text::{decimal, ends_with, u128_text};

verus! {

/// What extracting the text of a page gave: the text, or why it failed.
pub type PageText = Result<String, String>;

/// A text with the sheet of one page.
pub open spec fn with_sheet(out: Seq<char>, i: int, page: PageText) -> Seq<char> {
    let a = if i > 0 {
        out + "\n"@
    } else {
        out
    };
    let b = a + "--- Page "@ + decimal((i + 1) as nat) + " ---\n"@;
    match page {
        Err(e) => b + "[Text extraction error: "@ + e@ + "]\n"@,
        Ok(t) => if t@.len() == 0 {
            b
        } else if "\n"@.is_suffix_of(t@) {
            b + t@
        } else {
            b + t@ + "\n"@
        },
    }
}

/// The sheets of the first `n` pages.
pub open spec fn sheets_text(pages: Seq<PageText>, n: int) -> Seq<char>
    decreases n,
{
    if n <= 0 {
        Seq::empty()
    } else {
        with_sheet(sheets_text(pages, n - 1), n - 1, pages[n - 1])
    }
}

/// Joins the texts of the pages of a PDF, each under a line that gives its
/// number.
pub fn extract_text_from_pdf(pages: &Vec<PageText>) -> (r: String)
    ensures
        r@ == sheets_text(pages@, pages@.len() as int),
{
    let mut out = String::new();
    let mut i: usize = 0;
    while i < pages.len()
        invariant
            i <= pages@.len(),
            out@ == sheets_text(pages@, i as int),
        decreases pages@.len() - i,
    {
        if i > 0 {
            out.append("\n");
        }
        out.append("--- Page ");
        let n = u128_text(i as u128 + 1);
        out.append(n.as_str());
        out.append(" ---\n");
        match &pages[i] {
            Ok(t) => {
                if !t.as_str().is_empty() {
                    out.append(t.as_str());
                    if !ends_with(t.as_str(), "\n") {
                        out.append("\n");
                    }
                }
            },
            Err(e) => {
                out.append("[Text extraction error: ");
                out.append(e.as_str());
                out.append("]\n");
            },
        }
        i = i + 1;
    }
    out
}

/// Turns what was read of an image file into a `data:` URL. A path that names
/// no image is refused, whatever was read.
pub fn convert_image_to_data_url(path: &str, read: &FileRead) -> (r: Result<String, String>)
    ensures
        match crate::file::image_mime(crate::text::lowercase_of(path@)) {
            None => r is Err && r->Err_0@ == "Unsupported image format: '"@ + path@ + "'"@,
            Some(mime) => match *read {
                Ok(bytes) => r is Ok && r->Ok_0@ == crate::file::data_url(
                    mime,
                    crate::file::base64_text(bytes@),
                ),
                Err(why) => r is Err && r->Err_0@ == crate::file::read_failure(path@, why@),
            },
        },
{
    crate::file::convert_image_to_data_url(path, read)
}

/// Turns what was read of an audio file into its format and raw base64 text. A
/// path that names no audio is refused, whatever was read.
pub fn convert_audio_to_base64(path: &str, read: &FileRead) -> (r: Result<
    (String, String),
    String,
>)
    ensures
        match crate::file::audio_format(crate::text::lowercase_of(path@)) {
            None => r is Err && r->Err_0@ == "Unsupported audio format: '"@ + path@ + "'"@,
            Some(format) => match *read {
                Ok(bytes) => r is Ok && r->Ok_0.0@ == format && r->Ok_0.1@
                    == crate::file::base64_text(bytes@),
                Err(why) => r is Err && r->Err_0@ == crate::file::read_failure(path@, why@),
            },
        },
{
    crate::file::convert_audio_to_base64(path, read)
}

/// The name under which a text is saved, on the given attempt.
pub fn converted_name(orig_path: &str, attempt: u64) -> (r: String)
    ensures
        r@ == crate::file_pdf::saved_name(orig_path@, None, attempt),
{
    crate::file_pdf::converted_name(orig_path, None, attempt)
}

/// What is shown of a saved text.
pub fn saved_notice(path: &str) -> (r: String)
    ensures
        r@ == C_DIM_GRAY@ + "[Saved] Converted text written to "@ + path@ + RESET@,
{
    let mut s = String::from_str(C_DIM_GRAY);
    s.append("[Saved] Converted text written to ");
    s.append(path);
    s.append(RESET);
    s
}

} // verus!
