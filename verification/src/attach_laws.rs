//! Laws of attachments: what a user writes before a question is what gets attached.

use vstd::prelude::*;
use vstd::string::*;

use crate::attach::{
    attach_kind, attached_files, attachment, attachments, missing_paths, oversized, read_plan,
    reference_at, references_end, token_spec, without_ats, word_end, AttachMode, AttachedSpecView,
    ReadPlan, TextRead,
};
use crate::file::{file_kind, FileRead, FileTypeView};
use crate::text::{
    decimal, is_digit, is_space, lemma_decimal, lowercase_of, space_end, split_on, text_end,
    trimmed, trimmed_start,
};
use crate::text_laws::{last_parts_split, strung, strung_parts_split, whole_parts_do_not_split};

verus! {

// ---------------------------------------------------------------------------
// What is written
// ---------------------------------------------------------------------------

/// Whether a text can be written as a path in a list of files.
pub open spec fn is_path(p: Seq<char>) -> bool {
    &&& p.len() > 0
    &&& p[0] != '@'
    &&& forall|i: int| 0 <= i < p.len() ==> #[trigger] p[i] != ',' && !is_space(p[i])
}

/// References to files.
pub open spec fn references(paths: Seq<Seq<char>>) -> Seq<Seq<char>> {
    paths.map_values(|p: Seq<char>| seq!['@'] + p)
}

/// Whether a text can be written as a question behind a list of files.
pub open spec fn is_question(q: Seq<char>) -> bool {
    q.len() > 0 && !is_space(q[0]) && !is_space(q.last()) && q[0] != ','
}

proof fn lemma_word(s: Seq<char>, p: Seq<char>, from: int, i: int)
    requires
        is_path(p),
        0 <= from,
        from + p.len() <= s.len(),
        forall|k: int| 0 <= k < p.len() ==> #[trigger] s[from + k] == p[k],
        from + p.len() < s.len() ==> s[from + p.len()] == ',' || is_space(s[from + p.len()]),
        0 <= i <= p.len(),
    ensures
        word_end(s, from + i) == from + p.len(),
    decreases p.len() - i,
{
    if i < p.len() {
        assert(s[from + i] == p[i]);
        lemma_word(s, p, from, i + 1);
    }
}

proof fn lemma_references(
    pre: Seq<char>,
    paths: Seq<Seq<char>>,
    q: Seq<char>,
    k: int,
)
    requires
        0 <= k < paths.len(),
        forall|i: int| 0 <= i < paths.len() ==> is_path(#[trigger] paths[i]),
        is_question(q),
    ensures
        ({
            let l = strung(references(paths), ',', k);
            let s = pre + l + seq![' '] + q;
            &&& reference_at(s, pre.len() as int)
            &&& references_end(s, pre.len() as int) == pre.len() + l.len()
        }),
    decreases paths.len() - k,
{
    let refs = references(paths);
    let l = strung(refs, ',', k);
    let s = pre + l + seq![' '] + q;
    let at = pre.len() as int;
    let p = paths[k];
    assert(refs[k] == seq!['@'] + p);
    let e = at + 1 + p.len();
    assert(l.len() >= 1 + p.len());
    assert(s[at] == l[0]);
    assert(l[0] == refs[k][0]);
    assert forall|x: int| 0 <= x < p.len() implies #[trigger] s[at + 1 + x] == p[x] by {
        assert(l[1 + x] == refs[k][1 + x]);
        assert(s[at + 1 + x] == l[1 + x]);
    }
    if k == paths.len() - 1 {
        assert(l == refs[k]);
        assert(s[e] == ' ');
        lemma_word(s, p, at + 1, 0);
        assert(is_space(' '));
        assert(s[e + 1] == q[0]);
        assert(space_end(s, e + 1) == e + 1);
        assert(space_end(s, e) == e + 1);
    } else {
        let rest = strung(refs, ',', k + 1);
        assert(l =~= refs[k] + seq![','] + rest);
        assert(s[e] == ',') by {
            assert(l[1int + p.len()] == ',');
        }
        lemma_word(s, p, at + 1, 0);
        let pre2 = pre + refs[k] + seq![','];
        assert(s =~= pre2 + rest + seq![' '] + q);
        lemma_references(pre2, paths, q, k + 1);
        assert(pre2.len() == e + 1);
        assert(space_end(s, e) == e);
        assert(s[e + 1] == '@');
        assert(space_end(s, e + 1) == e + 1);
        assert(l.len() == refs[k].len() + 1 + rest.len());
    }
}

proof fn lemma_untrimmed(s: Seq<char>)
    requires
        s.len() > 0,
        !is_space(s[0]),
        !is_space(s.last()),
    ensures
        trimmed(s) == s,
{
    assert(space_end(s, 0) == 0);
    assert(trimmed_start(s) =~= s);
    assert(text_end(s, s.len() as int) == s.len());
    assert(s.take(s.len() as int) =~= s);
}

proof fn lemma_no_comma(paths: Seq<Seq<char>>)
    requires
        forall|i: int| 0 <= i < paths.len() ==> is_path(#[trigger] paths[i]),
    ensures
        forall|i: int|
            0 <= i < references(paths).len() ==> !(#[trigger] references(paths)[i]).contains(','),
{
    assert forall|i: int| 0 <= i < references(paths).len() implies !(#[trigger] references(
        paths,
    )[i]).contains(',') by {
        let r = references(paths)[i];
        if r.contains(',') {
            let x = choose|x: int| 0 <= x < r.len() && r[x] == ',';
            assert(is_path(paths[i]));
            if x > 0 {
                assert(paths[i][x - 1] == ',');
            }
        }
    }
}

proof fn lemma_part(p: Seq<char>)
    requires
        is_path(p),
    ensures
        without_ats(trimmed(seq!['@'] + p)) == p,
{
    let r = seq!['@'] + p;
    assert(r.last() == p[p.len() - 1]);
    lemma_untrimmed(r);
    assert(r.skip(1) =~= p);
    assert(without_ats(p) == p);
}

/// Files written as `@one,@two` before a question are attached, each of them and in
/// order, and the question is what follows.
pub proof fn written_files_are_attached(paths: Seq<Seq<char>>, question: Seq<char>)
    requires
        paths.len() > 0,
        forall|i: int| 0 <= i < paths.len() ==> is_path(#[trigger] paths[i]),
        is_question(question),
    ensures
        ({
            let input = strung(references(paths), ',', 0) + seq![' '] + question;
            let (query, files, mode) = attached_files(input);
            &&& query == question
            &&& mode == AttachMode::Raw
            &&& files.len() == paths.len()
            &&& forall|i: int|
                0 <= i < paths.len() ==> (#[trigger] files[i]).path == paths[i]
                    && files[i].page_range is None
        }),
{
    let refs = references(paths);
    let l = strung(refs, ',', 0);
    let s = l + seq![' '] + question;
    let none = Seq::<char>::empty();
    assert(none + l + seq![' '] + question =~= s);
    lemma_references(none, paths, question, 0);
    assert(refs[0] == seq!['@'] + paths[0]);
    assert(l[0] == refs[0][0]);
    assert(l[1] == refs[0][1]);
    assert(s[0] == '@');
    assert(s[1] == paths[0][0]) by {
        assert(l.len() >= 2);
        assert(refs[0][1] == paths[0][0]);
    }
    assert(s.last() == question.last());
    lemma_untrimmed(s);
    reveal_strlit("@");
    reveal_strlit("@@");
    assert("@"@.is_prefix_of(s)) by {
        assert(s.subrange(0, 1) =~= "@"@);
    }
    assert(!"@@"@.is_prefix_of(s)) by {
        if "@@"@.is_prefix_of(s) {
            assert("@@"@[1] == s.subrange(0, 2)[1]);
        }
    }
    let e = l.len() as int;
    assert(s[e] == ' ');
    assert(s[e + 1] == question[0]);
    assert(space_end(s, e + 1) == e + 1);
    assert(space_end(s, e) == e + 1);
    assert(s.take(e) =~= l);
    assert(s.skip(e + 1) =~= question);
    lemma_no_comma(paths);
    strung_parts_split(none, refs, ',', 0);
    assert(none + l =~= l);
    reveal_strlit(",");
    assert(","@ =~= seq![',']);
    assert(refs.skip(0) =~= refs);
    assert(split_on(l, ","@) == refs);
    let files = attached_files(s).1;
    assert forall|i: int| 0 <= i < paths.len() implies (#[trigger] files[i]).path == paths[i]
        && files[i].page_range is None by {
        lemma_part(paths[i]);
        assert(refs[i] == seq!['@'] + paths[i]);
    }
}

/// With another `@` before the first file the files are attached as extracted text, and
/// each may end in a page range.
pub proof fn extracted_files_are_attached(paths: Seq<Seq<char>>, question: Seq<char>)
    requires
        paths.len() > 0,
        forall|i: int| 0 <= i < paths.len() ==> is_path(#[trigger] paths[i]),
        is_question(question),
    ensures
        ({
            let input = seq!['@'] + strung(references(paths), ',', 0) + seq![' '] + question;
            let (query, files, mode) = attached_files(input);
            &&& query == question
            &&& mode == AttachMode::TextExtraction
            &&& files.len() == paths.len()
            &&& forall|i: int|
                0 <= i < paths.len() ==> #[trigger] files[i] == token_spec(paths[i])
        }),
{
    let refs = references(paths);
    let l = strung(refs, ',', 0);
    let s = l + seq![' '] + question;
    let t = seq!['@'] + l + seq![' '] + question;
    let none = Seq::<char>::empty();
    assert(none + l + seq![' '] + question =~= s);
    lemma_references(none, paths, question, 0);
    assert(refs[0] == seq!['@'] + paths[0]);
    assert(l[0] == refs[0][0]);
    assert(t[0] == '@' && t[1] == '@');
    assert(t.last() == question.last());
    lemma_untrimmed(t);
    reveal_strlit("@");
    reveal_strlit("@@");
    assert("@"@.is_prefix_of(t)) by {
        assert(t.subrange(0, 1) =~= "@"@);
    }
    assert("@@"@.is_prefix_of(t)) by {
        assert(t.subrange(0, 2) =~= "@@"@);
    }
    assert(t.skip(1) =~= s);
    let e = l.len() as int;
    assert(s[e] == ' ');
    assert(s[e + 1] == question[0]);
    assert(space_end(s, e + 1) == e + 1);
    assert(space_end(s, e) == e + 1);
    assert(s.take(e) =~= l);
    assert(s.skip(e + 1) =~= question);
    lemma_no_comma(paths);
    strung_parts_split(none, refs, ',', 0);
    assert(none + l =~= l);
    reveal_strlit(",");
    assert(","@ =~= seq![',']);
    assert(refs.skip(0) =~= refs);
    assert(split_on(l, ","@) == refs);
    let files = attached_files(t).1;
    assert forall|i: int| 0 <= i < paths.len() implies #[trigger] files[i] == token_spec(
        paths[i],
    ) by {
        lemma_part(paths[i]);
        assert(refs[i] == seq!['@'] + paths[i]);
    }
}

/// An input that does not begin with `@` attaches nothing and stays as it is.
pub proof fn other_inputs_attach_nothing(input: Seq<char>)
    requires
        input.len() == 0 || (!is_space(input[0]) && input[0] != '@'),
    ensures
        attached_files(input).0 == input,
        attached_files(input).1.len() == 0,
{
    reveal_strlit("@");
    let t = trimmed(input);
    assert(space_end(input, 0) == 0);
    assert(trimmed_start(input) =~= input);
    if "@"@.is_prefix_of(t) {
        assert("@"@[0] == t.subrange(0, 1)[0]);
        assert(t[0] == '@');
        crate::text::lemma_text_end(input, input.len() as int);
        assert(t[0] == input[0]);
    }
}

proof fn lemma_digits_plain(n: nat, c: char)
    requires
        !is_digit(c),
    ensures
        !decimal(n).contains(c),
        decimal(n).len() > 0,
{
    lemma_decimal(n);
    if decimal(n).contains(c) {
        let i = choose|i: int| 0 <= i < decimal(n).len() && decimal(n)[i] == c;
        assert(is_digit(decimal(n)[i]));
    }
}

/// A page range behind a path is read as that range, a single page as a range of one, and
/// a path without a colon is the whole.
pub proof fn page_ranges_are_read(path: Seq<char>, first: usize, last: usize)
    requires
        path.len() > 0,
        !path.contains('\n'),
    ensures
        token_spec(path + seq![':'] + (decimal(first as nat) + seq!['-'] + decimal(last as nat)))
            == (AttachedSpecView { path, page_range: Some((first, last)) }),
        token_spec(path + seq![':'] + decimal(first as nat)) == (AttachedSpecView {
            path,
            page_range: Some((first, first)),
        }),
        !path.contains(':') ==> token_spec(path) == (AttachedSpecView { path, page_range: None }),
{
    reveal_strlit(":");
    reveal_strlit("-");
    assert(":"@ =~= seq![':']);
    assert("-"@ =~= seq!['-']);
    let a = decimal(first as nat);
    let b = decimal(last as nat);
    lemma_decimal(first as nat);
    lemma_decimal(last as nat);
    lemma_digits_plain(first as nat, ':');
    lemma_digits_plain(last as nat, ':');
    lemma_digits_plain(first as nat, '-');
    lemma_digits_plain(last as nat, '-');
    let range = a + seq!['-'] + b;
    assert(!range.contains(':')) by {
        if range.contains(':') {
            let i = choose|i: int| 0 <= i < range.len() && range[i] == ':';
            if i < a.len() {
                assert(a.contains(a[i]));
            } else if i > a.len() {
                assert(b.contains(b[i - a.len() - 1]));
            }
        }
    }
    last_parts_split(path, ':', range);
    last_parts_split(a, '-', b);
    last_parts_split(path, ':', a);
    whole_parts_do_not_split(a, '-');
    if !path.contains(':') {
        whole_parts_do_not_split(path, ':');
    }
}

// ---------------------------------------------------------------------------
// What is attached
// ---------------------------------------------------------------------------

/// The missing files are just those that do not exist.
pub proof fn missing_files_do_not_exist(
    specs: Seq<AttachedSpecView>,
    exists_: Seq<bool>,
    n: int,
    p: Seq<char>,
)
    requires
        0 <= n <= specs.len(),
    ensures
        missing_paths(specs, exists_, n).contains(p) <==> exists|i: int|
            0 <= i < n && (#[trigger] specs[i]).path == p && !exists_[i],
        missing_paths(specs, exists_, n).len() == 0 <==> forall|i: int|
            0 <= i < n ==> #[trigger] exists_[i],
    decreases n,
{
    if n > 0 {
        missing_files_do_not_exist(specs, exists_, n - 1, p);
        let before = missing_paths(specs, exists_, n - 1);
        let out = missing_paths(specs, exists_, n);
        if !exists_[n - 1] {
            assert(out[out.len() - 1] == specs[n - 1].path);
            if before.contains(p) {
                let k = choose|k: int| 0 <= k < before.len() && before[k] == p;
                assert(out[k] == p);
            }
            if out.contains(p) {
                let k = choose|k: int| 0 <= k < out.len() && out[k] == p;
                if k < before.len() {
                    assert(before[k] == p);
                }
            }
        }
    }
}

/// The files to ask about are just those over the limit, each with its size.
pub proof fn large_files_are_over_the_limit(
    specs: Seq<AttachedSpecView>,
    sizes: Seq<Option<u64>>,
    max: u64,
    n: int,
    f: (Seq<char>, u64),
)
    requires
        0 <= n <= specs.len(),
    ensures
        oversized(specs, sizes, max, n).contains(f) <==> exists|i: int|
            0 <= i < n && (#[trigger] specs[i]).path == f.0 && sizes[i] == Some(f.1) && f.1 > max,
    decreases n,
{
    if n > 0 {
        large_files_are_over_the_limit(specs, sizes, max, n - 1, f);
        let before = oversized(specs, sizes, max, n - 1);
        let out = oversized(specs, sizes, max, n);
        if sizes[n - 1] is Some && sizes[n - 1]->0 > max {
            assert(out[out.len() - 1] == (specs[n - 1].path, sizes[n - 1]->0));
            if before.contains(f) {
                let k = choose|k: int| 0 <= k < before.len() && before[k] == f;
                assert(out[k] == f);
            }
            if out.contains(f) {
                let k = choose|k: int| 0 <= k < out.len() && out[k] == f;
                if k < before.len() {
                    assert(before[k] == f);
                } else {
                    assert(specs[n - 1].path == f.0);
                }
            }
        }
    }
}

/// All files are attached, in order, or none: the first that fails fails the list.
pub proof fn all_files_are_attached_or_none(
    specs: Seq<AttachedSpecView>,
    mode: AttachMode,
    texts: Seq<TextRead>,
    bytes: Seq<FileRead>,
    n: int,
)
    requires
        0 <= n <= specs.len(),
    ensures
        attachments(specs, mode, texts, bytes, n) is Ok <==> forall|i: int|
            0 <= i < n ==> attachment(#[trigger] specs[i], mode, texts[i], bytes[i]) is Ok,
        attachments(specs, mode, texts, bytes, n) is Ok ==> attachments(
            specs,
            mode,
            texts,
            bytes,
            n,
        )->Ok_0.len() == n,
        forall|i: int|
            0 <= i < n && attachments(specs, mode, texts, bytes, n) is Ok ==> (
            #[trigger] attachments(specs, mode, texts, bytes, n)->Ok_0[i]) == attachment(
                specs[i],
                mode,
                texts[i],
                bytes[i],
            )->Ok_0,
    decreases n,
{
    if n > 0 {
        all_files_are_attached_or_none(specs, mode, texts, bytes, n - 1);
        if attachments(specs, mode, texts, bytes, n - 1) is Ok && attachment(
            specs[n - 1],
            mode,
            texts[n - 1],
            bytes[n - 1],
        ) is Ok {
            assert forall|i: int| 0 <= i < n implies attachment(
                #[trigger] specs[i],
                mode,
                texts[i],
                bytes[i],
            ) is Ok by {}
        }
    }
}

/// An attachment has the path and the pages that were asked for. A text holds the text
/// that was read; an image is a data URL of its bytes; a sound or a document is its bytes
/// in base 64. A file that could not be read is not attached.
pub proof fn attachments_hold_what_was_read(
    spec: AttachedSpecView,
    mode: AttachMode,
    text: TextRead,
    bytes: FileRead,
)
    ensures
        ({
            let a = attachment(spec, mode, text, bytes);
            let plan = read_plan(spec, mode);
            &&& a is Ok ==> a->Ok_0.path == spec.path && a->Ok_0.page_range == spec.page_range
            &&& plan == ReadPlan::Refused ==> a is Err
            &&& plan == ReadPlan::Text || plan == ReadPlan::PdfText ==> {
                &&& a is Ok <==> text is Ok
                &&& a is Ok ==> a->Ok_0.attach_type == FileTypeView::Text && a->Ok_0.content
                    == text->Ok_0@
            }
            &&& plan == ReadPlan::Bytes ==> {
                &&& a is Ok <==> bytes is Ok
                &&& a is Ok ==> match a->Ok_0.attach_type {
                    FileTypeView::Text => false,
                    FileTypeView::Image(mime) => a->Ok_0.content == "data:"@ + mime + ";base64,"@
                        + crate::file::base64_text(bytes->Ok_0@),
                    _ => a->Ok_0.content == crate::file::base64_text(bytes->Ok_0@),
                }
            }
        }),
{
}

/// What is read of a file goes by its name: a PDF is read as extracted text where text
/// is asked for, and only a PDF has pages.
pub proof fn names_decide_what_is_read(spec: AttachedSpecView)
    ensures
        ({
            let pdf = ".pdf"@.is_suffix_of(lowercase_of(spec.path));
            &&& pdf ==> read_plan(spec, AttachMode::TextExtraction) == ReadPlan::PdfText
            &&& pdf ==> read_plan(spec, AttachMode::Raw) == ReadPlan::Bytes && attach_kind(
                spec.path,
                AttachMode::Raw,
            ) == FileTypeView::Document("application/pdf"@)
            &&& !pdf ==> read_plan(spec, AttachMode::Raw) == read_plan(
                spec,
                AttachMode::TextExtraction,
            )
            &&& !pdf && attach_kind(spec.path, AttachMode::Raw) == FileTypeView::Text && spec.page_range
                is Some ==> read_plan(spec, AttachMode::Raw) == ReadPlan::Refused
        }),
{
}

/// A file is of the kind that its ending says, whatever comes before it.
pub proof fn endings_decide_the_kind(stem: Seq<char>)
    ensures
        file_kind(stem + ".pdf"@) == FileTypeView::Document("application/pdf"@),
        file_kind(stem + ".png"@) == FileTypeView::Image("image/png"@),
        file_kind(stem + ".jpg"@) == FileTypeView::Image("image/jpeg"@),
        file_kind(stem + ".gif"@) == FileTypeView::Image("image/gif"@),
        file_kind(stem + ".wav"@) == FileTypeView::Audio("wav"@),
        file_kind(stem + ".mp3"@) == FileTypeView::Audio("mp3"@),
        file_kind(stem + ".jpeg"@) == FileTypeView::Image("image/jpeg"@),
        file_kind(stem + ".webp"@) == FileTypeView::Image("image/webp"@),
{
    reveal_strlit(".pdf");
    reveal_strlit(".png");
    reveal_strlit(".jpg");
    reveal_strlit(".gif");
    reveal_strlit(".wav");
    reveal_strlit(".mp3");
    reveal_strlit(".jpeg");
    reveal_strlit(".webp");
    lemma_four(stem, ".pdf"@);
    lemma_four(stem, ".png"@);
    lemma_four(stem, ".jpg"@);
    lemma_four(stem, ".gif"@);
    lemma_four(stem, ".wav"@);
    lemma_four(stem, ".mp3"@);
    lemma_four(stem, ".jpeg"@);
    lemma_four(stem, ".webp"@);
}

/// What a path ends in, by its last character but three.
proof fn lemma_four(stem: Seq<char>, ext: Seq<char>)
    requires
        ext.len() >= 4,
    ensures
        ext.is_suffix_of(stem + ext),
        forall|o: Seq<char>|
            4 <= o.len() && #[trigger] o.is_suffix_of(stem + ext) ==> o[o.len() - 1] == ext[ext.len()
                - 1] && o[o.len() - 2] == ext[ext.len() - 2] && o[o.len() - 3] == ext[ext.len() - 3]
                && o[o.len() - 4] == ext[ext.len() - 4],
{
    let s = stem + ext;
    assert(s.subrange(s.len() - ext.len(), s.len() as int) =~= ext);
    assert forall|o: Seq<char>| 4 <= o.len() && #[trigger] o.is_suffix_of(s) implies o[o.len() - 1]
        == ext[ext.len() - 1] && o[o.len() - 2] == ext[ext.len() - 2] && o[o.len() - 3]
        == ext[ext.len() - 3] && o[o.len() - 4] == ext[ext.len() - 4] by {
        let t = s.subrange(s.len() - o.len(), s.len() as int);
        assert(o =~= t);
        assert(t[o.len() - 1] == s[s.len() - 1] && s[s.len() - 1] == ext[ext.len() - 1]);
        assert(t[o.len() - 2] == s[s.len() - 2] && s[s.len() - 2] == ext[ext.len() - 2]);
        assert(t[o.len() - 3] == s[s.len() - 3] && s[s.len() - 3] == ext[ext.len() - 3]);
        assert(t[o.len() - 4] == s[s.len() - 4] && s[s.len() - 4] == ext[ext.len() - 4]);
    }
}

} // verus!
