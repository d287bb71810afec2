//! Plain-text attachments for `@file` references.
//!
//! Parses `@path1, @path2, ...` prefixes from the beginning of user input,
//! decides which files are missing or oversized, and pairs each path with the
//! text that was read of it.

use vstd::prelude::*;
use vstd::string::*;

use crate::attach::{
    file_size_text, reference_list, split_references, strip_ats, without_ats, TextRead,
};
use crate::file::{read_failure, read_failure_text};
use crate::text::{lemma_views_push, split, split_on, starts_with, trim, trimmed, views};

verus! {

/// Size threshold for large-file confirmation (1 MiB).
pub const OVERLOADED_BYTES: u64 = 1_048_576;

/// An attached file.
#[derive(Debug, PartialEq, Eq)]
pub struct AttachedFile {
    pub path: String,
    pub content: String,
}

/// The paths and contents of a list of attached files.
pub open spec fn contents_view(v: Seq<AttachedFile>) -> Seq<(Seq<char>, Seq<char>)> {
    v.map_values(|f: AttachedFile| (f.path@, f.content@))
}

/// Formats a file size for people, such as `24.3 MB (25481220 bytes)`.
pub fn format_file_size(bytes: u64) -> (r: String)
    ensures
        r@ == file_size_text(bytes as nat),
{
    crate::attach::format_file_size(bytes)
}

/// The query and the paths of a user input. The query is what is left after the
/// list of files.
pub open spec fn attached_paths(input: Seq<char>) -> (Seq<char>, Seq<Seq<char>>) {
    let t = trimmed(input);
    if !"@"@.is_prefix_of(t) {
        (input, Seq::empty())
    } else {
        match reference_list(t) {
            None => (input, Seq::empty()),
            Some(l) => (
                l.1,
                split_on(l.0, ","@).map_values(|p: Seq<char>| without_ats(trimmed(p))),
            ),
        }
    }
}

/// Parses the leading `@file, @file, ...` prefix of a user input into the query
/// and the paths as the user wrote them; an input without references comes
/// back whole.
pub fn parse_attached_files(input: &str) -> (r: (String, Vec<String>))
    ensures
        (r.0@, views(r.1@)) == attached_paths(input@),
{
    let t = trim(input);
    let mut paths: Vec<String> = Vec::new();
    proof {
        assert(views(paths@) =~= Seq::<Seq<char>>::empty());
        reveal_strlit(",");
    }
    if !starts_with(t, "@") {
        return (input.to_owned(), paths);
    }
    match split_references(t) {
        None => (input.to_owned(), paths),
        Some((list, rest)) => {
            let parts = split(list, ",");
            let mut i: usize = 0;
            while i < parts.len()
                invariant
                    i <= parts@.len(),
                    paths@.len() == i,
                    forall|k: int|
                        0 <= k < i ==> #[trigger] paths@[k]@ == without_ats(trimmed(parts@[k]@)),
                decreases parts@.len() - i,
            {
                let path = strip_ats(trim(parts[i].as_str())).to_owned();
                paths.push(path);
                i = i + 1;
            }
            proof {
                assert(views(paths@) =~= views(parts@).map_values(
                    |p: Seq<char>| without_ats(trimmed(p)),
                ));
            }
            (rest.to_owned(), paths)
        },
    }
}

/// The paths, among the first `n`, of the files that do not exist.
pub open spec fn missing(paths: Seq<Seq<char>>, exists: Seq<bool>, n: int) -> Seq<Seq<char>>
    decreases n,
{
    if n <= 0 {
        Seq::empty()
    } else if !exists[n - 1] {
        missing(paths, exists, n - 1).push(paths[n - 1])
    } else {
        missing(paths, exists, n - 1)
    }
}

/// Decides from what exists whether every path is there. The missing ones are
/// named in order.
pub fn validate_files(paths: &Vec<String>, exists: &Vec<bool>) -> (r: Result<(), Vec<String>>)
    requires
        exists@.len() == paths@.len(),
    ensures
        ({
            let gone = missing(views(paths@), exists@, paths@.len() as int);
            match r {
                Ok(_) => gone.len() == 0,
                Err(out) => gone.len() > 0 && views(out@) == gone,
            }
        }),
{
    let mut out: Vec<String> = Vec::new();
    let mut i: usize = 0;
    proof {
        assert(views(out@) =~= Seq::<Seq<char>>::empty());
    }
    while i < paths.len()
        invariant
            i <= paths@.len(),
            exists@.len() == paths@.len(),
            views(out@) == missing(views(paths@), exists@, i as int),
        decreases paths@.len() - i,
    {
        if !exists[i] {
            let p = paths[i].clone();
            proof {
                lemma_views_push(out@, p);
            }
            out.push(p);
        }
        i = i + 1;
    }
    proof {
        assert(views(out@).len() == out@.len());
    }
    if out.len() == 0 {
        Ok(())
    } else {
        Err(out)
    }
}

/// The paths and sizes, among the first `n`, of the files over `max` bytes.
pub open spec fn oversized(
    paths: Seq<Seq<char>>,
    sizes: Seq<Option<u64>>,
    max: u64,
    n: int,
) -> Seq<(Seq<char>, u64)>
    decreases n,
{
    if n <= 0 {
        Seq::empty()
    } else {
        match sizes[n - 1] {
            Some(len) if len > max => oversized(paths, sizes, max, n - 1).push(
                (paths[n - 1], len),
            ),
            _ => oversized(paths, sizes, max, n - 1),
        }
    }
}

/// The files whose size, where it could be determined, exceeds `max_bytes`.
pub fn check_oversized_files(
    paths: &Vec<String>,
    sizes: &Vec<Option<u64>>,
    max_bytes: u64,
) -> (r: Vec<(String, u64)>)
    requires
        sizes@.len() == paths@.len(),
    ensures
        crate::attach::sized_view(r@) == oversized(
            views(paths@),
            sizes@,
            max_bytes,
            paths@.len() as int,
        ),
{
    let mut out: Vec<(String, u64)> = Vec::new();
    let mut i: usize = 0;
    proof {
        assert(crate::attach::sized_view(out@) =~= Seq::<(Seq<char>, u64)>::empty());
    }
    while i < paths.len()
        invariant
            i <= paths@.len(),
            sizes@.len() == paths@.len(),
            crate::attach::sized_view(out@) == oversized(views(paths@), sizes@, max_bytes, i as int),
        decreases paths@.len() - i,
    {
        match sizes[i] {
            Some(len) => {
                if len > max_bytes {
                    let p = paths[i].clone();
                    proof {
                        assert(crate::attach::sized_view(out@.push((p, len)))
                            =~= crate::attach::sized_view(out@).push((p@, len)));
                    }
                    out.push((p, len));
                }
            },
            None => {},
        }
        i = i + 1;
    }
    out
}

/// The first file that could not be read, among the files at `i` and later.
pub open spec fn first_failure(texts: Seq<TextRead>, i: int) -> int
    decreases texts.len() - i,
{
    if 0 <= i < texts.len() && texts[i] is Ok {
        first_failure(texts, i + 1)
    } else {
        i
    }
}

/// Pairs each path with the text that was read of it, in order; the first file
/// that could not be read fails the whole list.
pub fn read_attached_files(paths: &Vec<String>, texts: &Vec<TextRead>) -> (r: Result<
    Vec<AttachedFile>,
    String,
>)
    requires
        texts@.len() == paths@.len(),
    ensures
        ({
            let stop = first_failure(texts@, 0);
            match r {
                Ok(files) => stop == paths@.len() && contents_view(files@) == Seq::new(
                    paths@.len(),
                    |i: int| (paths@[i]@, texts@[i]->Ok_0@),
                ),
                Err(e) => 0 <= stop < paths@.len() && e@ == read_failure(
                    paths@[stop]@,
                    texts@[stop]->Err_0@,
                ),
            }
        }),
{
    let mut files: Vec<AttachedFile> = Vec::new();
    let mut i: usize = 0;
    while i < paths.len()
        invariant
            i <= paths@.len(),
            texts@.len() == paths@.len(),
            first_failure(texts@, i as int) == first_failure(texts@, 0),
            files@.len() == i,
            forall|k: int|
                0 <= k < i ==> (#[trigger] files@[k]).path@ == paths@[k]@ && files@[k].content@
                    == texts@[k]->Ok_0@,
        decreases paths@.len() - i,
    {
        match &texts[i] {
            Ok(text) => {
                files.push(AttachedFile { path: paths[i].clone(), content: text.clone() });
            },
            Err(why) => {
                return Err(read_failure_text(paths[i].as_str(), why.as_str()));
            },
        }
        i = i + 1;
    }
    proof {
        assert(contents_view(files@) =~= Seq::new(
            paths@.len(),
            |k: int| (paths@[k]@, texts@[k]->Ok_0@),
        ));
    }
    Ok(files)
}

} // verus!
