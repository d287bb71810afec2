//! Text over sequences of characters.
//!
//! Every string operation that the rest of the library relies on is stated
//! here over `Seq<char>` and implemented next to its statement.

use vstd::prelude::*;
use vstd::string::*;
use vstd::utf8::*;

verus! {

// ---------------------------------------------------------------------------
// Strings and their characters
// ---------------------------------------------------------------------------

/// `String::push`: the string grows by exactly the given character.
pub assume_specification[ String::push ](s: &mut String, c: char)
    ensures
        final(s)@ == old(s)@.push(c),
;

/// The contents of a list of strings.
pub open spec fn views(v: Seq<String>) -> Seq<Seq<char>> {
    v.map_values(|s: String| s@)
}

pub proof fn lemma_views_push(v: Seq<String>, s: String)
    ensures
        views(v.push(s)) == views(v).push(s@),
{
    assert(views(v.push(s)) =~= views(v).push(s@));
}

/// The contents of an optional string.
pub open spec fn opt_view(o: Option<String>) -> Option<Seq<char>> {
    match o {
        Some(s) => Some(s@),
        None => None,
    }
}

/// The contents of a list of pairs of strings.
pub open spec fn pairs_view(v: Seq<(String, String)>) -> Seq<(Seq<char>, Seq<char>)> {
    v.map_values(|p: (String, String)| (p.0@, p.1@))
}

/// The characters of `s`, in order.
pub fn chars_of(s: &str) -> (r: Vec<char>)
    ensures
        r@ == s@,
{
    let mut out: Vec<char> = Vec::new();
    for c in it: s.chars()
        invariant
            out@ == s@.take(it.index() as int),
            it.seq() == s@,
    {
        proof {
            assert(s@.take(it.index() as int).push(c) =~= s@.take(it.index() + 1));
        }
        out.push(c);
    }
    proof {
        assert(s@.take(s@.len() as int) =~= s@);
    }
    out
}

/// The string made of the characters `from..to` of `cs`.
pub fn string_of(cs: &Vec<char>, from: usize, to: usize) -> (r: String)
    requires
        from <= to <= cs@.len(),
    ensures
        r@ == cs@.subrange(from as int, to as int),
{
    let mut s = String::new();
    let mut i: usize = from;
    while i < to
        invariant
            from <= i <= to <= cs@.len(),
            s@ == cs@.subrange(from as int, i as int),
        decreases to - i,
    {
        s.push(cs[i]);
        i = i + 1;
        proof {
            assert(cs@.subrange(from as int, i as int) =~= cs@.subrange(from as int, i - 1).push(
                cs@[i - 1],
            ));
        }
    }
    s
}

/// Number of bytes of the UTF-8 form of `s`.
pub open spec fn utf8_len(s: Seq<char>) -> nat {
    encode_utf8(s).len()
}

/// A text has at least as many bytes as characters.
pub proof fn lemma_byte_len(s: Seq<char>)
    ensures
        utf8_len(s) >= s.len(),
    decreases s.len(),
{
    if s.len() > 0 {
        lemma_byte_len(s.drop_first());
        encode_utf8_first_scalar(s);
        char_is_scalar(s[0]);
    }
}

/// Length of `s` in bytes.
pub fn byte_len(s: &str) -> (r: usize)
    ensures
        r == utf8_len(s@),
{
    s.as_bytes().len()
}

/// What is wrong with bytes that are no UTF-8.
pub struct FaultView {
    /// The error in words.
    pub message: Seq<char>,
    /// Whether no further bytes can mend it.
    pub broken: bool,
}

/// What `std::str::from_utf8` says of bytes that are no UTF-8.
pub uninterp spec fn utf8_fault(bytes: Seq<u8>) -> FaultView;

/// What is wrong with bytes that are no UTF-8, and how many of them are.
#[derive(Debug, PartialEq, Eq)]
pub struct Utf8Fault {
    pub message: String,
    pub broken: bool,
    pub valid: usize,
}

/// `std::str::from_utf8`: the text where the bytes are UTF-8, else the error.
/// Its words, and whether it has a length, are a function of the bytes alone;
/// the bytes before it are the longest beginning that is UTF-8.
#[verifier::external_body]
pub(crate) fn utf8_text(bytes: &Vec<u8>) -> (r: Result<String, Utf8Fault>)
    ensures
        match r {
            Ok(s) => valid_utf8(bytes@) && s@ == decode_utf8(bytes@),
            Err(e) => {
                &&& !valid_utf8(bytes@)
                &&& e.message@ == utf8_fault(bytes@).message
                &&& e.broken == utf8_fault(bytes@).broken
                &&& e.valid < bytes@.len()
                &&& valid_utf8(bytes@.take(e.valid as int))
                &&& forall|n: int|
                    e.valid < n <= bytes@.len() ==> !valid_utf8(#[trigger] bytes@.take(n))
            },
        },
{
    match std::str::from_utf8(bytes) {
        Ok(s) => Ok(s.to_string()),
        Err(e) => Err(Utf8Fault {
            message: e.to_string(),
            broken: e.error_len().is_some(),
            valid: e.valid_up_to(),
        }),
    }
}

/// The last edge between characters at or before byte `b`.
pub open spec fn edge_upto(bytes: Seq<u8>, b: int) -> int
    decreases b,
{
    if b <= 0 {
        0
    } else if is_char_boundary(bytes, b) {
        b
    } else {
        edge_upto(bytes, b - 1)
    }
}

/// The leading characters of `s` that fit into `max` bytes.
pub open spec fn head_within(s: Seq<char>, max: nat) -> Seq<char> {
    let bytes = encode_utf8(s);
    if bytes.len() <= max {
        s
    } else {
        decode_utf8(bytes.take(edge_upto(bytes, max as int)))
    }
}

/// The leading characters of `s` that fit into `max` bytes.
pub fn cut_bytes<'a>(s: &'a str, max: usize) -> (r: &'a str)
    ensures
        r@ == head_within(s@, max as nat),
{
    let ghost bytes = encode_utf8(s@);
    if byte_len(s) <= max {
        return s;
    }
    let mut b: usize = max;
    proof {
        encode_utf8_valid_utf8(s@);
        is_char_boundary_start_end_of_seq(bytes);
    }
    while b > 0 && !s.is_char_boundary(b)
        invariant
            bytes == encode_utf8(s@),
            b <= max < bytes.len(),
            edge_upto(bytes, b as int) == edge_upto(bytes, max as int),
        decreases b,
    {
        b = b - 1;
    }
    let (head, _) = s.split_at(b);
    proof {
        encode_utf8_decode_utf8(head@);
        assert(bytes.subrange(0, b as int) =~= bytes.take(b as int));
    }
    head
}

/// Whether two strings hold the same characters.
pub fn str_eq(a: &str, b: &str) -> (r: bool)
    ensures
        r == (a@ == b@),
{
    let x = a.as_bytes();
    let y = b.as_bytes();
    if x.len() != y.len() {
        return false;
    }
    let mut i: usize = 0;
    while i < x.len()
        invariant
            i <= x@.len(),
            x@.len() == y@.len(),
            x@ == encode_utf8(a@),
            y@ == encode_utf8(b@),
            forall|k: int| 0 <= k < i ==> x@[k] == y@[k],
        decreases x@.len() - i,
    {
        if x[i] != y[i] {
            return false;
        }
        i = i + 1;
    }
    proof {
        assert(x@ =~= y@);
        encode_utf8_decode_utf8(a@);
        encode_utf8_decode_utf8(b@);
    }
    true
}

/// Whether an optional string is present and equal to `b`.
pub fn opt_is(a: Option<&str>, b: &str) -> (r: bool)
    ensures
        r == (a is Some && a->0@ == b@),
{
    match a {
        Some(s) => str_eq(s, b),
        None => false,
    }
}

/// The text, or `d` where there is none.
pub open spec fn text_or(o: Option<Seq<char>>, d: Seq<char>) -> Seq<char> {
    match o {
        Some(s) => s,
        None => d,
    }
}

pub fn str_or<'a>(o: Option<&'a str>, d: &'a str) -> (r: &'a str)
    ensures
        r@ == text_or(opt_str_view(o), d@),
{
    match o {
        Some(s) => s,
        None => d,
    }
}

/// Whether `needle` is one of the listed strings.
pub fn list_has(list: &Vec<String>, needle: &str) -> (r: bool)
    ensures
        r == views(list@).contains(needle@),
{
    let mut i: usize = 0;
    while i < list.len()
        invariant
            i <= list@.len(),
            forall|k: int| 0 <= k < i ==> list@[k]@ != needle@,
        decreases list@.len() - i,
    {
        if str_eq(list[i].as_str(), needle) {
            proof {
                assert(views(list@)[i as int] == needle@);
            }
            return true;
        }
        i = i + 1;
    }
    proof {
        assert forall|k: int| 0 <= k < views(list@).len() implies views(list@)[k] != needle@ by {
            assert(views(list@)[k] == list@[k]@);
        }
    }
    false
}

// ---------------------------------------------------------------------------
// Character classes
// ---------------------------------------------------------------------------

/// The Unicode `White_Space` characters.
pub open spec fn is_space(c: char) -> bool {
    let n = c as u32;
    ||| 9 <= n <= 13
    ||| n == 32
    ||| n == 0x85
    ||| n == 0xA0
    ||| n == 0x1680
    ||| 0x2000 <= n <= 0x200A
    ||| n == 0x2028
    ||| n == 0x2029
    ||| n == 0x202F
    ||| n == 0x205F
    ||| n == 0x3000
}

/// Whether `c` has the Unicode `White_Space` property.
pub fn char_is_space(c: char) -> (r: bool)
    ensures
        r == is_space(c),
{
    let n: u32 = c as u32;
    (9 <= n && n <= 13) || n == 32 || n == 0x85 || n == 0xA0 || n == 0x1680 || (0x2000 <= n && n
        <= 0x200A) || n == 0x2028 || n == 0x2029 || n == 0x202F || n == 0x205F || n == 0x3000
}

pub open spec fn is_digit(c: char) -> bool {
    '0' <= c <= '9'
}

/// Whether a character is an ASCII letter.
pub open spec fn is_letter(c: char) -> bool {
    ('a' <= c && c <= 'z') || ('A' <= c && c <= 'Z')
}

/// End of the run of ASCII digits that starts at `i`.
pub open spec fn digit_end(s: Seq<char>, i: int) -> int
    decreases s.len() - i,
{
    if 0 <= i < s.len() && is_digit(s[i]) {
        digit_end(s, i + 1)
    } else {
        i
    }
}

pub fn char_is_digit(c: char) -> (r: bool)
    ensures
        r == is_digit(c),
{
    '0' <= c && c <= '9'
}

pub open spec fn is_ascii_alnum(c: char) -> bool {
    is_digit(c) || 'a' <= c <= 'z' || 'A' <= c <= 'Z'
}

pub fn char_is_ascii_alnum(c: char) -> (r: bool)
    ensures
        r == is_ascii_alnum(c),
{
    ('0' <= c && c <= '9') || ('a' <= c && c <= 'z') || ('A' <= c && c <= 'Z')
}

/// The ASCII lower-case form of a character.
pub open spec fn ascii_lower_char(c: char) -> char {
    if 'A' <= c <= 'Z' {
        ((c as u32 + 32) as u32) as char
    } else {
        c
    }
}

pub open spec fn ascii_lower(s: Seq<char>) -> Seq<char> {
    s.map_values(|c: char| ascii_lower_char(c))
}

pub fn char_ascii_lower(c: char) -> (r: char)
    ensures
        r == ascii_lower_char(c),
{
    if 'A' <= c && c <= 'Z' {
        ((c as u8) + 32) as char
    } else {
        c
    }
}

/// `s` with its ASCII letters in lower case.
pub fn to_ascii_lower(s: &str) -> (r: String)
    ensures
        r@ == ascii_lower(s@),
{
    let cs = chars_of(s);
    let mut out = String::new();
    let mut i: usize = 0;
    proof {
        assert(out@ =~= ascii_lower(s@).take(0));
    }
    while i < cs.len()
        invariant
            cs@ == s@,
            i <= cs@.len(),
            out@ == ascii_lower(s@).take(i as int),
        decreases cs@.len() - i,
    {
        out.push(char_ascii_lower(cs[i]));
        i = i + 1;
        proof {
            let all = ascii_lower(s@);
            assert(all.take(i as int) =~= all.take(i - 1).push(all[i - 1]));
        }
    }
    proof {
        assert(ascii_lower(s@).take(s@.len() as int) =~= ascii_lower(s@));
    }
    out
}

/// `c` with an ASCII small letter made a capital.
pub open spec fn ascii_upper_char(c: char) -> char {
    if 'a' <= c && c <= 'z' {
        ((c as u32) - 32) as char
    } else {
        c
    }
}

/// `s` with its ASCII letters in upper case.
pub open spec fn ascii_upper(s: Seq<char>) -> Seq<char> {
    s.map_values(|c: char| ascii_upper_char(c))
}

/// Lowering the letters forgets that they were raised.
pub proof fn lemma_case_forgotten(s: Seq<char>)
    ensures
        ascii_lower(ascii_upper(s)) == ascii_lower(s),
{
    assert forall|i: int| 0 <= i < s.len() implies ascii_lower_char(ascii_upper_char(s[i]))
        == ascii_lower_char(#[trigger] s[i]) by {
        let c = s[i];
        if 'a' <= c && c <= 'z' {
            let n = c as u32;
            assert(97 <= n <= 122);
            assert(((n - 32) as char) as u32 == n - 32);
        }
    }
    assert(ascii_lower(ascii_upper(s)) =~= ascii_lower(s));
}

/// Whether two strings agree when ASCII letters are compared without case.
pub fn eq_ignore_ascii_case(a: &str, b: &str) -> (r: bool)
    ensures
        r == (ascii_lower(a@) == ascii_lower(b@)),
{
    let x = chars_of(a);
    let y = chars_of(b);
    proof {
        assert(ascii_lower(a@).len() == a@.len());
        assert(ascii_lower(b@).len() == b@.len());
    }
    if x.len() != y.len() {
        return false;
    }
    let mut i: usize = 0;
    while i < x.len()
        invariant
            i <= x@.len(),
            x@.len() == y@.len(),
            x@ == a@,
            y@ == b@,
            forall|k: int| 0 <= k < i ==> ascii_lower_char(x@[k]) == ascii_lower_char(y@[k]),
        decreases x@.len() - i,
    {
        if char_ascii_lower(x[i]) != char_ascii_lower(y[i]) {
            proof {
                assert(ascii_lower(a@)[i as int] != ascii_lower(b@)[i as int]);
            }
            return false;
        }
        i = i + 1;
    }
    proof {
        assert(ascii_lower(a@) =~= ascii_lower(b@));
    }
    true
}

/// What `str::to_lowercase` gives.
pub uninterp spec fn unicode_lower(s: Seq<char>) -> Seq<char>;

/// The Unicode lower-case form of a text, spelled out where the text is ASCII.
pub open spec fn lowercase_of(s: Seq<char>) -> Seq<char> {
    if is_ascii_chars(s) {
        ascii_lower(s)
    } else {
        unicode_lower(s)
    }
}

/// `str::to_lowercase`. The result is a function of the text alone; on a text
/// of ASCII characters it lowers each letter and keeps everything else.
#[verifier::external_body]
pub(crate) fn to_lowercase(s: &str) -> (r: String)
    ensures
        r@ == unicode_lower(s@),
        is_ascii_chars(s@) ==> r@ == ascii_lower(s@),
{
    s.to_lowercase()
}

// ---------------------------------------------------------------------------
// Trimming
// ---------------------------------------------------------------------------

/// First position at or after `i` that holds no white space.
pub open spec fn space_end(s: Seq<char>, i: int) -> int
    decreases s.len() - i,
{
    if 0 <= i < s.len() && is_space(s[i]) {
        space_end(s, i + 1)
    } else {
        i
    }
}

/// Length of the prefix of length `n` without its trailing white space.
pub open spec fn text_end(s: Seq<char>, n: int) -> int
    decreases n,
{
    if 0 < n <= s.len() && is_space(s[n - 1]) {
        text_end(s, n - 1)
    } else {
        n
    }
}

pub open spec fn trimmed_start(s: Seq<char>) -> Seq<char> {
    s.skip(space_end(s, 0))
}

pub open spec fn trimmed_end(s: Seq<char>) -> Seq<char> {
    s.take(text_end(s, s.len() as int))
}

pub open spec fn trimmed(s: Seq<char>) -> Seq<char> {
    trimmed_end(trimmed_start(s))
}

pub proof fn lemma_space_end(s: Seq<char>, i: int)
    requires
        0 <= i <= s.len(),
    ensures
        i <= space_end(s, i) <= s.len(),
        space_end(s, i) < s.len() ==> !is_space(s[space_end(s, i)]),
    decreases s.len() - i,
{
    if i < s.len() && is_space(s[i]) {
        lemma_space_end(s, i + 1);
    }
}

pub proof fn lemma_text_end(s: Seq<char>, n: int)
    requires
        0 <= n <= s.len(),
    ensures
        0 <= text_end(s, n) <= n,
        text_end(s, n) > 0 ==> !is_space(s[text_end(s, n) - 1]),
    decreases n,
{
    if 0 < n && is_space(s[n - 1]) {
        lemma_text_end(s, n - 1);
    }
}

/// `s` without leading white space.
pub fn trim_start<'a>(s: &'a str) -> (r: &'a str)
    ensures
        r@ == trimmed_start(s@),
{
    let cs = chars_of(s);
    let mut i: usize = 0;
    while i < cs.len() && char_is_space(cs[i])
        invariant
            i <= cs@.len(),
            cs@ == s@,
            space_end(s@, i as int) == space_end(s@, 0),
        decreases cs@.len() - i,
    {
        i = i + 1;
    }
    s.substring_char(i, cs.len())
}

/// `s` without trailing white space.
pub fn trim_end<'a>(s: &'a str) -> (r: &'a str)
    ensures
        r@ == trimmed_end(s@),
{
    let cs = chars_of(s);
    let mut n: usize = cs.len();
    while n > 0 && char_is_space(cs[n - 1])
        invariant
            n <= cs@.len(),
            cs@ == s@,
            text_end(s@, n as int) == text_end(s@, s@.len() as int),
        decreases n,
    {
        n = n - 1;
    }
    s.substring_char(0, n)
}

/// `s` without surrounding white space.
pub fn trim<'a>(s: &'a str) -> (r: &'a str)
    ensures
        r@ == trimmed(s@),
{
    trim_end(trim_start(s))
}

// ---------------------------------------------------------------------------
// Searching
// ---------------------------------------------------------------------------

/// `p` stands in `s` at position `i`.
pub open spec fn occurs_at(s: Seq<char>, p: Seq<char>, i: int) -> bool {
    0 <= i && i + p.len() <= s.len() && s.subrange(i, i + p.len()) == p
}

/// The first position at or after `i` where `p` stands in `s`.
pub open spec fn first_from(s: Seq<char>, p: Seq<char>, i: int) -> Option<int>
    decreases s.len() + 1 - i,
{
    if i < 0 || i + p.len() > s.len() {
        None
    } else if occurs_at(s, p, i) {
        Some(i)
    } else {
        first_from(s, p, i + 1)
    }
}

/// The last position at or before `i` where `p` stands in `s`.
pub open spec fn last_upto(s: Seq<char>, p: Seq<char>, i: int) -> Option<int>
    decreases i + 1,
{
    if i < 0 {
        None
    } else if occurs_at(s, p, i) {
        Some(i)
    } else {
        last_upto(s, p, i - 1)
    }
}

pub open spec fn text_contains(s: Seq<char>, p: Seq<char>) -> bool {
    exists|i: int| occurs_at(s, p, i)
}

pub proof fn lemma_first_from(s: Seq<char>, p: Seq<char>, i: int)
    requires
        0 <= i,
    ensures
        match first_from(s, p, i) {
            Some(k) => i <= k && occurs_at(s, p, k) && forall|j: int| i <= j < k ==> !occurs_at(s, p, j),
            None => forall|j: int| i <= j ==> !occurs_at(s, p, j),
        },
    decreases s.len() + 1 - i,
{
    if i + p.len() <= s.len() && !occurs_at(s, p, i) {
        lemma_first_from(s, p, i + 1);
    }
}

pub proof fn lemma_last_upto(s: Seq<char>, p: Seq<char>, i: int)
    ensures
        match last_upto(s, p, i) {
            Some(k) => k <= i && occurs_at(s, p, k),
            None => forall|j: int| 0 <= j <= i ==> !occurs_at(s, p, j),
        },
    decreases i + 1,
{
    if i >= 0 && !occurs_at(s, p, i) {
        lemma_last_upto(s, p, i - 1);
    }
}

/// Whether `p` stands in `s` at `i`.
pub fn at(s: &Vec<char>, p: &Vec<char>, i: usize) -> (r: bool)
    ensures
        r == occurs_at(s@, p@, i as int),
{
    if p.len() > s.len() || i > s.len() - p.len() {
        return false;
    }
    let n: usize = s.len();
    let mut k: usize = 0;
    while k < p.len()
        invariant
            k <= p@.len(),
            n == s@.len(),
            i + p@.len() <= n,
            forall|j: int| 0 <= j < k ==> s@[i + j] == p@[j],
        decreases p@.len() - k,
    {
        if s[i + k] != p[k] {
            proof {
                assert(s@.subrange(i as int, i + p@.len())[k as int] != p@[k as int]);
            }
            return false;
        }
        k = k + 1;
    }
    proof {
        assert(s@.subrange(i as int, i + p@.len()) =~= p@);
    }
    true
}

/// The first position at or after `from` where `p` stands in `s`.
pub fn find_from(s: &Vec<char>, p: &Vec<char>, from: usize) -> (r: Option<usize>)
    ensures
        match r {
            Some(i) => first_from(s@, p@, from as int) == Some(i as int) && from <= i && i + p@.len()
                <= s@.len(),
            None => first_from(s@, p@, from as int) is None,
        },
{
    if p.len() > s.len() {
        return None;
    }
    let last: usize = s.len() - p.len();
    let mut i: usize = from;
    while i <= last
        invariant
            from <= i,
            last == s@.len() - p@.len(),
            first_from(s@, p@, i as int) == first_from(s@, p@, from as int),
        decreases last + 1 - i,
    {
        if at(s, p, i) {
            return Some(i);
        }
        if i == last {
            proof {
                reveal_with_fuel(first_from, 2);
            }
            return None;
        }
        i = i + 1;
    }
    None
}

/// Whether `p` occurs in `s`.
pub fn contains(s: &str, p: &str) -> (r: bool)
    ensures
        r == text_contains(s@, p@),
{
    let cs = chars_of(s);
    let ps = chars_of(p);
    proof {
        lemma_first_from(s@, p@, 0);
    }
    match find_from(&cs, &ps, 0) {
        Some(_) => true,
        None => {
            proof {
                assert forall|i: int| !occurs_at(s@, p@, i) by {
                    if i >= 0 {
                        assert(!occurs_at(s@, p@, i));
                    }
                }
            }
            false
        },
    }
}

/// Whether `s` holds the character `c`.
pub fn contains_char(s: &str, c: char) -> (r: bool)
    ensures
        r == s@.contains(c),
{
    let cs = chars_of(s);
    let mut i: usize = 0;
    while i < cs.len()
        invariant
            i <= cs@.len(),
            cs@ == s@,
            forall|k: int| 0 <= k < i ==> cs@[k] != c,
        decreases cs@.len() - i,
    {
        if cs[i] == c {
            proof {
                assert(s@[i as int] == c);
            }
            return true;
        }
        i = i + 1;
    }
    false
}

/// Whether `s` begins with `p`.
pub fn starts_with(s: &str, p: &str) -> (r: bool)
    ensures
        r == p@.is_prefix_of(s@),
{
    let cs = chars_of(s);
    let ps = chars_of(p);
    proof {
        if p@.len() <= s@.len() {
            assert(s@.subrange(0, p@.len() as int) == s@.subrange(0, (0 + p@.len()) as int));
        }
    }
    at(&cs, &ps, 0)
}

/// Whether `s` ends with `p`.
pub fn ends_with(s: &str, p: &str) -> (r: bool)
    ensures
        r == p@.is_suffix_of(s@),
{
    let cs = chars_of(s);
    let ps = chars_of(p);
    if ps.len() > cs.len() {
        return false;
    }
    let k: usize = cs.len() - ps.len();
    proof {
        assert(s@.subrange(k as int, k + p@.len()) == s@.subrange(
            (s@.len() - p@.len()) as int,
            s@.len() as int,
        ));
    }
    at(&cs, &ps, k)
}

/// What follows the prefix `p`, where `s` begins with it.
pub open spec fn after_prefix(s: Seq<char>, p: Seq<char>) -> Option<Seq<char>> {
    if p.is_prefix_of(s) {
        Some(s.skip(p.len() as int))
    } else {
        None
    }
}

/// What precedes the suffix `p`, where `s` ends with it.
pub open spec fn before_suffix(s: Seq<char>, p: Seq<char>) -> Option<Seq<char>> {
    if p.is_suffix_of(s) {
        Some(s.take(s.len() - p.len()))
    } else {
        None
    }
}

/// The contents of an optional borrowed string.
pub open spec fn opt_str_view(o: Option<&str>) -> Option<Seq<char>> {
    match o {
        Some(s) => Some(s@),
        None => None,
    }
}

pub fn strip_prefix<'a>(s: &'a str, p: &str) -> (r: Option<&'a str>)
    ensures
        opt_str_view(r) == after_prefix(s@, p@),
{
    if starts_with(s, p) {
        Some(s.substring_char(p.unicode_len(), s.unicode_len()))
    } else {
        None
    }
}

pub fn strip_suffix<'a>(s: &'a str, p: &str) -> (r: Option<&'a str>)
    ensures
        opt_str_view(r) == before_suffix(s@, p@),
{
    if ends_with(s, p) {
        Some(s.substring_char(0, s.unicode_len() - p.unicode_len()))
    } else {
        None
    }
}

/// The two parts of `s` around the first `p`.
pub open spec fn split_first(s: Seq<char>, p: Seq<char>) -> Option<(Seq<char>, Seq<char>)> {
    match first_from(s, p, 0) {
        Some(i) => Some((s.take(i), s.skip(i + p.len()))),
        None => None,
    }
}

/// The two parts of `s` around the last `p`.
pub open spec fn split_last(s: Seq<char>, p: Seq<char>) -> Option<(Seq<char>, Seq<char>)> {
    match last_upto(s, p, s.len() as int) {
        Some(i) => Some((s.take(i), s.skip(i + p.len()))),
        None => None,
    }
}

/// The contents of an optional pair of borrowed strings.
pub open spec fn opt_pair_view(o: Option<(&str, &str)>) -> Option<(Seq<char>, Seq<char>)> {
    match o {
        Some(p) => Some((p.0@, p.1@)),
        None => None,
    }
}

pub fn split_once<'a>(s: &'a str, p: &str) -> (r: Option<(&'a str, &'a str)>)
    ensures
        opt_pair_view(r) == split_first(s@, p@),
{
    let cs = chars_of(s);
    let ps = chars_of(p);
    match find_from(&cs, &ps, 0) {
        Some(i) => {
            let n: usize = cs.len();
            Some((s.substring_char(0, i), s.substring_char(i + ps.len(), n)))
        },
        None => None,
    }
}

pub fn rsplit_once<'a>(s: &'a str, p: &str) -> (r: Option<(&'a str, &'a str)>)
    ensures
        opt_pair_view(r) == split_last(s@, p@),
{
    let cs = chars_of(s);
    let ps = chars_of(p);
    let n: usize = cs.len();
    let mut i: usize = n;
    loop
        invariant
            i <= n,
            n == cs@.len(),
            cs@ == s@,
            ps@ == p@,
            last_upto(s@, p@, i as int) == last_upto(s@, p@, s@.len() as int),
        decreases i,
    {
        if at(&cs, &ps, i) {
            return Some((s.substring_char(0, i), s.substring_char(i + ps.len(), n)));
        }
        if i == 0 {
            proof {
                reveal_with_fuel(last_upto, 2);
            }
            return None;
        }
        i = i - 1;
    }
}

// ---------------------------------------------------------------------------
// Splitting and joining
// ---------------------------------------------------------------------------

/// The parts of `s`, from position `k` on, between the occurrences of `p`.
pub open spec fn split_from(s: Seq<char>, p: Seq<char>, k: int) -> Seq<Seq<char>>
    decreases s.len() - k,
{
    if 0 <= k <= s.len() && p.len() > 0 {
        match first_from(s, p, k) {
            Some(i) => if k <= i && i + p.len() <= s.len() {
                seq![s.subrange(k, i)] + split_from(s, p, i + p.len())
            } else {
                seq![s.skip(k)]
            },
            None => seq![s.skip(k)],
        }
    } else {
        seq![s.skip(k)]
    }
}

/// The parts of `s` between the occurrences of `p`.
pub open spec fn split_on(s: Seq<char>, p: Seq<char>) -> Seq<Seq<char>> {
    split_from(s, p, 0)
}

pub fn split(s: &str, p: &str) -> (r: Vec<String>)
    requires
        p@.len() > 0,
    ensures
        views(r@) == split_on(s@, p@),
        r@.len() > 0,
{
    let cs = chars_of(s);
    let ps = chars_of(p);
    let n: usize = cs.len();
    let mut out: Vec<String> = Vec::new();
    let mut k: usize = 0;
    proof {
        assert(views(out@) + split_from(s@, p@, 0) =~= split_from(s@, p@, 0));
    }
    loop
        invariant
            cs@ == s@,
            ps@ == p@,
            p@.len() > 0,
            n == cs@.len(),
            k <= n,
            views(out@) + split_from(s@, p@, k as int) == split_on(s@, p@),
        decreases cs@.len() - k,
    {
        match find_from(&cs, &ps, k) {
            Some(i) => {
                let part = string_of(&cs, k, i);
                proof {
                    lemma_views_push(out@, part);
                    assert(views(out@) + (seq![s@.subrange(k as int, i as int)] + split_from(
                        s@,
                        p@,
                        i + p@.len(),
                    )) =~= views(out@).push(part@) + split_from(s@, p@, i + p@.len()));
                }
                out.push(part);
                k = i + ps.len();
            },
            None => {
                let part = string_of(&cs, k, cs.len());
                proof {
                    lemma_views_push(out@, part);
                    assert(part@ =~= s@.skip(k as int));
                    assert(views(out@) + seq![s@.skip(k as int)] =~= views(out@).push(part@));
                }
                out.push(part);
                return out;
            },
        }
    }
}

/// One line without the carriage return that may end it.
pub open spec fn without_cr(s: Seq<char>) -> Seq<char> {
    if s.len() > 0 && s.last() == '\r' {
        s.drop_last()
    } else {
        s
    }
}

/// The first `n` parts, each without its trailing carriage return.
pub open spec fn lines_of_parts(parts: Seq<Seq<char>>, n: int) -> Seq<Seq<char>>
    decreases n,
{
    if n <= 0 || n > parts.len() {
        Seq::empty()
    } else {
        lines_of_parts(parts, n - 1).push(without_cr(parts[n - 1]))
    }
}

/// The lines of a text: what stands between line feeds, each without a
/// carriage return before its line feed; an empty last part is no line.
pub open spec fn lines_of(s: Seq<char>) -> Seq<Seq<char>> {
    let parts = split_on(s, seq!['\n']);
    let closed = lines_of_parts(parts, parts.len() - 1);
    if parts.last().len() == 0 {
        closed
    } else {
        closed.push(parts.last())
    }
}

proof fn lemma_parts_len(s: Seq<char>, k: int)
    requires
        0 <= k <= s.len(),
    ensures
        split_from(s, seq!['\n'], k).len() > 0,
        split_from(s, seq!['\n'], k).len() - 1 + split_from(s, seq!['\n'], k).last().len()
            <= s.len() - k,
    decreases s.len() - k,
{
    let p = seq!['\n'];
    lemma_first_from(s, p, k);
    match first_from(s, p, k) {
        Some(i) => {
            lemma_parts_len(s, i + 1);
            let rest = split_from(s, p, i + 1);
            assert(split_from(s, p, k) == seq![s.subrange(k, i)] + rest);
            assert((seq![s.subrange(k, i)] + rest).last() == rest.last());
        },
        None => {},
    }
}

proof fn lemma_lines_of_parts_len(parts: Seq<Seq<char>>, n: int)
    requires
        0 <= n <= parts.len(),
    ensures
        lines_of_parts(parts, n).len() == n,
    decreases n,
{
    if n > 0 {
        lemma_lines_of_parts_len(parts, n - 1);
    }
}

/// A text has at most as many lines as characters.
pub proof fn lemma_lines_len(s: Seq<char>)
    ensures
        lines_of(s).len() <= s.len(),
{
    lemma_parts_len(s, 0);
    let parts = split_on(s, seq!['\n']);
    lemma_lines_of_parts_len(parts, parts.len() - 1);
}

/// Whether a text can stand as a line: it holds no line feed and does not end in a
/// carriage return.
pub open spec fn is_line(s: Seq<char>) -> bool {
    !s.contains('\n') && !(s.len() > 0 && s.last() == '\r')
}

/// Lines that follow each other, each with a line feed.
pub open spec fn fed(lines: Seq<Seq<char>>, k: int) -> Seq<char>
    decreases lines.len() - k,
{
    if k < 0 || k >= lines.len() {
        Seq::empty()
    } else {
        lines[k] + seq!['\n'] + fed(lines, k + 1)
    }
}

/// One more line stands at the end.
pub proof fn lemma_fed_push(lines: Seq<Seq<char>>, l: Seq<char>, k: int)
    requires
        0 <= k <= lines.len(),
    ensures
        fed(lines.push(l), k) == (fed(lines, k) + l).push('\n'),
    decreases lines.len() - k,
{
    let all = lines.push(l);
    if k < lines.len() {
        lemma_fed_push(lines, l, k + 1);
        assert(all[k] == lines[k]);
        assert(fed(all, k) =~= (fed(lines, k) + l).push('\n'));
    } else {
        assert(fed(all, k + 1) =~= Seq::<char>::empty());
        assert(fed(all, k) =~= (fed(lines, k) + l).push('\n'));
    }
}

proof fn lemma_split_fed(pre: Seq<char>, lines: Seq<Seq<char>>, k: int)
    requires
        0 <= k <= lines.len(),
        forall|i: int| 0 <= i < lines.len() ==> is_line(#[trigger] lines[i]),
    ensures
        split_from(pre + fed(lines, k), seq!['\n'], pre.len() as int) == lines.skip(k).push(
            Seq::empty(),
        ),
    decreases lines.len() - k,
{
    let p = seq!['\n'];
    let t = pre + fed(lines, k);
    let at = pre.len() as int;
    lemma_first_from(t, p, at);
    if k < lines.len() {
        let line = lines[k];
        let pre2 = pre + line + p;
        let end = (pre + line).len() as int;
        assert(t =~= pre2 + fed(lines, k + 1));
        assert(t.subrange(end, end + 1) =~= p);
        assert(occurs_at(t, p, end));
        assert forall|x: int| at <= x < end implies !occurs_at(t, p, x) by {
            assert(t[x] == line[x - at]);
            assert(line.contains(line[x - at]));
            if occurs_at(t, p, x) {
                assert(t.subrange(x, x + 1)[0] == p[0]);
            }
        }
        assert(first_from(t, p, at) == Some(end));
        assert(t.subrange(at, end) =~= line);
        lemma_split_fed(pre2, lines, k + 1);
        assert(lines.skip(k).push(Seq::empty()) =~= seq![line] + lines.skip(k + 1).push(
            Seq::empty(),
        ));
    } else {
        assert(t =~= pre);
        assert(t.skip(at) =~= Seq::<char>::empty());
        assert(lines.skip(k).push(Seq::empty()) =~= seq![Seq::<char>::empty()]);
        if first_from(t, p, at) is Some {
            assert(false);
        }
    }
}

proof fn lemma_lines_of_parts_same(parts: Seq<Seq<char>>, n: int)
    requires
        0 <= n <= parts.len(),
        forall|i: int| 0 <= i < n ==> is_line(#[trigger] parts[i]),
    ensures
        lines_of_parts(parts, n) == parts.take(n),
    decreases n,
{
    if n > 0 {
        lemma_lines_of_parts_same(parts, n - 1);
        assert(is_line(parts[n - 1]));
        assert(parts.take(n) =~= parts.take(n - 1).push(parts[n - 1]));
    } else {
        assert(parts.take(0) =~= Seq::<Seq<char>>::empty());
    }
}

/// The lines of a text that is made of lines are those lines.
pub proof fn lemma_lines_of_fed(lines: Seq<Seq<char>>)
    requires
        forall|i: int| 0 <= i < lines.len() ==> is_line(#[trigger] lines[i]),
    ensures
        lines_of(fed(lines, 0)) == lines,
{
    let none = Seq::<char>::empty();
    lemma_split_fed(none, lines, 0);
    assert(none + fed(lines, 0) =~= fed(lines, 0));
    assert(lines.skip(0) =~= lines);
    let parts = lines.push(none);
    assert(split_on(fed(lines, 0), seq!['\n']) == parts);
    assert forall|i: int| 0 <= i < lines.len() implies is_line(#[trigger] parts[i]) by {
        assert(parts[i] == lines[i]);
    }
    lemma_lines_of_parts_same(parts, lines.len() as int);
    assert(parts.take(lines.len() as int) =~= lines);
}

proof fn lemma_parts_hold_no_feed(s: Seq<char>, k: int)
    requires
        0 <= k <= s.len(),
    ensures
        ({
            let parts = split_from(s, seq!['\n'], k);
            &&& parts.len() > 0
            &&& forall|i: int|
                0 <= i < parts.len() ==> !(#[trigger] parts[i]).contains('\n') && (!s.contains(
                    '\r',
                ) ==> !parts[i].contains('\r'))
        }),
    decreases s.len() - k,
{
    let p = seq!['\n'];
    lemma_first_from(s, p, k);
    let parts = split_from(s, p, k);
    let end = match first_from(s, p, k) {
        Some(i) => i,
        None => s.len() as int,
    };
    let first = s.subrange(k, end);
    assert forall|x: int| k <= x < end implies s[x] != '\n' by {
        if s[x] == '\n' {
            assert(s.subrange(x, x + 1) =~= p);
            assert(occurs_at(s, p, x));
        }
    }
    assert(!first.contains('\n')) by {
        if first.contains('\n') {
            let x = choose|x: int| 0 <= x < first.len() && first[x] == '\n';
            assert(s[k + x] == '\n');
        }
    }
    if !s.contains('\r') && first.contains('\r') {
        let x = choose|x: int| 0 <= x < first.len() && first[x] == '\r';
        assert(s[k + x] == '\r');
    }
    match first_from(s, p, k) {
        Some(i) => {
            lemma_parts_hold_no_feed(s, i + 1);
            let rest = split_from(s, p, i + 1);
            assert(parts == seq![first] + rest);
            assert forall|x: int| 0 <= x < parts.len() implies !(#[trigger] parts[x]).contains('\n')
                && (!s.contains('\r') ==> !parts[x].contains('\r')) by {
                if x > 0 {
                    assert(parts[x] == rest[x - 1]);
                }
            }
        },
        None => {
            assert(s.skip(k) =~= first);
            assert(parts =~= seq![first]);
        },
    }
}

proof fn lemma_parts_as_lines(parts: Seq<Seq<char>>, n: int)
    requires
        0 <= n <= parts.len(),
        forall|i: int| 0 <= i < parts.len() ==> is_line(#[trigger] parts[i]),
    ensures
        lines_of_parts(parts, n).len() == n,
        forall|i: int| 0 <= i < n ==> is_line(#[trigger] lines_of_parts(parts, n)[i]),
    decreases n,
{
    if n > 0 {
        lemma_parts_as_lines(parts, n - 1);
        assert(is_line(parts[n - 1]));
    }
}

/// The lines of a text without carriage returns can stand as lines.
pub proof fn lemma_lines_are_lines(s: Seq<char>)
    requires
        !s.contains('\r'),
    ensures
        forall|i: int| 0 <= i < lines_of(s).len() ==> is_line(#[trigger] lines_of(s)[i]),
{
    lemma_parts_hold_no_feed(s, 0);
    let parts = split_on(s, seq!['\n']);
    assert forall|i: int| 0 <= i < parts.len() implies is_line(#[trigger] parts[i]) by {
        if parts[i].len() > 0 && parts[i].last() == '\r' {
            assert(parts[i].contains(parts[i].last()));
        }
    }
    lemma_parts_as_lines(parts, parts.len() - 1);
    assert(is_line(parts[parts.len() - 1]));
}

/// `s` without the carriage return that may end it.
fn drop_cr(s: &String) -> (r: String)
    ensures
        r@ == without_cr(s@),
{
    let n: usize = s.as_str().unicode_len();
    if n > 0 && s.as_str().get_char(n - 1) == '\r' {
        s.as_str().substring_char(0, n - 1).to_owned()
    } else {
        s.clone()
    }
}

pub fn lines(s: &str) -> (r: Vec<String>)
    ensures
        views(r@) == lines_of(s@),
{
    proof {
        reveal_strlit("\n");
        assert("\n"@ =~= seq!['\n']);
    }
    let parts = split(s, "\n");
    let ghost pv = views(parts@);
    let mut out: Vec<String> = Vec::new();
    let mut i: usize = 0;
    proof {
        assert(views(out@) =~= lines_of_parts(pv, 0));
    }
    while i < parts.len() - 1
        invariant
            parts@.len() > 0,
            i <= parts@.len() - 1,
            pv == views(parts@),
            views(out@) == lines_of_parts(pv, i as int),
        decreases parts@.len() - i,
    {
        let line = drop_cr(&parts[i]);
        proof {
            lemma_views_push(out@, line);
            assert(pv[i as int] == parts@[i as int]@);
        }
        out.push(line);
        i = i + 1;
    }
    proof {
        assert(pv.last() == parts@.last()@);
    }
    if !parts[i].as_str().is_empty() {
        let line = parts[i].clone();
        proof {
            lemma_views_push(out@, line);
        }
        out.push(line);
    }
    out
}

/// The parts in order with `sep` between each two of them.
pub open spec fn join_of(parts: Seq<Seq<char>>, sep: Seq<char>) -> Seq<char>
    decreases parts.len(),
{
    if parts.len() == 0 {
        Seq::empty()
    } else if parts.len() == 1 {
        parts[0]
    } else {
        join_of(parts.drop_last(), sep) + sep + parts.last()
    }
}

pub fn join(parts: &Vec<String>, sep: &str) -> (r: String)
    ensures
        r@ == join_of(views(parts@), sep@),
{
    if parts.len() == 0 {
        return String::new();
    }
    let ghost pv = views(parts@);
    let mut out = parts[0].clone();
    let mut i: usize = 1;
    proof {
        assert(pv.take(1) =~= seq![pv[0]]);
    }
    while i < parts.len()
        invariant
            1 <= i <= parts@.len(),
            pv == views(parts@),
            out@ == join_of(pv.take(i as int), sep@),
        decreases parts@.len() - i,
    {
        out.append(sep);
        out.append(parts[i].as_str());
        i = i + 1;
        proof {
            assert(pv.take(i as int).drop_last() =~= pv.take(i - 1));
            assert(pv.take(i as int).last() == parts@[i - 1]@);
        }
    }
    proof {
        assert(pv.take(pv.len() as int) =~= pv);
    }
    out
}

/// First position at or after `i` that holds white space.
pub open spec fn graph_end(s: Seq<char>, i: int) -> int
    decreases s.len() - i,
{
    if 0 <= i < s.len() && !is_space(s[i]) {
        graph_end(s, i + 1)
    } else {
        i
    }
}

/// The words of `s` from position `i` on: its runs without white space.
pub open spec fn words_from(s: Seq<char>, i: int) -> Seq<Seq<char>>
    decreases s.len() - i,
{
    let a = space_end(s, i);
    let b = graph_end(s, a);
    if 0 <= i && i <= a && a < b && b <= s.len() {
        seq![s.subrange(a, b)] + words_from(s, b)
    } else {
        Seq::empty()
    }
}

/// The words of `s`.
pub open spec fn words_of(s: Seq<char>) -> Seq<Seq<char>> {
    words_from(s, 0)
}

pub fn words(s: &str) -> (r: Vec<String>)
    ensures
        views(r@) == words_of(s@),
{
    let cs = chars_of(s);
    let n: usize = cs.len();
    let mut out: Vec<String> = Vec::new();
    let mut i: usize = 0;
    proof {
        assert(views(out@) + words_from(s@, 0) =~= words_from(s@, 0));
    }
    loop
        invariant
            cs@ == s@,
            n == cs@.len(),
            i <= n,
            views(out@) + words_from(s@, i as int) == words_of(s@),
        decreases n - i,
    {
        let mut a: usize = i;
        while a < n && char_is_space(cs[a])
            invariant
                cs@ == s@,
                n == cs@.len(),
                i <= a <= n,
                space_end(s@, a as int) == space_end(s@, i as int),
            decreases n - a,
        {
            a = a + 1;
        }
        let mut b: usize = a;
        while b < n && !char_is_space(cs[b])
            invariant
                cs@ == s@,
                n == cs@.len(),
                a <= b <= n,
                graph_end(s@, b as int) == graph_end(s@, a as int),
            decreases n - b,
        {
            b = b + 1;
        }
        if a == b {
            proof {
                assert(views(out@) + words_from(s@, i as int) =~= views(out@));
            }
            return out;
        }
        let w = string_of(&cs, a, b);
        proof {
            lemma_views_push(out@, w);
            assert(views(out@) + (seq![s@.subrange(a as int, b as int)] + words_from(s@, b as int))
                =~= views(out@).push(w@) + words_from(s@, b as int));
        }
        out.push(w);
        i = b;
    }
}

/// `s` with every run of white space as one space, and none at its ends.
pub open spec fn squeezed(s: Seq<char>) -> Seq<char> {
    join_of(words_of(s), " "@)
}

pub fn squeeze(s: &str) -> (r: String)
    ensures
        r@ == squeezed(s@),
{
    let w = words(s);
    join(&w, " ")
}

/// `s` with every occurrence of `from` replaced by `to`.
pub open spec fn replaced(s: Seq<char>, from: Seq<char>, to: Seq<char>) -> Seq<char> {
    join_of(split_on(s, from), to)
}

pub fn replace(s: &str, from: &str, to: &str) -> (r: String)
    requires
        from@.len() > 0,
    ensures
        r@ == replaced(s@, from@, to@),
{
    let parts = split(s, from);
    join(&parts, to)
}

// ---------------------------------------------------------------------------
// Numbers as text
// ---------------------------------------------------------------------------

pub open spec fn digit_char(d: nat) -> char {
    ((48 + d) as u32) as char
}

/// The decimal digits of `n`.
pub open spec fn decimal(n: nat) -> Seq<char>
    decreases n,
{
    if n < 10 {
        seq![digit_char(n)]
    } else {
        decimal(n / 10).push(digit_char(n % 10))
    }
}

/// The decimal form of an integer, with a sign where it is negative.
pub open spec fn decimal_int(n: int) -> Seq<char> {
    if n < 0 {
        seq!['-'] + decimal((-n) as nat)
    } else {
        decimal(n as nat)
    }
}

fn digit_of(d: u64) -> (r: char)
    requires
        d < 10,
    ensures
        r == digit_char(d as nat),
{
    (48u8 + d as u8) as char
}

pub fn u64_text(n: u64) -> (r: String)
    ensures
        r@ == decimal(n as nat),
    decreases n,
{
    if n < 10 {
        let mut s = String::new();
        s.push(digit_of(n));
        proof {
            assert(s@ =~= seq![digit_char(n as nat)]);
        }
        s
    } else {
        let mut s = u64_text(n / 10);
        s.push(digit_of(n % 10));
        s
    }
}

pub fn u128_text(n: u128) -> (r: String)
    ensures
        r@ == decimal(n as nat),
    decreases n,
{
    if n < 10 {
        u64_text(n as u64)
    } else {
        let mut s = u128_text(n / 10);
        s.push(digit_of((n % 10) as u64));
        s
    }
}

pub fn usize_text(n: usize) -> (r: String)
    ensures
        r@ == decimal(n as nat),
{
    u64_text(n as u64)
}

pub fn i64_text(n: i64) -> (r: String)
    ensures
        r@ == decimal_int(n as int),
{
    if n < 0 {
        let mut s = String::new();
        s.push('-');
        let m: u64 = if n == i64::MIN {
            0x8000_0000_0000_0000u64
        } else {
            (-n) as u64
        };
        let t = u64_text(m);
        s.append(t.as_str());
        proof {
            assert(s@ =~= seq!['-'] + decimal((-(n as int)) as nat));
        }
        s
    } else {
        u64_text(n as u64)
    }
}

/// The number that a non-empty run of digits denotes.
pub open spec fn digits_value(s: Seq<char>) -> nat
    decreases s.len(),
{
    if s.len() == 0 {
        0
    } else {
        digits_value(s.drop_last()) * 10 + (s.last() as u32 - 48) as nat
    }
}

/// Whether `s` is a non-empty run of ASCII digits.
pub open spec fn all_digits(s: Seq<char>) -> bool {
    s.len() > 0 && forall|i: int| 0 <= i < s.len() ==> is_digit(#[trigger] s[i])
}

/// The number that `s` denotes as a run of digits, at most `max`.
pub open spec fn digits_upto(s: Seq<char>, max: nat) -> Option<nat> {
    if all_digits(s) && digits_value(s) <= max {
        Some(digits_value(s))
    } else {
        None
    }
}

/// The number that `s` denotes: digits, with a plus sign before them or not,
/// at most `max`.
pub open spec fn parsed_upto(s: Seq<char>, max: nat) -> Option<nat> {
    if s.len() > 0 && s[0] == '+' {
        digits_upto(s.drop_first(), max)
    } else {
        digits_upto(s, max)
    }
}

/// The decimal form of a number is a run of digits that denotes it.
pub proof fn lemma_decimal(n: nat)
    ensures
        all_digits(decimal(n)),
        digits_value(decimal(n)) == n,
    decreases n,
{
    let s = decimal(n);
    if n < 10 {
        assert(s.drop_last() =~= Seq::empty());
        assert(digits_value(s.drop_last()) == 0);
    } else {
        lemma_decimal(n / 10);
        assert(s.drop_last() =~= decimal(n / 10));
        assert forall|i: int| 0 <= i < s.len() implies is_digit(#[trigger] s[i]) by {
            if i < s.len() - 1 {
                assert(s[i] == decimal(n / 10)[i]);
            }
        }
    }
}

/// Whether a text does not begin with a digit.
pub open spec fn no_digit_first(s: Seq<char>) -> bool {
    s.len() == 0 || !is_digit(s[0])
}

/// A number can be read off a text that goes on without a digit.
pub proof fn lemma_decimal_first(a: nat, b: nat, x: Seq<char>, y: Seq<char>)
    requires
        decimal(a) + x == decimal(b) + y,
        no_digit_first(x),
        no_digit_first(y),
    ensures
        a == b,
        x == y,
{
    lemma_decimal(a);
    lemma_decimal(b);
    let s = decimal(a) + x;
    let m = decimal(a).len() as int;
    let n = decimal(b).len() as int;
    if m < n {
        assert(s[m] == decimal(b)[m]);
        assert(s[m] == x[0]);
    } else if n < m {
        assert(s[n] == decimal(a)[n]);
        assert((decimal(b) + y)[n] == y[0]);
    }
    assert(s.take(m) =~= decimal(a));
    assert((decimal(b) + y).take(n) =~= decimal(b));
    assert(s.skip(m) =~= x);
    assert((decimal(b) + y).skip(n) =~= y);
}

/// A longer run of digits denotes no smaller number.
pub proof fn lemma_digits_grow(s: Seq<char>, i: int)
    requires
        0 <= i <= s.len(),
        forall|k: int| 0 <= k < s.len() ==> is_digit(#[trigger] s[k]),
    ensures
        digits_value(s.take(i)) <= digits_value(s),
    decreases s.len() - i,
{
    if i < s.len() {
        lemma_digits_grow(s, i + 1);
        assert(s.take(i + 1).drop_last() =~= s.take(i));
        assert(digits_value(s.take(i + 1)) >= digits_value(s.take(i)));
    } else {
        assert(s.take(i) =~= s);
    }
}

/// The number denoted by the digits `from..` of `cs`, at most `max`.
pub fn parse_digits(cs: &Vec<char>, from: usize, max: u64) -> (r: Option<u64>)
    requires
        from <= cs@.len(),
    ensures
        match r {
            Some(n) => digits_upto(cs@.skip(from as int), max as nat) == Some(n as nat),
            None => digits_upto(cs@.skip(from as int), max as nat) is None,
        },
{
    let ghost t = cs@.skip(from as int);
    if from == cs.len() {
        return None;
    }
    let mut i: usize = from;
    while i < cs.len()
        invariant
            from <= i <= cs@.len(),
            t == cs@.skip(from as int),
            forall|k: int| 0 <= k < i - from ==> is_digit(#[trigger] t[k]),
        decreases cs@.len() - i,
    {
        if !char_is_digit(cs[i]) {
            proof {
                assert(!is_digit(t[i - from]));
            }
            return None;
        }
        i = i + 1;
        proof {
            assert(t[i - 1 - from] == cs@[i - 1]);
        }
    }
    let mut n: u64 = 0;
    let mut j: usize = from;
    proof {
        assert(t.take(0) =~= Seq::<char>::empty());
    }
    while j < cs.len()
        invariant
            from <= j <= cs@.len(),
            t == cs@.skip(from as int),
            t.len() > 0,
            all_digits(t),
            n == digits_value(t.take(j - from)),
            n <= max,
        decreases cs@.len() - j,
    {
        proof {
            assert(is_digit(t[j - from]));
            assert(t.take(j - from + 1).drop_last() =~= t.take(j - from));
            lemma_digits_grow(t, j - from + 1);
        }
        let d: u64 = (cs[j] as u32 - 48) as u64;
        if d > max || n > (max - d) / 10 {
            proof {
                if d <= max {
                    let q = (max - d) / 10;
                    assert(n >= q + 1);
                    assert((max - d) < 10 * (q + 1));
                }
            }
            return None;
        }
        n = n * 10 + d;
        j = j + 1;
    }
    proof {
        assert(t.take(t.len() as int) =~= t);
    }
    Some(n)
}

/// The number that `s` denotes, at most `max`.
pub fn parse_upto(s: &str, max: u64) -> (r: Option<u64>)
    ensures
        match r {
            Some(n) => parsed_upto(s@, max as nat) == Some(n as nat),
            None => parsed_upto(s@, max as nat) is None,
        },
{
    let cs = chars_of(s);
    if cs.len() > 0 && cs[0] == '+' {
        proof {
            assert(s@.skip(1) =~= s@.drop_first());
        }
        parse_digits(&cs, 1, max)
    } else {
        proof {
            assert(s@.skip(0) =~= s@);
        }
        parse_digits(&cs, 0, max)
    }
}

// ---------------------------------------------------------------------------
// Fixed shapes
// ---------------------------------------------------------------------------

/// `n` copies of `c`.
pub open spec fn run_of(c: char, n: int) -> Seq<char> {
    Seq::new(if n > 0 { n as nat } else { 0 }, |i: int| c)
}

pub fn repeat_char(c: char, n: usize) -> (r: String)
    ensures
        r@ == run_of(c, n as int),
{
    let mut s = String::new();
    let mut i: usize = 0;
    while i < n
        invariant
            i <= n,
            s@ =~= run_of(c, i as int),
        decreases n - i,
    {
        s.push(c);
        i = i + 1;
    }
    s
}

/// `s` followed by the spaces that bring it to `width` characters.
pub open spec fn padded(s: Seq<char>, width: nat) -> Seq<char> {
    s + run_of(' ', width - s.len())
}

pub fn pad_right(s: &str, width: usize) -> (r: String)
    ensures
        r@ == padded(s@, width as nat),
{
    let n: usize = s.unicode_len();
    let mut out = s.to_owned();
    if n < width {
        let fill = repeat_char(' ', width - n);
        out.append(fill.as_str());
    }
    proof {
        assert(n >= width ==> run_of(' ', width - n) =~= Seq::<char>::empty());
        assert(out@ =~= padded(s@, width as nat));
    }
    out
}

/// `s` preceded by the spaces that bring it to `width` characters.
pub open spec fn padded_left(s: Seq<char>, width: nat) -> Seq<char> {
    run_of(' ', width - s.len()) + s
}

pub fn pad_left(s: &str, width: usize) -> (r: String)
    ensures
        r@ == padded_left(s@, width as nat),
{
    let n: usize = s.unicode_len();
    let fill: usize = if n < width {
        width - n
    } else {
        0
    };
    let mut out = repeat_char(' ', fill);
    out.append(s);
    proof {
        assert(run_of(' ', fill as int) =~= run_of(' ', width - s@.len()));
    }
    out
}

/// The integer that `s` denotes: digits with a sign before them or not, from
/// `-max - 1` to `max`.
pub open spec fn parsed_signed(s: Seq<char>, max: nat) -> Option<int> {
    if s.len() > 0 && s[0] == '-' {
        match digits_upto(s.drop_first(), max + 1) {
            Some(n) => Some(-(n as int)),
            None => None,
        }
    } else {
        match parsed_upto(s, max) {
            Some(n) => Some(n as int),
            None => None,
        }
    }
}

/// The 32-bit integer that `s` denotes.
pub fn parse_i32(s: &str) -> (r: Option<i32>)
    ensures
        match r {
            Some(n) => parsed_signed(s@, 0x7fff_ffff) == Some(n as int),
            None => parsed_signed(s@, 0x7fff_ffff) is None,
        },
{
    let cs = chars_of(s);
    if cs.len() > 0 && cs[0] == '-' {
        proof {
            assert(s@.skip(1) =~= s@.drop_first());
        }
        match parse_digits(&cs, 1, 0x8000_0000) {
            Some(n) => Some((-(n as i64)) as i32),
            None => None,
        }
    } else {
        match parse_upto(s, 0x7fff_ffff) {
            Some(n) => Some(n as i32),
            None => None,
        }
    }
}

/// The 64-bit integer that `s` denotes.
pub fn parse_i64(s: &str) -> (r: Option<i64>)
    ensures
        match r {
            Some(n) => parsed_signed(s@, 0x7fff_ffff_ffff_ffff) == Some(n as int),
            None => parsed_signed(s@, 0x7fff_ffff_ffff_ffff) is None,
        },
{
    let cs = chars_of(s);
    if cs.len() > 0 && cs[0] == '-' {
        proof {
            assert(s@.skip(1) =~= s@.drop_first());
        }
        match parse_digits(&cs, 1, 0x8000_0000_0000_0000) {
            Some(n) => Some((-(n as i128)) as i64),
            None => None,
        }
    } else {
        match parse_upto(s, 0x7fff_ffff_ffff_ffff) {
            Some(n) => Some(n as i64),
            None => None,
        }
    }
}

/// The first `n` characters of `s`, or all of it where it is shorter.
pub open spec fn first_chars(s: Seq<char>, n: nat) -> Seq<char> {
    if s.len() <= n {
        s
    } else {
        s.take(n as int)
    }
}

pub fn take_chars<'a>(s: &'a str, n: usize) -> (r: &'a str)
    ensures
        r@ == first_chars(s@, n as nat),
{
    let len: usize = s.unicode_len();
    if len <= n {
        s
    } else {
        s.substring_char(0, n)
    }
}

} // verus!
