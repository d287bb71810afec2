//! Laws of texts: what trimming, splitting, joining and numbers do.

use vstd::prelude::*;
use vstd::string::*;

use crate::text::{
    decimal, digits_value, first_from, is_space, join_of, last_upto, lemma_decimal,
    lemma_first_from, lemma_last_upto, lemma_space_end, lemma_text_end, occurs_at, replaced, space_end,
    split_from, split_last, split_on, text_contains, text_end, trimmed, trimmed_start,
};

verus! {

/// The texts, one after the other.
pub open spec fn run_together(texts: Seq<Seq<char>>) -> Seq<char>
    decreases texts.len(),
{
    if texts.len() == 0 {
        Seq::empty()
    } else {
        texts[0] + run_together(texts.skip(1))
    }
}

pub proof fn lemma_run_push(texts: Seq<Seq<char>>, t: Seq<char>)
    ensures
        run_together(texts.push(t)) == run_together(texts) + t,
    decreases texts.len(),
{
    if texts.len() == 0 {
        assert(texts.push(t).skip(1) =~= Seq::<Seq<char>>::empty());
        assert(texts.push(t)[0] == t);
        assert(run_together(texts.push(t).skip(1)) == Seq::<char>::empty());
        assert(t + Seq::<char>::empty() =~= Seq::<char>::empty() + t);
    } else {
        lemma_run_push(texts.skip(1), t);
        assert(texts.push(t).skip(1) =~= texts.skip(1).push(t));
        assert(texts[0] + (run_together(texts.skip(1)) + t) =~= (texts[0] + run_together(
            texts.skip(1),
        )) + t);
    }
}

/// Where a list of texts is cut does not matter.
pub proof fn texts_run_on(a: Seq<Seq<char>>, b: Seq<Seq<char>>)
    ensures
        run_together(a + b) == run_together(a) + run_together(b),
    decreases a.len(),
{
    if a.len() == 0 {
        assert(a + b =~= b);
        assert(Seq::<char>::empty() + run_together(b) =~= run_together(b));
    } else {
        texts_run_on(a.skip(1), b);
        assert((a + b).skip(1) =~= a.skip(1) + b);
        assert(a[0] + (run_together(a.skip(1)) + run_together(b)) =~= a[0] + run_together(a.skip(1))
            + run_together(b));
    }
}

/// Every text of a list stands in the whole, behind those before it.
pub proof fn texts_stand_in_order(texts: Seq<Seq<char>>, i: int)
    requires
        0 <= i < texts.len(),
    ensures
        run_together(texts) == run_together(texts.take(i)) + texts[i] + run_together(
            texts.skip(i + 1),
        ),
{
    texts_run_on(texts.take(i), texts.skip(i));
    assert(texts.take(i) + texts.skip(i) =~= texts);
    assert(texts.skip(i)[0] == texts[i]);
    assert(texts.skip(i).skip(1) =~= texts.skip(i + 1));
    assert(run_together(texts.take(i)) + (texts[i] + run_together(texts.skip(i + 1)))
        =~= run_together(texts.take(i)) + texts[i] + run_together(texts.skip(i + 1)));
}

proof fn lemma_reaches(s: Seq<char>, i: int, k: int)
    requires
        0 <= i <= k < s.len(),
        !is_space(s[k]),
    ensures
        space_end(s, i) <= k,
    decreases k - i,
{
    if i < k && is_space(s[i]) {
        lemma_reaches(s, i + 1, k);
    }
}

proof fn lemma_stays(s: Seq<char>, n: int, k: int)
    requires
        0 <= k < n <= s.len(),
        !is_space(s[k]),
    ensures
        text_end(s, n) > k,
    decreases n,
{
    if k < n - 1 && is_space(s[n - 1]) {
        lemma_stays(s, n - 1, k);
    }
}

/// Trimming a text gives what is between its white space: a part of it that neither
/// begins nor ends with white space and outside of which nothing else stands.
pub proof fn trimming_takes_white_space_alone(s: Seq<char>)
    ensures
        trimmed(s).len() > 0 ==> !is_space(trimmed(s)[0]) && !is_space(trimmed(s).last()),
        exists|a: int, b: int|
            0 <= a <= b <= s.len() && trimmed(s) == #[trigger] s.subrange(a, b) && (forall|k: int|
                (0 <= k < a || b <= k < s.len()) ==> is_space(#[trigger] s[k])),
{
    lemma_space_end(s, 0);
    let a = space_end(s, 0);
    let t = trimmed_start(s);
    lemma_text_end(t, t.len() as int);
    let b = a + text_end(t, t.len() as int);
    assert(trimmed(s) =~= s.subrange(a, b));
    assert forall|k: int| (0 <= k < a || b <= k < s.len()) implies is_space(#[trigger] s[k]) by {
        if !is_space(s[k]) {
            if k < a {
                lemma_reaches(s, 0, k);
            } else {
                assert(t[k - a] == s[k]);
                lemma_stays(t, t.len() as int, k - a);
            }
        }
    }
    if trimmed(s).len() > 0 {
        assert(trimmed(s)[0] == s[a]);
        assert(trimmed(s).last() == t[text_end(t, t.len() as int) - 1]);
        assert(trimmed(s)[0] == t[0]);
    }
}

/// A text is all white space exactly where nothing is left of it.
pub proof fn blank_texts_trim_to_nothing(s: Seq<char>)
    ensures
        trimmed(s).len() == 0 <==> forall|i: int| 0 <= i < s.len() ==> is_space(#[trigger] s[i]),
{
    trimming_takes_white_space_alone(s);
    let (a, b) = choose|a: int, b: int|
        0 <= a <= b <= s.len() && trimmed(s) == #[trigger] s.subrange(a, b) && (forall|k: int|
            (0 <= k < a || b <= k < s.len()) ==> is_space(#[trigger] s[k]));
    if trimmed(s).len() > 0 {
        assert(trimmed(s)[0] == s[a]);
    }
}

/// A number in decimal reads back as itself.
pub proof fn numbers_read_back(n: nat)
    ensures
        digits_value(decimal(n)) == n,
        decimal(n).len() > 0,
{
    lemma_decimal(n);
}

/// Joined texts are the texts with the separator between each two.
pub proof fn joining_puts_the_separator_between(
    parts: Seq<Seq<char>>,
    more: Seq<Seq<char>>,
    sep: Seq<char>,
)
    requires
        parts.len() > 0,
        more.len() > 0,
    ensures
        join_of(parts + more, sep) == join_of(parts, sep) + sep + join_of(more, sep),
        join_of(seq![more[0]], sep) == more[0],
        join_of(Seq::<Seq<char>>::empty(), sep).len() == 0,
    decreases more.len(),
{
    let all = parts + more;
    assert(all.last() == more.last());
    if more.len() == 1 {
        assert(all.drop_last() =~= parts);
        assert(more.last() == more[0]);
    } else {
        joining_puts_the_separator_between(parts, more.drop_last(), sep);
        assert(all.drop_last() =~= parts + more.drop_last());
        assert(join_of(parts, sep) + sep + join_of(more.drop_last(), sep) + sep + more.last()
            =~= join_of(parts, sep) + sep + (join_of(more.drop_last(), sep) + sep + more.last()));
    }
}

/// The parts from `k` on, with a character between each two.
pub open spec fn strung(parts: Seq<Seq<char>>, c: char, k: int) -> Seq<char>
    decreases parts.len() - k,
{
    if k < 0 || k >= parts.len() {
        Seq::empty()
    } else if k == parts.len() - 1 {
        parts[k]
    } else {
        parts[k] + seq![c] + strung(parts, c, k + 1)
    }
}

proof fn lemma_no_sign(s: Seq<char>, c: char, a: int, b: int)
    requires
        0 <= a <= b <= s.len(),
        forall|i: int| a <= i < b ==> #[trigger] s[i] != c,
    ensures
        forall|i: int| a <= i < b ==> !occurs_at(s, seq![c], i),
{
    assert forall|i: int| a <= i < b implies !occurs_at(s, seq![c], i) by {
        if occurs_at(s, seq![c], i) {
            assert(s.subrange(i, i + 1)[0] == s[i]);
            assert(seq![c][0] == c);
        }
    }
}

/// Splitting what was strung together gives the parts back, where none of them holds
/// the separator.
pub proof fn strung_parts_split(pre: Seq<char>, parts: Seq<Seq<char>>, c: char, k: int)
    requires
        0 <= k < parts.len(),
        forall|i: int| 0 <= i < parts.len() ==> !(#[trigger] parts[i]).contains(c),
    ensures
        split_from(pre + strung(parts, c, k), seq![c], pre.len() as int) == parts.skip(k),
    decreases parts.len() - k,
{
    let p = seq![c];
    let s = pre + strung(parts, c, k);
    let at = pre.len() as int;
    let e = at + parts[k].len();
    assert forall|i: int| at <= i < e implies #[trigger] s[i] != c by {
        assert(s[i] == parts[k][i - at]);
        assert(parts[k].contains(parts[k][i - at]));
    }
    lemma_no_sign(s, c, at, e);
    lemma_first_from(s, p, at);
    if k == parts.len() - 1 {
        assert(s.len() == e);
        assert(s.skip(at) =~= parts[k]);
        assert(parts.skip(k) =~= seq![parts[k]]);
        if first_from(s, p, at) is Some {
            let i = first_from(s, p, at)->0;
            assert(occurs_at(s, p, i));
        }
    } else {
        let rest = strung(parts, c, k + 1);
        assert(s =~= pre + parts[k] + seq![c] + rest);
        assert(s.subrange(e, e + 1) =~= p);
        assert(occurs_at(s, p, e));
        assert(first_from(s, p, at) == Some(e));
        assert(s.subrange(at, e) =~= parts[k]);
        strung_parts_split(pre + parts[k] + seq![c], parts, c, k + 1);
        assert((pre + parts[k] + seq![c]).len() == e + 1);
        assert(parts.skip(k) =~= seq![parts[k]] + parts.skip(k + 1));
    }
}

/// The last part of a text behind a character that does not stand in it.
pub proof fn last_parts_split(a: Seq<char>, c: char, b: Seq<char>)
    requires
        !b.contains(c),
    ensures
        split_last(a + seq![c] + b, seq![c]) == Some((a, b)),
{
    let s = a + seq![c] + b;
    let p = seq![c];
    let at = a.len() as int;
    assert forall|i: int| at + 1 <= i < s.len() implies #[trigger] s[i] != c by {
        assert(s[i] == b[i - at - 1]);
        assert(b.contains(b[i - at - 1]));
    }
    lemma_no_sign(s, c, at + 1, s.len() as int);
    assert(s.subrange(at, at + 1) =~= p);
    assert(occurs_at(s, p, at));
    lemma_last_is(s, p, s.len() as int, at);
    assert(s.take(at) =~= a);
    assert(s.skip(at + 1) =~= b);
}

proof fn lemma_last_is(s: Seq<char>, p: Seq<char>, i: int, at: int)
    requires
        0 <= at <= i <= s.len(),
        p.len() == 1,
        occurs_at(s, p, at),
        forall|k: int| at < k < s.len() ==> !occurs_at(s, p, k),
    ensures
        last_upto(s, p, i) == Some(at),
    decreases i - at,
{
    if i > at {
        assert(!occurs_at(s, p, i));
        lemma_last_is(s, p, i - 1, at);
    }
}

/// A text without a character has no last part behind it.
pub proof fn whole_parts_do_not_split(s: Seq<char>, c: char)
    requires
        !s.contains(c),
    ensures
        split_last(s, seq![c]) is None,
        split_on(s, seq![c]) == seq![s],
{
    assert forall|i: int| 0 <= i < s.len() implies #[trigger] s[i] != c by {
        assert(s.contains(s[i]));
    }
    lemma_no_sign(s, c, 0, s.len() as int);
    lemma_last_upto(s, seq![c], s.len() as int);
    lemma_first_from(s, seq![c], 0);
    if last_upto(s, seq![c], s.len() as int) is Some {
        let k = last_upto(s, seq![c], s.len() as int)->0;
        assert(occurs_at(s, seq![c], k));
    }
    if first_from(s, seq![c], 0) is Some {
        let k = first_from(s, seq![c], 0)->0;
        assert(occurs_at(s, seq![c], k));
    }
    assert(s.skip(0) =~= s);
}

/// A text in which another does not occur is not split by it, and replacing it changes
/// nothing.
pub proof fn absent_texts_change_nothing(s: Seq<char>, p: Seq<char>, to: Seq<char>)
    requires
        p.len() > 0,
        forall|i: int| !occurs_at(s, p, i),
    ensures
        split_on(s, p) == seq![s],
        replaced(s, p, to) == s,
{
    lemma_first_from(s, p, 0);
    if first_from(s, p, 0) is Some {
        assert(occurs_at(s, p, first_from(s, p, 0)->0));
    }
    assert(s.skip(0) =~= s);
}

/// The parts from `k` on, with a text between each two.
pub open spec fn strung_by(parts: Seq<Seq<char>>, sep: Seq<char>, k: int) -> Seq<char>
    decreases parts.len() - k,
{
    if k < 0 || k >= parts.len() {
        Seq::empty()
    } else if k == parts.len() - 1 {
        parts[k]
    } else {
        parts[k] + sep + strung_by(parts, sep, k + 1)
    }
}

/// Whether a text neither ends with a character nor holds it doubled.
pub open spec fn stays_whole(s: Seq<char>, c: char) -> bool {
    s.len() > 0 && s.last() != c && !text_contains(s, seq![c, c])
}

proof fn lemma_no_pair(s: Seq<char>, at: int, part: Seq<char>, c: char, i: int)
    requires
        stays_whole(part, c),
        0 <= at <= i < at + part.len() <= s.len(),
        s.subrange(at, at + part.len()) == part,
    ensures
        !occurs_at(s, seq![c, c], i),
{
    let p = seq![c, c];
    let e = at + part.len();
    if occurs_at(s, p, i) {
        let t = s.subrange(i, i + 2);
        assert(t == p);
        assert(t[0] == s[i] && t[1] == s[i + 1]);
        assert(p[0] == c && p[1] == c);
        assert(s.subrange(at, e)[i - at] == s[i]);
        if i + 1 < e {
            assert(s.subrange(at, e)[i + 1 - at] == s[i + 1]);
            assert(part.subrange(i - at, i - at + 2) =~= p);
            assert(occurs_at(part, p, i - at));
        } else {
            assert(part.last() == part[i - at]);
        }
    }
}

proof fn lemma_pair_at(s: Seq<char>, at: int, part: Seq<char>, c: char)
    requires
        stays_whole(part, c),
        0 <= at,
        at + part.len() <= s.len(),
        s.subrange(at, at + part.len()) == part,
        at + part.len() + 2 <= s.len() ==> s.subrange(at + part.len(), at + part.len() + 2)
            == seq![c, c],
        at + part.len() == s.len() || at + part.len() + 2 <= s.len(),
    ensures
        first_from(s, seq![c, c], at) == if at + part.len() < s.len() {
            Some(at + part.len())
        } else {
            None
        },
{
    let p = seq![c, c];
    let e = at + part.len();
    assert forall|i: int| at <= i < e implies !occurs_at(s, p, i) by {
        lemma_no_pair(s, at, part, c, i);
    }
    lemma_first_from(s, p, at);
    if e < s.len() {
        assert(occurs_at(s, p, e));
    } else if first_from(s, p, at) is Some {
        let i = first_from(s, p, at)->0;
        assert(occurs_at(s, p, i));
        assert(i < e);
    }
}

/// Splitting what was strung together by a doubled character gives the parts back, where
/// none of them ends with the character or holds it doubled.
pub proof fn parts_strung_by_a_pair_split(
    pre: Seq<char>,
    parts: Seq<Seq<char>>,
    c: char,
    k: int,
)
    requires
        0 <= k < parts.len(),
        forall|i: int| 0 <= i < parts.len() ==> stays_whole(#[trigger] parts[i], c),
    ensures
        split_from(pre + strung_by(parts, seq![c, c], k), seq![c, c], pre.len() as int)
            == parts.skip(k),
    decreases parts.len() - k,
{
    let p = seq![c, c];
    let s = pre + strung_by(parts, p, k);
    let at = pre.len() as int;
    let part = parts[k];
    let e = at + part.len();
    assert(stays_whole(part, c));
    if k == parts.len() - 1 {
        assert(s =~= pre + part);
        assert(s.subrange(at, e) =~= part);
        lemma_pair_at(s, at, part, c);
        assert(s.skip(at) =~= part);
        assert(parts.skip(k) =~= seq![part]);
    } else {
        let rest = strung_by(parts, p, k + 1);
        let next = pre + part + p;
        assert(s =~= next + rest);
        assert(s.subrange(at, e) =~= part);
        assert(s.subrange(e, e + 2) =~= p);
        lemma_pair_at(s, at, part, c);
        parts_strung_by_a_pair_split(next, parts, c, k + 1);
        assert(next.len() == e + 2);
        assert(parts.skip(k) =~= seq![part] + parts.skip(k + 1));
    }
}

} // verus!
