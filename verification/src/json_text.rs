//! JSON values as text, through `serde_json`.

use vstd::prelude::*;
use vstd::string::*;

use crate::json_model::{ascending, key_index, lemma_key_index, Json, JsonView, Members};
use crate::text::{all_digits, decimal_int, digit_end, digits_value};

verus! {

/// `serde_json::Value`, passed between the conversions below.
#[verifier::external_type_specification]
#[verifier::external_body]
pub struct ExValue(serde_json::Value);

/// What a reader finds in a text.
pub enum Reading {
    Value(JsonView),
    /// No value; the message says why.
    Malformed(Seq<char>),
}

/// What a reader found, given as a result.
pub open spec fn reading_of(r: Result<Json, String>) -> Reading {
    match r {
        Ok(j) => Reading::Value(j@),
        Err(e) => Reading::Malformed(e@),
    }
}

/// The contents of a list of such results.
pub open spec fn readings_view(v: Seq<Result<Json, String>>) -> Seq<Reading> {
    v.map_values(|r: Result<Json, String>| reading_of(r))
}

/// What `serde_json` reads in a text.
pub uninterp spec fn json_read(text: Seq<char>) -> Reading;

/// The text that `serde_json` writes for a value.
pub uninterp spec fn serialized(j: JsonView) -> Seq<char>;

/// A digit of a hexadecimal number, in small letters.
pub open spec fn hex_digit(n: int) -> char {
    if n < 10 {
        (48 + n) as u8 as char
    } else {
        (87 + n) as u8 as char
    }
}

/// A character as it stands in a JSON string.
pub open spec fn escaped_char(c: char) -> Seq<char> {
    if c == '"' || c == '\\' {
        seq!['\\', c]
    } else if c == '\n' {
        seq!['\\', 'n']
    } else if c == '\r' {
        seq!['\\', 'r']
    } else if c == '\t' {
        seq!['\\', 't']
    } else if c == '\u{8}' {
        seq!['\\', 'b']
    } else if c == '\u{c}' {
        seq!['\\', 'f']
    } else if ' ' > c {
        seq!['\\', 'u', '0', '0', hex_digit(c as int / 16), hex_digit(c as int % 16)]
    } else {
        seq![c]
    }
}

/// The first `n` characters of a text as they stand in a JSON string.
pub open spec fn escaped_upto(s: Seq<char>, n: int) -> Seq<char>
    decreases n,
{
    if n <= 0 {
        Seq::empty()
    } else {
        escaped_upto(s, n - 1) + escaped_char(s[n - 1])
    }
}

/// A text as a JSON string.
pub open spec fn quoted(s: Seq<char>) -> Seq<char> {
    seq!['"'] + escaped_upto(s, s.len() as int) + seq!['"']
}

proof fn lemma_escaped_same(a: Seq<char>, b: Seq<char>, n: int)
    requires
        0 <= n <= a.len(),
        n <= b.len(),
        a.take(n) == b.take(n),
    ensures
        escaped_upto(a, n) == escaped_upto(b, n),
    decreases n,
{
    if n > 0 {
        assert(a.take(n - 1) =~= a.take(n).take(n - 1));
        assert(b.take(n - 1) =~= b.take(n).take(n - 1));
        assert(a[n - 1] == a.take(n)[n - 1]);
        assert(b[n - 1] == b.take(n)[n - 1]);
        lemma_escaped_same(a, b, n - 1);
    }
}

/// Texts are escaped one after the other, and none becomes shorter.
pub proof fn lemma_escaped_parts(a: Seq<char>, b: Seq<char>)
    ensures
        escaped_upto(a + b, (a + b).len() as int) == escaped_upto(a, a.len() as int)
            + escaped_upto(b, b.len() as int),
        escaped_upto(b, b.len() as int).len() >= b.len(),
    decreases b.len(),
{
    let s = a + b;
    if b.len() == 0 {
        assert(s =~= a);
        assert(escaped_upto(a, a.len() as int) + escaped_upto(b, 0) =~= escaped_upto(
            a,
            a.len() as int,
        ));
    } else {
        let c = b.drop_last();
        lemma_escaped_parts(a, c);
        assert(s.take(s.len() - 1) =~= a + c);
        assert((a + c).take(s.len() - 1) =~= a + c);
        lemma_escaped_same(s, a + c, s.len() - 1);
        assert(b.take(b.len() - 1) =~= c);
        assert(c.take(b.len() - 1) =~= c);
        lemma_escaped_same(b, c, b.len() - 1);
        assert(s[s.len() - 1] == b.last());
        let x = escaped_char(b.last());
        assert(escaped_upto(s, s.len() as int) == escaped_upto(a + c, s.len() - 1) + x);
        assert(escaped_upto(b, b.len() as int) == escaped_upto(c, b.len() - 1) + x);
        assert(escaped_upto(s, s.len() as int) =~= escaped_upto(a, a.len() as int) + escaped_upto(
            b,
            b.len() as int,
        ));
    }
}

/// The compact text of a value.
pub open spec fn compact(j: JsonView) -> Seq<char>
    decreases j, 0nat,
{
    match j {
        JsonView::Null => "null"@,
        JsonView::Bool(b) => if b {
            "true"@
        } else {
            "false"@
        },
        JsonView::Int(n) => decimal_int(n),
        JsonView::Real(s) => s,
        JsonView::Str(s) => quoted(s),
        JsonView::Array(a) => seq!['['] + compact_items(a, a.len()) + seq![']'],
        JsonView::Object(m) => seq!['{'] + compact_members(m, m.len()) + seq!['}'],
    }
}

/// The compact texts of the first `n` items of a list.
pub open spec fn compact_items(a: Seq<JsonView>, n: nat) -> Seq<char>
    decreases a, n,
{
    if n == 0 || n > a.len() {
        Seq::empty()
    } else if n == 1 {
        compact(a[0])
    } else {
        compact_items(a, (n - 1) as nat) + seq![','] + compact(a[n - 1])
    }
}

/// The compact texts of the first `n` members of an object.
pub open spec fn compact_members(m: Members, n: nat) -> Seq<char>
    decreases m, n,
{
    if n == 0 || n > m.len() {
        Seq::empty()
    } else {
        let last = quoted(m[n - 1].0) + seq![':'] + compact(m[n - 1].1);
        if n == 1 {
            last
        } else {
            compact_members(m, (n - 1) as nat) + seq![','] + last
        }
    }
}

/// The text written for a value, spelled out where the value is plain.
pub open spec fn json_written(j: JsonView) -> Seq<char> {
    if plain_json(j, 127) {
        compact(j)
    } else {
        serialized(j)
    }
}

/// Whether a text of at most 400 characters is that of a number with a fraction or
/// an exponent, whose amount is below ten to the 308th.
pub open spec fn is_real_text(s: Seq<char>) -> bool {
    let a: int = if s.len() > 0 && s[0] == '-' {
        1
    } else {
        0
    };
    let b = digit_end(s, a);
    let c = if b < s.len() && s[b] == '.' {
        digit_end(s, b + 1)
    } else {
        b
    };
    let signed = c + 1 < s.len() && (s[c + 1] == '+' || s[c + 1] == '-');
    let exponent = s.skip(
        if signed {
            c + 2
        } else {
            c + 1
        },
    );
    &&& s.len() <= 400
    &&& a < b <= a + 308
    &&& s[a] != '0' || b == a + 1
    &&& c == b || c > b + 1
    &&& if c == s.len() {
        b < c
    } else {
        &&& s[c] == 'e' || s[c] == 'E'
        &&& all_digits(exponent)
        &&& signed && s[c + 1] == '-' || b - a + digits_value(exponent) <= 308
    }
}

/// A value of at most `depth` nested lists and objects, whose objects have
/// strictly ascending keys and whose numbers are integers of 64 bits or, where
/// `reals` says so, have the text of a real number.
pub open spec fn sound_json(j: JsonView, depth: nat, reals: bool) -> bool
    decreases depth,
{
    match j {
        JsonView::Null => true,
        JsonView::Bool(_) => true,
        JsonView::Int(n) => i64::MIN <= n <= u64::MAX,
        JsonView::Real(s) => reals && is_real_text(s),
        JsonView::Str(_) => true,
        JsonView::Array(a) => depth > 0 && forall|i: int|
            0 <= i < a.len() ==> sound_json(#[trigger] a[i], (depth - 1) as nat, reals),
        JsonView::Object(m) => {
            &&& depth > 0
            &&& forall|i: int|
                0 <= i < m.len() ==> sound_json((#[trigger] m[i]).1, (depth - 1) as nat, reals)
            &&& ascending(m)
        },
    }
}

/// A value of at most `depth` nested lists and objects, whose numbers are
/// integers of 64 bits and whose objects have strictly ascending keys.
pub open spec fn plain_json(j: JsonView, depth: nat) -> bool {
    sound_json(j, depth, false)
}

/// Whether two values are equal up to the real numbers in them.
pub open spec fn same_but_reals(a: JsonView, b: JsonView) -> bool
    decreases a,
{
    match (a, b) {
        (JsonView::Real(_), JsonView::Real(_)) => true,
        (JsonView::Array(x), JsonView::Array(y)) => {
            &&& x.len() == y.len()
            &&& forall|i: int| 0 <= i < x.len() ==> same_but_reals(#[trigger] x[i], y[i])
        },
        (JsonView::Object(m), JsonView::Object(n)) => {
            &&& m.len() == n.len()
            &&& forall|i: int|
                0 <= i < m.len() ==> (#[trigger] m[i]).0 == n[i].0 && same_but_reals(
                    m[i].1,
                    n[i].1,
                )
        },
        _ => a == b,
    }
}

/// Whether a reading gives a value, up to the real numbers in it.
pub open spec fn reads_as(r: Reading, j: JsonView) -> bool {
    match r {
        Reading::Value(v) => same_but_reals(j, v),
        Reading::Malformed(_) => false,
    }
}

proof fn lemma_same_index(m: Members, n: Members, k: Seq<char>, i: int)
    requires
        0 <= i <= m.len(),
        m.len() == n.len(),
        forall|x: int| 0 <= x < m.len() ==> (#[trigger] m[x]).0 == n[x].0,
    ensures
        key_index(m, k, i) == key_index(n, k, i),
    decreases m.len() - i,
{
    if i < m.len() {
        assert(m[i].0 == n[i].0);
        lemma_same_index(m, n, k, i + 1);
    }
}

/// Values that are equal up to real numbers have the same members, equal up to
/// real numbers.
pub proof fn lemma_same_get(a: JsonView, b: JsonView, k: Seq<char>)
    requires
        a is Object,
        same_but_reals(a, b),
    ensures
        b is Object,
        a.get(k) is None <==> b.get(k) is None,
        a.get(k) is Some ==> same_but_reals(a.get(k)->0, b.get(k)->0),
{
    let m = a->Object_0;
    let n = b->Object_0;
    lemma_same_index(m, n, k, 0);
    lemma_key_index(m, k, 0);
    let i = key_index(m, k, 0);
    if i < m.len() {
        assert(m[i].0 == n[i].0 && same_but_reals(m[i].1, n[i].1));
    }
}

/// Without real numbers, values that are equal up to them are equal.
pub proof fn lemma_plain_same(a: JsonView, b: JsonView, depth: nat)
    requires
        plain_json(a, depth),
        same_but_reals(a, b),
    ensures
        a == b,
    decreases depth,
{
    match (a, b) {
        (JsonView::Array(x), JsonView::Array(y)) => {
            assert forall|i: int| 0 <= i < x.len() implies x[i] == y[i] by {
                assert(same_but_reals(x[i], y[i]));
                lemma_plain_same(x[i], y[i], (depth - 1) as nat);
            }
            assert(x =~= y);
        },
        (JsonView::Object(m), JsonView::Object(n)) => {
            assert forall|i: int| 0 <= i < m.len() implies m[i] == n[i] by {
                assert(m[i].0 == n[i].0 && same_but_reals(m[i].1, n[i].1));
                lemma_plain_same(m[i].1, n[i].1, (depth - 1) as nat);
            }
            assert(m =~= n);
        },
        _ => {},
    }
}

/// Converts a `serde_json::Value` to the library's own tree, variant by
/// variant. Nothing is claimed of it: [`parse_json`] makes the claim.
#[verifier::external_body]
fn json_of_value(v: serde_json::Value) -> (r: Json) {
    match v {
        serde_json::Value::Null => Json::Null,
        serde_json::Value::Bool(b) => Json::Bool(b),
        serde_json::Value::Number(n) => match (n.as_u64(), n.as_i64()) {
            (Some(u), _) => Json::Unsigned(u),
            (None, Some(i)) => Json::Signed(i),
            (None, None) => Json::Real(n.to_string()),
        },
        serde_json::Value::String(s) => Json::Str(s),
        serde_json::Value::Array(a) => Json::Array(a.into_iter().map(json_of_value).collect()),
        serde_json::Value::Object(m) => Json::Object(
            m.into_iter().map(|(k, x)| (k, json_of_value(x))).collect()),
    }
}

/// Converts the library's own tree to a `serde_json::Value`, variant by
/// variant. Nothing is claimed of it: [`print_json`] makes the claim.
#[verifier::external_body]
fn value_of_json(j: &Json) -> (r: serde_json::Value) {
    match j {
        Json::Null => serde_json::Value::Null,
        Json::Bool(b) => serde_json::Value::from(*b),
        Json::Unsigned(u) => serde_json::Value::from(*u),
        Json::Signed(i) => serde_json::Value::from(*i),
        Json::Real(s) => serde_json::from_str(s).unwrap_or(serde_json::Value::Null),
        Json::Str(s) => serde_json::Value::from(s.as_str()),
        Json::Array(a) => serde_json::Value::from_iter(a.iter().map(value_of_json)),
        Json::Object(m) => serde_json::Value::from_iter(
            m.iter().map(|p| (p.0.clone(), value_of_json(&p.1)))),
    }
}

/// `serde_json::from_str`. The outcome is a function of the text alone.
#[verifier::external_body]
pub(crate) fn parse_json(text: &str) -> (r: Result<Json, String>)
    ensures
        reading_of(r) == json_read(text@),
{
    match serde_json::from_str::<serde_json::Value>(text) {
        Ok(v) => Ok(json_of_value(v)),
        Err(e) => Err(e.to_string()),
    }
}

/// `serde_json::Value::to_string`. The text is a function of the value alone
/// and holds no line feed; that of an object stands in braces. For a plain value
/// of at most 127 levels it is the compact text, and reading it gives the value
/// back. Where the value also holds real numbers, reading gives it back up to
/// these numbers: how one is written is not spelled out, and `serde_json` reads it
/// to its last digit only with its feature `float_roundtrip`. Nothing is said of
/// numbers from ten to the 308th on, which the reader may find out of range.
#[verifier::external_body]
pub(crate) fn print_json(j: &Json) -> (r: String)
    ensures
        r@ == serialized(j@),
        plain_json(j@, 127) ==> r@ == compact(j@),
        !r@.contains('\n'),
        j@ is Object ==> r@.len() >= 2 && r@[0] == '{' && r@.last() == '}',
        plain_json(j@, 127) ==> json_read(r@) == Reading::Value(j@),
        sound_json(j@, 127, true) ==> reads_as(json_read(r@), j@),
{
    value_of_json(j).to_string()
}

} // verus!
