//! The model of JSON values.
//!
//! [`Json`] is the executable tree and [`JsonView`] its mathematical form. An
//! object keeps its members sorted by key, one member per key. Integers are
//! held exactly; any other number is held by its text.

use vstd::prelude::*;
use vstd::string::*;

verus! {

/// A JSON value.
#[derive(Debug, PartialEq, Eq)]
pub enum Json {
    Null,
    Bool(bool),
    /// A non-negative integer.
    Unsigned(u64),
    /// A negative integer.
    Signed(i64),
    /// A number that is no integer of 64 bits, as it is written.
    Real(String),
    Str(String),
    Array(Vec<Json>),
    /// Members sorted by key.
    Object(Vec<(String, Json)>),
}

/// What a JSON value is.
#[verifier::ext_equal]
pub enum JsonView {
    Null,
    Bool(bool),
    Int(int),
    Real(Seq<char>),
    Str(Seq<char>),
    Array(Seq<JsonView>),
    Object(Seq<(Seq<char>, JsonView)>),
}

/// The members of a JSON object.
pub type Members = Seq<(Seq<char>, JsonView)>;

impl View for Json {
    type V = JsonView;

    open spec fn view(&self) -> JsonView {
        json_view(*self)
    }
}

pub closed spec fn json_view(j: Json) -> JsonView
    decreases j,
{
    match j {
        Json::Null => JsonView::Null,
        Json::Bool(b) => JsonView::Bool(b),
        Json::Unsigned(n) => JsonView::Int(n as int),
        Json::Signed(n) => JsonView::Int(n as int),
        Json::Real(s) => JsonView::Real(s@),
        Json::Str(s) => JsonView::Str(s@),
        Json::Array(v) => JsonView::Array(array_view(v, v@.len())),
        Json::Object(v) => JsonView::Object(object_view(v, v@.len())),
    }
}

pub closed spec fn array_view(v: Vec<Json>, n: nat) -> Seq<JsonView>
    decreases v, n,
{
    if n == 0 || n > v@.len() {
        Seq::empty()
    } else {
        array_view(v, (n - 1) as nat).push(json_view(v[n - 1]))
    }
}

pub closed spec fn object_view(v: Vec<(String, Json)>, n: nat) -> Members
    decreases v, n,
{
    if n == 0 || n > v@.len() {
        Seq::empty()
    } else {
        object_view(v, (n - 1) as nat).push((v[n - 1].0@, json_view(v[n - 1].1)))
    }
}

/// The contents of a list of JSON values.
pub open spec fn json_seq(v: Seq<Json>) -> Seq<JsonView> {
    v.map_values(|j: Json| j@)
}

/// The contents of a list of members.
pub open spec fn members_of(v: Seq<(String, Json)>) -> Members {
    v.map_values(|p: (String, Json)| (p.0@, p.1@))
}

proof fn lemma_array_prefix(v: Vec<Json>, n: nat)
    requires
        n <= v@.len(),
    ensures
        array_view(v, n) == json_seq(v@.take(n as int)),
    decreases n,
{
    if n > 0 {
        lemma_array_prefix(v, (n - 1) as nat);
        assert(json_seq(v@.take(n as int)) =~= json_seq(v@.take(n - 1)).push(v@[n - 1]@));
    } else {
        assert(json_seq(v@.take(0)) =~= Seq::<JsonView>::empty());
    }
}

proof fn lemma_object_prefix(v: Vec<(String, Json)>, n: nat)
    requires
        n <= v@.len(),
    ensures
        object_view(v, n) == members_of(v@.take(n as int)),
    decreases n,
{
    if n > 0 {
        lemma_object_prefix(v, (n - 1) as nat);
        assert(members_of(v@.take(n as int)) =~= members_of(v@.take(n - 1)).push(
            (v@[n - 1].0@, v@[n - 1].1@),
        ));
    } else {
        assert(members_of(v@.take(0)) =~= Seq::<(Seq<char>, JsonView)>::empty());
    }
}

/// One level of [`json_view`].
pub open spec fn node_view(j: Json) -> JsonView {
    match j {
        Json::Null => JsonView::Null,
        Json::Bool(b) => JsonView::Bool(b),
        Json::Unsigned(n) => JsonView::Int(n as int),
        Json::Signed(n) => JsonView::Int(n as int),
        Json::Real(s) => JsonView::Real(s@),
        Json::Str(s) => JsonView::Str(s@),
        Json::Array(v) => JsonView::Array(json_seq(v@)),
        Json::Object(v) => JsonView::Object(members_of(v@)),
    }
}

pub broadcast proof fn lemma_json_view(j: Json)
    ensures
        #[trigger] json_view(j) == node_view(j),
{
    match j {
        Json::Array(v) => {
            lemma_array_prefix(v, v@.len());
            assert(v@.take(v@.len() as int) =~= v@);
            assert(array_view(v, v@.len()) == json_seq(v@));
        },
        Json::Object(v) => {
            lemma_object_prefix(v, v@.len());
            assert(v@.take(v@.len() as int) =~= v@);
            assert(object_view(v, v@.len()) == members_of(v@));
        },
        _ => {},
    }
}

pub broadcast group group_json {
    lemma_json_view,
}

pub proof fn lemma_json_seq_push(v: Seq<Json>, j: Json)
    ensures
        json_seq(v.push(j)) == json_seq(v).push(j@),
{
    assert(json_seq(v.push(j)) =~= json_seq(v).push(j@));
}

/// The contents of an optional JSON value.
pub open spec fn opt_json(o: Option<&Json>) -> Option<JsonView> {
    match o {
        Some(j) => Some(j@),
        None => None,
    }
}

// ---------------------------------------------------------------------------
// Order of keys
// ---------------------------------------------------------------------------

/// `a` comes before `b` in the order of characters, from position `i` on.
pub open spec fn text_before(a: Seq<char>, b: Seq<char>, i: int) -> bool
    decreases a.len() - i,
{
    if i < 0 || i >= b.len() {
        false
    } else if i >= a.len() {
        true
    } else if a[i] == b[i] {
        text_before(a, b, i + 1)
    } else {
        a[i] < b[i]
    }
}

pub proof fn lemma_before_trans(a: Seq<char>, b: Seq<char>, c: Seq<char>, k: int)
    requires
        0 <= k,
        text_before(a, b, k),
        text_before(b, c, k),
    ensures
        text_before(a, c, k),
    decreases a.len() - k,
{
    if k < a.len() && k < b.len() && k < c.len() && a[k] == b[k] && b[k] == c[k] {
        lemma_before_trans(a, b, c, k + 1);
    }
}

/// Of two texts that differ from position `k` on, one comes before the other.
pub proof fn lemma_before_total(a: Seq<char>, b: Seq<char>, k: int)
    requires
        0 <= k <= a.len(),
        k <= b.len(),
        a.take(k) == b.take(k),
        a != b,
    ensures
        text_before(a, b, k) || text_before(b, a, k),
    decreases a.len() - k,
{
    if k < a.len() && k < b.len() {
        if a[k] == b[k] {
            assert(a.take(k + 1) =~= a.take(k).push(a[k]));
            assert(b.take(k + 1) =~= b.take(k).push(b[k]));
            lemma_before_total(a, b, k + 1);
        }
    } else if a.len() == b.len() {
        assert(a.take(k) =~= a);
        assert(b.take(k) =~= b);
    }
}

// ---------------------------------------------------------------------------
// Members of an object
// ---------------------------------------------------------------------------

/// Position of the first member named `k` at or after `i`; the number of
/// members where there is none.
pub open spec fn key_index(m: Members, k: Seq<char>, i: int) -> int
    decreases m.len() - i,
{
    if i < 0 || i >= m.len() {
        m.len() as int
    } else if m[i].0 == k {
        i
    } else {
        key_index(m, k, i + 1)
    }
}

/// Position at or after `i` where a new member named `k` keeps the order.
pub open spec fn slot_index(m: Members, k: Seq<char>, i: int) -> int
    decreases m.len() - i,
{
    if i < 0 || i >= m.len() {
        m.len() as int
    } else if text_before(k, m[i].0, 0) {
        i
    } else {
        slot_index(m, k, i + 1)
    }
}

/// The member named `k`.
pub open spec fn member(m: Members, k: Seq<char>) -> Option<JsonView> {
    let i = key_index(m, k, 0);
    if 0 <= i < m.len() {
        Some(m[i].1)
    } else {
        None
    }
}

/// The members with `k` set to `v`.
pub open spec fn set_member(m: Members, k: Seq<char>, v: JsonView) -> Members {
    let i = key_index(m, k, 0);
    if 0 <= i < m.len() {
        m.update(i, (m[i].0, v))
    } else {
        m.insert(slot_index(m, k, 0), (k, v))
    }
}

/// The members without the one named `k`.
pub open spec fn drop_member(m: Members, k: Seq<char>) -> Members {
    let i = key_index(m, k, 0);
    if 0 <= i < m.len() {
        m.remove(i)
    } else {
        m
    }
}

pub proof fn lemma_key_index(m: Members, k: Seq<char>, i: int)
    requires
        0 <= i <= m.len(),
    ensures
        i <= key_index(m, k, i) <= m.len(),
        key_index(m, k, i) < m.len() ==> m[key_index(m, k, i)].0 == k,
        forall|j: int| i <= j < key_index(m, k, i) ==> m[j].0 != k,
    decreases m.len() - i,
{
    if i < m.len() && m[i].0 != k {
        lemma_key_index(m, k, i + 1);
    }
}

/// A position that holds `k` and has no `k` before it is the one found.
pub proof fn lemma_key_index_is(m: Members, k: Seq<char>, i: int, at: int)
    requires
        0 <= i <= at <= m.len(),
        at < m.len() ==> m[at].0 == k,
        forall|j: int| i <= j < at ==> m[j].0 != k,
    ensures
        key_index(m, k, i) == at,
    decreases m.len() - i,
{
    if i < at {
        lemma_key_index_is(m, k, i + 1, at);
    }
}

pub proof fn lemma_slot_index(m: Members, k: Seq<char>, i: int)
    requires
        0 <= i <= m.len(),
    ensures
        i <= slot_index(m, k, i) <= m.len(),
    decreases m.len() - i,
{
    if i < m.len() && !text_before(k, m[i].0, 0) {
        lemma_slot_index(m, k, i + 1);
    }
}

/// Setting a member gives that member its value and leaves the others alone.
pub proof fn set_member_reads_back(m: Members, k: Seq<char>, v: JsonView, other: Seq<char>)
    ensures
        member(set_member(m, k, v), k) == Some(v),
        other != k ==> member(set_member(m, k, v), other) == member(m, other),
{
    lemma_key_index(m, k, 0);
    lemma_key_index(m, other, 0);
    lemma_slot_index(m, k, 0);
    let n = set_member(m, k, v);
    let i = key_index(m, k, 0);
    let o = key_index(m, other, 0);
    if i < m.len() {
        assert forall|j: int| 0 <= j < i implies n[j].0 != k by {
            assert(n[j] == m[j]);
        }
        lemma_key_index_is(n, k, 0, i);
        if other != k {
            assert forall|j: int| 0 <= j < o implies n[j].0 != other by {
                if j != i {
                    assert(n[j] == m[j]);
                }
            }
            lemma_key_index_is(n, other, 0, o);
        }
    } else {
        let at = slot_index(m, k, 0);
        assert forall|j: int| 0 <= j < at implies n[j].0 != k by {
            assert(n[j] == m[j]);
        }
        lemma_key_index_is(n, k, 0, at);
        if other != k {
            let o2 = if o < at {
                o
            } else {
                o + 1
            };
            assert forall|j: int| 0 <= j < o2 implies n[j].0 != other by {
                if j < at {
                    assert(n[j] == m[j]);
                } else if j > at {
                    assert(n[j] == m[j - 1]);
                }
            }
            lemma_key_index_is(n, other, 0, o2);
        }
    }
}

/// Removing one member leaves the others as they are.
pub proof fn lemma_drop_member(m: Members, k: Seq<char>, other: Seq<char>)
    requires
        other != k,
    ensures
        member(drop_member(m, k), other) == member(m, other),
{
    lemma_key_index(m, k, 0);
    lemma_key_index(m, other, 0);
    let i = key_index(m, k, 0);
    let o = key_index(m, other, 0);
    let n = drop_member(m, k);
    if i < m.len() {
        let o2 = if o < i {
            o
        } else {
            o - 1
        };
        assert forall|j: int| 0 <= j < o2 implies n[j].0 != other by {
            if j < i {
                assert(n[j] == m[j]);
            } else {
                assert(n[j] == m[j + 1]);
            }
        }
        if o < m.len() {
            assert(n[o2] == m[o]);
        }
        lemma_key_index_is(n, other, 0, o2);
    }
}

/// Whether the keys of the members ascend strictly.
pub open spec fn ascending(m: Members) -> bool {
    forall|i: int, k: int|
        0 <= i < k < m.len() ==> text_before((#[trigger] m[i]).0, (#[trigger] m[k]).0, 0)
}

/// Every position before the one found for a new member holds an earlier key.
proof fn lemma_slot_before(m: Members, k: Seq<char>, i: int)
    requires
        0 <= i <= m.len(),
    ensures
        forall|j: int| i <= j < slot_index(m, k, i) ==> !text_before(k, (#[trigger] m[j]).0, 0),
        slot_index(m, k, i) < m.len() ==> text_before(k, m[slot_index(m, k, i)].0, 0),
    decreases m.len() - i,
{
    if i < m.len() && !text_before(k, m[i].0, 0) {
        lemma_slot_before(m, k, i + 1);
    }
}

/// Setting a member keeps the keys in order.
pub proof fn set_member_keeps_order(m: Members, k: Seq<char>, v: JsonView)
    requires
        ascending(m),
    ensures
        ascending(set_member(m, k, v)),
{
    lemma_key_index(m, k, 0);
    lemma_slot_index(m, k, 0);
    lemma_slot_before(m, k, 0);
    let n = set_member(m, k, v);
    let i = key_index(m, k, 0);
    if i < m.len() {
        assert forall|x: int, y: int| 0 <= x < y < n.len() implies text_before(
            (#[trigger] n[x]).0,
            (#[trigger] n[y]).0,
            0,
        ) by {
            assert(n[x].0 == m[x].0 && n[y].0 == m[y].0);
        }
    } else {
        let at = slot_index(m, k, 0);
        assert forall|x: int, y: int| 0 <= x < y < n.len() implies text_before(
            (#[trigger] n[x]).0,
            (#[trigger] n[y]).0,
            0,
        ) by {
            let a = if x < at {
                x
            } else {
                x - 1
            };
            let b = if y < at {
                y
            } else {
                y - 1
            };
            if x == at {
                assert(n[y] == m[b]);
                assert(text_before(k, m[at].0, 0));
                if b > at {
                    assert(text_before(m[at].0, m[b].0, 0));
                    lemma_before_trans(k, m[at].0, m[b].0, 0);
                }
            } else if y == at {
                assert(n[x] == m[x]);
                assert(!text_before(k, m[x].0, 0));
                assert(m[x].0 != k);
                assert(m[x].0.take(0) =~= k.take(0));
                lemma_before_total(m[x].0, k, 0);
            } else {
                assert(n[x] == m[a] && n[y] == m[b]);
            }
        }
    }
}

// ---------------------------------------------------------------------------
// Reading
// ---------------------------------------------------------------------------

impl JsonView {
    /// The member named `k` of an object.
    pub open spec fn get(self, k: Seq<char>) -> Option<JsonView> {
        match self {
            JsonView::Object(m) => member(m, k),
            _ => None,
        }
    }

    pub open spec fn as_str(self) -> Option<Seq<char>> {
        match self {
            JsonView::Str(s) => Some(s),
            _ => None,
        }
    }

    pub open spec fn as_bool(self) -> Option<bool> {
        match self {
            JsonView::Bool(b) => Some(b),
            _ => None,
        }
    }

    pub open spec fn as_u64(self) -> Option<int> {
        match self {
            JsonView::Int(n) => if 0 <= n <= u64::MAX {
                Some(n)
            } else {
                None
            },
            _ => None,
        }
    }

    pub open spec fn as_i64(self) -> Option<int> {
        match self {
            JsonView::Int(n) => if i64::MIN <= n <= i64::MAX {
                Some(n)
            } else {
                None
            },
            _ => None,
        }
    }

    pub open spec fn as_array(self) -> Option<Seq<JsonView>> {
        match self {
            JsonView::Array(a) => Some(a),
            _ => None,
        }
    }

    pub open spec fn as_object(self) -> Option<Members> {
        match self {
            JsonView::Object(m) => Some(m),
            _ => None,
        }
    }

    /// The text member named `k`.
    pub open spec fn str_at(self, k: Seq<char>) -> Option<Seq<char>> {
        match self.get(k) {
            Some(v) => v.as_str(),
            None => None,
        }
    }

    /// The non-negative integer member named `k`.
    pub open spec fn u64_at(self, k: Seq<char>) -> Option<int> {
        match self.get(k) {
            Some(v) => v.as_u64(),
            None => None,
        }
    }

    /// The integer member named `k`.
    pub open spec fn i64_at(self, k: Seq<char>) -> Option<int> {
        match self.get(k) {
            Some(v) => v.as_i64(),
            None => None,
        }
    }

    /// The list member named `k`.
    pub open spec fn array_at(self, k: Seq<char>) -> Option<Seq<JsonView>> {
        match self.get(k) {
            Some(v) => v.as_array(),
            None => None,
        }
    }

    /// An object with the member `k` set to `v`; any other value as it is.
    pub open spec fn with(self, k: Seq<char>, v: JsonView) -> JsonView {
        match self {
            JsonView::Object(m) => JsonView::Object(set_member(m, k, v)),
            other => other,
        }
    }

    /// An object without the member `k`; any other value as it is.
    pub open spec fn without(self, k: Seq<char>) -> JsonView {
        match self {
            JsonView::Object(m) => JsonView::Object(drop_member(m, k)),
            other => other,
        }
    }
}

/// The object without members.
pub open spec fn empty_object() -> JsonView {
    JsonView::Object(Seq::empty())
}

/// Setting a member of an object gives that member its value and leaves the
/// others alone.
pub proof fn lemma_with(j: JsonView, k: Seq<char>, v: JsonView)
    requires
        j is Object,
    ensures
        j.with(k, v) is Object,
        j.with(k, v).get(k) == Some(v),
        forall|o: Seq<char>| o != k ==> #[trigger] j.with(k, v).get(o) == j.get(o),
{
    let m = j->Object_0;
    set_member_reads_back(m, k, v, k);
    assert forall|o: Seq<char>| o != k implies #[trigger] j.with(k, v).get(o) == j.get(o) by {
        set_member_reads_back(m, k, v, o);
    }
}

pub proof fn lemma_empty_get(k: Seq<char>)
    ensures
        empty_object().get(k) is None,
{
    lemma_key_index(Seq::<(Seq<char>, JsonView)>::empty(), k, 0);
}

/// The member of an object by its name, or of a list by its place.
pub open spec fn slot(j: JsonView, name: Seq<char>, i: int) -> Option<JsonView> {
    match j {
        JsonView::Object(m) => member(m, name),
        JsonView::Array(a) => if 0 <= i < a.len() {
            Some(a[i])
        } else {
            None
        },
        _ => None,
    }
}

/// Whether a value is an object, or a list of a length from `least` to `most`.
pub open spec fn has_slots(j: JsonView, least: nat, most: nat) -> bool {
    match j {
        JsonView::Object(_) => true,
        JsonView::Array(a) => least <= a.len() <= most,
        _ => false,
    }
}

} // verus!
