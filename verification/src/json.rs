//! JSON values: reading, building and copying them.

use vstd::prelude::*;
use vstd::string::*;

use crate::json_model::{
    drop_member, empty_object, group_json, has_slots, json_seq, key_index, members_of, opt_json,
    set_member, slot, slot_index, text_before, Json, JsonView,
};
use crate::text::{chars_of, opt_str_view, str_eq};

verus! {

broadcast use group_json;

/// Whether `a` comes before `b`.
pub fn comes_before(a: &str, b: &str) -> (r: bool)
    ensures
        r == text_before(a@, b@, 0),
{
    let x = chars_of(a);
    let y = chars_of(b);
    let mut i: usize = 0;
    loop
        invariant
            x@ == a@,
            y@ == b@,
            i <= x@.len(),
            text_before(a@, b@, i as int) == text_before(a@, b@, 0),
        decreases x@.len() - i,
    {
        if i >= y.len() {
            return false;
        }
        if i >= x.len() {
            return true;
        }
        if x[i] != y[i] {
            return x[i] < y[i];
        }
        i = i + 1;
    }
}

/// Position of the first member named `k`, or the number of members.
pub fn find_key(v: &Vec<(String, Json)>, k: &str) -> (r: usize)
    ensures
        r == key_index(members_of(v@), k@, 0),
        r <= v@.len(),
{
    let n: usize = v.len();
    let ghost m = members_of(v@);
    let mut i: usize = 0;
    while i < n
        invariant
            i <= n,
            n == v@.len(),
            m == members_of(v@),
            key_index(m, k@, i as int) == key_index(m, k@, 0),
        decreases n - i,
    {
        if str_eq(v[i].0.as_str(), k) {
            return i;
        }
        i = i + 1;
    }
    n
}

fn find_slot(v: &Vec<(String, Json)>, k: &str) -> (r: usize)
    ensures
        r == slot_index(members_of(v@), k@, 0),
        r <= v@.len(),
{
    let n: usize = v.len();
    let ghost m = members_of(v@);
    let mut i: usize = 0;
    while i < n
        invariant
            i <= n,
            n == v@.len(),
            m == members_of(v@),
            slot_index(m, k@, i as int) == slot_index(m, k@, 0),
        decreases n - i,
    {
        if comes_before(k, v[i].0.as_str()) {
            return i;
        }
        i = i + 1;
    }
    n
}

/// Sets the member `k` of a list of members.
pub fn put_member(v: &mut Vec<(String, Json)>, k: &str, j: Json)
    ensures
        members_of(final(v)@) == set_member(members_of(old(v)@), k@, j@),
{
    let i: usize = find_key(v, k);
    let ghost m = members_of(v@);
    if i < v.len() {
        let key = v[i].0.clone();
        v.set(i, (key, j));
        proof {
            assert(members_of(v@) =~= m.update(i as int, (m[i as int].0, j@)));
        }
    } else {
        let at: usize = find_slot(v, k);
        v.insert(at, (k.to_owned(), j));
        proof {
            assert(members_of(v@) =~= m.insert(at as int, (k@, j@)));
        }
    }
}

/// Removes the member `k` of a list of members.
pub fn take_member(v: &mut Vec<(String, Json)>, k: &str)
    ensures
        members_of(final(v)@) == drop_member(members_of(old(v)@), k@),
{
    let i: usize = find_key(v, k);
    let ghost m = members_of(v@);
    if i < v.len() {
        v.remove(i);
        proof {
            assert(members_of(v@) =~= m.remove(i as int));
        }
    }
}

impl Json {
    /// The object without members.
    pub fn object() -> (r: Json)
        ensures
            r@ == empty_object(),
    {
        let v: Vec<(String, Json)> = Vec::new();
        let r = Json::Object(v);
        proof {
            assert(members_of(v@) =~= Seq::<(Seq<char>, JsonView)>::empty());
        }
        r
    }

    /// A text value.
    pub fn text(s: &str) -> (r: Json)
        ensures
            r@ == JsonView::Str(s@),
    {
        Json::Str(s.to_owned())
    }

    /// A list of one value.
    pub fn list1(j: Json) -> (r: Json)
        ensures
            r@ == JsonView::Array(seq![j@]),
    {
        let mut v: Vec<Json> = Vec::new();
        v.push(j);
        proof {
            assert(json_seq(v@) =~= seq![j@]);
        }
        Json::Array(v)
    }

    /// An integer value.
    pub fn number(n: i64) -> (r: Json)
        ensures
            r@ == JsonView::Int(n as int),
    {
        if n >= 0 {
            Json::Unsigned(n as u64)
        } else {
            Json::Signed(n)
        }
    }

    /// An object with the member `k` set to `v`; any other value as it is.
    pub fn with(self, k: &str, v: Json) -> (r: Json)
        ensures
            r@ == self@.with(k@, v@),
    {
        match self {
            Json::Object(m) => {
                let mut m = m;
                put_member(&mut m, k, v);
                Json::Object(m)
            },
            other => other,
        }
    }

    /// An object without the member `k`; any other value as it is.
    pub fn without(self, k: &str) -> (r: Json)
        ensures
            r@ == self@.without(k@),
    {
        match self {
            Json::Object(m) => {
                let mut m = m;
                take_member(&mut m, k);
                Json::Object(m)
            },
            other => other,
        }
    }

    /// The member named `k` of an object.
    pub fn get(&self, k: &str) -> (r: Option<&Json>)
        ensures
            opt_json(r) == self@.get(k@),
            r is Some ==> decreases_to!(self => r->0),
    {
        match self {
            Json::Object(v) => {
                let i: usize = find_key(v, k);
                if i < v.len() {
                    Some(&v[i].1)
                } else {
                    None
                }
            },
            _ => None,
        }
    }

    pub fn as_str(&self) -> (r: Option<&str>)
        ensures
            opt_str_view(r) == self@.as_str(),
    {
        match self {
            Json::Str(s) => Some(s.as_str()),
            _ => None,
        }
    }

    pub fn as_bool(&self) -> (r: Option<bool>)
        ensures
            r == self@.as_bool(),
    {
        match self {
            Json::Bool(b) => Some(*b),
            _ => None,
        }
    }

    pub fn as_u64(&self) -> (r: Option<u64>)
        ensures
            match r {
                Some(n) => self@.as_u64() == Some(n as int),
                None => self@.as_u64() is None,
            },
    {
        match self {
            Json::Unsigned(n) => Some(*n),
            Json::Signed(n) => if *n >= 0 {
                Some(*n as u64)
            } else {
                None
            },
            _ => None,
        }
    }

    pub fn as_i64(&self) -> (r: Option<i64>)
        ensures
            match r {
                Some(n) => self@.as_i64() == Some(n as int),
                None => self@.as_i64() is None,
            },
    {
        match self {
            Json::Unsigned(n) => if *n <= i64::MAX as u64 {
                Some(*n as i64)
            } else {
                None
            },
            Json::Signed(n) => Some(*n),
            _ => None,
        }
    }

    pub fn as_array(&self) -> (r: Option<&Vec<Json>>)
        ensures
            match r {
                Some(v) => self@.as_array() == Some(json_seq(v@)),
                None => self@.as_array() is None,
            },
    {
        match self {
            Json::Array(v) => Some(v),
            _ => None,
        }
    }

    pub fn as_object(&self) -> (r: Option<&Vec<(String, Json)>>)
        ensures
            match r {
                Some(v) => self@.as_object() == Some(members_of(v@)),
                None => self@.as_object() is None,
            },
    {
        match self {
            Json::Object(v) => Some(v),
            _ => None,
        }
    }

    /// The text member named `k`.
    pub fn str_at(&self, k: &str) -> (r: Option<&str>)
        ensures
            opt_str_view(r) == self@.str_at(k@),
    {
        match self.get(k) {
            Some(v) => v.as_str(),
            None => None,
        }
    }

    /// The non-negative integer member named `k`.
    pub fn u64_at(&self, k: &str) -> (r: Option<u64>)
        ensures
            match r {
                Some(n) => self@.u64_at(k@) == Some(n as int),
                None => self@.u64_at(k@) is None,
            },
    {
        match self.get(k) {
            Some(v) => v.as_u64(),
            None => None,
        }
    }

    /// The integer member named `k`.
    pub fn i64_at(&self, k: &str) -> (r: Option<i64>)
        ensures
            match r {
                Some(n) => self@.i64_at(k@) == Some(n as int),
                None => self@.i64_at(k@) is None,
            },
    {
        match self.get(k) {
            Some(v) => v.as_i64(),
            None => None,
        }
    }

    /// The list member named `k`.
    pub fn array_at(&self, k: &str) -> (r: Option<&Vec<Json>>)
        ensures
            match r {
                Some(v) => self@.array_at(k@) == Some(json_seq(v@)),
                None => self@.array_at(k@) is None,
            },
    {
        match self.get(k) {
            Some(v) => v.as_array(),
            None => None,
        }
    }

    /// A value with the same contents.
    pub fn copy(&self) -> (r: Json)
        ensures
            r@ == self@,
        decreases self,
    {
        match self {
            Json::Null => Json::Null,
            Json::Bool(b) => Json::Bool(*b),
            Json::Unsigned(n) => Json::Unsigned(*n),
            Json::Signed(n) => Json::Signed(*n),
            Json::Real(s) => Json::Real(s.clone()),
            Json::Str(s) => Json::Str(s.clone()),
            Json::Array(v) => {
                let mut out: Vec<Json> = Vec::new();
                let mut i: usize = 0;
                while i < v.len()
                    invariant
                        i <= v@.len(),
                        out@.len() == i,
                        decreases_to!(self => v),
                        forall|k: int| 0 <= k < i ==> #[trigger] out@[k]@ == v@[k]@,
                    decreases v@.len() - i,
                {
                    let c = v[i].copy();
                    out.push(c);
                    i = i + 1;
                }
                proof {
                    assert(json_seq(out@) =~= json_seq(v@));
                }
                Json::Array(out)
            },
            Json::Object(v) => {
                let mut out: Vec<(String, Json)> = Vec::new();
                let mut i: usize = 0;
                while i < v.len()
                    invariant
                        i <= v@.len(),
                        out@.len() == i,
                        decreases_to!(self => v),
                        forall|k: int|
                            0 <= k < i ==> (#[trigger] out@[k]).0@ == v@[k].0@ && out@[k].1@
                                == v@[k].1@,
                    decreases v@.len() - i,
                {
                    let c = v[i].1.copy();
                    out.push((v[i].0.clone(), c));
                    i = i + 1;
                }
                proof {
                    assert(members_of(out@) =~= members_of(v@));
                }
                Json::Object(out)
            },
        }
    }
}

/// The member of an object by its name, or of a list by its place.
pub fn slot_value<'a>(j: &'a Json, name: &str, i: usize) -> (r: Option<&'a Json>)
    ensures
        opt_json(r) == slot(j@, name@, i as int),
{
    match j {
        Json::Object(_) => j.get(name),
        Json::Array(v) => if i < v.len() {
            Some(&v[i])
        } else {
            None
        },
        _ => None,
    }
}

/// Whether a value is an object, or a list of a length from `least` to `most`.
pub fn slots_fit(j: &Json, least: usize, most: usize) -> (r: bool)
    ensures
        r == has_slots(j@, least as nat, most as nat),
{
    match j {
        Json::Object(_) => true,
        Json::Array(v) => least <= v.len() && v.len() <= most,
        _ => false,
    }
}

} // verus!
