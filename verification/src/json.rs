//! The library's model of a parsed JSON value, and the field readings the
//! task desk makes of it.
//!
//! A value arrives here already parsed. What the logic reads of a value is
//! held as plain data: each number carries, next to its exact form, the bits
//! of the `f64` it reads as; each object member carries, next to its value,
//! the compact JSON text of that value (the text the store keeps for
//! JSON-valued columns and compares when it looks for changes).

use vstd::prelude::*;
use crate::text::{owned, str_equal};

verus! {

/// The exact form of a JSON number.
pub enum NumKind {
    /// A non-negative integer.
    PosInt(u64),
    /// A negative integer.
    NegInt(i64),
    /// A floating-point number, by its IEEE-754 bits.
    Float(u64),
}

/// A JSON number: its exact form, and the bits of the `f64` it reads as.
pub struct Number {
    pub kind: NumKind,
    pub f64_bits: u64,
}

/// A JSON value.
pub enum Json {
    Null,
    Bool(bool),
    Num(Number),
    Str(String),
    Arr(Vec<Json>),
    Obj(Vec<Member>),
}

/// One member of a JSON object: its key, its value, and the compact JSON
/// text of the value.
pub struct Member {
    pub key: String,
    pub value: Json,
    pub text: String,
}

/// A parsed JSON value together with its compact JSON text.
pub struct JsonText {
    pub value: Json,
    pub text: String,
}

/// Mathematical view of a member.
pub struct MemberV {
    pub key: Seq<char>,
    pub value: JsonV,
    pub text: Seq<char>,
}

/// Mathematical view of a JSON value.
pub enum JsonV {
    Null,
    Bool(bool),
    Num(Number),
    Str(Seq<char>),
    Arr(Seq<JsonV>),
    Obj(Seq<MemberV>),
}

pub open spec fn json_view(j: Json) -> JsonV
    decreases j,
{
    match j {
        Json::Null => JsonV::Null,
        Json::Bool(b) => JsonV::Bool(b),
        Json::Num(n) => JsonV::Num(n),
        Json::Str(s) => JsonV::Str(s@),
        Json::Arr(v) => JsonV::Arr(
            Seq::new(
                v@.len(),
                |i: int|
                    if 0 <= i < v@.len() {
                        json_view(v@[i])
                    } else {
                        JsonV::Null
                    },
            ),
        ),
        Json::Obj(ms) => JsonV::Obj(
            Seq::new(
                ms@.len(),
                |i: int|
                    if 0 <= i < ms@.len() {
                        MemberV { key: ms@[i].key@, value: json_view(ms@[i].value), text: ms@[i].text@ }
                    } else {
                        MemberV { key: Seq::empty(), value: JsonV::Null, text: Seq::empty() }
                    },
            ),
        ),
    }
}

impl View for Json {
    type V = JsonV;

    open spec fn view(&self) -> JsonV {
        json_view(*self)
    }
}

impl View for Member {
    type V = MemberV;

    open spec fn view(&self) -> MemberV {
        MemberV { key: self.key@, value: self.value@, text: self.text@ }
    }
}

impl View for JsonText {
    type V = (JsonV, Seq<char>);

    open spec fn view(&self) -> (JsonV, Seq<char>) {
        (self.value@, self.text@)
    }
}

/// The views of a sequence of values.
pub open spec fn json_views(v: Seq<Json>) -> Seq<JsonV> {
    Seq::new(v.len(), |i: int| v[i]@)
}

/// `serde_json`'s `as_i64` on a number.
pub open spec fn num_as_i64(n: Number) -> Option<i64> {
    match n.kind {
        NumKind::PosInt(u) => if u <= i64::MAX as u64 {
            Some(u as i64)
        } else {
            None
        },
        NumKind::NegInt(i) => Some(i),
        NumKind::Float(_) => None,
    }
}

/// First member with the given key.
pub open spec fn lookup(ms: Seq<MemberV>, key: Seq<char>) -> Option<MemberV>
    decreases ms.len(),
{
    if ms.len() == 0 {
        None
    } else if ms[0].key == key {
        Some(ms[0])
    } else {
        lookup(ms.drop_first(), key)
    }
}

/// The member of an object under a key (`Value::get`); none for a
/// non-object.
pub open spec fn member(j: JsonV, key: Seq<char>) -> Option<MemberV> {
    match j {
        JsonV::Obj(ms) => lookup(ms, key),
        _ => None,
    }
}

/// The value under a key, or null (`value[key]`).
pub open spec fn at(j: JsonV, key: Seq<char>) -> JsonV {
    match member(j, key) {
        Some(m) => m.value,
        None => JsonV::Null,
    }
}

/// The compact JSON text of the value under a key (`value[key].to_string()`).
pub open spec fn text_at(j: JsonV, key: Seq<char>) -> Seq<char> {
    match member(j, key) {
        Some(m) => m.text,
        None => "null"@,
    }
}

/// `as_str().unwrap_or("")`.
pub open spec fn str_or_empty(j: JsonV) -> Seq<char> {
    match j {
        JsonV::Str(s) => s,
        _ => Seq::empty(),
    }
}

/// `as_i64().unwrap_or(0)`.
pub open spec fn i64_or_zero(j: JsonV) -> i64 {
    match j {
        JsonV::Num(n) => match num_as_i64(n) {
            Some(i) => i,
            None => 0,
        },
        _ => 0,
    }
}

/// `as_bool()`.
pub open spec fn as_bool(j: JsonV) -> Option<bool> {
    match j {
        JsonV::Bool(b) => Some(b),
        _ => None,
    }
}

/// The bits of `as_f64().unwrap_or(0.0)` (the bits of `0.0` are zero).
pub open spec fn f64_bits_or_zero(j: JsonV) -> u64 {
    match j {
        JsonV::Num(n) => n.f64_bits,
        _ => 0,
    }
}

/// The elements of an array; nothing for a non-array.
pub open spec fn elems(j: JsonV) -> Seq<JsonV> {
    match j {
        JsonV::Arr(v) => v,
        _ => Seq::empty(),
    }
}

/// The string field under a key, `""` when absent or not a string.
pub open spec fn str_field(j: JsonV, key: Seq<char>) -> Seq<char> {
    str_or_empty(at(j, key))
}

/// The integer field under a key, `0` when absent or not an `i64`.
pub open spec fn int_field(j: JsonV, key: Seq<char>) -> i64 {
    i64_or_zero(at(j, key))
}

/// The boolean field under a key as stored: `1` for `true`, else `0`.
pub open spec fn flag_field(j: JsonV, key: Seq<char>) -> i64 {
    if as_bool(at(j, key)) == Some(true) {
        1
    } else {
        0
    }
}

/// The elements of the array under a key.
pub open spec fn list_field(j: JsonV, key: Seq<char>) -> Seq<JsonV> {
    elems(at(j, key))
}

proof fn lemma_lookup_skip(ms: Seq<MemberV>, i: int, key: Seq<char>)
    requires
        0 <= i < ms.len(),
    ensures
        lookup(ms.skip(i), key) == (if ms[i].key == key {
            Some(ms[i])
        } else {
            lookup(ms.skip(i + 1), key)
        }),
{
    assert(ms.skip(i).drop_first() =~= ms.skip(i + 1));
    assert(ms.skip(i)[0] == ms[i]);
}

impl Json {
    /// The member under `key`, if this is an object that has one.
    pub fn get<'a>(&'a self, key: &str) -> (r: Option<&'a Member>)
        ensures
            r is None <==> member(self@, key@) is None,
            r matches Some(m) ==> member(self@, key@) == Some(m@),
    {
        match self {
            Json::Obj(ms) => {
                let ghost mv = match self@ {
                    JsonV::Obj(x) => x,
                    _ => Seq::empty(),
                };
                assert(mv.skip(0) =~= mv);
                assert(forall|k: int| 0 <= k < ms@.len() ==> #[trigger] mv[k] == ms@[k]@);
                let mut i: usize = 0;
                while i < ms.len()
                    invariant
                        i <= ms@.len(),
                        mv.len() == ms@.len(),
                        member(self@, key@) == lookup(mv, key@),
                        forall|k: int| 0 <= k < ms@.len() ==> #[trigger] mv[k] == ms@[k]@,
                        lookup(mv, key@) == lookup(mv.skip(i as int), key@),
                    decreases ms.len() - i,
                {
                    proof {
                        lemma_lookup_skip(mv, i as int, key@);
                    }
                    if str_equal(ms[i].key.as_str(), key) {
                        return Some(&ms[i]);
                    }
                    i = i + 1;
                }
                assert(mv.skip(i as int).len() == 0);
                None
            },
            _ => None,
        }
    }

    /// `self[key].as_str().unwrap_or("")`, owned.
    pub fn str_at(&self, key: &str) -> (r: String)
        ensures
            r@ == str_field(self@, key@),
    {
        match self.get(key) {
            Some(m) => match &m.value {
                Json::Str(s) => s.clone(),
                _ => String::new(),
            },
            None => String::new(),
        }
    }

    /// `self[key].as_i64().unwrap_or(0)`.
    pub fn int_at(&self, key: &str) -> (r: i64)
        ensures
            r == int_field(self@, key@),
    {
        match self.get(key) {
            Some(m) => match &m.value {
                Json::Num(n) => match &n.kind {
                    NumKind::PosInt(u) => if *u <= i64::MAX as u64 {
                        *u as i64
                    } else {
                        0
                    },
                    NumKind::NegInt(i) => *i,
                    NumKind::Float(_) => 0,
                },
                _ => 0,
            },
            None => 0,
        }
    }

    /// `self[key].as_bool()`.
    pub fn bool_at(&self, key: &str) -> (r: Option<bool>)
        ensures
            r == as_bool(at(self@, key@)),
    {
        match self.get(key) {
            Some(m) => match &m.value {
                Json::Bool(b) => Some(*b),
                _ => None,
            },
            None => None,
        }
    }

    /// The bits of `self[key].as_f64().unwrap_or(0.0)`.
    pub fn f64_bits_at(&self, key: &str) -> (r: u64)
        ensures
            r == f64_bits_or_zero(at(self@, key@)),
    {
        match self.get(key) {
            Some(m) => match &m.value {
                Json::Num(n) => n.f64_bits,
                _ => 0,
            },
            None => 0,
        }
    }

    /// `self[key].to_string()`: the compact JSON text of the value under
    /// `key`, `null` when absent.
    pub fn text_at(&self, key: &str) -> (r: String)
        ensures
            r@ == text_at(self@, key@),
    {
        match self.get(key) {
            Some(m) => m.text.clone(),
            None => owned("null"),
        }
    }

    /// `self[key].as_array()`.
    pub fn array_at<'a>(&'a self, key: &str) -> (r: Option<&'a Vec<Json>>)
        ensures
            r is Some <==> at(self@, key@) is Arr,
            r matches Some(v) ==> json_views(v@) == list_field(self@, key@),
    {
        match self.get(key) {
            Some(m) => match &m.value {
                Json::Arr(v) => {
                    assert(json_views(v@) =~= list_field(self@, key@));
                    Some(v)
                },
                _ => None,
            },
            None => None,
        }
    }
}

} // verus!

verus! {

impl Number {
    pub fn copy(&self) -> (r: Number)
        ensures
            r == *self,
    {
        let kind = match &self.kind {
            NumKind::PosInt(u) => NumKind::PosInt(*u),
            NumKind::NegInt(i) => NumKind::NegInt(*i),
            NumKind::Float(b) => NumKind::Float(*b),
        };
        Number { kind, f64_bits: self.f64_bits }
    }
}

impl Json {
    /// A deep copy.
    #[verifier::loop_isolation(false)]
    pub fn deep_clone(&self) -> (r: Json)
        ensures
            r@ == self@,
        decreases self,
    {
        match self {
            Json::Null => Json::Null,
            Json::Bool(b) => Json::Bool(*b),
            Json::Num(n) => Json::Num(n.copy()),
            Json::Str(s) => Json::Str(s.clone()),
            Json::Arr(v) => {
                let mut out: Vec<Json> = Vec::new();
                let mut i: usize = 0;
                while i < v.len()
                    invariant
                        i <= v@.len(),
                        out@.len() == i,
                        forall|k: int| 0 <= k < i ==> #[trigger] out@[k]@ == v@[k]@,
                    decreases v.len() - i,
                {
                    let c = v[i].deep_clone();
                    out.push(c);
                    i = i + 1;
                }
                let r = Json::Arr(out);
                assert(r@ == self@) by {
                    assert(json_views(out@) =~= json_views(v@));
                    if let JsonV::Arr(a) = r@ {
                        assert(a =~= json_views(out@));
                    }
                    if let JsonV::Arr(b) = self@ {
                        assert(b =~= json_views(v@));
                    }
                }
                r
            },
            Json::Obj(ms) => {
                let mut out: Vec<Member> = Vec::new();
                let mut i: usize = 0;
                while i < ms.len()
                    invariant
                        i <= ms@.len(),
                        out@.len() == i,
                        forall|k: int| 0 <= k < i ==> #[trigger] out@[k]@ == ms@[k]@,
                    decreases ms.len() - i,
                {
                    let m = &ms[i];
                    let c = Member { key: m.key.clone(), value: m.value.deep_clone(), text: m.text.clone() };
                    out.push(c);
                    i = i + 1;
                }
                let r = Json::Obj(out);
                assert(r@ == self@) by {
                    if let JsonV::Obj(a) = r@ {
                        if let JsonV::Obj(b) = self@ {
                            assert forall|k: int| 0 <= k < a.len() implies a[k] == b[k] by {
                                assert(out@[k]@ == ms@[k]@);
                            }
                            assert(a =~= b);
                        }
                    }
                }
                r
            },
        }
    }
}

} // verus!
