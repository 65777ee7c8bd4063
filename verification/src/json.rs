//! A generic JSON value and its mathematical model.
//!
//! `Json` is the executable tree; `JsonV` is the spec-level model with
//! `Seq`-based strings, arrays and objects. An object is an ordered list
//! of key/value entries; key lookup finds the first entry with the key.
//! A number is kept as an exact integer or, for non-integer numbers, as
//! the literal text it was written with, so the codec can carry it
//! through without loss.

use vstd::prelude::*;

verus! {

/// A JSON number: an exact integer, or the literal text of a
/// non-integer number, carried through the codec unread.
#[derive(Debug, PartialEq, Eq)]
pub enum JNum {
    /// A number that fits in `i64`.
    Int(i64),
    /// A non-negative number above `i64::MAX` that fits in `u64`.
    Big(u64),
    /// Any other number, as its decimal literal text.
    Text(String),
}

/// A generic JSON value.
#[derive(Debug, PartialEq, Eq)]
pub enum Json {
    Null,
    Bool(bool),
    Num(JNum),
    Str(String),
    Arr(Vec<Json>),
    /// An object: ordered key/value entries.
    Obj(Vec<(String, Json)>),
}

/// Spec model of a JSON number.
#[verifier::ext_equal]
pub enum JNumV {
    Int(i64),
    Big(u64),
    Text(Seq<char>),
}

/// Spec model of a JSON value.
#[verifier::ext_equal]
pub enum JsonV {
    Null,
    Bool(bool),
    Num(JNumV),
    Str(Seq<char>),
    Arr(Seq<JsonV>),
    Obj(Seq<(Seq<char>, JsonV)>),
}

pub open spec fn jnum_view(n: JNum) -> JNumV {
    match n {
        JNum::Int(i) => JNumV::Int(i),
        JNum::Big(u) => JNumV::Big(u),
        JNum::Text(s) => JNumV::Text(s@),
    }
}

pub open spec fn json_view(j: Json) -> JsonV
    decreases j,
{
    match j {
        Json::Null => JsonV::Null,
        Json::Bool(b) => JsonV::Bool(b),
        Json::Num(n) => JsonV::Num(jnum_view(n)),
        Json::Str(s) => JsonV::Str(s@),
        Json::Arr(v) => JsonV::Arr(jsons_view(v@)),
        Json::Obj(v) => JsonV::Obj(entries_view(v@)),
    }
}

/// Pointwise view of a sequence of JSON values.
pub open spec fn jsons_view(s: Seq<Json>) -> Seq<JsonV>
    decreases s,
{
    Seq::new(
        s.len(),
        |i: int|
            if 0 <= i < s.len() {
                json_view(s[i])
            } else {
                JsonV::Null
            },
    )
}

/// Pointwise view of the entries of a JSON object.
pub open spec fn entries_view(s: Seq<(String, Json)>) -> Seq<(Seq<char>, JsonV)>
    decreases s,
{
    Seq::new(
        s.len(),
        |i: int|
            if 0 <= i < s.len() {
                (s[i].0@, json_view(s[i].1))
            } else {
                (Seq::empty(), JsonV::Null)
            },
    )
}

impl View for JNum {
    type V = JNumV;

    open spec fn view(&self) -> JNumV {
        jnum_view(*self)
    }
}

impl View for Json {
    type V = JsonV;

    open spec fn view(&self) -> JsonV {
        json_view(*self)
    }
}

/// Index of the first entry with key `k`, scanning from position `i`;
/// `-1` when no entry from `i` on has that key.
pub open spec fn key_from(s: Seq<(Seq<char>, JsonV)>, k: Seq<char>, i: int) -> int
    decreases s.len() - i,
{
    if i < 0 || i >= s.len() {
        -1
    } else if s[i].0 == k {
        i
    } else {
        key_from(s, k, i + 1)
    }
}

/// Index of the first entry of `s` whose key is `k`; `-1` when absent.
pub open spec fn key_at(s: Seq<(Seq<char>, JsonV)>, k: Seq<char>) -> int {
    key_from(s, k, 0)
}

pub open spec fn has_key(s: Seq<(Seq<char>, JsonV)>, k: Seq<char>) -> bool {
    key_at(s, k) >= 0
}

/// What `key_from` finds: an in-range entry with key `k`, before which no
/// entry from `i` on has key `k`; or `-1` and no entry from `i` on has it.
pub proof fn lemma_key_from(s: Seq<(Seq<char>, JsonV)>, k: Seq<char>, i: int)
    requires
        0 <= i <= s.len(),
    ensures
        key_from(s, k, i) == -1 ==> forall|m: int| i <= m < s.len() ==> s[m].0 != k,
        key_from(s, k, i) != -1 ==> i <= key_from(s, k, i) < s.len() && s[key_from(s, k, i)].0
            == k && forall|m: int| i <= m < key_from(s, k, i) ==> s[m].0 != k,
    decreases s.len() - i,
{
    if i < s.len() && s[i].0 != k {
        lemma_key_from(s, k, i + 1);
    }
}

/// What `key_at` finds, at the whole-sequence level.
pub proof fn lemma_key_at(s: Seq<(Seq<char>, JsonV)>, k: Seq<char>)
    ensures
        key_at(s, k) == -1 ==> forall|m: int| 0 <= m < s.len() ==> s[m].0 != k,
        key_at(s, k) != -1 ==> 0 <= key_at(s, k) < s.len() && s[key_at(s, k)].0 == k
            && forall|m: int| 0 <= m < key_at(s, k) ==> s[m].0 != k,
        has_key(s, k) <==> exists|m: int| 0 <= m < s.len() && s[m].0 == k,
{
    lemma_key_from(s, k, 0);
    if key_at(s, k) >= 0 {
        let w = key_at(s, k);
        assert(0 <= w < s.len() && s[w].0 == k);
    }
}

impl JNum {
    /// An exact copy of the number.
    pub fn dup(&self) -> (r: JNum)
        ensures
            r@ == self@,
    {
        match self {
            JNum::Int(i) => JNum::Int(*i),
            JNum::Big(u) => JNum::Big(*u),
            JNum::Text(s) => JNum::Text(s.clone()),
        }
    }
}

/// Whether `s@` equals the view of the literal-like string `lit`.
pub fn str_is(s: &String, lit: &str) -> (r: bool)
    ensures
        r == (s@ == lit@),
{
    *s == lit.to_owned()
}

/// First entry of `v` whose key is `k`, as an index.
pub fn find_key(v: &Vec<(String, Json)>, k: &String) -> (r: Option<usize>)
    ensures
        match r {
            Some(i) => i < v.len() && key_at(entries_view(v@), k@) == i as int,
            None => key_at(entries_view(v@), k@) == -1,
        },
{
    let ghost s = entries_view(v@);
    let mut i: usize = 0;
    while i < v.len()
        invariant
            0 <= i <= v.len(),
            s == entries_view(v@),
            s.len() == v.len(),
            key_from(s, k@, 0) == key_from(s, k@, i as int),
        decreases v.len() - i,
    {
        if v[i].0 == *k {
            assert(s[i as int].0 == k@);
            return Some(i);
        }
        assert(s[i as int].0 != k@);
        i = i + 1;
    }
    None
}

} // verus!
