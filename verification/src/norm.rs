//! The tag rewrite: external tagged JSON is normalized, depth first, so
//! that every `{"t": name, "c": payload}` wrapper becomes a single-key
//! object `{name: payload}` for the typed decoder. Objects of any other
//! shape, arrays and scalars are kept, their children rewritten in
//! place. A wrapper whose `"t"` value is not a string is rejected.
//!
//! The two-key-exact-match test is how the codec tells a tag wrapper
//! from an ordinary object. The external format guarantees that no
//! ordinary two-key `{"t","c"}` object occurs in variant payload
//! positions; the rewrite is safe only under that closed-world
//! assumption, which it cannot check.

use vstd::prelude::*;

use crate::error::DecodeKind;
use crate::error::Error;
use crate::json::Json;
use crate::json::JsonV;
use crate::json::entries_view;
use crate::json::find_key;
use crate::json::jsons_view;
use crate::json::key_at;

verus! {

/// Whether an object's entries have exactly the two keys `"t"` and `"c"`.
pub open spec fn is_tag_shape(s: Seq<(Seq<char>, JsonV)>) -> bool {
    &&& s.len() == 2
    &&& 0 <= key_at(s, "t"@) < s.len()
    &&& 0 <= key_at(s, "c"@) < s.len()
}

/// The normalized form of `j`: `None` when some tag wrapper in `j`
/// holds a non-string tag.
pub open spec fn norm(j: JsonV) -> Option<JsonV>
    decreases j,
{
    match j {
        JsonV::Null => Some(j),
        JsonV::Bool(_) => Some(j),
        JsonV::Num(_) => Some(j),
        JsonV::Str(_) => Some(j),
        JsonV::Arr(s) => match norm_seq(s) {
            Some(r) => Some(JsonV::Arr(r)),
            None => None,
        },
        JsonV::Obj(s) => if is_tag_shape(s) {
            match s[key_at(s, "t"@)].1 {
                JsonV::Str(name) => match norm(s[key_at(s, "c"@)].1) {
                    Some(c) => Some(JsonV::Obj(seq![(name, c)])),
                    None => None,
                },
                _ => None,
            }
        } else {
            match norm_entries(s) {
                Some(r) => Some(JsonV::Obj(r)),
                None => None,
            }
        },
    }
}

/// Normalized forms of every element of `s`.
pub open spec fn norm_seq(s: Seq<JsonV>) -> Option<Seq<JsonV>>
    decreases s,
{
    if s.len() == 0 {
        Some(Seq::empty())
    } else {
        let init = norm_seq(s.subrange(0, s.len() - 1));
        let last = norm(s[s.len() - 1]);
        if init is Some && last is Some {
            Some(init.unwrap().push(last.unwrap()))
        } else {
            None
        }
    }
}

/// Normalized forms of every entry value of `s`, keys unchanged.
pub open spec fn norm_entries(s: Seq<(Seq<char>, JsonV)>) -> Option<Seq<(Seq<char>, JsonV)>>
    decreases s,
{
    if s.len() == 0 {
        Some(Seq::empty())
    } else {
        let init = norm_entries(s.subrange(0, s.len() - 1));
        let last = norm(s[s.len() - 1].1);
        if init is Some && last is Some {
            Some(init.unwrap().push((s[s.len() - 1].0, last.unwrap())))
        } else {
            None
        }
    }
}

/// `norm_seq` succeeds exactly when every element normalizes, and then
/// gives the elementwise normalized sequence.
pub proof fn lemma_norm_seq(s: Seq<JsonV>)
    ensures
        match norm_seq(s) {
            Some(r) => r.len() == s.len() && forall|i: int|
                0 <= i < s.len() ==> (#[trigger] norm(s[i])) == Some(r[i]),
            None => exists|i: int| 0 <= i < s.len() && (#[trigger] norm(s[i])) is None,
        },
    decreases s.len(),
{
    if s.len() > 0 {
        let pre = s.subrange(0, s.len() - 1);
        lemma_norm_seq(pre);
        assert(forall|i: int| 0 <= i < pre.len() ==> pre[i] == s[i]);
        if norm_seq(s) is None && norm_seq(pre) is Some {
            assert(norm(s[s.len() - 1]) is None);
        }
    }
}

/// `norm_entries` succeeds exactly when every entry value normalizes,
/// and then keeps keys and order.
pub proof fn lemma_norm_entries(s: Seq<(Seq<char>, JsonV)>)
    ensures
        match norm_entries(s) {
            Some(r) => r.len() == s.len() && forall|i: int|
                0 <= i < s.len() ==> r[i].0 == s[i].0 && (#[trigger] norm(s[i].1)) == Some(
                    r[i].1,
                ),
            None => exists|i: int| 0 <= i < s.len() && (#[trigger] norm(s[i].1)) is None,
        },
    decreases s.len(),
{
    if s.len() > 0 {
        let pre = s.subrange(0, s.len() - 1);
        lemma_norm_entries(pre);
        assert(forall|i: int| 0 <= i < pre.len() ==> pre[i] == s[i]);
        if norm_entries(s) is None && norm_entries(pre) is Some {
            assert(norm(s[s.len() - 1].1) is None);
        }
    }
}

/// An object with exactly the keys `"t"` and `"c"` whose `"t"` value is
/// not a string is rejected, never passed through.
pub proof fn law_non_string_tag_rejected(s: Seq<(Seq<char>, JsonV)>)
    requires
        is_tag_shape(s),
        !(s[key_at(s, "t"@)].1 is Str),
    ensures
        norm(JsonV::Obj(s)) is None,
{
}

/// The tag test goes by key shape alone. An object without exactly the
/// keys `"t"` and `"c"` is kept as an ordinary object, entry for entry:
/// keys and order unchanged, values rewritten in place. An object with
/// exactly those keys is never kept: it is rewritten to a single-key
/// object (or rejected), even where it was meant as ordinary data, since
/// the test cannot see whether a position is a variant position.
pub proof fn law_tag_heuristic(s: Seq<(Seq<char>, JsonV)>)
    ensures
        !is_tag_shape(s) ==> match norm(JsonV::Obj(s)) {
            Some(r) => r matches JsonV::Obj(s2) && s2.len() == s.len() && forall|i: int|
                0 <= i < s.len() ==> (#[trigger] s2[i]).0 == s[i].0 && norm(s[i].1) == Some(
                    s2[i].1,
                ),
            None => exists|i: int| 0 <= i < s.len() && (#[trigger] norm(s[i].1)) is None,
        },
        is_tag_shape(s) ==> match norm(JsonV::Obj(s)) {
            Some(r) => r matches JsonV::Obj(s2) && s2.len() == 1 && s[key_at(s, "t"@)].1
                == JsonV::Str(s2[0].0) && norm(s[key_at(s, "c"@)].1) == Some(s2[0].1),
            None => !(s[key_at(s, "t"@)].1 is Str) || norm(s[key_at(s, "c"@)].1) is None,
        },
{
    if !is_tag_shape(s) {
        lemma_norm_entries(s);
    }
}

/// Normalize `j`, rewriting every tag wrapper to a single-key object.
#[verifier::loop_isolation(false)]
pub fn normalize(j: &Json) -> (r: Result<Json, Error>)
    ensures
        match r {
            Ok(n) => norm(j@) == Some(n@),
            Err(e) => norm(j@) is None && (e matches Error::Decode(k, _) && k
                == DecodeKind::NonStringTag),
        },
    decreases j,
{
    match j {
        Json::Null => Ok(Json::Null),
        Json::Bool(b) => Ok(Json::Bool(*b)),
        Json::Num(n) => Ok(Json::Num(n.dup())),
        Json::Str(s) => Ok(Json::Str(s.clone())),
        Json::Arr(v) => {
            let ghost s = jsons_view(v@);
            let mut out: Vec<Json> = Vec::new();
            let mut i: usize = 0;
            while i < v.len()
                invariant
                    0 <= i <= v.len(),
                    out@.len() == i,
                    forall|k: int| 0 <= k < i ==> (#[trigger] norm(s[k])) == Some(out@[k]@),
                decreases v.len() - i,
            {
                proof {
                    assert(*j == Json::Arr(*v));
                    assert(decreases_to!(*j => j->Arr_0));
                    assert(decreases_to!(*v => v@));
                    assert(decreases_to!(v@ => v@[i as int]));
                    assert(decreases_to!(*j => v@[i as int]));
                }
                match normalize(&v[i]) {
                    Ok(n) => {
                        out.push(n);
                    },
                    Err(e) => {
                        proof {
                            assert(norm(s[i as int]) is None);
                            lemma_norm_seq(s);
                            assert(norm_seq(s) is None);
                        }
                        return Err(e);
                    },
                }
                i = i + 1;
            }
            proof {
                lemma_norm_seq(s);
                if norm_seq(s) is None {
                    let w = choose|k: int| 0 <= k < s.len() && (#[trigger] norm(s[k])) is None;
                    assert(norm(s[w]) == Some(out@[w]@));
                    assert(false);
                }
                let r = norm_seq(s).unwrap();
                assert forall|k: int| 0 <= k < s.len() implies r[k] == jsons_view(out@)[k] by {
                    assert(norm(s[k]) == Some(out@[k]@));
                }
                assert(r =~= jsons_view(out@));
                assert(j@ == JsonV::Arr(s));
            }
            Ok(Json::Arr(out))
        },
        Json::Obj(v) => {
            let tk: String = "t".to_owned();
            let ck: String = "c".to_owned();
            let ghost s = entries_view(v@);
            let ti_o = find_key(v, &tk);
            let ci_o = find_key(v, &ck);
            if v.len() == 2 && ti_o.is_some() && ci_o.is_some() {
                let ti = ti_o.unwrap();
                let ci = ci_o.unwrap();
                assert(is_tag_shape(s));
                match &v[ti].1 {
                    Json::Str(name) => {
                        proof {
                            assert(*j == Json::Obj(*v));
                            assert(decreases_to!(*j => j->Obj_0));
                            assert(decreases_to!(*v => v@));
                            assert(decreases_to!(v@ => v@[ci as int]));
                            assert(decreases_to!(v@[ci as int] => v@[ci as int].1));
                            assert(decreases_to!(*j => v@[ci as int].1));
                        }
                        match normalize(&v[ci].1) {
                            Ok(c2) => {
                                let entry = (name.clone(), c2);
                                let mut out: Vec<(String, Json)> = Vec::new();
                                out.push(entry);
                                let r = Json::Obj(out);
                                proof {
                                    assert(entries_view(r->Obj_0@) =~= seq![(name@, c2@)]);
                                    assert(norm(j@) == Some(r@));
                                }
                                Ok(r)
                            },
                            Err(e) => Err(e),
                        }
                    },
                    _ => Err(Error::decode(DecodeKind::NonStringTag)),
                }
            } else {
                assert(!is_tag_shape(s));
                let mut out: Vec<(String, Json)> = Vec::new();
                let mut i: usize = 0;
                while i < v.len()
                    invariant
                        0 <= i <= v.len(),
                        out@.len() == i,
                        forall|k: int|
                            0 <= k < i ==> (#[trigger] out@[k]).0@ == s[k].0 && norm(s[k].1)
                                == Some(out@[k].1@),
                    decreases v.len() - i,
                {
                    proof {
                        assert(*j == Json::Obj(*v));
                        assert(decreases_to!(*j => j->Obj_0));
                        assert(decreases_to!(*v => v@));
                        assert(decreases_to!(v@ => v@[i as int]));
                        assert(decreases_to!(v@[i as int] => v@[i as int].1));
                        assert(decreases_to!(*j => v@[i as int].1));
                    }
                    match normalize(&v[i].1) {
                        Ok(n) => {
                            out.push((v[i].0.clone(), n));
                        },
                        Err(e) => {
                            proof {
                                assert(norm(s[i as int].1) is None);
                                lemma_norm_entries(s);
                                assert(norm_entries(s) is None);
                            }
                            return Err(e);
                        },
                    }
                    i = i + 1;
                }
                proof {
                    lemma_norm_entries(s);
                    if norm_entries(s) is None {
                        let w = choose|k: int|
                            0 <= k < s.len() && (#[trigger] norm(s[k].1)) is None;
                        assert(norm(s[w].1) == Some(out@[w].1@));
                        assert(false);
                    }
                    let r = norm_entries(s).unwrap();
                    assert forall|k: int| 0 <= k < s.len() implies r[k] == entries_view(out@)[k] by {
                        assert(norm(s[k].1) == Some(out@[k].1@));
                        assert(out@[k].0@ == s[k].0);
                    }
                    assert(r =~= entries_view(out@));
                    assert(j@ == JsonV::Obj(s));
                }
                Ok(Json::Obj(out))
            }
        },
    }
}

} // verus!
