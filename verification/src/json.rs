//! JSON-like values.
//!
//! Request bodies, wire parameter values and schema enumeration members are
//! held in one value type. Numbers are either 64-bit integers or exact
//! decimals, so the checkers never touch floating point.

use vstd::prelude::*;
use crate::num::Dec;
use crate::text::str_eq;

verus! {

broadcast use vstd::std_specs::vec::group_vec_axioms, vstd::seq::group_seq_axioms;

/// A JSON-like value.
#[derive(Debug)]
pub enum Json {
    Null,
    Bool(bool),
    /// A number written without a fractional part.
    Int(i64),
    /// A number written with a fractional part, held as an exact decimal.
    Num(Dec),
    Str(String),
    Arr(Vec<Json>),
    Obj(Vec<(String, Json)>),
}

/// The mathematical shape of a [`Json`] value: strings become character
/// sequences, vectors become sequences.
#[verifier::ext_equal]
pub enum JsonV {
    Null,
    Bool(bool),
    Int(i64),
    Num(Dec),
    Str(Seq<char>),
    Arr(Seq<JsonV>),
    Obj(Seq<(Seq<char>, JsonV)>),
}

impl Json {
    /// The mathematical shape of this value.
    pub open spec fn jv(self) -> JsonV
        decreases self,
    {
        match self {
            Json::Null => JsonV::Null,
            Json::Bool(b) => JsonV::Bool(b),
            Json::Int(i) => JsonV::Int(i),
            Json::Num(d) => JsonV::Num(d),
            Json::Str(s) => JsonV::Str(s@),
            Json::Arr(v) => JsonV::Arr(
                Seq::new(
                    v@.len(),
                    |i: int|
                        if 0 <= i < v@.len() {
                            v@[i].jv()
                        } else {
                            JsonV::Null
                        },
                ),
            ),
            Json::Obj(v) => JsonV::Obj(
                Seq::new(
                    v@.len(),
                    |i: int|
                        if 0 <= i < v@.len() {
                            (v@[i].0@, v@[i].1.jv())
                        } else {
                            (Seq::empty(), JsonV::Null)
                        },
                ),
            ),
        }
    }

    /// Every decimal held anywhere in this value is well formed.
    pub open spec fn wf(self) -> bool
        decreases self,
    {
        match self {
            Json::Num(d) => d.wf(),
            Json::Arr(v) => forall|i: int| 0 <= i < v@.len() ==> (#[trigger] v@[i]).wf(),
            Json::Obj(v) => forall|i: int| 0 <= i < v@.len() ==> (#[trigger] v@[i]).1.wf(),
            _ => true,
        }
    }
}

impl Clone for Json {
    /// Clones the value; the copy has the same mathematical shape.
    #[verifier::loop_isolation(false)]
    fn clone(&self) -> (res: Self)
        ensures
            res.jv() == self.jv(),
        decreases self,
    {
        match self {
            Json::Null => Json::Null,
            Json::Bool(b) => Json::Bool(*b),
            Json::Int(i) => Json::Int(*i),
            Json::Num(d) => Json::Num(*d),
            Json::Str(s) => Json::Str(s.clone()),
            Json::Arr(v) => {
                let mut out: Vec<Json> = Vec::new();
                let n = v.len();
                let mut i: usize = 0;
                while i < n
                    invariant
                        0 <= i <= n,
                        n == v@.len(),
                        out@.len() == i,
                        forall|k: int| 0 <= k < i ==> out@[k].jv() == #[trigger] v@[k].jv(),
                    decreases n - i,
                {
                    out.push(v[i].clone());
                    i = i + 1;
                }
                let res = Json::Arr(out);
                proof {
                    assert forall|k: int| 0 <= k < out@.len() implies res.jv()->Arr_0[k]
                        == self.jv()->Arr_0[k] by {
                        assert(res.jv()->Arr_0[k] == out@[k].jv());
                        assert(self.jv()->Arr_0[k] == v@[k].jv());
                    }
                    assert(res.jv()->Arr_0 =~= self.jv()->Arr_0);
                }
                res
            },
            Json::Obj(v) => {
                let mut out: Vec<(String, Json)> = Vec::new();
                let n = v.len();
                let mut i: usize = 0;
                while i < n
                    invariant
                        0 <= i <= n,
                        n == v@.len(),
                        out@.len() == i,
                        forall|k: int| 0 <= k < i ==> (#[trigger] out@[k]).0@ == v@[k].0@
                            && out@[k].1.jv() == v@[k].1.jv(),
                    decreases n - i,
                {
                    let pair = &v[i];
                    out.push((pair.0.clone(), pair.1.clone()));
                    i = i + 1;
                }
                let res = Json::Obj(out);
                proof {
                    assert(res.jv()->Obj_0 =~= self.jv()->Obj_0);
                }
                res
            },
        }
    }
}

/// The value bound to `key` among `fields`, first binding wins.
pub open spec fn spec_obj_get(fields: Seq<(String, Json)>, key: Seq<char>) -> Option<Json>
    decreases fields.len(),
{
    if fields.len() == 0 {
        Option::None
    } else if fields[0].0@ == key {
        Option::Some(fields[0].1)
    } else {
        spec_obj_get(fields.drop_first(), key)
    }
}

proof fn lemma_obj_get_skip(fields: Seq<(String, Json)>, key: Seq<char>, i: int)
    requires
        0 <= i <= fields.len(),
        forall|k: int| 0 <= k < i ==> (#[trigger] fields[k]).0@ != key,
    ensures
        spec_obj_get(fields, key) == spec_obj_get(fields.subrange(i, fields.len() as int), key),
    decreases i,
{
    if i > 0 {
        lemma_obj_get_skip(fields, key, i - 1);
        let rest = fields.subrange(i - 1, fields.len() as int);
        assert(rest[0] == fields[i - 1]);
        assert(rest.drop_first() =~= fields.subrange(i, fields.len() as int));
    } else {
        assert(fields.subrange(0, fields.len() as int) =~= fields);
    }
}

/// Looks `key` up among object fields.
pub fn obj_get<'a>(fields: &'a Vec<(String, Json)>, key: &str) -> (r: Option<&'a Json>)
    ensures
        match r {
            Option::Some(j) => spec_obj_get(fields@, key@) == Option::Some(*j),
            Option::None => spec_obj_get(fields@, key@) is None,
        },
{
    let n = fields.len();
    let mut i: usize = 0;
    while i < n
        invariant
            0 <= i <= n,
            n == fields@.len(),
            forall|k: int| 0 <= k < i ==> (#[trigger] fields@[k]).0@ != key@,
        decreases n - i,
    {
        let pair = &fields[i];
        if str_eq(pair.0.as_str(), key) {
            proof {
                lemma_obj_get_skip(fields@, key@, i as int);
                let rest = fields@.subrange(i as int, fields@.len() as int);
                assert(rest[0] == fields@[i as int]);
            }
            return Option::Some(&fields[i].1);
        }
        i = i + 1;
    }
    proof {
        lemma_obj_get_skip(fields@, key@, n as int);
    }
    Option::None
}

/// Whether `key` is bound among `fields`.
pub fn obj_has_key(fields: &Vec<(String, Json)>, key: &String) -> (r: bool)
    ensures
        r == (spec_obj_get(fields@, key@) is Some),
{
    match obj_get(fields, key.as_str()) {
        Option::Some(_) => true,
        Option::None => false,
    }
}

} // verus!
