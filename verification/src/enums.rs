//! The enumeration checker.
//!
//! A value passes when it equals at least one allowed member under a
//! cross-type equality: numbers compare exactly across integer and decimal
//! forms, a string spelling a number equals that number, a string spelling
//! `true` or `false` in any case equals that boolean, and a number equals
//! the string spelling it.

use vstd::prelude::*;
use crate::errors::{res_ev, ErrV, ValidationError};
use crate::json::{Json, JsonV};
use crate::num::{dec_eq, dec_of_int, spec_dec_eq, spec_dec_of_int};
use crate::text::{
    bool_literal_val, dec_lit_fits, dec_lit_val, is_bool_literal, parse_bool_ci, parse_dec,
    render_dec, render_i64, spec_dec_str, spec_i64_str, str_eq,
};

verus! {

broadcast use vstd::std_specs::vec::group_vec_axioms, vstd::seq::group_seq_axioms;

/// Cross-type equality of a request value against one enumeration member.
pub open spec fn spec_values_equal(a: Json, b: Json) -> bool {
    match (a, b) {
        (Json::Str(s1), Json::Str(s2)) => s1@ == s2@,
        (Json::Int(x), Json::Int(y)) => x == y,
        (Json::Int(x), Json::Num(d)) => spec_dec_eq(spec_dec_of_int(x), d),
        (Json::Num(d), Json::Int(y)) => spec_dec_eq(d, spec_dec_of_int(y)),
        (Json::Num(d1), Json::Num(d2)) => spec_dec_eq(d1, d2),
        (Json::Bool(b1), Json::Bool(b2)) => b1 == b2,
        (Json::Null, Json::Null) => true,
        (Json::Str(s), Json::Int(y)) => dec_lit_fits(s@) && spec_dec_eq(
            dec_lit_val(s@),
            spec_dec_of_int(y),
        ),
        (Json::Str(s), Json::Num(d)) => dec_lit_fits(s@) && spec_dec_eq(dec_lit_val(s@), d),
        (Json::Str(s), Json::Bool(b)) => is_bool_literal(s@) && bool_literal_val(s@) == b,
        (Json::Int(x), Json::Str(s)) => s@ == spec_i64_str(x as int),
        (Json::Num(d), Json::Str(s)) => s@ == spec_dec_str(d),
        (Json::Bool(b), Json::Str(s)) => is_bool_literal(s@) && bool_literal_val(s@) == b,
        _ => false,
    }
}

/// Decides cross-type equality of two values.
pub fn values_equal(a: &Json, b: &Json) -> (r: bool)
    requires
        a.wf(),
        b.wf(),
    ensures
        r == spec_values_equal(*a, *b),
{
    match (a, b) {
        (Json::Str(s1), Json::Str(s2)) => str_eq(s1.as_str(), s2.as_str()),
        (Json::Int(x), Json::Int(y)) => *x == *y,
        (Json::Int(x), Json::Num(d)) => dec_eq(&dec_of_int(*x), d),
        (Json::Num(d), Json::Int(y)) => dec_eq(d, &dec_of_int(*y)),
        (Json::Num(d1), Json::Num(d2)) => dec_eq(d1, d2),
        (Json::Bool(b1), Json::Bool(b2)) => *b1 == *b2,
        (Json::Null, Json::Null) => true,
        (Json::Str(s), Json::Int(y)) => match parse_dec(s.as_str()) {
            Option::Some(d) => dec_eq(&d, &dec_of_int(*y)),
            Option::None => false,
        },
        (Json::Str(s), Json::Num(d)) => match parse_dec(s.as_str()) {
            Option::Some(p) => dec_eq(&p, d),
            Option::None => false,
        },
        (Json::Str(s), Json::Bool(b)) => match parse_bool_ci(s.as_str()) {
            Option::Some(v) => v == *b,
            Option::None => false,
        },
        (Json::Int(x), Json::Str(s)) => str_eq(s.as_str(), render_i64(*x).as_str()),
        (Json::Num(d), Json::Str(s)) => str_eq(s.as_str(), render_dec(d).as_str()),
        (Json::Bool(b), Json::Str(s)) => match parse_bool_ci(s.as_str()) {
            Option::Some(v) => v == *b,
            Option::None => false,
        },
        _ => false,
    }
}

/// What the enumeration checker decides: the value must equal at least
/// one allowed member under cross-type equality; otherwise the error
/// carries the value and the full allowed list.
pub open spec fn spec_check_enum(name: Seq<char>, v: Json, allowed: Seq<Json>) -> Result<
    (),
    ErrV,
> {
    if exists|i: int| 0 <= i < allowed.len() && spec_values_equal(v, #[trigger] allowed[i]) {
        Result::Ok(())
    } else {
        Result::Err(
            ErrV::EnumViolation {
                name,
                value: v.jv(),
                allowed: Seq::new(
                    allowed.len(),
                    |i: int|
                        if 0 <= i < allowed.len() {
                            allowed[i].jv()
                        } else {
                            JsonV::Null
                        },
                ),
            },
        )
    }
}

/// Checks a value against an enumeration; `Ok` exactly when
/// [`spec_check_enum`] passes it.
pub fn check_enum(name: &String, v: &Json, allowed: &Vec<Json>) -> (r: Result<
    (),
    ValidationError,
>)
    requires
        v.wf(),
        forall|i: int| 0 <= i < allowed@.len() ==> (#[trigger] allowed@[i]).wf(),
    ensures
        res_ev(r) == spec_check_enum(name@, *v, allowed@),
{
    let n = allowed.len();
    let mut i: usize = 0;
    while i < n
        invariant
            0 <= i <= n,
            n == allowed@.len(),
            forall|k: int| 0 <= k < i ==> !spec_values_equal(*v, #[trigger] allowed@[k]),
        decreases n - i,
    {
        if values_equal(v, &allowed[i]) {
            proof {
                assert(spec_values_equal(*v, allowed@[i as int]));
            }
            return Result::Ok(());
        }
        i = i + 1;
    }
    let mut copy: Vec<Json> = Vec::new();
    let mut k: usize = 0;
    while k < n
        invariant
            0 <= k <= n,
            n == allowed@.len(),
            copy@.len() == k,
            forall|j: int| 0 <= j < k ==> copy@[j].jv() == (#[trigger] allowed@[j]).jv(),
        decreases n - k,
    {
        copy.push(allowed[k].clone());
        k = k + 1;
    }
    let e = ValidationError::EnumViolation { name: name.clone(), value: v.clone(), allowed: copy };
    proof {
        let sr = spec_check_enum(name@, *v, allowed@);
        if let Result::Err(se) = sr {
            if let ErrV::EnumViolation { name: sn, value: sv, allowed: sa } = se {
                if let ErrV::EnumViolation { name: en, value: ev2, allowed: ea } = e.ev() {
                    assert forall|j: int| 0 <= j < sa.len() implies ea[j] == sa[j] by {
                        assert(copy@[j].jv() == allowed@[j].jv());
                    }
                    assert(ea =~= sa);
                    assert(e.ev() =~~= se);
                }
            }
        }
    }
    Result::Err(e)
}

} // verus!
