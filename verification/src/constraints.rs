//! The constraint checker.
//!
//! Size and range bounds: string length in characters against
//! `minLength`/`maxLength`, numbers against `minimum`/`maximum`
//! (inclusive), array element counts against `minItems`/`maxItems`. The
//! property-schema checks also demand the value's shape before bounding
//! it; the parameter-schema checks skip values of the wrong shape.

use vstd::prelude::*;
use vstd::string::StrSliceExecFns;
use crate::errors::{res_ev, ErrV, ValidationError};
use crate::json::Json;
use crate::model::{Properties, Schema, Type, TypeOrUnion};
use crate::num::{dec_le, dec_of_int, spec_dec_le, spec_dec_of_int, Dec};

verus! {

broadcast use vstd::std_specs::vec::group_vec_axioms, vstd::seq::group_seq_axioms;

/// What the string-length check decides: the character count must reach
/// `minLength` and not exceed `maxLength`.
pub open spec fn spec_check_string_len(
    name: Seq<char>,
    len: usize,
    min: Option<u64>,
    max: Option<u64>,
) -> Result<(), ErrV> {
    if min matches Option::Some(m) && (len as int) < m {
        Result::Err(ErrV::StringTooShort { name, min: min->0, len })
    } else if max matches Option::Some(m) && (len as int) > m {
        Result::Err(ErrV::StringTooLong { name, max: max->0, len })
    } else {
        Result::Ok(())
    }
}

/// Checks a string's character count against declared bounds.
pub fn check_string_len(name: &String, s: &String, min: Option<u64>, max: Option<u64>) -> (r:
    Result<(), ValidationError>)
    ensures
        res_ev(r) == spec_check_string_len(name@, s@.len() as usize, min, max),
{
    let len = s.as_str().unicode_len();
    if let Option::Some(m) = min {
        if (len as u64) < m {
            return Result::Err(ValidationError::StringTooShort { name: name.clone(), min: m, len });
        }
    }
    if let Option::Some(m) = max {
        if (len as u64) > m {
            return Result::Err(ValidationError::StringTooLong { name: name.clone(), max: m, len });
        }
    }
    Result::Ok(())
}

/// What the array-length check decides: the element count must reach
/// `minItems` and not exceed `maxItems`.
pub open spec fn spec_check_array_len(
    name: Seq<char>,
    len: usize,
    min: Option<u64>,
    max: Option<u64>,
) -> Result<(), ErrV> {
    if min matches Option::Some(m) && (len as int) < m {
        Result::Err(ErrV::TooFewItems { name, min: min->0, len })
    } else if max matches Option::Some(m) && (len as int) > m {
        Result::Err(ErrV::TooManyItems { name, max: max->0, len })
    } else {
        Result::Ok(())
    }
}

/// Checks an array's element count against declared bounds.
pub fn check_array_len(name: &String, len: usize, min: Option<u64>, max: Option<u64>) -> (r:
    Result<(), ValidationError>)
    ensures
        res_ev(r) == spec_check_array_len(name@, len, min, max),
{
    if let Option::Some(m) = min {
        if (len as u64) < m {
            return Result::Err(ValidationError::TooFewItems { name: name.clone(), min: m, len });
        }
    }
    if let Option::Some(m) = max {
        if (len as u64) > m {
            return Result::Err(ValidationError::TooManyItems { name: name.clone(), max: m, len });
        }
    }
    Result::Ok(())
}

/// What the numeric-range check decides: the value must lie between
/// `minimum` and `maximum`, both inclusive.
pub open spec fn spec_check_range(
    name: Seq<char>,
    value: Dec,
    min: Option<Dec>,
    max: Option<Dec>,
) -> Result<(), ErrV> {
    if min matches Option::Some(m) && !spec_dec_le(m, value) {
        Result::Err(ErrV::NumberTooSmall { name, min: min->0, value })
    } else if max matches Option::Some(m) && !spec_dec_le(value, m) {
        Result::Err(ErrV::NumberTooLarge { name, max: max->0, value })
    } else {
        Result::Ok(())
    }
}

/// Checks a number against declared inclusive bounds.
pub fn check_range(name: &String, value: &Dec, min: Option<&Dec>, max: Option<&Dec>) -> (r:
    Result<(), ValidationError>)
    requires
        value.wf(),
        min matches Option::Some(m) ==> m.wf(),
        max matches Option::Some(m) ==> m.wf(),
    ensures
        res_ev(r) == spec_check_range(
            name@,
            *value,
            match min {
                Option::Some(m) => Option::Some(*m),
                Option::None => Option::<Dec>::None,
            },
            match max {
                Option::Some(m) => Option::Some(*m),
                Option::None => Option::<Dec>::None,
            },
        ),
{
    if let Option::Some(m) = min {
        if !dec_le(m, value) {
            return Result::Err(
                ValidationError::NumberTooSmall { name: name.clone(), min: *m, value: *value },
            );
        }
    }
    if let Option::Some(m) = max {
        if !dec_le(value, m) {
            return Result::Err(
                ValidationError::NumberTooLarge { name: name.clone(), max: *m, value: *value },
            );
        }
    }
    Result::Ok(())
}

/// What the property constraint check decides for one type tag: string
/// forms must be strings within the length bounds, numeric tags must be
/// numbers within range, arrays within the item bounds, and the remaining
/// tags only demand their shape.
pub open spec fn spec_single_constraint(name: Seq<char>, v: Json, t: Type, p: Properties) -> Result<
    (),
    ErrV,
> {
    match t {
        Type::String | Type::Base64 | Type::Binary => match v {
            Json::Str(s) => spec_check_string_len(
                name,
                s@.len() as usize,
                p.min_length,
                p.max_length,
            ),
            _ => Result::Err(ErrV::TypeMismatch { name, expected: t }),
        },
        Type::Integer => match v {
            Json::Int(x) => spec_check_range(name, spec_dec_of_int(x), p.minimum, p.maximum),
            _ => Result::Err(ErrV::TypeMismatch { name, expected: t }),
        },
        Type::Number => match v {
            Json::Int(x) => spec_check_range(name, spec_dec_of_int(x), p.minimum, p.maximum),
            Json::Num(d) => spec_check_range(name, d, p.minimum, p.maximum),
            _ => Result::Err(ErrV::TypeMismatch { name, expected: t }),
        },
        Type::Array => match v {
            Json::Arr(items) => spec_check_array_len(
                name,
                items@.len() as usize,
                p.min_items,
                p.max_items,
            ),
            _ => Result::Err(ErrV::TypeMismatch { name, expected: t }),
        },
        Type::Boolean => {
            if v is Bool {
                Result::Ok(())
            } else {
                Result::Err(ErrV::TypeMismatch { name, expected: t })
            }
        },
        Type::Null => {
            if v is Null {
                Result::Ok(())
            } else {
                Result::Err(ErrV::TypeMismatch { name, expected: t })
            }
        },
        Type::Object => {
            if v is Obj {
                Result::Ok(())
            } else {
                Result::Err(ErrV::TypeMismatch { name, expected: t })
            }
        },
    }
}

/// Checks a value's shape and bounds for one type tag; `Ok` exactly when
/// [`spec_single_constraint`] passes it.
pub fn check_single_constraint(name: &String, v: &Json, t: Type, p: &Properties) -> (r: Result<
    (),
    ValidationError,
>)
    requires
        v.wf(),
        p.wf(),
    ensures
        res_ev(r) == spec_single_constraint(name@, *v, t, *p),
{
    match t {
        Type::String | Type::Base64 | Type::Binary => match v {
            Json::Str(s) => check_string_len(name, s, p.min_length, p.max_length),
            _ => Result::Err(ValidationError::TypeMismatch { name: name.clone(), expected: t }),
        },
        Type::Integer => match v {
            Json::Int(x) => check_range(
                name,
                &dec_of_int(*x),
                p.minimum.as_ref(),
                p.maximum.as_ref(),
            ),
            _ => Result::Err(ValidationError::TypeMismatch { name: name.clone(), expected: t }),
        },
        Type::Number => match v {
            Json::Int(x) => check_range(
                name,
                &dec_of_int(*x),
                p.minimum.as_ref(),
                p.maximum.as_ref(),
            ),
            Json::Num(d) => check_range(name, d, p.minimum.as_ref(), p.maximum.as_ref()),
            _ => Result::Err(ValidationError::TypeMismatch { name: name.clone(), expected: t }),
        },
        Type::Array => match v {
            Json::Arr(items) => check_array_len(name, items.len(), p.min_items, p.max_items),
            _ => Result::Err(ValidationError::TypeMismatch { name: name.clone(), expected: t }),
        },
        Type::Boolean => match v {
            Json::Bool(_) => Result::Ok(()),
            _ => Result::Err(ValidationError::TypeMismatch { name: name.clone(), expected: t }),
        },
        Type::Null => match v {
            Json::Null => Result::Ok(()),
            _ => Result::Err(ValidationError::TypeMismatch { name: name.clone(), expected: t }),
        },
        Type::Object => match v {
            Json::Obj(_) => Result::Ok(()),
            _ => Result::Err(ValidationError::TypeMismatch { name: name.clone(), expected: t }),
        },
    }
}

/// What the property constraint check decides for a declared type: a
/// single tag is checked directly, a union passes when at least one
/// member tag's check passes, no declaration always passes.
pub open spec fn spec_field_limits(name: Seq<char>, v: Json, p: Properties) -> Result<(), ErrV> {
    match p.schema_type {
        Option::None => Result::Ok(()),
        Option::Some(TypeOrUnion::Single(t)) => spec_single_constraint(name, v, t, p),
        Option::Some(TypeOrUnion::Union(ts)) => {
            if exists|i: int|
                0 <= i < ts@.len() && spec_single_constraint(
                    name,
                    v,
                    #[trigger] ts@[i],
                    p,
                ) is Ok {
                Result::Ok(())
            } else {
                Result::Err(ErrV::UnionMismatch { name, expected: ts@ })
            }
        },
    }
}

/// Checks a value's shape and bounds against a property schema's declared
/// type; `Ok` exactly when [`spec_field_limits`] passes it.
pub fn check_field_limits(name: &String, v: &Json, p: &Properties) -> (r: Result<
    (),
    ValidationError,
>)
    requires
        v.wf(),
        p.wf(),
    ensures
        res_ev(r) == spec_field_limits(name@, *v, *p),
{
    match &p.schema_type {
        Option::None => Result::Ok(()),
        Option::Some(TypeOrUnion::Single(t)) => check_single_constraint(name, v, *t, p),
        Option::Some(TypeOrUnion::Union(ts)) => {
            let n = ts.len();
            let mut i: usize = 0;
            while i < n
                invariant
                    0 <= i <= n,
                    n == ts@.len(),
                    forall|k: int|
                        0 <= k < i ==> !(spec_single_constraint(
                            name@,
                            *v,
                            #[trigger] ts@[k],
                            *p,
                        ) is Ok),
                decreases n - i,
            {
                if check_single_constraint(name, v, ts[i], p).is_ok() {
                    proof {
                        assert(spec_single_constraint(name@, *v, ts@[i as int], *p) is Ok);
                    }
                    return Result::Ok(());
                }
                i = i + 1;
            }
            let mut copy: Vec<Type> = Vec::new();
            let mut k: usize = 0;
            while k < n
                invariant
                    0 <= k <= n,
                    n == ts@.len(),
                    copy@.len() == k,
                    forall|j: int| 0 <= j < k ==> copy@[j] == ts@[j],
                decreases n - k,
            {
                copy.push(ts[k]);
                k = k + 1;
            }
            proof {
                assert(copy@ =~= ts@);
            }
            Result::Err(ValidationError::UnionMismatch { name: name.clone(), expected: copy })
        },
    }
}

/// What the parameter-schema string constraint decides: only strings are
/// bounded, any other value passes untouched.
pub open spec fn spec_schema_string_constraints(name: Seq<char>, v: Json, s: Schema) -> Result<
    (),
    ErrV,
> {
    match v {
        Json::Str(t) => spec_check_string_len(name, t@.len() as usize, s.min_length, s.max_length),
        _ => Result::Ok(()),
    }
}

/// Checks a wire value's length against a parameter schema.
pub fn check_schema_string_constraints(name: &String, v: &Json, s: &Schema) -> (r: Result<
    (),
    ValidationError,
>)
    ensures
        res_ev(r) == spec_schema_string_constraints(name@, *v, *s),
{
    match v {
        Json::Str(t) => check_string_len(name, t, s.min_length, s.max_length),
        _ => Result::Ok(()),
    }
}

/// What the parameter-schema numeric constraint decides: only numbers are
/// bounded, any other value (a wire string included) passes untouched.
pub open spec fn spec_schema_numeric_constraints(name: Seq<char>, v: Json, s: Schema) -> Result<
    (),
    ErrV,
> {
    match v {
        Json::Int(x) => spec_check_range(name, spec_dec_of_int(x), s.minimum, s.maximum),
        Json::Num(d) => spec_check_range(name, d, s.minimum, s.maximum),
        _ => Result::Ok(()),
    }
}

/// Checks a numeric value's range against a parameter schema.
pub fn check_schema_numeric_constraints(name: &String, v: &Json, s: &Schema) -> (r: Result<
    (),
    ValidationError,
>)
    requires
        v.wf(),
        s.wf(),
    ensures
        res_ev(r) == spec_schema_numeric_constraints(name@, *v, *s),
{
    match v {
        Json::Int(x) => check_range(name, &dec_of_int(*x), s.minimum.as_ref(), s.maximum.as_ref()),
        Json::Num(d) => check_range(name, d, s.minimum.as_ref(), s.maximum.as_ref()),
        _ => Result::Ok(()),
    }
}

} // verus!
