//! The type checker.
//!
//! A declared type is a single tag or a union of tags. Wire values from
//! the query string or path always arrive as strings, so the integer,
//! number and boolean tags also accept strings that spell such a value;
//! the stricter per-tag match used inside unions does not coerce.

use vstd::prelude::*;
use crate::errors::{res_ev, ErrV, ValidationError};
use crate::json::Json;
use crate::model::{Type, TypeOrUnion};
use crate::text::{
    is_blank, is_bool_literal, is_float_literal, is_float_syntax, is_int_literal, int_literal_val,
    parse_bool_ci, parse_i64, spec_blank,
};
use crate::trusted::{base64_ok, is_base64};

verus! {

broadcast use vstd::std_specs::vec::group_vec_axioms, vstd::seq::group_seq_axioms;

/// The strict match of a value against one type tag, used for union
/// members: no string coercion except for `base64`, which is inherently a
/// string form.
pub open spec fn spec_type_match(v: Json, t: Type) -> bool {
    match t {
        Type::Object => v is Obj,
        Type::String => v is Str,
        Type::Binary => v is Str,
        Type::Integer => v is Int,
        Type::Number => v is Int || v is Num,
        Type::Array => v is Arr,
        Type::Boolean => v is Bool,
        Type::Null => v is Null,
        Type::Base64 => match v {
            Json::Str(s) => !spec_blank(s@) && base64_ok(s@),
            _ => false,
        },
    }
}

/// Whether a single-tag declaration accepts the value, with the wire
/// coercions: a string spelling a 64-bit integer passes `integer`, one
/// spelling a float passes `number`, `true`/`false` in any case passes
/// `boolean`.
pub open spec fn spec_single_accepts(v: Json, t: Type) -> bool {
    match t {
        Type::Integer => v is Int || (match v {
            Json::Str(s) => is_int_literal(s@) && i64::MIN <= int_literal_val(s@) <= i64::MAX,
            _ => false,
        }),
        Type::Number => v is Int || v is Num || (match v {
            Json::Str(s) => is_float_literal(s@),
            _ => false,
        }),
        Type::Boolean => v is Bool || (match v {
            Json::Str(s) => is_bool_literal(s@),
            _ => false,
        }),
        _ => spec_type_match(v, t),
    }
}

/// What the type checker decides: no declaration always passes, a single
/// tag applies the coercing match, a union passes when at least one member
/// tag strictly matches.
pub open spec fn spec_check_type(name: Seq<char>, v: Json, t: Option<TypeOrUnion>) -> Result<
    (),
    ErrV,
> {
    match t {
        Option::None => Result::Ok(()),
        Option::Some(TypeOrUnion::Single(tag)) => {
            if spec_single_accepts(v, tag) {
                Result::Ok(())
            } else {
                Result::Err(ErrV::TypeMismatch { name, expected: tag })
            }
        },
        Option::Some(TypeOrUnion::Union(tags)) => {
            if exists|i: int| 0 <= i < tags@.len() && spec_type_match(v, #[trigger] tags@[i]) {
                Result::Ok(())
            } else {
                Result::Err(ErrV::UnionMismatch { name, expected: tags@ })
            }
        },
    }
}

/// The strict match of a value against one type tag.
pub fn type_match(v: &Json, t: Type) -> (r: bool)
    ensures
        r == spec_type_match(*v, t),
{
    match t {
        Type::Object => matches!(v, Json::Obj(_)),
        Type::String => matches!(v, Json::Str(_)),
        Type::Binary => matches!(v, Json::Str(_)),
        Type::Integer => matches!(v, Json::Int(_)),
        Type::Number => matches!(v, Json::Int(_)) || matches!(v, Json::Num(_)),
        Type::Array => matches!(v, Json::Arr(_)),
        Type::Boolean => matches!(v, Json::Bool(_)),
        Type::Null => matches!(v, Json::Null),
        Type::Base64 => match v {
            Json::Str(s) => !is_blank(s.as_str()) && is_base64(s.as_str()),
            _ => false,
        },
    }
}

/// Checks a value against a declared type; `Ok` exactly when
/// [`spec_check_type`] passes it.
pub fn check_type(name: &String, v: &Json, t: Option<&TypeOrUnion>) -> (r: Result<
    (),
    ValidationError,
>)
    ensures
        res_ev(r) == spec_check_type(
            name@,
            *v,
            match t {
                Option::Some(tu) => Option::Some(*tu),
                Option::None => Option::<TypeOrUnion>::None,
            },
        ),
{
    let tu: &TypeOrUnion = match t {
        Option::None => {
            return Result::Ok(());
        },
        Option::Some(tu) => tu,
    };
    match tu {
        TypeOrUnion::Single(tag) => {
            let pass: bool = match tag {
                Type::Integer => match v {
                    Json::Int(_) => true,
                    Json::Str(s) => parse_i64(s.as_str()).is_some(),
                    _ => false,
                },
                Type::Number => match v {
                    Json::Int(_) => true,
                    Json::Num(_) => true,
                    Json::Str(s) => is_float_syntax(s.as_str()),
                    _ => false,
                },
                Type::Boolean => match v {
                    Json::Bool(_) => true,
                    Json::Str(s) => parse_bool_ci(s.as_str()).is_some(),
                    _ => false,
                },
                _ => type_match(v, *tag),
            };
            if pass {
                Result::Ok(())
            } else {
                Result::Err(ValidationError::TypeMismatch { name: name.clone(), expected: *tag })
            }
        },
        TypeOrUnion::Union(tags) => {
            let n = tags.len();
            let mut i: usize = 0;
            while i < n
                invariant
                    0 <= i <= n,
                    n == tags@.len(),
                    forall|k: int| 0 <= k < i ==> !spec_type_match(*v, #[trigger] tags@[k]),
                decreases n - i,
            {
                if type_match(v, tags[i]) {
                    proof {
                        assert(spec_type_match(*v, tags@[i as int]));
                    }
                    return Result::Ok(());
                }
                i = i + 1;
            }
            let mut copy: Vec<Type> = Vec::new();
            let mut k: usize = 0;
            while k < n
                invariant
                    0 <= k <= n,
                    n == tags@.len(),
                    copy@.len() == k,
                    forall|j: int| 0 <= j < k ==> copy@[j] == tags@[j],
                decreases n - k,
            {
                copy.push(tags[k]);
                k = k + 1;
            }
            proof {
                assert(copy@ =~= tags@);
            }
            Result::Err(ValidationError::UnionMismatch { name: name.clone(), expected: copy })
        },
    }
}

/// What the body-shape check decides: the resolved top-level type, when
/// declared, must name (or include) the shape the body actually has.
pub open spec fn spec_ensure_type(actual: Option<TypeOrUnion>, expected: Type) -> Result<
    (),
    ErrV,
> {
    match actual {
        Option::None => Result::Ok(()),
        Option::Some(TypeOrUnion::Single(t)) => {
            if t == expected {
                Result::Ok(())
            } else {
                Result::Err(ErrV::BodyShapeMismatch { expected })
            }
        },
        Option::Some(TypeOrUnion::Union(ts)) => {
            if ts@.contains(expected) {
                Result::Ok(())
            } else {
                Result::Err(ErrV::BodyShapeMismatch { expected })
            }
        },
    }
}

/// Checks the declared top-level type against the body's actual shape;
/// `Ok` exactly when [`spec_ensure_type`] passes it.
pub fn ensure_type(actual: Option<&TypeOrUnion>, expected: Type) -> (r: Result<
    (),
    ValidationError,
>)
    ensures
        res_ev(r) == spec_ensure_type(
            match actual {
                Option::Some(tu) => Option::Some(*tu),
                Option::None => Option::<TypeOrUnion>::None,
            },
            expected,
        ),
{
    match actual {
        Option::None => Result::Ok(()),
        Option::Some(TypeOrUnion::Single(t)) => {
            if *t == expected {
                Result::Ok(())
            } else {
                Result::Err(ValidationError::BodyShapeMismatch { expected })
            }
        },
        Option::Some(TypeOrUnion::Union(ts)) => {
            let n = ts.len();
            let mut i: usize = 0;
            while i < n
                invariant
                    0 <= i <= n,
                    n == ts@.len(),
                    forall|k: int| 0 <= k < i ==> ts@[k] != expected,
                decreases n - i,
            {
                if ts[i] == expected {
                    proof {
                        assert(ts@.contains(expected)) by {
                            assert(ts@[i as int] == expected);
                        }
                    }
                    return Result::Ok(());
                }
                i = i + 1;
            }
            Result::Err(ValidationError::BodyShapeMismatch { expected })
        },
    }
}

} // verus!
