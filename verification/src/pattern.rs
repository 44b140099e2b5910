//! The pattern checker.
//!
//! A declared pattern is compiled as a regular expression and must match
//! somewhere in the string — the match is not anchored. Non-string values
//! are never subject to pattern checks and always pass, even when a
//! pattern is declared. A pattern that does not compile is a fault of the
//! specification itself and is reported naming the pattern.

use vstd::prelude::*;
use crate::errors::{res_ev, ErrV, ValidationError};
use crate::json::Json;
use crate::trusted::{regex_compiles, regex_is_match, regex_match};

verus! {

/// What the pattern checker decides: nothing declared or a non-string
/// value passes; otherwise the pattern must compile and match somewhere
/// in the string.
pub open spec fn spec_check_pattern(name: Seq<char>, v: Json, pattern: Option<String>) -> Result<
    (),
    ErrV,
> {
    match pattern {
        Option::None => Result::Ok(()),
        Option::Some(p) => match v {
            Json::Str(s) => {
                if !regex_compiles(p@) {
                    Result::Err(ErrV::PatternCompileError { name, pattern: p@ })
                } else if regex_is_match(p@, s@) {
                    Result::Ok(())
                } else {
                    Result::Err(ErrV::PatternViolation { name, value: s@, pattern: p@ })
                }
            },
            _ => Result::Ok(()),
        },
    }
}

/// Checks a value against a declared pattern; `Ok` exactly when
/// [`spec_check_pattern`] passes it.
pub fn check_pattern(name: &String, v: &Json, pattern: Option<&String>) -> (r: Result<
    (),
    ValidationError,
>)
    ensures
        res_ev(r) == spec_check_pattern(
            name@,
            *v,
            match pattern {
                Option::Some(p) => Option::Some(*p),
                Option::None => Option::<String>::None,
            },
        ),
{
    let p: &String = match pattern {
        Option::None => {
            return Result::Ok(());
        },
        Option::Some(p) => p,
    };
    let s: &String = match v {
        Json::Str(s) => s,
        _ => {
            return Result::Ok(());
        },
    };
    match regex_match(p.as_str(), s.as_str()) {
        Result::Err(_) => Result::Err(
            ValidationError::PatternCompileError { name: name.clone(), pattern: p.clone() },
        ),
        Result::Ok(true) => Result::Ok(()),
        Result::Ok(false) => Result::Err(
            ValidationError::PatternViolation {
                name: name.clone(),
                value: s.clone(),
                pattern: p.clone(),
            },
        ),
    }
}

} // verus!
