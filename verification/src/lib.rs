//! Validation of HTTP requests against an OpenAPI 3.0/3.1/3.2 contract.
//!
//! The crate holds a typed model of a parsed OpenAPI document, a resolver for
//! `$ref`/`oneOf`/`allOf` schema references, value-level checkers for types,
//! formats, patterns, enumerations and size/range constraints, and a
//! fail-fast four-phase pipeline (method, path, query, body) that reports the
//! first violation found.

#![verifier::loop_isolation(false)]

pub mod num;
pub mod text;
pub mod json;
pub mod model;
pub mod errors;
pub mod trusted;
pub mod formats;
pub mod typecheck;
pub mod enums;
pub mod constraints;
pub mod pattern;
pub mod resolve;
pub mod validator;
pub mod laws;
pub mod observability;
pub mod request;
pub mod messages;

use vstd::prelude::*;

verus! {

} // verus!
