//! Laws of the pipeline.
//!
//! Each proof here states a guarantee of the validator as a whole, over
//! the same specification functions that the executable functions'
//! contracts are written against.

use vstd::prelude::*;
use crate::errors::{ErrV, Phase};
use crate::json::Json;
use crate::model::{spec_assoc_get, OpenAPI, RequestFacts};
use crate::pattern::spec_check_pattern;
use crate::trusted::regex_compiles;
use crate::validator::{
    spec_doc_fault, spec_method_declared, spec_method_phase, spec_validator,
};
use crate::text::eq_ci;

verus! {

/// A document missing its version, title, info version or paths is
/// rejected with a specification error, whatever the request holds: no
/// request-specific check runs first.
pub proof fn lemma_incomplete_document_rejected(doc: OpenAPI, facts: RequestFacts)
    requires
        spec_doc_fault(doc) is Some,
    ensures
        spec_validator(doc, facts) == Result::<(), (Phase, ErrV)>::Err(
            (Phase::Document, ErrV::SpecError(spec_doc_fault(doc)->0)),
        ),
{
}

/// A request whose path template is not declared fails in the method
/// phase with a path-not-found error, regardless of its method, query
/// pairs or body.
pub proof fn lemma_unknown_path_rejected(doc: OpenAPI, facts: RequestFacts)
    requires
        spec_doc_fault(doc) is None,
        spec_assoc_get(doc.paths@, facts.path_template@) is None,
    ensures
        spec_validator(doc, facts) == Result::<(), (Phase, ErrV)>::Err(
            (Phase::Method, ErrV::PathNotFound),
        ),
{
}

/// A request whose method is not declared on an existing path — and is
/// not the dedicated `QUERY` operation — fails in the method phase with a
/// method-not-allowed error, regardless of its query pairs or body.
pub proof fn lemma_unknown_method_rejected(doc: OpenAPI, facts: RequestFacts)
    requires
        spec_doc_fault(doc) is None,
        spec_assoc_get(doc.paths@, facts.path_template@) matches Option::Some(pi)
            && !spec_method_declared(pi.operations@, facts.method@) && !(pi.query is Some && eq_ci(
            facts.method@,
            seq!['q', 'u', 'e', 'r', 'y'],
        )),
    ensures
        spec_validator(doc, facts) == Result::<(), (Phase, ErrV)>::Err(
            (Phase::Method, ErrV::MethodNotAllowed),
        ),
{
}

/// Validation is a pure function of the document and the request facts:
/// two runs over the same pair decide the same way and report the same
/// failure.
pub proof fn lemma_validation_idempotent(
    doc: OpenAPI,
    facts: RequestFacts,
    r1: Result<(), (Phase, ErrV)>,
    r2: Result<(), (Phase, ErrV)>,
)
    requires
        r1 == spec_validator(doc, facts),
        r2 == spec_validator(doc, facts),
    ensures
        r1 == r2,
{
}

/// The pattern check passes every non-string value untouched, even when
/// a pattern is declared.
pub proof fn lemma_pattern_skips_non_strings(name: Seq<char>, v: Json, pattern: String)
    requires
        !(v is Str),
    ensures
        spec_check_pattern(name, v, Option::Some(pattern)) == Result::<(), ErrV>::Ok(()),
{
}

/// A declared pattern that does not compile as a regular expression is
/// reported as the specification's own fault, naming the pattern.
pub proof fn lemma_bad_pattern_reported(name: Seq<char>, value: String, pattern: String)
    requires
        !regex_compiles(pattern@),
    ensures
        spec_check_pattern(name, Json::Str(value), Option::Some(pattern)) == Result::<
            (),
            ErrV,
        >::Err(ErrV::PatternCompileError { name, pattern: pattern@ }),
{
}

} // verus!
