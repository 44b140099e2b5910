//! The validation pipeline.
//!
//! Four phases run strictly in order — method, path, query, body — each a
//! pure function of the document and the request facts, stopping at the
//! first failure. The method phase resolves the path template and the
//! operation; the path phase checks the final path segment against the
//! declared path parameters; the query phase checks each declared query
//! parameter and the aggregated required names; the body phase checks the
//! parsed JSON body against the resolved content schema.

use vstd::prelude::*;
use vstd::string::{StrSliceExecFns, StringExecFns};
use crate::constraints::{
    check_schema_numeric_constraints, check_schema_string_constraints,
    spec_schema_numeric_constraints, spec_schema_string_constraints,
};
use crate::enums::{check_enum, spec_check_enum};
use crate::errors::{res_ev, DocFault, ErrV, Phase, ValidationError, ValidationFailure, vres_ev};
use crate::formats::{check_format, spec_check_format};
use crate::json::{spec_obj_get, Json};
use crate::model::{
    assoc_get, spec_assoc_get, BaseContent, BodyState, ComponentsObject, In, OpenAPI, Parameter,
    PathBase, PathItem, RequestFacts, Schema, Type, TypeOrUnion, Request,
};
use crate::pattern::{check_pattern, spec_check_pattern};
use crate::resolve::{
    collect_refs, extract_required_and_validate_props, get_schema_info, names_views,
    spec_collect_refs, spec_extract_required, spec_required_fields, spec_schema_info,
    validate_required_fields,
};
use crate::text::{eq_ci, is_blank, spec_blank, str_eq, str_eq_ci};
use crate::typecheck::{check_type, ensure_type, spec_check_type, spec_ensure_type};

verus! {

broadcast use vstd::std_specs::vec::group_vec_axioms, vstd::seq::group_seq_axioms;

/// Whether a method name, compared ASCII case-insensitively, is declared
/// among a path item's operations.
pub open spec fn spec_method_declared(ops: Seq<(String, PathBase)>, m: Seq<char>) -> bool {
    exists|i: int| 0 <= i < ops.len() && eq_ci(m, (#[trigger] ops[i]).0@)
}

/// What the method phase decides: the path template must be declared, and
/// the method must name one of its operations (or the dedicated `QUERY`
/// operation when one is declared).
pub open spec fn spec_method_phase(doc: OpenAPI, template: Seq<char>, m: Seq<char>) -> Result<
    (),
    ErrV,
> {
    match spec_assoc_get(doc.paths@, template) {
        Option::None => Result::Err(ErrV::PathNotFound),
        Option::Some(pi) => {
            if spec_method_declared(pi.operations@, m) || (pi.query is Some && eq_ci(
                m,
                seq!['q', 'u', 'e', 'r', 'y'],
            )) {
                Result::Ok(())
            } else {
                Result::Err(ErrV::MethodNotAllowed)
            }
        },
    }
}

/// Runs the method phase; `Ok` exactly when [`spec_method_phase`] passes.
pub fn method(template: &str, method_name: &str, open_api: &OpenAPI) -> (r: Result<
    (),
    ValidationError,
>)
    ensures
        res_ev(r) == spec_method_phase(*open_api, template@, method_name@),
{
    let pi: &PathItem = match assoc_get(&open_api.paths, template) {
        Option::None => {
            return Result::Err(ValidationError::PathNotFound);
        },
        Option::Some(pi) => pi,
    };
    let n = pi.operations.len();
    let mut i: usize = 0;
    while i < n
        invariant
            0 <= i <= n,
            n == pi.operations@.len(),
            forall|k: int| 0 <= k < i ==> !eq_ci(method_name@, (#[trigger] pi.operations@[k]).0@),
        decreases n - i,
    {
        if str_eq_ci(method_name, pi.operations[i].0.as_str()) {
            proof {
                assert(eq_ci(method_name@, pi.operations@[i as int].0@));
            }
            return Result::Ok(());
        }
        i = i + 1;
    }
    proof {
        reveal_strlit("query");
        assert("query"@ =~= seq!['q', 'u', 'e', 'r', 'y']);
    }
    if pi.query.is_some() && str_eq_ci(method_name, "query") {
        return Result::Ok(());
    }
    Result::Err(ValidationError::MethodNotAllowed)
}

/// What checking the declared path parameters against the final path
/// segment decides, for the parameters from position `i` on: a parameter
/// that carries a reference, lacks a name or location, or sits outside
/// the path is skipped; the rest have the segment checked against their
/// schema's format.
pub open spec fn spec_path_params(params: Seq<Parameter>, seg: Json, i: int) -> Result<(), ErrV>
    decreases params.len() - i,
{
    if i < 0 || i >= params.len() {
        Result::Ok(())
    } else {
        let p = params[i];
        let step: Result<(), ErrV> = if p.ref_path is Some {
            Result::Ok(())
        } else {
            match (p.name, p.location) {
                (Option::Some(name), Option::Some(In::Path)) => match p.schema {
                    Option::Some(schema) => spec_check_format(name@, seg, schema.format),
                    Option::None => Result::Ok(()),
                },
                _ => Result::Ok(()),
            }
        };
        if step is Err {
            step
        } else {
            spec_path_params(params, seg, i + 1)
        }
    }
}

/// What the path phase decides: the path template must be declared; the
/// final path segment is checked against each path-located parameter of
/// the template's `get` operation.
pub open spec fn spec_path_phase(doc: OpenAPI, template: Seq<char>, seg: String) -> Result<
    (),
    ErrV,
> {
    match spec_assoc_get(doc.paths@, template) {
        Option::None => Result::Err(ErrV::PathNotFound),
        Option::Some(pi) => {
            match spec_assoc_get(pi.operations@, seq!['g', 'e', 't']) {
                Option::Some(op) => match op.parameters {
                    Option::Some(ps) => spec_path_params(ps@, Json::Str(seg), 0),
                    Option::None => Result::Ok(()),
                },
                Option::None => Result::Ok(()),
            }
        },
    }
}

/// Runs the path phase on the final path segment; `Ok` exactly when
/// [`spec_path_phase`] passes.
pub fn path(template: &str, uri: &String, open_api: &OpenAPI) -> (r: Result<(), ValidationError>)
    ensures
        res_ev(r) == spec_path_phase(*open_api, template@, *uri),
{
    let pi: &PathItem = match assoc_get(&open_api.paths, template) {
        Option::None => {
            return Result::Err(ValidationError::PathNotFound);
        },
        Option::Some(pi) => pi,
    };
    proof {
        reveal_strlit("get");
        assert("get"@ =~= seq!['g', 'e', 't']);
    }
    let op: &PathBase = match assoc_get(&pi.operations, "get") {
        Option::None => {
            return Result::Ok(());
        },
        Option::Some(op) => op,
    };
    let params: &Vec<Parameter> = match &op.parameters {
        Option::None => {
            return Result::Ok(());
        },
        Option::Some(ps) => ps,
    };
    let seg = Json::Str(uri.clone());
    proof {
        assert(seg == Json::Str(*uri));
    }
    let n = params.len();
    let mut i: usize = 0;
    while i < n
        invariant
            0 <= i <= n,
            n == params@.len(),
            spec_path_params(params@, seg, 0) == spec_path_params(params@, seg, i as int),
        decreases n - i,
    {
        let p = &params[i];
        if p.ref_path.is_none() {
            let has_path_loc = match (&p.name, &p.location) {
                (Option::Some(_), Option::Some(In::Path)) => true,
                _ => false,
            };
            if has_path_loc {
                if let (Option::Some(name), Option::Some(schema)) = (&p.name, &p.schema) {
                    if let Result::Err(e) = check_format(name, &seg, schema.format.as_ref()) {
                        return Result::Err(e);
                    }
                }
            }
        }
        i = i + 1;
    }
    Result::Ok(())
}

/// The parameters declared across every operation of a path item, in
/// declaration order.
pub open spec fn spec_ops_params(ops: Seq<(String, PathBase)>) -> Seq<Parameter>
    decreases ops.len(),
{
    if ops.len() == 0 {
        Seq::empty()
    } else {
        (match ops[0].1.parameters {
            Option::Some(ps) => ps@,
            Option::None => Seq::empty(),
        }) + spec_ops_params(ops.drop_first())
    }
}

proof fn lemma_ops_params_push(ops: Seq<(String, PathBase)>, x: (String, PathBase))
    ensures
        spec_ops_params(ops.push(x)) == spec_ops_params(ops) + (match x.1.parameters {
            Option::Some(ps) => ps@,
            Option::None => Seq::<Parameter>::empty(),
        }),
    decreases ops.len(),
{
    reveal_with_fuel(spec_ops_params, 3);
    if ops.len() == 0 {
        assert(ops.push(x)[0] == x);
        assert(ops.push(x).drop_first() =~= Seq::empty());
        assert(spec_ops_params(ops.push(x)) =~= spec_ops_params(ops) + (match x.1.parameters {
            Option::Some(ps) => ps@,
            Option::None => Seq::<Parameter>::empty(),
        }));
    } else {
        lemma_ops_params_push(ops.drop_first(), x);
        assert(ops.push(x)[0] == ops[0]);
        assert(ops.push(x).drop_first() =~= ops.drop_first().push(x));
        assert(spec_ops_params(ops.push(x)) =~= spec_ops_params(ops) + (match x.1.parameters {
            Option::Some(ps) => ps@,
            Option::None => Seq::<Parameter>::empty(),
        }));
    }
}

/// Every parameter the query phase consults on a path item: those of
/// each operation, then the path-level ones.
pub open spec fn spec_all_params(pi: PathItem) -> Seq<Parameter> {
    spec_ops_params(pi.operations@) + (match pi.parameters {
        Option::Some(ps) => ps@,
        Option::None => Seq::empty(),
    })
}

/// Gathers every parameter the query phase consults.
fn all_params<'a>(pi: &'a PathItem) -> (r: Vec<&'a Parameter>)
    ensures
        r@.len() == spec_all_params(*pi).len(),
        forall|i: int| 0 <= i < r@.len() ==> *(#[trigger] r@[i]) == spec_all_params(*pi)[i],
{
    let mut out: Vec<&'a Parameter> = Vec::new();
    let n = pi.operations.len();
    let mut j: usize = 0;
    while j < n
        invariant
            0 <= j <= n,
            n == pi.operations@.len(),
            out@.len() == spec_ops_params(pi.operations@.subrange(0, j as int)).len(),
            forall|i: int| 0 <= i < out@.len() ==> *(#[trigger] out@[i]) == spec_ops_params(
                pi.operations@.subrange(0, j as int),
            )[i],
        decreases n - j,
    {
        proof {
            lemma_ops_params_push(
                pi.operations@.subrange(0, j as int),
                pi.operations@[j as int],
            );
            assert(pi.operations@.subrange(0, j + 1 as int) =~= pi.operations@.subrange(
                0,
                j as int,
            ).push(pi.operations@[j as int]));
        }
        if let Option::Some(ps) = &pi.operations[j].1.parameters {
            let m = ps.len();
            let mut k: usize = 0;
            while k < m
                invariant
                    0 <= k <= m,
                    m == ps@.len(),
                    out@.len() == spec_ops_params(pi.operations@.subrange(0, j as int)).len() + k,
                    forall|i: int| 0 <= i < out@.len() ==> *(#[trigger] out@[i]) == (
                    spec_ops_params(pi.operations@.subrange(0, j as int)) + ps@.subrange(
                        0,
                        k as int,
                    ))[i],
                decreases m - k,
            {
                out.push(&ps[k]);
                proof {
                    assert(ps@.subrange(0, k + 1 as int) =~= ps@.subrange(0, k as int).push(
                        ps@[k as int],
                    ));
                }
                k = k + 1;
            }
            proof {
                assert(ps@.subrange(0, m as int) =~= ps@);
            }
        }
        j = j + 1;
    }
    proof {
        assert(pi.operations@.subrange(0, n as int) =~= pi.operations@);
    }
    if let Option::Some(ps) = &pi.parameters {
        let m = ps.len();
        let mut k: usize = 0;
        while k < m
            invariant
                0 <= k <= m,
                m == ps@.len(),
                out@.len() == spec_ops_params(pi.operations@).len() + k,
                forall|i: int| 0 <= i < out@.len() ==> *(#[trigger] out@[i]) == (spec_ops_params(
                    pi.operations@,
                ) + ps@.subrange(0, k as int))[i],
            decreases m - k,
        {
            out.push(&ps[k]);
            proof {
                assert(ps@.subrange(0, k + 1 as int) =~= ps@.subrange(0, k as int).push(
                    ps@[k as int],
                ));
            }
            k = k + 1;
        }
        proof {
            assert(ps@.subrange(0, m as int) =~= ps@);
        }
    }
    proof {
        assert(spec_all_params(*pi).len() == out@.len());
    }
    out
}

/// The query pairs as a field map: each value as a JSON string under its
/// key.
pub open spec fn spec_query_fields(pairs: Seq<(String, String)>) -> Seq<(String, Json)> {
    Seq::new(pairs.len(), |i: int| (pairs[i].0, Json::Str(pairs[i].1)))
}

/// Builds the field map of the query pairs.
fn query_fields(pairs: &Vec<(String, String)>) -> (r: Vec<(String, Json)>)
    ensures
        r@ == spec_query_fields(pairs@),
        forall|i: int| 0 <= i < r@.len() ==> (#[trigger] r@[i]).1.wf(),
{
    let n = pairs.len();
    let mut out: Vec<(String, Json)> = Vec::new();
    let mut i: usize = 0;
    while i < n
        invariant
            0 <= i <= n,
            n == pairs@.len(),
            out@.len() == i,
            forall|k: int| 0 <= k < i ==> #[trigger] out@[k] == (
            pairs@[k].0,
            Json::Str(pairs@[k].1),
            ),
        decreases n - i,
    {
        let pair = &pairs[i];
        out.push((pair.0.clone(), Json::Str(pair.1.clone())));
        i = i + 1;
    }
    proof {
        assert(out@ =~= spec_query_fields(pairs@));
        assert forall|i: int| 0 <= i < out@.len() implies (#[trigger] out@[i]).1.wf() by {
            assert(out@[i].1 == Json::Str(pairs@[i].1));
        }
    }
    out
}

/// What resolving a list of schema references against the components
/// decides: with no component registry nothing is contributed; otherwise
/// each reference is resolved and validated in order, its required names
/// concatenated.
pub open spec fn spec_refs_extract(
    refs: Seq<Seq<char>>,
    fields: Seq<(String, Json)>,
    comps: Option<ComponentsObject>,
) -> Result<Seq<Seq<char>>, ErrV>
    decreases refs.len(),
{
    match comps {
        Option::None => Result::Ok(Seq::empty()),
        Option::Some(c) => {
            if refs.len() == 0 {
                Result::Ok(Seq::empty())
            } else {
                match spec_extract_required(fields, refs[0], c) {
                    Result::Err(e) => Result::Err(e),
                    Result::Ok(names) => match spec_refs_extract(
                        refs.drop_first(),
                        fields,
                        comps,
                    ) {
                        Result::Err(e) => Result::Err(e),
                        Result::Ok(more) => Result::Ok(names + more),
                    },
                }
            }
        },
    }
}

/// Resolves the references of one schema and collects the required names
/// they contribute.
fn refs_extract(
    schema: &Schema,
    fields: &Vec<(String, Json)>,
    comps: Option<&ComponentsObject>,
    requireds: &mut Vec<String>,
) -> (r: Result<(), ValidationError>)
    requires
        forall|i: int| 0 <= i < fields@.len() ==> (#[trigger] fields@[i]).1.wf(),
        comps matches Option::Some(c) ==> c.wf(),
    ensures
        match r {
            Result::Ok(()) => spec_refs_extract(
                spec_collect_refs(*schema),
                fields@,
                match comps {
                    Option::Some(c) => Option::Some(*c),
                    Option::None => Option::<ComponentsObject>::None,
                },
            ) matches Result::Ok(names) && names_views(final(requireds)@) == names_views(
                old(requireds)@,
            ) + names,
            Result::Err(e) => spec_refs_extract(
                spec_collect_refs(*schema),
                fields@,
                match comps {
                    Option::Some(c) => Option::Some(*c),
                    Option::None => Option::<ComponentsObject>::None,
                },
            ) == Result::<Seq<Seq<char>>, ErrV>::Err(e.ev()),
        },
{
    let c: &ComponentsObject = match comps {
        Option::None => {
            proof {
                assert(names_views(requireds@) =~= names_views(requireds@) + Seq::<
                    Seq<char>,
                >::empty());
            }
            return Result::Ok(());
        },
        Option::Some(c) => c,
    };
    let refs = collect_refs(schema);
    let ghost specrefs = spec_collect_refs(*schema);
    let n = refs.len();
    let mut i: usize = 0;
    proof {
        assert(specrefs.subrange(0, n as int) =~= specrefs);
    }
    while i < n
        invariant
            0 <= i <= n,
            n == refs@.len(),
            n == specrefs.len(),
            forall|k: int| 0 <= k < n ==> (#[trigger] refs@[k])@ == specrefs[k],
            match spec_refs_extract(specrefs, fields@, Option::Some(*c)) {
                Result::Ok(all) => match spec_refs_extract(
                    specrefs.subrange(i as int, n as int),
                    fields@,
                    Option::Some(*c),
                ) {
                    Result::Ok(more) => names_views(requireds@) + more == names_views(
                        old(requireds)@,
                    ) + all,
                    Result::Err(_) => false,
                },
                Result::Err(e) => spec_refs_extract(
                    specrefs.subrange(i as int, n as int),
                    fields@,
                    Option::Some(*c),
                ) == Result::<Seq<Seq<char>>, ErrV>::Err(e),
            },
        decreases n - i,
    {
        proof {
            let rest = specrefs.subrange(i as int, n as int);
            assert(rest[0] == specrefs[i as int]);
            assert(rest.drop_first() =~= specrefs.subrange(i + 1, n as int));
        }
        let names = match extract_required_and_validate_props(fields, refs[i].as_str(), c) {
            Result::Err(e) => {
                return Result::Err(e);
            },
            Result::Ok(names) => names,
        };
        let ghost sn = spec_extract_required(fields@, specrefs[i as int], *c)->Ok_0;
        proof {
            assert(names_views(names@) =~= sn);
        }
        let ghost prev = names_views(requireds@);
        let m = names.len();
        let mut k: usize = 0;
        proof {
            assert(names_views(requireds@) =~= prev + names_views(names@).subrange(0, 0));
        }
        while k < m
            invariant
                0 <= k <= m,
                m == names@.len(),
                names_views(requireds@) =~= prev + names_views(names@).subrange(0, k as int),
            decreases m - k,
        {
            let ghost before = requireds@;
            requireds.push(names[k].clone());
            proof {
                let nv = names_views(names@);
                assert(requireds@ == before.push(names@[k as int]));
                assert forall|j: int| 0 <= j < requireds@.len() implies names_views(requireds@)[j]
                    == (prev + nv.subrange(0, k + 1))[j] by {
                    assert(names_views(requireds@)[j] == requireds@[j]@);
                    if j < before.len() {
                        assert(requireds@[j] == before[j]);
                        assert(names_views(before)[j] == before[j]@);
                        assert((prev + nv.subrange(0, k as int))[j] == names_views(before)[j]);
                    } else {
                        assert(requireds@[j] == names@[k as int]);
                        assert(nv.subrange(0, k + 1)[k as int] == names@[k as int]@);
                    }
                }
                assert(names_views(requireds@) =~= prev + nv.subrange(0, k + 1));
            }
            k = k + 1;
        }
        proof {
            assert(names_views(names@).subrange(0, m as int) =~= names_views(names@));
            assert(names_views(requireds@) =~= prev + sn);
            let rest2 = spec_refs_extract(
                specrefs.subrange(i + 1, n as int),
                fields@,
                Option::Some(*c),
            );
            if let Result::Ok(more2) = rest2 {
                assert((prev + sn) + more2 =~= prev + (sn + more2));
            }
        }
        i = i + 1;
    }
    Result::Ok(())
}

/// What checking one declared parameter against the query pairs decides.
/// A component-parameter reference is resolved and contributes required
/// names; a parameter outside the query (and `querystring`) location, or
/// without a name, is skipped. A present value must be non-blank when the
/// parameter is required, and passes the parameter's own enumeration,
/// type and pattern checks and — when a schema is attached — the schema's
/// format, enumeration, type, pattern, reference, length and range
/// checks; an absent value only fails when the parameter is required.
pub open spec fn spec_query_param(
    p: Parameter,
    pairs: Seq<(String, String)>,
    fields: Seq<(String, Json)>,
    comps: Option<ComponentsObject>,
) -> Result<Seq<Seq<char>>, ErrV> {
    match p.ref_path {
        Option::Some(pr) => match comps {
            Option::Some(c) => spec_extract_required(fields, pr@, c),
            Option::None => Result::Ok(Seq::empty()),
        },
        Option::None => match (p.name, p.location) {
            (Option::Some(name), Option::Some(loc)) => {
                if loc != In::Query && loc != In::Querystring {
                    Result::Ok(Seq::empty())
                } else {
                    match spec_assoc_get(pairs, name@) {
                        Option::Some(value) => spec_query_value(p, name, value, fields, comps),
                        Option::None => {
                            if p.required {
                                Result::Err(ErrV::MissingRequiredParameter { name: name@ })
                            } else {
                                Result::Ok(Seq::empty())
                            }
                        },
                    }
                }
            },
            _ => Result::Ok(Seq::empty()),
        },
    }
}

/// What checking a present wire value against its parameter decides.
pub open spec fn spec_query_value(
    p: Parameter,
    name: String,
    value: String,
    fields: Seq<(String, Json)>,
    comps: Option<ComponentsObject>,
) -> Result<Seq<Seq<char>>, ErrV> {
    if p.required && spec_blank(value@) {
        Result::Err(ErrV::EmptyRequiredParameter { name: name@ })
    } else {
        let jv = Json::Str(value);
        let er = match p.enum_values {
            Option::Some(vs) => spec_check_enum(name@, jv, vs@),
            Option::None => Result::Ok(()),
        };
        if er is Err {
            Result::Err(er->Err_0)
        } else {
            let tr = spec_check_type(name@, jv, p.schema_type);
            if tr is Err {
                Result::Err(tr->Err_0)
            } else {
                let sr = match p.schema {
                    Option::Some(schema) => spec_query_schema(*schema, name, jv, fields, comps),
                    Option::None => Result::Ok(Seq::empty()),
                };
                if sr is Err {
                    sr
                } else {
                    let pr = spec_check_pattern(name@, jv, p.pattern);
                    if pr is Err {
                        Result::Err(pr->Err_0)
                    } else {
                        sr
                    }
                }
            }
        }
    }
}

/// What checking a present wire value against its parameter's schema
/// decides.
pub open spec fn spec_query_schema(
    schema: Schema,
    name: String,
    jv: Json,
    fields: Seq<(String, Json)>,
    comps: Option<ComponentsObject>,
) -> Result<Seq<Seq<char>>, ErrV> {
    let fr = spec_check_format(name@, jv, schema.format);
    if fr is Err {
        Result::Err(fr->Err_0)
    } else {
        let er = match schema.enum_values {
            Option::Some(vs) => spec_check_enum(name@, jv, vs@),
            Option::None => Result::Ok(()),
        };
        if er is Err {
            Result::Err(er->Err_0)
        } else {
            let tr = spec_check_type(name@, jv, schema.schema_type);
            if tr is Err {
                Result::Err(tr->Err_0)
            } else {
                let pr = spec_check_pattern(name@, jv, schema.pattern);
                if pr is Err {
                    Result::Err(pr->Err_0)
                } else {
                    let rr = spec_refs_extract(spec_collect_refs(schema), fields, comps);
                    if rr is Err {
                        rr
                    } else {
                        let sc = spec_schema_string_constraints(name@, jv, schema);
                        if sc is Err {
                            Result::Err(sc->Err_0)
                        } else {
                            let nc = spec_schema_numeric_constraints(name@, jv, schema);
                            if nc is Err {
                                Result::Err(nc->Err_0)
                            } else {
                                rr
                            }
                        }
                    }
                }
            }
        }
    }
}

/// Checks one declared parameter against the query pairs, pushing any
/// contributed required names.
fn check_query_param(
    p: &Parameter,
    pairs: &Vec<(String, String)>,
    fields: &Vec<(String, Json)>,
    comps: Option<&ComponentsObject>,
    requireds: &mut Vec<String>,
) -> (r: Result<(), ValidationError>)
    requires
        p.wf(),
        forall|i: int| 0 <= i < fields@.len() ==> (#[trigger] fields@[i]).1.wf(),
        comps matches Option::Some(c) ==> c.wf(),
    ensures
        match r {
            Result::Ok(()) => spec_query_param(
                *p,
                pairs@,
                fields@,
                match comps {
                    Option::Some(c) => Option::Some(*c),
                    Option::None => Option::<ComponentsObject>::None,
                },
            ) matches Result::Ok(names) && names_views(final(requireds)@) == names_views(
                old(requireds)@,
            ) + names,
            Result::Err(e) => spec_query_param(
                *p,
                pairs@,
                fields@,
                match comps {
                    Option::Some(c) => Option::Some(*c),
                    Option::None => Option::<ComponentsObject>::None,
                },
            ) == Result::<Seq<Seq<char>>, ErrV>::Err(e.ev()),
        },
{
    if let Option::Some(pr) = &p.ref_path {
        match comps {
            Option::None => {
                proof {
                    assert(names_views(requireds@) =~= names_views(requireds@) + Seq::<
                        Seq<char>,
                    >::empty());
                }
                return Result::Ok(());
            },
            Option::Some(c) => {
                let names = match extract_required_and_validate_props(fields, pr.as_str(), c) {
                    Result::Err(e) => {
                        return Result::Err(e);
                    },
                    Result::Ok(names) => names,
                };
                push_names(requireds, &names);
                proof {
                    let sn = spec_extract_required(fields@, pr@, *c)->Ok_0;
                    assert(names_views(names@) =~= sn);
                }
                return Result::Ok(());
            },
        }
    }
    let (name, loc): (&String, In) = match (&p.name, &p.location) {
        (Option::Some(name), Option::Some(loc)) => (name, *loc),
        _ => {
            proof {
                assert(names_views(requireds@) =~= names_views(requireds@) + Seq::<
                    Seq<char>,
                >::empty());
            }
            return Result::Ok(());
        },
    };
    if !(matches!(loc, In::Query) || matches!(loc, In::Querystring)) {
        proof {
            assert(names_views(requireds@) =~= names_views(requireds@) + Seq::<
                Seq<char>,
            >::empty());
        }
        return Result::Ok(());
    }
    let value: &String = match assoc_get(pairs, name.as_str()) {
        Option::None => {
            if p.required {
                return Result::Err(
                    ValidationError::MissingRequiredParameter { name: name.clone() },
                );
            }
            proof {
                assert(names_views(requireds@) =~= names_views(requireds@) + Seq::<
                    Seq<char>,
                >::empty());
            }
            return Result::Ok(());
        },
        Option::Some(v) => v,
    };
    if p.required && is_blank(value.as_str()) {
        return Result::Err(ValidationError::EmptyRequiredParameter { name: name.clone() });
    }
    let jv = Json::Str(value.clone());
    proof {
        assert(jv == Json::Str(*value));
    }
    if let Option::Some(vs) = &p.enum_values {
        if let Result::Err(e) = check_enum(name, &jv, vs) {
            return Result::Err(e);
        }
    }
    if let Result::Err(e) = check_type(name, &jv, p.schema_type.as_ref()) {
        return Result::Err(e);
    }
    let ghost before = requireds@;
    if let Option::Some(schema) = &p.schema {
        if let Result::Err(e) = check_format(name, &jv, schema.format.as_ref()) {
            return Result::Err(e);
        }
        if let Option::Some(vs) = &schema.enum_values {
            if let Result::Err(e) = check_enum(name, &jv, vs) {
                return Result::Err(e);
            }
        }
        if let Result::Err(e) = check_type(name, &jv, schema.schema_type.as_ref()) {
            return Result::Err(e);
        }
        if let Result::Err(e) = check_pattern(name, &jv, schema.pattern.as_ref()) {
            return Result::Err(e);
        }
        if let Result::Err(e) = refs_extract(schema, fields, comps, requireds) {
            return Result::Err(e);
        }
        if let Result::Err(e) = check_schema_string_constraints(name, &jv, schema) {
            return Result::Err(e);
        }
        if let Result::Err(e) = check_schema_numeric_constraints(name, &jv, schema) {
            return Result::Err(e);
        }
    } else {
        proof {
            assert(names_views(requireds@) =~= names_views(requireds@) + Seq::<
                Seq<char>,
            >::empty());
        }
    }
    if let Result::Err(e) = check_pattern(name, &jv, p.pattern.as_ref()) {
        return Result::Err(e);
    }
    Result::Ok(())
}

/// Appends a batch of names.
fn push_names(requireds: &mut Vec<String>, names: &Vec<String>)
    ensures
        names_views(final(requireds)@) == names_views(old(requireds)@) + names_views(names@),
{
    let ghost prev = names_views(requireds@);
    let m = names.len();
    let mut k: usize = 0;
    proof {
        assert(names_views(requireds@) =~= prev + names_views(names@).subrange(0, 0));
    }
    while k < m
        invariant
            0 <= k <= m,
            m == names@.len(),
            names_views(requireds@) =~= prev + names_views(names@).subrange(0, k as int),
        decreases m - k,
    {
        let ghost before = requireds@;
        requireds.push(names[k].clone());
        proof {
            let nv = names_views(names@);
            assert(requireds@ == before.push(names@[k as int]));
            assert forall|j: int| 0 <= j < requireds@.len() implies names_views(requireds@)[j] == (
            prev + nv.subrange(0, k + 1))[j] by {
                assert(names_views(requireds@)[j] == requireds@[j]@);
                if j < before.len() {
                    assert(requireds@[j] == before[j]);
                    assert(names_views(before)[j] == before[j]@);
                    assert((prev + nv.subrange(0, k as int))[j] == names_views(before)[j]);
                } else {
                    assert(requireds@[j] == names@[k as int]);
                    assert(nv.subrange(0, k + 1)[k as int] == names@[k as int]@);
                }
            }
            assert(names_views(requireds@) =~= prev + nv.subrange(0, k + 1));
        }
        k = k + 1;
    }
    proof {
        assert(names_views(names@).subrange(0, m as int) =~= names_views(names@));
    }
}

/// What checking the declared parameters decides, from position `i` on:
/// each parameter's own check, fail-fast, the contributed required names
/// concatenated.
pub open spec fn spec_query_params_from(
    params: Seq<Parameter>,
    pairs: Seq<(String, String)>,
    fields: Seq<(String, Json)>,
    comps: Option<ComponentsObject>,
    i: int,
) -> Result<Seq<Seq<char>>, ErrV>
    decreases params.len() - i,
{
    if i < 0 || i >= params.len() {
        Result::Ok(Seq::empty())
    } else {
        match spec_query_param(params[i], pairs, fields, comps) {
            Result::Err(e) => Result::Err(e),
            Result::Ok(names) => match spec_query_params_from(params, pairs, fields, comps, i + 1) {
                Result::Err(e) => Result::Err(e),
                Result::Ok(more) => Result::Ok(names + more),
            },
        }
    }
}

/// What the query phase decides: the path template must be declared;
/// every parameter of the path item is checked against the query pairs;
/// then every aggregated required name must be present among the pairs.
pub open spec fn spec_query_phase(
    doc: OpenAPI,
    template: Seq<char>,
    pairs: Seq<(String, String)>,
) -> Result<(), ErrV> {
    match spec_assoc_get(doc.paths@, template) {
        Option::None => Result::Err(ErrV::PathNotFound),
        Option::Some(pi) => {
            match spec_query_params_from(
                spec_all_params(pi),
                pairs,
                spec_query_fields(pairs),
                doc.components,
                0,
            ) {
                Result::Err(e) => Result::Err(e),
                Result::Ok(names) => spec_required_fields(names, pairs),
            }
        },
    }
}

/// Runs the query phase; `Ok` exactly when [`spec_query_phase`] passes.
pub fn query(template: &str, query_pairs: &Vec<(String, String)>, open_api: &OpenAPI) -> (r:
    Result<(), ValidationError>)
    requires
        open_api.wf(),
    ensures
        res_ev(r) == spec_query_phase(*open_api, template@, query_pairs@),
{
    let pi: &PathItem = match assoc_get(&open_api.paths, template) {
        Option::None => {
            return Result::Err(ValidationError::PathNotFound);
        },
        Option::Some(pi) => pi,
    };
    proof {
        lemma_path_lookup_wf(open_api.paths@, template@);
    }
    let params = all_params(pi);
    let fields = query_fields(query_pairs);
    let comps = open_api.components.as_ref();
    let ghost speccomps: Option<ComponentsObject> = open_api.components;
    let ghost sparams = spec_all_params(*pi);
    let mut requireds: Vec<String> = Vec::new();
    let n = params.len();
    let mut i: usize = 0;
    proof {
        assert(names_views(requireds@) =~= Seq::<Seq<char>>::empty());
    }
    while i < n
        invariant
            0 <= i <= n,
            n == params@.len(),
            n == sparams.len(),
            forall|k: int| 0 <= k < n ==> *(#[trigger] params@[k]) == sparams[k],
            fields@ == spec_query_fields(query_pairs@),
            forall|k: int| 0 <= k < fields@.len() ==> (#[trigger] fields@[k]).1.wf(),
            comps matches Option::Some(c) ==> speccomps == Option::Some(*c),
            comps is None ==> speccomps is None,
            match spec_query_params_from(sparams, query_pairs@, fields@, speccomps, 0) {
                Result::Ok(all) => match spec_query_params_from(
                    sparams,
                    query_pairs@,
                    fields@,
                    speccomps,
                    i as int,
                ) {
                    Result::Ok(more) => names_views(requireds@) + more == all,
                    Result::Err(_) => false,
                },
                Result::Err(e) => spec_query_params_from(
                    sparams,
                    query_pairs@,
                    fields@,
                    speccomps,
                    i as int,
                ) == Result::<Seq<Seq<char>>, ErrV>::Err(e),
            },
        decreases n - i,
    {
        proof {
            assert(sparams[i as int].wf()) by {
                lemma_all_params_wf(*pi, i as int);
            }
        }
        let res = check_query_param(params[i], query_pairs, &fields, comps, &mut requireds);
        if let Result::Err(e) = res {
            return Result::Err(e);
        }
        proof {
            let sp = spec_query_param(sparams[i as int], query_pairs@, fields@, speccomps);
            if let Result::Ok(all) = spec_query_params_from(
                sparams,
                query_pairs@,
                fields@,
                speccomps,
                0,
            ) {
                if let Result::Ok(more2) = spec_query_params_from(
                    sparams,
                    query_pairs@,
                    fields@,
                    speccomps,
                    i + 1,
                ) {
                    assert((names_views(requireds@)) + more2 =~= all);
                }
            }
        }
        i = i + 1;
    }
    validate_required_fields(&requireds, query_pairs)
}

/// Whether a method name takes a request body.
pub open spec fn is_body_method(m: Seq<char>) -> bool {
    m == "post"@ || m == "put"@ || m == "patch"@ || m == "delete"@
}

/// The first declared request body among the operations, considering only
/// the body-taking methods, in declaration order.
pub open spec fn spec_find_request(ops: Seq<(String, PathBase)>) -> Option<Request>
    decreases ops.len(),
{
    if ops.len() == 0 {
        Option::None
    } else if is_body_method(ops[0].0@) && ops[0].1.request is Some {
        ops[0].1.request
    } else {
        spec_find_request(ops.drop_first())
    }
}

/// Finds the declared request body of the path item, if any.
fn find_request<'a>(pi: &'a PathItem) -> (r: Option<&'a Request>)
    ensures
        match r {
            Option::Some(req) => spec_find_request(pi.operations@) == Option::Some(*req),
            Option::None => spec_find_request(pi.operations@) is None,
        },
{
    let n = pi.operations.len();
    let mut i: usize = 0;
    proof {
        assert(pi.operations@.subrange(0, n as int) =~= pi.operations@);
    }
    while i < n
        invariant
            0 <= i <= n,
            n == pi.operations@.len(),
            spec_find_request(pi.operations@) == spec_find_request(
                pi.operations@.subrange(i as int, n as int),
            ),
        decreases n - i,
    {
        proof {
            let rest = pi.operations@.subrange(i as int, n as int);
            assert(rest[0] == pi.operations@[i as int]);
            assert(rest.drop_first() =~= pi.operations@.subrange(i + 1, n as int));
        }
        let key = pi.operations[i].0.as_str();
        let is_body = str_eq(key, "post") || str_eq(key, "put") || str_eq(key, "patch") || str_eq(
            key,
            "delete",
        );
        if is_body {
            if let Option::Some(req) = &pi.operations[i].1.request {
                return Option::Some(req);
            }
        }
        i = i + 1;
    }
    Option::None
}

/// The references of every content schema of a request body, in order.
pub open spec fn spec_content_refs(content: Seq<(String, BaseContent)>) -> Seq<Seq<char>>
    decreases content.len(),
{
    if content.len() == 0 {
        Seq::empty()
    } else {
        spec_collect_refs(content[0].1.schema) + spec_content_refs(content.drop_first())
    }
}

proof fn lemma_content_refs_push(content: Seq<(String, BaseContent)>, x: (String, BaseContent))
    ensures
        spec_content_refs(content.push(x)) == spec_content_refs(content) + spec_collect_refs(
            x.1.schema,
        ),
    decreases content.len(),
{
    reveal_with_fuel(spec_content_refs, 3);
    if content.len() == 0 {
        assert(content.push(x)[0] == x);
        assert(content.push(x).drop_first() =~= Seq::empty());
        assert(spec_content_refs(content.push(x)) =~= spec_content_refs(content)
            + spec_collect_refs(x.1.schema));
    } else {
        lemma_content_refs_push(content.drop_first(), x);
        assert(content.push(x)[0] == content[0]);
        assert(content.push(x).drop_first() =~= content.drop_first().push(x));
        assert(spec_content_refs(content.push(x)) =~= spec_content_refs(content)
            + spec_collect_refs(x.1.schema));
    }
}

/// Collects the references of every content schema of a request body.
fn content_refs(req: &Request) -> (r: Vec<String>)
    ensures
        names_views(r@) == spec_content_refs(req.content@),
{
    let mut out: Vec<String> = Vec::new();
    let n = req.content.len();
    let mut j: usize = 0;
    proof {
        assert(names_views(out@) =~= spec_content_refs(req.content@.subrange(0, 0)));
    }
    while j < n
        invariant
            0 <= j <= n,
            n == req.content@.len(),
            names_views(out@) =~= spec_content_refs(req.content@.subrange(0, j as int)),
        decreases n - j,
    {
        proof {
            lemma_content_refs_push(req.content@.subrange(0, j as int), req.content@[j as int]);
            assert(req.content@.subrange(0, j + 1 as int) =~= req.content@.subrange(
                0,
                j as int,
            ).push(req.content@[j as int]));
        }
        let refs = collect_refs(&req.content[j].1.schema);
        push_names(&mut out, &refs);
        proof {
            assert(names_views(refs@) =~= spec_collect_refs(req.content@[j as int].1.schema));
        }
        j = j + 1;
    }
    proof {
        assert(req.content@.subrange(0, n as int) =~= req.content@);
        assert(names_views(out@) =~= spec_content_refs(req.content@));
    }
    out
}

/// What checking the body's fields against the declared content entries
/// decides, from entry `i` on: a field bound under a content key must
/// match the content schema's type, and its format when that type is
/// plainly `string`.
pub open spec fn spec_content_checks(
    content: Seq<(String, BaseContent)>,
    fields: Seq<(String, Json)>,
    i: int,
) -> Result<(), ErrV>
    decreases content.len() - i,
{
    if i < 0 || i >= content.len() {
        Result::Ok(())
    } else {
        let key = content[i].0;
        let media = content[i].1;
        let step: Result<(), ErrV> = match spec_obj_get(fields, key@) {
            Option::None => Result::Ok(()),
            Option::Some(field) => {
                let tr = spec_check_type(key@, field, media.schema.schema_type);
                if tr is Err {
                    tr
                } else if media.schema.schema_type matches Option::Some(TypeOrUnion::Single(
                    Type::String,
                )) {
                    spec_check_format(key@, field, media.schema.format)
                } else {
                    Result::Ok(())
                }
            },
        };
        if step is Err {
            step
        } else {
            spec_content_checks(content, fields, i + 1)
        }
    }
}

/// What the aggregated-required check on body fields decides: every
/// collected name must be bound among the fields.
pub open spec fn spec_body_required(
    names: Seq<Seq<char>>,
    fields: Seq<(String, Json)>,
) -> Result<(), ErrV>
    decreases names.len(),
{
    if names.len() == 0 {
        Result::Ok(())
    } else if spec_obj_get(fields, names[0]) is None {
        Result::Err(ErrV::MissingRequiredField { name: names[0] })
    } else {
        spec_body_required(names.drop_first(), fields)
    }
}

/// What validating an object's fields against the request body contract
/// decides: the content-entry checks, then reference resolution, then the
/// aggregated required names.
pub open spec fn spec_object_body(
    fields: Seq<(String, Json)>,
    req: Request,
    refs: Seq<Seq<char>>,
    comps: Option<ComponentsObject>,
) -> Result<(), ErrV> {
    let cr = spec_content_checks(req.content@, fields, 0);
    if cr is Err {
        cr
    } else {
        match spec_refs_extract(refs, fields, comps) {
            Result::Err(e) => Result::Err(e),
            Result::Ok(names) => spec_body_required(names, fields),
        }
    }
}

/// Validates an object's fields against the request body contract; `Ok`
/// exactly when [`spec_object_body`] passes.
fn validate_object_body(
    fields: &Vec<(String, Json)>,
    req: &Request,
    refs: &Vec<String>,
    comps: Option<&ComponentsObject>,
) -> (r: Result<(), ValidationError>)
    requires
        forall|i: int| 0 <= i < fields@.len() ==> (#[trigger] fields@[i]).1.wf(),
        req.wf(),
        comps matches Option::Some(c) ==> c.wf(),
    ensures
        res_ev(r) == spec_object_body(
            fields@,
            *req,
            names_views(refs@),
            match comps {
                Option::Some(c) => Option::Some(*c),
                Option::None => Option::<ComponentsObject>::None,
            },
        ),
{
    let n = req.content.len();
    let mut i: usize = 0;
    while i < n
        invariant
            0 <= i <= n,
            n == req.content@.len(),
            spec_content_checks(req.content@, fields@, 0) == spec_content_checks(
                req.content@,
                fields@,
                i as int,
            ),
        decreases n - i,
    {
        let entry = &req.content[i];
        if let Option::Some(field) = crate::json::obj_get(fields, entry.0.as_str()) {
            proof {
                crate::resolve::lemma_obj_get_wf(fields@, entry.0@);
            }
            if let Result::Err(e) = check_type(&entry.0, field, entry.1.schema.schema_type.as_ref())
                {
                return Result::Err(e);
            }
            let is_plain_string = match &entry.1.schema.schema_type {
                Option::Some(TypeOrUnion::Single(Type::String)) => true,
                _ => false,
            };
            if is_plain_string {
                if let Result::Err(e) = check_format(&entry.0, field, entry.1.schema.format.as_ref())
                    {
                    return Result::Err(e);
                }
            }
        }
        i = i + 1;
    }
    let mut requireds: Vec<String> = Vec::new();
    proof {
        assert(names_views(requireds@) =~= Seq::<Seq<char>>::empty());
    }
    if let Result::Err(e) = refs_extract_list(refs, fields, comps, &mut requireds) {
        return Result::Err(e);
    }
    let m = requireds.len();
    let ghost rv = names_views(requireds@);
    proof {
        assert(rv.subrange(0, m as int) =~= rv);
    }
    let mut k: usize = 0;
    while k < m
        invariant
            0 <= k <= m,
            m == requireds@.len(),
            rv == names_views(requireds@),
            rv.len() == m,
            spec_body_required(rv, fields@) == spec_body_required(
                rv.subrange(k as int, m as int),
                fields@,
            ),
        decreases m - k,
    {
        proof {
            let rest = rv.subrange(k as int, m as int);
            assert(rest[0] == rv[k as int]);
            assert(rv[k as int] == requireds@[k as int]@);
            assert(rest.drop_first() =~= rv.subrange(k + 1, m as int));
        }
        if !crate::json::obj_has_key(fields, &requireds[k]) {
            return Result::Err(
                ValidationError::MissingRequiredField { name: requireds[k].clone() },
            );
        }
        k = k + 1;
    }
    proof {
        assert(rv.subrange(m as int, m as int) =~= Seq::<Seq<char>>::empty());
    }
    Result::Ok(())
}

/// Resolves a pre-collected reference list and pushes the required names
/// it contributes.
fn refs_extract_list(
    refs: &Vec<String>,
    fields: &Vec<(String, Json)>,
    comps: Option<&ComponentsObject>,
    requireds: &mut Vec<String>,
) -> (r: Result<(), ValidationError>)
    requires
        forall|i: int| 0 <= i < fields@.len() ==> (#[trigger] fields@[i]).1.wf(),
        comps matches Option::Some(c) ==> c.wf(),
    ensures
        match r {
            Result::Ok(()) => spec_refs_extract(
                names_views(refs@),
                fields@,
                match comps {
                    Option::Some(c) => Option::Some(*c),
                    Option::None => Option::<ComponentsObject>::None,
                },
            ) matches Result::Ok(names) && names_views(final(requireds)@) == names_views(
                old(requireds)@,
            ) + names,
            Result::Err(e) => spec_refs_extract(
                names_views(refs@),
                fields@,
                match comps {
                    Option::Some(c) => Option::Some(*c),
                    Option::None => Option::<ComponentsObject>::None,
                },
            ) == Result::<Seq<Seq<char>>, ErrV>::Err(e.ev()),
        },
{
    let c: &ComponentsObject = match comps {
        Option::None => {
            proof {
                assert(names_views(requireds@) =~= names_views(requireds@) + Seq::<
                    Seq<char>,
                >::empty());
            }
            return Result::Ok(());
        },
        Option::Some(c) => c,
    };
    let ghost specrefs = names_views(refs@);
    let n = refs.len();
    let mut i: usize = 0;
    proof {
        assert(specrefs.subrange(0, n as int) =~= specrefs);
    }
    while i < n
        invariant
            0 <= i <= n,
            n == refs@.len(),
            n == specrefs.len(),
            specrefs == names_views(refs@),
            match spec_refs_extract(specrefs, fields@, Option::Some(*c)) {
                Result::Ok(all) => match spec_refs_extract(
                    specrefs.subrange(i as int, n as int),
                    fields@,
                    Option::Some(*c),
                ) {
                    Result::Ok(more) => names_views(requireds@) + more == names_views(
                        old(requireds)@,
                    ) + all,
                    Result::Err(_) => false,
                },
                Result::Err(e) => spec_refs_extract(
                    specrefs.subrange(i as int, n as int),
                    fields@,
                    Option::Some(*c),
                ) == Result::<Seq<Seq<char>>, ErrV>::Err(e),
            },
        decreases n - i,
    {
        proof {
            let rest = specrefs.subrange(i as int, n as int);
            assert(rest[0] == specrefs[i as int]);
            assert(specrefs[i as int] == refs@[i as int]@);
            assert(rest.drop_first() =~= specrefs.subrange(i + 1, n as int));
        }
        let names = match extract_required_and_validate_props(fields, refs[i].as_str(), c) {
            Result::Err(e) => {
                return Result::Err(e);
            },
            Result::Ok(names) => names,
        };
        let ghost prev = names_views(requireds@);
        let ghost sn = spec_extract_required(fields@, specrefs[i as int], *c)->Ok_0;
        proof {
            assert(names_views(names@) =~= sn);
        }
        push_names(requireds, &names);
        proof {
            let rest2 = spec_refs_extract(
                specrefs.subrange(i + 1, n as int),
                fields@,
                Option::Some(*c),
            );
            if let Result::Ok(more2) = rest2 {
                assert((prev + sn) + more2 =~= prev + (sn + more2));
            }
        }
        i = i + 1;
    }
    Result::Ok(())
}

/// What checking each body array element decides, from element `i` on:
/// every element must be an object, and each is validated like an object
/// body against the same contract.
pub open spec fn spec_array_items(
    arr: Seq<Json>,
    req: Request,
    refs: Seq<Seq<char>>,
    comps: Option<ComponentsObject>,
    i: int,
) -> Result<(), ErrV>
    decreases arr.len() - i,
{
    if i < 0 || i >= arr.len() {
        Result::Ok(())
    } else {
        match arr[i] {
            Json::Obj(fields) => {
                let er = spec_object_body(fields@, req, refs, comps);
                if er is Err {
                    er
                } else {
                    spec_array_items(arr, req, refs, comps, i + 1)
                }
            },
            _ => Result::Err(ErrV::ArrayItemNotObject { index: i as usize }),
        }
    }
}

/// Validates every element of a body array; `Ok` exactly when
/// [`spec_array_items`] passes.
fn validate_array_items(
    arr: &Vec<Json>,
    req: &Request,
    refs: &Vec<String>,
    comps: Option<&ComponentsObject>,
) -> (r: Result<(), ValidationError>)
    requires
        forall|i: int| 0 <= i < arr@.len() ==> (#[trigger] arr@[i]).wf(),
        req.wf(),
        comps matches Option::Some(c) ==> c.wf(),
    ensures
        res_ev(r) == spec_array_items(
            arr@,
            *req,
            names_views(refs@),
            match comps {
                Option::Some(c) => Option::Some(*c),
                Option::None => Option::<ComponentsObject>::None,
            },
            0,
        ),
{
    let n = arr.len();
    let mut i: usize = 0;
    while i < n
        invariant
            0 <= i <= n,
            n == arr@.len(),
            spec_array_items(
                arr@,
                *req,
                names_views(refs@),
                match comps {
                    Option::Some(c) => Option::Some(*c),
                    Option::None => Option::<ComponentsObject>::None,
                },
                0,
            ) == spec_array_items(
                arr@,
                *req,
                names_views(refs@),
                match comps {
                    Option::Some(c) => Option::Some(*c),
                    Option::None => Option::<ComponentsObject>::None,
                },
                i as int,
            ),
        decreases n - i,
    {
        match &arr[i] {
            Json::Obj(fields) => {
                if let Result::Err(e) = validate_object_body(fields, req, refs, comps) {
                    return Result::Err(e);
                }
            },
            _ => {
                return Result::Err(ValidationError::ArrayItemNotObject { index: i });
            },
        }
        i = i + 1;
    }
    Result::Ok(())
}

/// What the scalar-body checks against each content entry decide, from
/// entry `i` on: the declared type, format and enumeration of each
/// content schema, in that order.
pub open spec fn spec_scalar_content(
    content: Seq<(String, BaseContent)>,
    name: Seq<char>,
    payload: Json,
    i: int,
) -> Result<(), ErrV>
    decreases content.len() - i,
{
    if i < 0 || i >= content.len() {
        Result::Ok(())
    } else {
        let schema = content[i].1.schema;
        let tr = spec_check_type(name, payload, schema.schema_type);
        if tr is Err {
            tr
        } else {
            let fr = match schema.format {
                Option::Some(_) => spec_check_format(name, payload, schema.format),
                Option::None => Result::Ok(()),
            };
            if fr is Err {
                fr
            } else {
                let er = match schema.enum_values {
                    Option::Some(vs) => spec_check_enum(name, payload, vs@),
                    Option::None => Result::Ok(()),
                };
                if er is Err {
                    er
                } else {
                    spec_scalar_content(content, name, payload, i + 1)
                }
            }
        }
    }
}

/// What the body phase decides for a parsed body: no declared request
/// body passes anything; a required body must not be null; the resolved
/// top-level schema fixes the expected shape; objects, arrays and scalars
/// are then validated against the contract.
pub open spec fn spec_body_phase(doc: OpenAPI, template: Seq<char>, payload: Json) -> Result<
    (),
    ErrV,
> {
    match spec_assoc_get(doc.paths@, template) {
        Option::None => Result::Err(ErrV::PathNotFound),
        Option::Some(pi) => match spec_find_request(pi.operations@) {
            Option::None => Result::Ok(()),
            Option::Some(req) => {
                if req.required && payload is Null {
                    Result::Err(ErrV::RequiredBodyMissing)
                } else {
                    let refs = spec_content_refs(req.content@);
                    let si = spec_schema_info(refs, doc);
                    let expected = match si {
                        Option::Some(s) => s.schema_type,
                        Option::None => Option::None,
                    };
                    match payload {
                        Json::Obj(fields) => {
                            let sr = spec_ensure_type(expected, Type::Object);
                            if sr is Err {
                                Result::Err(sr->Err_0)
                            } else {
                                spec_object_body(fields@, req, refs, doc.components)
                            }
                        },
                        Json::Arr(arr) => {
                            let sr = spec_ensure_type(expected, Type::Array);
                            if sr is Err {
                                Result::Err(sr->Err_0)
                            } else {
                                let lr = match si {
                                    Option::Some(s) => spec_body_array_len(
                                        arr@.len() as usize,
                                        s.min_items,
                                        s.max_items,
                                    ),
                                    Option::None => Result::Ok(()),
                                };
                                if lr is Err {
                                    lr
                                } else {
                                    spec_array_items(arr@, req, refs, doc.components, 0)
                                }
                            }
                        },
                        Json::Null => Result::Ok(()),
                        _ => {
                            let tr = match expected {
                                Option::Some(_) => spec_check_type(
                                    "request_body"@,
                                    payload,
                                    expected,
                                ),
                                Option::None => Result::Ok(()),
                            };
                            if tr is Err {
                                tr
                            } else {
                                spec_scalar_content(req.content@, "request_body"@, payload, 0)
                            }
                        },
                    }
                }
            },
        },
    }
}

/// What the body array length check against the resolved component
/// schema decides.
pub open spec fn spec_body_array_len(len: usize, min: Option<u64>, max: Option<u64>) -> Result<
    (),
    ErrV,
> {
    if min matches Option::Some(m) && (len as int) < m {
        Result::Err(ErrV::BodyTooFewItems { min: min->0, len })
    } else if max matches Option::Some(m) && (len as int) > m {
        Result::Err(ErrV::BodyTooManyItems { max: max->0, len })
    } else {
        Result::Ok(())
    }
}

/// A request body found among well-formed operations is well formed.
proof fn lemma_find_request_wf(ops: Seq<(String, PathBase)>)
    requires
        forall|i: int| 0 <= i < ops.len() ==> (#[trigger] ops[i]).1.wf(),
    ensures
        spec_find_request(ops) matches Option::Some(req) ==> req.wf(),
    decreases ops.len(),
{
    if ops.len() > 0 && !(is_body_method(ops[0].0@) && ops[0].1.request is Some) {
        assert(forall|i: int| 0 <= i < ops.drop_first().len() ==> (#[trigger] ops.drop_first(
        )[i]).1.wf());
        lemma_find_request_wf(ops.drop_first());
    }
}

/// Runs the body phase on a parsed JSON body; `Ok` exactly when
/// [`spec_body_phase`] passes.
pub fn body(template: &str, payload: &Json, open_api: &OpenAPI) -> (r: Result<
    (),
    ValidationError,
>)
    requires
        open_api.wf(),
        payload.wf(),
    ensures
        res_ev(r) == spec_body_phase(*open_api, template@, *payload),
{
    let pi: &PathItem = match assoc_get(&open_api.paths, template) {
        Option::None => {
            return Result::Err(ValidationError::PathNotFound);
        },
        Option::Some(pi) => pi,
    };
    proof {
        lemma_path_lookup_wf(open_api.paths@, template@);
    }
    let req: &Request = match find_request(pi) {
        Option::None => {
            return Result::Ok(());
        },
        Option::Some(req) => req,
    };
    proof {
        lemma_find_request_wf(pi.operations@);
    }
    if req.required && matches!(payload, Json::Null) {
        return Result::Err(ValidationError::RequiredBodyMissing);
    }
    let refs = content_refs(req);
    let si = get_schema_info(&refs, open_api);
    let expected: Option<&TypeOrUnion> = match si {
        Option::Some(s) => s.schema_type.as_ref(),
        Option::None => Option::None,
    };
    let comps = open_api.components.as_ref();
    match payload {
        Json::Obj(fields) => {
            if let Result::Err(e) = ensure_type(expected, Type::Object) {
                return Result::Err(e);
            }
            proof {
                assert(forall|i: int| 0 <= i < fields@.len() ==> (#[trigger] fields@[i]).1.wf());
            }
            validate_object_body(fields, req, &refs, comps)
        },
        Json::Arr(arr) => {
            if let Result::Err(e) = ensure_type(expected, Type::Array) {
                return Result::Err(e);
            }
            if let Option::Some(s) = si {
                let len = arr.len();
                if let Option::Some(m) = s.min_items {
                    if (len as u64) < m {
                        return Result::Err(ValidationError::BodyTooFewItems { min: m, len });
                    }
                }
                if let Option::Some(m) = s.max_items {
                    if (len as u64) > m {
                        return Result::Err(ValidationError::BodyTooManyItems { max: m, len });
                    }
                }
            }
            proof {
                assert(forall|i: int| 0 <= i < arr@.len() ==> (#[trigger] arr@[i]).wf());
            }
            validate_array_items(arr, req, &refs, comps)
        },
        Json::Null => Result::Ok(()),
        _ => {
            let name = String::from_str("request_body");
            if si.is_some() {
                match expected {
                    Option::Some(_) => {
                        if let Result::Err(e) = check_type(&name, payload, expected) {
                            return Result::Err(e);
                        }
                    },
                    Option::None => {},
                }
            }
            let n = req.content.len();
            let mut i: usize = 0;
            while i < n
                invariant
                    0 <= i <= n,
                    n == req.content@.len(),
                    name@ == "request_body"@,
                    spec_scalar_content(req.content@, "request_body"@, *payload, 0)
                        == spec_scalar_content(req.content@, "request_body"@, *payload, i as int),
                decreases n - i,
            {
                let schema = &req.content[i].1.schema;
                proof {
                    assert(req.content@[i as int].1.schema.wf());
                }
                if let Result::Err(e) = check_type(&name, payload, schema.schema_type.as_ref()) {
                    return Result::Err(e);
                }
                if schema.format.is_some() {
                    if let Result::Err(e) = check_format(&name, payload, schema.format.as_ref()) {
                        return Result::Err(e);
                    }
                }
                if let Option::Some(vs) = &schema.enum_values {
                    if let Result::Err(e) = check_enum(&name, payload, vs) {
                        return Result::Err(e);
                    }
                }
                i = i + 1;
            }
            Result::Ok(())
        },
    }
}

/// Which required part of the document, if any, is missing or empty; the
/// first fault in the order version, title, info version, paths.
pub open spec fn spec_doc_fault(doc: OpenAPI) -> Option<DocFault> {
    if doc.openapi@.len() == 0 {
        Option::Some(DocFault::NoOpenapiVersion)
    } else if doc.info.title@.len() == 0 {
        Option::Some(DocFault::NoTitle)
    } else if doc.info.version@.len() == 0 {
        Option::Some(DocFault::NoInfoVersion)
    } else if doc.paths@.len() == 0 {
        Option::Some(DocFault::NoPaths)
    } else {
        Option::None
    }
}

/// What validating one request against the document decides: an
/// incomplete document is rejected outright; then the method, path,
/// query and body phases run in order, the first failure tagged with its
/// phase. An absent body fails only when the operation requires one; a
/// body that did not parse as JSON fails as malformed.
pub open spec fn spec_validator(doc: OpenAPI, facts: RequestFacts) -> Result<(), (Phase, ErrV)> {
    match spec_doc_fault(doc) {
        Option::Some(f) => Result::Err((Phase::Document, ErrV::SpecError(f))),
        Option::None => {
            match spec_method_phase(doc, facts.path_template@, facts.method@) {
                Result::Err(e) => Result::Err((Phase::Method, e)),
                Result::Ok(()) => {
                    let pr: Result<(), ErrV> = if facts.last_path_segment@.len() > 0 {
                        spec_path_phase(doc, facts.path_template@, facts.last_path_segment)
                    } else {
                        Result::Ok(())
                    };
                    match pr {
                        Result::Err(e) => Result::Err((Phase::Path, e)),
                        Result::Ok(()) => {
                            match spec_query_phase(doc, facts.path_template@, facts.query_pairs@) {
                                Result::Err(e) => Result::Err((Phase::Query, e)),
                                Result::Ok(()) => match facts.body {
                                    BodyState::Absent => {
                                        match spec_assoc_get(doc.paths@, facts.path_template@) {
                                            Option::Some(pi) => match spec_find_request(
                                                pi.operations@,
                                            ) {
                                                Option::Some(req) => {
                                                    if req.required {
                                                        Result::Err(
                                                            (Phase::Body, ErrV::RequiredBodyMissing),
                                                        )
                                                    } else {
                                                        Result::Ok(())
                                                    }
                                                },
                                                Option::None => Result::Ok(()),
                                            },
                                            Option::None => Result::Ok(()),
                                        }
                                    },
                                    BodyState::Malformed => Result::Err(
                                        (Phase::Body, ErrV::MalformedBody),
                                    ),
                                    BodyState::Present(j) => {
                                        match spec_body_phase(doc, facts.path_template@, j) {
                                            Result::Err(e) => Result::Err((Phase::Body, e)),
                                            Result::Ok(()) => Result::Ok(()),
                                        }
                                    },
                                },
                            }
                        },
                    }
                },
            }
        },
    }
}

impl OpenAPI {
    /// Validates one request against this document: the document's own
    /// completeness first, then the four phases in order, fail-fast; `Ok`
    /// exactly when [`spec_validator`] passes, and the failure otherwise
    /// carries the phase and the first violation. The result is a
    /// function of the document and the facts alone, so validating the
    /// same pair again yields the same result.
    pub fn validator(&self, facts: &RequestFacts) -> (r: Result<(), ValidationFailure>)
        requires
            self.wf(),
            facts.wf(),
        ensures
            vres_ev(r) == spec_validator(*self, *facts),
    {
        if self.openapi.as_str().is_empty() {
            return Result::Err(
                ValidationFailure {
                    phase: Phase::Document,
                    error: ValidationError::SpecError(DocFault::NoOpenapiVersion),
                },
            );
        }
        if self.info.title.as_str().is_empty() {
            return Result::Err(
                ValidationFailure {
                    phase: Phase::Document,
                    error: ValidationError::SpecError(DocFault::NoTitle),
                },
            );
        }
        if self.info.version.as_str().is_empty() {
            return Result::Err(
                ValidationFailure {
                    phase: Phase::Document,
                    error: ValidationError::SpecError(DocFault::NoInfoVersion),
                },
            );
        }
        if self.paths.len() == 0 {
            return Result::Err(
                ValidationFailure {
                    phase: Phase::Document,
                    error: ValidationError::SpecError(DocFault::NoPaths),
                },
            );
        }
        if let Result::Err(e) = method(
            self.path_template_str(facts),
            facts.method.as_str(),
            self,
        ) {
            return Result::Err(ValidationFailure { phase: Phase::Method, error: e });
        }
        if !facts.last_path_segment.as_str().is_empty() {
            if let Result::Err(e) = path(
                self.path_template_str(facts),
                &facts.last_path_segment,
                self,
            ) {
                return Result::Err(ValidationFailure { phase: Phase::Path, error: e });
            }
        }
        if let Result::Err(e) = query(self.path_template_str(facts), &facts.query_pairs, self) {
            return Result::Err(ValidationFailure { phase: Phase::Query, error: e });
        }
        match &facts.body {
            BodyState::Absent => {
                if let Option::Some(pi) = assoc_get(&self.paths, facts.path_template.as_str()) {
                    if let Option::Some(req) = find_request(pi) {
                        if req.required {
                            return Result::Err(
                                ValidationFailure {
                                    phase: Phase::Body,
                                    error: ValidationError::RequiredBodyMissing,
                                },
                            );
                        }
                    }
                }
                Result::Ok(())
            },
            BodyState::Malformed => Result::Err(
                ValidationFailure { phase: Phase::Body, error: ValidationError::MalformedBody },
            ),
            BodyState::Present(j) => {
                match body(self.path_template_str(facts), j, self) {
                    Result::Err(e) => Result::Err(
                        ValidationFailure { phase: Phase::Body, error: e },
                    ),
                    Result::Ok(()) => Result::Ok(()),
                }
            },
        }
    }

    /// The request's path template as a string slice.
    fn path_template_str<'a>(&self, facts: &'a RequestFacts) -> (r: &'a str)
        ensures
            r@ == facts.path_template@,
    {
        facts.path_template.as_str()
    }
}

/// A path item looked up in a well-formed document is well formed.
proof fn lemma_path_lookup_wf(entries: Seq<(String, PathItem)>, key: Seq<char>)
    requires
        forall|i: int| 0 <= i < entries.len() ==> (#[trigger] entries[i]).1.wf(),
    ensures
        spec_assoc_get(entries, key) matches Option::Some(pi) ==> pi.wf(),
    decreases entries.len(),
{
    if entries.len() > 0 && entries[0].0@ != key {
        assert(forall|i: int| 0 <= i < entries.drop_first().len() ==> (
        #[trigger] entries.drop_first()[i]).1.wf());
        lemma_path_lookup_wf(entries.drop_first(), key);
    }
}

/// Every parameter gathered from a well-formed path item is well formed.
proof fn lemma_all_params_wf(pi: PathItem, i: int)
    requires
        pi.wf(),
        0 <= i < spec_all_params(pi).len(),
    ensures
        spec_all_params(pi)[i].wf(),
{
    let ops = pi.operations@;
    assert(ops.subrange(0, ops.len() as int) =~= ops);
    assert(ops.subrange(ops.len() - ops.len(), ops.len() as int) =~= ops);
    if i < spec_ops_params(ops).len() {
        lemma_ops_params_wf(pi, ops.len() as int, i);
        assert(spec_all_params(pi)[i] == spec_ops_params(ops)[i]);
    } else {
        match pi.parameters {
            Option::Some(ps) => {
                assert(spec_all_params(pi)[i] == ps@[i - spec_ops_params(ops).len()]);
                assert((ps@[i - spec_ops_params(ops).len()]).wf());
            },
            Option::None => {
                assert(false);
            },
        }
    }
}

/// Parameters gathered from the operation prefix of a well-formed path
/// item are well formed.
proof fn lemma_ops_params_wf(pi: PathItem, j: int, i: int)
    requires
        pi.wf(),
        0 <= j <= pi.operations@.len(),
        0 <= i < spec_ops_params(pi.operations@.subrange(
            pi.operations@.len() - j,
            pi.operations@.len() as int,
        )).len(),
    ensures
        spec_ops_params(
            pi.operations@.subrange(pi.operations@.len() - j, pi.operations@.len() as int),
        )[i].wf(),
    decreases j,
{
    let ops = pi.operations@;
    let tail = ops.subrange(ops.len() - j, ops.len() as int);
    if j > 0 {
        let head_params: Seq<Parameter> = match tail[0].1.parameters {
            Option::Some(ps) => ps@,
            Option::None => Seq::empty(),
        };
        assert(tail[0] == ops[ops.len() - j]);
        assert(tail[0].1.wf());
        if i < head_params.len() {
            assert(spec_ops_params(tail)[i] == head_params[i]);
        } else {
            assert(tail.drop_first() =~= ops.subrange(ops.len() - (j - 1), ops.len() as int));
            lemma_ops_params_wf(pi, j - 1, i - head_params.len());
            assert(spec_ops_params(tail)[i] == spec_ops_params(tail.drop_first())[i
                - head_params.len()]);
        }
    }
}

} // verus!
