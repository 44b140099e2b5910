//! The reference resolver.
//!
//! A schema may point at reusable component schemas through `$ref`, or
//! through the `$ref` of each `oneOf`/`allOf` branch. Only the final path
//! segment of a reference is used for lookup. Resolution validates the
//! supplied fields against each referenced schema's own properties and
//! collects the union of the referenced schemas' `required` lists —
//! deliberately the same treatment for `oneOf` and `allOf`.

use vstd::prelude::*;
use vstd::string::{StrSliceExecFns, StringExecFns};
use crate::constraints::{check_field_limits, spec_field_limits};
use crate::enums::{check_enum, spec_check_enum};
use crate::errors::{res_ev, ErrV, ValidationError};
use crate::formats::{check_format, spec_check_format};
use crate::json::Json;
use crate::model::{
    spec_assoc_get, assoc_get, ComponentProperties, ComponentsObject, ComponentSchemaBase,
    OpenAPI, Properties, Schema, Type, TypeOrUnion,
};
use crate::pattern::{check_pattern, spec_check_pattern};
use crate::typecheck::{check_type, spec_check_type};

verus! {

broadcast use vstd::std_specs::vec::group_vec_axioms, vstd::seq::group_seq_axioms;

/// Position after the last `/` of a reference path, or `0` when none
/// occurs.
pub open spec fn after_last_slash(s: Seq<char>) -> int
    decreases s.len(),
{
    if s.len() == 0 {
        0
    } else if s.last() == '/' {
        s.len() as int
    } else {
        after_last_slash(s.drop_last())
    }
}

/// The final path segment of a reference: everything after its last `/`.
pub open spec fn spec_last_segment(s: Seq<char>) -> Seq<char> {
    s.subrange(after_last_slash(s), s.len() as int)
}

proof fn lemma_after_last_slash(s: Seq<char>)
    ensures
        0 <= after_last_slash(s) <= s.len(),
        forall|k: int| after_last_slash(s) <= k < s.len() ==> s[k] != '/',
        after_last_slash(s) > 0 ==> s[after_last_slash(s) - 1] == '/',
    decreases s.len(),
{
    if s.len() > 0 && s.last() != '/' {
        lemma_after_last_slash(s.drop_last());
        assert forall|k: int| after_last_slash(s) <= k < s.len() implies s[k] != '/' by {
            if k < s.len() - 1 {
                assert(s.drop_last()[k] == s[k]);
            }
        }
    }
}

proof fn lemma_after_last_slash_at(s: Seq<char>, i: int)
    requires
        0 <= i < s.len(),
        s[i] == '/',
        forall|k: int| i < k < s.len() ==> s[k] != '/',
    ensures
        after_last_slash(s) == i + 1,
    decreases s.len(),
{
    if i < s.len() - 1 {
        assert(s.last() != '/');
        lemma_after_last_slash_at(s.drop_last(), i);
    }
}

proof fn lemma_no_slash(s: Seq<char>)
    requires
        forall|k: int| 0 <= k < s.len() ==> s[k] != '/',
    ensures
        after_last_slash(s) == 0,
    decreases s.len(),
{
    if s.len() > 0 {
        lemma_no_slash(s.drop_last());
    }
}

/// The final path segment of a reference.
pub fn last_segment(s: &str) -> (r: String)
    ensures
        r@ == spec_last_segment(s@),
{
    let n = s.unicode_len();
    let mut i: usize = n;
    while i > 0
        invariant
            0 <= i <= n,
            n == s@.len(),
            forall|k: int| i <= k < n ==> s@[k] != '/',
        decreases i,
    {
        if s.get_char(i - 1) == '/' {
            proof {
                lemma_after_last_slash_at(s@, i - 1);
            }
            let seg = String::from_str(s.substring_char(i, n));
            proof {
                assert(seg@ =~= spec_last_segment(s@));
            }
            return seg;
        }
        i = i - 1;
    }
    proof {
        lemma_no_slash(s@);
    }
    let seg = String::from_str(s);
    proof {
        assert(seg@ =~= spec_last_segment(s@));
    }
    seg
}

/// The reference strings of the branches of a `oneOf`/`allOf` list, in
/// order.
pub open spec fn spec_branch_refs(cs: Seq<ComponentProperties>) -> Seq<Seq<char>>
    decreases cs.len(),
{
    if cs.len() == 0 {
        Seq::empty()
    } else {
        (match cs[0].ref_path {
            Option::Some(r) => seq![r@],
            Option::None => Seq::empty(),
        }) + spec_branch_refs(cs.drop_first())
    }
}

proof fn lemma_branch_refs_push(cs: Seq<ComponentProperties>, x: ComponentProperties)
    ensures
        spec_branch_refs(cs.push(x)) == spec_branch_refs(cs) + (match x.ref_path {
            Option::Some(r) => seq![r@],
            Option::None => Seq::<Seq<char>>::empty(),
        }),
    decreases cs.len(),
{
    reveal_with_fuel(spec_branch_refs, 3);
    if cs.len() == 0 {
        assert(cs.push(x)[0] == x);
        assert(cs.push(x).drop_first() =~= Seq::empty());
        assert(spec_branch_refs(cs.push(x)) =~= spec_branch_refs(cs) + (match x.ref_path {
            Option::Some(r) => seq![r@],
            Option::None => Seq::<Seq<char>>::empty(),
        }));
    } else {
        lemma_branch_refs_push(cs.drop_first(), x);
        assert(cs.push(x)[0] == cs[0]);
        assert(cs.push(x).drop_first() =~= cs.drop_first().push(x));
        assert(spec_branch_refs(cs.push(x)) =~= spec_branch_refs(cs) + (match x.ref_path {
            Option::Some(r) => seq![r@],
            Option::None => Seq::<Seq<char>>::empty(),
        }));
    }
}

/// Every `$ref` reachable from a schema node: its own, then those of its
/// `oneOf` branches, then those of its `allOf` branches, one level deep.
pub open spec fn spec_collect_refs(s: Schema) -> Seq<Seq<char>> {
    (match s.ref_path {
        Option::Some(r) => seq![r@],
        Option::None => Seq::empty(),
    }) + (match s.one_of {
        Option::Some(cs) => spec_branch_refs(cs@),
        Option::None => Seq::empty(),
    }) + (match s.all_of {
        Option::Some(cs) => spec_branch_refs(cs@),
        Option::None => Seq::empty(),
    })
}

/// Collects the reference strings reachable from a schema node.
pub fn collect_refs(s: &Schema) -> (r: Vec<String>)
    ensures
        r@.len() == spec_collect_refs(*s).len(),
        forall|i: int| 0 <= i < r@.len() ==> (#[trigger] r@[i])@ == spec_collect_refs(*s)[i],
{
    let mut out: Vec<String> = Vec::new();
    if let Option::Some(r) = &s.ref_path {
        out.push(r.clone());
    }
    let ghost own: Seq<Seq<char>> = match &s.ref_path {
        Option::Some(r) => seq![r@],
        Option::None => Seq::empty(),
    };
    proof {
        assert(out@.len() == own.len());
        assert(forall|i: int| 0 <= i < out@.len() ==> (#[trigger] out@[i])@ == own[i]);
    }
    if let Option::Some(cs) = &s.one_of {
        let m = cs.len();
        let mut j: usize = 0;
        while j < m
            invariant
                0 <= j <= m,
                m == cs@.len(),
                out@.len() == own.len() + spec_branch_refs(cs@.subrange(0, j as int)).len(),
                forall|i: int| 0 <= i < out@.len() ==> (#[trigger] out@[i])@ == (own
                    + spec_branch_refs(cs@.subrange(0, j as int)))[i],
            decreases m - j,
        {
            proof {
                lemma_branch_refs_push(cs@.subrange(0, j as int), cs@[j as int]);
                assert(cs@.subrange(0, j + 1 as int) =~= cs@.subrange(0, j as int).push(
                    cs@[j as int],
                ));
            }
            if let Option::Some(r) = &cs[j].ref_path {
                out.push(r.clone());
            }
            j = j + 1;
        }
        proof {
            assert(cs@.subrange(0, m as int) =~= cs@);
        }
    }
    let ghost mid: Seq<Seq<char>> = own + (match &s.one_of {
        Option::Some(cs) => spec_branch_refs(cs@),
        Option::None => Seq::empty(),
    });
    proof {
        assert(out@.len() == mid.len());
        assert(forall|i: int| 0 <= i < out@.len() ==> (#[trigger] out@[i])@ == mid[i]);
    }
    if let Option::Some(cs) = &s.all_of {
        let m = cs.len();
        let mut j: usize = 0;
        while j < m
            invariant
                0 <= j <= m,
                m == cs@.len(),
                out@.len() == mid.len() + spec_branch_refs(cs@.subrange(0, j as int)).len(),
                forall|i: int| 0 <= i < out@.len() ==> (#[trigger] out@[i])@ == (mid
                    + spec_branch_refs(cs@.subrange(0, j as int)))[i],
            decreases m - j,
        {
            proof {
                lemma_branch_refs_push(cs@.subrange(0, j as int), cs@[j as int]);
                assert(cs@.subrange(0, j + 1 as int) =~= cs@.subrange(0, j as int).push(
                    cs@[j as int],
                ));
            }
            if let Option::Some(r) = &cs[j].ref_path {
                out.push(r.clone());
            }
            j = j + 1;
        }
        proof {
            assert(cs@.subrange(0, m as int) =~= cs@);
        }
    }
    proof {
        assert(spec_collect_refs(*s) == mid + (match s.all_of {
            Option::Some(cs) => spec_branch_refs(cs@),
            Option::None => Seq::<Seq<char>>::empty(),
        }));
        assert(forall|i: int| 0 <= i < out@.len() ==> (#[trigger] out@[i])@ == spec_collect_refs(
            *s,
        )[i]);
    }
    out
}

/// The first referenced component schema that resolves, if any.
pub open spec fn spec_schema_info(refs: Seq<Seq<char>>, doc: OpenAPI) -> Option<
    ComponentSchemaBase,
>
    decreases refs.len(),
{
    match doc.components {
        Option::None => Option::None,
        Option::Some(c) => {
            if refs.len() == 0 {
                Option::None
            } else {
                match spec_assoc_get(c.schemas@, spec_last_segment(refs[0])) {
                    Option::Some(s) => Option::Some(s),
                    Option::None => spec_schema_info(refs.drop_first(), doc),
                }
            }
        },
    }
}

/// Resolves the first reference that names a registered component schema.
pub fn get_schema_info<'a>(refs: &Vec<String>, doc: &'a OpenAPI) -> (r: Option<
    &'a ComponentSchemaBase,
>)
    ensures
        match r {
            Option::Some(s) => spec_schema_info(names_views(refs@), *doc) == Option::Some(*s),
            Option::None => spec_schema_info(names_views(refs@), *doc) is None,
        },
{
    let comps: &ComponentsObject = match &doc.components {
        Option::None => {
            return Option::None;
        },
        Option::Some(c) => c,
    };
    let n = refs.len();
    let ghost rv = names_views(refs@);
    proof {
        assert(rv.subrange(0, n as int) =~= rv);
    }
    let mut i: usize = 0;
    while i < n
        invariant
            0 <= i <= n,
            n == refs@.len(),
            rv == names_views(refs@),
            rv.len() == n,
            doc.components == Option::Some(*comps),
            spec_schema_info(rv, *doc) == spec_schema_info(rv.subrange(i as int, n as int), *doc),
        decreases n - i,
    {
        let seg = last_segment(refs[i].as_str());
        let found = assoc_get(&comps.schemas, seg.as_str());
        proof {
            let rest = rv.subrange(i as int, n as int);
            assert(rest[0] == rv[i as int]);
            assert(rv[i as int] == refs@[i as int]@);
            assert(rest.drop_first() =~= rv.subrange(i + 1, n as int));
        }
        if let Option::Some(s) = found {
            return Option::Some(s);
        }
        i = i + 1;
    }
    proof {
        assert(rv.subrange(n as int, n as int) =~= Seq::<Seq<char>>::empty());
    }
    Option::None
}

/// What checking one declared property against the supplied fields
/// decides: a field bound under the property's name must pass the type,
/// format (for plain string types), enumeration, pattern and bound
/// checks; an absent field passes.
pub open spec fn spec_prop_entry(
    fields: Seq<(String, Json)>,
    key: String,
    prop: Properties,
) -> Result<(), ErrV> {
    match crate::json::spec_obj_get(fields, key@) {
        Option::None => Result::Ok(()),
        Option::Some(value) => {
            let tr = spec_check_type(key@, value, prop.schema_type);
            if tr is Err {
                tr
            } else {
                let fr = if prop.schema_type matches Option::Some(TypeOrUnion::Single(
                    Type::String,
                )) {
                    spec_check_format(key@, value, prop.format)
                } else {
                    Result::Ok(())
                };
                if fr is Err {
                    fr
                } else {
                    let er = match prop.enum_values {
                        Option::Some(vs) => spec_check_enum(key@, value, vs@),
                        Option::None => Result::Ok(()),
                    };
                    if er is Err {
                        er
                    } else {
                        let pr = spec_check_pattern(key@, value, prop.pattern);
                        if pr is Err {
                            pr
                        } else {
                            spec_field_limits(key@, value, prop)
                        }
                    }
                }
            }
        },
    }
}

/// Checks one declared property against the supplied fields.
fn check_prop_entry(fields: &Vec<(String, Json)>, key: &String, prop: &Properties) -> (r: Result<
    (),
    ValidationError,
>)
    requires
        forall|i: int| 0 <= i < fields@.len() ==> (#[trigger] fields@[i]).1.wf(),
        prop.wf(),
    ensures
        res_ev(r) == spec_prop_entry(fields@, *key, *prop),
{
    let value: &Json = match crate::json::obj_get(fields, key.as_str()) {
        Option::None => {
            return Result::Ok(());
        },
        Option::Some(v) => v,
    };
    proof {
        lemma_obj_get_wf(fields@, key@);
    }
    check_type(key, value, prop.schema_type.as_ref())?;
    let is_plain_string = match &prop.schema_type {
        Option::Some(TypeOrUnion::Single(Type::String)) => true,
        _ => false,
    };
    if is_plain_string {
        check_format(key, value, prop.format.as_ref())?;
    }
    if let Option::Some(vs) = &prop.enum_values {
        check_enum(key, value, vs)?;
    }
    check_pattern(key, value, prop.pattern.as_ref())?;
    check_field_limits(key, value, prop)?;
    Result::Ok(())
}

/// A field looked up among well-formed fields is well formed.
pub proof fn lemma_obj_get_wf(fields: Seq<(String, Json)>, key: Seq<char>)
    requires
        forall|i: int| 0 <= i < fields.len() ==> (#[trigger] fields[i]).1.wf(),
    ensures
        crate::json::spec_obj_get(fields, key) matches Option::Some(v) ==> v.wf(),
    decreases fields.len(),
{
    if fields.len() > 0 && fields[0].0@ != key {
        assert(forall|i: int| 0 <= i < fields.drop_first().len() ==> (#[trigger] fields.drop_first(
        )[i]).1.wf());
        lemma_obj_get_wf(fields.drop_first(), key);
    }
}

/// What validating a property list against the fields decides, starting
/// at entry `i`: each declared property's own check, then its nested
/// properties against the same flat field map, fail-fast in declaration
/// order.
pub open spec fn spec_props_from(
    fields: Seq<(String, Json)>,
    plist: Seq<(String, Properties)>,
    i: int,
) -> Result<(), ErrV>
    decreases plist, plist.len() - i,
{
    if i < 0 || i >= plist.len() {
        Result::Ok(())
    } else {
        let er = spec_prop_entry(fields, plist[i].0, plist[i].1);
        if er is Err {
            er
        } else {
            let nested = match plist[i].1.properties {
                Option::Some(pv) => spec_props_from(fields, pv@, 0),
                Option::None => Result::Ok(()),
            };
            if nested is Err {
                nested
            } else {
                spec_props_from(fields, plist, i + 1)
            }
        }
    }
}

/// What validating an optional property list decides.
pub open spec fn spec_validate_properties(
    fields: Seq<(String, Json)>,
    props: Option<Vec<(String, Properties)>>,
) -> Result<(), ErrV> {
    match props {
        Option::None => Result::Ok(()),
        Option::Some(pv) => spec_props_from(fields, pv@, 0),
    }
}

/// Validates every declared property, and recursively the properties
/// nested under each, against the same flat field map; `Ok` exactly when
/// [`spec_validate_properties`] passes.
pub fn validate_properties(
    fields: &Vec<(String, Json)>,
    props: Option<&Vec<(String, Properties)>>,
) -> (r: Result<(), ValidationError>)
    requires
        forall|i: int| 0 <= i < fields@.len() ==> (#[trigger] fields@[i]).1.wf(),
        props matches Option::Some(pv) ==> forall|i: int|
            0 <= i < pv@.len() ==> (#[trigger] pv@[i]).1.wf(),
    ensures
        res_ev(r) == spec_validate_properties(
            fields@,
            match props {
                Option::Some(pv) => Option::Some(*pv),
                Option::None => Option::<Vec<(String, Properties)>>::None,
            },
        ),
    decreases (match props {
        Option::Some(pv) => pv@,
        Option::None => Seq::<(String, Properties)>::empty(),
    }),
{
    let plist: &Vec<(String, Properties)> = match props {
        Option::None => {
            return Result::Ok(());
        },
        Option::Some(pv) => pv,
    };
    let n = plist.len();
    let mut i: usize = 0;
    while i < n
        invariant
            0 <= i <= n,
            n == plist@.len(),
            spec_props_from(fields@, plist@, 0) == spec_props_from(fields@, plist@, i as int),
        decreases n - i,
    {
        let entry = &plist[i];
        let er = check_prop_entry(fields, &entry.0, &entry.1);
        if let Result::Err(e) = er {
            return Result::Err(e);
        }
        if let Option::Some(pv2) = &entry.1.properties {
            proof {
                assert(decreases_to!(plist@ => plist@[i as int]));
                assert(decreases_to!(*pv2 => pv2@));
            }
            let nested = validate_properties(fields, Option::Some(pv2));
            if let Result::Err(e) = nested {
                return Result::Err(e);
            }
        }
        i = i + 1;
    }
    Result::Ok(())
}

/// What resolving one reference and validating against it decides: an
/// unresolvable reference contributes nothing; a resolved component
/// schema has the fields checked against its properties (and its items'
/// properties, for array-shaped components) and contributes its
/// `required` names (and its items').
pub open spec fn spec_extract_required(
    fields: Seq<(String, Json)>,
    ref_path: Seq<char>,
    comps: ComponentsObject,
) -> Result<Seq<Seq<char>>, ErrV> {
    match spec_assoc_get(comps.schemas@, spec_last_segment(ref_path)) {
        Option::None => Result::Ok(Seq::empty()),
        Option::Some(cs) => {
            let pr = spec_validate_properties(fields, cs.properties);
            if pr is Err {
                Result::Err(pr->Err_0)
            } else {
                match cs.items {
                    Option::None => Result::Ok(
                        Seq::new(cs.required@.len(), |i: int| cs.required@[i]@),
                    ),
                    Option::Some(it) => {
                        let ir = spec_validate_properties(fields, it.properties);
                        if ir is Err {
                            Result::Err(ir->Err_0)
                        } else {
                            Result::Ok(
                                Seq::new(cs.required@.len(), |i: int| cs.required@[i]@) + Seq::new(
                                    it.required@.len(),
                                    |i: int| it.required@[i]@,
                                ),
                            )
                        }
                    },
                }
            }
        },
    }
}

/// Resolves one reference against the component registry, validates the
/// fields against the resolved schema, and returns the required names it
/// contributes.
pub fn extract_required_and_validate_props(
    fields: &Vec<(String, Json)>,
    ref_path: &str,
    comps: &ComponentsObject,
) -> (r: Result<Vec<String>, ValidationError>)
    requires
        forall|i: int| 0 <= i < fields@.len() ==> (#[trigger] fields@[i]).1.wf(),
        comps.wf(),
    ensures
        match r {
            Result::Ok(names) => spec_extract_required(fields@, ref_path@, *comps) matches
                Result::Ok(sn) && names@.len() == sn.len() && forall|i: int|
                0 <= i < names@.len() ==> (#[trigger] names@[i])@ == sn[i],
            Result::Err(e) => spec_extract_required(fields@, ref_path@, *comps) == Result::<
                Seq<Seq<char>>,
                ErrV,
            >::Err(e.ev()),
        },
{
    let seg = last_segment(ref_path);
    let cs: &ComponentSchemaBase = match assoc_get(&comps.schemas, seg.as_str()) {
        Option::None => {
            return Result::Ok(Vec::new());
        },
        Option::Some(c) => c,
    };
    proof {
        lemma_assoc_wf(comps.schemas@, seg@);
        assert(cs.wf());
    }
    if let Result::Err(e) = validate_properties(fields, cs.properties.as_ref()) {
        return Result::Err(e);
    }
    let mut names: Vec<String> = Vec::new();
    let rn = cs.required.len();
    let mut i: usize = 0;
    while i < rn
        invariant
            0 <= i <= rn,
            rn == cs.required@.len(),
            names@.len() == i,
            forall|k: int| 0 <= k < i ==> (#[trigger] names@[k])@ == cs.required@[k]@,
        decreases rn - i,
    {
        names.push(cs.required[i].clone());
        i = i + 1;
    }
    match &cs.items {
        Option::None => {
            proof {
                assert(spec_extract_required(fields@, ref_path@, *comps) matches Result::Ok(sn)
                    && names@.len() == sn.len());
            }
            Result::Ok(names)
        },
        Option::Some(it) => {
            proof {
                assert(it.wf());
            }
            if let Result::Err(e) = validate_properties(fields, it.properties.as_ref()) {
                return Result::Err(e);
            }
            let jn = it.required.len();
            let mut j: usize = 0;
            while j < jn
                invariant
                    0 <= j <= jn,
                    jn == it.required@.len(),
                    rn == cs.required@.len(),
                    names@.len() == rn + j,
                    forall|k: int| 0 <= k < rn ==> (#[trigger] names@[k])@ == cs.required@[k]@,
                    forall|k: int| rn <= k < rn + j ==> (#[trigger] names@[k])@ == it.required@[k
                        - rn]@,
                decreases jn - j,
            {
                names.push(it.required[j].clone());
                j = j + 1;
            }
            Result::Ok(names)
        },
    }
}

/// A component looked up among well-formed components is well formed.
proof fn lemma_assoc_wf(entries: Seq<(String, ComponentSchemaBase)>, key: Seq<char>)
    requires
        forall|i: int| 0 <= i < entries.len() ==> (#[trigger] entries[i]).1.wf(),
    ensures
        spec_assoc_get(entries, key) matches Option::Some(v) ==> v.wf(),
    decreases entries.len(),
{
    if entries.len() > 0 && entries[0].0@ != key {
        assert(forall|i: int| 0 <= i < entries.drop_first().len() ==> (
        #[trigger] entries.drop_first()[i]).1.wf());
        lemma_assoc_wf(entries.drop_first(), key);
    }
}

/// The character sequences of a vector of names.
pub open spec fn names_views(names: Seq<String>) -> Seq<Seq<char>> {
    Seq::new(names.len(), |i: int| names[i]@)
}

/// What the aggregated-required check decides: every collected name must
/// be present as a key among the query pairs.
pub open spec fn spec_required_fields(
    names: Seq<Seq<char>>,
    pairs: Seq<(String, String)>,
) -> Result<(), ErrV>
    decreases names.len(),
{
    if names.len() == 0 {
        Result::Ok(())
    } else if spec_assoc_get(pairs, names[0]) is None {
        Result::Err(ErrV::MissingRequiredParameter { name: names[0] })
    } else {
        spec_required_fields(names.drop_first(), pairs)
    }
}

/// Checks that every aggregated required name occurs among the query
/// pairs; `Ok` exactly when [`spec_required_fields`] passes.
pub fn validate_required_fields(names: &Vec<String>, pairs: &Vec<(String, String)>) -> (r: Result<
    (),
    ValidationError,
>)
    ensures
        res_ev(r) == spec_required_fields(names_views(names@), pairs@),
{
    let n = names.len();
    let ghost nv = names_views(names@);
    proof {
        assert(nv.subrange(0, n as int) =~= nv);
    }
    let mut i: usize = 0;
    while i < n
        invariant
            0 <= i <= n,
            n == names@.len(),
            nv == names_views(names@),
            nv.len() == n,
            spec_required_fields(nv, pairs@) == spec_required_fields(
                nv.subrange(i as int, n as int),
                pairs@,
            ),
        decreases n - i,
    {
        proof {
            let rest = nv.subrange(i as int, n as int);
            assert(rest[0] == nv[i as int]);
            assert(nv[i as int] == names@[i as int]@);
            assert(rest.drop_first() =~= nv.subrange(i + 1, n as int));
        }
        if !crate::model::assoc_has_key(pairs, names[i].as_str()) {
            return Result::Err(
                ValidationError::MissingRequiredParameter { name: names[i].clone() },
            );
        }
        i = i + 1;
    }
    proof {
        assert(nv.subrange(n as int, n as int) =~= Seq::<Seq<char>>::empty());
    }
    Result::Ok(())
}

} // verus!
