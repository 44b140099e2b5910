//! The typed OpenAPI document model.
//!
//! A document is built once, from spec text parsed outside the library, and
//! is read-only afterwards. Mappings are held as association vectors keyed
//! by strings, first binding winning on lookup; numeric schema bounds are
//! exact decimals. The model is a superset of OpenAPI 3.0: the 3.1 fields
//! (`webhooks`, `jsonSchemaDialect`) and 3.2 fields (`$self`,
//! `info.summary`, the `querystring` parameter location and the dedicated
//! `query` operation) default to absent on older documents.

use vstd::prelude::*;
use crate::json::Json;
use crate::num::Dec;
use crate::text::{str_eq, str_starts_with};

verus! {

broadcast use vstd::std_specs::vec::group_vec_axioms, vstd::seq::group_seq_axioms;

/// One of the primitive shapes a schema may demand of a value.
#[derive(Clone, Copy, Debug, PartialEq, Eq, Hash, Structural)]
pub enum Type {
    Object,
    String,
    Integer,
    Number,
    Array,
    Boolean,
    Null,
    Binary,
    Base64,
}

/// A declared type: one tag, or a union of tags of which a value must
/// match at least one.
#[derive(Debug)]
pub enum TypeOrUnion {
    Single(Type),
    Union(Vec<Type>),
}

/// Where a parameter value is carried. `Querystring` is the 3.2 location
/// for a structured, JSON-encoded query value.
#[derive(Clone, Copy, Debug, PartialEq, Eq, Hash, Structural)]
pub enum In {
    Query,
    Header,
    Path,
    Cookie,
    Querystring,
}

/// A semantic refinement of a string type. Only a subset has a checker;
/// the rest parse into the model and are rejected when demanded of a value.
#[derive(Clone, Copy, Debug, PartialEq, Eq, Hash, Structural)]
pub enum Format {
    URI,
    URIReference,
    Regex,
    Email,
    Time,
    Date,
    DateTime,
    UUID,
    Hostname,
    IPV4,
    IPV6,
    Password,
    JsonPointer,
    Binary,
    ExternalIP,
    Int32,
    Int64,
    Svg,
    Url,
    Unknown,
}

/// Which combinator a composite schema used.
#[derive(Clone, Copy, Debug, PartialEq, Eq, Hash, Structural)]
pub enum SchemaOption {
    OneOf,
    AllOf,
}

/// A security scheme entry; informational only.
#[derive(Debug)]
pub struct SecurityRequirementObject {
    pub _type: String,
    pub scheme: Option<String>,
    pub description: Option<String>,
}

/// The `info` block of a document. `summary` is meaningful from 3.2.
#[derive(Debug)]
pub struct InfoObject {
    pub title: String,
    pub description: Option<String>,
    pub version: String,
    pub summary: Option<String>,
}

/// A server entry; informational, unused by validation.
#[derive(Debug)]
pub struct ServerObject {
    pub url: String,
    pub description: Option<String>,
}

/// A parsed OpenAPI document.
#[derive(Debug)]
pub struct OpenAPI {
    pub openapi: String,
    pub info: InfoObject,
    pub servers: Vec<ServerObject>,
    pub paths: Vec<(String, PathItem)>,
    pub components: Option<ComponentsObject>,
    pub json_schema_dialect: Option<String>,
    pub webhooks: Option<Vec<(String, PathItem)>>,
    pub self_ref: Option<String>,
}

/// Everything declared on one path template: one operation per HTTP
/// method, path-level parameters that apply to every method, and (3.2) an
/// optional dedicated `QUERY` operation.
#[derive(Debug)]
pub struct PathItem {
    pub parameters: Option<Vec<Parameter>>,
    pub operations: Vec<(String, PathBase)>,
    pub servers: Vec<ServerObject>,
    pub query: Option<Box<PathBase>>,
}

/// One HTTP method on one path.
#[derive(Debug)]
pub struct PathBase {
    pub summary: Option<String>,
    pub description: Option<String>,
    pub operation_id: Option<String>,
    pub parameters: Option<Vec<Parameter>>,
    pub request: Option<Request>,
    pub servers: Vec<ServerObject>,
}

/// One declared input value.
#[derive(Debug)]
pub struct Parameter {
    pub ref_path: Option<String>,
    pub name: Option<String>,
    pub location: Option<In>,
    pub required: bool,
    pub description: Option<String>,
    pub example: Option<Json>,
    pub schema_type: Option<TypeOrUnion>,
    pub enum_values: Option<Vec<Json>>,
    pub pattern: Option<String>,
    pub schema: Option<Box<Schema>>,
}

/// The shape demanded of a value.
#[derive(Debug)]
pub struct Schema {
    pub schema_type: Option<TypeOrUnion>,
    pub format: Option<Format>,
    pub title: Option<String>,
    pub description: Option<String>,
    pub enum_values: Option<Vec<Json>>,
    pub pattern: Option<String>,
    pub properties: Option<Vec<(String, Properties)>>,
    pub example: Option<Json>,
    pub examples: Option<Vec<String>>,
    pub ref_path: Option<String>,
    pub all_of: Option<Vec<ComponentProperties>>,
    pub one_of: Option<Vec<ComponentProperties>>,
    pub items: Option<Box<Schema>>,
    pub required: Vec<String>,
    pub min_items: Option<u64>,
    pub max_items: Option<u64>,
    pub min_length: Option<u64>,
    pub max_length: Option<u64>,
    pub minimum: Option<Dec>,
    pub maximum: Option<Dec>,
}

/// One media type of a request body.
#[derive(Debug)]
pub struct BaseContent {
    pub schema: Schema,
}

/// A declared request body: its media types and whether a body is
/// required at all.
#[derive(Debug)]
pub struct Request {
    pub required: bool,
    pub content: Vec<(String, BaseContent)>,
}

/// A reusable component schema.
#[derive(Debug)]
pub struct ComponentSchemaBase {
    pub title: Option<String>,
    pub description: Option<String>,
    pub schema_type: Option<TypeOrUnion>,
    pub items: Option<Box<ComponentSchemaBase>>,
    pub properties: Option<Vec<(String, Properties)>>,
    pub required: Vec<String>,
    pub all_of: Option<Vec<ComponentProperties>>,
    pub one_of: Option<Vec<ComponentProperties>>,
    pub min_items: Option<u64>,
    pub max_items: Option<u64>,
}

/// One branch of a `oneOf`/`allOf` list.
#[derive(Debug)]
pub struct ComponentProperties {
    pub schema_type: Option<TypeOrUnion>,
    pub description: Option<String>,
    pub properties: Vec<(String, Properties)>,
    pub ref_path: Option<String>,
}

/// A property schema inside a component definition.
#[derive(Debug)]
pub struct Properties {
    pub schema_type: Option<TypeOrUnion>,
    pub description: Option<String>,
    pub format: Option<Format>,
    pub example: Option<Json>,
    pub pattern: Option<String>,
    pub min_length: Option<u64>,
    pub max_length: Option<u64>,
    pub min_items: Option<u64>,
    pub max_items: Option<u64>,
    pub minimum: Option<Dec>,
    pub maximum: Option<Dec>,
    pub items: Option<Box<Properties>>,
    pub properties: Option<Vec<(String, Properties)>>,
    pub required: Vec<String>,
    pub enum_values: Option<Vec<Json>>,
}

/// The registries of reusable components, each keyed by name.
#[derive(Debug)]
pub struct ComponentsObject {
    pub schemas: Vec<(String, ComponentSchemaBase)>,
    pub parameters: Vec<(String, Parameter)>,
    pub request_bodies: Vec<(String, Request)>,
}

/// The body a request carried, as the adapter hands it over: absent,
/// present but not valid JSON, or parsed.
#[derive(Debug)]
pub enum BodyState {
    Absent,
    Malformed,
    Present(Json),
}

/// The neutral bundle of facts about one request that the pipeline
/// consumes; framework adapters produce it.
#[derive(Debug)]
pub struct RequestFacts {
    pub path_template: String,
    pub method: String,
    pub query_pairs: Vec<(String, String)>,
    pub last_path_segment: String,
    pub body: BodyState,
}

impl Default for Schema {
    /// A schema with nothing declared; such a schema passes every value.
    fn default() -> (r: Self)
        ensures
            r.schema_type is None,
            r.format is None,
            r.title is None,
            r.description is None,
            r.enum_values is None,
            r.pattern is None,
            r.properties is None,
            r.example is None,
            r.examples is None,
            r.ref_path is None,
            r.all_of is None,
            r.one_of is None,
            r.items is None,
            r.required@.len() == 0,
            r.min_items is None,
            r.max_items is None,
            r.min_length is None,
            r.max_length is None,
            r.minimum is None,
            r.maximum is None,
    {
        Schema {
            schema_type: Option::None,
            format: Option::None,
            title: Option::None,
            description: Option::None,
            enum_values: Option::None,
            pattern: Option::None,
            properties: Option::None,
            example: Option::None,
            examples: Option::None,
            ref_path: Option::None,
            all_of: Option::None,
            one_of: Option::None,
            items: Option::None,
            required: Vec::new(),
            min_items: Option::None,
            max_items: Option::None,
            min_length: Option::None,
            max_length: Option::None,
            minimum: Option::None,
            maximum: Option::None,
        }
    }
}

impl Default for Parameter {
    /// A parameter with nothing declared.
    fn default() -> (r: Self)
        ensures
            r.ref_path is None,
            r.name is None,
            r.location is None,
            !r.required,
            r.description is None,
            r.example is None,
            r.schema_type is None,
            r.enum_values is None,
            r.pattern is None,
            r.schema is None,
    {
        Parameter {
            ref_path: Option::None,
            name: Option::None,
            location: Option::None,
            required: false,
            description: Option::None,
            example: Option::None,
            schema_type: Option::None,
            enum_values: Option::None,
            pattern: Option::None,
            schema: Option::None,
        }
    }
}

impl Default for Properties {
    /// A property schema with nothing declared.
    fn default() -> (r: Self)
        ensures
            r.schema_type is None,
            r.description is None,
            r.format is None,
            r.example is None,
            r.pattern is None,
            r.min_length is None,
            r.max_length is None,
            r.min_items is None,
            r.max_items is None,
            r.minimum is None,
            r.maximum is None,
            r.items is None,
            r.properties is None,
            r.required@.len() == 0,
            r.enum_values is None,
    {
        Properties {
            schema_type: Option::None,
            description: Option::None,
            format: Option::None,
            example: Option::None,
            pattern: Option::None,
            min_length: Option::None,
            max_length: Option::None,
            min_items: Option::None,
            max_items: Option::None,
            minimum: Option::None,
            maximum: Option::None,
            items: Option::None,
            properties: Option::None,
            required: Vec::new(),
            enum_values: Option::None,
        }
    }
}

impl Default for ComponentSchemaBase {
    /// A component schema with nothing declared.
    fn default() -> (r: Self)
        ensures
            r.title is None,
            r.description is None,
            r.schema_type is None,
            r.items is None,
            r.properties is None,
            r.required@.len() == 0,
            r.all_of is None,
            r.one_of is None,
            r.min_items is None,
            r.max_items is None,
    {
        ComponentSchemaBase {
            title: Option::None,
            description: Option::None,
            schema_type: Option::None,
            items: Option::None,
            properties: Option::None,
            required: Vec::new(),
            all_of: Option::None,
            one_of: Option::None,
            min_items: Option::None,
            max_items: Option::None,
        }
    }
}

impl Default for PathBase {
    /// An operation with nothing declared.
    fn default() -> (r: Self)
        ensures
            r.summary is None,
            r.description is None,
            r.operation_id is None,
            r.parameters is None,
            r.request is None,
            r.servers@.len() == 0,
    {
        PathBase {
            summary: Option::None,
            description: Option::None,
            operation_id: Option::None,
            parameters: Option::None,
            request: Option::None,
            servers: Vec::new(),
        }
    }
}

impl Default for PathItem {
    /// A path item with nothing declared.
    fn default() -> (r: Self)
        ensures
            r.parameters is None,
            r.operations@.len() == 0,
            r.servers@.len() == 0,
            r.query is None,
    {
        PathItem {
            parameters: Option::None,
            operations: Vec::new(),
            servers: Vec::new(),
            query: Option::None,
        }
    }
}

impl Default for ComponentsObject {
    /// An empty component registry.
    fn default() -> (r: Self)
        ensures
            r.schemas@.len() == 0,
            r.parameters@.len() == 0,
            r.request_bodies@.len() == 0,
    {
        ComponentsObject { schemas: Vec::new(), parameters: Vec::new(), request_bodies: Vec::new() }
    }
}

/// The value bound to `key` in an association vector, first binding wins.
pub open spec fn spec_assoc_get<T>(entries: Seq<(String, T)>, key: Seq<char>) -> Option<T>
    decreases entries.len(),
{
    if entries.len() == 0 {
        Option::None
    } else if entries[0].0@ == key {
        Option::Some(entries[0].1)
    } else {
        spec_assoc_get(entries.drop_first(), key)
    }
}

proof fn lemma_assoc_get_skip<T>(entries: Seq<(String, T)>, key: Seq<char>, i: int)
    requires
        0 <= i <= entries.len(),
        forall|k: int| 0 <= k < i ==> (#[trigger] entries[k]).0@ != key,
    ensures
        spec_assoc_get(entries, key) == spec_assoc_get(
            entries.subrange(i, entries.len() as int),
            key,
        ),
    decreases i,
{
    if i > 0 {
        lemma_assoc_get_skip(entries, key, i - 1);
        let rest = entries.subrange(i - 1, entries.len() as int);
        assert(rest[0] == entries[i - 1]);
        assert(rest.drop_first() =~= entries.subrange(i, entries.len() as int));
    } else {
        assert(entries.subrange(0, entries.len() as int) =~= entries);
    }
}

/// Looks `key` up in an association vector.
pub fn assoc_get<'a, T>(entries: &'a Vec<(String, T)>, key: &str) -> (r: Option<&'a T>)
    ensures
        match r {
            Option::Some(t) => spec_assoc_get(entries@, key@) == Option::Some(*t),
            Option::None => spec_assoc_get(entries@, key@) is None,
        },
{
    let n = entries.len();
    let mut i: usize = 0;
    while i < n
        invariant
            0 <= i <= n,
            n == entries@.len(),
            forall|k: int| 0 <= k < i ==> (#[trigger] entries@[k]).0@ != key@,
        decreases n - i,
    {
        let pair = &entries[i];
        if str_eq(pair.0.as_str(), key) {
            proof {
                lemma_assoc_get_skip(entries@, key@, i as int);
                let rest = entries@.subrange(i as int, entries@.len() as int);
                assert(rest[0] == entries@[i as int]);
            }
            return Option::Some(&entries[i].1);
        }
        i = i + 1;
    }
    proof {
        lemma_assoc_get_skip(entries@, key@, n as int);
    }
    Option::None
}

/// Whether `key` is bound in an association vector.
pub fn assoc_has_key<T>(entries: &Vec<(String, T)>, key: &str) -> (r: bool)
    ensures
        r == (spec_assoc_get(entries@, key@) is Some),
{
    match assoc_get(entries, key) {
        Option::Some(_) => true,
        Option::None => false,
    }
}

impl OpenAPI {
    /// Whether this document declares itself as OpenAPI 3.1.
    pub open spec fn spec_is_31(self) -> bool {
        seq!['3', '.', '1'].is_prefix_of(self.openapi@)
    }

    /// Whether this document declares itself as OpenAPI 3.2.
    pub open spec fn spec_is_32(self) -> bool {
        seq!['3', '.', '2'].is_prefix_of(self.openapi@)
    }

    /// Version predicate: a string-prefix test, not a semantic comparison.
    pub fn is_31(&self) -> (r: bool)
        ensures
            r == self.spec_is_31(),
    {
        proof {
            reveal_strlit("3.1");
            assert("3.1"@ =~= seq!['3', '.', '1']);
        }
        str_starts_with(self.openapi.as_str(), "3.1")
    }

    /// Version predicate: a string-prefix test, not a semantic comparison.
    pub fn is_32(&self) -> (r: bool)
        ensures
            r == self.spec_is_32(),
    {
        proof {
            reveal_strlit("3.2");
            assert("3.2"@ =~= seq!['3', '.', '2']);
        }
        str_starts_with(self.openapi.as_str(), "3.2")
    }
}

impl Properties {
    /// Every decimal bound and enumeration member held in this property
    /// schema, or in one nested below it, is well formed.
    pub open spec fn wf(self) -> bool
        decreases self,
    {
        &&& (self.minimum matches Option::Some(d) ==> d.wf())
        &&& (self.maximum matches Option::Some(d) ==> d.wf())
        &&& (self.enum_values matches Option::Some(vs) ==> forall|i: int|
            0 <= i < vs@.len() ==> (#[trigger] vs@[i]).wf())
        &&& (self.items matches Option::Some(b) ==> b.wf())
        &&& (self.properties matches Option::Some(ps) ==> forall|i: int|
            0 <= i < ps@.len() ==> (#[trigger] ps@[i]).1.wf())
    }
}

impl Schema {
    /// Every decimal bound and enumeration member held in this schema, or
    /// in one nested below it, is well formed.
    pub open spec fn wf(self) -> bool
        decreases self,
    {
        &&& (self.minimum matches Option::Some(d) ==> d.wf())
        &&& (self.maximum matches Option::Some(d) ==> d.wf())
        &&& (self.enum_values matches Option::Some(vs) ==> forall|i: int|
            0 <= i < vs@.len() ==> (#[trigger] vs@[i]).wf())
        &&& (self.items matches Option::Some(b) ==> b.wf())
        &&& (self.properties matches Option::Some(ps) ==> forall|i: int|
            0 <= i < ps@.len() ==> (#[trigger] ps@[i]).1.wf())
    }
}

impl Parameter {
    /// Decimals and enumeration members under this parameter are well
    /// formed.
    pub open spec fn wf(self) -> bool {
        &&& (self.enum_values matches Option::Some(vs) ==> forall|i: int|
            0 <= i < vs@.len() ==> (#[trigger] vs@[i]).wf())
        &&& (self.schema matches Option::Some(s) ==> s.wf())
    }
}

impl ComponentSchemaBase {
    /// Decimals and enumeration members under this component schema are
    /// well formed.
    pub open spec fn wf(self) -> bool
        decreases self,
    {
        &&& (self.items matches Option::Some(b) ==> b.wf())
        &&& (self.properties matches Option::Some(ps) ==> forall|i: int|
            0 <= i < ps@.len() ==> (#[trigger] ps@[i]).1.wf())
    }
}

impl Request {
    /// Decimals and enumeration members under this request body are well
    /// formed.
    pub open spec fn wf(self) -> bool {
        forall|i: int| 0 <= i < self.content@.len() ==> (#[trigger] self.content@[i]).1.schema.wf()
    }
}

impl PathBase {
    /// Decimals and enumeration members under this operation are well
    /// formed.
    pub open spec fn wf(self) -> bool {
        &&& (self.parameters matches Option::Some(ps) ==> forall|i: int|
            0 <= i < ps@.len() ==> (#[trigger] ps@[i]).wf())
        &&& (self.request matches Option::Some(r) ==> r.wf())
    }
}

impl PathItem {
    /// Decimals and enumeration members under this path item are well
    /// formed.
    pub open spec fn wf(self) -> bool {
        &&& (self.parameters matches Option::Some(ps) ==> forall|i: int|
            0 <= i < ps@.len() ==> (#[trigger] ps@[i]).wf())
        &&& (forall|i: int| 0 <= i < self.operations@.len() ==> (
        #[trigger] self.operations@[i]).1.wf())
        &&& (self.query matches Option::Some(q) ==> q.wf())
    }
}

impl ComponentsObject {
    /// Decimals and enumeration members under every registered component
    /// are well formed.
    pub open spec fn wf(self) -> bool {
        &&& (forall|i: int| 0 <= i < self.schemas@.len() ==> (#[trigger] self.schemas@[i]).1.wf())
        &&& (forall|i: int| 0 <= i < self.parameters@.len() ==> (
        #[trigger] self.parameters@[i]).1.wf())
        &&& (forall|i: int| 0 <= i < self.request_bodies@.len() ==> (
        #[trigger] self.request_bodies@[i]).1.wf())
    }
}

impl OpenAPI {
    /// Every decimal bound and enumeration member anywhere in the document
    /// is well formed; holds of any document whose numbers fit 18 decimal
    /// places, and is established by the conversion that builds the model.
    pub open spec fn wf(self) -> bool {
        &&& (forall|i: int| 0 <= i < self.paths@.len() ==> (#[trigger] self.paths@[i]).1.wf())
        &&& (self.components matches Option::Some(c) ==> c.wf())
    }
}

impl RequestFacts {
    /// Every decimal in the carried body is well formed.
    pub open spec fn wf(self) -> bool {
        self.body matches BodyState::Present(j) ==> j.wf()
    }
}

} // verus!
