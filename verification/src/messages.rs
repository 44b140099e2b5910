//! Rendering failures as text.
//!
//! A failure renders as `<Phase> validation failed: <detail>`; a document
//! completeness failure renders as its bare detail, since no phase ran.
//! Values appear in their native lexical form: strings quoted, numbers
//! and booleans bare, `null` spelt out; an enumeration violation lists
//! every allowed member.

use vstd::prelude::*;
use vstd::string::StringExecFns;
use crate::errors::{DocFault, ErrV, Phase, ValidationError, ValidationFailure};
use crate::json::{Json, JsonV};
use crate::model::{Format, Type};
use crate::text::{render_dec, render_i64, render_u64, spec_dec_str, spec_i64_str, spec_u64_str};

verus! {

broadcast use vstd::std_specs::vec::group_vec_axioms, vstd::seq::group_seq_axioms;

/// The lexical form of a value: strings quoted, collections bracketed.
pub open spec fn spec_json_str(v: JsonV) -> Seq<char>
    decreases v, 0int,
{
    match v {
        JsonV::Null => "null"@,
        JsonV::Bool(b) => if b {
            "true"@
        } else {
            "false"@
        },
        JsonV::Int(i) => spec_i64_str(i as int),
        JsonV::Num(d) => spec_dec_str(d),
        JsonV::Str(s) => "\""@ + s + "\""@,
        JsonV::Arr(items) => "["@ + spec_json_items(items, 0) + "]"@,
        JsonV::Obj(fields) => "{"@ + spec_json_fields(fields, 0) + "}"@,
    }
}

/// The comma-separated rendering of the items from position `i` on.
pub open spec fn spec_json_items(items: Seq<JsonV>, i: int) -> Seq<char>
    decreases items, items.len() - i,
{
    if i < 0 || i >= items.len() {
        Seq::empty()
    } else {
        spec_json_str(items[i]) + (if i + 1 < items.len() {
            ", "@
        } else {
            Seq::empty()
        }) + spec_json_items(items, i + 1)
    }
}

/// The comma-separated rendering of the fields from position `i` on.
pub open spec fn spec_json_fields(fields: Seq<(Seq<char>, JsonV)>, i: int) -> Seq<char>
    decreases fields, fields.len() - i,
{
    if i < 0 || i >= fields.len() {
        Seq::empty()
    } else {
        "\""@ + fields[i].0 + "\": "@ + spec_json_str(fields[i].1) + (if i + 1 < fields.len() {
            ", "@
        } else {
            Seq::empty()
        }) + spec_json_fields(fields, i + 1)
    }
}

/// Renders a value in its lexical form.
pub fn render_json(v: &Json) -> (r: String)
    ensures
        r@ == spec_json_str(v.jv()),
    decreases *v, 0int,
{
    match v {
        Json::Null => String::from_str("null"),
        Json::Bool(b) => {
            if *b {
                String::from_str("true")
            } else {
                String::from_str("false")
            }
        },
        Json::Int(i) => render_i64(*i),
        Json::Num(d) => render_dec(d),
        Json::Str(s) => {
            let mut out = String::from_str("\"");
            out.append(s.as_str());
            out.append("\"");
            proof {
                assert(out@ =~= spec_json_str(v.jv()));
            }
            out
        },
        Json::Arr(items) => {
            let mut out = String::from_str("[");
            let inner = render_json_items(items, 0);
            out.append(inner.as_str());
            out.append("]");
            proof {
                assert(out@ =~= spec_json_str(v.jv()));
            }
            out
        },
        Json::Obj(fields) => {
            let mut out = String::from_str("{");
            let inner = render_json_fields(fields, 0);
            out.append(inner.as_str());
            out.append("}");
            proof {
                assert(out@ =~= spec_json_str(v.jv()));
            }
            out
        },
    }
}

/// Renders the items from position `i` on, comma-separated.
fn render_json_items(items: &Vec<Json>, i: usize) -> (r: String)
    ensures
        r@ == spec_json_items(Json::Arr(*items).jv()->Arr_0, i as int),
    decreases items@, items@.len() - i,
{
    let ghost mapped = Json::Arr(*items).jv()->Arr_0;
    proof {
        assert(mapped.len() == items@.len());
    }
    if i >= items.len() {
        proof {
            reveal_strlit("");
            assert(""@ =~= Seq::<char>::empty());
        }
        String::from_str("")
    } else {
        let mut out = render_json(&items[i]);
        if i + 1 < items.len() {
            out.append(", ");
        }
        let rest = render_json_items(items, i + 1);
        out.append(rest.as_str());
        proof {
            assert(mapped[i as int] == items@[i as int].jv());
            assert(out@ =~= spec_json_items(mapped, i as int));
        }
        out
    }
}

/// Renders the fields from position `i` on, comma-separated.
fn render_json_fields(fields: &Vec<(String, Json)>, i: usize) -> (r: String)
    ensures
        r@ == spec_json_fields(Json::Obj(*fields).jv()->Obj_0, i as int),
    decreases fields@, fields@.len() - i,
{
    let ghost mapped = Json::Obj(*fields).jv()->Obj_0;
    proof {
        assert(mapped.len() == fields@.len());
    }
    if i >= fields.len() {
        proof {
            reveal_strlit("");
            assert(""@ =~= Seq::<char>::empty());
        }
        String::from_str("")
    } else {
        let mut out = String::from_str("\"");
        out.append(fields[i].0.as_str());
        out.append("\": ");
        let val = render_json(&fields[i].1);
        out.append(val.as_str());
        if i + 1 < fields.len() {
            out.append(", ");
        }
        let rest = render_json_fields(fields, i + 1);
        out.append(rest.as_str());
        proof {
            assert(mapped[i as int] == (fields@[i as int].0@, fields@[i as int].1.jv()));
            assert(out@ =~= spec_json_fields(mapped, i as int));
        }
        out
    }
}

/// The word naming a type tag.
pub open spec fn spec_type_word(t: Type) -> Seq<char> {
    match t {
        Type::Object => "an Object"@,
        Type::String => "a String"@,
        Type::Integer => "an Integer"@,
        Type::Number => "a Number"@,
        Type::Array => "an Array"@,
        Type::Boolean => "a Boolean"@,
        Type::Null => "Null"@,
        Type::Binary => "a Binary string"@,
        Type::Base64 => "a Base64 string"@,
    }
}

/// Names a type tag.
fn type_word(t: Type) -> (r: &'static str)
    ensures
        r@ == spec_type_word(t),
{
    match t {
        Type::Object => "an Object",
        Type::String => "a String",
        Type::Integer => "an Integer",
        Type::Number => "a Number",
        Type::Array => "an Array",
        Type::Boolean => "a Boolean",
        Type::Null => "Null",
        Type::Binary => "a Binary string",
        Type::Base64 => "a Base64 string",
    }
}

/// The comma-separated words of the type tags from position `i` on.
pub open spec fn spec_type_words(ts: Seq<Type>, i: int) -> Seq<char>
    decreases ts.len() - i,
{
    if i < 0 || i >= ts.len() {
        Seq::empty()
    } else {
        spec_type_word(ts[i]) + (if i + 1 < ts.len() {
            ", "@
        } else {
            Seq::empty()
        }) + spec_type_words(ts, i + 1)
    }
}

/// Renders the type tags of a union, comma-separated.
fn type_words(ts: &Vec<Type>, i: usize) -> (r: String)
    ensures
        r@ == spec_type_words(ts@, i as int),
    decreases ts@.len() - i,
{
    if i >= ts.len() {
        proof {
            reveal_strlit("");
            assert(""@ =~= Seq::<char>::empty());
        }
        String::from_str("")
    } else {
        let mut out = String::from_str(type_word(ts[i]));
        if i + 1 < ts.len() {
            out.append(", ");
        }
        let rest = type_words(ts, i + 1);
        out.append(rest.as_str());
        proof {
            assert(out@ =~= spec_type_words(ts@, i as int));
        }
        out
    }
}

/// The word naming a format.
pub open spec fn spec_format_word(f: Format) -> Seq<char> {
    match f {
        Format::Email => "Email"@,
        Format::Time => "Time"@,
        Format::Date => "Date"@,
        Format::DateTime => "DateTime"@,
        Format::UUID => "UUID"@,
        Format::IPV4 => "IPv4"@,
        Format::IPV6 => "IPv6"@,
        _ => "format"@,
    }
}

/// Names a format.
fn format_word(f: Format) -> (r: &'static str)
    ensures
        r@ == spec_format_word(f),
{
    match f {
        Format::Email => "Email",
        Format::Time => "Time",
        Format::Date => "Date",
        Format::DateTime => "DateTime",
        Format::UUID => "UUID",
        Format::IPV4 => "IPv4",
        Format::IPV6 => "IPv6",
        _ => "format",
    }
}

/// The detail line of one violation.
pub open spec fn spec_error_message(e: ErrV) -> Seq<char> {
    match e {
        ErrV::SpecError(DocFault::NoOpenapiVersion) => "OpenAPI version is required"@,
        ErrV::SpecError(DocFault::NoTitle) => "Title is required"@,
        ErrV::SpecError(DocFault::NoInfoVersion) => "Version is required"@,
        ErrV::SpecError(DocFault::NoPaths) => "Paths are required"@,
        ErrV::PathNotFound => "Path not found"@,
        ErrV::MethodNotAllowed => "Method not allowed"@,
        ErrV::EmptyRequiredParameter { name } => "Required query parameter '"@ + name
            + "' cannot be empty"@,
        ErrV::MissingRequiredParameter { name } => "Required query parameter '"@ + name
            + "' is missing"@,
        ErrV::MissingRequiredField { name } => "Missing required request body field: '"@ + name
            + "'"@,
        ErrV::TypeMismatch { name, expected } => "the value of '"@ + name + "' must be "@
            + spec_type_word(expected),
        ErrV::UnionMismatch { name, expected } => "the value of '"@ + name
            + "' does not match any of the union types ["@ + spec_type_words(expected, 0) + "]"@,
        ErrV::NotAString { name } => "this value must be string '"@ + name + "'"@,
        ErrV::FormatViolation { format, name, value } => "Invalid "@ + spec_format_word(format)
            + " format for query parameter '"@ + name + "': '"@ + value + "'"@,
        ErrV::UnsupportedFormat { format, name } => "Unsupported format for query parameter '"@
            + name + "'"@,
        ErrV::PatternViolation { name, value, pattern } => "Value '"@ + value + "' for field '"@
            + name + "' does not match the required pattern '"@ + pattern + "'"@,
        ErrV::PatternCompileError { name, pattern } => "Invalid regex pattern '"@ + pattern
            + "' for field '"@ + name + "'"@,
        ErrV::EnumViolation { name, value, allowed } => "Value "@ + spec_json_str(value)
            + " for field '"@ + name + "' is not in allowed enum values: ["@ + spec_json_items(
            allowed,
            0,
        ) + "]"@,
        ErrV::StringTooShort { name, min, len } => "The length of '"@ + name
            + "' must be at least "@ + spec_u64_str(min as nat) + " characters, but got "@
            + spec_u64_str(len as nat),
        ErrV::StringTooLong { name, max, len } => "The length of '"@ + name + "' must be at most "@
            + spec_u64_str(max as nat) + " characters, but got "@ + spec_u64_str(len as nat),
        ErrV::NumberTooSmall { name, min, value } => "The value of '"@ + name + "' must be >= "@
            + spec_dec_str(min) + ", but got "@ + spec_dec_str(value),
        ErrV::NumberTooLarge { name, max, value } => "The value of '"@ + name + "' must be <= "@
            + spec_dec_str(max) + ", but got "@ + spec_dec_str(value),
        ErrV::TooFewItems { name, min, len } => "The array '"@ + name + "' must have at least "@
            + spec_u64_str(min as nat) + " items, but got "@ + spec_u64_str(len as nat),
        ErrV::TooManyItems { name, max, len } => "The array '"@ + name + "' must have at most "@
            + spec_u64_str(max as nat) + " items, but got "@ + spec_u64_str(len as nat),
        ErrV::BodyTooFewItems { min, len } => "The array must have at least "@ + spec_u64_str(
            min as nat,
        ) + " items, but got "@ + spec_u64_str(len as nat),
        ErrV::BodyTooManyItems { max, len } => "The array must have at most "@ + spec_u64_str(
            max as nat,
        ) + " items, but got "@ + spec_u64_str(len as nat),
        ErrV::BodyShapeMismatch { expected } => "Expected request body to be "@ + spec_type_word(
            expected,
        ),
        ErrV::ArrayItemNotObject { index } => "Array item at index "@ + spec_u64_str(index as nat)
            + " must be an object"@,
        ErrV::RequiredBodyMissing => "Request body is required but was not provided"@,
        ErrV::MalformedBody => "Request body is not valid JSON"@,
    }
}

impl ValidationError {
    /// Renders the detail line of this violation.
    pub fn message(&self) -> (r: String)
        ensures
            r@ == spec_error_message(self.ev()),
    {
        match self {
            ValidationError::SpecError(DocFault::NoOpenapiVersion) => String::from_str(
                "OpenAPI version is required",
            ),
            ValidationError::SpecError(DocFault::NoTitle) => String::from_str("Title is required"),
            ValidationError::SpecError(DocFault::NoInfoVersion) => String::from_str(
                "Version is required",
            ),
            ValidationError::SpecError(DocFault::NoPaths) => String::from_str("Paths are required"),
            ValidationError::PathNotFound => String::from_str("Path not found"),
            ValidationError::MethodNotAllowed => String::from_str("Method not allowed"),
            ValidationError::EmptyRequiredParameter { name } => {
                let mut out = String::from_str("Required query parameter '");
                out.append(name.as_str());
                out.append("' cannot be empty");
                proof {
                    assert(out@ =~= spec_error_message(self.ev()));
                }
                out
            },
            ValidationError::MissingRequiredParameter { name } => {
                let mut out = String::from_str("Required query parameter '");
                out.append(name.as_str());
                out.append("' is missing");
                proof {
                    assert(out@ =~= spec_error_message(self.ev()));
                }
                out
            },
            ValidationError::MissingRequiredField { name } => {
                let mut out = String::from_str("Missing required request body field: '");
                out.append(name.as_str());
                out.append("'");
                proof {
                    assert(out@ =~= spec_error_message(self.ev()));
                }
                out
            },
            ValidationError::TypeMismatch { name, expected } => {
                let mut out = String::from_str("the value of '");
                out.append(name.as_str());
                out.append("' must be ");
                out.append(type_word(*expected));
                proof {
                    assert(out@ =~= spec_error_message(self.ev()));
                }
                out
            },
            ValidationError::UnionMismatch { name, expected } => {
                let mut out = String::from_str("the value of '");
                out.append(name.as_str());
                out.append("' does not match any of the union types [");
                let words = type_words(expected, 0);
                out.append(words.as_str());
                out.append("]");
                proof {
                    assert(out@ =~= spec_error_message(self.ev()));
                }
                out
            },
            ValidationError::NotAString { name } => {
                let mut out = String::from_str("this value must be string '");
                out.append(name.as_str());
                out.append("'");
                proof {
                    assert(out@ =~= spec_error_message(self.ev()));
                }
                out
            },
            ValidationError::FormatViolation { format, name, value } => {
                let mut out = String::from_str("Invalid ");
                out.append(format_word(*format));
                out.append(" format for query parameter '");
                out.append(name.as_str());
                out.append("': '");
                out.append(value.as_str());
                out.append("'");
                proof {
                    assert(out@ =~= spec_error_message(self.ev()));
                }
                out
            },
            ValidationError::UnsupportedFormat { format: _, name } => {
                let mut out = String::from_str("Unsupported format for query parameter '");
                out.append(name.as_str());
                out.append("'");
                proof {
                    assert(out@ =~= spec_error_message(self.ev()));
                }
                out
            },
            ValidationError::PatternViolation { name, value, pattern } => {
                let mut out = String::from_str("Value '");
                out.append(value.as_str());
                out.append("' for field '");
                out.append(name.as_str());
                out.append("' does not match the required pattern '");
                out.append(pattern.as_str());
                out.append("'");
                proof {
                    assert(out@ =~= spec_error_message(self.ev()));
                }
                out
            },
            ValidationError::PatternCompileError { name, pattern } => {
                let mut out = String::from_str("Invalid regex pattern '");
                out.append(pattern.as_str());
                out.append("' for field '");
                out.append(name.as_str());
                out.append("'");
                proof {
                    assert(out@ =~= spec_error_message(self.ev()));
                }
                out
            },
            ValidationError::EnumViolation { name, value, allowed } => {
                let mut out = String::from_str("Value ");
                let vr = render_json(value);
                out.append(vr.as_str());
                out.append(" for field '");
                out.append(name.as_str());
                out.append("' is not in allowed enum values: [");
                let lr = render_json_items(allowed, 0);
                out.append(lr.as_str());
                out.append("]");
                proof {
                    assert(out@ =~= spec_error_message(self.ev()));
                }
                out
            },
            ValidationError::StringTooShort { name, min, len } => {
                let mut out = String::from_str("The length of '");
                out.append(name.as_str());
                out.append("' must be at least ");
                out.append(render_u64(*min).as_str());
                out.append(" characters, but got ");
                out.append(render_u64(*len as u64).as_str());
                proof {
                    assert(out@ =~= spec_error_message(self.ev()));
                }
                out
            },
            ValidationError::StringTooLong { name, max, len } => {
                let mut out = String::from_str("The length of '");
                out.append(name.as_str());
                out.append("' must be at most ");
                out.append(render_u64(*max).as_str());
                out.append(" characters, but got ");
                out.append(render_u64(*len as u64).as_str());
                proof {
                    assert(out@ =~= spec_error_message(self.ev()));
                }
                out
            },
            ValidationError::NumberTooSmall { name, min, value } => {
                let mut out = String::from_str("The value of '");
                out.append(name.as_str());
                out.append("' must be >= ");
                out.append(render_dec(min).as_str());
                out.append(", but got ");
                out.append(render_dec(value).as_str());
                proof {
                    assert(out@ =~= spec_error_message(self.ev()));
                }
                out
            },
            ValidationError::NumberTooLarge { name, max, value } => {
                let mut out = String::from_str("The value of '");
                out.append(name.as_str());
                out.append("' must be <= ");
                out.append(render_dec(max).as_str());
                out.append(", but got ");
                out.append(render_dec(value).as_str());
                proof {
                    assert(out@ =~= spec_error_message(self.ev()));
                }
                out
            },
            ValidationError::TooFewItems { name, min, len } => {
                let mut out = String::from_str("The array '");
                out.append(name.as_str());
                out.append("' must have at least ");
                out.append(render_u64(*min).as_str());
                out.append(" items, but got ");
                out.append(render_u64(*len as u64).as_str());
                proof {
                    assert(out@ =~= spec_error_message(self.ev()));
                }
                out
            },
            ValidationError::TooManyItems { name, max, len } => {
                let mut out = String::from_str("The array '");
                out.append(name.as_str());
                out.append("' must have at most ");
                out.append(render_u64(*max).as_str());
                out.append(" items, but got ");
                out.append(render_u64(*len as u64).as_str());
                proof {
                    assert(out@ =~= spec_error_message(self.ev()));
                }
                out
            },
            ValidationError::BodyTooFewItems { min, len } => {
                let mut out = String::from_str("The array must have at least ");
                out.append(render_u64(*min).as_str());
                out.append(" items, but got ");
                out.append(render_u64(*len as u64).as_str());
                proof {
                    assert(out@ =~= spec_error_message(self.ev()));
                }
                out
            },
            ValidationError::BodyTooManyItems { max, len } => {
                let mut out = String::from_str("The array must have at most ");
                out.append(render_u64(*max).as_str());
                out.append(" items, but got ");
                out.append(render_u64(*len as u64).as_str());
                proof {
                    assert(out@ =~= spec_error_message(self.ev()));
                }
                out
            },
            ValidationError::BodyShapeMismatch { expected } => {
                let mut out = String::from_str("Expected request body to be ");
                out.append(type_word(*expected));
                proof {
                    assert(out@ =~= spec_error_message(self.ev()));
                }
                out
            },
            ValidationError::ArrayItemNotObject { index } => {
                let mut out = String::from_str("Array item at index ");
                out.append(render_u64(*index as u64).as_str());
                out.append(" must be an object");
                proof {
                    assert(out@ =~= spec_error_message(self.ev()));
                }
                out
            },
            ValidationError::RequiredBodyMissing => String::from_str(
                "Request body is required but was not provided",
            ),
            ValidationError::MalformedBody => String::from_str("Request body is not valid JSON"),
        }
    }
}

/// The full line of one failure: the phase prefix (none for a document
/// fault), then the detail.
pub open spec fn spec_failure_message(f: (Phase, ErrV)) -> Seq<char> {
    let prefix: Seq<char> = match f.0 {
        Phase::Document => Seq::empty(),
        Phase::Method => "Method validation failed: "@,
        Phase::Path => "Path validation failed: "@,
        Phase::Query => "Query validation failed: "@,
        Phase::Body => "Body validation failed: "@,
    };
    prefix + spec_error_message(f.1)
}

impl ValidationFailure {
    /// Renders this failure as one line.
    pub fn message(&self) -> (r: String)
        ensures
            r@ == spec_failure_message(self.fv()),
    {
        let prefix: &'static str = match self.phase {
            Phase::Document => "",
            Phase::Method => "Method validation failed: ",
            Phase::Path => "Path validation failed: ",
            Phase::Query => "Query validation failed: ",
            Phase::Body => "Body validation failed: ",
        };
        proof {
            reveal_strlit("");
            assert(""@ =~= Seq::<char>::empty());
        }
        let mut out = String::from_str(prefix);
        let detail = self.error.message();
        out.append(detail.as_str());
        proof {
            assert(out@ =~= spec_failure_message(self.fv()));
        }
        out
    }
}

} // verus!
