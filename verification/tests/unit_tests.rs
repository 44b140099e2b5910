use openapi_rs::errors::{Phase, ValidationError};
use openapi_rs::formats::{check_format, is_ipv4, is_ipv6};
use openapi_rs::json::Json;
use openapi_rs::model::{
    BaseContent, BodyState, ComponentsObject, Format, In, InfoObject, OpenAPI, Parameter,
    PathBase, PathItem, Request, RequestFacts, Schema, Type, TypeOrUnion,
};
use openapi_rs::num::{dec_eq, dec_le, Dec};
use openapi_rs::observability::{LogConfig, RequestContext};
use openapi_rs::request::{last_nonempty_segment, parse_query_pairs};
use openapi_rs::enums::check_enum;
use openapi_rs::text::{parse_dec, parse_i64};
use openapi_rs::typecheck::check_type;

fn s(x: &str) -> String {
    x.to_string()
}

fn doc_with(paths: Vec<(String, PathItem)>) -> OpenAPI {
    OpenAPI {
        openapi: s("3.2.0"),
        info: InfoObject {
            title: s("Test API"),
            description: None,
            version: s("1.0.0"),
            summary: Some(s("A short summary")),
        },
        servers: vec![],
        paths,
        components: None,
        json_schema_dialect: None,
        webhooks: None,
        self_ref: None,
    }
}

fn plain_facts(template: &str, method: &str) -> RequestFacts {
    RequestFacts {
        path_template: s(template),
        method: s(method),
        query_pairs: vec![],
        last_path_segment: String::new(),
        body: BodyState::Absent,
    }
}

fn get_path_item() -> PathItem {
    PathItem {
        operations: vec![(s("get"), PathBase::default())],
        ..PathItem::default()
    }
}

#[test]
fn incomplete_document_rejected_before_request_checks() {
    let mut doc = doc_with(vec![(s("/known"), get_path_item())]);
    doc.info.title = String::new();

    // even a request to an unknown path reports the document fault
    let f = plain_facts("/unknown", "get");
    let err = doc.validator(&f).unwrap_err();
    assert!(matches!(err.phase, Phase::Document));
    assert_eq!(err.message(), "Title is required");

    let mut doc2 = doc_with(vec![]);
    doc2.openapi = String::new();
    let err2 = doc2.validator(&plain_facts("/known", "get")).unwrap_err();
    assert_eq!(err2.message(), "OpenAPI version is required");

    let doc3 = doc_with(vec![]);
    let err3 = doc3.validator(&plain_facts("/known", "get")).unwrap_err();
    assert_eq!(err3.message(), "Paths are required");

    let mut doc4 = doc_with(vec![(s("/known"), get_path_item())]);
    doc4.info.version = String::new();
    let err4 = doc4.validator(&plain_facts("/known", "get")).unwrap_err();
    assert_eq!(err4.message(), "Version is required");
}

#[test]
fn unknown_path_fails_in_method_phase() {
    let doc = doc_with(vec![(s("/known"), get_path_item())]);
    let err = doc.validator(&plain_facts("/unknown", "get")).unwrap_err();
    assert!(matches!(err.phase, Phase::Method));
    assert_eq!(err.message(), "Method validation failed: Path not found");
}

#[test]
fn unknown_method_fails_in_method_phase() {
    let doc = doc_with(vec![(s("/known"), get_path_item())]);
    let err = doc.validator(&plain_facts("/known", "delete")).unwrap_err();
    assert!(matches!(err.phase, Phase::Method));
    assert_eq!(err.message(), "Method validation failed: Method not allowed");
}

#[test]
fn method_matching_ignores_ascii_case() {
    let doc = doc_with(vec![(s("/known"), get_path_item())]);
    assert!(doc.validator(&plain_facts("/known", "GET")).is_ok());
    assert!(doc.validator(&plain_facts("/known", "Get")).is_ok());
}

#[test]
fn dedicated_query_operation_allows_query_method() {
    let pi = PathItem {
        operations: vec![(s("get"), PathBase::default())],
        query: Some(Box::new(PathBase::default())),
        ..PathItem::default()
    };
    let doc = doc_with(vec![(s("/resources"), pi)]);
    assert!(doc.validator(&plain_facts("/resources", "query")).is_ok());
    assert!(doc.validator(&plain_facts("/resources", "QUERY")).is_ok());

    let doc2 = doc_with(vec![(s("/resources"), get_path_item())]);
    assert!(doc2.validator(&plain_facts("/resources", "query")).is_err());
}

#[test]
fn validation_is_repeatable() {
    let doc = doc_with(vec![(s("/known"), get_path_item())]);
    let f = plain_facts("/unknown", "get");
    let first = doc.validator(&f).unwrap_err().message();
    let second = doc.validator(&f).unwrap_err().message();
    assert_eq!(first, second);
}

#[test]
fn uuid_format_canonical_and_rejected_forms() {
    let ok = check_format(
        &s("uuid"),
        &Json::Str(s("00000000-0000-0000-0000-000000000000")),
        Some(&Format::UUID),
    );
    assert!(ok.is_ok());
    let bad = check_format(
        &s("uuid"),
        &Json::Str(s("00000000-0000-0000-0000-00000000000x")),
        Some(&Format::UUID),
    );
    assert!(bad.is_err());
}

#[test]
fn unsupported_format_fails_closed() {
    let r = check_format(&s("link"), &Json::Str(s("https://example.com")), Some(&Format::URI));
    assert!(matches!(r, Err(ValidationError::UnsupportedFormat { .. })));
    let r2 = check_format(&s("host"), &Json::Str(s("example.com")), Some(&Format::Hostname));
    assert!(r2.is_err());
    // absence of a format always passes
    assert!(check_format(&s("free"), &Json::Str(s("anything")), None).is_ok());
}

#[test]
fn ipv4_text_forms() {
    assert!(is_ipv4("127.0.0.1"));
    assert!(is_ipv4("0.0.0.0"));
    assert!(is_ipv4("255.255.255.255"));
    assert!(!is_ipv4("256.1.1.1"));
    assert!(!is_ipv4("127.0.0.01"));
    assert!(!is_ipv4("1.2.3"));
    assert!(!is_ipv4("1.2.3.4.5"));
    assert!(!is_ipv4(""));
    assert!(!is_ipv4("a.b.c.d"));
}

#[test]
fn ipv6_text_forms() {
    assert!(is_ipv6("::"));
    assert!(is_ipv6("::1"));
    assert!(is_ipv6("1::"));
    assert!(is_ipv6("1:2:3:4:5:6:7:8"));
    assert!(is_ipv6("2001:db8::1"));
    assert!(is_ipv6("::ffff:127.0.0.1"));
    assert!(is_ipv6("1:2:3:4:5:6:1.2.3.4"));
    assert!(!is_ipv6("1:2:3:4:5:6:7:8:9"));
    assert!(!is_ipv6("1:2:3:4:5:6:7"));
    assert!(!is_ipv6(":::"));
    assert!(!is_ipv6("1::2::3"));
    assert!(!is_ipv6(":"));
    assert!(!is_ipv6("example"));
    assert!(!is_ipv6("12345::"));
}

#[test]
fn base64_type_checking() {
    let r = check_type(
        &s("data"),
        &Json::Str(s("aGVsbG8=")),
        Some(&TypeOrUnion::Single(Type::Base64)),
    );
    assert!(r.is_ok());
    let bad = check_type(
        &s("data"),
        &Json::Str(s("!!not base64!!")),
        Some(&TypeOrUnion::Single(Type::Base64)),
    );
    assert!(bad.is_err());
    let blank = check_type(
        &s("data"),
        &Json::Str(s("   ")),
        Some(&TypeOrUnion::Single(Type::Base64)),
    );
    assert!(blank.is_err());
}

#[test]
fn integer_and_number_wire_coercion() {
    let int_t = TypeOrUnion::Single(Type::Integer);
    assert!(check_type(&s("n"), &Json::Str(s("42")), Some(&int_t)).is_ok());
    assert!(check_type(&s("n"), &Json::Str(s("-7")), Some(&int_t)).is_ok());
    assert!(check_type(&s("n"), &Json::Str(s("4.5")), Some(&int_t)).is_err());
    assert!(check_type(&s("n"), &Json::Str(s("9223372036854775808")), Some(&int_t)).is_err());

    let num_t = TypeOrUnion::Single(Type::Number);
    assert!(check_type(&s("n"), &Json::Str(s("4.5")), Some(&num_t)).is_ok());
    assert!(check_type(&s("n"), &Json::Str(s("1e3")), Some(&num_t)).is_ok());
    assert!(check_type(&s("n"), &Json::Str(s("abc")), Some(&num_t)).is_err());

    let bool_t = TypeOrUnion::Single(Type::Boolean);
    assert!(check_type(&s("b"), &Json::Str(s("TRUE")), Some(&bool_t)).is_ok());
    assert!(check_type(&s("b"), &Json::Str(s("False")), Some(&bool_t)).is_ok());
    assert!(check_type(&s("b"), &Json::Str(s("maybe")), Some(&bool_t)).is_err());

    let union_t = TypeOrUnion::Union(vec![Type::Integer, Type::Null]);
    assert!(check_type(&s("u"), &Json::Int(3), Some(&union_t)).is_ok());
    assert!(check_type(&s("u"), &Json::Null, Some(&union_t)).is_ok());
    // unions match strictly: a wire string is not coerced
    assert!(check_type(&s("u"), &Json::Str(s("3")), Some(&union_t)).is_err());
}

#[test]
fn numeric_parsing_exactness() {
    assert_eq!(parse_i64("42"), Some(42));
    assert_eq!(parse_i64("-9223372036854775808"), Some(i64::MIN));
    assert_eq!(parse_i64("9223372036854775807"), Some(i64::MAX));
    assert_eq!(parse_i64("9223372036854775808"), None);
    assert_eq!(parse_i64("4.5"), None);
    assert_eq!(parse_i64(""), None);
    assert_eq!(parse_i64("+17"), Some(17));

    let d = parse_dec("2.50").unwrap();
    assert!(dec_eq(&d, &Dec { mant: 25, scale: 1 }));
    let e = parse_dec("-0.125").unwrap();
    assert!(dec_eq(&e, &Dec { mant: -125, scale: 3 }));
    assert!(parse_dec("1.").is_some());
    assert!(parse_dec(".5").is_some());
    assert!(parse_dec(".").is_none());
    assert!(dec_le(&Dec { mant: 1, scale: 0 }, &Dec { mant: 25, scale: 1 }));
    assert!(!dec_le(&Dec { mant: 26, scale: 1 }, &Dec { mant: 25, scale: 1 }));
}

#[test]
fn enum_cross_type_equality() {
    let allowed = vec![Json::Int(1), Json::Int(2), Json::Int(3)];
    assert!(check_enum(&s("p"), &Json::Int(2), &allowed).is_ok());
    assert!(check_enum(&s("p"), &Json::Str(s("2")), &allowed).is_ok());
    assert!(check_enum(&s("p"), &Json::Num(Dec { mant: 20, scale: 1 }), &allowed).is_ok());
    assert!(check_enum(&s("p"), &Json::Int(4), &allowed).is_err());

    let words = vec![Json::Str(s("active")), Json::Str(s("inactive"))];
    let err = check_enum(&s("status"), &Json::Str(s("unknown")), &words).unwrap_err();
    let msg = err.message();
    assert!(msg.contains("not in allowed enum values"));
    assert!(msg.contains("\"active\", \"inactive\""));

    let decs = vec![Json::Num(Dec { mant: 25, scale: 1 })];
    let msg2 = check_enum(&s("x"), &Json::Int(9), &decs).unwrap_err().message();
    assert!(msg2.contains("2.5"));

    // a number equals the string spelling it
    assert!(check_enum(&s("n"), &Json::Int(7), &vec![Json::Str(s("7"))]).is_ok());
    assert!(
        check_enum(&s("n"), &Json::Num(Dec { mant: 25, scale: 1 }), &vec![Json::Str(s("2.5"))])
            .is_ok()
    );
    assert!(check_enum(&s("b"), &Json::Bool(true), &vec![Json::Str(s("TRUE"))]).is_ok());
}

#[test]
fn required_body_handling() {
    let pi = PathItem {
        operations: vec![(
            s("post"),
            PathBase {
                request: Some(Request {
                    required: true,
                    content: vec![(
                        s("application/json"),
                        BaseContent { schema: Schema::default() },
                    )],
                }),
                ..PathBase::default()
            },
        )],
        ..PathItem::default()
    };
    let doc = doc_with(vec![(s("/items"), pi)]);

    let mut f = plain_facts("/items", "post");
    let err = doc.validator(&f).unwrap_err();
    assert!(matches!(err.phase, Phase::Body));
    assert_eq!(err.message(), "Body validation failed: Request body is required but was not provided");

    f.body = BodyState::Malformed;
    let err2 = doc.validator(&f).unwrap_err();
    assert_eq!(err2.message(), "Body validation failed: Request body is not valid JSON");

    f.body = BodyState::Present(Json::Null);
    assert!(doc.validator(&f).is_err());

    f.body = BodyState::Present(Json::Obj(vec![(s("x"), Json::Int(1))]));
    assert!(doc.validator(&f).is_ok());
}

#[test]
fn request_fact_helpers() {
    let pairs = parse_query_pairs("a=b&c=d&lonely&x=1=2");
    assert_eq!(pairs.len(), 3);
    assert_eq!(pairs[0], (s("a"), s("b")));
    assert_eq!(pairs[1], (s("c"), s("d")));
    assert_eq!(pairs[2], (s("x"), s("1")));
    assert!(parse_query_pairs("").is_empty());

    assert_eq!(last_nonempty_segment("/a/b/c"), Some(s("c")));
    assert_eq!(last_nonempty_segment("/a/b/"), Some(s("b")));
    assert_eq!(last_nonempty_segment("/"), None);
    assert_eq!(last_nonempty_segment(""), None);
    assert_eq!(last_nonempty_segment("plain"), Some(s("plain")));
}

#[test]
fn version_predicates_are_prefix_tests() {
    let doc31 = OpenAPI { openapi: s("3.1.0"), ..doc_with(vec![]) };
    assert!(doc31.is_31());
    assert!(!doc31.is_32());
    let doc32 = OpenAPI { openapi: s("3.2.0"), ..doc_with(vec![]) };
    assert!(doc32.is_32());
    assert!(!doc32.is_31());
}

#[test]
fn empty_required_parameter_is_rejected() {
    let pi = PathItem {
        operations: vec![(
            s("get"),
            PathBase {
                parameters: Some(vec![Parameter {
                    name: Some(s("q")),
                    location: Some(In::Query),
                    required: true,
                    ..Parameter::default()
                }]),
                ..PathBase::default()
            },
        )],
        ..PathItem::default()
    };
    let doc = doc_with(vec![(s("/search"), pi)]);
    let mut f = plain_facts("/search", "get");
    f.query_pairs = vec![(s("q"), s("  "))];
    let err = doc.validator(&f).unwrap_err();
    assert!(err.message().contains("cannot be empty"));

    f.query_pairs = vec![];
    let err2 = doc.validator(&f).unwrap_err();
    assert!(err2.message().contains("is missing"));

    f.query_pairs = vec![(s("q"), s("term"))];
    assert!(doc.validator(&f).is_ok());
}

#[test]
fn string_length_bounds_in_characters() {
    let pi = PathItem {
        operations: vec![(
            s("get"),
            PathBase {
                parameters: Some(vec![Parameter {
                    name: Some(s("name")),
                    location: Some(In::Query),
                    schema: Some(Box::new(Schema {
                        min_length: Some(1),
                        max_length: Some(7),
                        ..Schema::default()
                    })),
                    ..Parameter::default()
                }]),
                ..PathBase::default()
            },
        )],
        ..PathItem::default()
    };
    let doc = doc_with(vec![(s("/named"), pi)]);
    let mut f = plain_facts("/named", "get");

    f.query_pairs = vec![(s("name"), s("example"))];
    assert!(doc.validator(&f).is_ok());

    f.query_pairs = vec![(s("name"), s("example-100"))];
    let err = doc.validator(&f).unwrap_err();
    assert!(err.message().contains("must be at most 7 characters, but got 11"));
}

#[test]
fn log_config_builders() {
    let c = LogConfig::new()
        .with_level("debug")
        .with_log_file("logs/app.log")
        .with_console_output(false)
        .with_timestamp(false)
        .with_target(true)
        .with_thread(true);
    assert_eq!(c.level, "debug");
    assert_eq!(c.log_file.as_deref(), Some("logs/app.log"));
    assert!(!c.console_output);
    assert!(!c.show_timestamp);
    assert!(c.show_target);
    assert!(c.show_thread);

    let d = LogConfig::default();
    assert_eq!(d.level, "info");
    assert!(d.log_file.is_none());
    assert!(d.console_output);

    let ctx = RequestContext::new(s("get"), s("/example"));
    assert_eq!(ctx.method, "get");
    assert_eq!(ctx.path, "/example");
}
