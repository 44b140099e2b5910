use openapi_rs::errors::ValidationFailure;
use openapi_rs::json::Json;
use openapi_rs::model::{
    BodyState, ComponentSchemaBase, ComponentsObject, Format, In, InfoObject, OpenAPI, Parameter,
    PathBase, PathItem, Properties, Request, RequestFacts, BaseContent, Schema, Type, TypeOrUnion,
};
use openapi_rs::num::Dec;

fn s(x: &str) -> String {
    x.to_string()
}

fn dec_from_f64(f: f64) -> Dec {
    let text = format!("{}", f);
    let neg = text.starts_with('-');
    let t = text.trim_start_matches('-');
    let (ip, fp) = match t.split_once('.') {
        Some((a, b)) => (a, b),
        None => (t, ""),
    };
    let fp = fp.trim_end_matches('0');
    let mant: i64 = format!("{}{}", ip, fp).parse().unwrap();
    Dec { mant: if neg { -mant } else { mant }, scale: fp.len() as u32 }
}

fn json_of(v: &serde_json::Value) -> Json {
    match v {
        serde_json::Value::Null => Json::Null,
        serde_json::Value::Bool(b) => Json::Bool(*b),
        serde_json::Value::Number(n) => {
            if let Some(i) = n.as_i64() {
                Json::Int(i)
            } else {
                Json::Num(dec_from_f64(n.as_f64().unwrap()))
            }
        }
        serde_json::Value::String(t) => Json::Str(t.clone()),
        serde_json::Value::Array(a) => Json::Arr(a.iter().map(json_of).collect()),
        serde_json::Value::Object(o) => {
            Json::Obj(o.iter().map(|(k, x)| (k.clone(), json_of(x))).collect())
        }
    }
}

fn body_of(text: &str) -> BodyState {
    match serde_json::from_str::<serde_json::Value>(text) {
        Ok(v) => BodyState::Present(json_of(&v)),
        Err(_) => BodyState::Malformed,
    }
}

fn facts(template: &str, method: &str, uri: &str, body: BodyState) -> RequestFacts {
    let (path_part, query_part) = match uri.split_once('?') {
        Some((a, b)) => (a, b),
        None => (uri, ""),
    };
    let seg = openapi_rs::request::last_nonempty_segment(path_part).unwrap_or_else(String::new);
    RequestFacts {
        path_template: s(template),
        method: s(method),
        query_pairs: openapi_rs::request::parse_query_pairs(query_part),
        last_path_segment: seg,
        body,
    }
}

fn base_doc(paths: Vec<(String, PathItem)>, components: Option<ComponentsObject>) -> OpenAPI {
    OpenAPI {
        openapi: s("3.1.0"),
        info: InfoObject {
            title: s("Example API"),
            description: Some(s("API definitions for example")),
            version: s("0.0.1"),
            summary: None,
        },
        servers: vec![],
        paths,
        components,
        json_schema_dialect: None,
        webhooks: None,
        self_ref: None,
    }
}

fn uuid_string_prop() -> Properties {
    Properties {
        schema_type: Some(TypeOrUnion::Single(Type::String)),
        format: Some(Format::UUID),
        description: Some(s("The UUID for this example.")),
        ..Properties::default()
    }
}

fn run(doc: &OpenAPI, f: &RequestFacts) -> Result<(), ValidationFailure> {
    doc.validator(f)
}

#[test]
fn test_uuid_path_validation() {
    let doc = base_doc(
        vec![(
            s("/example/{uuid}"),
            PathItem {
                operations: vec![(
                    s("get"),
                    PathBase {
                        parameters: Some(vec![Parameter {
                            name: Some(s("uuid")),
                            description: Some(s("The UUID for this example.")),
                            location: Some(In::Path),
                            schema: Some(Box::new(Schema {
                                schema_type: Some(TypeOrUnion::Single(Type::String)),
                                format: Some(Format::UUID),
                                ..Schema::default()
                            })),
                            ..Parameter::default()
                        }]),
                        ..PathBase::default()
                    },
                )],
                ..PathItem::default()
            },
        )],
        Some(ComponentsObject {
            schemas: vec![(
                s("ExampleResponse"),
                ComponentSchemaBase {
                    properties: Some(vec![(s("uuid"), uuid_string_prop())]),
                    ..ComponentSchemaBase::default()
                },
            )],
            ..ComponentsObject::default()
        }),
    );

    let make_request = |uri: &str| facts("/example/{uuid}", "get", uri, BodyState::Absent);

    assert!(
        run(&doc, &make_request("/example/00000000-0000-0000-0000-000000000000")).is_ok(),
        "Valid UUID should pass validation"
    );
    assert!(
        run(&doc, &make_request("/example/00000000")).is_err(),
        "Invalid UUID should fail validation"
    );
}

fn uuid_query_doc(required: bool, with_name_and_age: bool) -> OpenAPI {
    let mut params = vec![Parameter {
        name: Some(s("uuid")),
        description: Some(s("UUID of the example")),
        location: Some(In::Query),
        required,
        schema: Some(Box::new(Schema {
            schema_type: Some(TypeOrUnion::Single(Type::String)),
            format: Some(Format::UUID),
            ..Schema::default()
        })),
        ..Parameter::default()
    }];
    if with_name_and_age {
        params.push(Parameter {
            name: Some(s("name")),
            location: Some(In::Query),
            required: true,
            schema: Some(Box::new(Schema {
                schema_type: Some(TypeOrUnion::Single(Type::String)),
                ..Schema::default()
            })),
            ..Parameter::default()
        });
        params.push(Parameter {
            name: Some(s("age")),
            location: Some(In::Query),
            required: false,
            schema: Some(Box::new(Schema {
                schema_type: Some(TypeOrUnion::Single(Type::Integer)),
                ..Schema::default()
            })),
            ..Parameter::default()
        });
    }
    base_doc(
        vec![(
            s("/example"),
            PathItem {
                operations: vec![(
                    s("get"),
                    PathBase {
                        summary: Some(s("Get a example")),
                        operation_id: Some(s("get-a-example")),
                        parameters: Some(params),
                        ..PathBase::default()
                    },
                )],
                ..PathItem::default()
            },
        )],
        Some(ComponentsObject {
            schemas: vec![(
                s("ExampleResponse"),
                ComponentSchemaBase {
                    properties: Some(vec![(s("uuid"), uuid_string_prop())]),
                    ..ComponentSchemaBase::default()
                },
            )],
            ..ComponentsObject::default()
        }),
    )
}

#[test]
fn test_uuid_query_validation() {
    let doc = uuid_query_doc(false, false);
    let make_request =
        |uuid: &str| facts("/example", "get", &format!("/example?uuid={}", uuid), BodyState::Absent);

    assert!(run(&doc, &make_request("00000000-0000-0000-0000-000000000000")).is_ok());
    assert!(run(&doc, &make_request("00000000-0000-0000-0000-xxxx")).is_err());
}

fn uuid_body_doc() -> OpenAPI {
    base_doc(
        vec![(
            s("/example"),
            PathItem {
                operations: vec![(
                    s("post"),
                    PathBase {
                        request: Some(Request {
                            required: false,
                            content: vec![(
                                s("application/json"),
                                BaseContent {
                                    schema: Schema {
                                        ref_path: Some(s("#/components/schemas/ExampleRequest")),
                                        ..Schema::default()
                                    },
                                },
                            )],
                        }),
                        ..PathBase::default()
                    },
                )],
                ..PathItem::default()
            },
        )],
        Some(ComponentsObject {
            schemas: vec![
                (
                    s("ExampleRequest"),
                    ComponentSchemaBase {
                        schema_type: Some(TypeOrUnion::Single(Type::Object)),
                        properties: Some(vec![(s("uuid"), uuid_string_prop())]),
                        required: vec![s("uuid")],
                        ..ComponentSchemaBase::default()
                    },
                ),
                (
                    s("ExampleResponse"),
                    ComponentSchemaBase {
                        properties: Some(vec![(s("uuid"), uuid_string_prop())]),
                        ..ComponentSchemaBase::default()
                    },
                ),
            ],
            ..ComponentsObject::default()
        }),
    )
}

#[test]
fn test_uuid_body_validation() {
    let doc = uuid_body_doc();
    let cases = vec![
        (r#"{"uuid":"00000000-0000-0000-0000-000000000000"}"#, true),
        (r#"{"uuid":"00000000-0000-0000-0000-xxxx"}"#, false),
    ];
    for (value, expected) in cases {
        let f = facts("/example", "post", "/example", body_of(value));
        assert_eq!(run(&doc, &f).is_ok(), expected);
    }
}

#[test]
fn test_query_required_validation() {
    let doc = uuid_query_doc(true, true);
    let make_request = |uri: &str| facts("/example", "get", uri, BodyState::Absent);

    let cases = vec![
        ("/example?uuid=00000000-0000-0000-0000-000000000000&name=example", true),
        ("/example?uuid=00000000-0000-0000-0000-000000000000&name=example&age=1", true),
        ("/example?uuid=00000000-0000-0000-0000-000000000000&age=1", false),
        ("/example?uuid=00000000-0000-0000-0000-000000000000", false),
    ];
    for (uri, expected) in cases {
        assert_eq!(run(&doc, &make_request(uri)).is_ok(), expected, "case: {}", uri);
    }
}

#[test]
fn format_types_validation() {
    fn t(v: &str, format: Format) -> bool {
        openapi_rs::formats::check_format(&s(""), &Json::Str(s(v)), Some(&format)).is_ok()
    }

    let cases: Vec<(Format, &str, bool)> = vec![
        (Format::Date, "2025-01-32", false),
        (Format::Email, "e@example .com", false),
        (Format::Time, "00:00:61", false),
        (Format::DateTime, "2025-01-01T00:61:00Z", false),
        (Format::UUID, "00000000-0000-0000-0000-xxxx", false),
        (Format::IPV4, "127.0.0.x", false),
        (Format::IPV6, "example", false),
        (Format::Email, "a@example.com", true),
        (Format::UUID, "00000000-0000-0000-0000-000000000000", true),
        (Format::Time, "00:00:00", true),
        (Format::Date, "2025-01-01", true),
        (Format::DateTime, "2025-01-01T00:00:00Z", true),
        (Format::IPV4, "127.0.0.1", true),
        (Format::IPV6, "::", true),
    ];
    for (f, value, expected) in cases {
        assert_eq!(t(value, f), expected, "format case: {}", value);
    }
}

fn limit_body_doc() -> OpenAPI {
    base_doc(
        vec![(
            s("/example"),
            PathItem {
                operations: vec![(
                    s("post"),
                    PathBase {
                        request: Some(Request {
                            required: false,
                            content: vec![(
                                s("application/json"),
                                BaseContent {
                                    schema: Schema {
                                        ref_path: Some(s("#/components/schemas/ExampleRequest")),
                                        ..Schema::default()
                                    },
                                },
                            )],
                        }),
                        ..PathBase::default()
                    },
                )],
                ..PathItem::default()
            },
        )],
        Some(ComponentsObject {
            schemas: vec![
                (
                    s("ExampleRequest"),
                    ComponentSchemaBase {
                        schema_type: Some(TypeOrUnion::Single(Type::Object)),
                        properties: Some(vec![
                            (
                                s("name"),
                                Properties {
                                    schema_type: Some(TypeOrUnion::Single(Type::String)),
                                    min_length: Some(1),
                                    max_length: Some(7),
                                    ..Properties::default()
                                },
                            ),
                            (
                                s("age"),
                                Properties {
                                    schema_type: Some(TypeOrUnion::Single(Type::Integer)),
                                    minimum: Some(dec_from_f64(1.0)),
                                    maximum: Some(dec_from_f64(10.0)),
                                    ..Properties::default()
                                },
                            ),
                        ]),
                        required: vec![s("name"), s("age")],
                        ..ComponentSchemaBase::default()
                    },
                ),
                (
                    s("ExampleResponse"),
                    ComponentSchemaBase {
                        properties: Some(vec![(
                            s("name"),
                            Properties {
                                schema_type: Some(TypeOrUnion::Single(Type::String)),
                                ..Properties::default()
                            },
                        )]),
                        ..ComponentSchemaBase::default()
                    },
                ),
            ],
            ..ComponentsObject::default()
        }),
    )
}

#[test]
fn test_query_value_limit_validation() {
    let doc = limit_body_doc();
    let cases = vec![
        (r#"{"name":"example","age":1}"#, true),
        (r#"{"name":"example","age":100}"#, false),
        (r#"{"name":"example-100","age":1}"#, false),
    ];
    for (value, expected) in cases {
        let f = facts("/example", "post", "/example", body_of(value));
        assert_eq!(run(&doc, &f).is_ok(), expected, "case: {}", value);
    }
}

fn array_body_doc() -> OpenAPI {
    base_doc(
        vec![(
            s("/example"),
            PathItem {
                operations: vec![(
                    s("post"),
                    PathBase {
                        request: Some(Request {
                            required: false,
                            content: vec![(
                                s("application/json"),
                                BaseContent {
                                    schema: Schema {
                                        ref_path: Some(s("#/components/schemas/ExampleRequest")),
                                        ..Schema::default()
                                    },
                                },
                            )],
                        }),
                        ..PathBase::default()
                    },
                )],
                ..PathItem::default()
            },
        )],
        Some(ComponentsObject {
            schemas: vec![
                (
                    s("ExampleRequest"),
                    ComponentSchemaBase {
                        schema_type: Some(TypeOrUnion::Single(Type::Array)),
                        min_items: Some(1),
                        max_items: Some(2),
                        items: Some(Box::new(ComponentSchemaBase {
                            properties: Some(vec![
                                (
                                    s("name"),
                                    Properties {
                                        schema_type: Some(TypeOrUnion::Single(Type::String)),
                                        min_length: Some(1),
                                        max_length: Some(7),
                                        ..Properties::default()
                                    },
                                ),
                                (
                                    s("age"),
                                    Properties {
                                        schema_type: Some(TypeOrUnion::Single(Type::Integer)),
                                        minimum: Some(dec_from_f64(1.0)),
                                        maximum: Some(dec_from_f64(10.0)),
                                        ..Properties::default()
                                    },
                                ),
                            ]),
                            required: vec![s("name"), s("age")],
                            ..ComponentSchemaBase::default()
                        })),
                        ..ComponentSchemaBase::default()
                    },
                ),
                (
                    s("ExampleResponse"),
                    ComponentSchemaBase {
                        properties: Some(vec![(
                            s("name"),
                            Properties {
                                schema_type: Some(TypeOrUnion::Single(Type::String)),
                                ..Properties::default()
                            },
                        )]),
                        ..ComponentSchemaBase::default()
                    },
                ),
            ],
            ..ComponentsObject::default()
        }),
    )
}

#[test]
fn test_body_array_validation() {
    let doc = array_body_doc();
    let cases = vec![
        (r#"[{"name":"example","age":1}]"#, true),
        (r#"[{"name":"example","age":100}]"#, false),
        (r#"[{"name":"example-100","age":1}]"#, false),
        (r#"[]"#, false),
        (
            r#"[{"name":"example-100","age":1},{"name":"example-101","age":2},{"name":"example-102","age":2}]"#,
            false,
        ),
        (r#"{"name":"example","age":1}"#, false),
    ];
    for (value, expected) in cases {
        let f = facts("/example", "post", "/example", body_of(value));
        assert_eq!(run(&doc, &f).is_ok(), expected, "case: {}", value);
    }
}

fn enum_body_doc() -> OpenAPI {
    let jint = |i: i64| Json::Int(i);
    let jstr = |t: &str| Json::Str(s(t));
    base_doc(
        vec![(
            s("/example"),
            PathItem {
                operations: vec![(
                    s("post"),
                    PathBase {
                        request: Some(Request {
                            required: false,
                            content: vec![(
                                s("application/json"),
                                BaseContent {
                                    schema: Schema {
                                        ref_path: Some(s("#/components/schemas/ExampleRequest")),
                                        ..Schema::default()
                                    },
                                },
                            )],
                        }),
                        ..PathBase::default()
                    },
                )],
                ..PathItem::default()
            },
        )],
        Some(ComponentsObject {
            schemas: vec![
                (
                    s("ExampleRequest"),
                    ComponentSchemaBase {
                        schema_type: Some(TypeOrUnion::Single(Type::Object)),
                        properties: Some(vec![
                            (
                                s("name"),
                                Properties {
                                    schema_type: Some(TypeOrUnion::Single(Type::String)),
                                    enum_values: Some(vec![
                                        jstr("example"),
                                        jstr("example-100"),
                                        jstr("example-101"),
                                    ]),
                                    ..Properties::default()
                                },
                            ),
                            (
                                s("priority"),
                                Properties {
                                    schema_type: Some(TypeOrUnion::Single(Type::Integer)),
                                    enum_values: Some(vec![
                                        jint(1),
                                        jint(2),
                                        jint(3),
                                        jint(10),
                                    ]),
                                    ..Properties::default()
                                },
                            ),
                            (
                                s("status"),
                                Properties {
                                    schema_type: Some(TypeOrUnion::Single(Type::String)),
                                    enum_values: Some(vec![
                                        jstr("active"),
                                        jstr("inactive"),
                                        jstr("pending"),
                                    ]),
                                    ..Properties::default()
                                },
                            ),
                            (
                                s("enabled"),
                                Properties {
                                    schema_type: Some(TypeOrUnion::Single(Type::Boolean)),
                                    enum_values: Some(vec![Json::Bool(true), Json::Bool(false)]),
                                    ..Properties::default()
                                },
                            ),
                            (
                                s("category"),
                                Properties {
                                    schema_type: Some(TypeOrUnion::Single(Type::Number)),
                                    enum_values: Some(vec![
                                        Json::Num(dec_from_f64(1.0)),
                                        Json::Num(dec_from_f64(2.5)),
                                        Json::Num(dec_from_f64(3.14)),
                                        Json::Num(dec_from_f64(10.0)),
                                    ]),
                                    ..Properties::default()
                                },
                            ),
                            (
                                s("mixed_type"),
                                Properties {
                                    enum_values: Some(vec![
                                        jstr("text"),
                                        jint(42),
                                        jstr("another_text"),
                                        Json::Num(dec_from_f64(99.99)),
                                    ]),
                                    ..Properties::default()
                                },
                            ),
                        ]),
                        required: vec![s("name"), s("priority")],
                        ..ComponentSchemaBase::default()
                    },
                ),
                (
                    s("ExampleResponse"),
                    ComponentSchemaBase {
                        properties: Some(vec![(
                            s("name"),
                            Properties {
                                schema_type: Some(TypeOrUnion::Single(Type::String)),
                                ..Properties::default()
                            },
                        )]),
                        ..ComponentSchemaBase::default()
                    },
                ),
            ],
            ..ComponentsObject::default()
        }),
    )
}

#[test]
fn test_body_enum_validation() {
    let doc = enum_body_doc();
    let cases = vec![
        (r#"{"name":"example","priority":1}"#, true, "Valid string and integer enum"),
        (r#"{"name":"example-100","priority":2}"#, true, "Valid string enum variant"),
        (r#"{"name":"example-101","priority":3}"#, true, "Another valid string enum variant"),
        (
            r#"{"name":"example","priority":10,"status":"active","enabled":true}"#,
            true,
            "Valid with optional boolean and string enums",
        ),
        (
            r#"{"name":"example","priority":1,"category":2.5}"#,
            true,
            "Valid with optional number enum",
        ),
        (
            r#"{"name":"example","priority":1,"mixed_type":"text"}"#,
            true,
            "Valid with mixed type enum (string)",
        ),
        (
            r#"{"name":"example","priority":1,"mixed_type":42}"#,
            true,
            "Valid with mixed type enum (number)",
        ),
        (r#"{"name":"example-103","priority":1}"#, false, "Invalid string enum value"),
        (r#"{"name":"example","priority":5}"#, false, "Invalid integer enum value"),
        (
            r#"{"name":"example","priority":1,"status":"running"}"#,
            false,
            "Invalid status enum value",
        ),
        (
            r#"{"name":"example","priority":1,"enabled":"yes"}"#,
            false,
            "Invalid boolean enum value (string instead of boolean)",
        ),
        (
            r#"{"name":"example","priority":1,"category":5.5}"#,
            false,
            "Invalid number enum value",
        ),
        (
            r#"{"name":"example","priority":1,"mixed_type":"invalid"}"#,
            false,
            "Invalid mixed type enum value",
        ),
        (
            r#"{"name":"example","priority":1,"mixed_type":100}"#,
            false,
            "Invalid mixed type enum number value",
        ),
        (r#"[{"name":"example"}]"#, false, "Invalid JSON structure (array instead of object)"),
        (r#"{"name":"example"}"#, false, "Missing required priority field"),
        (r#"{"priority":1}"#, false, "Missing required name field"),
    ];
    for (value, expected, description) in cases {
        let f = facts("/example", "post", "/example", body_of(value));
        let result = run(&doc, &f);
        assert_eq!(
            result.is_ok(),
            expected,
            "Test failed: {} - Expected: {}, Got: {:?}",
            description,
            expected,
            result.err().map(|e| e.message())
        );
    }
}

fn pattern_doc() -> OpenAPI {
    base_doc(
        vec![(
            s("/users"),
            PathItem {
                operations: vec![(
                    s("post"),
                    PathBase {
                        parameters: Some(vec![
                            Parameter {
                                name: Some(s("userId")),
                                location: Some(In::Query),
                                required: true,
                                schema: Some(Box::new(Schema {
                                    schema_type: Some(TypeOrUnion::Single(Type::String)),
                                    pattern: Some(s("^[0-9]+$")),
                                    ..Schema::default()
                                })),
                                ..Parameter::default()
                            },
                            Parameter {
                                name: Some(s("token")),
                                location: Some(In::Query),
                                required: false,
                                schema: Some(Box::new(Schema {
                                    schema_type: Some(TypeOrUnion::Single(Type::String)),
                                    pattern: Some(s("^[A-Za-z0-9]{32}$")),
                                    ..Schema::default()
                                })),
                                ..Parameter::default()
                            },
                        ]),
                        request: Some(Request {
                            required: true,
                            content: vec![(
                                s("application/json"),
                                BaseContent {
                                    schema: Schema {
                                        ref_path: Some(s("#/components/schemas/UserRequest")),
                                        ..Schema::default()
                                    },
                                },
                            )],
                        }),
                        ..PathBase::default()
                    },
                )],
                ..PathItem::default()
            },
        )],
        Some(ComponentsObject {
            schemas: vec![(
                s("UserRequest"),
                ComponentSchemaBase {
                    schema_type: Some(TypeOrUnion::Single(Type::Object)),
                    properties: Some(vec![
                        (
                            s("email"),
                            Properties {
                                schema_type: Some(TypeOrUnion::Single(Type::String)),
                                pattern: Some(s(
                                    r"^[a-zA-Z0-9._%+-]+@[a-zA-Z0-9.-]+\.[a-zA-Z]{2,}$",
                                )),
                                ..Properties::default()
                            },
                        ),
                        (
                            s("phone"),
                            Properties {
                                schema_type: Some(TypeOrUnion::Single(Type::String)),
                                pattern: Some(s(
                                    r"^\+?1?[-.\s]?\(?[0-9]{3}\)?[-.\s]?[0-9]{3}[-.\s]?[0-9]{4}$",
                                )),
                                ..Properties::default()
                            },
                        ),
                        (
                            s("username"),
                            Properties {
                                schema_type: Some(TypeOrUnion::Single(Type::String)),
                                pattern: Some(s("^[a-zA-Z0-9_]{3,20}$")),
                                ..Properties::default()
                            },
                        ),
                    ]),
                    required: vec![s("email"), s("username")],
                    ..ComponentSchemaBase::default()
                },
            )],
            ..ComponentsObject::default()
        }),
    )
}

#[test]
fn test_pattern_validation() {
    let doc = pattern_doc();
    let cases = vec![
        (
            "userId=12345&token=abc123DEF456ghi789JKL012mno345PQ",
            r#"{"email":"test@example.com","username":"valid_user123","phone":"(555) 123-4567"}"#,
            true,
            "All valid patterns",
        ),
        (
            "userId=999",
            r#"{"email":"user@domain.org","username":"testuser"}"#,
            true,
            "Required fields only with valid patterns",
        ),
        (
            "userId=abc123",
            r#"{"email":"test@example.com","username":"validuser"}"#,
            false,
            "Invalid userId pattern (contains letters)",
        ),
        (
            "userId=123&token=short",
            r#"{"email":"test@example.com","username":"validuser"}"#,
            false,
            "Invalid token pattern (too short)",
        ),
        (
            "userId=123",
            r#"{"email":"invalid-email","username":"validuser"}"#,
            false,
            "Invalid email pattern",
        ),
        (
            "userId=123",
            r#"{"email":"test@example.com","username":"in valid"}"#,
            false,
            "Invalid username pattern (contains space)",
        ),
        (
            "userId=123",
            r#"{"email":"test@example.com","username":"ab"}"#,
            false,
            "Invalid username pattern (too short)",
        ),
        (
            "userId=123",
            r#"{"email":"test@example.com","username":"validuser","phone":"invalid-phone"}"#,
            false,
            "Invalid phone pattern",
        ),
    ];
    for (query, body, expected, description) in cases {
        let f = facts("/users", "post", &format!("/users?{}", query), body_of(body));
        let result = run(&doc, &f);
        assert_eq!(
            result.is_ok(),
            expected,
            "Test failed: {} - Expected: {}, Got: {:?}",
            description,
            expected,
            result.err().map(|e| e.message())
        );
    }
}

#[test]
fn validator_test_test_uuid_path_validation() {
    let doc = base_doc(
        vec![(
            s("/example/{uuid}"),
            PathItem {
                operations: vec![(
                    s("get"),
                    PathBase {
                        parameters: Some(vec![Parameter {
                            name: Some(s("uuid")),
                            description: Some(s("The UUID for this example.")),
                            location: Some(In::Path),
                            schema: Some(Box::new(Schema {
                                schema_type: Some(TypeOrUnion::Single(Type::String)),
                                format: Some(Format::UUID),
                                ..Schema::default()
                            })),
                            ..Parameter::default()
                        }]),
                        ..PathBase::default()
                    },
                )],
                ..PathItem::default()
            },
        )],
        Some(ComponentsObject {
            schemas: vec![(
                s("ExampleResponse"),
                ComponentSchemaBase {
                    properties: Some(vec![(s("uuid"), uuid_string_prop())]),
                    ..ComponentSchemaBase::default()
                },
            )],
            ..ComponentsObject::default()
        }),
    );
    let cases = vec![
        ("/example/00000000-0000-0000-0000-000000000000", true),
        ("/example/00000000", false),
    ];
    for (uri, expected) in cases {
        let f = facts("/example/{uuid}", "get", uri, BodyState::Absent);
        assert_eq!(run(&doc, &f).is_ok(), expected);
    }
}

#[test]
fn validator_test_test_uuid_query_validation() {
    let doc = uuid_query_doc(false, false);
    let cases = vec![
        ("00000000-0000-0000-0000-000000000000", true),
        ("00000000-0000-0000-0000-xxxx", false),
    ];
    for (uuid, expected) in cases {
        let f = facts("/example", "get", &format!("/example?uuid={}", uuid), BodyState::Absent);
        assert_eq!(run(&doc, &f).is_ok(), expected);
    }
}

#[test]
fn validator_test_test_uuid_body_validation() {
    let doc = uuid_body_doc();
    let cases = vec![
        (r#"{"uuid":"00000000-0000-0000-0000-000000000000"}"#, true),
        (r#"{"uuid":"00000000-0000-0000-0000-xxxx"}"#, false),
    ];
    for (value, expected) in cases {
        let f = facts("/example", "post", "/example", body_of(value));
        assert_eq!(run(&doc, &f).is_ok(), expected);
    }
}
