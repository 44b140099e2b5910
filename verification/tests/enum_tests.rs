use openapi_rs::json::Json;
use openapi_rs::model::{
    BaseContent, ComponentSchemaBase, ComponentsObject, In, InfoObject, OpenAPI, Parameter,
    PathBase, PathItem, Properties, Request, Schema, Type, TypeOrUnion,
};
use openapi_rs::validator::{body, query};

fn s(x: &str) -> String {
    x.to_string()
}

fn test_doc(paths: Vec<(String, PathItem)>, components: Option<ComponentsObject>) -> OpenAPI {
    OpenAPI {
        openapi: s("3.0.0"),
        info: InfoObject {
            title: s("Test API"),
            description: None,
            version: s("1.0.0"),
            summary: None,
        },
        servers: vec![],
        paths,
        components,
        json_schema_dialect: None,
        webhooks: None,
        self_ref: None,
    }
}

fn enum_query_doc() -> OpenAPI {
    test_doc(
        vec![(
            s("/test"),
            PathItem {
                operations: vec![(
                    s("get"),
                    PathBase {
                        parameters: Some(vec![
                            Parameter {
                                name: Some(s("status")),
                                location: Some(In::Query),
                                required: true,
                                schema: Some(Box::new(Schema {
                                    schema_type: Some(TypeOrUnion::Single(Type::String)),
                                    enum_values: Some(vec![
                                        Json::Str(s("active")),
                                        Json::Str(s("inactive")),
                                        Json::Str(s("pending")),
                                    ]),
                                    ..Schema::default()
                                })),
                                ..Parameter::default()
                            },
                            Parameter {
                                name: Some(s("priority")),
                                location: Some(In::Query),
                                required: false,
                                enum_values: Some(vec![Json::Int(1), Json::Int(2), Json::Int(3)]),
                                ..Parameter::default()
                            },
                        ]),
                        ..PathBase::default()
                    },
                )],
                ..PathItem::default()
            },
        )],
        Some(ComponentsObject::default()),
    )
}

#[test]
fn test_enum_validation_query_parameter() {
    let open_api = enum_query_doc();

    let valid_query =
        vec![(s("status"), s("active")), (s("priority"), s("2"))];
    let result = query("/test", &valid_query, &open_api);
    if let Err(ref e) = result {
        println!("Error message: {}", e.message());
    }
    assert!(result.is_ok(), "Valid enum values should pass validation");

    let invalid_query = vec![(s("status"), s("unknown"))];
    let result = query("/test", &invalid_query, &open_api);
    assert!(result.is_err(), "Invalid enum values should be rejected");

    let error_msg = result.unwrap_err().message();
    assert!(
        error_msg.contains("not in allowed enum values"),
        "Error message should contain enum validation hint"
    );
    assert!(error_msg.contains("active"), "Error message should show allowed enum values");
}

#[test]
fn test_enum_validation_with_different_types() {
    let open_api = test_doc(
        vec![(
            s("/test"),
            PathItem {
                operations: vec![(
                    s("get"),
                    PathBase {
                        parameters: Some(vec![
                            Parameter {
                                name: Some(s("active")),
                                location: Some(In::Query),
                                schema: Some(Box::new(Schema {
                                    schema_type: Some(TypeOrUnion::Single(Type::Boolean)),
                                    enum_values: Some(vec![Json::Bool(true), Json::Bool(false)]),
                                    ..Schema::default()
                                })),
                                ..Parameter::default()
                            },
                            Parameter {
                                name: Some(s("count")),
                                location: Some(In::Query),
                                schema: Some(Box::new(Schema {
                                    schema_type: Some(TypeOrUnion::Single(Type::Integer)),
                                    enum_values: Some(vec![
                                        Json::Int(1),
                                        Json::Int(5),
                                        Json::Int(10),
                                    ]),
                                    ..Schema::default()
                                })),
                                ..Parameter::default()
                            },
                        ]),
                        ..PathBase::default()
                    },
                )],
                ..PathItem::default()
            },
        )],
        Some(ComponentsObject::default()),
    );

    let query_params = vec![(s("active"), s("true"))];
    let result = query("/test", &query_params, &open_api);
    assert!(result.is_ok(), "Valid boolean enum values should pass validation");

    let invalid_query = vec![(s("active"), s("maybe"))];
    let result = query("/test", &invalid_query, &open_api);
    assert!(result.is_err(), "Invalid boolean enum values should be rejected");
}

#[test]
fn test_enum_validation_in_properties() {
    let open_api = test_doc(
        vec![(
            s("/test"),
            PathItem {
                operations: vec![(
                    s("post"),
                    PathBase {
                        request: Some(Request {
                            required: true,
                            content: vec![(
                                s("application/json"),
                                BaseContent {
                                    schema: Schema {
                                        ref_path: Some(s("#/components/schemas/TestRequest")),
                                        ..Schema::default()
                                    },
                                },
                            )],
                        }),
                        ..PathBase::default()
                    },
                )],
                ..PathItem::default()
            },
        )],
        Some(ComponentsObject {
            schemas: vec![(
                s("TestRequest"),
                ComponentSchemaBase {
                    schema_type: Some(TypeOrUnion::Single(Type::Object)),
                    properties: Some(vec![
                        (
                            s("status"),
                            Properties {
                                schema_type: Some(TypeOrUnion::Single(Type::String)),
                                enum_values: Some(vec![
                                    Json::Str(s("draft")),
                                    Json::Str(s("published")),
                                    Json::Str(s("archived")),
                                ]),
                                ..Properties::default()
                            },
                        ),
                        (
                            s("priority"),
                            Properties {
                                schema_type: Some(TypeOrUnion::Single(Type::Integer)),
                                enum_values: Some(vec![
                                    Json::Int(1),
                                    Json::Int(2),
                                    Json::Int(3),
                                    Json::Int(4),
                                    Json::Int(5),
                                ]),
                                ..Properties::default()
                            },
                        ),
                    ]),
                    required: vec![s("status")],
                    ..ComponentSchemaBase::default()
                },
            )],
            ..ComponentsObject::default()
        }),
    );

    let valid_body = Json::Obj(vec![
        (s("status"), Json::Str(s("published"))),
        (s("priority"), Json::Int(3)),
    ]);
    let result = body("/test", &valid_body, &open_api);
    assert!(result.is_ok(), "Valid request body enum values should pass validation");

    let invalid_body = Json::Obj(vec![
        (s("status"), Json::Str(s("invalid_status"))),
        (s("priority"), Json::Int(3)),
    ]);
    let result = body("/test", &invalid_body, &open_api);
    assert!(result.is_err(), "Invalid request body enum values should be rejected");

    let error_msg = result.unwrap_err().message();
    assert!(
        error_msg.contains("not in allowed enum values"),
        "Error message should contain enum validation hint"
    );
}
