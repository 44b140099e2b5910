use openapi_rs::json::Json;
use openapi_rs::model::{
    In, InfoObject, OpenAPI, Parameter, PathBase, PathItem, Schema, Type, TypeOrUnion,
};
use openapi_rs::pattern::check_pattern;
use openapi_rs::validator::query;

const EMAIL_PATTERN: &str = r"^[a-zA-Z0-9._%+-]+@[a-zA-Z0-9.-]+\.[a-zA-Z]{2,}$";
const PHONE_PATTERN: &str = r"^\+?1?[-.\s]?\(?[0-9]{3}\)?[-.\s]?[0-9]{3}[-.\s]?[0-9]{4}$";
const SSN_PATTERN: &str = r"^\d{3}-\d{2}-\d{4}$";
const INVALID_REGEX: &str = "[invalid-regex";

fn s(x: &str) -> String {
    x.to_string()
}

struct TestCase {
    name: &'static str,
    pattern: &'static str,
    valid_values: Vec<&'static str>,
    invalid_values: Vec<&'static str>,
}

impl TestCase {
    fn new(
        name: &'static str,
        pattern: &'static str,
        valid_values: Vec<&'static str>,
        invalid_values: Vec<&'static str>,
    ) -> Self {
        Self { name, pattern, valid_values, invalid_values }
    }
}

fn create_base_openapi() -> OpenAPI {
    OpenAPI {
        openapi: s("3.1.0"),
        info: InfoObject {
            title: s("Test API"),
            description: None,
            version: s("1.0.0"),
            summary: None,
        },
        servers: vec![],
        paths: vec![],
        components: None,
        json_schema_dialect: None,
        webhooks: None,
        self_ref: None,
    }
}

fn create_parameter_with_pattern(name: &str, pattern: Option<String>, required: bool) -> Parameter {
    Parameter {
        name: Some(s(name)),
        location: Some(In::Query),
        required,
        schema_type: Some(TypeOrUnion::Single(Type::String)),
        pattern,
        ..Parameter::default()
    }
}

fn create_parameter_with_schema_pattern(
    name: &str,
    pattern: Option<String>,
    required: bool,
) -> Parameter {
    let schema = Schema {
        schema_type: Some(TypeOrUnion::Single(Type::String)),
        pattern,
        ..Schema::default()
    };
    Parameter {
        name: Some(s(name)),
        location: Some(In::Query),
        required,
        schema: Some(Box::new(schema)),
        ..Parameter::default()
    }
}

fn create_openapi_with_parameters(parameters: Vec<Parameter>) -> OpenAPI {
    let mut openapi = create_base_openapi();
    let path_base = PathBase { parameters: Some(parameters), ..PathBase::default() };
    let path_item = PathItem {
        operations: vec![(s("get"), path_base)],
        ..PathItem::default()
    };
    openapi.paths.push((s("/test"), path_item));
    openapi
}

fn test_query_validation(openapi: &OpenAPI, params: &[(&str, &str)], should_succeed: bool) {
    let query_params: Vec<(String, String)> =
        params.iter().map(|(k, v)| (s(k), s(v))).collect();

    let result = query("/test", &query_params, openapi);

    if should_succeed {
        assert!(
            result.is_ok(),
            "Expected validation to succeed but got error: {:?}",
            result.err().map(|e| e.message())
        );
    } else {
        assert!(result.is_err(), "Expected validation to fail but it succeeded");
        let error_msg = result.unwrap_err().message();
        assert!(
            error_msg.contains("does not match the required pattern"),
            "Error message should mention pattern mismatch, got: {}",
            error_msg
        );
    }
}

#[test]
fn test_pattern_validation_comprehensive() {
    let test_cases = [
        TestCase::new(
            "email",
            EMAIL_PATTERN,
            vec!["test@example.com", "user.name+tag@domain.co.uk", "test123@test-domain.org"],
            vec!["invalid-email", "test@", "@domain.com", "test.domain.com", "test@domain"],
        ),
        TestCase::new(
            "phone",
            PHONE_PATTERN,
            vec!["(555) 123-4567", "555-123-4567", "5551234567", "+1 555 123 4567"],
            vec!["invalid-phone", "123", "555-123-456", "(555) 123-45678"],
        ),
        TestCase::new(
            "ssn",
            SSN_PATTERN,
            vec!["123-45-6789", "000-00-0000", "999-99-9999"],
            vec!["123456789", "123-4-5678", "1234-56-789", "123-456-789"],
        ),
    ];

    for test_case in test_cases.iter() {
        let param =
            create_parameter_with_pattern(test_case.name, Some(s(test_case.pattern)), true);
        let openapi = create_openapi_with_parameters(vec![param]);

        for valid_value in &test_case.valid_values {
            test_query_validation(&openapi, &[(test_case.name, valid_value)], true);
        }
        for invalid_value in &test_case.invalid_values {
            test_query_validation(&openapi, &[(test_case.name, invalid_value)], false);
        }
    }
}

#[test]
fn test_schema_pattern_validation() {
    let param = create_parameter_with_schema_pattern("ssn", Some(s(SSN_PATTERN)), true);
    let openapi = create_openapi_with_parameters(vec![param]);

    test_query_validation(&openapi, &[("ssn", "123-45-6789")], true);
    test_query_validation(&openapi, &[("ssn", "123456789")], false);
}

#[test]
fn test_multiple_patterns_validation() {
    let parameters = vec![
        create_parameter_with_pattern("email", Some(s(EMAIL_PATTERN)), true),
        create_parameter_with_pattern("phone", Some(s(PHONE_PATTERN)), false),
    ];
    let openapi = create_openapi_with_parameters(parameters);

    test_query_validation(
        &openapi,
        &[("email", "test@example.com"), ("phone", "(555) 123-4567")],
        true,
    );
    test_query_validation(
        &openapi,
        &[("email", "test@example.com"), ("phone", "invalid-phone")],
        false,
    );
    test_query_validation(&openapi, &[("email", "test@example.com")], true);
    test_query_validation(&openapi, &[("email", "invalid-email")], false);
}

#[test]
fn test_invalid_regex_pattern() {
    let param = create_parameter_with_pattern("test", Some(s(INVALID_REGEX)), true);
    let openapi = create_openapi_with_parameters(vec![param]);

    let result = query("/test", &vec![(s("test"), s("anything"))], &openapi);

    assert!(result.is_err());
    let error_msg = result.unwrap_err().message();
    assert!(
        error_msg.contains("Invalid regex pattern"),
        "Error message should mention invalid regex, got: {}",
        error_msg
    );
}

#[test]
fn test_pattern_with_non_string_values() {
    let test_cases = [
        ("number", Json::Int(123)),
        ("boolean", Json::Bool(true)),
        ("null", Json::Null),
        ("array", Json::Arr(vec![Json::Str(s("test"))])),
        ("object", Json::Obj(vec![])),
    ];

    for (name, value) in test_cases.iter() {
        let pattern = s("^\\d+$");
        let result = check_pattern(&s(name), value, Some(&pattern));
        assert!(result.is_ok(), "Non-string value {} should pass pattern validation", name);
    }
}

#[test]
fn test_pattern_validation_edge_cases() {
    let edge_cases = [
        ("empty pattern should always succeed", "anything", None, true),
        ("empty string with non-empty pattern should fail", "", Some("^.+$"), false),
        ("empty string with empty pattern should succeed", "", Some("^$"), true),
        ("whitespace with whitespace pattern", "   ", Some("^\\s+$"), true),
        ("complex unicode pattern", "test@example.rs", Some("^[\\p{L}\\p{N}.@]+$"), true),
        ("digit pattern with letters should fail", "abc123", Some("^\\d+$"), false),
        ("optional pattern with valid input", "test123", Some("^[a-z]+\\d*$"), true),
    ];

    for (description, value, pattern, should_succeed) in edge_cases.iter() {
        let pattern_string = pattern.map(|p| s(p));
        let result =
            check_pattern(&s("test_field"), &Json::Str(s(value)), pattern_string.as_ref());

        if *should_succeed {
            assert!(
                result.is_ok(),
                "Test '{}' should succeed but failed: {:?}",
                description,
                result.err().map(|e| e.message())
            );
        } else {
            assert!(result.is_err(), "Test '{}' should fail but succeeded", description);
        }
    }
}

#[test]
fn test_pattern_priority_parameter_vs_schema() {
    let schema = Schema {
        schema_type: Some(TypeOrUnion::Single(Type::String)),
        pattern: Some(s("^schema-pattern$")),
        ..Schema::default()
    };
    let param = Parameter {
        name: Some(s("test")),
        location: Some(In::Query),
        required: true,
        pattern: Some(s("^param-pattern$")),
        schema: Some(Box::new(schema)),
        ..Parameter::default()
    };
    let openapi = create_openapi_with_parameters(vec![param]);

    // matches only the parameter pattern, not the schema pattern
    test_query_validation(&openapi, &[("test", "param-pattern")], false);
    // matches only the schema pattern, not the parameter pattern
    test_query_validation(&openapi, &[("test", "schema-pattern")], false);
}

#[test]
fn test_pattern_performance_with_complex_regex() {
    let complex_pattern = r"^[a-zA-Z0-9.!#$%&'*+/=?^_`{|}~-]+@[a-zA-Z0-9](?:[a-zA-Z0-9-]{0,61}[a-zA-Z0-9])?(?:\.[a-zA-Z0-9](?:[a-zA-Z0-9-]{0,61}[a-zA-Z0-9])?)*$";

    let start = std::time::Instant::now();

    let param = create_parameter_with_pattern("email", Some(s(complex_pattern)), true);
    let openapi = create_openapi_with_parameters(vec![param]);

    for _ in 0..100 {
        test_query_validation(&openapi, &[("email", "test@example.com")], true);
    }

    let duration = start.elapsed();
    assert!(duration.as_millis() < 1000, "Pattern validation should be fast, took {:?}", duration);
}
