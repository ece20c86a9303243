//! Tests of the request parser/router.

use mmds::request::{
    parse_get_mmds, parse_patch_mmds, parse_put_mmds, Body, BodyError, ParsedRequest, RequestError,
};

#[test]
fn test_parse_get_mmds_request() {
    assert!(parse_get_mmds().is_ok());
}

#[test]
fn test_parse_put_mmds_request() {
    let body = r#"{
                "foo": "bar"
              }"#;
    assert!(parse_put_mmds(&Body::new(body), None).is_ok());

    let body = "invalid_body";
    assert!(parse_put_mmds(&Body::new(body), None).is_err());

    let body = r#"{
                "ipv4_address_pool": ["1.1.1.1"]
              }"#;
    let path = "config";
    assert!(parse_put_mmds(&Body::new(body), Some(&path)).is_ok());

    let body = r#"{
                "ipv4_address_pool": []
              }"#;
    let path = "config";
    assert!(parse_put_mmds(&Body::new(body), Some(&path)).is_err());

    let body = r#"{
                "invalid_config": "invalid_value"
              }"#;
    let path = "config";
    assert!(parse_put_mmds(&Body::new(body), Some(&path)).is_err());

    let path = "invalid_path";
    assert!(parse_put_mmds(&Body::new(body), Some(&path)).is_err());
}

#[test]
fn test_parse_patch_mmds_request() {
    let body = r#"{
                "foo": "bar"
              }"#;
    assert!(parse_patch_mmds(&Body::new(body)).is_ok());

    let body = "invalid_body";
    assert!(parse_patch_mmds(&Body::new(body)).is_err());
}

#[test]
fn test_put_config_accepted_pool_in_order() {
    let body = r#"{"ipv4_address_pool": ["1.1.1.1", "2.2.2.2"]}"#;
    let path = "config";
    match parse_put_mmds(&Body::new(body), Some(&path)) {
        Ok(ParsedRequest::SetConfiguration(cfg)) => {
            assert_eq!(
                cfg.ipv4_address_pool,
                vec!["1.1.1.1".to_string(), "2.2.2.2".to_string()]
            );
        }
        _ => panic!("expected a configuration change"),
    }
}

#[test]
fn test_put_config_empty_pool_error_kind() {
    let body = r#"{"ipv4_address_pool": []}"#;
    let path = "config";
    match parse_put_mmds(&Body::new(body), Some(&path)) {
        Err(RequestError::EmptyAddressPool) => {}
        _ => panic!("expected the empty-pool error"),
    }
}

#[test]
fn test_put_config_invalid_entry_error_kind() {
    let body = r#"{"ipv4_address_pool": ["1.1.1.1", "1.1.1.1.1"]}"#;
    let path = "config";
    match parse_put_mmds(&Body::new(body), Some(&path)) {
        Err(RequestError::InvalidConfig(_)) => {}
        _ => panic!("expected the invalid-configuration error"),
    }
}

#[test]
fn test_put_unrecognized_path_names_token() {
    let body = r#"{"ipv4_address_pool": ["1.1.1.1"]}"#;
    let path = "invalid_path";
    match parse_put_mmds(&Body::new(body), Some(&path)) {
        Err(RequestError::UnrecognizedPath(t)) => assert_eq!(t, "invalid_path"),
        _ => panic!("expected the routing error"),
    }
}

#[test]
fn test_put_config_unknown_field_names_key() {
    let body = r#"{"invalid_config": "invalid_value"}"#;
    let path = "config";
    match parse_put_mmds(&Body::new(body), Some(&path)) {
        Err(RequestError::MalformedBody(BodyError::UnknownField(k))) => {
            assert_eq!(k, "invalid_config")
        }
        _ => panic!("expected the unknown-field error"),
    }
}

#[test]
fn test_put_config_missing_field() {
    let body = "{}";
    let path = "config";
    match parse_put_mmds(&Body::new(body), Some(&path)) {
        Err(RequestError::MalformedBody(BodyError::MissingField)) => {}
        _ => panic!("expected the missing-field error"),
    }
}

#[test]
fn test_put_config_not_an_object() {
    let body = "[1, 2]";
    let path = "config";
    match parse_put_mmds(&Body::new(body), Some(&path)) {
        Err(RequestError::MalformedBody(BodyError::NotAnObject)) => {}
        _ => panic!("expected the not-an-object error"),
    }
}

#[test]
fn test_put_config_pool_not_a_string_array() {
    let path = "config";
    let body = r#"{"ipv4_address_pool": "1.1.1.1"}"#;
    match parse_put_mmds(&Body::new(body), Some(&path)) {
        Err(RequestError::MalformedBody(BodyError::NotAStringArray)) => {}
        _ => panic!("expected the not-a-string-array error"),
    }
    let body = r#"{"ipv4_address_pool": [1]}"#;
    match parse_put_mmds(&Body::new(body), Some(&path)) {
        Err(RequestError::MalformedBody(BodyError::NotAStringArray)) => {}
        _ => panic!("expected the not-a-string-array error"),
    }
}

#[test]
fn test_put_config_syntax_error_kind() {
    let body = "invalid_body";
    let path = "config";
    match parse_put_mmds(&Body::new(body), Some(&path)) {
        Err(RequestError::MalformedBody(BodyError::Syntax(_))) => {}
        _ => panic!("expected the syntax error"),
    }
}

#[test]
fn test_put_data_passes_document_through() {
    let body = r#"{"foo": "bar"}"#;
    match parse_put_mmds(&Body::new(body), None) {
        Ok(ParsedRequest::PutData(v)) => {
            assert_eq!(v["foo"], serde_json::Value::String("bar".to_string()));
        }
        _ => panic!("expected a data put"),
    }
}

#[test]
fn test_patch_data_passes_document_through() {
    let body = r#"{"foo": "bar"}"#;
    match parse_patch_mmds(&Body::new(body)) {
        Ok(ParsedRequest::PatchData(v)) => {
            assert_eq!(v["foo"], serde_json::Value::String("bar".to_string()));
        }
        _ => panic!("expected a data patch"),
    }
}

#[test]
fn test_get_is_configuration_read() {
    match parse_get_mmds() {
        Ok(ParsedRequest::GetConfiguration) => {}
        _ => panic!("expected a configuration read"),
    }
}

#[test]
fn test_parse_twice_same_outcome() {
    let body = r#"{"foo": "bar"}"#;
    let first = parse_put_mmds(&Body::new(body), None);
    let second = parse_put_mmds(&Body::new(body), None);
    match (first, second) {
        (Ok(ParsedRequest::PutData(v1)), Ok(ParsedRequest::PutData(v2))) => {
            assert_eq!(v1, v2);
        }
        _ => panic!("expected two equal data puts"),
    }

    let body = r#"{"ipv4_address_pool": ["1.1.1.1"]}"#;
    let path = "config";
    let first = parse_put_mmds(&Body::new(body), Some(&path));
    let second = parse_put_mmds(&Body::new(body), Some(&path));
    match (first, second) {
        (Ok(ParsedRequest::SetConfiguration(c1)), Ok(ParsedRequest::SetConfiguration(c2))) => {
            assert_eq!(c1, c2);
        }
        _ => panic!("expected two equal configuration changes"),
    }
}
