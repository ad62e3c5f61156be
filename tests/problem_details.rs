use eserde_axum::details::{
    EncodeError, ProblemDetails, ProblemResponse, APPLICATION_PROBLEM_JSON, CONTENT_TYPE,
    INTERNAL_SERVER_ERROR_PROBLEM,
};
use eserde_axum::status::resolve_status;
use eserde_axum::validation::{InvalidRequest, Source, ValidationError, ValidationErrors};
use http::StatusCode;

fn plain_problem(status: u16) -> ProblemDetails<()> {
    ProblemDetails {
        type_: "test_error".into(),
        status,
        title: "Test Error".into(),
        detail: "This is a test error".into(),
        extensions: Option::<()>::None,
    }
}

fn body_text(response: &ProblemResponse) -> String {
    String::from_utf8(response.body.clone()).unwrap()
}

fn assert_problem_content_type(response: &ProblemResponse) {
    assert_eq!(response.headers.len(), 1);
    assert_eq!(response.headers[0].0, CONTENT_TYPE);
    assert_eq!(response.headers[0].1, "application/problem+json");
}

#[test]
fn test_problem_details_status_code() {
    let problem = ProblemDetails {
        type_: "test_error".into(),
        status: 400,
        title: "Test Error".into(),
        detail: "This is a test error".into(),
        extensions: Option::<()>::None,
    };

    let response = problem.into_response();
    assert_eq!(response.status(), StatusCode::BAD_REQUEST);
}

#[test]
fn test_problem_details_internal_server_error_status() {
    let problem = ProblemDetails {
        type_: "server_error".into(),
        status: 500,
        title: "Server Error".into(),
        detail: "This is a server error".into(),
        extensions: Option::<()>::None,
    };

    let response = problem.into_response();
    assert_eq!(response.status(), StatusCode::INTERNAL_SERVER_ERROR);
}

#[test]
fn valid_status_codes_are_kept() {
    for status in [100u16, 200, 404, 418, 599] {
        let response = plain_problem(status).into_response();
        assert_eq!(response.status(), status);
        assert_problem_content_type(&response);
    }
}

#[test]
fn invalid_status_codes_become_500() {
    for status in [0u16, 1, 99, 600, 999, 1000, 65535] {
        let response = plain_problem(status).into_response();
        assert_eq!(response.status(), 500);
        assert_problem_content_type(&response);
    }
}

#[test]
fn resolve_status_bounds() {
    assert_eq!(resolve_status(99), 500);
    assert_eq!(resolve_status(100), 100);
    assert_eq!(resolve_status(599), 599);
    assert_eq!(resolve_status(600), 500);
}

#[test]
fn invalid_status_keeps_body_field() {
    let response = plain_problem(700).into_response();
    assert_eq!(response.status(), 500);
    assert_eq!(
        body_text(&response),
        r#"{"type":"test_error","status":700,"title":"Test Error","detail":"This is a test error"}"#
    );
}

#[test]
fn without_extension_only_four_keys() {
    let response = plain_problem(400).into_response();
    assert_eq!(
        body_text(&response),
        r#"{"type":"test_error","status":400,"title":"Test Error","detail":"This is a test error"}"#
    );
    assert_problem_content_type(&response);
}

#[test]
fn extension_members_are_flattened() {
    let problem = ProblemDetails {
        type_: "test_error".into(),
        status: 422,
        title: "Test Error".into(),
        detail: "This is a test error".into(),
        extensions: Some(ValidationErrors {
            errors: vec![ValidationError {
                detail: "missing".into(),
                source: Source::Body { pointer: None },
            }],
        }),
    };
    let response = problem.into_response();
    assert_eq!(response.status(), 422);
    assert_eq!(
        body_text(&response),
        r#"{"type":"test_error","status":422,"title":"Test Error","detail":"This is a test error","errors":[{"detail":"missing","source":"body","pointer":null}]}"#
    );
}

#[test]
fn invalid_request_with_no_errors() {
    let response = InvalidRequest::new(ValidationErrors { errors: vec![] }).into_response();
    assert_eq!(response.status(), 400);
    let body = body_text(&response);
    assert!(body.contains(r#""errors":[]"#));
    assert!(body.contains(r#""status":400"#));
    assert_eq!(
        body,
        r#"{"type":"invalid_request","status":400,"title":"The request is invalid","detail":"The request is either malformed or doesn't match the expected schema","errors":[]}"#
    );
}

#[test]
fn invalid_request_body_pointer() {
    let response = InvalidRequest::new(ValidationErrors {
        errors: vec![ValidationError {
            detail: "must be a string".into(),
            source: Source::Body {
                pointer: Some("/age".into()),
            },
        }],
    })
    .into_response();
    assert_eq!(response.status(), 400);
    assert_problem_content_type(&response);
    let body = body_text(&response);
    assert!(body.contains(r#""pointer":"/age""#));
    assert!(body.contains(r#""source":"body""#));
}

#[test]
fn invalid_request_header_source() {
    let response = InvalidRequest::new(ValidationErrors {
        errors: vec![ValidationError {
            detail: "missing header".into(),
            source: Source::Header {
                name: "X-Request-Id".into(),
            },
        }],
    })
    .into_response();
    let body = body_text(&response);
    assert!(body.contains(r#""source":"header","name":"X-Request-Id""#));
    assert!(!body.contains("pointer"));
}

#[test]
fn errors_keep_their_order() {
    let response = InvalidRequest::new(ValidationErrors {
        errors: vec![
            ValidationError {
                detail: "first".into(),
                source: Source::Header { name: "A".into() },
            },
            ValidationError {
                detail: "second".into(),
                source: Source::Body {
                    pointer: Some("/b".into()),
                },
            },
        ],
    })
    .into_response();
    assert!(body_text(&response).ends_with(
        r#""errors":[{"detail":"first","source":"header","name":"A"},{"detail":"second","source":"body","pointer":"/b"}]}"#
    ));
}

#[test]
fn failed_encoding_gives_fallback() {
    let response = ProblemResponse::from_encoded(400, Err(EncodeError {}));
    assert_eq!(response.status(), 500);
    assert_eq!(response.body, INTERNAL_SERVER_ERROR_PROBLEM.as_bytes().to_vec());
    assert_problem_content_type(&response);
    let text = body_text(&response);
    assert!(text.contains(r#""type": "internal_server_error""#));
    assert!(text.contains(r#""status": 500"#));
}

#[test]
fn successful_encoding_keeps_body() {
    let response = ProblemResponse::from_encoded(404, Ok(b"{}".to_vec()));
    assert_eq!(response.status(), 404);
    assert_eq!(response.body, b"{}".to_vec());
    assert_problem_content_type(&response);
    let response = ProblemResponse::from_encoded(42, Ok(b"{}".to_vec()));
    assert_eq!(response.status(), 500);
}

#[test]
fn content_type_constants() {
    assert_eq!(CONTENT_TYPE, "content-type");
    assert_eq!(APPLICATION_PROBLEM_JSON, "application/problem+json");
}

#[test]
fn invalid_request_parts() {
    assert_eq!(InvalidRequest::status(), 400);
    let inner = InvalidRequest::new(ValidationErrors { errors: vec![] }).into_inner();
    assert_eq!(inner.type_, "invalid_request");
    assert_eq!(inner.status, 400);
    assert_eq!(inner.title, "The request is invalid");
    assert_eq!(
        inner.detail,
        "The request is either malformed or doesn't match the expected schema"
    );
    assert!(inner.extensions.unwrap().errors.is_empty());
}

#[test]
fn strings_are_escaped() {
    let problem = ProblemDetails {
        type_: "quote\"d".into(),
        status: 400,
        title: "line\nbreak".into(),
        detail: "back\\slash".into(),
        extensions: Option::<()>::None,
    };
    assert_eq!(
        String::from_utf8(problem.encode()).unwrap(),
        r#"{"type":"quote\"d","status":400,"title":"line\nbreak","detail":"back\\slash"}"#
    );
}
