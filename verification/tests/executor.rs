use qcli::executor::{
    classify_exchange, Body, Exchange, FailureKind, LogLevel, QuayFnArguments, QuayResponse,
    RequestError,
};
use qcli::json::JsonValue;
use qcli::report::{Report, Verdict};
use qcli::request::Field;
use qcli::executor::ActionResult;
use qcli::store::QuayXmlConfig;

fn arguments(token: &str, tls_verify: bool, log_level: LogLevel) -> QuayFnArguments {
    QuayFnArguments {
        token: token.to_string(),
        log_level,
        log_verbosity: 0,
        timeout: 5,
        tls_verify,
        mirror_login: None,
    }
}

fn store(log_verbosity: u8) -> QuayXmlConfig {
    QuayXmlConfig::new(&"conf".to_string(), 300, LogLevel::Info, log_verbosity, 5, true, true, None)
        .unwrap()
}

fn answer(status_code: u16) -> ActionResult {
    Ok(QuayResponse {
        response: JsonValue::Null,
        status_code,
        description: "Org: acme Endpoint: quay.example.com".to_string(),
    })
}

fn failure(kind: FailureKind) -> ActionResult {
    Err(RequestError { kind, cause: "cause".to_string(), description: "acme".to_string() })
}

#[test]
fn headers_carry_the_bearer_token() {
    assert_eq!(
        arguments("s3cr3t", true, LogLevel::Info).headers(),
        vec![
            Field::new("Content-Type", "application/json"),
            Field::new("accept", "application/json"),
            Field::new("Authorization", "Bearer s3cr3t"),
        ]
    );
}

#[test]
fn invalid_certificates_are_accepted_only_without_verification() {
    assert!(!arguments("t", true, LogLevel::Info).accept_invalid_certs());
    assert!(arguments("t", false, LogLevel::Info).accept_invalid_certs());
}

#[test]
fn answers_are_logged_at_debug_level() {
    assert!(arguments("t", true, LogLevel::Debug).logs_answers());
    for level in [LogLevel::Error, LogLevel::Warn, LogLevel::Info, LogLevel::Trace] {
        assert!(!arguments("t", true, level).logs_answers());
    }
}

#[test]
fn any_status_is_a_result() {
    for status in [200, 201, 204, 400, 401, 404, 409, 500, 503] {
        let payload = || JsonValue::Object(vec![("ok".to_string(), JsonValue::Bool(true))]);
        let outcome = classify_exchange(Exchange::Answered(status, Body::Json(payload())), "acme");
        assert_eq!(
            outcome,
            Ok(QuayResponse { response: payload(), status_code: status, description: "acme".to_string() })
        );
    }
}

#[test]
fn empty_body_is_a_result_without_payload() {
    let outcome = classify_exchange(Exchange::Answered(204, Body::Empty), "acme");
    assert_eq!(
        outcome,
        Ok(QuayResponse { response: JsonValue::Null, status_code: 204, description: "acme".to_string() })
    );
    assert!(outcome.unwrap().succeeded());
}

#[test]
fn malformed_body_is_a_failure() {
    let outcome = classify_exchange(
        Exchange::Answered(200, Body::Malformed("expected value at line 1".to_string())),
        "acme",
    );
    assert_eq!(
        outcome,
        Err(RequestError {
            kind: FailureKind::MalformedBody,
            cause: "expected value at line 1".to_string(),
            description: "acme".to_string(),
        })
    );
}

#[test]
fn no_connection_is_a_failure() {
    let outcome = classify_exchange(Exchange::Unreachable("connection refused".to_string()), "acme");
    assert_eq!(
        outcome,
        Err(RequestError {
            kind: FailureKind::Unreachable,
            cause: "connection refused".to_string(),
            description: "acme".to_string(),
        })
    );
}

#[test]
fn timeout_is_a_failure() {
    let outcome = classify_exchange(Exchange::TimedOut("deadline has elapsed".to_string()), "acme");
    assert_eq!(
        outcome,
        Err(RequestError {
            kind: FailureKind::TimedOut,
            cause: "deadline has elapsed".to_string(),
            description: "acme".to_string(),
        })
    );
}

#[test]
fn status_of_success_is_200_to_299() {
    let succeeded = |status_code: u16| {
        QuayResponse { response: JsonValue::Null, status_code, description: String::new() }.succeeded()
    };
    assert!(succeeded(200));
    assert!(succeeded(204));
    assert!(succeeded(299));
    assert!(!succeeded(199));
    assert!(!succeeded(300));
    assert!(!succeeded(409));
    assert!(!succeeded(0));
    assert!(!succeeded(u16::MAX));
}

#[test]
fn success_is_shown_only_when_verbose() {
    let report = store(0).print_result(&answer(200));
    assert_eq!(
        report,
        Report {
            verdict: Verdict::Succeeded,
            description: "Org: acme Endpoint: quay.example.com".to_string(),
            shown: false,
        }
    );
    assert!(!store(4).print_result(&answer(201)).shown);
    assert!(store(5).print_result(&answer(201)).shown);
    assert!(store(10).print_result(&answer(201)).shown);
}

#[test]
fn answer_without_content_has_its_own_description() {
    let report = store(5).print_result(&answer(204));
    assert_eq!(
        report,
        Report {
            verdict: Verdict::Succeeded,
            description: "No Content success".to_string(),
            shown: true,
        }
    );
}

#[test]
fn refusal_is_always_shown() {
    for status in [400, 404, 409, 500] {
        let report = store(0).print_result(&answer(status));
        assert_eq!(
            report,
            Report {
                verdict: Verdict::Refused(status),
                description: "Org: acme Endpoint: quay.example.com".to_string(),
                shown: true,
            }
        );
    }
}

#[test]
fn failure_is_always_shown() {
    for kind in [FailureKind::Unreachable, FailureKind::TimedOut, FailureKind::MalformedBody] {
        let report = store(0).print_result(&failure(kind));
        assert_eq!(
            report,
            Report { verdict: Verdict::Failed(kind), description: "acme".to_string(), shown: true }
        );
    }
}

#[test]
fn messages_are_written_only_when_verbose() {
    assert_eq!(QuayXmlConfig::write_log(0, "Found 2 unique Quay endpoint(s)"), None);
    assert_eq!(QuayXmlConfig::write_log(4, "Found 2 unique Quay endpoint(s)"), None);
    assert_eq!(
        QuayXmlConfig::write_log(5, "Found 2 unique Quay endpoint(s)"),
        Some("Found 2 unique Quay endpoint(s)".to_string())
    );
    assert_eq!(QuayXmlConfig::write_log(255, ""), Some(String::new()));
}
