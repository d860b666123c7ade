use waywallen::plugin::source::redact::redact_secrets;

const MESSAGE: &str = "access_token=access-secret&refresh_token=refresh-secret\nAuthorization: Bearer bearer-secret\nCookie: session-secret\n{\"access_token\": \"json-secret\"}";

fn assert_redacted(redacted: &str) {
    assert!(!redacted.contains("access-secret"));
    assert!(!redacted.contains("refresh-secret"));
    assert!(!redacted.contains("bearer-secret"));
    assert!(!redacted.contains("session-secret"));
    assert!(!redacted.contains("json-secret"));
}

#[test]
fn tests_remote_errors_redact_credentials() {
    assert_redacted(&redact_secrets(MESSAGE));
}

#[test]
fn source_manager_remote_errors_redact_credentials() {
    assert_redacted(&redact_secrets(MESSAGE));
}

#[test]
fn what_is_no_secret_stays() {
    assert_eq!(redact_secrets("request failed: 404"), "request failed: 404");
    assert_eq!(
        redact_secrets("access_token=abc&page=2"),
        "access_token=[REDACTED]&page=2"
    );
    assert_eq!(redact_secrets("Cookie: a=b; c=d\nnext"), "Cookie: [REDACTED]\nnext");
}

#[test]
fn every_secret_of_a_message_is_masked() {
    assert_eq!(
        redact_secrets("access_token=one access_token=two"),
        "access_token=[REDACTED] access_token=[REDACTED]"
    );
    assert_eq!(redact_secrets("access_token="), "access_token=[REDACTED]");
}
