use std::collections::VecDeque;
use std::time::Duration;

use reqwest::StatusCode;

use evocode::message::Message;
use evocode::provider::{
    attempted_error, bounded_error_body, delay_parts, first_choice, format_http_error, is_retryable_status,
    next_retry_action, retry_after_delay, retry_delay, AttemptResult, RetryAction,
    MAX_REQUEST_ATTEMPTS, MAX_RETRY_DELAY_SECS,
};

/// The `error.message` of an API error body, as the application reads it.
fn error_message(body: &str) -> Option<String> {
    serde_json::from_str::<serde_json::Value>(body)
        .ok()
        .and_then(|value| value["error"]["message"].as_str().map(String::from))
}

/// Runs the request loop over canned attempt results, returning the content
/// of the answer or the error.
fn execute_with_retry(attempts: &mut VecDeque<AttemptResult>) -> Result<String, String> {
    for attempt in 1..=MAX_REQUEST_ATTEMPTS {
        let result = attempts.pop_front().expect("an attempt should remain");
        let message = match &result {
            AttemptResult::Http { body, .. } => error_message(body),
            AttemptResult::Failure { .. } => None,
        };
        match next_retry_action(attempt, result, message, 0) {
            RetryAction::Parse(body) => {
                let value: serde_json::Value = serde_json::from_str(&body).expect("json");
                return Ok(value["choices"][0]["message"]["content"]
                    .as_str()
                    .unwrap_or_default()
                    .to_string());
            }
            RetryAction::Wait(_) => continue,
            RetryAction::Fail(error) => return Err(error),
        }
    }
    unreachable!("the last attempt never waits")
}

fn http(status: StatusCode, body: &str) -> AttemptResult {
    AttemptResult::Http {
        status: status.as_u16(),
        body: String::from(body),
        retry_after_nanos: None,
    }
}

#[test]
fn retries_temporary_errors_and_returns_the_next_response() {
    let mut attempts = VecDeque::from([
        http(StatusCode::SERVICE_UNAVAILABLE, r#"{"error":{"message":"try again"}}"#),
        http(
            StatusCode::OK,
            r#"{"choices":[{"message":{"role":"assistant","content":"recovered"}}]}"#,
        ),
    ]);

    let response = execute_with_retry(&mut attempts).expect("request should recover");

    assert_eq!(response, "recovered");
    assert!(attempts.is_empty());
}

#[test]
fn does_not_retry_permanent_api_errors() {
    let mut attempts = VecDeque::from([
        http(StatusCode::UNAUTHORIZED, r#"{"error":{"message":"bad API key"}}"#),
        http(
            StatusCode::OK,
            r#"{"choices":[{"message":{"role":"assistant","content":"unexpected"}}]}"#,
        ),
    ]);

    let error = execute_with_retry(&mut attempts).expect_err("request should fail");

    assert_eq!(error, "Groq returned 401 Unauthorized: bad API key");
    assert_eq!(attempts.len(), 1);
}

#[test]
fn reports_when_all_retry_attempts_are_exhausted() {
    let mut attempts = VecDeque::from(
        (0..MAX_REQUEST_ATTEMPTS)
            .map(|_| {
                http(
                    StatusCode::SERVICE_UNAVAILABLE,
                    r#"{"error":{"message":"still unavailable"}}"#,
                )
            })
            .collect::<Vec<_>>(),
    );

    let error = execute_with_retry(&mut attempts).expect_err("request should fail after all attempts");

    assert_eq!(
        error,
        "Groq returned 503 Service Unavailable: still unavailable after 3 attempts"
    );
    assert!(attempts.is_empty());
}

#[test]
fn retries_only_temporary_status_codes() {
    for status in [
        StatusCode::REQUEST_TIMEOUT,
        StatusCode::TOO_MANY_REQUESTS,
        StatusCode::INTERNAL_SERVER_ERROR,
        StatusCode::BAD_GATEWAY,
        StatusCode::SERVICE_UNAVAILABLE,
        StatusCode::GATEWAY_TIMEOUT,
    ] {
        assert!(is_retryable_status(status.as_u16()));
    }
    assert!(!is_retryable_status(StatusCode::BAD_REQUEST.as_u16()));
    assert!(!is_retryable_status(StatusCode::UNAUTHORIZED.as_u16()));
}

#[test]
fn caps_retry_after_and_error_body_sizes() {
    let retry_after = reqwest::header::HeaderValue::from_static("120");
    assert_eq!(
        retry_after_delay(Some(retry_after.as_bytes())),
        Some(Duration::from_secs(MAX_RETRY_DELAY_SECS).as_nanos())
    );

    let body = format!(r#"{{"error":{{"message":"{}"}}}}"#, "x".repeat(2_000));
    let error = format_http_error(StatusCode::BAD_REQUEST.as_u16(), &body, error_message(&body));
    assert!(error.ends_with("..."));
    assert!(error.len() < 1_100);
}

#[test]
fn reads_retry_after_values() {
    assert_eq!(retry_after_delay(None), None);
    assert_eq!(retry_after_delay(Some(b"7")), Some(7_000_000_000));
    assert_eq!(retry_after_delay(Some(b"+2")), Some(2_000_000_000));
    assert_eq!(retry_after_delay(Some(b" 7")), None);
    assert_eq!(retry_after_delay(Some(b"soon")), None);
    assert_eq!(retry_after_delay(Some(b"\x7f")), None);
    assert_eq!(retry_after_delay(Some(b"99999999999999999999")), None);
}

#[test]
fn doubles_the_delay_for_each_attempt() {
    let base = Duration::from_millis(250);
    for attempt in 1..=32usize {
        let expected = base.saturating_mul(2_u32.pow((attempt - 1) as u32));
        assert_eq!(retry_delay(attempt, base.as_nanos(), None), expected.as_nanos());
    }
    assert_eq!(retry_delay(3, 250_000_000, None), Duration::from_secs(1).as_nanos());
    assert_eq!(
        retry_delay(2, 250_000_000, Some(Duration::from_secs(5).as_nanos())),
        Duration::from_secs(5).as_nanos()
    );
    assert_eq!(retry_delay(0, 250_000_000, Some(7)), 7);
    let big = Duration::from_millis((1u64 << 63) - 1);
    assert_eq!(
        retry_delay(3, big.as_nanos(), None),
        big.saturating_mul(4).as_nanos()
    );
    assert_eq!(
        retry_delay(32, Duration::MAX.as_nanos() / 2, None),
        Duration::MAX.as_nanos()
    );
    let (secs, nanos) = delay_parts(Duration::MAX.as_nanos());
    assert_eq!(Duration::new(secs, nanos), Duration::MAX);
    assert_eq!(delay_parts(1_500_000_000), (1, 500_000_000));
}

#[test]
fn waits_before_retrying_failures() {
    let action = next_retry_action(
        1,
        AttemptResult::Failure {
            error: String::from("Groq request failed: timeout"),
            retryable: true,
        },
        None,
        250_000_000,
    );
    assert!(matches!(action, RetryAction::Wait(250_000_000)));
    let action = next_retry_action(
        2,
        AttemptResult::Http {
            status: 429,
            body: String::new(),
            retry_after_nanos: Some(3_000),
        },
        None,
        250_000_000,
    );
    assert!(matches!(action, RetryAction::Wait(3_000)));
    match next_retry_action(
        3,
        AttemptResult::Failure {
            error: String::from("Groq request failed: timeout"),
            retryable: true,
        },
        None,
        250_000_000,
    ) {
        RetryAction::Fail(error) => assert_eq!(error, "Groq request failed: timeout after 3 attempts"),
        _ => panic!("the last attempt should fail"),
    }
    match next_retry_action(
        1,
        AttemptResult::Failure {
            error: String::from("Groq request failed: bad url"),
            retryable: false,
        },
        None,
        250_000_000,
    ) {
        RetryAction::Fail(error) => assert_eq!(error, "Groq request failed: bad url"),
        _ => panic!("a permanent failure should not be retried"),
    }
}

#[test]
fn formats_http_errors() {
    assert_eq!(
        format_http_error(500, "  ", None),
        "Groq returned 500 Internal Server Error"
    );
    assert_eq!(
        format_http_error(400, " plain text ", Some(String::from("  "))),
        "Groq returned 400 Bad Request: plain text"
    );
    assert_eq!(
        format_http_error(599, "oops", None),
        "Groq returned 599 <unknown status code>: oops"
    );
    assert_eq!(bounded_error_body(&"z".repeat(1_001)), format!("{}...", "z".repeat(1_000)));
    assert_eq!(attempted_error(String::from("e"), 1), "e");
    assert_eq!(attempted_error(String::from("e"), 2), "e after 2 attempts");
}

#[test]
fn takes_the_first_choice() {
    let error = first_choice(Vec::new()).expect_err("no choices");
    assert_eq!(error, "The model returned no choices");
    let message = first_choice(vec![
        Message::text("assistant", String::from("first")),
        Message::text("assistant", String::from("second")),
    ])
    .expect("a choice");
    assert_eq!(message.content.as_deref(), Some("first"));
}

#[test]
fn rejects_response_without_choices() {
    let body: serde_json::Value =
        serde_json::from_str(r#"{"choices": []}"#).expect("body should parse");
    let choices: Vec<Message> = body["choices"]
        .as_array()
        .expect("choices should be a list")
        .iter()
        .map(|choice| Message::text("assistant", choice["message"]["content"].to_string()))
        .collect();
    let error = first_choice(choices).expect_err("response should fail");

    assert_eq!(error, "The model returned no choices");
}
