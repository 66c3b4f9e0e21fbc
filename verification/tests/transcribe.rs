use daapstt::keyterms::{MAX_TERMS, MAX_TERM_CHARS};
use daapstt::transcribe::{
    batch_error_notification, classify_status, form_fields, is_transient_status, reads_body,
    status_error, transcribe, transport_error, valid_keyterms, AttemptResult, StatusClass,
    TranscribeError, TranscribeStep, TransportFailure,
};
use reqwest::StatusCode;

#[test]
fn classifies_provider_statuses() {
    assert_eq!(
        classify_status(StatusCode::UNAUTHORIZED.as_u16()),
        StatusClass::Authentication
    );
    assert_eq!(
        classify_status(StatusCode::TOO_MANY_REQUESTS.as_u16()),
        StatusClass::RateLimited
    );
    assert_eq!(
        classify_status(StatusCode::BAD_REQUEST.as_u16()),
        StatusClass::Request
    );
    assert_eq!(
        classify_status(StatusCode::INTERNAL_SERVER_ERROR.as_u16()),
        StatusClass::Server
    );
}

#[test]
fn retries_only_server_statuses() {
    assert!(is_transient_status(StatusCode::BAD_GATEWAY.as_u16()));
    assert!(!is_transient_status(StatusCode::UNAUTHORIZED.as_u16()));
    assert!(!is_transient_status(StatusCode::TOO_MANY_REQUESTS.as_u16()));
    assert!(!is_transient_status(StatusCode::UNPROCESSABLE_ENTITY.as_u16()));
}

#[test]
fn filters_and_limits_keyterms() {
    let too_long = "a".repeat(MAX_TERM_CHARS + 1);
    let terms = valid_keyterms(vec![
        "valid term".to_string(),
        String::new(),
        too_long,
        "one two three four five six".to_string(),
        "invalid[term".to_string(),
    ]);
    assert_eq!(terms, vec!["valid term"]);

    let capped = valid_keyterms((0..MAX_TERMS + 1).map(|n| format!("term{n}")).collect());
    assert_eq!(capped.len(), MAX_TERMS);
}

#[test]
fn success_statuses_have_a_body_to_read() {
    for status in 100..=999_u16 {
        let expected = StatusCode::from_u16(status).unwrap().is_success();
        assert_eq!(reads_body(status), expected);
    }
}

const TIMEOUT: TransportFailure = TransportFailure {
    timeout: true,
    connect: false,
};
const NO_CONNECTION: TransportFailure = TransportFailure {
    timeout: false,
    connect: true,
};
const OTHER: TransportFailure = TransportFailure {
    timeout: false,
    connect: false,
};

#[test]
fn transient_failures_are_retried_twice() {
    for failure in [
        AttemptResult::Transport(TIMEOUT),
        AttemptResult::Transport(NO_CONNECTION),
        AttemptResult::Status(503),
    ] {
        assert_eq!(
            transcribe(0, failure.clone()),
            TranscribeStep::Retry {
                attempt: 1,
                backoff_secs: 1
            }
        );
        assert_eq!(
            transcribe(1, failure.clone()),
            TranscribeStep::Retry {
                attempt: 2,
                backoff_secs: 2
            }
        );
        assert!(matches!(transcribe(2, failure), TranscribeStep::Failed(_)));
    }
}

#[test]
fn other_outcomes_end_the_transcription() {
    assert_eq!(
        transcribe(0, AttemptResult::Text(" \"Hello...\" ".to_string())),
        TranscribeStep::Transcript("Hello".to_string())
    );
    for (result, error) in [
        (AttemptResult::Transport(OTHER), TranscribeError::Network),
        (AttemptResult::Status(401), TranscribeError::Authentication),
        (AttemptResult::Status(429), TranscribeError::RateLimited),
        (AttemptResult::Status(404), TranscribeError::Request(404)),
        (AttemptResult::InvalidResponse, TranscribeError::InvalidResponse),
    ] {
        assert_eq!(transcribe(0, result), TranscribeStep::Failed(error));
    }
    assert_eq!(
        transcribe(2, AttemptResult::Status(500)),
        TranscribeStep::Failed(TranscribeError::Server(500))
    );
    assert_eq!(transport_error(TIMEOUT), TranscribeError::TimedOut);
    assert_eq!(transport_error(NO_CONNECTION), TranscribeError::Network);
    assert_eq!(status_error(599), TranscribeError::Server(599));
    assert_eq!(status_error(600), TranscribeError::Request(600));
}

#[test]
fn errors_are_spelled_out() {
    assert_eq!(
        TranscribeError::Server(502).message(),
        "ElevenLabs server error (502)"
    );
    assert_eq!(
        TranscribeError::Request(422).message(),
        "ElevenLabs request error (422)"
    );
    assert_eq!(
        TranscribeError::Authentication.message(),
        "authentication failed (401) — check ELEVENLABS_API_KEY in ~/.config/voice-daemon/env"
    );
    assert_eq!(
        TranscribeError::TimedOut.message(),
        "transcription request timed out"
    );
}

#[test]
fn notifications_fit_the_error() {
    for (error, notice) in [
        (
            TranscribeError::RateLimited,
            "Rate limited — try again shortly",
        ),
        (
            TranscribeError::Authentication,
            "Authentication failed — check ELEVENLABS_API_KEY",
        ),
        (
            TranscribeError::Network,
            "Transcription failed — check network connection",
        ),
        (TranscribeError::Server(500), "Transcription failed"),
        (TranscribeError::NoKeyterms, "Transcription failed"),
        (TranscribeError::NoClient, "Transcription failed"),
    ] {
        assert_eq!(batch_error_notification(&error.message()), notice);
    }
    assert_eq!(
        batch_error_notification("connect timeout"),
        "Transcription failed — check network connection"
    );
}

#[test]
fn each_keyterm_is_a_field() {
    let fields = form_fields(&vec!["a".to_string(), "b c".to_string()]);
    assert_eq!(
        fields,
        [
            ("model_id", "scribe_v2".to_string()),
            ("keyterms", "a".to_string()),
            ("keyterms", "b c".to_string()),
        ]
    );
}
