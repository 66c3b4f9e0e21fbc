use daapstt::realtime::{
    build_realtime_url, choose_url, classify_message, emit_error, fits_in_url,
    handle_socket_message, parse_incoming_message, serialize_audio_chunk, ErrorDetail,
    IncomingMessage, RealtimeConfig, RealtimeError, RealtimeEvent, RealtimeSession, SocketInput,
    SocketOutcome, WireMessage, MAX_KEYTERMS,
};
use daapstt::session::{ConnectResult, SendResult, SessionInput, SessionState, SessionStep};

fn message(message_type: &str) -> WireMessage {
    WireMessage {
        message_type: message_type.to_string(),
        text: None,
        code: None,
        message: None,
        error: None,
    }
}

fn with_text(message_type: &str, text: &str) -> WireMessage {
    WireMessage {
        text: Some(text.to_string()),
        ..message(message_type)
    }
}

fn with_error(message_type: &str, error: &str) -> WireMessage {
    WireMessage {
        error: Some(error.to_string()),
        ..message(message_type)
    }
}

#[test]
fn endpoint_has_required_query_and_encoded_repeated_keyterms() {
    let url = build_realtime_url(
        "wss://api.example.test/realtime?existing=yes",
        &vec!["alpha beta".to_string(), "C++/Rust".to_string()],
    )
    .unwrap();
    assert_eq!(
        url,
        "wss://api.example.test/realtime?existing=yes&model_id=scribe_v2_realtime&audio_format=pcm_16000&commit_strategy=vad&keyterms=alpha+beta&keyterms=C%2B%2B%2FRust"
    );
}

#[test]
fn endpoint_caps_keyterms_at_fifty() {
    let keyterms = (0..51).map(|value| value.to_string()).collect::<Vec<_>>();
    let url = build_realtime_url("wss://api.example.test/realtime", &keyterms).unwrap();
    let url = url::Url::parse(&url).unwrap();
    assert_eq!(
        url.query_pairs()
            .filter(|(key, _)| key == "keyterms")
            .count(),
        MAX_KEYTERMS
    );
}

#[test]
fn audio_serialization_encodes_pcm_and_optional_commit() {
    assert_eq!(
        serialize_audio_chunk(&[0, 1, 255], false).unwrap(),
        r#"{"message_type":"input_audio_chunk","audio_base_64":"AAH/"}"#
    );
    assert_eq!(
        serialize_audio_chunk(&[], true).unwrap(),
        r#"{"message_type":"input_audio_chunk","audio_base_64":"","commit":true}"#
    );
}

#[test]
fn inbound_messages_are_classified() {
    assert_eq!(
        parse_incoming_message(Some(message("session_started"))).unwrap(),
        IncomingMessage::SessionStarted
    );
    assert_eq!(
        parse_incoming_message(Some(with_text("partial_transcript", "draft"))).unwrap(),
        IncomingMessage::PartialTranscript("draft".to_string())
    );
    assert_eq!(
        parse_incoming_message(Some(with_text("partial_transcript", ""))).unwrap(),
        IncomingMessage::PartialTranscript(String::new())
    );
    assert_eq!(
        parse_incoming_message(Some(with_text("committed_transcript", " final "))).unwrap(),
        IncomingMessage::CommittedTranscript(" final ".to_string())
    );
    assert_eq!(
        parse_incoming_message(Some(with_error(
            "error",
            r#"{"code":"rate_limited","message":"slow down"}"#
        )))
        .unwrap(),
        IncomingMessage::ProviderError {
            code: Some("rate_limited".to_string()),
            message: "slow down".to_string(),
        }
    );
    assert_eq!(
        parse_incoming_message(Some(WireMessage {
            message: Some("invalid key".to_string()),
            ..message("auth_error")
        }))
        .unwrap(),
        IncomingMessage::ProviderError {
            code: Some("auth_error".to_string()),
            message: "invalid key".to_string(),
        }
    );
    assert_eq!(
        parse_incoming_message(Some(with_error("rate_limited", r#""slow down""#))).unwrap(),
        IncomingMessage::ProviderError {
            code: Some("rate_limited".to_string()),
            message: "slow down".to_string(),
        }
    );
}

#[test]
fn partial_transcripts_are_emitted_including_empty_text() {
    for text in ["draft", ""] {
        let (events, outcome) = handle_socket_message(SocketInput::Text(Some(with_text(
            "partial_transcript",
            text,
        ))));
        assert_eq!(outcome, SocketOutcome::Continue);
        assert_eq!(events, [RealtimeEvent::PartialTranscript(text.to_string())]);
    }
}

#[test]
fn malformed_messages_are_rejected_and_blank_commits_are_ignored() {
    assert_eq!(
        parse_incoming_message(None),
        Err(RealtimeError::InvalidMessage)
    );
    let (events, outcome) = handle_socket_message(SocketInput::Text(Some(with_text(
        "committed_transcript",
        "  ",
    ))));
    assert_eq!(outcome, SocketOutcome::Continue);
    assert!(events.is_empty());
}

#[test]
fn only_websocket_endpoints_with_a_host_are_used() {
    for endpoint in [
        "https://api.example.test/realtime",
        "not a url",
        "",
        "ws:",
        "wss://",
        "mailto:someone@example.test",
    ] {
        assert_eq!(
            build_realtime_url(endpoint, &vec![]),
            Err(RealtimeError::InvalidEndpoint)
        );
    }
    assert_eq!(
        build_realtime_url("WS://Example.Test#part", &vec![]).unwrap(),
        "ws://example.test/?model_id=scribe_v2_realtime&audio_format=pcm_16000&commit_strategy=vad#part"
    );
    assert_eq!(
        choose_url(
            Some(("wss".to_string(), Some("example.test".to_string()))),
            Some("url".to_string())
        ),
        Ok("url".to_string())
    );
    for (parts, extended) in [
        (None, Some("url".to_string())),
        (
            Some(("http".to_string(), Some("example.test".to_string()))),
            Some("url".to_string()),
        ),
        (Some(("wss".to_string(), None)), Some("url".to_string())),
        (
            Some(("wss".to_string(), Some("example.test".to_string()))),
            None,
        ),
    ] {
        assert_eq!(
            choose_url(parts, extended),
            Err(RealtimeError::InvalidEndpoint)
        );
    }
}

#[test]
fn url_sizes_are_bounded() {
    assert!(fits_in_url("wss://example.test", &vec!["term".to_string()]));
    assert!(!fits_in_url(&"a".repeat(4_294_962), &vec![]));
    assert!(fits_in_url(&"a".repeat(4_294_961), &vec![]));
    assert!(!fits_in_url(&"a".repeat(4_294_961), &vec!["b".repeat(100)]));
}

#[test]
fn sessions_need_an_endpoint_and_a_key() {
    let config = |endpoint: &str, api_key: &str| RealtimeConfig {
        endpoint: endpoint.to_string(),
        api_key: api_key.to_string(),
        keyterms: vec![],
    };
    let session = RealtimeSession::start(config("wss://example.test", "secret")).unwrap();
    assert_eq!(session.api_key, "secret");
    assert!(!session.url.contains("secret"));
    assert_eq!(
        RealtimeSession::start(config("wss://example.test", " ")),
        Err(RealtimeError::InvalidApiKey)
    );
    assert_eq!(
        RealtimeSession::start(config("nowhere", "")),
        Err(RealtimeError::InvalidEndpoint)
    );
}

#[test]
fn audio_is_encoded_in_padded_base64() {
    let encoded = |pcm: &[u8]| {
        let message = serialize_audio_chunk(pcm, false).unwrap();
        let start = message.find("base_64\":\"").unwrap() + 10;
        message[start..message.len() - 2].to_string()
    };
    assert_eq!(encoded(b"f"), "Zg==");
    assert_eq!(encoded(b"fo"), "Zm8=");
    assert_eq!(encoded(b"foo"), "Zm9v");
    assert_eq!(encoded(b"foobar"), "Zm9vYmFy");
    assert_eq!(encoded(&[0xfb, 0xff, 0xbf]), "+/+/");
    let all: Vec<u8> = (0..=255).collect();
    assert_eq!(
        base64::Engine::decode(
            &base64::engine::general_purpose::STANDARD,
            encoded(&all)
        )
        .unwrap(),
        all
    );
}

#[test]
fn frames_are_valid_json() {
    let message = serialize_audio_chunk(&[1, 2, 3, 4], true).unwrap();
    let value: serde_json::Value = serde_json::from_str(&message).unwrap();
    assert_eq!(value["message_type"], "input_audio_chunk");
    assert_eq!(value["audio_base_64"], "AQIDBA==");
    assert_eq!(value["commit"], true);
}

#[test]
fn an_errors_own_words_go_first() {
    let wire = WireMessage {
        code: Some("outer".to_string()),
        message: Some("outside".to_string()),
        ..message("input_error")
    };
    assert_eq!(
        classify_message(
            wire.clone(),
            ErrorDetail {
                code: Some("inner".to_string()),
                message: Some("inside".to_string()),
                text: Some("text".to_string()),
            }
        ),
        IncomingMessage::ProviderError {
            code: Some("inner".to_string()),
            message: "inside".to_string(),
        }
    );
    assert_eq!(
        parse_incoming_message(Some(WireMessage {
            error: Some(r#"{"code":7,"message":null}"#.to_string()),
            ..wire
        }))
        .unwrap(),
        IncomingMessage::ProviderError {
            code: Some("outer".to_string()),
            message: "outside".to_string(),
        }
    );
    assert_eq!(
        parse_incoming_message(Some(with_error("queue_overflow", "[1,2]"))).unwrap(),
        IncomingMessage::ProviderError {
            code: Some("queue_overflow".to_string()),
            message: "realtime service error".to_string(),
        }
    );
    assert_eq!(
        parse_incoming_message(Some(message("anything_else"))).unwrap(),
        IncomingMessage::Other
    );
}

#[test]
fn errors_are_told_without_secrets() {
    assert_eq!(
        RealtimeError::Provider {
            code: Some("auth_error".to_string()),
            message: "no".to_string()
        }
        .message(),
        "realtime provider error (auth_error): no"
    );
    assert_eq!(
        RealtimeError::Provider {
            code: None,
            message: "no".to_string()
        }
        .message(),
        "realtime provider error: no"
    );
    for (error, text) in [
        (RealtimeError::InvalidEndpoint, "invalid realtime endpoint"),
        (RealtimeError::InvalidApiKey, "invalid realtime API key"),
        (RealtimeError::ConnectionFailed, "realtime connection failed"),
        (
            RealtimeError::WebSocketFailed,
            "realtime WebSocket operation failed",
        ),
        (
            RealtimeError::InvalidMessage,
            "invalid realtime server message",
        ),
        (RealtimeError::TaskFailed, "realtime session task failed"),
    ] {
        assert_eq!(error.message(), text);
    }
}

#[test]
fn the_socket_ends_a_session() {
    assert_eq!(
        handle_socket_message(SocketInput::Closed),
        (vec![RealtimeEvent::Completed], SocketOutcome::Ended)
    );
    assert_eq!(
        handle_socket_message(SocketInput::Failed),
        (
            emit_error(RealtimeError::WebSocketFailed),
            SocketOutcome::Ended
        )
    );
    assert_eq!(
        handle_socket_message(SocketInput::Text(None)),
        (
            emit_error(RealtimeError::InvalidMessage),
            SocketOutcome::Ended
        )
    );
    assert_eq!(
        handle_socket_message(SocketInput::Ignored),
        (vec![], SocketOutcome::Continue)
    );
    let (events, outcome) =
        handle_socket_message(SocketInput::Text(Some(message("quota_exceeded"))));
    assert_eq!(outcome, SocketOutcome::Ended);
    assert_eq!(events.last(), Some(&RealtimeEvent::Completed));
}

fn run(inputs: Vec<SessionInput>) -> (SessionState, Vec<RealtimeEvent>, Vec<String>) {
    let mut state = SessionState::Connecting;
    let mut events = Vec::new();
    let mut sent = Vec::new();
    for input in inputs {
        let SessionStep {
            state: next,
            events: more,
            send,
        } = state.run_session(input);
        state = next;
        events.extend(more);
        sent.extend(send);
    }
    (state, events, sent)
}

#[test]
fn sessions_stream_then_commit_then_drain() {
    let (state, events, sent) = run(vec![
        SessionInput::Connect(ConnectResult::Connected),
        SessionInput::Socket(SocketInput::Text(Some(message("session_started")))),
        SessionInput::Audio(vec![1, 2]),
        SessionInput::Send(SendResult::Sent),
        SessionInput::AudioClosed,
        SessionInput::Finalize,
        SessionInput::Send(SendResult::Sent),
        SessionInput::Socket(SocketInput::Text(Some(with_text(
            "committed_transcript",
            "late",
        )))),
        SessionInput::Deadline,
        SessionInput::Socket(SocketInput::Failed),
    ]);
    assert_eq!(state, SessionState::Ended);
    assert_eq!(
        events,
        [
            RealtimeEvent::SessionStarted,
            RealtimeEvent::CommittedTranscript("late".to_string()),
            RealtimeEvent::Completed,
        ]
    );
    assert_eq!(
        sent,
        [
            r#"{"message_type":"input_audio_chunk","audio_base_64":"AQI="}"#,
            r#"{"message_type":"input_audio_chunk","audio_base_64":"","commit":true}"#,
        ]
    );
}

#[test]
fn failed_connections_end_sessions() {
    for (result, error) in [
        (ConnectResult::BadEndpoint, RealtimeError::InvalidEndpoint),
        (ConnectResult::BadKey, RealtimeError::InvalidApiKey),
        (ConnectResult::Refused, RealtimeError::ConnectionFailed),
    ] {
        let (state, events, _) = run(vec![SessionInput::Connect(result)]);
        assert_eq!(state, SessionState::Ended);
        assert_eq!(events, emit_error(error));
    }
}

#[test]
fn failed_messages_end_sessions() {
    for result in [SendResult::Failed, SendResult::TimedOut] {
        let (_, events, _) = run(vec![
            SessionInput::Connect(ConnectResult::Connected),
            SessionInput::Audio(vec![1]),
            SessionInput::Send(result),
        ]);
        assert_eq!(events, emit_error(RealtimeError::WebSocketFailed));
    }
    let (_, events, _) = run(vec![
        SessionInput::Connect(ConnectResult::Connected),
        SessionInput::Finalize,
        SessionInput::Send(SendResult::Failed),
    ]);
    assert_eq!(events, emit_error(RealtimeError::WebSocketFailed));
    let (_, events, _) = run(vec![
        SessionInput::Connect(ConnectResult::Connected),
        SessionInput::Finalize,
        SessionInput::Send(SendResult::TimedOut),
    ]);
    assert_eq!(events, [RealtimeEvent::Completed]);
}
