//! Minimal ElevenLabs Scribe v2 Realtime WebSocket transport.
//!
//! This module owns only transport concerns: what is sent, what the messages
//! that come back mean, and when a session is over. It does not reconnect, and
//! it does not interpret partial transcripts.

use crate::encoding;
use crate::json;
use crate::text;
use vstd::prelude::*;

verus! {

/// The maximum number of keyterms accepted by the realtime endpoint.
pub const MAX_KEYTERMS: usize = 50;

/// The maximum time spent waiting for the server after a final commit, and for
/// sending one message, in seconds.
pub const FINALIZE_TIMEOUT_SECS: u64 = 3;

/// The header that carries the API key.
pub const API_KEY_HEADER: &'static str = "xi-api-key";

/// Settings used to establish one realtime session.
#[derive(Debug, Clone, PartialEq, Eq)]
pub struct RealtimeConfig {
    /// WebSocket base endpoint, supplied by the caller (for example, `wss://...`).
    pub endpoint: String,
    /// ElevenLabs API key. It is sent only as the `xi-api-key` request header.
    pub api_key: String,
    /// Optional vocabulary hints. At most the first 50 are sent.
    pub keyterms: Vec<String>,
}

/// A caller-visible event from a realtime session.
#[derive(Debug, Clone, PartialEq, Eq)]
pub enum RealtimeEvent {
    SessionStarted,
    /// Text from the current uncommitted transcript, including empty text to clear a UI tail.
    PartialTranscript(String),
    /// Text from a committed transcript. Empty or whitespace-only text is omitted.
    CommittedTranscript(String),
    /// A transport, protocol, or provider error. The session then completes.
    Error(RealtimeError),
    /// The socket closed cleanly, or finalization timed out after its final commit.
    Completed,
}

/// Commands that can be sent to a running session.
#[derive(Debug, Clone, Copy, PartialEq, Eq)]
pub enum RealtimeControl {
    /// Stop accepting audio, send a final commit, then wait briefly for completion.
    Finalize,
}

/// Error values are deliberately redacted: they never contain the endpoint or API key.
#[derive(Debug, Clone, PartialEq, Eq)]
pub enum RealtimeError {
    InvalidEndpoint,
    InvalidApiKey,
    ConnectionFailed,
    WebSocketFailed,
    InvalidMessage,
    Provider { code: Option<String>, message: String },
    TaskFailed,
}

/// What a [`RealtimeError`] says.
#[verifier::ext_equal]
pub enum ErrorView {
    InvalidEndpoint,
    InvalidApiKey,
    ConnectionFailed,
    WebSocketFailed,
    InvalidMessage,
    Provider { code: Option<Seq<char>>, message: Seq<char> },
    TaskFailed,
}

impl View for RealtimeError {
    type V = ErrorView;

    open spec fn view(&self) -> ErrorView {
        match *self {
            RealtimeError::InvalidEndpoint => ErrorView::InvalidEndpoint,
            RealtimeError::InvalidApiKey => ErrorView::InvalidApiKey,
            RealtimeError::ConnectionFailed => ErrorView::ConnectionFailed,
            RealtimeError::WebSocketFailed => ErrorView::WebSocketFailed,
            RealtimeError::InvalidMessage => ErrorView::InvalidMessage,
            RealtimeError::Provider { code, message } => ErrorView::Provider {
                code: text::opt_view(code),
                message: message@,
            },
            RealtimeError::TaskFailed => ErrorView::TaskFailed,
        }
    }
}

/// What a [`RealtimeEvent`] says.
#[verifier::ext_equal]
pub enum EventView {
    SessionStarted,
    PartialTranscript(Seq<char>),
    CommittedTranscript(Seq<char>),
    Error(ErrorView),
    Completed,
}

impl View for RealtimeEvent {
    type V = EventView;

    open spec fn view(&self) -> EventView {
        match *self {
            RealtimeEvent::SessionStarted => EventView::SessionStarted,
            RealtimeEvent::PartialTranscript(content) => EventView::PartialTranscript(content@),
            RealtimeEvent::CommittedTranscript(content) => EventView::CommittedTranscript(
                content@,
            ),
            RealtimeEvent::Error(error) => EventView::Error(error@),
            RealtimeEvent::Completed => EventView::Completed,
        }
    }
}

/// What a list of events says.
pub open spec fn event_views(list: Seq<RealtimeEvent>) -> Seq<EventView> {
    Seq::new(list.len(), |i: int| list[i]@)
}

impl ErrorView {
    /// The error as it is logged.
    pub open spec fn text(self) -> Seq<char> {
        match self {
            ErrorView::InvalidEndpoint => "invalid realtime endpoint"@,
            ErrorView::InvalidApiKey => "invalid realtime API key"@,
            ErrorView::ConnectionFailed => "realtime connection failed"@,
            ErrorView::WebSocketFailed => "realtime WebSocket operation failed"@,
            ErrorView::InvalidMessage => "invalid realtime server message"@,
            ErrorView::Provider { code: Some(code), message } => "realtime provider error ("@
                + code + "): "@ + message,
            ErrorView::Provider { code: None, message } => "realtime provider error: "@ + message,
            ErrorView::TaskFailed => "realtime session task failed"@,
        }
    }
}

impl RealtimeError {
    /// The error as it is logged.
    pub fn message(&self) -> (res: String)
        ensures
            res@ == self@.text(),
    {
        match self {
            RealtimeError::InvalidEndpoint => "invalid realtime endpoint".to_owned(),
            RealtimeError::InvalidApiKey => "invalid realtime API key".to_owned(),
            RealtimeError::ConnectionFailed => "realtime connection failed".to_owned(),
            RealtimeError::WebSocketFailed => "realtime WebSocket operation failed".to_owned(),
            RealtimeError::InvalidMessage => "invalid realtime server message".to_owned(),
            RealtimeError::Provider { code, message } => match code {
                Some(code) => {
                    let mut res = "realtime provider error (".to_owned();
                    res.append(code.as_str());
                    res.append("): ");
                    res.append(message.as_str());
                    res
                },
                None => {
                    let mut res = "realtime provider error: ".to_owned();
                    res.append(message.as_str());
                    res
                },
            },
            RealtimeError::TaskFailed => "realtime session task failed".to_owned(),
        }
    }
}

/// The scheme of a URL, and its host where it has one; nothing where the text is
/// not a URL.
pub uninterp spec fn endpoint_parts(endpoint: Seq<char>) -> Option<(Seq<char>, Option<Seq<char>>)>;

/// A URL with names and values added to its query; nothing where the text is not
/// a URL.
pub uninterp spec fn url_with_query(
    endpoint: Seq<char>,
    pairs: Seq<(Seq<char>, Seq<char>)>,
) -> Option<Seq<char>>;

/// What a list of names and values says.
pub open spec fn pair_views(pairs: Seq<(&str, &str)>) -> Seq<(Seq<char>, Seq<char>)> {
    Seq::new(pairs.len(), |i: int| (pairs[i].0@, pairs[i].1@))
}

/// At most how many bytes names and values come to in a query: a character takes
/// no more than twelve, and a pair two more.
pub open spec fn query_bound(pairs: Seq<(Seq<char>, Seq<char>)>) -> nat
    decreases pairs.len(),
{
    if pairs.len() == 0 {
        0
    } else {
        query_bound(pairs.drop_last()) + 12 * pairs.last().0.len() + 12 * pairs.last().1.len() + 2
    }
}

/// What the scheme and the host of a URL say.
pub open spec fn parts_view(parts: Option<(String, Option<String>)>) -> Option<
    (Seq<char>, Option<Seq<char>>),
> {
    match parts {
        Some((scheme, host)) => Some((scheme@, text::opt_view(host))),
        None => None,
    }
}

/// Reads a URL with `Url::parse`, and takes `Url::scheme` and `Url::host_str` of
/// it. What the three calls give together depends on the text alone, and goes by
/// the name [`endpoint_parts`].
#[verifier::external_body]
fn parse_endpoint(endpoint: &str) -> (res: Option<(String, Option<String>)>)
    ensures
        parts_view(res) == endpoint_parts(endpoint@),
{
    let url = url::Url::parse(endpoint).ok()?;
    Some((url.scheme().to_owned(), url.host_str().map(str::to_owned)))
}

/// Reads a URL with `Url::parse` and adds to its query with
/// `Url::query_pairs_mut` and `extend_pairs`. The URL that comes of it depends on
/// the text and the pairs alone, and goes by the name [`url_with_query`]; there is
/// one exactly where the text can be read. `Url` keeps positions in 32 bits and
/// panics where they do not suffice, so the sizes are bounded.
#[verifier::external_body]
fn append_query(endpoint: &str, pairs: &Vec<(&str, &str)>) -> (res: Option<String>)
    requires
        1000 * endpoint@.len() + query_bound(pair_views(pairs@)) <= u32::MAX,
    ensures
        text::opt_view(res) == url_with_query(endpoint@, pair_views(pairs@)),
        res is Some <==> endpoint_parts(endpoint@) is Some,
{
    let mut url = url::Url::parse(endpoint).ok()?;
    url.query_pairs_mut().extend_pairs(pairs);
    Some(url.into())
}

/// The total length of texts.
pub open spec fn total_len(list: Seq<Seq<char>>) -> nat
    decreases list.len(),
{
    if list.len() == 0 {
        0
    } else {
        total_len(list.drop_last()) + list.last().len()
    }
}

/// The keyterms that are sent: the first fifty.
pub open spec fn sent_keyterms(keyterms: Seq<Seq<char>>) -> Seq<Seq<char>> {
    if keyterms.len() <= MAX_KEYTERMS {
        keyterms
    } else {
        keyterms.take(MAX_KEYTERMS as int)
    }
}

/// Whether a URL's 32-bit positions suffice for the endpoint and its keyterms.
///
/// A character of a host name grows where it is normalized and encoded, so each
/// character of the endpoint counts for a thousand bytes, which is ample.
pub open spec fn url_is_bounded(endpoint: Seq<char>, keyterms: Seq<Seq<char>>) -> bool {
    1000 * endpoint.len() + 12 * total_len(sent_keyterms(keyterms)) + 6000 <= u32::MAX
}

/// What is added to the query: the model, the audio format, how segments are
/// committed, and the keyterms.
pub open spec fn query(keyterms: Seq<Seq<char>>) -> Seq<(Seq<char>, Seq<char>)> {
    seq![
        ("model_id"@, "scribe_v2_realtime"@),
        ("audio_format"@, "pcm_16000"@),
        ("commit_strategy"@, "vad"@),
    ] + Seq::new(
        sent_keyterms(keyterms).len(),
        |i: int| ("keyterms"@, sent_keyterms(keyterms)[i]),
    )
}

/// Whether an endpoint is a WebSocket URL with a host.
pub open spec fn usable_endpoint(parts: Option<(Seq<char>, Option<Seq<char>>)>) -> bool {
    parts matches Some((scheme, host)) && (scheme == "ws"@ || scheme == "wss"@) && host is Some
}

/// The URL that a session connects to, given what reading the endpoint and adding
/// the query came to.
pub open spec fn session_url(
    parts: Option<(Seq<char>, Option<Seq<char>>)>,
    extended: Option<Seq<char>>,
) -> Option<Seq<char>> {
    if usable_endpoint(parts) {
        extended
    } else {
        None
    }
}

/// A session sends the first fifty keyterms, in their order, and no more.
pub proof fn law_the_first_fifty_keyterms_are_sent(keyterms: Seq<Seq<char>>)
    ensures
        query(keyterms).len() == 3 + (if keyterms.len() <= 50 {
            keyterms.len()
        } else {
            50
        }),
        forall|i: int|
            0 <= i < keyterms.len() && i < 50 ==> #[trigger] query(keyterms)[i + 3] == (
                "keyterms"@,
                keyterms[i],
            ),
{
}

/// Whether a URL's 32-bit positions suffice for the endpoint and its keyterms.
pub fn fits_in_url(endpoint: &str, keyterms: &Vec<String>) -> (res: bool)
    ensures
        res == url_is_bounded(endpoint@, text::views(keyterms@)),
{
    let ghost all = text::views(keyterms@);
    let ghost sent = sent_keyterms(all);
    let size: usize = text::to_chars(endpoint).len();
    if size as u64 > 4_294_961 {
        return false;
    }
    let mut total: u64 = 0;
    let mut i: usize = 0;
    assert(sent.take(0) == Seq::<Seq<char>>::empty());
    while i < keyterms.len() && i < MAX_KEYTERMS
        invariant
            i <= keyterms@.len(),
            i <= MAX_KEYTERMS,
            all == text::views(keyterms@),
            sent == sent_keyterms(all),
            i <= sent.len(),
            size == endpoint@.len(),
            size <= 4_294_961,
            total == total_len(sent.take(i as int)),
            total <= u32::MAX,
        decreases keyterms@.len() - i,
    {
        let next: usize = text::to_chars(keyterms[i].as_str()).len();
        assert(sent[i as int] == keyterms@[i as int]@);
        assert(sent.take(i as int + 1).drop_last() == sent.take(i as int));
        proof {
            lemma_total_len(sent, i as int + 1);
        }
        if next as u64 > u32::MAX as u64 || total + next as u64 > u32::MAX as u64 {
            return false;
        }
        total = total + next as u64;
        i = i + 1;
    }
    assert(sent.take(i as int) == sent);
    1000 * (size as u64) + 12 * total + 6000 <= u32::MAX as u64
}

proof fn lemma_total_len(list: Seq<Seq<char>>, count: int)
    requires
        0 <= count <= list.len(),
    ensures
        total_len(list.take(count)) <= total_len(list),
    decreases list.len(),
{
    if count < list.len() {
        lemma_total_len(list.drop_last(), count);
        assert(list.drop_last().take(count) == list.take(count));
    } else {
        assert(list.take(count) == list);
    }
}

fn query_pairs<'a>(keyterms: &'a Vec<String>) -> (res: Vec<(&'a str, &'a str)>)
    ensures
        pair_views(res@) == query(text::views(keyterms@)),
        query_bound(pair_views(res@)) <= 12 * total_len(sent_keyterms(text::views(keyterms@)))
            + 6000,
{
    let ghost all = text::views(keyterms@);
    let ghost sent = sent_keyterms(all);
    let mut res: Vec<(&'a str, &'a str)> = vec![
        ("model_id", "scribe_v2_realtime"),
        ("audio_format", "pcm_16000"),
        ("commit_strategy", "vad"),
    ];
    let ghost fixed = pair_views(res@);
    proof {
        reveal_strlit("model_id");
        reveal_strlit("scribe_v2_realtime");
        reveal_strlit("audio_format");
        reveal_strlit("pcm_16000");
        reveal_strlit("commit_strategy");
        reveal_strlit("vad");
        reveal_strlit("keyterms");
        assert(fixed.drop_last().drop_last().drop_last() == Seq::<(Seq<char>, Seq<char>)>::empty());
        assert(query_bound(fixed.drop_last().drop_last().drop_last()) == 0);
        assert(query_bound(fixed.drop_last().drop_last()) == 12 * 8 + 12 * 18 + 2);
        assert(query_bound(fixed.drop_last()) == 12 * 8 + 12 * 18 + 2 + 12 * 12 + 12 * 9 + 2);
        assert(query_bound(fixed) <= 1000);
        assert(sent.take(0) == Seq::<Seq<char>>::empty());
    }
    let mut i: usize = 0;
    while i < keyterms.len() && i < MAX_KEYTERMS
        invariant
            i <= keyterms@.len(),
            i <= MAX_KEYTERMS,
            all == text::views(keyterms@),
            sent == sent_keyterms(all),
            i <= sent.len(),
            "keyterms"@.len() == 8,
            fixed == seq![
                ("model_id"@, "scribe_v2_realtime"@),
                ("audio_format"@, "pcm_16000"@),
                ("commit_strategy"@, "vad"@),
            ],
            pair_views(res@) == fixed + Seq::new(
                i as nat,
                |j: int| ("keyterms"@, sent[j]),
            ),
            query_bound(pair_views(res@)) <= 1000 + 98 * i + 12 * total_len(sent.take(i as int)),
        decreases keyterms@.len() - i,
    {
        let ghost before = pair_views(res@);
        let term = keyterms[i].as_str();
        assert(sent[i as int] == term@);
        res.push(("keyterms", term));
        assert(pair_views(res@) == before.push(("keyterms"@, term@)));
        assert(pair_views(res@).drop_last() == before);
        assert(sent.take(i as int + 1).drop_last() == sent.take(i as int));
        assert(pair_views(res@) == fixed + Seq::new(
            (i + 1) as nat,
            |j: int| ("keyterms"@, sent[j]),
        ));
        i = i + 1;
    }
    assert(sent.take(i as int) == sent);
    res
}

/// Builds the endpoint URL without putting credentials in it.
pub fn build_realtime_url(endpoint: &str, keyterms: &Vec<String>) -> (res: Result<
    String,
    RealtimeError,
>)
    requires
        url_is_bounded(endpoint@, text::views(keyterms@)),
    ensures
        match res {
            Ok(url) => session_url(
                endpoint_parts(endpoint@),
                url_with_query(endpoint@, query(text::views(keyterms@))),
            ) == Some(url@),
            Err(error) => error is InvalidEndpoint && session_url(
                endpoint_parts(endpoint@),
                url_with_query(endpoint@, query(text::views(keyterms@))),
            ) is None,
        },
        res is Ok <==> usable_endpoint(endpoint_parts(endpoint@)),
{
    let parts = parse_endpoint(endpoint);
    let pairs = query_pairs(keyterms);
    let extended = append_query(endpoint, &pairs);
    choose_url(parts, extended)
}

/// The URL that a session connects to, given what reading the endpoint and adding
/// the query came to.
pub fn choose_url(
    parts: Option<(String, Option<String>)>,
    extended: Option<String>,
) -> (res: Result<String, RealtimeError>)
    ensures
        ({
            let expected = session_url(parts_view(parts), text::opt_view(extended));
            match res {
                Ok(url) => expected == Some(url@),
                Err(error) => error is InvalidEndpoint && expected is None,
            }
        }),
{
    if let Some((scheme, host)) = parts {
        let websocket = text::same_text(scheme.as_str(), "ws") || text::same_text(
            scheme.as_str(),
            "wss",
        );
        if websocket && host.is_some() {
            if let Some(url) = extended {
                return Ok(url);
            }
        }
    }
    Err(RealtimeError::InvalidEndpoint)
}

/// What a session needs to connect.
#[derive(Debug, Clone, PartialEq, Eq)]
pub struct RealtimeSession {
    pub url: String,
    pub api_key: String,
}

impl RealtimeSession {
    /// Checks the settings of a session before any network traffic: first the
    /// endpoint, then the key, which must not be blank.
    pub fn start(config: RealtimeConfig) -> (res: Result<RealtimeSession, RealtimeError>)
        requires
            url_is_bounded(config.endpoint@, text::views(config.keyterms@)),
        ensures
            ({
                let url = session_url(
                    endpoint_parts(config.endpoint@),
                    url_with_query(config.endpoint@, query(text::views(config.keyterms@))),
                );
                match res {
                    Ok(session) => {
                        &&& url == Some(session.url@)
                        &&& text::trim(config.api_key@).len() > 0
                        &&& session.api_key@ == config.api_key@
                    },
                    Err(error) => if url is None {
                        error is InvalidEndpoint
                    } else {
                        error is InvalidApiKey && text::trim(config.api_key@).len() == 0
                    },
                }
            }),
            res is Ok <==> usable_endpoint(endpoint_parts(config.endpoint@)) && text::trim(
                config.api_key@,
            ).len() > 0,
    {
        let url = match build_realtime_url(config.endpoint.as_str(), &config.keyterms) {
            Ok(url) => url,
            Err(error) => {
                return Err(error);
            },
        };
        if text::is_blank(config.api_key.as_str()) {
            return Err(RealtimeError::InvalidApiKey);
        }
        Ok(RealtimeSession { url, api_key: config.api_key })
    }
}

/// An audio frame as it is sent: a JSON object with the audio in base64, and a
/// commit mark where it is the last one.
pub open spec fn audio_message(pcm: Seq<u8>, commit: bool) -> Seq<char> {
    "{\"message_type\":\"input_audio_chunk\",\"audio_base_64\":\""@ + encoding::base64(pcm) + (
    if commit {
        "\",\"commit\":true}"@
    } else {
        "\"}"@
    })
}

/// Serializes a raw PCM frame using the realtime protocol's exact field names.
pub fn serialize_audio_chunk(pcm: &[u8], commit: bool) -> (res: Result<String, RealtimeError>)
    requires
        encoding::base64_len(pcm@.len()) <= isize::MAX,
    ensures
        res matches Ok(message) && message@ == audio_message(pcm@, commit),
{
    let mut message = "{\"message_type\":\"input_audio_chunk\",\"audio_base_64\":\"".to_owned();
    message.append(encoding::encode(pcm).as_str());
    if commit {
        message.append("\",\"commit\":true}");
    } else {
        message.append("\"}");
    }
    Ok(message)
}

/// A message from the provider.
#[derive(Debug, Clone, PartialEq, Eq)]
pub enum IncomingMessage {
    SessionStarted,
    PartialTranscript(String),
    CommittedTranscript(String),
    ProviderError { code: Option<String>, message: String },
    Other,
}

/// What an [`IncomingMessage`] says.
#[verifier::ext_equal]
pub enum IncomingView {
    SessionStarted,
    PartialTranscript(Seq<char>),
    CommittedTranscript(Seq<char>),
    ProviderError { code: Option<Seq<char>>, message: Seq<char> },
    Other,
}

impl View for IncomingMessage {
    type V = IncomingView;

    open spec fn view(&self) -> IncomingView {
        match *self {
            IncomingMessage::SessionStarted => IncomingView::SessionStarted,
            IncomingMessage::PartialTranscript(content) => IncomingView::PartialTranscript(
                content@,
            ),
            IncomingMessage::CommittedTranscript(content) => IncomingView::CommittedTranscript(
                content@,
            ),
            IncomingMessage::ProviderError { code, message } => IncomingView::ProviderError {
                code: text::opt_view(code),
                message: message@,
            },
            IncomingMessage::Other => IncomingView::Other,
        }
    }
}

/// The members of a provider message that matter. The error, which may be any
/// JSON value, is kept as JSON text.
#[derive(Debug, Clone, PartialEq, Eq)]
pub struct WireMessage {
    pub message_type: String,
    pub text: Option<String>,
    pub code: Option<String>,
    pub message: Option<String>,
    pub error: Option<String>,
}

/// The strings that the error of a message holds.
#[derive(Debug, Clone, PartialEq, Eq)]
pub struct ErrorDetail {
    /// The code, where the error is an object.
    pub code: Option<String>,
    /// The message, where the error is an object.
    pub message: Option<String>,
    /// The error itself, where it is a string.
    pub text: Option<String>,
}

/// What an [`ErrorDetail`] says.
#[verifier::ext_equal]
pub struct DetailView {
    pub code: Option<Seq<char>>,
    pub message: Option<Seq<char>>,
    pub text: Option<Seq<char>>,
}

impl View for ErrorDetail {
    type V = DetailView;

    open spec fn view(&self) -> DetailView {
        DetailView {
            code: text::opt_view(self.code),
            message: text::opt_view(self.message),
            text: text::opt_view(self.text),
        }
    }
}

impl DetailView {
    /// The strings that an error, as JSON text, holds.
    pub open spec fn of(error: Option<Seq<char>>) -> DetailView {
        match error {
            Some(document) => DetailView {
                code: json::member_string(document, "code"@),
                message: json::member_string(document, "message"@),
                text: json::plain_string(document),
            },
            None => DetailView { code: None, message: None, text: None },
        }
    }
}

/// The types of provider messages that report an error.
pub open spec fn error_types() -> Seq<Seq<char>> {
    seq![
        "auth_error"@,
        "quota_exceeded"@,
        "transcriber_error"@,
        "input_error"@,
        "error"@,
        "commit_throttled"@,
        "unaccepted_terms"@,
        "rate_limited"@,
        "queue_overflow"@,
        "resource_exhausted"@,
        "session_time_limit_exceeded"@,
        "chunk_size_exceeded"@,
        "insufficient_audio_activity"@,
    ]
}

fn is_provider_error(message_type: &str) -> (res: bool)
    ensures
        res == error_types().contains(message_type@),
{
    let types: Vec<&'static str> = vec![
        "auth_error",
        "quota_exceeded",
        "transcriber_error",
        "input_error",
        "error",
        "commit_throttled",
        "unaccepted_terms",
        "rate_limited",
        "queue_overflow",
        "resource_exhausted",
        "session_time_limit_exceeded",
        "chunk_size_exceeded",
        "insufficient_audio_activity",
    ];
    assert(text::str_views(types@) == error_types());
    let mut i: usize = 0;
    while i < types.len()
        invariant
            i <= types@.len(),
            text::str_views(types@) == error_types(),
            forall|j: int| 0 <= j < i ==> #[trigger] error_types()[j] != message_type@,
        decreases types@.len() - i,
    {
        assert(error_types()[i as int] == types@[i as int]@);
        if text::same_text(types[i], message_type) {
            return true;
        }
        i = i + 1;
    }
    false
}

/// The first of two that is there.
pub open spec fn first_of(a: Option<Seq<char>>, b: Option<Seq<char>>) -> Option<Seq<char>> {
    if a is Some {
        a
    } else {
        b
    }
}

fn either(a: Option<String>, b: Option<String>) -> (res: Option<String>)
    ensures
        text::opt_view(res) == first_of(text::opt_view(a), text::opt_view(b)),
{
    match a {
        Some(value) => Some(value),
        None => b,
    }
}

impl WireMessage {
    /// What the message says, given the strings that its error holds. An error's
    /// own code and message go before those of the message around it.
    pub open spec fn meaning(self, detail: DetailView) -> IncomingView {
        let content = match self.text {
            Some(content) => content@,
            None => Seq::empty(),
        };
        if self.message_type@ == "session_started"@ {
            IncomingView::SessionStarted
        } else if self.message_type@ == "partial_transcript"@ {
            IncomingView::PartialTranscript(content)
        } else if self.message_type@ == "committed_transcript"@ {
            IncomingView::CommittedTranscript(content)
        } else if error_types().contains(self.message_type@) {
            IncomingView::ProviderError {
                code: first_of(
                    first_of(detail.code, text::opt_view(self.code)),
                    Some(self.message_type@),
                ),
                message: match first_of(
                    first_of(detail.message, text::opt_view(self.message)),
                    detail.text,
                ) {
                    Some(message) => message,
                    None => "realtime service error"@,
                },
            }
        } else {
            IncomingView::Other
        }
    }

    /// What the message says.
    pub open spec fn incoming(self) -> IncomingView {
        self.meaning(DetailView::of(text::opt_view(self.error)))
    }
}

fn error_detail(error: Option<&str>) -> (res: ErrorDetail)
    ensures
        res@ == DetailView::of(text::opt_str_view(error)),
{
    match error {
        Some(document) => ErrorDetail {
            code: json::string_member(document, "code"),
            message: json::string_member(document, "message"),
            text: json::string_value(document),
        },
        None => ErrorDetail { code: None, message: None, text: None },
    }
}

/// What a message says, given the strings that its error holds.
pub fn classify_message(message: WireMessage, detail: ErrorDetail) -> (res: IncomingMessage)
    ensures
        res@ == message.meaning(detail@),
{
    let kind = message.message_type.as_str();
    let content = match message.text {
        Some(content) => content,
        None => String::new(),
    };
    assert(message.text is None ==> content@ == Seq::<char>::empty());
    if text::same_text(kind, "session_started") {
        IncomingMessage::SessionStarted
    } else if text::same_text(kind, "partial_transcript") {
        IncomingMessage::PartialTranscript(content)
    } else if text::same_text(kind, "committed_transcript") {
        IncomingMessage::CommittedTranscript(content)
    } else if is_provider_error(kind) {
        let own_kind = message.message_type.clone();
        let code = either(either(detail.code, message.code), Some(own_kind));
        let reported = either(either(detail.message, message.message), detail.text);
        let reason = match reported {
            Some(reason) => reason,
            None => "realtime service error".to_owned(),
        };
        IncomingMessage::ProviderError { code, message: reason }
    } else {
        IncomingMessage::Other
    }
}

/// What a message from the provider says; nothing where it could not be read.
pub fn parse_incoming_message(message: Option<WireMessage>) -> (res: Result<
    IncomingMessage,
    RealtimeError,
>)
    ensures
        match message {
            Some(message) => res matches Ok(incoming) && incoming@ == message.incoming(),
            None => res matches Err(error) && error is InvalidMessage,
        },
{
    match message {
        Some(message) => {
            let detail = match &message.error {
                Some(error) => error_detail(Some(error.as_str())),
                None => error_detail(None),
            };
            Ok(classify_message(message, detail))
        },
        None => Err(RealtimeError::InvalidMessage),
    }
}

/// Whether a session goes on after a message.
#[derive(Debug, Clone, Copy, PartialEq, Eq)]
pub enum SocketOutcome {
    Continue,
    Committed,
    Ended,
}

/// What came of waiting for a message.
#[derive(Debug, Clone, PartialEq, Eq)]
pub enum SocketInput {
    /// A text message, as far as it could be read.
    Text(Option<WireMessage>),
    /// A message that is neither text nor a close.
    Ignored,
    /// The socket is closed.
    Closed,
    /// The socket failed.
    Failed,
}

/// The events of a session that fails.
pub open spec fn failing(error: ErrorView) -> Seq<EventView> {
    seq![EventView::Error(error), EventView::Completed]
}

/// The events that a message causes, and whether the session goes on after it.
pub open spec fn message_effect(message: IncomingView) -> (Seq<EventView>, SocketOutcome) {
    match message {
        IncomingView::SessionStarted => (
            seq![EventView::SessionStarted],
            SocketOutcome::Continue,
        ),
        IncomingView::PartialTranscript(content) => (
            seq![EventView::PartialTranscript(content)],
            SocketOutcome::Continue,
        ),
        IncomingView::CommittedTranscript(content) => if text::trim(content).len() == 0 {
            (Seq::empty(), SocketOutcome::Continue)
        } else {
            (seq![EventView::CommittedTranscript(content)], SocketOutcome::Committed)
        },
        IncomingView::ProviderError { code, message } => (
            failing(ErrorView::Provider { code, message }),
            SocketOutcome::Ended,
        ),
        IncomingView::Other => (Seq::empty(), SocketOutcome::Continue),
    }
}

impl SocketInput {
    /// The events that it causes, and whether the session goes on after it.
    pub open spec fn effect(self) -> (Seq<EventView>, SocketOutcome) {
        match self {
            SocketInput::Text(Some(message)) => message_effect(message.incoming()),
            SocketInput::Text(None) => (
                failing(ErrorView::InvalidMessage),
                SocketOutcome::Ended,
            ),
            SocketInput::Ignored => (Seq::empty(), SocketOutcome::Continue),
            SocketInput::Closed => (seq![EventView::Completed], SocketOutcome::Ended),
            SocketInput::Failed => (
                failing(ErrorView::WebSocketFailed),
                SocketOutcome::Ended,
            ),
        }
    }
}

fn no_events() -> (res: Vec<RealtimeEvent>)
    ensures
        event_views(res@) == Seq::<EventView>::empty(),
{
    let res: Vec<RealtimeEvent> = Vec::new();
    assert(event_views(res@) == Seq::<EventView>::empty());
    res
}

fn one_event(event: RealtimeEvent) -> (res: Vec<RealtimeEvent>)
    ensures
        event_views(res@) == seq![event@],
{
    let mut res: Vec<RealtimeEvent> = Vec::new();
    res.push(event);
    assert(event_views(res@) == seq![event@]);
    res
}

/// The events of a session that fails: the error, and the end.
pub fn emit_error(error: RealtimeError) -> (res: Vec<RealtimeEvent>)
    ensures
        event_views(res@) == failing(error@),
{
    let mut res: Vec<RealtimeEvent> = Vec::new();
    res.push(RealtimeEvent::Error(error));
    res.push(RealtimeEvent::Completed);
    assert(event_views(res@) == failing(error@));
    res
}

/// The events that a message causes, and whether the session goes on after it.
pub fn apply_message(message: IncomingMessage) -> (res: (Vec<RealtimeEvent>, SocketOutcome))
    ensures
        (event_views(res.0@), res.1) == message_effect(message@),
{
    match message {
        IncomingMessage::SessionStarted => (
            one_event(RealtimeEvent::SessionStarted),
            SocketOutcome::Continue,
        ),
        IncomingMessage::PartialTranscript(content) => (
            one_event(RealtimeEvent::PartialTranscript(content)),
            SocketOutcome::Continue,
        ),
        IncomingMessage::CommittedTranscript(content) => if text::is_blank(content.as_str()) {
            (no_events(), SocketOutcome::Continue)
        } else {
            (one_event(RealtimeEvent::CommittedTranscript(content)), SocketOutcome::Committed)
        },
        IncomingMessage::ProviderError { code, message } => (
            emit_error(RealtimeError::Provider { code, message }),
            SocketOutcome::Ended,
        ),
        IncomingMessage::Other => (no_events(), SocketOutcome::Continue),
    }
}

/// The events that whatever came from the socket causes, and whether the session
/// goes on after it.
pub fn handle_socket_message(incoming: SocketInput) -> (res: (Vec<RealtimeEvent>, SocketOutcome))
    ensures
        (event_views(res.0@), res.1) == incoming.effect(),
{
    match incoming {
        SocketInput::Text(message) => match parse_incoming_message(message) {
            Ok(message) => apply_message(message),
            Err(error) => (emit_error(error), SocketOutcome::Ended),
        },
        SocketInput::Ignored => (no_events(), SocketOutcome::Continue),
        SocketInput::Closed => (one_event(RealtimeEvent::Completed), SocketOutcome::Ended),
        SocketInput::Failed => (
            emit_error(RealtimeError::WebSocketFailed),
            SocketOutcome::Ended,
        ),
    }
}

/// What a message from the provider means. Its type decides: that the session has
/// started, a preview or a segment with the message's text, or an error, which goes
/// by the code and the reason that are nearest to it. A message of any other type
/// means nothing.
pub proof fn law_what_messages_mean(message: WireMessage, detail: DetailView)
    ensures
        ({
            let kind = message.message_type@;
            let meaning = message.meaning(detail);
            let content = match message.text {
                Some(content) => content@,
                None => Seq::empty(),
            };
            let is_error = kind == "auth_error"@ || kind == "quota_exceeded"@ || kind
                == "transcriber_error"@ || kind == "input_error"@ || kind == "error"@ || kind
                == "commit_throttled"@ || kind == "unaccepted_terms"@ || kind == "rate_limited"@
                || kind == "queue_overflow"@ || kind == "resource_exhausted"@ || kind
                == "session_time_limit_exceeded"@ || kind == "chunk_size_exceeded"@ || kind
                == "insufficient_audio_activity"@;
            &&& kind == "session_started"@ ==> meaning is SessionStarted
            &&& kind == "partial_transcript"@ ==> meaning == IncomingView::PartialTranscript(
                content,
            )
            &&& kind == "committed_transcript"@ ==> meaning == IncomingView::CommittedTranscript(
                content,
            )
            &&& is_error ==> {
                &&& meaning matches IncomingView::ProviderError { code, message: reason }
                &&& code == (match (detail.code, message.code) {
                    (Some(own), _) => Some(own),
                    (None, Some(outer)) => Some(outer@),
                    (None, None) => Some(kind),
                })
                &&& reason == (match (detail.message, message.message, detail.text) {
                    (Some(own), _, _) => own,
                    (None, Some(outer), _) => outer@,
                    (None, None, Some(plain)) => plain,
                    (None, None, None) => "realtime service error"@,
                })
            }
            &&& kind != "session_started"@ && kind != "partial_transcript"@ && kind
                != "committed_transcript"@ && !is_error ==> meaning is Other
        }),
{
    lemma_error_types(message.message_type@);
    reveal_strlit("session_started");
    reveal_strlit("partial_transcript");
    reveal_strlit("committed_transcript");
    assert("session_started"@.len() == 15);
    assert("partial_transcript"@.len() == 18);
    assert("committed_transcript"@.len() == 20);
    assert("session_started"@[14] == 'd');
    assert("partial_transcript"@[17] == 't');
    assert("committed_transcript"@[0] == 'c');
}

proof fn lemma_error_types(kind: Seq<char>)
    ensures
        error_types().contains(kind) <==> kind == "auth_error"@ || kind == "quota_exceeded"@
            || kind == "transcriber_error"@ || kind == "input_error"@ || kind == "error"@ || kind
            == "commit_throttled"@ || kind == "unaccepted_terms"@ || kind == "rate_limited"@
            || kind == "queue_overflow"@ || kind == "resource_exhausted"@ || kind
            == "session_time_limit_exceeded"@ || kind == "chunk_size_exceeded"@ || kind
            == "insufficient_audio_activity"@,
        error_types().contains(kind) ==> kind != "session_started"@ && kind
            != "partial_transcript"@ && kind != "committed_transcript"@,
{
    let types = error_types();
    assert(types[0] == "auth_error"@);
    assert(types[1] == "quota_exceeded"@);
    assert(types[2] == "transcriber_error"@);
    assert(types[3] == "input_error"@);
    assert(types[4] == "error"@);
    assert(types[5] == "commit_throttled"@);
    assert(types[6] == "unaccepted_terms"@);
    assert(types[7] == "rate_limited"@);
    assert(types[8] == "queue_overflow"@);
    assert(types[9] == "resource_exhausted"@);
    assert(types[10] == "session_time_limit_exceeded"@);
    assert(types[11] == "chunk_size_exceeded"@);
    assert(types[12] == "insufficient_audio_activity"@);
    reveal_strlit("session_started");
    reveal_strlit("partial_transcript");
    reveal_strlit("committed_transcript");
    reveal_strlit("auth_error");
    reveal_strlit("quota_exceeded");
    reveal_strlit("transcriber_error");
    reveal_strlit("input_error");
    reveal_strlit("error");
    reveal_strlit("commit_throttled");
    reveal_strlit("unaccepted_terms");
    reveal_strlit("rate_limited");
    reveal_strlit("queue_overflow");
    reveal_strlit("resource_exhausted");
    reveal_strlit("session_time_limit_exceeded");
    reveal_strlit("chunk_size_exceeded");
    reveal_strlit("insufficient_audio_activity");
    assert("session_started"@.len() == 15);
    assert("partial_transcript"@.len() == 18);
    assert("committed_transcript"@.len() == 20);
    assert("partial_transcript"@[0] == 'p');
    assert("resource_exhausted"@[0] == 'r');
}

/// What a message leads to. A preview and a segment are handed on as they are, but a
/// blank segment is not; an error ends the session; and the rest does nothing.
pub proof fn law_what_messages_lead_to(
    content: Seq<char>,
    code: Option<Seq<char>>,
    reason: Seq<char>,
)
    ensures
        message_effect(IncomingView::SessionStarted) == (
            seq![EventView::SessionStarted],
            SocketOutcome::Continue,
        ),
        message_effect(IncomingView::PartialTranscript(content)) == (
            seq![EventView::PartialTranscript(content)],
            SocketOutcome::Continue,
        ),
        ({
            let blank = forall|i: int|
                0 <= i < content.len() ==> text::is_space(#[trigger] content[i]);
            let effect = message_effect(IncomingView::CommittedTranscript(content));
            &&& blank ==> effect.0.len() == 0 && effect.1 is Continue
            &&& !blank ==> effect == (
                seq![EventView::CommittedTranscript(content)],
                SocketOutcome::Committed,
            )
        }),
        message_effect(IncomingView::ProviderError { code, message: reason }) == (
            seq![
                EventView::Error(ErrorView::Provider { code, message: reason }),
                EventView::Completed,
            ],
            SocketOutcome::Ended,
        ),
        message_effect(IncomingView::Other).0.len() == 0,
        message_effect(IncomingView::Other).1 is Continue,
{
    text::lemma_blank(content);
}

/// What else comes from the socket. A text that cannot be read and a failure end the
/// session with their error, a close ends it without one, and anything else does
/// nothing.
pub proof fn law_what_the_socket_leads_to(message: WireMessage)
    ensures
        SocketInput::Text(Some(message)).effect() == message_effect(message.incoming()),
        SocketInput::Text(None).effect() == (
            seq![EventView::Error(ErrorView::InvalidMessage), EventView::Completed],
            SocketOutcome::Ended,
        ),
        SocketInput::Failed.effect() == (
            seq![EventView::Error(ErrorView::WebSocketFailed), EventView::Completed],
            SocketOutcome::Ended,
        ),
        SocketInput::Closed.effect() == (seq![EventView::Completed], SocketOutcome::Ended),
        SocketInput::Ignored.effect().0.len() == 0,
        SocketInput::Ignored.effect().1 is Continue,
{
}

/// Where a session connects to: to the extended endpoint, exactly where the endpoint
/// is a WebSocket URL, secured or not, that names a host.
pub proof fn law_where_a_session_connects_to(
    scheme: Seq<char>,
    host: Option<Seq<char>>,
    extended: Option<Seq<char>>,
)
    ensures
        session_url(None, extended) is None,
        (scheme == seq!['w', 's'] || scheme == seq!['w', 's', 's']) && host is Some
            ==> session_url(Some((scheme, host)), extended) == extended,
        scheme != seq!['w', 's'] && scheme != seq!['w', 's', 's'] || host is None ==> session_url(
            Some((scheme, host)),
            extended,
        ) is None,
{
    reveal_strlit("ws");
    reveal_strlit("wss");
    assert("ws"@ == seq!['w', 's']);
    assert("wss"@ == seq!['w', 's', 's']);
}

/// What every session asks for: the realtime model, audio of 16 kHz, and segments
/// that are committed where the speaker pauses.
pub proof fn law_what_every_session_asks_for(keyterms: Seq<Seq<char>>)
    ensures
        query(keyterms).take(3) == seq![
            ("model_id"@, "scribe_v2_realtime"@),
            ("audio_format"@, "pcm_16000"@),
            ("commit_strategy"@, "vad"@),
        ],
{
    assert(query(keyterms).take(3) == seq![
        ("model_id"@, "scribe_v2_realtime"@),
        ("audio_format"@, "pcm_16000"@),
        ("commit_strategy"@, "vad"@),
    ]);
}

/// How audio is sent: in base64, in a JSON object that says what it is, and with a
/// commit mark at its end where it is the last.
pub proof fn law_how_audio_is_sent(pcm: Seq<u8>)
    ensures
        ({
            let start = "{\"message_type\":\"input_audio_chunk\",\"audio_base_64\":\""@;
            &&& audio_message(pcm, false) == start + encoding::base64(pcm) + seq!['"', '}']
            &&& audio_message(pcm, true) == start + encoding::base64(pcm)
                + "\",\"commit\":true}"@
        }),
{
    reveal_strlit("\"}");
    assert("\"}"@ == seq!['"', '}']);
}

/// What an error holds: a code and a message under these names where it is an
/// object, and a text where it is one; without an error there is nothing.
pub proof fn law_what_an_error_holds(document: Seq<char>)
    ensures
        ({
            let none = DetailView::of(None);
            let some = DetailView::of(Some(document));
            &&& none.code is None && none.message is None && none.text is None
            &&& some.code == json::member_string(document, seq!['c', 'o', 'd', 'e'])
            &&& some.message == json::member_string(
                document,
                seq!['m', 'e', 's', 's', 'a', 'g', 'e'],
            )
            &&& some.text == json::plain_string(document)
        }),
{
    reveal_strlit("code");
    reveal_strlit("message");
    assert("code"@ == seq!['c', 'o', 'd', 'e']);
    assert("message"@ == seq!['m', 'e', 's', 's', 'a', 'g', 'e']);
}

/// What is logged of a provider's error: its code, where it has one, and its message,
/// both as they came.
pub proof fn law_what_is_logged_of_provider_errors(code: Seq<char>, message: Seq<char>)
    ensures
        (ErrorView::Provider { code: Some(code), message }).text() == "realtime provider error ("@
            + code + seq![')', ':', ' '] + message,
        (ErrorView::Provider { code: None, message }).text() == "realtime provider error: "@
            + message,
{
    reveal_strlit("): ");
    assert("): "@ == seq![')', ':', ' ']);
}

} // verus!
