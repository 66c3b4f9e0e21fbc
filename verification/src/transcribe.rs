//! Transcription via the ElevenLabs Scribe batch API.
//!
//! Recorded audio is submitted to the speech-to-text endpoint using Scribe v2.
//! Keyterms are loaded for every transcription and sent as repeated multipart
//! `keyterms` fields.
//!
//! # Retry policy
//!
//! Retries only timeout or connection failures and server errors, up to two
//! times with backoff of one then two seconds.

use crate::keyterms::{self, MAX_TERMS, MAX_TERM_CHARS, MAX_TERM_WORDS};
use crate::text;
use crate::transcript;
use vstd::prelude::*;

verus! {

/// Maximum number of retries after the initial request.
pub const MAX_RETRIES: u32 = 2;

/// How long one request may take, in seconds.
pub const REQUEST_TIMEOUT_SECS: u64 = 30;

/// The header that carries the API key.
pub const API_KEY_HEADER: &'static str = "xi-api-key";

/// The form field with the audio.
pub const FILE_FIELD: &'static str = "file";

/// The name under which the audio is sent.
pub const FILE_NAME: &'static str = "recording.wav";

/// The media type under which the audio is sent.
pub const FILE_TYPE: &'static str = "audio/wav";

/// What a status other than success says.
#[derive(Clone, Copy, Debug, Eq, PartialEq)]
pub enum StatusClass {
    Authentication,
    RateLimited,
    Request,
    Server,
}

/// Why a request could not be carried out.
#[derive(Clone, Copy, Debug, Eq, PartialEq)]
pub struct TransportFailure {
    /// The request took too long.
    pub timeout: bool,
    /// No connection could be made.
    pub connect: bool,
}

/// What came of one request.
#[derive(Clone, Debug, Eq, PartialEq)]
pub enum AttemptResult {
    /// The provider sent a transcript.
    Text(String),
    Transport(TransportFailure),
    /// The provider answered with a status other than success.
    Status(u16),
    /// The provider's answer could not be read.
    InvalidResponse,
}

/// What an [`AttemptResult`] says.
#[verifier::ext_equal]
pub enum AttemptView {
    Text(Seq<char>),
    Transport(TransportFailure),
    Status(u16),
    InvalidResponse,
}

impl View for AttemptResult {
    type V = AttemptView;

    open spec fn view(&self) -> AttemptView {
        match *self {
            AttemptResult::Text(content) => AttemptView::Text(content@),
            AttemptResult::Transport(failure) => AttemptView::Transport(failure),
            AttemptResult::Status(status) => AttemptView::Status(status),
            AttemptResult::InvalidResponse => AttemptView::InvalidResponse,
        }
    }
}

/// Why there is no transcript.
#[derive(Clone, Copy, Debug, Eq, PartialEq)]
pub enum TranscribeError {
    /// The HTTP client could not be made.
    NoClient,
    /// The keyterms could not be loaded.
    NoKeyterms,
    TimedOut,
    Network,
    Authentication,
    RateLimited,
    Server(u16),
    Request(u16),
    InvalidResponse,
}

impl TranscribeError {
    /// The error as it is logged.
    pub open spec fn text(self) -> Seq<char> {
        match self {
            TranscribeError::NoClient => "failed to create HTTP client"@,
            TranscribeError::NoKeyterms => "failed to load keyterms"@,
            TranscribeError::TimedOut => "transcription request timed out"@,
            TranscribeError::Network => "transcription request failed due to a network error"@,
            TranscribeError::Authentication =>
                "authentication failed (401) — check ELEVENLABS_API_KEY in ~/.config/voice-daemon/env"@,
            TranscribeError::RateLimited => "rate limited (429) — too many requests"@,
            TranscribeError::Server(status) => "ElevenLabs server error ("@ + text::decimal(
                status as nat,
            ) + ")"@,
            TranscribeError::Request(status) => "ElevenLabs request error ("@ + text::decimal(
                status as nat,
            ) + ")"@,
            TranscribeError::InvalidResponse => "invalid transcription response from ElevenLabs"@,
        }
    }

    /// The error as it is logged.
    pub fn message(self) -> (res: String)
        ensures
            res@ == self.text(),
    {
        match self {
            TranscribeError::NoClient => "failed to create HTTP client".to_owned(),
            TranscribeError::NoKeyterms => "failed to load keyterms".to_owned(),
            TranscribeError::TimedOut => "transcription request timed out".to_owned(),
            TranscribeError::Network =>
                "transcription request failed due to a network error".to_owned(),
            TranscribeError::Authentication =>
                "authentication failed (401) — check ELEVENLABS_API_KEY in ~/.config/voice-daemon/env".to_owned(),
            TranscribeError::RateLimited => "rate limited (429) — too many requests".to_owned(),
            TranscribeError::Server(status) => {
                let mut res = "ElevenLabs server error (".to_owned();
                res.append(text::format_decimal(status as u64).as_str());
                res.append(")");
                res
            },
            TranscribeError::Request(status) => {
                let mut res = "ElevenLabs request error (".to_owned();
                res.append(text::format_decimal(status as u64).as_str());
                res.append(")");
                res
            },
            TranscribeError::InvalidResponse =>
                "invalid transcription response from ElevenLabs".to_owned(),
        }
    }
}

/// What a status other than success says.
pub open spec fn status_class(status: u16) -> StatusClass {
    if status == 401 {
        StatusClass::Authentication
    } else if status == 429 {
        StatusClass::RateLimited
    } else if 500 <= status <= 599 {
        StatusClass::Server
    } else {
        StatusClass::Request
    }
}

/// Sorts a status other than success.
pub fn classify_status(status: u16) -> (res: StatusClass)
    ensures
        res == status_class(status),
{
    match status {
        401 => StatusClass::Authentication,
        429 => StatusClass::RateLimited,
        500..=599 => StatusClass::Server,
        _ => StatusClass::Request,
    }
}

/// Whether the status is worth another request: a server error is.
pub fn is_transient_status(status: u16) -> (res: bool)
    ensures
        res == (status_class(status) == StatusClass::Server),
{
    matches!(classify_status(status), StatusClass::Server)
}

/// Whether the status is that of success, so that the answer's body is read.
/// The bodies of other answers are not: they may contain request data.
pub fn reads_body(status: u16) -> (res: bool)
    ensures
        res == (200 <= status <= 299),
{
    200 <= status && status <= 299
}

/// Whether the failure is worth another request: a timeout and a failed
/// connection are.
pub fn is_transient_transport(failure: TransportFailure) -> (res: bool)
    ensures
        res == (failure.timeout || failure.connect),
{
    failure.timeout || failure.connect
}

/// Whether what came of a request is worth another.
pub open spec fn transient(result: AttemptView) -> bool {
    match result {
        AttemptView::Transport(failure) => failure.timeout || failure.connect,
        AttemptView::Status(status) => status_class(status) == StatusClass::Server,
        _ => false,
    }
}

/// The error that a failed transport comes to.
pub open spec fn transport_failed(failure: TransportFailure) -> TranscribeError {
    if failure.timeout {
        TranscribeError::TimedOut
    } else {
        TranscribeError::Network
    }
}

/// The error that a status other than success comes to.
pub open spec fn status_failed(status: u16) -> TranscribeError {
    match status_class(status) {
        StatusClass::Authentication => TranscribeError::Authentication,
        StatusClass::RateLimited => TranscribeError::RateLimited,
        StatusClass::Server => TranscribeError::Server(status),
        StatusClass::Request => TranscribeError::Request(status),
    }
}

/// The error that a failed transport comes to.
pub fn transport_error(failure: TransportFailure) -> (res: TranscribeError)
    ensures
        res == transport_failed(failure),
{
    if failure.timeout {
        TranscribeError::TimedOut
    } else {
        TranscribeError::Network
    }
}

/// The error that a status other than success comes to.
pub fn status_error(status: u16) -> (res: TranscribeError)
    ensures
        res == status_failed(status),
{
    match classify_status(status) {
        StatusClass::Authentication => TranscribeError::Authentication,
        StatusClass::RateLimited => TranscribeError::RateLimited,
        StatusClass::Server => TranscribeError::Server(status),
        StatusClass::Request => TranscribeError::Request(status),
    }
}

/// What to do after a request.
#[derive(Clone, Debug, Eq, PartialEq)]
pub enum TranscribeStep {
    /// Wait so many seconds, then make the request again.
    Retry { attempt: u32, backoff_secs: u64 },
    /// There is a transcript.
    Transcript(String),
    /// There is none to be had.
    Failed(TranscribeError),
}

/// What a [`TranscribeStep`] says.
#[verifier::ext_equal]
pub enum StepView {
    Retry { attempt: u32, backoff_secs: nat },
    Transcript(Seq<char>),
    Failed(TranscribeError),
}

impl View for TranscribeStep {
    type V = StepView;

    open spec fn view(&self) -> StepView {
        match *self {
            TranscribeStep::Retry { attempt, backoff_secs } => StepView::Retry {
                attempt,
                backoff_secs: backoff_secs as nat,
            },
            TranscribeStep::Transcript(content) => StepView::Transcript(content@),
            TranscribeStep::Failed(error) => StepView::Failed(error),
        }
    }
}

/// How many seconds to wait before a retry: one before the first, and twice as
/// long before each further one.
pub open spec fn backoff(attempt: nat) -> nat
    decreases attempt,
{
    if attempt <= 1 {
        1
    } else {
        2 * backoff((attempt - 1) as nat)
    }
}

/// The outcome of a request that is not retried.
pub open spec fn settled(result: AttemptView) -> StepView {
    match result {
        AttemptView::Text(content) => StepView::Transcript(transcript::cleaned(content)),
        AttemptView::Transport(failure) => StepView::Failed(transport_failed(failure)),
        AttemptView::Status(status) => StepView::Failed(status_failed(status)),
        AttemptView::InvalidResponse => StepView::Failed(TranscribeError::InvalidResponse),
    }
}

/// What follows a request, of which so many retries came before it.
pub open spec fn following(attempt: u32, result: AttemptView) -> StepView {
    if transient(result) && attempt < MAX_RETRIES {
        StepView::Retry {
            attempt: (attempt + 1) as u32,
            backoff_secs: backoff((attempt + 1) as nat),
        }
    } else {
        settled(result)
    }
}

/// Decides what follows a request: the cleaned transcript, another request, or
/// an error.
///
/// # Errors
///
/// The step holds an error for invalid credentials, rate limits, invalid
/// requests, provider errors, invalid responses, or transport failures after
/// retries.
pub fn transcribe(attempt: u32, result: AttemptResult) -> (res: TranscribeStep)
    ensures
        res@ == following(attempt, result@),
{
    let transient_failure = match &result {
        AttemptResult::Transport(failure) => is_transient_transport(*failure),
        AttemptResult::Status(status) => is_transient_status(*status),
        AttemptResult::Text(_) | AttemptResult::InvalidResponse => false,
    };
    if transient_failure && attempt < MAX_RETRIES {
        let backoff_secs: u64 = if attempt == 0 {
            1
        } else {
            2
        };
        assert(backoff(1) == 1);
        assert(backoff(2) == 2 * backoff(1));
        return TranscribeStep::Retry { attempt: attempt + 1, backoff_secs };
    }
    match result {
        AttemptResult::Text(content) => TranscribeStep::Transcript(
            transcript::clean(content.as_str()),
        ),
        AttemptResult::Transport(failure) => TranscribeStep::Failed(transport_error(failure)),
        AttemptResult::Status(status) => TranscribeStep::Failed(status_error(status)),
        AttemptResult::InvalidResponse => TranscribeStep::Failed(TranscribeError::InvalidResponse),
    }
}

/// Whether ElevenLabs accepts the keyterm.
pub open spec fn accepted(term: Seq<char>) -> bool {
    &&& 0 < term.len() <= MAX_TERM_CHARS
    &&& text::word_count(term) <= MAX_TERM_WORDS
    &&& !keyterms::has_unsupported(term)
}

/// The keyterms among the first `count` that are sent: those that are accepted,
/// up to the limit.
pub open spec fn sent_among(terms: Seq<Seq<char>>, count: nat) -> Seq<Seq<char>>
    decreases count,
{
    if count == 0 {
        Seq::empty()
    } else {
        let before = sent_among(terms, (count - 1) as nat);
        if accepted(terms[count - 1]) && before.len() < MAX_TERMS {
            before.push(terms[count - 1])
        } else {
            before
        }
    }
}

fn is_accepted(term: &str) -> (res: bool)
    ensures
        res == accepted(term@),
{
    let chars = text::to_chars(term);
    assert(chars@.subrange(0, chars@.len() as int) == chars@);
    let mut supported = true;
    let mut i: usize = 0;
    while i < chars.len()
        invariant
            i <= chars@.len(),
            supported == forall|j: int|
                0 <= j < i ==> !keyterms::unsupported(#[trigger] chars@[j]),
        decreases chars@.len() - i,
    {
        let c = chars[i];
        if c == '<' || c == '>' || c == '{' || c == '}' || c == '[' || c == ']' || c == '\\' {
            assert(keyterms::unsupported(chars@[i as int]));
            supported = false;
        }
        i = i + 1;
    }
    assert(supported == !keyterms::has_unsupported(term@));
    let size: usize = chars.len();
    size > 0 && size <= MAX_TERM_CHARS && text::count_words(&chars, 0, size) <= MAX_TERM_WORDS
        && supported
}

/// Keeps only keyterms accepted by ElevenLabs and caps the list at its limit.
/// Invalid entries are ignored rather than making a recording fail.
pub fn valid_keyterms(terms: Vec<String>) -> (res: Vec<String>)
    ensures
        text::views(res@) == sent_among(text::views(terms@), terms@.len()),
{
    let ghost all = text::views(terms@);
    let mut res: Vec<String> = Vec::new();
    let mut i: usize = 0;
    assert(text::views(res@) == Seq::<Seq<char>>::empty());
    while i < terms.len()
        invariant
            i <= terms@.len(),
            all == text::views(terms@),
            text::views(res@) == sent_among(all, i as nat),
        decreases terms@.len() - i,
    {
        let ghost before = text::views(res@);
        assert(all[i as int] == terms@[i as int]@);
        assert(before.len() == res@.len());
        if is_accepted(terms[i].as_str()) && res.len() < MAX_TERMS {
            res.push(terms[i].clone());
            assert(text::views(res@) == before.push(all[i as int]));
        }
        i = i + 1;
    }
    res
}

/// The form fields that go with the audio: the model, and one field for each
/// keyterm.
pub open spec fn form(terms: Seq<Seq<char>>) -> Seq<(Seq<char>, Seq<char>)> {
    seq![("model_id"@, "scribe_v2"@)] + Seq::new(terms.len(), |i: int| ("keyterms"@, terms[i]))
}

/// The form fields that go with the audio, in their order.
pub fn form_fields(terms: &Vec<String>) -> (res: Vec<(&'static str, String)>)
    ensures
        Seq::new(res@.len(), |i: int| (res@[i].0@, res@[i].1@)) == form(text::views(terms@)),
{
    let mut res: Vec<(&'static str, String)> = vec![("model_id", "scribe_v2".to_owned())];
    let mut i: usize = 0;
    while i < terms.len()
        invariant
            i <= terms@.len(),
            res@.len() == i + 1,
            res@[0].0@ == "model_id"@,
            res@[0].1@ == "scribe_v2"@,
            forall|j: int|
                1 <= j < res@.len() ==> (#[trigger] res@[j]).0@ == "keyterms"@ && res@[j].1@
                    == terms@[j - 1]@,
        decreases terms@.len() - i,
    {
        res.push(("keyterms", terms[i].clone()));
        i = i + 1;
    }
    assert(Seq::new(res@.len(), |i: int| (res@[i].0@, res@[i].1@)) == form(text::views(terms@)));
    res
}

/// The notification that an error is worth.
pub open spec fn batch_notice(error: Seq<char>) -> Seq<char> {
    if text::occurs_in("rate limited"@, error) || text::occurs_in("429"@, error) {
        "Rate limited — try again shortly"@
    } else if text::occurs_in("authentication"@, error) || text::occurs_in("401"@, error) {
        "Authentication failed — check ELEVENLABS_API_KEY"@
    } else if text::occurs_in("network error"@, error) || text::occurs_in("timeout"@, error) {
        "Transcription failed — check network connection"@
    } else {
        "Transcription failed"@
    }
}

/// The notification that an error is worth.
pub fn batch_error_notification(error: &str) -> (res: &'static str)
    ensures
        res@ == batch_notice(error@),
{
    if text::contains_text(error, "rate limited") || text::contains_text(error, "429") {
        "Rate limited — try again shortly"
    } else if text::contains_text(error, "authentication") || text::contains_text(error, "401") {
        "Authentication failed — check ELEVENLABS_API_KEY"
    } else if text::contains_text(error, "network error") || text::contains_text(error, "timeout") {
        "Transcription failed — check network connection"
    } else {
        "Transcription failed"
    }
}

/// What a transcription comes to after these requests, each made as long as the
/// one before asked for another.
pub open spec fn after_requests(results: Seq<AttemptView>) -> StepView
    decreases results.len(),
{
    if results.len() == 0 {
        StepView::Retry { attempt: 0, backoff_secs: 0 }
    } else {
        match after_requests(results.drop_last()) {
            StepView::Retry { attempt, .. } => following(attempt, results.last()),
            settled => settled,
        }
    }
}

proof fn lemma_after_requests(results: Seq<AttemptView>)
    ensures
        after_requests(results) matches StepView::Retry { attempt, .. } ==> attempt
            == results.len() && attempt <= MAX_RETRIES,
    decreases results.len(),
{
    if results.len() > 0 {
        lemma_after_requests(results.drop_last());
    }
}

/// There are never more than three requests: the first and two retries.
pub proof fn law_at_most_two_retries(results: Seq<AttemptView>)
    requires
        results.len() > MAX_RETRIES,
    ensures
        !(after_requests(results) is Retry),
{
    lemma_after_requests(results);
}

/// The first retry waits one second, the second two.
pub proof fn law_backoff_doubles(result: AttemptView)
    requires
        transient(result),
    ensures
        following(0, result) == (StepView::Retry { attempt: 1, backoff_secs: 1 }),
        following(1, result) == (StepView::Retry { attempt: 2, backoff_secs: 2 }),
        !(following(2, result) is Retry),
{
    assert(backoff(1) == 1);
    assert(backoff(2) == 2 * backoff(1));
}

/// Only timeouts, failed connections and server errors are retried: a refused
/// key, a rate limit, a refused request and an unreadable answer end the
/// transcription at once, with the error that says so.
pub proof fn law_only_transient_failures_are_retried(attempt: u32, status: u16)
    requires
        status_class(status) != StatusClass::Server,
    ensures
        following(attempt, AttemptView::Status(status)) == StepView::Failed(
            status_failed(status),
        ),
        following(attempt, AttemptView::InvalidResponse) == StepView::Failed(
            TranscribeError::InvalidResponse,
        ),
        following(
            attempt,
            AttemptView::Transport(TransportFailure { timeout: false, connect: false }),
        ) == StepView::Failed(TranscribeError::Network),
{
}

proof fn lemma_sent_among(terms: Seq<Seq<char>>, count: nat)
    requires
        count <= terms.len(),
    ensures
        sent_among(terms, count).len() <= count,
        sent_among(terms, count).len() <= MAX_TERMS,
        forall|i: int|
            0 <= i < sent_among(terms, count).len() ==> accepted(
                #[trigger] sent_among(terms, count)[i],
            ),
    decreases count,
{
    if count > 0 {
        lemma_sent_among(terms, (count - 1) as nat);
    }
}

/// No more keyterms are sent than the provider takes, and none that it refuses.
pub proof fn law_only_accepted_keyterms_are_sent(terms: Seq<Seq<char>>)
    ensures
        sent_among(terms, terms.len()).len() <= MAX_TERMS,
        forall|i: int|
            0 <= i < sent_among(terms, terms.len()).len() ==> accepted(
                #[trigger] sent_among(terms, terms.len())[i],
            ),
{
    lemma_sent_among(terms, terms.len());
}

proof fn lemma_valid_terms_sent(terms: Seq<Seq<char>>, count: nat)
    requires
        keyterms::valid_terms(terms),
        count <= terms.len(),
    ensures
        sent_among(terms, count) == terms.take(count as int),
    decreases count,
{
    if count > 0 {
        let less = (count - 1) as nat;
        lemma_valid_terms_sent(terms, less);
        lemma_sent_among(terms, less);
        let term = terms[less as int];
        assert(keyterms::validated(term) == Ok::<_, keyterms::KeytermError>(term));
        assert(accepted(term));
        assert(terms.take(less as int).push(term) == terms.take(count as int));
    }
}

/// Every keyterm of a stored list is sent.
pub proof fn law_stored_keyterms_are_all_sent(terms: Seq<Seq<char>>)
    requires
        keyterms::valid_terms(terms),
    ensures
        sent_among(terms, terms.len()) == terms,
{
    lemma_valid_terms_sent(terms, terms.len());
    assert(terms.take(terms.len() as int) == terms);
}

/// What comes of a request, in every case. A transcript is cleaned. A request that
/// timed out, found no connection or met a server error is made again, up to two
/// times. Anything else, and the third such failure, ends the transcription with
/// the error that says why.
pub proof fn law_what_comes_of_a_request(
    attempt: u32,
    content: Seq<char>,
    failure: TransportFailure,
    status: u16,
)
    ensures
        following(attempt, AttemptView::Text(content)) == StepView::Transcript(
            transcript::cleaned(content),
        ),
        following(attempt, AttemptView::InvalidResponse) == StepView::Failed(
            TranscribeError::InvalidResponse,
        ),
        ({
            let step = following(attempt, AttemptView::Transport(failure));
            if (failure.timeout || failure.connect) && attempt < 2 {
                step matches StepView::Retry { attempt: next, .. } && next == attempt + 1
            } else if failure.timeout {
                step == StepView::Failed(TranscribeError::TimedOut)
            } else {
                step == StepView::Failed(TranscribeError::Network)
            }
        }),
        ({
            let step = following(attempt, AttemptView::Status(status));
            if status == 401 {
                step == StepView::Failed(TranscribeError::Authentication)
            } else if status == 429 {
                step == StepView::Failed(TranscribeError::RateLimited)
            } else if status < 500 || status >= 600 {
                step == StepView::Failed(TranscribeError::Request(status))
            } else if attempt < 2 {
                step matches StepView::Retry { attempt: next, .. } && next == attempt + 1
            } else {
                step == StepView::Failed(TranscribeError::Server(status))
            }
        }),
{
}

/// Retries come one second after the first request and two seconds after the
/// second, whatever made them necessary.
pub proof fn law_how_long_retries_wait(attempt: u32, result: AttemptView)
    ensures
        following(attempt, result) matches StepView::Retry { backoff_secs, .. } ==> {
            &&& attempt == 0 ==> backoff_secs == 1
            &&& attempt == 1 ==> backoff_secs == 2
            &&& attempt < 2
        },
{
    assert(backoff(1) == 1);
    assert(backoff(2) == 2 * backoff(1));
}

/// Which keyterms the provider takes: those of one to fifty characters and at most
/// five words, with none of seven characters in them.
pub proof fn law_which_keyterms_the_provider_takes(term: Seq<char>)
    ensures
        accepted(term) <==> {
            &&& 1 <= term.len() <= 50
            &&& text::word_count(term) <= 5
            &&& !term.contains('<')
            &&& !term.contains('>')
            &&& !term.contains('{')
            &&& !term.contains('}')
            &&& !term.contains('[')
            &&& !term.contains(']')
            &&& !term.contains('\\')
        },
{
    if keyterms::has_unsupported(term) {
        let i = choose|i: int| 0 <= i < term.len() && keyterms::unsupported(#[trigger] term[i]);
        assert(term.contains(term[i]));
    } else {
        assert forall|c: char| keyterms::unsupported(c) implies !#[trigger] term.contains(c) by {
            if term.contains(c) {
                let i = choose|i: int| 0 <= i < term.len() && term[i] == c;
                assert(keyterms::unsupported(term[i]));
            }
        }
    }
}

proof fn lemma_sent_of_prefix(terms: Seq<Seq<char>>, term: Seq<char>, count: nat)
    requires
        count <= terms.len(),
    ensures
        sent_among(terms.push(term), count) == sent_among(terms, count),
    decreases count,
{
    if count > 0 {
        lemma_sent_of_prefix(terms, term, (count - 1) as nat);
        assert(terms.push(term)[count - 1] == terms[count - 1]);
    }
}

/// Each keyterm that the provider takes is sent, in the order of the list, as long
/// as fewer than a thousand were sent before it.
pub proof fn law_each_accepted_keyterm_is_sent(terms: Seq<Seq<char>>, term: Seq<char>)
    ensures
        ({
            let before = sent_among(terms, terms.len());
            let now = sent_among(terms.push(term), (terms.len() + 1) as nat);
            &&& sent_among(Seq::empty(), 0).len() == 0
            &&& accepted(term) && before.len() < 1000 ==> now == before + seq![term]
            &&& !accepted(term) || before.len() >= 1000 ==> now == before
        }),
{
    lemma_sent_of_prefix(terms, term, terms.len());
}

/// What is sent with the audio: the model, and then a field for each keyterm, in
/// their order.
pub proof fn law_what_is_sent_with_the_audio(terms: Seq<Seq<char>>, term: Seq<char>)
    ensures
        form(Seq::empty()) == seq![("model_id"@, "scribe_v2"@)],
        form(terms + seq![term]) == form(terms) + seq![("keyterms"@, term)],
{
    assert(form(Seq::empty()) == seq![("model_id"@, "scribe_v2"@)]);
    assert(form(terms + seq![term]) == form(terms) + seq![("keyterms"@, term)]);
}

/// What the user is told of an error depends on what it mentions: a rate limit
/// before a refused key, and that before the network.
pub proof fn law_what_the_user_is_told(error: Seq<char>)
    ensures
        ({
            let limit = text::occurs_in("rate limited"@, error) || text::occurs_in("429"@, error);
            let key = text::occurs_in("authentication"@, error) || text::occurs_in("401"@, error);
            let network = text::occurs_in("network error"@, error) || text::occurs_in(
                "timeout"@,
                error,
            );
            &&& limit ==> batch_notice(error) == "Rate limited — try again shortly"@
            &&& !limit && key ==> batch_notice(error)
                == "Authentication failed — check ELEVENLABS_API_KEY"@
            &&& !limit && !key && network ==> batch_notice(error)
                == "Transcription failed — check network connection"@
            &&& !limit && !key && !network ==> batch_notice(error) == "Transcription failed"@
        }),
{
}

/// What is logged of a status that the provider answered with: the number itself.
pub proof fn law_what_is_logged_of_a_status(status: u16)
    ensures
        TranscribeError::Server(status).text() == "ElevenLabs server error ("@ + text::decimal(
            status as nat,
        ) + seq![')'],
        TranscribeError::Request(status).text() == "ElevenLabs request error ("@ + text::decimal(
            status as nat,
        ) + seq![')'],
{
    reveal_strlit(")");
    assert(")"@ == seq![')']);
}

} // verus!
