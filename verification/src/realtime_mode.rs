//! Decisions of realtime dictation: what a failure leads to, which events still
//! count while a session ends, and what the user is told.

use crate::realtime::{self, RealtimeError, RealtimeEvent};
use crate::text;
use vstd::prelude::*;

verus! {

/// What follows the end of a realtime recording.
#[derive(Debug, Clone, Copy, PartialEq, Eq)]
pub enum RealtimeNextStep {
    Done,
    FallbackBatch,
    NotifyFailure,
}

/// What follows the end of a realtime recording: nothing where it succeeded; a
/// notice where text was committed or the tail can no longer be trusted; batch
/// transcription otherwise, where there is audio for it.
pub open spec fn next_step(
    committed_any: bool,
    failed: bool,
    tail_safe: bool,
    usable_audio: bool,
) -> RealtimeNextStep {
    if !failed {
        RealtimeNextStep::Done
    } else if !tail_safe || committed_any {
        RealtimeNextStep::NotifyFailure
    } else if usable_audio {
        RealtimeNextStep::FallbackBatch
    } else {
        RealtimeNextStep::Done
    }
}

/// Decides what follows the end of a realtime recording.
pub fn realtime_next_step(
    committed_any: bool,
    failed: bool,
    tail_safe: bool,
    usable_audio: bool,
) -> (res: RealtimeNextStep)
    ensures
        res == next_step(committed_any, failed, tail_safe, usable_audio),
{
    if !failed {
        RealtimeNextStep::Done
    } else if !tail_safe || committed_any {
        RealtimeNextStep::NotifyFailure
    } else if usable_audio {
        RealtimeNextStep::FallbackBatch
    } else {
        RealtimeNextStep::Done
    }
}

/// Whether an event still counts while a session ends. Partials do not: they are
/// only a live preview, which would be inserted and immediately removed again.
pub fn process_during_finalization(event: &RealtimeEvent) -> (res: bool)
    ensures
        res == !(event@ is PartialTranscript),
{
    !matches!(event, RealtimeEvent::PartialTranscript(_))
}

/// A committed segment as it was typed: after an earlier one, with a space before
/// it.
pub open spec fn raw_segment(already_committed: bool, content: Seq<char>) -> Seq<char> {
    if already_committed {
        " "@ + content
    } else {
        content
    }
}

/// A committed segment as it was typed.
pub fn raw_committed_segment(already_committed: bool, content: &str) -> (res: String)
    ensures
        res@ == raw_segment(already_committed, content@),
{
    if already_committed {
        let mut res = " ".to_owned();
        res.append(content);
        res
    } else {
        content.to_owned()
    }
}

/// Whether a provider's error code says that the key was refused.
pub open spec fn is_authentication_code(code: Option<Seq<char>>) -> bool {
    code == Some("auth_error"@)
}

/// Whether a provider's error code says that too much was asked of it.
pub open spec fn is_limit_code(code: Option<Seq<char>>) -> bool {
    code == Some("rate_limited"@) || code == Some("quota_exceeded"@) || code == Some(
        "commit_throttled"@,
    ) || code == Some("queue_overflow"@) || code == Some("resource_exhausted"@)
}

/// The notification that an error is worth.
pub open spec fn realtime_notice(error: realtime::ErrorView) -> Seq<char> {
    match error {
        realtime::ErrorView::InvalidApiKey => "Authentication failed — check ELEVENLABS_API_KEY"@,
        realtime::ErrorView::ConnectionFailed | realtime::ErrorView::WebSocketFailed =>
            "Realtime transcription failed — check network connection"@,
        realtime::ErrorView::Provider { code, .. } => if is_authentication_code(code) {
            "Authentication failed — check ELEVENLABS_API_KEY"@
        } else if is_limit_code(code) {
            "Realtime service is rate limited — try again shortly"@
        } else {
            "Realtime transcription failed"@
        },
        _ => "Realtime transcription failed"@,
    }
}

/// The notification that an error is worth.
pub fn realtime_error_notification(error: &RealtimeError) -> (res: &'static str)
    ensures
        res@ == realtime_notice(error@),
{
    match error {
        RealtimeError::InvalidApiKey => "Authentication failed — check ELEVENLABS_API_KEY",
        RealtimeError::ConnectionFailed | RealtimeError::WebSocketFailed =>
            "Realtime transcription failed — check network connection",
        RealtimeError::Provider { code: Some(code), .. } => {
            let code = code.as_str();
            if text::same_text(code, "auth_error") {
                "Authentication failed — check ELEVENLABS_API_KEY"
            } else if text::same_text(code, "rate_limited") || text::same_text(
                code,
                "quota_exceeded",
            ) || text::same_text(code, "commit_throttled") || text::same_text(
                code,
                "queue_overflow",
            ) || text::same_text(code, "resource_exhausted") {
                "Realtime service is rate limited — try again shortly"
            } else {
                "Realtime transcription failed"
            }
        },
        RealtimeError::Provider { code: None, .. } | RealtimeError::InvalidEndpoint
        | RealtimeError::InvalidMessage | RealtimeError::TaskFailed =>
            "Realtime transcription failed",
    }
}

/// A recording is transcribed again only where realtime failed, nothing was
/// committed, and nothing of it is left in the window: no output is duplicated.
pub proof fn law_fallback_never_duplicates_output(
    committed_any: bool,
    failed: bool,
    tail_safe: bool,
    usable_audio: bool,
)
    ensures
        next_step(committed_any, failed, tail_safe, usable_audio)
            == RealtimeNextStep::FallbackBatch <==> failed && !committed_any && tail_safe
            && usable_audio,
{
}

/// What follows the end of a realtime recording, in every case: nothing where it
/// succeeded, or failed with nothing committed, nothing left and nothing to
/// transcribe; and a notice where it failed after a commit or with text left over.
pub proof fn law_what_follows_a_realtime_recording(
    committed_any: bool,
    failed: bool,
    tail_safe: bool,
    usable_audio: bool,
)
    ensures
        ({
            let next = next_step(committed_any, failed, tail_safe, usable_audio);
            &&& next == RealtimeNextStep::NotifyFailure <==> failed && (committed_any
                || !tail_safe)
            &&& next == RealtimeNextStep::Done <==> !failed || !committed_any && tail_safe
                && !usable_audio
        }),
{
}

/// What the user is told of an error: that the key was refused, where it was; that
/// the service is rate limited, where the provider says so with one of five codes;
/// to check the network, where there was no connection; and otherwise only that
/// transcription failed.
pub proof fn law_what_the_user_is_told(code: Option<Seq<char>>, message: Seq<char>)
    ensures
        ({
            let refused = "Authentication failed — check ELEVENLABS_API_KEY"@;
            let limited = "Realtime service is rate limited — try again shortly"@;
            let network = "Realtime transcription failed — check network connection"@;
            let failed = "Realtime transcription failed"@;
            let notice = realtime_notice(realtime::ErrorView::Provider { code, message });
            &&& realtime_notice(realtime::ErrorView::InvalidApiKey) == refused
            &&& realtime_notice(realtime::ErrorView::ConnectionFailed) == network
            &&& realtime_notice(realtime::ErrorView::WebSocketFailed) == network
            &&& realtime_notice(realtime::ErrorView::InvalidEndpoint) == failed
            &&& realtime_notice(realtime::ErrorView::InvalidMessage) == failed
            &&& realtime_notice(realtime::ErrorView::TaskFailed) == failed
            &&& code == Some("auth_error"@) ==> notice == refused
            &&& code == Some("rate_limited"@) || code == Some("quota_exceeded"@) || code == Some(
                "commit_throttled"@,
            ) || code == Some("queue_overflow"@) || code == Some("resource_exhausted"@)
                ==> notice == limited
            &&& code is None ==> notice == failed
            &&& code != Some("auth_error"@) && code != Some("rate_limited"@) && code != Some(
                "quota_exceeded"@,
            ) && code != Some("commit_throttled"@) && code != Some("queue_overflow"@) && code
                != Some("resource_exhausted"@) ==> notice == failed
        }),
{
    reveal_strlit("auth_error");
    reveal_strlit("rate_limited");
    reveal_strlit("quota_exceeded");
    reveal_strlit("commit_throttled");
    reveal_strlit("queue_overflow");
    reveal_strlit("resource_exhausted");
    assert("auth_error"@[0] == 'a');
    assert("rate_limited"@[0] == 'r');
    assert("quota_exceeded"@[0] == 'q');
    assert("commit_throttled"@[0] == 'c');
    assert("queue_overflow"@[0] == 'q');
    assert("resource_exhausted"@[0] == 'r');
}

} // verus!
