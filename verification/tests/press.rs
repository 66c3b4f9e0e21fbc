use daapstt::audio::Verdict;
use daapstt::deliver::Delivery;
use daapstt::graphemes::grapheme_count;
use daapstt::hotkey::HotkeyEvent;
use daapstt::live_text::LiveTextEdit;
use daapstt::press::{
    shut_down, Action, Press, PressEvent, CAPTURE_FAILED, NO_MICROPHONE, SILENT_MICROPHONE,
};
use daapstt::realtime::{RealtimeError, RealtimeEvent};
use daapstt::realtime_mode::{
    process_during_finalization, raw_committed_segment, realtime_error_notification,
    realtime_next_step, RealtimeNextStep,
};
use daapstt::transcribe::TranscribeError;

#[test]
fn fallback_happens_after_a_provider_failure_before_any_commit() {
    assert_eq!(
        realtime_next_step(false, true, true, true),
        RealtimeNextStep::FallbackBatch
    );
}

#[test]
fn unsafe_delivery_failure_notifies_without_batch_fallback() {
    assert_eq!(
        realtime_next_step(false, true, false, true),
        RealtimeNextStep::NotifyFailure
    );
}

#[test]
fn failure_after_a_commit_notifies_without_batch_fallback() {
    assert_eq!(
        realtime_next_step(true, true, true, true),
        RealtimeNextStep::NotifyFailure
    );
}

#[test]
fn success_or_unusable_audio_needs_no_fallback() {
    assert_eq!(
        realtime_next_step(false, false, true, true),
        RealtimeNextStep::Done
    );
    assert_eq!(
        realtime_next_step(false, true, true, false),
        RealtimeNextStep::Done
    );
}

#[test]
fn placeholder_commit_backspaces_the_full_raw_segment() {
    assert_eq!(grapheme_count(&raw_committed_segment(false, "banana")), 6);
    assert_eq!(
        grapheme_count(&raw_committed_segment(true, "a\u{301} banana")),
        9
    );
}

#[test]
fn finalization_ignores_only_provisional_partials() {
    assert!(!process_during_finalization(
        &RealtimeEvent::PartialTranscript("late preview".into())
    ));
    assert!(process_during_finalization(
        &RealtimeEvent::CommittedTranscript("final output".into())
    ));
    assert!(process_during_finalization(
        &RealtimeEvent::Error(RealtimeError::TaskFailed)
    ));
}

/// Tells a press what happened, one event after the other, and returns the
/// actions of every step.
fn run(press: Press, events: Vec<PressEvent>) -> (Press, Vec<Vec<Action>>) {
    let mut press = press;
    let mut steps = Vec::new();
    for event in events {
        let step = press.next(event);
        press = step.press;
        steps.push(step.actions);
    }
    (press, steps)
}

fn batch_press() -> Press {
    let (press, _) = run(
        Press::begin(false, true, true).press,
        vec![
            PressEvent::MarkerTyped(true),
            PressEvent::RecorderStarted(true),
        ],
    );
    press
}

fn realtime_press(session: bool) -> Press {
    let (press, _) = run(
        Press::begin(true, false, false).press,
        vec![
            PressEvent::MarkerTyped(true),
            PressEvent::RecorderStarted(true),
            PressEvent::SessionOpened(session),
        ],
    );
    press
}

fn hotkey(event: HotkeyEvent) -> PressEvent {
    PressEvent::Hotkey(Some(event))
}

fn session(event: RealtimeEvent) -> PressEvent {
    PressEvent::Session(Some(event))
}

fn partial(text: &str) -> PressEvent {
    session(RealtimeEvent::PartialTranscript(text.to_string()))
}

fn committed(text: &str) -> PressEvent {
    session(RealtimeEvent::CommittedTranscript(text.to_string()))
}

fn edit(backspaces: usize, insert: &str) -> Action {
    Action::ApplyEdit(LiveTextEdit {
        backspaces,
        insert: insert.to_string(),
    })
}

fn released(verdict: Option<Verdict>) -> Vec<PressEvent> {
    vec![
        hotkey(HotkeyEvent::ReleaseStarted),
        PressEvent::RecorderStopped(verdict),
        hotkey(HotkeyEvent::ReleaseCompleted),
    ]
}

#[test]
fn fallback_wait_requires_both_release_phases() {
    let (_, steps) = run(realtime_press(false), released(Some(Verdict::Usable)));
    assert_eq!(steps[0], [Action::StopRecorder]);
    assert_eq!(steps[1], [Action::RestoreAudio, Action::AwaitCompletion]);
    assert_eq!(steps[2], [Action::Transcribe]);
}

#[test]
fn fallback_wait_fails_closed_when_hotkey_channel_closes() {
    let (press, steps) = run(
        realtime_press(false),
        vec![
            PressEvent::Hotkey(None),
            PressEvent::RecorderStopped(Some(Verdict::Usable)),
        ],
    );
    assert_eq!(steps[0], [Action::StopRecorder]);
    assert_eq!(steps[1], [Action::RestoreAudio, Action::Finish]);
    assert!(press.marker_active());
}

#[test]
fn fallback_wait_fails_closed_when_completion_channel_closes() {
    let (_, steps) = run(
        realtime_press(false),
        vec![
            hotkey(HotkeyEvent::ReleaseStarted),
            PressEvent::RecorderStopped(Some(Verdict::Usable)),
            PressEvent::Hotkey(None),
        ],
    );
    assert_eq!(steps[2], [Action::RestoreAudio, Action::Finish]);
}

#[test]
fn presses_begin_with_muting_and_the_marker() {
    let step = Press::begin(false, true, true);
    assert_eq!(step.actions, [Action::MuteOutputs, Action::TypeMarker]);
    let step = step.press.next(PressEvent::MarkerTyped(true));
    assert_eq!(
        step.actions,
        [
            Action::MuteOtherMicApps,
            Action::StartRecorder { stream: false }
        ]
    );
    assert!(step.press.marker_active());
    let step = step.press.next(PressEvent::RecorderStarted(true));
    assert_eq!(step.actions, [Action::AwaitRelease { session: false }]);

    let step = Press::begin(true, false, false);
    assert_eq!(step.actions, [Action::TypeMarker]);
    let step = step.press.next(PressEvent::MarkerTyped(true));
    assert_eq!(step.actions, [Action::StartRecorder { stream: true }]);
    let step = step.press.next(PressEvent::RecorderStarted(true));
    assert_eq!(step.actions, [Action::OpenSession]);
    let step = step.press.next(PressEvent::SessionOpened(true));
    assert_eq!(step.actions, [Action::AwaitRelease { session: true }]);
}

#[test]
fn presses_that_cannot_begin_restore_the_audio() {
    let step = Press::begin(false, true, true)
        .press
        .next(PressEvent::MarkerTyped(false));
    assert_eq!(step.actions, [Action::RestoreAudio, Action::Finish]);
    let step = Press::begin(false, true, true)
        .press
        .next(PressEvent::MarkerTyped(true))
        .press
        .next(PressEvent::RecorderStarted(false));
    assert_eq!(
        step.actions,
        [
            Action::RemoveMarker,
            Action::RestoreAudio,
            Action::Notify(NO_MICROPHONE),
            Action::Finish
        ]
    );
}

#[test]
fn batch_presses_deliver_the_transcript() {
    let mut events = vec![hotkey(HotkeyEvent::Press), hotkey(HotkeyEvent::ReleaseCompleted)];
    events.extend(released(Some(Verdict::Usable)));
    events.push(PressEvent::Transcribed("type banana now".to_string()));
    events.push(PressEvent::Delivered(true));
    let (press, steps) = run(batch_press(), events);
    assert_eq!(steps[0], [Action::AwaitRelease { session: false }]);
    assert_eq!(steps[1], [Action::AwaitRelease { session: false }]);
    assert_eq!(steps[4], [Action::Transcribe]);
    assert_eq!(
        steps[5],
        [
            Action::RemoveMarker,
            Action::Deliver(vec![
                Delivery::Type("type ".to_string()),
                Delivery::Paste,
                Delivery::Type(" now".to_string()),
            ])
        ]
    );
    assert_eq!(steps[6], [Action::RestoreAudio, Action::Finish]);
    assert!(press.next(PressEvent::Timer).actions.is_empty());
}

#[test]
fn batch_presses_stop_by_themselves() {
    let (_, steps) = run(
        batch_press(),
        vec![
            PressEvent::Timer,
            PressEvent::RecorderStopped(Some(Verdict::Usable)),
            PressEvent::Transcribed("  ".to_string()),
        ],
    );
    assert_eq!(steps[0], [Action::StopRecorder]);
    assert_eq!(steps[1], [Action::RestoreAudio, Action::Transcribe]);
    assert_eq!(
        steps[2],
        [Action::RemoveMarker, Action::RestoreAudio, Action::Finish]
    );
}

#[test]
fn worthless_recordings_are_not_transcribed() {
    let (_, steps) = run(batch_press(), released(Some(Verdict::TooShort)));
    assert_eq!(
        steps[2],
        [Action::RemoveMarker, Action::RestoreAudio, Action::Finish]
    );
    let (_, steps) = run(batch_press(), released(Some(Verdict::Silent)));
    assert_eq!(
        steps[2],
        [
            Action::RemoveMarker,
            Action::RestoreAudio,
            Action::Notify(SILENT_MICROPHONE),
            Action::Finish
        ]
    );
    let (_, steps) = run(batch_press(), released(None));
    assert_eq!(
        steps[2],
        [
            Action::RemoveMarker,
            Action::RestoreAudio,
            Action::Notify(CAPTURE_FAILED),
            Action::Finish
        ]
    );
    let (_, steps) = run(realtime_press(true), {
        let mut events = released(Some(Verdict::Silent));
        events.push(PressEvent::FinalizeRequested(true));
        events.push(PressEvent::Session(None));
        events
    });
    assert_eq!(
        steps[4],
        [
            Action::RemoveMarker,
            Action::Notify(SILENT_MICROPHONE),
            Action::RestoreAudio,
            Action::Finish
        ]
    );
}

#[test]
fn failed_transcriptions_are_reported() {
    let mut events = released(Some(Verdict::Usable));
    events.push(PressEvent::TranscriptionFailed(TranscribeError::RateLimited));
    let (_, steps) = run(batch_press(), events);
    assert_eq!(
        steps[3],
        [
            Action::RemoveMarker,
            Action::Notify("Rate limited — try again shortly"),
            Action::RestoreAudio,
            Action::Finish
        ]
    );
}

#[test]
fn live_text_replaces_the_marker_and_grows() {
    let (_, steps) = run(
        realtime_press(true),
        vec![
            partial("hel"),
            PressEvent::Delivered(true),
            partial("hello"),
            PressEvent::Delivered(true),
            committed("Hello."),
            PressEvent::Delivered(true),
            partial("world"),
            PressEvent::Delivered(true),
        ],
    );
    assert_eq!(steps[0], [Action::RemoveMarker, edit(0, "hel")]);
    assert_eq!(steps[1], [Action::AwaitRelease { session: true }]);
    assert_eq!(steps[2], [edit(0, "lo")]);
    assert_eq!(steps[4], [edit(5, "Hello.")]);
    assert_eq!(steps[6], [edit(0, " world")]);
}

#[test]
fn placeholders_are_pasted_when_committed() {
    let (_, steps) = run(
        realtime_press(true),
        vec![
            committed("look banana"),
            PressEvent::Delivered(true),
            PressEvent::Delivered(true),
            PressEvent::Delivered(true),
            partial("more"),
        ],
    );
    assert_eq!(steps[0], [Action::RemoveMarker, edit(0, "look banana")]);
    assert_eq!(steps[1], [edit(11, "")]);
    assert_eq!(
        steps[2],
        [Action::Deliver(vec![
            Delivery::Type("look ".to_string()),
            Delivery::Paste
        ])]
    );
    assert_eq!(steps[3], [Action::AwaitRelease { session: true }]);
    assert_eq!(steps[4], [edit(0, " more")]);
}

#[test]
fn realtime_presses_drain_the_session() {
    let mut events = vec![partial("dra"), PressEvent::Delivered(true)];
    events.extend(released(Some(Verdict::Usable)));
    events.extend(vec![
        PressEvent::FinalizeRequested(true),
        partial("draft"),
        committed("Draft."),
        PressEvent::Delivered(true),
        session(RealtimeEvent::Completed),
        PressEvent::Session(None),
    ]);
    let (_, steps) = run(realtime_press(true), events);
    assert_eq!(steps[4], [Action::RequestFinalize]);
    assert_eq!(steps[5], [Action::AwaitSession]);
    assert_eq!(steps[6], [Action::AwaitSession]);
    assert_eq!(steps[7], [edit(3, "Draft.")]);
    assert_eq!(steps[8], [Action::AwaitSession]);
    assert_eq!(steps[9], [Action::AwaitSession]);
    assert_eq!(steps[10], [Action::RestoreAudio, Action::Finish]);
}

#[test]
fn failures_before_a_commit_fall_back() {
    let mut events = vec![
        partial("draft"),
        PressEvent::Delivered(true),
        session(RealtimeEvent::Error(RealtimeError::ConnectionFailed)),
        partial("ignored"),
        PressEvent::Session(None),
    ];
    events.extend(released(Some(Verdict::Usable)));
    events.extend(vec![
        PressEvent::FinalizeRequested(false),
        PressEvent::Delivered(true),
        PressEvent::Transcribed("Whole text".to_string()),
    ]);
    let (_, steps) = run(realtime_press(true), events);
    assert_eq!(steps[3], [Action::AwaitRelease { session: true }]);
    assert_eq!(steps[4], [Action::AwaitRelease { session: false }]);
    assert_eq!(steps[8], [edit(5, "")]);
    assert_eq!(steps[9], [Action::Transcribe]);
    assert_eq!(
        steps[10],
        [Action::Deliver(vec![Delivery::Type("Whole text".to_string())])]
    );
}

#[test]
fn failures_after_a_commit_are_reported() {
    let mut events = vec![
        committed("Kept."),
        PressEvent::Delivered(true),
        partial("tail"),
        PressEvent::Delivered(true),
        session(RealtimeEvent::Error(RealtimeError::WebSocketFailed)),
    ];
    events.extend(released(Some(Verdict::Usable)));
    events.extend(vec![
        PressEvent::FinalizeRequested(true),
        PressEvent::Session(None),
        PressEvent::Delivered(true),
    ]);
    let (_, steps) = run(realtime_press(true), events);
    assert_eq!(steps[9], [edit(5, "")]);
    assert_eq!(
        steps[10],
        [
            Action::Notify("Realtime transcription failed — check network connection"),
            Action::RestoreAudio,
            Action::Finish
        ]
    );
}

#[test]
fn failed_deliveries_leave_the_window_alone() {
    let mut events = vec![partial("draft"), PressEvent::Delivered(false)];
    events.extend(released(Some(Verdict::Usable)));
    events.extend(vec![
        PressEvent::FinalizeRequested(true),
        PressEvent::Session(None),
    ]);
    let (_, steps) = run(realtime_press(true), events);
    assert_eq!(
        steps[6],
        [
            Action::Notify("Realtime transcription failed"),
            Action::RestoreAudio,
            Action::Finish
        ]
    );
}

#[test]
fn notices_fit_the_realtime_error() {
    let provider = |code: Option<&str>| RealtimeError::Provider {
        code: code.map(str::to_string),
        message: "text".to_string(),
    };
    for (error, notice) in [
        (
            RealtimeError::InvalidApiKey,
            "Authentication failed — check ELEVENLABS_API_KEY",
        ),
        (
            provider(Some("auth_error")),
            "Authentication failed — check ELEVENLABS_API_KEY",
        ),
        (
            RealtimeError::ConnectionFailed,
            "Realtime transcription failed — check network connection",
        ),
        (
            provider(Some("quota_exceeded")),
            "Realtime service is rate limited — try again shortly",
        ),
        (
            provider(Some("resource_exhausted")),
            "Realtime service is rate limited — try again shortly",
        ),
        (provider(Some("input_error")), "Realtime transcription failed"),
        (provider(None), "Realtime transcription failed"),
        (RealtimeError::InvalidMessage, "Realtime transcription failed"),
        (RealtimeError::InvalidEndpoint, "Realtime transcription failed"),
    ] {
        assert_eq!(realtime_error_notification(&error), notice);
    }
}

#[test]
fn shutting_down_removes_what_is_left() {
    assert_eq!(shut_down(true), [Action::RemoveMarker, Action::RestoreAudio]);
    assert_eq!(shut_down(false), [Action::RestoreAudio]);
}
