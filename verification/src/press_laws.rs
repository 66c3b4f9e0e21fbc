//! What every press of the hotkey keeps to, whatever happens.

use crate::audio::Verdict;
use crate::hotkey::HotkeyEvent;
use crate::live_text;
use crate::press::{self, Goal, SessionStatus};
use crate::realtime;
use crate::transcript;
use vstd::prelude::*;

verus! {

/// Whether none of the actions sends keystrokes.
pub open spec fn leaves_keyboard_alone(actions: Seq<press::ActionView>) -> bool {
    forall|i: int| 0 <= i < actions.len() ==> !(#[trigger] actions[i]).uses_keyboard()
}

/// Once it cannot be known any more when modifiers are released, no keystroke is
/// sent, and that stays so until the press is over.
pub proof fn law_unsafe_keyboard_is_left_alone(
    press: press::PressView,
    event: press::PressEventView,
)
    requires
        press.valid(),
        !press.keyboard_safe,
    ensures
        leaves_keyboard_alone(press.next(event).actions),
        !press.next(event).press.keyboard_safe,
{
}

/// Letting go of the key stops the recording at once, and does nothing else.
pub proof fn law_release_stops_the_recording(press: press::PressView)
    requires
        press.phase is Waiting,
    ensures
        ({
            let step = press.next(
                press::PressEventView::Hotkey(Some(HotkeyEvent::ReleaseStarted)),
            );
            &&& step.actions == seq![press::ActionView::StopRecorder]
            &&& step.press.phase is StoppingRecorder
            &&& step.press.release_started
        }),
{
}

/// From letting go of the key until the release is complete, no keystroke is
/// sent: a restored modifier may be held. Where the completion cannot be known
/// any more, the press ends without one.
pub proof fn law_keyboard_waits_for_the_release(
    press: press::PressView,
    event: press::PressEventView,
)
    requires
        press.valid(),
        press.phase is StoppingRecorder && press.release_started || press.phase is Completing,
        event != press::PressEventView::Hotkey(Some(HotkeyEvent::ReleaseCompleted)),
    ensures
        leaves_keyboard_alone(press.next(event).actions),
        press.next(event).press.phase is StoppingRecorder || press.next(
            event,
        ).press.phase is Completing || press.next(event).press.phase is Finished,
{
}

/// Whether a press that ends restores the audio that was muted for it, and ends
/// with that step.
pub open spec fn ends_well(actions: Seq<press::ActionView>) -> bool {
    actions.contains(press::ActionView::Finish) ==> {
        &&& actions.contains(press::ActionView::RestoreAudio)
        &&& actions.last() is Finish
    }
}

proof fn lemma_contains_pushed(
    actions: Seq<press::ActionView>,
    a: press::ActionView,
    b: press::ActionView,
)
    ensures
        actions.push(a).push(b).contains(a),
        actions.push(a).push(b).contains(b),
        actions.push(a).contains(a),
{
    assert(actions.push(a).push(b)[actions.len() as int] == a);
    assert(actions.push(a).push(b)[actions.len() as int + 1] == b);
    assert(actions.push(a)[actions.len() as int] == a);
}

proof fn lemma_finishing_ends_well(
    press: press::PressView,
    marks: Seq<press::ActionView>,
    other: press::ActionView,
)
    ensures
        ends_well(press.finishing(marks.push(press::ActionView::RestoreAudio)).actions),
        ends_well(
            press.finishing(marks.push(press::ActionView::RestoreAudio).push(other)).actions,
        ),
        ends_well(
            press.finishing(marks.push(other).push(press::ActionView::RestoreAudio)).actions,
        ),
{
    let restore = press::ActionView::RestoreAudio;
    let finish = press::ActionView::Finish;
    lemma_contains_pushed(marks, restore, finish);
    lemma_contains_pushed(marks.push(other), restore, finish);
    let long = marks.push(restore).push(other).push(finish);
    assert(long[marks.len() as int] == restore);
    assert(long.last() == finish);
}

proof fn lemma_wrapping_up_ends_well(press: press::PressView, goal: Goal, clean: bool)
    ensures
        ends_well(press.wrapping_up(goal, clean).actions),
{
    let marks = press.marks();
    lemma_finishing_ends_well(
        press.unmarked(),
        marks,
        press::ActionView::Notify(press::CAPTURE_FAILED@),
    );
    lemma_finishing_ends_well(
        press.unmarked(),
        marks,
        press::ActionView::Notify(press::SILENT_MICROPHONE@),
    );
    lemma_finishing_ends_well(
        press.unmarked(),
        marks,
        press::ActionView::Notify(press.failure_notice()),
    );
}

proof fn lemma_clearing_ends_well(press: press::PressView, goal: Goal)
    ensures
        ends_well(press.clearing(goal).actions),
{
    lemma_wrapping_up_ends_well(press, goal, true);
    lemma_wrapping_up_ends_well(press, goal, false);
}

proof fn lemma_proceeding_ends_well(press: press::PressView)
    ensures
        ends_well(press.proceeding().actions),
        ends_well(seq![press::ActionView::RestoreAudio] + press.proceeding().actions),
{
    let actions = press.proceeding().actions;
    let marks = press.marks();
    lemma_clearing_ends_well(press, Goal::CaptureFailed);
    if let Some(verdict) = press.captured {
        lemma_clearing_ends_well(press, press.realtime_goal(verdict));
    }
    lemma_finishing_ends_well(
        press.unmarked(),
        marks,
        press::ActionView::Notify(press::SILENT_MICROPHONE@),
    );
    assert(ends_well(actions));
    let all = seq![press::ActionView::RestoreAudio] + actions;
    assert(all[0] is RestoreAudio);
    if all.contains(press::ActionView::Finish) {
        let i = choose|i: int| 0 <= i < all.len() && all[i] == press::ActionView::Finish;
        assert(actions[i - 1] == press::ActionView::Finish);
        assert(all.last() == actions.last());
    }
}

proof fn lemma_showing_ends_well(
    press: press::PressView,
    content: Seq<char>,
    committed: bool,
    draining: bool,
)
    ensures
        ends_well(press.showing(content, committed, draining).actions),
{
}

/// No press ends without restoring the sinks and streams that were muted for it,
/// and nothing comes after its end.
pub proof fn law_audio_is_restored_before_the_end(
    press: press::PressView,
    event: press::PressEventView,
)
    ensures
        ends_well(press.next(event).actions),
{
    let marks = press.marks();
    let restore = press::ActionView::RestoreAudio;
    let no_marks = Seq::<press::ActionView>::empty();
    assert(no_marks.push(restore) == seq![restore]);
    lemma_finishing_ends_well(press, no_marks, restore);
    match event {
        press::PressEventView::RecorderStarted(_) => {
            lemma_finishing_ends_well(
                press.unmarked(),
                marks,
                press::ActionView::Notify(press::NO_MICROPHONE@),
            );
        },
        press::PressEventView::Hotkey(_) => {
            lemma_proceeding_ends_well(press);
            lemma_finishing_ends_well(
                press::PressView { keyboard_safe: false, ..press },
                no_marks,
                restore,
            );
        },
        press::PressEventView::Session(session) => {
            lemma_session_ends_well(press, session);
        },
        press::PressEventView::RecorderStopped(verdict) => {
            let stopped = press::PressView { captured: verdict, ..press };
            lemma_proceeding_ends_well(stopped);
            lemma_finishing_ends_well(stopped, no_marks, restore);
        },
        press::PressEventView::FinalizeRequested(ok) => {
            lemma_result_ends_well(press);
            lemma_result_ends_well(press.failing());
        },
        press::PressEventView::Delivered(ok) => {
            if let press::PhaseView::Clearing { goal } = press.phase {
                lemma_wrapping_up_ends_well(press, goal, ok);
                lemma_wrapping_up_ends_well(
                    press::PressView { live: press.live.cleanup().next, ..press },
                    goal,
                    ok,
                );
            }
        },
        press::PressEventView::Transcribed(_) => {
            lemma_finishing_ends_well(press.unmarked(), marks, restore);
        },
        press::PressEventView::TranscriptionFailed(error) => {
            lemma_finishing_ends_well(
                press.unmarked(),
                marks,
                press::ActionView::Notify(crate::transcribe::batch_notice(error.text())),
            );
        },
        _ => {},
    }
}

proof fn lemma_result_ends_well(press: press::PressView)
    ensures
        ends_well(press.realtime_result().actions),
{
    match press.captured {
        Some(verdict) => {
            lemma_clearing_ends_well(press, press.realtime_goal(verdict));
        },
        None => {
            lemma_clearing_ends_well(press, Goal::CaptureFailed);
        },
    }
}

proof fn lemma_session_ends_well(press: press::PressView, event: Option<realtime::EventView>)
    ensures
        ends_well(press.on_session(event).actions),
{
    lemma_result_ends_well(press::PressView { status: SessionStatus::Closed, ..press });
    if let Some(realtime::EventView::PartialTranscript(content)) = event {
        lemma_showing_ends_well(press, transcript::cleaned(content), false, false);
    }
    if let Some(realtime::EventView::CommittedTranscript(content)) = event {
        lemma_showing_ends_well(press, transcript::cleaned(content), true, false);
        lemma_showing_ends_well(press, transcript::cleaned(content), true, true);
    }
}

/// The action whose outcome a press waits for.
pub open spec fn awaited(press: press::PressView, action: press::ActionView) -> bool {
    match press.phase {
        press::PhaseView::TypingMarker => action is TypeMarker,
        press::PhaseView::StartingRecorder => action is StartRecorder,
        press::PhaseView::OpeningSession => action is OpenSession,
        press::PhaseView::Waiting => action == press::ActionView::AwaitRelease {
            session: press.status is Open,
        },
        press::PhaseView::StoppingRecorder => action is StopRecorder,
        press::PhaseView::Completing => action is AwaitCompletion,
        press::PhaseView::Finalizing => action is RequestFinalize,
        press::PhaseView::Draining => action is AwaitSession,
        press::PhaseView::Editing { .. } | press::PhaseView::Erasing { .. }
        | press::PhaseView::Clearing { .. } => action is ApplyEdit,
        press::PhaseView::Delivering { .. } | press::PhaseView::Pasting => action is Deliver,
        press::PhaseView::Transcribing => action is Transcribe,
        press::PhaseView::Finished => action is Finish,
    }
}

/// Whether an event is an outcome that the press waits for.
pub open spec fn answers(press: press::PressView, event: press::PressEventView) -> bool {
    match press.phase {
        press::PhaseView::TypingMarker => event is MarkerTyped,
        press::PhaseView::StartingRecorder => event is RecorderStarted,
        press::PhaseView::OpeningSession => event is SessionOpened,
        press::PhaseView::Waiting => event is Hotkey || event is Timer || event is Session
            && press.status is Open,
        press::PhaseView::StoppingRecorder => event is RecorderStopped,
        press::PhaseView::Completing => event is Hotkey,
        press::PhaseView::Finalizing => event is FinalizeRequested,
        press::PhaseView::Draining => event is Session,
        press::PhaseView::Editing { .. } | press::PhaseView::Erasing { .. }
        | press::PhaseView::Clearing { .. } | press::PhaseView::Delivering { .. }
        | press::PhaseView::Pasting => event is Delivered,
        press::PhaseView::Transcribing => event is Transcribed || event is TranscriptionFailed,
        press::PhaseView::Finished => false,
    }
}

/// Whether a step asks for what its press then waits for.
pub open spec fn goes_on(step: press::PressStepView) -> bool {
    step.actions.len() > 0 && awaited(step.press, step.actions.last())
}

proof fn lemma_clearing_goes_on(press: press::PressView, goal: Goal)
    ensures
        goes_on(press.clearing(goal)),
{
}

proof fn lemma_result_goes_on(press: press::PressView)
    ensures
        goes_on(press.realtime_result()),
{
    match press.captured {
        Some(verdict) => {
            lemma_clearing_goes_on(press, press.realtime_goal(verdict));
        },
        None => {
            lemma_clearing_goes_on(press, Goal::CaptureFailed);
        },
    }
}

proof fn lemma_proceeding_goes_on(press: press::PressView)
    ensures
        goes_on(press.proceeding()),
{
    lemma_result_goes_on(press);
    lemma_clearing_goes_on(press, Goal::CaptureFailed);
}

proof fn lemma_session_goes_on(press: press::PressView, event: Option<realtime::EventView>)
    requires
        answers(press, press::PressEventView::Session(event)),
    ensures
        goes_on(press.on_session(event)),
{
    lemma_result_goes_on(press::PressView { status: SessionStatus::Closed, ..press });
}

proof fn lemma_delivered_goes_on(press: press::PressView, ok: bool)
    requires
        answers(press, press::PressEventView::Delivered(ok)),
    ensures
        goes_on(press.on_delivered(ok)),
{
}

proof fn lemma_stopped_goes_on(press: press::PressView, verdict: Option<Verdict>)
    requires
        press.phase is StoppingRecorder,
    ensures
        goes_on(press.on_recorder_stopped(verdict)),
{
    let stopped = press::PressView { captured: verdict, ..press };
    lemma_proceeding_goes_on(stopped);
    let rest = stopped.proceeding().actions;
    assert((seq![press::ActionView::RestoreAudio] + rest).last() == rest.last());
}

proof fn lemma_hotkey_goes_on(press: press::PressView, event: Option<HotkeyEvent>)
    requires
        press.phase is Waiting || press.phase is Completing,
    ensures
        goes_on(press.on_hotkey(event)),
{
    lemma_proceeding_goes_on(press);
}

proof fn lemma_finalize_goes_on(press: press::PressView, ok: bool)
    requires
        press.phase is Finalizing,
    ensures
        goes_on(press.on_finalize_requested(ok)),
{
    lemma_result_goes_on(press);
    lemma_result_goes_on(press.failing());
}

/// No press gets stuck: whatever comes of the action that it waits for, it asks
/// for another action and waits for that, or is over.
pub proof fn law_no_press_gets_stuck(press: press::PressView, event: press::PressEventView)
    requires
        answers(press, event),
    ensures
        goes_on(press.next(event)),
{
    match event {
        press::PressEventView::Hotkey(hotkey) => {
            lemma_hotkey_goes_on(press, hotkey);
        },
        press::PressEventView::Session(session) => {
            lemma_session_goes_on(press, session);
        },
        press::PressEventView::RecorderStopped(verdict) => {
            lemma_stopped_goes_on(press, verdict);
        },
        press::PressEventView::FinalizeRequested(ok) => {
            lemma_finalize_goes_on(press, ok);
        },
        press::PressEventView::Delivered(ok) => {
            lemma_delivered_goes_on(press, ok);
        },
        _ => {},
    }
}

/// A press that is over stays so: no event makes it do anything.
pub proof fn law_finished_presses_do_nothing(
    press: press::PressView,
    event: press::PressEventView,
)
    requires
        press.phase is Finished,
    ensures
        press.next(event) == press.quiet(),
{
}

/// Whether the recorder runs.
pub open spec fn is_recording(press: press::PressView) -> bool {
    match press.phase {
        press::PhaseView::OpeningSession | press::PhaseView::Waiting => true,
        press::PhaseView::Editing { draining, .. } => !draining,
        press::PhaseView::Erasing { draining, .. } => !draining,
        press::PhaseView::Delivering { draining } => !draining,
        _ => false,
    }
}

/// A recorder that runs goes on running until it is stopped: no other way leads
/// out of recording.
pub proof fn law_recording_ends_only_by_stopping(
    press: press::PressView,
    event: press::PressEventView,
)
    requires
        is_recording(press),
    ensures
        ({
            let step = press.next(event);
            is_recording(step.press) || step.press.phase is StoppingRecorder
                && step.actions.last() is StopRecorder
        }),
{
}

/// How often the marker is removed by the actions.
pub open spec fn marker_removals(actions: Seq<press::ActionView>) -> nat
    decreases actions.len(),
{
    if actions.len() == 0 {
        0
    } else {
        marker_removals(actions.drop_last()) + (if actions.last() is RemoveMarker {
            1nat
        } else {
            0nat
        })
    }
}

/// Whether a step removes the marker exactly when it stood in the window and no
/// longer does.
pub open spec fn marker_is_tracked(before: press::PressView, step: press::PressStepView) -> bool {
    marker_removals(step.actions) == (if before.marker_active && !step.press.marker_active {
        1nat
    } else {
        0nat
    })
}

proof fn lemma_pushed_removals(actions: Seq<press::ActionView>, action: press::ActionView)
    ensures
        marker_removals(actions.push(action)) == marker_removals(actions) + (
        if action is RemoveMarker {
            1nat
        } else {
            0nat
        }),
{
    assert(actions.push(action).drop_last() == actions);
}

proof fn lemma_single_removals(action: press::ActionView)
    ensures
        marker_removals(seq![action]) == (if action is RemoveMarker {
            1nat
        } else {
            0nat
        }),
        marker_removals(Seq::empty()) == 0,
{
    let none = Seq::<press::ActionView>::empty();
    lemma_pushed_removals(none, action);
    assert(none.push(action) == seq![action]);
}

proof fn lemma_marks(press: press::PressView, a: press::ActionView, b: press::ActionView)
    requires
        !(a is RemoveMarker),
        !(b is RemoveMarker),
    ensures
        marker_removals(press.marks()) == (if press.marker_active {
            1nat
        } else {
            0nat
        }),
        marker_removals(press.marks().push(a)) == marker_removals(press.marks()),
        marker_removals(press.marks().push(a).push(press::ActionView::Finish)) == marker_removals(
            press.marks(),
        ),
        marker_removals(press.marks().push(a).push(b).push(press::ActionView::Finish))
            == marker_removals(press.marks()),
{
    let marks = press.marks();
    let finish = press::ActionView::Finish;
    lemma_single_removals(press::ActionView::RemoveMarker);
    lemma_pushed_removals(marks, a);
    lemma_pushed_removals(marks.push(a), finish);
    lemma_pushed_removals(marks.push(a), b);
    lemma_pushed_removals(marks.push(a).push(b), finish);
}

proof fn lemma_clearing_marker(press: press::PressView, goal: Goal)
    ensures
        marker_is_tracked(press, press.clearing(goal)),
        marker_is_tracked(press, press.wrapping_up(goal, true)),
        marker_is_tracked(press, press.wrapping_up(goal, false)),
{
    let restore = press::ActionView::RestoreAudio;
    lemma_marks(press, restore, press::ActionView::Notify(press::CAPTURE_FAILED@));
    lemma_marks(press, press::ActionView::Notify(press::SILENT_MICROPHONE@), restore);
    lemma_marks(press, press::ActionView::Notify(press.failure_notice()), restore);
    lemma_single_removals(press::ActionView::Transcribe);
    lemma_single_removals(press::ActionView::ApplyEdit(press.live.cleanup().edit));
}

proof fn lemma_result_marker(press: press::PressView)
    ensures
        marker_is_tracked(press, press.realtime_result()),
{
    match press.captured {
        Some(verdict) => {
            lemma_clearing_marker(press, press.realtime_goal(verdict));
        },
        None => {
            lemma_clearing_marker(press, Goal::CaptureFailed);
        },
    }
}

proof fn lemma_prefixed_removals(actions: Seq<press::ActionView>)
    ensures
        marker_removals(seq![press::ActionView::RestoreAudio] + actions) == marker_removals(
            actions,
        ),
    decreases actions.len(),
{
    let all = seq![press::ActionView::RestoreAudio] + actions;
    if actions.len() == 0 {
        lemma_single_removals(press::ActionView::RestoreAudio);
        assert(all == seq![press::ActionView::RestoreAudio]);
    } else {
        lemma_prefixed_removals(actions.drop_last());
        assert(all.drop_last() == seq![press::ActionView::RestoreAudio] + actions.drop_last());
        assert(all.last() == actions.last());
    }
}

proof fn lemma_proceeding_marker(press: press::PressView)
    ensures
        marker_is_tracked(press, press.proceeding()),
{
    let restore = press::ActionView::RestoreAudio;
    lemma_clearing_marker(press, Goal::CaptureFailed);
    lemma_result_marker(press);
    lemma_marks(press, restore, press::ActionView::Notify(press::SILENT_MICROPHONE@));
    lemma_single_removals(press::ActionView::Transcribe);
    lemma_single_removals(press::ActionView::RequestFinalize);
}

proof fn lemma_resuming_marker(press: press::PressView, draining: bool)
    ensures
        marker_is_tracked(press, press.resuming(draining)),
        marker_is_tracked(press, press.waiting()),
        marker_is_tracked(press, press.stopping()),
        marker_is_tracked(press, press.quiet()),
{
    lemma_single_removals(press::ActionView::AwaitSession);
    lemma_single_removals(press::ActionView::StopRecorder);
    lemma_single_removals(press::ActionView::AwaitRelease { session: press.status is Open });
}

proof fn lemma_showing_marker(
    press: press::PressView,
    content: Seq<char>,
    committed: bool,
    draining: bool,
)
    ensures
        marker_is_tracked(press, press.showing(content, committed, draining)),
{
    let edit = if committed {
        press.live.commit(content).edit
    } else {
        press.live.partial(content).edit
    };
    let action = press::ActionView::ApplyEdit(edit);
    lemma_marks(press, action, action);
    lemma_pushed_removals(Seq::empty(), action);
    lemma_single_removals(action);
}

proof fn lemma_session_marker(press: press::PressView, event: Option<realtime::EventView>)
    ensures
        marker_is_tracked(press, press.on_session(event)),
{
    let closed = press::PressView { status: SessionStatus::Closed, ..press };
    lemma_resuming_marker(press, true);
    lemma_resuming_marker(press, false);
    lemma_resuming_marker(closed.failing(), false);
    lemma_result_marker(closed);
    match event {
        Some(realtime::EventView::PartialTranscript(content)) => {
            lemma_showing_marker(press, transcript::cleaned(content), false, false);
        },
        Some(realtime::EventView::CommittedTranscript(content)) => {
            lemma_showing_marker(press, transcript::cleaned(content), true, false);
            lemma_showing_marker(press, transcript::cleaned(content), true, true);
        },
        Some(realtime::EventView::Error(error)) => {
            let failed = press::PressView { failed: Some(error), ..press };
            lemma_resuming_marker(failed, true);
            lemma_resuming_marker(failed, false);
        },
        _ => {},
    }
}

proof fn lemma_delivered_marker(press: press::PressView, ok: bool)
    requires
        press.valid(),
    ensures
        marker_is_tracked(press, press.on_delivered(ok)),
{
    lemma_resuming_marker(press, true);
    match press.phase {
        press::PhaseView::Editing { draining, next, segment } => {
            lemma_resuming_marker(press.undelivered(), draining);
            lemma_resuming_marker(press::PressView { live: next, ..press }, draining);
            if let Some(segment) = segment {
                lemma_single_removals(
                    press::ActionView::ApplyEdit(
                        live_text::EditView {
                            backspaces: crate::graphemes::clusters(segment).len() as int,
                            insert: Seq::empty(),
                        },
                    ),
                );
            }
        },
        press::PhaseView::Erasing { draining, segment } => {
            lemma_resuming_marker(press.undelivered(), draining);
            lemma_single_removals(
                press::ActionView::Deliver(crate::deliver::transcript_deliveries(segment)),
            );
        },
        press::PhaseView::Delivering { draining } => {
            lemma_resuming_marker(press, draining);
            lemma_resuming_marker(press.undelivered(), draining);
        },
        press::PhaseView::Clearing { goal } => {
            let cleared = press::PressView { live: press.live.cleanup().next, ..press };
            lemma_clearing_marker(press, goal);
            lemma_clearing_marker(cleared, goal);
        },
        press::PhaseView::Pasting => {
            lemma_finish_marker(press);
        },
        _ => {},
    }
}

proof fn lemma_finish_marker(press: press::PressView)
    ensures
        marker_is_tracked(press, press.finishing(seq![press::ActionView::RestoreAudio])),
{
    let restored = seq![press::ActionView::RestoreAudio];
    lemma_single_removals(press::ActionView::RestoreAudio);
    lemma_pushed_removals(restored, press::ActionView::Finish);
}

proof fn lemma_start_marker(press: press::PressView, ok: bool)
    requires
        press.valid(),
    ensures
        marker_is_tracked(press, press.on_marker_typed(ok)),
        marker_is_tracked(press, press.on_recorder_started(ok)),
        marker_is_tracked(press, press.on_session_opened(ok)),
{
    let restore = press::ActionView::RestoreAudio;
    let start = press::ActionView::StartRecorder { stream: press.realtime };
    let muted = seq![press::ActionView::MuteOtherMicApps];
    lemma_finish_marker(press);
    lemma_resuming_marker(press, false);
    lemma_single_removals(press::ActionView::MuteOtherMicApps);
    lemma_single_removals(press::ActionView::OpenSession);
    lemma_pushed_removals(muted, start);
    lemma_pushed_removals(Seq::empty(), start);
    lemma_marks(press, restore, press::ActionView::Notify(press::NO_MICROPHONE@));
    lemma_resuming_marker(press::PressView { status: SessionStatus::Open, ..press }, false);
    lemma_resuming_marker(
        press::PressView { status: SessionStatus::Missing, ..press }.failing(),
        false,
    );
}

/// A step removes the marker exactly when it stood in the window before and no
/// longer does afterwards, so that no other text is ever deleted in its place.
pub proof fn law_only_a_standing_marker_is_removed(press: press::PressView, event: press::PressEventView)
    requires
        press.valid(),
    ensures
        marker_is_tracked(press, press.next(event)),
{
    let restore = press::ActionView::RestoreAudio;
    lemma_resuming_marker(press, false);
    match event {
        press::PressEventView::MarkerTyped(ok) | press::PressEventView::RecorderStarted(ok)
        | press::PressEventView::SessionOpened(ok) => {
            lemma_start_marker(press, ok);
        },
        press::PressEventView::Hotkey(_) => {
            let unsafe_press = press::PressView { keyboard_safe: false, ..press };
            lemma_proceeding_marker(press);
            lemma_finish_marker(unsafe_press);
            lemma_resuming_marker(unsafe_press, false);
            lemma_resuming_marker(press::PressView { release_started: true, ..press }, false);
            lemma_single_removals(press::ActionView::AwaitCompletion);
        },
        press::PressEventView::Timer => {},
        press::PressEventView::Session(session) => {
            lemma_session_marker(press, session);
        },
        press::PressEventView::RecorderStopped(verdict) => {
            let stopped = press::PressView { captured: verdict, ..press };
            lemma_finish_marker(stopped);
            lemma_proceeding_marker(stopped);
            lemma_prefixed_removals(stopped.proceeding().actions);
            lemma_single_removals(restore);
            lemma_pushed_removals(seq![restore], press::ActionView::AwaitCompletion);
            assert(seq![restore].push(press::ActionView::AwaitCompletion) == seq![
                restore,
                press::ActionView::AwaitCompletion,
            ]);
        },
        press::PressEventView::FinalizeRequested(ok) => {
            lemma_resuming_marker(press, true);
            lemma_resuming_marker(press.failing(), true);
            lemma_result_marker(press);
            lemma_result_marker(press.failing());
        },
        press::PressEventView::Delivered(ok) => {
            lemma_delivered_marker(press, ok);
        },
        press::PressEventView::Transcribed(content) => {
            let deliver = press::ActionView::Deliver(
                crate::deliver::transcript_deliveries(content),
            );
            lemma_marks(press, restore, restore);
            lemma_marks(press, deliver, deliver);
        },
        press::PressEventView::TranscriptionFailed(error) => {
            let notice = press::ActionView::Notify(
                crate::transcribe::batch_notice(error.text()),
            );
            lemma_marks(press, notice, restore);
        },
    }
}

/// Whether a step types no marker: it turns up only where one was being typed.
pub open spec fn adds_no_marker(before: press::PressView, after: press::PressView) -> bool {
    &&& after.marker_active ==> before.marker_active
    &&& !(after.phase is TypingMarker)
}

proof fn lemma_clearing_adds_none(press: press::PressView, goal: Goal)
    ensures
        adds_no_marker(press, press.clearing(goal).press),
{
}

proof fn lemma_result_adds_none(press: press::PressView)
    ensures
        adds_no_marker(press, press.realtime_result().press),
{
    match press.captured {
        Some(verdict) => {
            lemma_clearing_adds_none(press, press.realtime_goal(verdict));
        },
        None => {
            lemma_clearing_adds_none(press, Goal::CaptureFailed);
        },
    }
}

proof fn lemma_proceeding_adds_none(press: press::PressView)
    ensures
        adds_no_marker(press, press.proceeding().press),
{
    lemma_result_adds_none(press);
    lemma_clearing_adds_none(press, Goal::CaptureFailed);
}

proof fn lemma_hotkey_adds_none(press: press::PressView, event: Option<HotkeyEvent>)
    requires
        !(press.phase is TypingMarker),
    ensures
        adds_no_marker(press, press.on_hotkey(event).press),
{
    lemma_proceeding_adds_none(press);
}

proof fn lemma_stopped_adds_none(press: press::PressView, verdict: Option<Verdict>)
    requires
        !(press.phase is TypingMarker),
    ensures
        adds_no_marker(press, press.on_recorder_stopped(verdict).press),
{
    lemma_proceeding_adds_none(press::PressView { captured: verdict, ..press });
}

proof fn lemma_session_adds_none(press: press::PressView, event: Option<realtime::EventView>)
    requires
        !(press.phase is TypingMarker),
    ensures
        adds_no_marker(press, press.on_session(event).press),
{
    lemma_result_adds_none(press::PressView { status: SessionStatus::Closed, ..press });
}

proof fn lemma_finalize_adds_none(press: press::PressView, ok: bool)
    requires
        !(press.phase is TypingMarker),
    ensures
        adds_no_marker(press, press.on_finalize_requested(ok).press),
{
    lemma_result_adds_none(press);
    lemma_result_adds_none(press.failing());
}

proof fn lemma_delivered_adds_none(press: press::PressView, ok: bool)
    requires
        !(press.phase is TypingMarker),
    ensures
        adds_no_marker(press, press.on_delivered(ok).press),
{
}

proof fn lemma_next_adds_none(press: press::PressView, event: press::PressEventView)
    requires
        !(press.phase is TypingMarker),
    ensures
        adds_no_marker(press, press.next(event).press),
{
    match event {
        press::PressEventView::Hotkey(hotkey) => {
            lemma_hotkey_adds_none(press, hotkey);
        },
        press::PressEventView::Session(session) => {
            lemma_session_adds_none(press, session);
        },
        press::PressEventView::RecorderStopped(verdict) => {
            lemma_stopped_adds_none(press, verdict);
        },
        press::PressEventView::FinalizeRequested(ok) => {
            lemma_finalize_adds_none(press, ok);
        },
        press::PressEventView::Delivered(ok) => {
            lemma_delivered_adds_none(press, ok);
        },
        _ => {},
    }
}

/// Where a press stands after these events, and how often the marker was removed
/// by then.
pub open spec fn after_events(
    realtime: bool,
    mute_mics: bool,
    events: Seq<press::PressEventView>,
) -> (press::PressView, nat)
    decreases events.len(),
{
    if events.len() == 0 {
        (press::PressView::initial(realtime, mute_mics), 0)
    } else {
        let (press, removals) = after_events(realtime, mute_mics, events.drop_last());
        let step = press.next(events.last());
        (step.press, removals + marker_removals(step.actions))
    }
}

/// Whether the marker was removed at most once, and not at all while it stands or
/// is being typed.
pub open spec fn removed_at_most_once(press: press::PressView, removals: nat) -> bool {
    &&& removals <= 1
    &&& press.marker_active || press.phase is TypingMarker ==> removals == 0
}

proof fn lemma_typing_step(press: press::PressView, event: press::PressEventView)
    requires
        press.phase is TypingMarker,
    ensures
        press.next(event).press.phase is TypingMarker ==> press.next(event).press == press,
{
}

proof fn lemma_removals_add_up(
    press: press::PressView,
    step: press::PressStepView,
    removals: nat,
)
    requires
        removed_at_most_once(press, removals),
        marker_is_tracked(press, step),
        press.phase is TypingMarker || adds_no_marker(press, step.press),
        press.phase is TypingMarker ==> !press.marker_active,
        press.phase is TypingMarker && step.press.phase is TypingMarker ==> step.press == press,
    ensures
        removed_at_most_once(step.press, removals + marker_removals(step.actions)),
{
}

/// Whatever happens to a press, its marker is removed at most once, and not at
/// all while it still stands.
pub proof fn law_the_marker_is_removed_at_most_once(
    realtime: bool,
    mute_mics: bool,
    events: Seq<press::PressEventView>,
)
    ensures
        ({
            let (press, removals) = after_events(realtime, mute_mics, events);
            press.valid() && removed_at_most_once(press, removals)
        }),
    decreases events.len(),
{
    if events.len() > 0 {
        let (press, removals) = after_events(realtime, mute_mics, events.drop_last());
        let event = events.last();
        law_the_marker_is_removed_at_most_once(realtime, mute_mics, events.drop_last());
        press::lemma_next_valid(press, event);
        law_only_a_standing_marker_is_removed(press, event);
        if press.phase is TypingMarker {
            lemma_typing_step(press, event);
        } else {
            lemma_next_adds_none(press, event);
        }
        lemma_removals_add_up(press, press.next(event), removals);
    }
}

/// Whether a press that is over has left no marker behind.
pub open spec fn is_tidy(press: press::PressView) -> bool {
    press.phase is Finished && press.keyboard_safe ==> !press.marker_active
}

proof fn lemma_clearing_tidy(press: press::PressView, goal: Goal)
    ensures
        is_tidy(press.clearing(goal).press),
{
}

proof fn lemma_result_tidy(press: press::PressView)
    ensures
        is_tidy(press.realtime_result().press),
{
    match press.captured {
        Some(verdict) => {
            lemma_clearing_tidy(press, press.realtime_goal(verdict));
        },
        None => {
            lemma_clearing_tidy(press, Goal::CaptureFailed);
        },
    }
}

proof fn lemma_proceeding_tidy(press: press::PressView)
    ensures
        is_tidy(press.proceeding().press),
{
    lemma_result_tidy(press);
    lemma_clearing_tidy(press, Goal::CaptureFailed);
}

proof fn lemma_hotkey_tidy(press: press::PressView, event: Option<HotkeyEvent>)
    requires
        !(press.phase is Finished),
    ensures
        is_tidy(press.on_hotkey(event).press),
{
    lemma_proceeding_tidy(press);
}

proof fn lemma_stopped_tidy(press: press::PressView, verdict: Option<Verdict>)
    requires
        !(press.phase is Finished),
    ensures
        is_tidy(press.on_recorder_stopped(verdict).press),
{
    lemma_proceeding_tidy(press::PressView { captured: verdict, ..press });
}

proof fn lemma_session_tidy(press: press::PressView, event: Option<realtime::EventView>)
    requires
        !(press.phase is Finished),
    ensures
        is_tidy(press.on_session(event).press),
{
    lemma_result_tidy(press::PressView { status: SessionStatus::Closed, ..press });
}

proof fn lemma_finalize_tidy(press: press::PressView, ok: bool)
    requires
        !(press.phase is Finished),
    ensures
        is_tidy(press.on_finalize_requested(ok).press),
{
    lemma_result_tidy(press);
    lemma_result_tidy(press.failing());
}

proof fn lemma_delivered_tidy(press: press::PressView, ok: bool)
    requires
        press.valid(),
        !(press.phase is Finished),
    ensures
        is_tidy(press.on_delivered(ok).press),
{
}

/// A press that ends while the keyboard is safe leaves no marker behind.
pub proof fn law_no_marker_is_left_behind(press: press::PressView, event: press::PressEventView)
    requires
        press.valid(),
        !(press.phase is Finished),
    ensures
        is_tidy(press.next(event).press),
{
    match event {
        press::PressEventView::Hotkey(hotkey) => {
            lemma_hotkey_tidy(press, hotkey);
        },
        press::PressEventView::Session(session) => {
            lemma_session_tidy(press, session);
        },
        press::PressEventView::RecorderStopped(verdict) => {
            lemma_stopped_tidy(press, verdict);
        },
        press::PressEventView::FinalizeRequested(ok) => {
            lemma_finalize_tidy(press, ok);
        },
        press::PressEventView::Delivered(ok) => {
            lemma_delivered_tidy(press, ok);
        },
        _ => {},
    }
}

/// Whether the recording is transcribed in one go only where that is called for:
/// it is worth it, and either no realtime transcription was wanted, or it failed
/// before anything was committed and nothing of it is left in the window.
pub open spec fn transcribes_rightly(step: press::PressStepView) -> bool {
    step.press.phase is Transcribing ==> {
        &&& step.press.captured == Some(Verdict::Usable)
        &&& step.press.status is Batch || {
            &&& step.press.failed is Some
            &&& !step.press.live.committed_any
            &&& step.press.tail_safe
            &&& step.press.live.cleanup().edit.is_noop()
        }
    }
}

proof fn lemma_clearing_transcribes(press: press::PressView, goal: Goal)
    requires
        goal is Fallback ==> press.failed is Some && !press.live.committed_any && press.tail_safe
            && press.captured == Some(Verdict::Usable),
    ensures
        transcribes_rightly(press.clearing(goal)),
{
}

proof fn lemma_result_transcribes(press: press::PressView)
    ensures
        transcribes_rightly(press.realtime_result()),
{
    match press.captured {
        Some(verdict) => {
            lemma_clearing_transcribes(press, press.realtime_goal(verdict));
        },
        None => {
            lemma_clearing_transcribes(press, Goal::CaptureFailed);
        },
    }
}

proof fn lemma_proceeding_transcribes(press: press::PressView)
    ensures
        transcribes_rightly(press.proceeding()),
{
    lemma_result_transcribes(press);
    lemma_clearing_transcribes(press, Goal::CaptureFailed);
}

proof fn lemma_hotkey_transcribes(press: press::PressView, event: Option<HotkeyEvent>)
    requires
        !(press.phase is Transcribing),
    ensures
        transcribes_rightly(press.on_hotkey(event)),
{
    lemma_proceeding_transcribes(press);
}

proof fn lemma_stopped_transcribes(press: press::PressView, verdict: Option<Verdict>)
    requires
        !(press.phase is Transcribing),
    ensures
        transcribes_rightly(press.on_recorder_stopped(verdict)),
{
    lemma_proceeding_transcribes(press::PressView { captured: verdict, ..press });
}

proof fn lemma_session_transcribes(press: press::PressView, event: Option<realtime::EventView>)
    requires
        !(press.phase is Transcribing),
    ensures
        transcribes_rightly(press.on_session(event)),
{
    lemma_result_transcribes(press::PressView { status: SessionStatus::Closed, ..press });
}

proof fn lemma_finalize_transcribes(press: press::PressView, ok: bool)
    requires
        !(press.phase is Transcribing),
    ensures
        transcribes_rightly(press.on_finalize_requested(ok)),
{
    lemma_result_transcribes(press);
    lemma_result_transcribes(press.failing());
}

proof fn lemma_delivered_transcribes(press: press::PressView, ok: bool)
    requires
        press.valid(),
        !(press.phase is Transcribing),
    ensures
        transcribes_rightly(press.on_delivered(ok)),
{
    live_text::law_edit_between_equal_texts(Seq::<char>::empty());
}

/// The recording is transcribed in one go only where that duplicates nothing:
/// either no realtime transcription was wanted, or it failed before anything was
/// committed, and the provisional text is gone.
pub proof fn law_fallback_follows_only_a_clean_failure(
    press: press::PressView,
    event: press::PressEventView,
)
    requires
        press.valid(),
        !(press.phase is Transcribing),
    ensures
        transcribes_rightly(press.next(event)),
{
    match event {
        press::PressEventView::Hotkey(hotkey) => {
            lemma_hotkey_transcribes(press, hotkey);
        },
        press::PressEventView::Session(session) => {
            lemma_session_transcribes(press, session);
        },
        press::PressEventView::RecorderStopped(verdict) => {
            lemma_stopped_transcribes(press, verdict);
        },
        press::PressEventView::FinalizeRequested(ok) => {
            lemma_finalize_transcribes(press, ok);
        },
        press::PressEventView::Delivered(ok) => {
            lemma_delivered_transcribes(press, ok);
        },
        _ => {},
    }
}

/// Where realtime transcription failed before anything was committed, and the
/// recording is worth it, it is transcribed in one go: at once where there is no
/// provisional text, or else as soon as that is removed.
pub proof fn law_clean_failures_fall_back(press: press::PressView)
    requires
        press.captured == Some(Verdict::Usable),
        press.failed is Some,
        !press.live.committed_any,
        press.tail_safe,
    ensures
        ({
            let step = press.realtime_result();
            let cleared = step.press.next(press::PressEventView::Delivered(true));
            if press.live.cleanup().edit.is_noop() {
                step.actions == seq![press::ActionView::Transcribe]
            } else {
                &&& step.actions == seq![
                    press::ActionView::ApplyEdit(press.live.cleanup().edit),
                ]
                &&& cleared.actions == seq![press::ActionView::Transcribe]
            }
        }),
{
}

/// Where realtime transcription failed after something was committed, the
/// recording is not transcribed again, what was committed is kept, and the user
/// is told.
pub proof fn law_failures_after_a_commit_keep_it(press: press::PressView)
    requires
        press.captured == Some(Verdict::Usable),
        press.failed is Some,
        press.live.committed_any,
        press.tail_safe,
    ensures
        ({
            let step = press.realtime_result();
            let cleared = step.press.next(press::PressEventView::Delivered(true));
            let last = if press.live.cleanup().edit.is_noop() {
                step
            } else {
                cleared
            };
            &&& last.press.phase is Finished
            &&& last.press.live.committed_text == press.live.committed_text
            &&& last.actions == press.marks().push(
                press::ActionView::Notify(press.failure_notice()),
            ).push(press::ActionView::RestoreAudio).push(press::ActionView::Finish)
        }),
{
}

proof fn lemma_prefix_self(content: Seq<char>)
    ensures
        content.is_prefix_of(content),
{
    assert(content.subrange(0, content.len() as int) == content);
}

proof fn lemma_clearing_keeps(press: press::PressView, goal: Goal)
    ensures
        press.clearing(goal).press.live == press.live,
{
}

proof fn lemma_proceeding_keeps(press: press::PressView)
    ensures
        press.proceeding().press.live == press.live,
        press.realtime_result().press.live == press.live,
{
    lemma_clearing_keeps(press, Goal::CaptureFailed);
    if let Some(verdict) = press.captured {
        lemma_clearing_keeps(press, press.realtime_goal(verdict));
    }
}

proof fn lemma_session_keeps(press: press::PressView, event: Option<realtime::EventView>)
    ensures
        press.on_session(event).press.live == press.live,
{
    lemma_proceeding_keeps(press::PressView { status: SessionStatus::Closed, ..press });
}

proof fn lemma_hotkey_keeps(press: press::PressView, event: Option<HotkeyEvent>)
    ensures
        press.on_hotkey(event).press.live == press.live,
{
    lemma_proceeding_keeps(press);
}

proof fn lemma_stopped_keeps(press: press::PressView, verdict: Option<Verdict>)
    ensures
        press.on_recorder_stopped(verdict).press.live == press.live,
{
    lemma_proceeding_keeps(press::PressView { captured: verdict, ..press });
}

proof fn lemma_finalize_keeps(press: press::PressView, ok: bool)
    ensures
        press.on_finalize_requested(ok).press.live == press.live,
{
    lemma_proceeding_keeps(press);
    lemma_proceeding_keeps(press.failing());
}

proof fn lemma_delivered_keeps(press: press::PressView, ok: bool)
    requires
        press.valid(),
    ensures
        press.live.committed_text.is_prefix_of(
            press.on_delivered(ok).press.live.committed_text,
        ),
        press.live.committed_any ==> press.on_delivered(ok).press.live.committed_any,
{
    lemma_prefix_self(press.live.committed_text);
}

/// Committed segments become immutable: whatever happens, what was committed
/// stays at the front of what is.
pub proof fn law_committed_text_is_never_taken_back(
    press: press::PressView,
    event: press::PressEventView,
)
    requires
        press.valid(),
    ensures
        press.live.committed_text.is_prefix_of(press.next(event).press.live.committed_text),
        press.live.committed_any ==> press.next(event).press.live.committed_any,
{
    lemma_prefix_self(press.live.committed_text);
    match event {
        press::PressEventView::Hotkey(hotkey) => {
            lemma_hotkey_keeps(press, hotkey);
        },
        press::PressEventView::Session(session) => {
            lemma_session_keeps(press, session);
        },
        press::PressEventView::RecorderStopped(verdict) => {
            lemma_stopped_keeps(press, verdict);
        },
        press::PressEventView::FinalizeRequested(ok) => {
            lemma_finalize_keeps(press, ok);
        },
        press::PressEventView::Delivered(ok) => {
            lemma_delivered_keeps(press, ok);
        },
        _ => {},
    }
}

/// Showing a transcript turns the visible tail into what is shown next, without
/// touching what was committed; once the edit is done, that is what is believed.
pub proof fn law_edits_show_the_transcript(
    press: press::PressView,
    content: Seq<char>,
    committed: bool,
    draining: bool,
)
    ensures
        ({
            let step = press.showing(content, committed, draining);
            &&& step.press.phase matches press::PhaseView::Editing { next, .. }
            &&& step.actions.last() matches press::ActionView::ApplyEdit(edit)
            &&& press.live.committed_text + edit.applied_to(press.live.tail) == next.shown()
            &&& step.press.next(press::PressEventView::Delivered(true)).press.live == next
        }),
{
    if committed {
        live_text::law_commit_appends(press.live, content);
    } else {
        live_text::law_partial_changes_only_the_tail(press.live, content);
    }
}

/// A late preview changes nothing while a session ends.
pub proof fn law_late_previews_are_ignored(press: press::PressView, content: Seq<char>)
    requires
        press.phase is Draining,
    ensures
        ({
            let step = press.next(
                press::PressEventView::Session(
                    Some(realtime::EventView::PartialTranscript(content)),
                ),
            );
            step.press == press && step.actions == seq![press::ActionView::AwaitSession]
        }),
{
}

/// After a failure no more transcripts are shown, and the failure stands.
pub proof fn law_nothing_is_shown_after_a_failure(
    press: press::PressView,
    event: realtime::EventView,
)
    requires
        press.phase is Waiting && press.status is Open || press.phase is Draining,
        press.failed is Some,
    ensures
        ({
            let step = press.next(press::PressEventView::Session(Some(event)));
            &&& leaves_keyboard_alone(step.actions)
            &&& step.press.live == press.live
            &&& step.press.failed is Some
        }),
{
    let draining = press.phase is Draining;
    let failed = match event {
        realtime::EventView::Error(error) => press::PressView { failed: Some(error), ..press },
        _ => press,
    };
    assert(press.next(press::PressEventView::Session(Some(event))) == failed.resuming(draining));
}

} // verus!
