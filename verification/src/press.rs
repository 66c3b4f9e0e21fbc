//! What one press of the hotkey leads to, from the marker that appears to the
//! text that is delivered.
//!
//! A [`Press`] is told what happened and answers with actions. The caller carries
//! them out in their order and tells the press what came of the last one; nothing
//! depends on what came of the others.
//!
//! Recording stops as soon as the release starts. The keyboard is left alone from
//! then on until the release is complete, and for good where that cannot be
//! known: a modifier may still be held.

use crate::audio::Verdict;
use crate::deliver::{self, Delivery};
use crate::graphemes;
use crate::hotkey::{self, HotkeyEvent, ReleaseStart};
use crate::live_text::{self, LiveText, LiveTextEdit};
use crate::placeholder;
use crate::realtime::{self, RealtimeError, RealtimeEvent};
use crate::realtime_mode::{self, RealtimeNextStep};
use crate::text;
use crate::transcribe::{self, TranscribeError};
use crate::transcript;
use vstd::prelude::*;

verus! {

/// The notice that no recording could be started.
pub const NO_MICROPHONE: &'static str =
    "Failed to start recording — microphone not available?";

/// The notice that a recording was lost.
pub const CAPTURE_FAILED: &'static str = "Audio capture failed";

/// The notice that a recording has no sound in it.
pub const SILENT_MICROPHONE: &'static str =
    "Microphone appears silent — check your input volume/source in PipeWire";

/// Whether a press has a realtime session.
#[derive(Debug, Clone, Copy, PartialEq, Eq)]
pub enum SessionStatus {
    /// None is wanted: the press is transcribed in one go.
    Batch,
    /// None could be opened.
    Missing,
    Open,
    Closed,
}

/// How a press ends once the mutable text is out of the way.
#[derive(Debug, Clone, Copy, PartialEq, Eq)]
pub enum Goal {
    /// There is nothing more to do.
    Done,
    /// Tell that the recording was lost.
    CaptureFailed,
    /// Tell that the recording has no sound in it.
    Silent,
    /// Transcribe the recording in one go.
    Fallback,
    /// Tell that realtime transcription failed.
    Failure,
}

/// Where a press stands.
#[derive(Debug, Clone, PartialEq, Eq)]
pub enum Phase {
    TypingMarker,
    StartingRecorder,
    OpeningSession,
    /// Waiting for the release, and for transcripts where a session is open.
    Waiting,
    StoppingRecorder,
    /// Waiting for the release to complete.
    Completing,
    /// Asking the session to finalize.
    Finalizing,
    /// Waiting for the last transcripts.
    Draining,
    /// A transcript is being shown; where it is a committed segment, the segment
    /// as it stands there then is remembered.
    Editing { draining: bool, next: LiveText, segment: Option<String> },
    /// A committed segment with placeholders is being removed again.
    Erasing { draining: bool, segment: String },
    /// The segment is being delivered with the clipboard in it.
    Delivering { draining: bool },
    /// The mutable text is being removed.
    Clearing { goal: Goal },
    Transcribing,
    /// The transcript is being delivered.
    Pasting,
    Finished,
}

/// What a [`Phase`] says.
#[verifier::ext_equal]
pub enum PhaseView {
    TypingMarker,
    StartingRecorder,
    OpeningSession,
    Waiting,
    StoppingRecorder,
    Completing,
    Finalizing,
    Draining,
    Editing { draining: bool, next: live_text::LiveTextView, segment: Option<Seq<char>> },
    Erasing { draining: bool, segment: Seq<char> },
    Delivering { draining: bool },
    Clearing { goal: Goal },
    Transcribing,
    Pasting,
    Finished,
}

impl View for Phase {
    type V = PhaseView;

    open spec fn view(&self) -> PhaseView {
        match *self {
            Phase::TypingMarker => PhaseView::TypingMarker,
            Phase::StartingRecorder => PhaseView::StartingRecorder,
            Phase::OpeningSession => PhaseView::OpeningSession,
            Phase::Waiting => PhaseView::Waiting,
            Phase::StoppingRecorder => PhaseView::StoppingRecorder,
            Phase::Completing => PhaseView::Completing,
            Phase::Finalizing => PhaseView::Finalizing,
            Phase::Draining => PhaseView::Draining,
            Phase::Editing { draining, next, segment } => PhaseView::Editing {
                draining,
                next: next@,
                segment: text::opt_view(segment),
            },
            Phase::Erasing { draining, segment } => PhaseView::Erasing {
                draining,
                segment: segment@,
            },
            Phase::Delivering { draining } => PhaseView::Delivering { draining },
            Phase::Clearing { goal } => PhaseView::Clearing { goal },
            Phase::Transcribing => PhaseView::Transcribing,
            Phase::Pasting => PhaseView::Pasting,
            Phase::Finished => PhaseView::Finished,
        }
    }
}

/// What the caller carries out.
#[derive(Debug, Clone, PartialEq, Eq)]
pub enum Action {
    /// Mute the output sinks.
    MuteOutputs,
    /// Type the marker.
    TypeMarker,
    /// Mute other applications' microphone streams.
    MuteOtherMicApps,
    /// Start recording, with or without a copy of the audio for a session.
    StartRecorder { stream: bool },
    /// Load the keyterms and start a realtime session.
    OpenSession,
    /// Wait for a hotkey event, for the longest recording time to pass, and for
    /// an event of the session where that is asked for. A hotkey event goes first.
    AwaitRelease { session: bool },
    /// Wait for a hotkey event.
    AwaitCompletion,
    /// Wait for an event of the session.
    AwaitSession,
    /// Stop recording.
    StopRecorder,
    /// Ask the session to finalize.
    RequestFinalize,
    /// Backspace over the marker.
    RemoveMarker,
    /// Backspace and type.
    ApplyEdit(LiveTextEdit),
    /// Type and paste, up to the first failure.
    Deliver(Vec<Delivery>),
    /// Transcribe the recording in one go.
    Transcribe,
    /// Restore output sinks and other microphone streams.
    RestoreAudio,
    /// Notify the user of an error.
    Notify(&'static str),
    /// The press is over.
    Finish,
}

/// What an [`Action`] says.
#[verifier::ext_equal]
pub enum ActionView {
    MuteOutputs,
    TypeMarker,
    MuteOtherMicApps,
    StartRecorder { stream: bool },
    OpenSession,
    AwaitRelease { session: bool },
    AwaitCompletion,
    AwaitSession,
    StopRecorder,
    RequestFinalize,
    RemoveMarker,
    ApplyEdit(live_text::EditView),
    Deliver(Seq<deliver::DeliveryView>),
    Transcribe,
    RestoreAudio,
    Notify(Seq<char>),
    Finish,
}

impl View for Action {
    type V = ActionView;

    open spec fn view(&self) -> ActionView {
        match *self {
            Action::MuteOutputs => ActionView::MuteOutputs,
            Action::TypeMarker => ActionView::TypeMarker,
            Action::MuteOtherMicApps => ActionView::MuteOtherMicApps,
            Action::StartRecorder { stream } => ActionView::StartRecorder { stream },
            Action::OpenSession => ActionView::OpenSession,
            Action::AwaitRelease { session } => ActionView::AwaitRelease { session },
            Action::AwaitCompletion => ActionView::AwaitCompletion,
            Action::AwaitSession => ActionView::AwaitSession,
            Action::StopRecorder => ActionView::StopRecorder,
            Action::RequestFinalize => ActionView::RequestFinalize,
            Action::RemoveMarker => ActionView::RemoveMarker,
            Action::ApplyEdit(edit) => ActionView::ApplyEdit(edit@),
            Action::Deliver(list) => ActionView::Deliver(deliver::delivery_views(list@)),
            Action::Transcribe => ActionView::Transcribe,
            Action::RestoreAudio => ActionView::RestoreAudio,
            Action::Notify(message) => ActionView::Notify(message@),
            Action::Finish => ActionView::Finish,
        }
    }
}

/// What a list of actions says.
pub open spec fn action_views(list: Seq<Action>) -> Seq<ActionView> {
    Seq::new(list.len(), |i: int| list[i]@)
}

impl ActionView {
    /// Whether the action sends keystrokes.
    pub open spec fn uses_keyboard(self) -> bool {
        self is TypeMarker || self is RemoveMarker || self is ApplyEdit || self is Deliver
    }
}

/// What happened.
#[derive(Debug, Clone, PartialEq, Eq)]
pub enum PressEvent {
    MarkerTyped(bool),
    RecorderStarted(bool),
    SessionOpened(bool),
    /// A hotkey event; nothing where there will be none any more.
    Hotkey(Option<HotkeyEvent>),
    /// The longest recording time is over.
    Timer,
    /// An event of the session; nothing where there will be none any more.
    Session(Option<RealtimeEvent>),
    /// What the recording is good for; nothing where it was lost.
    RecorderStopped(Option<Verdict>),
    FinalizeRequested(bool),
    /// An edit or a delivery succeeded, or failed.
    Delivered(bool),
    Transcribed(String),
    TranscriptionFailed(TranscribeError),
}

/// What a [`PressEvent`] says.
#[verifier::ext_equal]
pub enum PressEventView {
    MarkerTyped(bool),
    RecorderStarted(bool),
    SessionOpened(bool),
    Hotkey(Option<HotkeyEvent>),
    Timer,
    Session(Option<realtime::EventView>),
    RecorderStopped(Option<Verdict>),
    FinalizeRequested(bool),
    Delivered(bool),
    Transcribed(Seq<char>),
    TranscriptionFailed(TranscribeError),
}

impl View for PressEvent {
    type V = PressEventView;

    open spec fn view(&self) -> PressEventView {
        match *self {
            PressEvent::MarkerTyped(ok) => PressEventView::MarkerTyped(ok),
            PressEvent::RecorderStarted(ok) => PressEventView::RecorderStarted(ok),
            PressEvent::SessionOpened(ok) => PressEventView::SessionOpened(ok),
            PressEvent::Hotkey(event) => PressEventView::Hotkey(event),
            PressEvent::Timer => PressEventView::Timer,
            PressEvent::Session(Some(event)) => PressEventView::Session(Some(event@)),
            PressEvent::Session(None) => PressEventView::Session(None),
            PressEvent::RecorderStopped(verdict) => PressEventView::RecorderStopped(verdict),
            PressEvent::FinalizeRequested(ok) => PressEventView::FinalizeRequested(ok),
            PressEvent::Delivered(ok) => PressEventView::Delivered(ok),
            PressEvent::Transcribed(content) => PressEventView::Transcribed(content@),
            PressEvent::TranscriptionFailed(error) => PressEventView::TranscriptionFailed(error),
        }
    }
}

/// One press of the hotkey.
#[derive(Debug, Clone, PartialEq, Eq)]
pub struct Press {
    mute_mics: bool,
    marker_active: bool,
    live: LiveText,
    failed: Option<RealtimeError>,
    tail_safe: bool,
    status: SessionStatus,
    realtime: bool,
    release_started: bool,
    keyboard_safe: bool,
    captured: Option<Verdict>,
    phase: Phase,
}

/// What a [`Press`] knows.
#[verifier::ext_equal]
pub struct PressView {
    /// Whether other applications' microphone streams are muted.
    pub mute_mics: bool,
    /// Whether the marker stands in the window.
    pub marker_active: bool,
    /// The transcript as far as it is shown.
    pub live: live_text::LiveTextView,
    /// Why realtime transcription failed.
    pub failed: Option<realtime::ErrorView>,
    /// Whether the window shows what `live` says.
    pub tail_safe: bool,
    pub status: SessionStatus,
    /// Whether the press is transcribed while it lasts.
    pub realtime: bool,
    /// Whether the key was let go of.
    pub release_started: bool,
    /// Whether it can be known when modifiers are released.
    pub keyboard_safe: bool,
    /// What the recording is good for.
    pub captured: Option<Verdict>,
    pub phase: PhaseView,
}

impl View for Press {
    type V = PressView;

    closed spec fn view(&self) -> PressView {
        PressView {
            mute_mics: self.mute_mics,
            marker_active: self.marker_active,
            live: self.live@,
            failed: match self.failed {
                Some(error) => Some(error@),
                None => None,
            },
            tail_safe: self.tail_safe,
            status: self.status,
            realtime: self.realtime,
            release_started: self.release_started,
            keyboard_safe: self.keyboard_safe,
            captured: self.captured,
            phase: self.phase@,
        }
    }
}

/// A press, and what to do next.
#[derive(Debug, Clone, PartialEq, Eq)]
pub struct PressStep {
    pub press: Press,
    pub actions: Vec<Action>,
}

/// What a [`PressStep`] says.
#[verifier::ext_equal]
pub struct PressStepView {
    pub press: PressView,
    pub actions: Seq<ActionView>,
}

impl View for PressStep {
    type V = PressStepView;

    open spec fn view(&self) -> PressStepView {
        PressStepView { press: self.press@, actions: action_views(self.actions@) }
    }
}

impl PressView {
    /// A press has just begun.
    pub open spec fn initial(realtime: bool, mute_mics: bool) -> PressView {
        PressView {
            mute_mics,
            marker_active: false,
            live: live_text::LiveTextView::empty(),
            failed: None,
            tail_safe: true,
            status: SessionStatus::Batch,
            realtime,
            release_started: false,
            keyboard_safe: true,
            captured: None,
            phase: PhaseView::TypingMarker,
        }
    }

    /// Nothing happens.
    pub open spec fn quiet(self) -> PressStepView {
        PressStepView { press: self, actions: Seq::empty() }
    }

    /// The press moves on.
    pub open spec fn moving(self, phase: PhaseView, actions: Seq<ActionView>) -> PressStepView {
        PressStepView { press: PressView { phase, ..self }, actions }
    }

    /// Removing the marker, where it stands in the window.
    pub open spec fn marks(self) -> Seq<ActionView> {
        if self.marker_active {
            seq![ActionView::RemoveMarker]
        } else {
            Seq::empty()
        }
    }

    /// The press with the marker gone.
    pub open spec fn unmarked(self) -> PressView {
        PressView { marker_active: false, ..self }
    }

    /// The press is over after these actions.
    pub open spec fn finishing(self, actions: Seq<ActionView>) -> PressStepView {
        self.moving(PhaseView::Finished, actions.push(ActionView::Finish))
    }

    /// Waiting for the release, and for transcripts where a session is open.
    pub open spec fn waiting(self) -> PressStepView {
        self.moving(
            PhaseView::Waiting,
            seq![ActionView::AwaitRelease { session: self.status is Open }],
        )
    }

    /// Stopping the recorder.
    pub open spec fn stopping(self) -> PressStepView {
        self.moving(PhaseView::StoppingRecorder, seq![ActionView::StopRecorder])
    }

    /// Going back to waiting for transcripts.
    pub open spec fn resuming(self, draining: bool) -> PressStepView {
        if draining {
            self.moving(PhaseView::Draining, seq![ActionView::AwaitSession])
        } else {
            self.waiting()
        }
    }

    /// The press with realtime transcription failed, where it had not before.
    pub open spec fn failing(self) -> PressView {
        PressView {
            failed: if self.failed is Some {
                self.failed
            } else {
                Some(realtime::ErrorView::TaskFailed)
            },
            ..self
        }
    }

    /// The press after an edit or a delivery failed: the window no longer shows
    /// what is believed.
    pub open spec fn undelivered(self) -> PressView {
        PressView {
            failed: Some(realtime::ErrorView::TaskFailed),
            tail_safe: false,
            ..self
        }
    }

    /// What the user is told of the failure.
    pub open spec fn failure_notice(self) -> Seq<char> {
        match self.failed {
            Some(error) => realtime_mode::realtime_notice(error),
            None => Seq::empty(),
        }
    }

    /// The end of a press, once the mutable text is out of the way or cannot be
    /// removed.
    pub open spec fn wrapping_up(self, goal: Goal, clean: bool) -> PressStepView {
        let marks = self.marks();
        match goal {
            Goal::Done => self.unmarked().finishing(marks.push(ActionView::RestoreAudio)),
            Goal::CaptureFailed => self.unmarked().finishing(
                marks.push(ActionView::RestoreAudio).push(ActionView::Notify(CAPTURE_FAILED@)),
            ),
            Goal::Silent => self.unmarked().finishing(
                marks.push(ActionView::Notify(SILENT_MICROPHONE@)).push(ActionView::RestoreAudio),
            ),
            Goal::Fallback => if clean {
                self.moving(PhaseView::Transcribing, seq![ActionView::Transcribe])
            } else {
                self.wrapping_up_failure()
            },
            Goal::Failure => self.wrapping_up_failure(),
        }
    }

    /// The end of a press whose realtime transcription failed.
    pub open spec fn wrapping_up_failure(self) -> PressStepView {
        self.unmarked().finishing(
            self.marks().push(ActionView::Notify(self.failure_notice())).push(
                ActionView::RestoreAudio,
            ),
        )
    }

    /// Removing the mutable text, where that is safe and there is any, and then
    /// the end of the press.
    pub open spec fn clearing(self, goal: Goal) -> PressStepView {
        if !self.tail_safe {
            self.wrapping_up(goal, false)
        } else if self.live.cleanup().edit.is_noop() {
            self.wrapping_up(goal, true)
        } else {
            self.moving(
                PhaseView::Clearing { goal },
                seq![ActionView::ApplyEdit(self.live.cleanup().edit)],
            )
        }
    }

    /// How a realtime press ends, given what the recording is good for.
    pub open spec fn realtime_goal(self, verdict: Verdict) -> Goal {
        match verdict {
            Verdict::TooShort => Goal::Done,
            Verdict::Silent => Goal::Silent,
            Verdict::Usable => match realtime_mode::next_step(
                self.live.committed_any,
                self.failed is Some,
                self.tail_safe,
                true,
            ) {
                RealtimeNextStep::Done => Goal::Done,
                RealtimeNextStep::FallbackBatch => Goal::Fallback,
                RealtimeNextStep::NotifyFailure => Goal::Failure,
            },
        }
    }

    /// The end of a realtime press, once no more transcripts come.
    pub open spec fn realtime_result(self) -> PressStepView {
        match self.captured {
            Some(verdict) => self.clearing(self.realtime_goal(verdict)),
            None => self.clearing(Goal::CaptureFailed),
        }
    }

    /// The transcription of a whole recording: none of a quick tap or of silence.
    pub open spec fn transcribing(self, verdict: Verdict) -> PressStepView {
        match verdict {
            Verdict::TooShort => self.unmarked().finishing(
                self.marks().push(ActionView::RestoreAudio),
            ),
            Verdict::Silent => self.unmarked().finishing(
                self.marks().push(ActionView::RestoreAudio).push(
                    ActionView::Notify(SILENT_MICROPHONE@),
                ),
            ),
            Verdict::Usable => self.moving(
                PhaseView::Transcribing,
                seq![ActionView::Transcribe],
            ),
        }
    }

    /// What follows once the recorder has stopped and the keyboard is free.
    pub open spec fn proceeding(self) -> PressStepView {
        match self.captured {
            None => self.clearing(Goal::CaptureFailed),
            Some(verdict) => match self.status {
                SessionStatus::Batch => self.transcribing(verdict),
                SessionStatus::Missing => self.realtime_result(),
                SessionStatus::Open | SessionStatus::Closed => self.moving(
                    PhaseView::Finalizing,
                    seq![ActionView::RequestFinalize],
                ),
            },
        }
    }

    /// Showing a transcript. The first text replaces the marker.
    pub open spec fn showing(
        self,
        content: Seq<char>,
        committed: bool,
        draining: bool,
    ) -> PressStepView {
        let first = content.len() > 0 && !self.live.committed_any && self.live.tail.len() == 0;
        let transition = if committed {
            self.live.commit(content)
        } else {
            self.live.partial(content)
        };
        let press = if first {
            self.unmarked()
        } else {
            self
        };
        press.moving(
            PhaseView::Editing {
                draining,
                next: transition.next,
                segment: if committed {
                    Some(realtime_mode::raw_segment(self.live.committed_any, content))
                } else {
                    None
                },
            },
            (if first {
                self.marks()
            } else {
                Seq::empty()
            }).push(ActionView::ApplyEdit(transition.edit)),
        )
    }

    /// What an event of the session leads to. After a failure, transcripts are
    /// no longer shown.
    pub open spec fn receiving(self, event: realtime::EventView, draining: bool) -> PressStepView {
        match event {
            realtime::EventView::SessionStarted | realtime::EventView::Completed => self.resuming(
                draining,
            ),
            realtime::EventView::Error(error) => PressView {
                failed: Some(error),
                ..self
            }.resuming(draining),
            realtime::EventView::PartialTranscript(content) => if self.failed is Some {
                self.resuming(draining)
            } else {
                self.showing(transcript::cleaned(content), false, draining)
            },
            realtime::EventView::CommittedTranscript(content) => if self.failed is Some {
                self.resuming(draining)
            } else {
                self.showing(transcript::cleaned(content), true, draining)
            },
        }
    }

    /// What follows the marker.
    pub open spec fn on_marker_typed(self, ok: bool) -> PressStepView {
        if !(self.phase is TypingMarker) {
            self.quiet()
        } else if ok {
            PressView { marker_active: true, ..self }.moving(
                PhaseView::StartingRecorder,
                (if self.mute_mics {
                    seq![ActionView::MuteOtherMicApps]
                } else {
                    Seq::empty()
                }).push(ActionView::StartRecorder { stream: self.realtime }),
            )
        } else {
            self.finishing(seq![ActionView::RestoreAudio])
        }
    }

    /// What follows starting the recorder.
    pub open spec fn on_recorder_started(self, ok: bool) -> PressStepView {
        if !(self.phase is StartingRecorder) {
            self.quiet()
        } else if !ok {
            self.unmarked().finishing(
                self.marks().push(ActionView::RestoreAudio).push(
                    ActionView::Notify(NO_MICROPHONE@),
                ),
            )
        } else if self.realtime {
            self.moving(PhaseView::OpeningSession, seq![ActionView::OpenSession])
        } else {
            self.waiting()
        }
    }

    /// What follows opening a session.
    pub open spec fn on_session_opened(self, ok: bool) -> PressStepView {
        if !(self.phase is OpeningSession) {
            self.quiet()
        } else if ok {
            PressView { status: SessionStatus::Open, ..self }.waiting()
        } else {
            PressView { status: SessionStatus::Missing, ..self }.failing().waiting()
        }
    }

    /// What a hotkey event leads to. Events that do not belong to the phase are
    /// ignored; that there will be none any more makes the keyboard unsafe.
    pub open spec fn on_hotkey(self, event: Option<HotkeyEvent>) -> PressStepView {
        match (self.phase, event) {
            (PhaseView::Waiting, Some(HotkeyEvent::ReleaseStarted)) => PressView {
                release_started: true,
                ..self
            }.stopping(),
            (PhaseView::Waiting, Some(_)) => self.waiting(),
            (PhaseView::Waiting, None) => PressView { keyboard_safe: false, ..self }.stopping(),
            (PhaseView::Completing, Some(HotkeyEvent::ReleaseCompleted)) => self.proceeding(),
            (PhaseView::Completing, Some(_)) => self.moving(
                PhaseView::Completing,
                seq![ActionView::AwaitCompletion],
            ),
            (PhaseView::Completing, None) => PressView {
                keyboard_safe: false,
                ..self
            }.finishing(seq![ActionView::RestoreAudio]),
            _ => self.quiet(),
        }
    }

    /// The longest recording time is over.
    pub open spec fn on_timer(self) -> PressStepView {
        if self.phase is Waiting {
            self.stopping()
        } else {
            self.quiet()
        }
    }

    /// What an event of the session leads to, or that there will be none any
    /// more. Late previews are ignored while the session ends.
    pub open spec fn on_session(self, event: Option<realtime::EventView>) -> PressStepView {
        match (self.phase, event) {
            (PhaseView::Waiting, Some(event)) => if self.status is Open {
                self.receiving(event, false)
            } else {
                self.quiet()
            },
            (PhaseView::Waiting, None) => if self.status is Open {
                PressView { status: SessionStatus::Closed, ..self }.failing().waiting()
            } else {
                self.quiet()
            },
            (PhaseView::Draining, Some(event)) => if event is PartialTranscript {
                self.resuming(true)
            } else {
                self.receiving(event, true)
            },
            (PhaseView::Draining, None) => PressView {
                status: SessionStatus::Closed,
                ..self
            }.realtime_result(),
            _ => self.quiet(),
        }
    }

    /// What follows stopping the recorder: other audio comes back first.
    pub open spec fn on_recorder_stopped(self, verdict: Option<Verdict>) -> PressStepView {
        let press = PressView { captured: verdict, ..self };
        if !(self.phase is StoppingRecorder) {
            self.quiet()
        } else if !self.keyboard_safe {
            press.finishing(seq![ActionView::RestoreAudio])
        } else if self.release_started {
            press.moving(
                PhaseView::Completing,
                seq![ActionView::RestoreAudio, ActionView::AwaitCompletion],
            )
        } else {
            PressStepView {
                press: press.proceeding().press,
                actions: seq![ActionView::RestoreAudio] + press.proceeding().actions,
            }
        }
    }

    /// What follows asking the session to finalize.
    pub open spec fn on_finalize_requested(self, ok: bool) -> PressStepView {
        let press = if ok {
            self
        } else {
            self.failing()
        };
        if !(self.phase is Finalizing) {
            self.quiet()
        } else if self.status is Open {
            press.resuming(true)
        } else {
            press.realtime_result()
        }
    }

    /// What follows an edit or a delivery. A committed segment with placeholders
    /// is removed and delivered again, with the clipboard in it; the transcript is
    /// remembered without, so that what was pasted is never revisited.
    pub open spec fn on_delivered(self, ok: bool) -> PressStepView {
        match self.phase {
            PhaseView::Editing { draining, next, segment } => {
                let press = PressView { live: next, ..self };
                if !ok {
                    self.undelivered().resuming(draining)
                } else {
                    match segment {
                        Some(segment) => if placeholder::token_count(segment, 0) > 0 {
                            press.moving(
                                PhaseView::Erasing { draining, segment },
                                seq![
                                    ActionView::ApplyEdit(
                                        live_text::EditView {
                                            backspaces: graphemes::clusters(segment).len() as int,
                                            insert: Seq::empty(),
                                        },
                                    ),
                                ],
                            )
                        } else {
                            press.resuming(draining)
                        },
                        None => press.resuming(draining),
                    }
                }
            },
            PhaseView::Erasing { draining, segment } => if ok {
                self.moving(
                    PhaseView::Delivering { draining },
                    seq![ActionView::Deliver(deliver::transcript_deliveries(segment))],
                )
            } else {
                self.undelivered().resuming(draining)
            },
            PhaseView::Delivering { draining } => if ok {
                self.resuming(draining)
            } else {
                self.undelivered().resuming(draining)
            },
            PhaseView::Clearing { goal } => if ok {
                PressView { live: self.live.cleanup().next, ..self }.wrapping_up(goal, true)
            } else {
                self.wrapping_up(goal, false)
            },
            PhaseView::Pasting => self.finishing(seq![ActionView::RestoreAudio]),
            _ => self.quiet(),
        }
    }

    /// What follows a transcript of the whole recording. A blank one leaves
    /// nothing behind.
    pub open spec fn on_transcribed(self, content: Seq<char>) -> PressStepView {
        if !(self.phase is Transcribing) {
            self.quiet()
        } else if text::trim(content).len() == 0 {
            self.unmarked().finishing(self.marks().push(ActionView::RestoreAudio))
        } else {
            self.unmarked().moving(
                PhaseView::Pasting,
                self.marks().push(
                    ActionView::Deliver(deliver::transcript_deliveries(content)),
                ),
            )
        }
    }

    /// What follows a failed transcription of the whole recording.
    pub open spec fn on_transcription_failed(self, error: TranscribeError) -> PressStepView {
        if !(self.phase is Transcribing) {
            self.quiet()
        } else {
            self.unmarked().finishing(
                self.marks().push(
                    ActionView::Notify(transcribe::batch_notice(error.text())),
                ).push(ActionView::RestoreAudio),
            )
        }
    }

    /// What an event leads to. Events that do not belong to the phase change
    /// nothing.
    pub open spec fn next(self, event: PressEventView) -> PressStepView {
        match event {
            PressEventView::MarkerTyped(ok) => self.on_marker_typed(ok),
            PressEventView::RecorderStarted(ok) => self.on_recorder_started(ok),
            PressEventView::SessionOpened(ok) => self.on_session_opened(ok),
            PressEventView::Hotkey(event) => self.on_hotkey(event),
            PressEventView::Timer => self.on_timer(),
            PressEventView::Session(event) => self.on_session(event),
            PressEventView::RecorderStopped(verdict) => self.on_recorder_stopped(verdict),
            PressEventView::FinalizeRequested(ok) => self.on_finalize_requested(ok),
            PressEventView::Delivered(ok) => self.on_delivered(ok),
            PressEventView::Transcribed(content) => self.on_transcribed(content),
            PressEventView::TranscriptionFailed(error) => self.on_transcription_failed(error),
        }
    }

    /// What holds of every press: where realtime transcription is to be reported
    /// as failed, it has; a fallback is planned only where nothing was committed
    /// and the window can be trusted; an unsafe keyboard leaves nothing to do but
    /// stop; the marker stands only between its typing and the delivery; and what
    /// was committed is not taken back.
    pub open spec fn valid(self) -> bool {
        &&& self.phase matches PhaseView::Clearing { goal } ==> {
            &&& goal is Fallback || goal is Failure ==> self.failed is Some
            &&& goal is Fallback ==> {
                &&& !self.live.committed_any
                &&& self.tail_safe
                &&& self.captured == Some(Verdict::Usable)
            }
        }
        &&& !self.keyboard_safe ==> self.phase is StoppingRecorder || self.phase is Finished
        &&& self.status is Open || self.status is Closed || self.status is Missing
            ==> self.realtime
        &&& self.status is Missing ==> self.failed is Some
        &&& self.status is Batch && self.realtime ==> self.phase is TypingMarker
            || self.phase is StartingRecorder || self.phase is OpeningSession
            || self.phase is Finished
        &&& !self.realtime ==> self.live == live_text::LiveTextView::empty() && self.tail_safe
        &&& self.phase is OpeningSession ==> self.realtime
        &&& self.phase is TypingMarker || self.phase is Pasting ==> !self.marker_active
        &&& self.phase matches PhaseView::Editing { next, .. }
            ==> self.live.committed_text.is_prefix_of(next.committed_text) && (
        self.live.committed_any ==> next.committed_any)
        &&& self.phase is Transcribing ==> self.captured == Some(Verdict::Usable)
        &&& !self.realtime ==> !(self.phase is Editing) && !(self.phase is Erasing) && !(
        self.phase is Delivering) && !(self.phase is Clearing) && !(self.phase is Draining) && !(
        self.phase is Finalizing)
    }
}

fn with(actions: Vec<Action>, action: Action) -> (res: Vec<Action>)
    ensures
        action_views(res@) == action_views(actions@).push(action@),
{
    let mut res = actions;
    res.push(action);
    assert(action_views(res@) == action_views(actions@).push(action@));
    res
}

fn none() -> (res: Vec<Action>)
    ensures
        action_views(res@) == Seq::<ActionView>::empty(),
{
    let res: Vec<Action> = Vec::new();
    assert(action_views(res@) == Seq::<ActionView>::empty());
    res
}

fn only(action: Action) -> (res: Vec<Action>)
    ensures
        action_views(res@) == seq![action@],
{
    let res = with(none(), action);
    assert(action_views(res@) == seq![action@]);
    res
}

impl Press {
    /// A press has just begun: the output sinks are muted where that is wanted,
    /// and the marker is typed.
    pub fn begin(realtime: bool, mute_outputs: bool, mute_mics: bool) -> (res: PressStep)
        ensures
            res@ == (PressStepView {
                press: PressView::initial(realtime, mute_mics),
                actions: (if mute_outputs {
                    seq![ActionView::MuteOutputs]
                } else {
                    Seq::empty()
                }).push(ActionView::TypeMarker),
            }),
            res.press@.valid(),
    {
        let press = Press {
            mute_mics,
            marker_active: false,
            live: LiveText::new(),
            failed: None,
            tail_safe: true,
            status: SessionStatus::Batch,
            realtime,
            release_started: false,
            keyboard_safe: true,
            captured: None,
            phase: Phase::TypingMarker,
        };
        let actions = if mute_outputs {
            only(Action::MuteOutputs)
        } else {
            none()
        };
        PressStep { press, actions: with(actions, Action::TypeMarker) }
    }

    /// Whether the marker stands in the window.
    pub fn marker_active(&self) -> (res: bool)
        ensures
            res == self@.marker_active,
    {
        self.marker_active
    }

    fn quiet(self) -> (res: PressStep)
        ensures
            res@ == self@.quiet(),
    {
        PressStep { press: self, actions: none() }
    }

    fn moving(self, phase: Phase, actions: Vec<Action>) -> (res: PressStep)
        ensures
            res@ == self@.moving(phase@, action_views(actions@)),
    {
        let mut press = self;
        press.phase = phase;
        PressStep { press, actions }
    }

    fn marks(&self) -> (res: Vec<Action>)
        ensures
            action_views(res@) == self@.marks(),
    {
        if self.marker_active {
            only(Action::RemoveMarker)
        } else {
            none()
        }
    }

    fn unmarked(self) -> (res: Press)
        ensures
            res@ == self@.unmarked(),
    {
        let mut press = self;
        press.marker_active = false;
        press
    }

    fn finishing(self, actions: Vec<Action>) -> (res: PressStep)
        ensures
            res@ == self@.finishing(action_views(actions@)),
    {
        self.moving(Phase::Finished, with(actions, Action::Finish))
    }

    fn waiting(self) -> (res: PressStep)
        ensures
            res@ == self@.waiting(),
    {
        let session = matches!(self.status, SessionStatus::Open);
        self.moving(Phase::Waiting, only(Action::AwaitRelease { session }))
    }

    fn stopping(self) -> (res: PressStep)
        ensures
            res@ == self@.stopping(),
    {
        self.moving(Phase::StoppingRecorder, only(Action::StopRecorder))
    }

    fn resuming(self, draining: bool) -> (res: PressStep)
        ensures
            res@ == self@.resuming(draining),
    {
        if draining {
            self.moving(Phase::Draining, only(Action::AwaitSession))
        } else {
            self.waiting()
        }
    }

    fn failing(self) -> (res: Press)
        ensures
            res@ == self@.failing(),
    {
        let mut press = self;
        if press.failed.is_none() {
            press.failed = Some(RealtimeError::TaskFailed);
        }
        press
    }

    fn undelivered(self) -> (res: Press)
        ensures
            res@ == self@.undelivered(),
    {
        let mut press = self;
        press.failed = Some(RealtimeError::TaskFailed);
        press.tail_safe = false;
        press
    }

    fn wrapping_up_failure(self) -> (res: PressStep)
        requires
            self@.failed is Some,
        ensures
            res@ == self@.wrapping_up_failure(),
    {
        let notice = match &self.failed {
            Some(error) => realtime_mode::realtime_error_notification(error),
            None => "",
        };
        let actions = with(with(self.marks(), Action::Notify(notice)), Action::RestoreAudio);
        self.unmarked().finishing(actions)
    }

    fn wrapping_up(self, goal: Goal, clean: bool) -> (res: PressStep)
        requires
            goal is Fallback || goal is Failure ==> self@.failed is Some,
        ensures
            res@ == self@.wrapping_up(goal, clean),
    {
        let marks = self.marks();
        match goal {
            Goal::Done => self.unmarked().finishing(with(marks, Action::RestoreAudio)),
            Goal::CaptureFailed => self.unmarked().finishing(
                with(with(marks, Action::RestoreAudio), Action::Notify(CAPTURE_FAILED)),
            ),
            Goal::Silent => self.unmarked().finishing(
                with(with(marks, Action::Notify(SILENT_MICROPHONE)), Action::RestoreAudio),
            ),
            Goal::Fallback => if clean {
                self.moving(Phase::Transcribing, only(Action::Transcribe))
            } else {
                self.wrapping_up_failure()
            },
            Goal::Failure => self.wrapping_up_failure(),
        }
    }

    fn clearing(self, goal: Goal) -> (res: PressStep)
        requires
            goal is Fallback || goal is Failure ==> self@.failed is Some,
        ensures
            res@ == self@.clearing(goal),
    {
        if !self.tail_safe {
            return self.wrapping_up(goal, false);
        }
        let edit = self.live.cleanup().edit;
        if edit.backspaces == 0 && edit.insert.as_str().is_empty() {
            return self.wrapping_up(goal, true);
        }
        self.moving(Phase::Clearing { goal }, only(Action::ApplyEdit(edit)))
    }

    fn realtime_goal(&self, verdict: Verdict) -> (res: Goal)
        ensures
            res == self@.realtime_goal(verdict),
    {
        match verdict {
            Verdict::TooShort => Goal::Done,
            Verdict::Silent => Goal::Silent,
            Verdict::Usable => match realtime_mode::realtime_next_step(
                self.live.committed_any(),
                self.failed.is_some(),
                self.tail_safe,
                true,
            ) {
                RealtimeNextStep::Done => Goal::Done,
                RealtimeNextStep::FallbackBatch => Goal::Fallback,
                RealtimeNextStep::NotifyFailure => Goal::Failure,
            },
        }
    }

    fn realtime_result(self) -> (res: PressStep)
        ensures
            res@ == self@.realtime_result(),
    {
        match self.captured {
            Some(verdict) => {
                let goal = self.realtime_goal(verdict);
                self.clearing(goal)
            },
            None => self.clearing(Goal::CaptureFailed),
        }
    }

    fn transcribing(self, verdict: Verdict) -> (res: PressStep)
        ensures
            res@ == self@.transcribing(verdict),
    {
        let marks = self.marks();
        match verdict {
            Verdict::TooShort => self.unmarked().finishing(with(marks, Action::RestoreAudio)),
            Verdict::Silent => self.unmarked().finishing(
                with(with(marks, Action::RestoreAudio), Action::Notify(SILENT_MICROPHONE)),
            ),
            Verdict::Usable => self.moving(Phase::Transcribing, only(Action::Transcribe)),
        }
    }

    fn proceeding(self) -> (res: PressStep)
        ensures
            res@ == self@.proceeding(),
    {
        match self.captured {
            None => self.clearing(Goal::CaptureFailed),
            Some(verdict) => match self.status {
                SessionStatus::Batch => self.transcribing(verdict),
                SessionStatus::Missing => self.realtime_result(),
                SessionStatus::Open | SessionStatus::Closed => self.moving(
                    Phase::Finalizing,
                    only(Action::RequestFinalize),
                ),
            },
        }
    }

    fn showing(self, content: &str, committed: bool, draining: bool) -> (res: PressStep)
        ensures
            res@ == self@.showing(content@, committed, draining),
    {
        let committed_any = self.live.committed_any();
        let first = !content.is_empty() && !committed_any && self.live.tail().is_empty();
        let transition = if committed {
            self.live.commit(content)
        } else {
            self.live.partial(content)
        };
        let segment = if committed {
            Some(realtime_mode::raw_committed_segment(committed_any, content))
        } else {
            None
        };
        let actions = if first {
            self.marks()
        } else {
            none()
        };
        let press = if first {
            self.unmarked()
        } else {
            self
        };
        press.moving(
            Phase::Editing { draining, next: transition.next, segment },
            with(actions, Action::ApplyEdit(transition.edit)),
        )
    }

    fn receiving(self, event: RealtimeEvent, draining: bool) -> (res: PressStep)
        ensures
            res@ == self@.receiving(event@, draining),
    {
        match event {
            RealtimeEvent::SessionStarted | RealtimeEvent::Completed => self.resuming(draining),
            RealtimeEvent::Error(error) => {
                let mut press = self;
                press.failed = Some(error);
                press.resuming(draining)
            },
            RealtimeEvent::PartialTranscript(content) => if self.failed.is_some() {
                self.resuming(draining)
            } else {
                let cleaned = transcript::clean(content.as_str());
                self.showing(cleaned.as_str(), false, draining)
            },
            RealtimeEvent::CommittedTranscript(content) => if self.failed.is_some() {
                self.resuming(draining)
            } else {
                let cleaned = transcript::clean(content.as_str());
                self.showing(cleaned.as_str(), true, draining)
            },
        }
    }

    fn on_marker_typed(self, ok: bool) -> (res: PressStep)
        ensures
            res@ == self@.on_marker_typed(ok),
    {
        if !matches!(self.phase, Phase::TypingMarker) {
            return self.quiet();
        }
        if !ok {
            return self.finishing(only(Action::RestoreAudio));
        }
        let actions = if self.mute_mics {
            only(Action::MuteOtherMicApps)
        } else {
            none()
        };
        let stream = self.realtime;
        let mut press = self;
        press.marker_active = true;
        press.moving(Phase::StartingRecorder, with(actions, Action::StartRecorder { stream }))
    }

    fn on_recorder_started(self, ok: bool) -> (res: PressStep)
        ensures
            res@ == self@.on_recorder_started(ok),
    {
        if !matches!(self.phase, Phase::StartingRecorder) {
            return self.quiet();
        }
        if !ok {
            let actions = with(
                with(self.marks(), Action::RestoreAudio),
                Action::Notify(NO_MICROPHONE),
            );
            return self.unmarked().finishing(actions);
        }
        if self.realtime {
            self.moving(Phase::OpeningSession, only(Action::OpenSession))
        } else {
            self.waiting()
        }
    }

    fn on_session_opened(self, ok: bool) -> (res: PressStep)
        ensures
            res@ == self@.on_session_opened(ok),
    {
        if !matches!(self.phase, Phase::OpeningSession) {
            return self.quiet();
        }
        let mut press = self;
        if ok {
            press.status = SessionStatus::Open;
            press.waiting()
        } else {
            press.status = SessionStatus::Missing;
            press.failing().waiting()
        }
    }

    fn on_hotkey(self, event: Option<HotkeyEvent>) -> (res: PressStep)
        ensures
            res@ == self@.on_hotkey(event),
    {
        let waiting = matches!(self.phase, Phase::Waiting);
        let completing = matches!(self.phase, Phase::Completing);
        let mut press = self;
        if waiting {
            match hotkey::wait_for_release_started(event) {
                Some(ReleaseStart::Started) => {
                    press.release_started = true;
                    press.stopping()
                },
                None => press.waiting(),
                Some(ReleaseStart::ChannelClosed) => {
                    press.keyboard_safe = false;
                    press.stopping()
                },
            }
        } else if completing {
            match hotkey::wait_for_release_completion(event) {
                Some(true) => press.proceeding(),
                None => press.moving(Phase::Completing, only(Action::AwaitCompletion)),
                Some(false) => {
                    press.keyboard_safe = false;
                    press.finishing(only(Action::RestoreAudio))
                },
            }
        } else {
            press.quiet()
        }
    }

    fn on_timer(self) -> (res: PressStep)
        ensures
            res@ == self@.on_timer(),
    {
        if matches!(self.phase, Phase::Waiting) {
            self.stopping()
        } else {
            self.quiet()
        }
    }

    fn on_session(self, event: Option<RealtimeEvent>) -> (res: PressStep)
        ensures
            res@ == self@.on_session(
                match event {
                    Some(event) => Some(event@),
                    None => None,
                },
            ),
    {
        let listening = matches!(self.phase, Phase::Waiting) && matches!(
            self.status,
            SessionStatus::Open
        );
        let draining = matches!(self.phase, Phase::Draining);
        let mut press = self;
        match event {
            Some(event) => {
                if listening {
                    press.receiving(event, false)
                } else if !draining {
                    press.quiet()
                } else if realtime_mode::process_during_finalization(&event) {
                    press.receiving(event, true)
                } else {
                    press.resuming(true)
                }
            },
            None => {
                if listening {
                    press.status = SessionStatus::Closed;
                    press.failing().waiting()
                } else if draining {
                    press.status = SessionStatus::Closed;
                    press.realtime_result()
                } else {
                    press.quiet()
                }
            },
        }
    }

    fn on_recorder_stopped(self, verdict: Option<Verdict>) -> (res: PressStep)
        ensures
            res@ == self@.on_recorder_stopped(verdict),
    {
        if !matches!(self.phase, Phase::StoppingRecorder) {
            return self.quiet();
        }
        let mut press = self;
        press.captured = verdict;
        if !press.keyboard_safe {
            press.finishing(only(Action::RestoreAudio))
        } else if press.release_started {
            let actions = with(only(Action::RestoreAudio), Action::AwaitCompletion);
            assert(action_views(actions@) == seq![
                ActionView::RestoreAudio,
                ActionView::AwaitCompletion,
            ]);
            press.moving(Phase::Completing, actions)
        } else {
            let step = press.proceeding();
            let mut actions = only(Action::RestoreAudio);
            let mut rest = step.actions;
            let ghost first = action_views(actions@);
            let ghost following = action_views(rest@);
            actions.append(&mut rest);
            assert(action_views(actions@) == first + following);
            PressStep { press: step.press, actions }
        }
    }

    fn on_finalize_requested(self, ok: bool) -> (res: PressStep)
        ensures
            res@ == self@.on_finalize_requested(ok),
    {
        if !matches!(self.phase, Phase::Finalizing) {
            return self.quiet();
        }
        let press = if ok {
            self
        } else {
            self.failing()
        };
        if matches!(press.status, SessionStatus::Open) {
            press.resuming(true)
        } else {
            press.realtime_result()
        }
    }

    fn on_edited(self, draining: bool, next: LiveText, segment: Option<String>, ok: bool) -> (res:
        PressStep)
        requires
            self@.phase is Finished,
        ensures
            res@ == (PressView {
                phase: PhaseView::Editing {
                    draining,
                    next: next@,
                    segment: text::opt_view(segment),
                },
                ..self@
            }).on_delivered(ok),
    {
        if !ok {
            return self.undelivered().resuming(draining);
        }
        let mut press = self;
        press.live = next;
        match segment {
            Some(segment) => {
                let chunks = placeholder::parse_banana_chunks(segment.as_str());
                proof {
                    placeholder::law_every_token_is_a_placeholder(segment@);
                    placeholder::lemma_placeholder_count(placeholder::chunks(segment@));
                }
                if placeholder::has_placeholder(&chunks) {
                    let edit = LiveTextEdit {
                        backspaces: graphemes::grapheme_count(segment.as_str()),
                        insert: String::new(),
                    };
                    assert(edit@.insert == Seq::<char>::empty());
                    press.moving(
                        Phase::Erasing { draining, segment },
                        only(Action::ApplyEdit(edit)),
                    )
                } else {
                    press.resuming(draining)
                }
            },
            None => press.resuming(draining),
        }
    }

    fn on_delivered(self, ok: bool) -> (res: PressStep)
        requires
            self@.valid(),
        ensures
            res@ == self@.on_delivered(ok),
    {
        let mut press = self;
        let mut phase = Phase::Finished;
        std::mem::swap(&mut phase, &mut press.phase);
        match phase {
            Phase::Editing { draining, next, segment } => press.on_edited(
                draining,
                next,
                segment,
                ok,
            ),
            Phase::Erasing { draining, segment } => if ok {
                let list = deliver::deliver_transcript(segment.as_str());
                press.moving(Phase::Delivering { draining }, only(Action::Deliver(list)))
            } else {
                press.undelivered().resuming(draining)
            },
            Phase::Delivering { draining } => if ok {
                press.resuming(draining)
            } else {
                press.undelivered().resuming(draining)
            },
            Phase::Clearing { goal } => {
                if ok {
                    press.live = press.live.cleanup().next;
                }
                press.wrapping_up(goal, ok)
            },
            Phase::Pasting => press.finishing(only(Action::RestoreAudio)),
            other => {
                press.phase = other;
                press.quiet()
            },
        }
    }

    fn on_transcribed(self, content: &str) -> (res: PressStep)
        ensures
            res@ == self@.on_transcribed(content@),
    {
        if !matches!(self.phase, Phase::Transcribing) {
            return self.quiet();
        }
        let marks = self.marks();
        if text::is_blank(content) {
            self.unmarked().finishing(with(marks, Action::RestoreAudio))
        } else {
            let list = deliver::deliver_transcript(content);
            self.unmarked().moving(Phase::Pasting, with(marks, Action::Deliver(list)))
        }
    }

    fn on_transcription_failed(self, error: TranscribeError) -> (res: PressStep)
        ensures
            res@ == self@.on_transcription_failed(error),
    {
        if !matches!(self.phase, Phase::Transcribing) {
            return self.quiet();
        }
        let message = error.message();
        let notice = transcribe::batch_error_notification(message.as_str());
        let actions = with(with(self.marks(), Action::Notify(notice)), Action::RestoreAudio);
        self.unmarked().finishing(actions)
    }

    /// Tells the press what happened, and gets what to do next.
    pub fn next(self, event: PressEvent) -> (res: PressStep)
        requires
            self@.valid(),
        ensures
            res@ == self@.next(event@),
            res.press@.valid(),
    {
        proof {
            lemma_next_valid(self@, event@);
        }
        match event {
            PressEvent::MarkerTyped(ok) => self.on_marker_typed(ok),
            PressEvent::RecorderStarted(ok) => self.on_recorder_started(ok),
            PressEvent::SessionOpened(ok) => self.on_session_opened(ok),
            PressEvent::Hotkey(event) => self.on_hotkey(event),
            PressEvent::Timer => self.on_timer(),
            PressEvent::Session(event) => self.on_session(event),
            PressEvent::RecorderStopped(verdict) => self.on_recorder_stopped(verdict),
            PressEvent::FinalizeRequested(ok) => self.on_finalize_requested(ok),
            PressEvent::Delivered(ok) => self.on_delivered(ok),
            PressEvent::Transcribed(content) => self.on_transcribed(content.as_str()),
            PressEvent::TranscriptionFailed(error) => self.on_transcription_failed(error),
        }
    }
}

/// What is left to do when the daemon shuts down: the marker is removed where it
/// still stands, and muted audio comes back.
pub fn shut_down(marker_active: bool) -> (res: Vec<Action>)
    ensures
        action_views(res@) == (if marker_active {
            seq![ActionView::RemoveMarker, ActionView::RestoreAudio]
        } else {
            seq![ActionView::RestoreAudio]
        }),
{
    let actions = if marker_active {
        only(Action::RemoveMarker)
    } else {
        none()
    };
    let res = with(actions, Action::RestoreAudio);
    assert(marker_active ==> action_views(res@) == seq![
        ActionView::RemoveMarker,
        ActionView::RestoreAudio,
    ]);
    assert(!marker_active ==> action_views(res@) == seq![ActionView::RestoreAudio]);
    res
}

/// What holds of a press that is past opening a session, whatever its phase.
spec fn under_way(press: PressView) -> bool {
    &&& press.keyboard_safe
    &&& press.realtime == !(press.status is Batch)
    &&& press.status is Missing ==> press.failed is Some
    &&& !press.realtime ==> press.live == live_text::LiveTextView::empty() && press.tail_safe
}

proof fn lemma_clearing_valid(press: PressView, goal: Goal)
    requires
        under_way(press),
        goal is Fallback || goal is Failure ==> press.failed is Some,
        goal is Fallback ==> !press.live.committed_any && press.tail_safe && press.captured == Some(
            Verdict::Usable,
        ),
    ensures
        press.clearing(goal).press.valid(),
{
    if !press.realtime {
        live_text::law_edit_between_equal_texts(Seq::<char>::empty());
        assert(press.live.cleanup().edit.is_noop());
    }
}

proof fn lemma_realtime_result_valid(press: PressView)
    requires
        under_way(press),
    ensures
        press.realtime_result().press.valid(),
{
    match press.captured {
        Some(verdict) => {
            lemma_clearing_valid(press, press.realtime_goal(verdict));
        },
        None => {
            lemma_clearing_valid(press, Goal::CaptureFailed);
        },
    }
}

proof fn lemma_proceeding_valid(press: PressView)
    requires
        under_way(press),
    ensures
        press.proceeding().press.valid(),
{
    match press.captured {
        None => {
            lemma_clearing_valid(press, Goal::CaptureFailed);
        },
        Some(verdict) => {
            if press.status is Missing {
                lemma_realtime_result_valid(press);
            }
        },
    }
}

proof fn lemma_on_delivered_valid(press: PressView, ok: bool)
    requires
        press.valid(),
    ensures
        press.on_delivered(ok).press.valid(),
{
    match press.phase {
        PhaseView::Clearing { goal } => {
            let cleared = PressView { live: press.live.cleanup().next, ..press };
            assert(cleared.live.committed_any == press.live.committed_any);
        },
        _ => {},
    }
}

proof fn lemma_receiving_valid(press: PressView, event: realtime::EventView, draining: bool)
    requires
        under_way(press),
        press.realtime,
    ensures
        press.receiving(event, draining).press.valid(),
{
    match event {
        realtime::EventView::PartialTranscript(content) => {
            live_text::law_partial_changes_only_the_tail(
                press.live,
                transcript::cleaned(content),
            );
        },
        realtime::EventView::CommittedTranscript(content) => {
            live_text::law_commit_appends(press.live, transcript::cleaned(content));
        },
        _ => {},
    }
}

proof fn lemma_on_session_valid(press: PressView, event: Option<realtime::EventView>)
    requires
        press.valid(),
    ensures
        press.on_session(event).press.valid(),
{
    match event {
        Some(event) => {
            if press.phase is Waiting && press.status is Open {
                lemma_receiving_valid(press, event, false);
            } else if press.phase is Draining {
                lemma_receiving_valid(press, event, true);
            }
        },
        None => {
            if press.phase is Draining {
                lemma_realtime_result_valid(
                    PressView { status: SessionStatus::Closed, ..press },
                );
            }
        },
    }
}

proof fn lemma_on_hotkey_valid(press: PressView, event: Option<HotkeyEvent>)
    requires
        press.valid(),
    ensures
        press.on_hotkey(event).press.valid(),
{
    if press.phase is Completing {
        lemma_proceeding_valid(press);
    }
}

proof fn lemma_on_recorder_stopped_valid(press: PressView, verdict: Option<Verdict>)
    requires
        press.valid(),
    ensures
        press.on_recorder_stopped(verdict).press.valid(),
{
    if press.phase is StoppingRecorder && press.keyboard_safe {
        lemma_proceeding_valid(PressView { captured: verdict, ..press });
    }
}

proof fn lemma_on_finalize_requested_valid(press: PressView, ok: bool)
    requires
        press.valid(),
    ensures
        press.on_finalize_requested(ok).press.valid(),
{
    if press.phase is Finalizing {
        lemma_realtime_result_valid(press);
        lemma_realtime_result_valid(press.failing());
    }
}

proof fn lemma_on_start_valid(press: PressView, ok: bool)
    requires
        press.valid(),
    ensures
        press.on_marker_typed(ok).press.valid(),
        press.on_recorder_started(ok).press.valid(),
        press.on_session_opened(ok).press.valid(),
        press.on_timer().press.valid(),
{
}

proof fn lemma_on_transcription_valid(
    press: PressView,
    content: Seq<char>,
    error: TranscribeError,
)
    requires
        press.valid(),
    ensures
        press.on_transcribed(content).press.valid(),
        press.on_transcription_failed(error).press.valid(),
{
}

/// Every event keeps a press valid.
pub proof fn lemma_next_valid(press: PressView, event: PressEventView)
    requires
        press.valid(),
    ensures
        press.next(event).press.valid(),
{
    match event {
        PressEventView::MarkerTyped(ok) | PressEventView::RecorderStarted(ok)
        | PressEventView::SessionOpened(ok) => {
            lemma_on_start_valid(press, ok);
        },
        PressEventView::Timer => {
            lemma_on_start_valid(press, true);
        },
        PressEventView::Hotkey(hotkey) => {
            lemma_on_hotkey_valid(press, hotkey);
        },
        PressEventView::Session(session) => {
            lemma_on_session_valid(press, session);
        },
        PressEventView::RecorderStopped(verdict) => {
            lemma_on_recorder_stopped_valid(press, verdict);
        },
        PressEventView::FinalizeRequested(ok) => {
            lemma_on_finalize_requested_valid(press, ok);
        },
        PressEventView::Delivered(ok) => {
            lemma_on_delivered_valid(press, ok);
        },
        PressEventView::Transcribed(content) => {
            lemma_on_transcription_valid(press, content, TranscribeError::NoClient);
        },
        PressEventView::TranscriptionFailed(error) => {
            lemma_on_transcription_valid(press, Seq::empty(), error);
        },
    }
}

} // verus!
