//! What each event leads to while a press lasts, one after the other.
//!
//! Together these laws say of every press and every event what the press becomes
//! and what is done.

use crate::audio::Verdict;
use crate::deliver;
use crate::graphemes;
use crate::hotkey::HotkeyEvent;
use crate::live_text;
use crate::placeholder;
use crate::press::{self, SessionStatus};
use crate::press_laws;
use crate::realtime;
use crate::realtime_mode;
use crate::text;
use crate::transcribe::{self, TranscribeError};
use crate::transcript;
use vstd::prelude::*;

verus! {

/// Whether a press takes in what its session sends.
pub open spec fn listens(press: press::PressView) -> bool {
    press.phase is Waiting && press.status is Open || press.phase is Draining
}

/// Whether a step waits as before: for the session alone where it drains, and
/// otherwise for the release, and for the session too where it is open.
pub open spec fn waits_again(
    step: press::PressStepView,
    press: press::PressView,
    draining: bool,
) -> bool {
    if draining {
        &&& step.press == (press::PressView { phase: press::PhaseView::Draining, ..press })
        &&& step.actions == seq![press::ActionView::AwaitSession]
    } else {
        &&& step.press == (press::PressView { phase: press::PhaseView::Waiting, ..press })
        &&& step.actions == seq![
            press::ActionView::AwaitRelease { session: press.status is Open },
        ]
    }
}

/// Whether the word for the clipboard stands somewhere in the text.
pub open spec fn has_banana(content: Seq<char>) -> bool {
    exists|at: int| #[trigger] placeholder::banana_at(content, at)
}

/// The press after a failed edit or delivery: realtime transcription has failed,
/// and the window is not to be trusted any more.
pub open spec fn distrusting(press: press::PressView) -> press::PressView {
    press::PressView {
        failed: Some(realtime::ErrorView::TaskFailed),
        tail_safe: false,
        ..press
    }
}

/// The removal of the marker, where it stands.
pub open spec fn removal(standing: bool) -> Seq<press::ActionView> {
    if standing {
        seq![press::ActionView::RemoveMarker]
    } else {
        Seq::empty()
    }
}

proof fn lemma_has_banana(content: Seq<char>)
    ensures
        has_banana(content) <==> placeholder::token_count(content, 0) > 0,
{
    let all = placeholder::chunks(content);
    placeholder::law_every_token_is_a_placeholder(content);
    placeholder::lemma_placeholder_count(all);
    placeholder::law_chunks_are_what_they_stand_for(content);
    if has_banana(content) {
        let at = choose|at: int| #[trigger] placeholder::banana_at(content, at);
        assert(placeholder::placeholder_stands(all, at));
        let k = choose|k: int| #[trigger] placeholder::stands_at(all, k, at);
        assert(all[k] == placeholder::ChunkView::ClipboardPlaceholder);
    }
    if all.contains(placeholder::ChunkView::ClipboardPlaceholder) {
        let k = choose|k: int|
            0 <= k < all.len() && all[k] == placeholder::ChunkView::ClipboardPlaceholder;
        assert(placeholder::rightly_placed(content, 0, all, k));
        assert(placeholder::banana_at(content, placeholder::offset(all, k)));
    }
}

/// Whether a segment that stands in the window is replaced by what it means: all of
/// it is deleted again, and then delivered with the clipboard in the place of each
/// placeholder. What is remembered of it stays as it is. Where either fails, the
/// window is not trusted any more.
pub open spec fn pastes(
    step: press::PressStepView,
    press: press::PressView,
    draining: bool,
    segment: Seq<char>,
) -> bool {
    let erased = step.press.next(press::PressEventView::Delivered(true));
    &&& step.actions == seq![
        press::ActionView::ApplyEdit(
            live_text::EditView {
                backspaces: graphemes::clusters(segment).len() as int,
                insert: Seq::empty(),
            },
        ),
    ]
    &&& step.press.live == press.live
    &&& erased.actions == seq![
        press::ActionView::Deliver(deliver::transcript_deliveries(segment)),
    ]
    &&& waits_again(
        erased.press.next(press::PressEventView::Delivered(true)),
        press,
        draining,
    )
    &&& waits_again(
        step.press.next(press::PressEventView::Delivered(false)),
        distrusting(press),
        draining,
    )
    &&& waits_again(
        erased.press.next(press::PressEventView::Delivered(false)),
        distrusting(press),
        draining,
    )
}

proof fn lemma_waits_again(press: press::PressView, draining: bool)
    ensures
        waits_again(press.resuming(draining), press, draining),
{
}

proof fn lemma_undelivered(press: press::PressView, draining: bool)
    ensures
        waits_again(press.undelivered().resuming(draining), distrusting(press), draining),
{
    lemma_waits_again(press.undelivered(), draining);
}

/// What follows the erasing of a segment.
proof fn lemma_erased(press: press::PressView, draining: bool, segment: Seq<char>)
    ensures
        ({
            let erasing = press::PressView {
                phase: press::PhaseView::Erasing { draining, segment },
                ..press
            };
            let erased = erasing.next(press::PressEventView::Delivered(true));
            &&& erased.actions == seq![
                press::ActionView::Deliver(deliver::transcript_deliveries(segment)),
            ]
            &&& waits_again(
                erased.press.next(press::PressEventView::Delivered(true)),
                press,
                draining,
            )
            &&& waits_again(
                erasing.next(press::PressEventView::Delivered(false)),
                distrusting(press),
                draining,
            )
            &&& waits_again(
                erased.press.next(press::PressEventView::Delivered(false)),
                distrusting(press),
                draining,
            )
        }),
{
    let erasing = press::PressView {
        phase: press::PhaseView::Erasing { draining, segment },
        ..press
    };
    let erased = erasing.on_delivered(true);
    assert(erased.press == (press::PressView {
        phase: press::PhaseView::Delivering { draining },
        ..press
    }));
    lemma_waits_again(erased.press, draining);
    lemma_undelivered(erased.press, draining);
    lemma_undelivered(erasing, draining);
}

/// Whether what follows the showing of a transcript is right: once it is shown,
/// the press believes it and waits as before, or pastes where it is a segment with
/// placeholders in it; where it could not be shown, the press believes what it did
/// before, and the window is not trusted any more.
pub open spec fn settles(
    editing: press::PressView,
    press: press::PressView,
    next: live_text::LiveTextView,
    draining: bool,
    segment: Option<Seq<char>>,
) -> bool {
    let shown = press::PressView { live: next, ..press };
    let done = editing.next(press::PressEventView::Delivered(true));
    &&& done.press.live == next
    &&& match segment {
        Some(segment) => if has_banana(segment) {
            pastes(done, shown, draining, segment)
        } else {
            waits_again(done, shown, draining)
        },
        None => waits_again(done, shown, draining),
    }
    &&& waits_again(
        editing.next(press::PressEventView::Delivered(false)),
        distrusting(press),
        draining,
    )
}

proof fn lemma_pastes(press: press::PressView, draining: bool, segment: Seq<char>)
    ensures
        pastes(
            press.moving(
                press::PhaseView::Erasing { draining, segment },
                seq![
                    press::ActionView::ApplyEdit(
                        live_text::EditView {
                            backspaces: graphemes::clusters(segment).len() as int,
                            insert: Seq::empty(),
                        },
                    ),
                ],
            ),
            press,
            draining,
            segment,
        ),
{
    lemma_erased(press, draining, segment);
}

/// What follows the showing of a transcript.
#[verifier::rlimit(30)]
proof fn lemma_settles(
    press: press::PressView,
    next: live_text::LiveTextView,
    draining: bool,
    segment: Option<Seq<char>>,
)
    ensures
        settles(
            press::PressView {
                phase: press::PhaseView::Editing { draining, next, segment },
                ..press
            },
            press,
            next,
            draining,
            segment,
        ),
{
    let editing = press::PressView {
        phase: press::PhaseView::Editing { draining, next, segment },
        ..press
    };
    let shown = press::PressView { live: next, ..press };
    let done = editing.on_delivered(true);
    assert(done == editing.next(press::PressEventView::Delivered(true)));
    lemma_waits_again(press::PressView { live: next, ..editing }, draining);
    lemma_undelivered(editing, draining);
    assert(editing.next(press::PressEventView::Delivered(false))
        == editing.undelivered().resuming(draining));
    if let Some(segment) = segment {
        lemma_has_banana(segment);
        if placeholder::token_count(segment, 0) > 0 {
            lemma_pastes(shown, draining, segment);
            assert(done == shown.moving(
                press::PhaseView::Erasing { draining, segment },
                seq![
                    press::ActionView::ApplyEdit(
                        live_text::EditView {
                            backspaces: graphemes::clusters(segment).len() as int,
                            insert: Seq::empty(),
                        },
                    ),
                ],
            ));
        }
    }
}

/// Whether a step shows a transcript: the marker goes where the text is the first
/// of the press, and then the window is edited.
pub open spec fn shows(
    step: press::PressStepView,
    press: press::PressView,
    transition: live_text::TransitionView,
    first: bool,
    draining: bool,
    segment: Option<Seq<char>>,
) -> bool {
    &&& step.actions == removal(press.marker_active && first) + seq![
        press::ActionView::ApplyEdit(transition.edit),
    ]
    &&& step.press.live == press.live
    &&& settles(
        step.press,
        press::PressView { marker_active: press.marker_active && !first, ..press },
        transition.next,
        draining,
        segment,
    )
}

proof fn lemma_shows(press: press::PressView, clean: Seq<char>, committed: bool, draining: bool)
    ensures
        ({
            let first = clean.len() > 0 && !press.live.committed_any && press.live.tail.len() == 0;
            &&& !committed ==> shows(
                press.showing(clean, false, draining),
                press,
                press.live.partial(clean),
                first,
                draining,
                None,
            )
            &&& committed ==> shows(
                press.showing(clean, true, draining),
                press,
                press.live.commit(clean),
                first,
                draining,
                Some(
                    if press.live.committed_any {
                        seq![' '] + clean
                    } else {
                        clean
                    },
                ),
            )
        }),
{
    let first = clean.len() > 0 && !press.live.committed_any && press.live.tail.len() == 0;
    let unmarked = press::PressView { marker_active: press.marker_active && !first, ..press };
    let transition = if committed {
        press.live.commit(clean)
    } else {
        press.live.partial(clean)
    };
    let segment = if committed {
        Some(
            if press.live.committed_any {
                seq![' '] + clean
            } else {
                clean
            },
        )
    } else {
        None
    };
    reveal_strlit(" ");
    assert(" "@ == seq![' ']);
    assert(realtime_mode::raw_segment(press.live.committed_any, clean) == (
    if press.live.committed_any {
        seq![' '] + clean
    } else {
        clean
    }));
    let step = press.showing(clean, committed, draining);
    assert(step.press == (press::PressView {
        phase: press::PhaseView::Editing { draining, next: transition.next, segment },
        ..unmarked
    }));
    assert(step.actions == removal(press.marker_active && first) + seq![
        press::ActionView::ApplyEdit(transition.edit),
    ]);
    lemma_settles(unmarked, transition.next, draining, segment);
}

proof fn lemma_segment_shown(press: press::PressView, content: Seq<char>)
    requires
        listens(press),
        press.failed is None,
    ensures
        shows(
            press.next(
                press::PressEventView::Session(
                    Some(realtime::EventView::CommittedTranscript(content)),
                ),
            ),
            press,
            press.live.commit(transcript::cleaned(content)),
            transcript::cleaned(content).len() > 0 && !press.live.committed_any
                && press.live.tail.len() == 0,
            press.phase is Draining,
            Some(
                if press.live.committed_any {
                    seq![' '] + transcript::cleaned(content)
                } else {
                    transcript::cleaned(content)
                },
            ),
        ),
{
    let clean = transcript::cleaned(content);
    let draining = press.phase is Draining;
    let event = realtime::EventView::CommittedTranscript(content);
    lemma_received(press, event);
    assert(press.receiving(event, draining) == press.showing(clean, true, draining));
    lemma_shows(press, clean, true, draining);
}

proof fn lemma_committed_live(live: live_text::LiveTextView, clean: Seq<char>)
    ensures
        ({
            let after = live.commit(clean);
            &&& clean.len() == 0 ==> after.next.committed_text == live.committed_text
            &&& clean.len() > 0 ==> after.next.committed_text == live.committed_text + (
            if live.committed_any {
                seq![' '] + clean
            } else {
                clean
            })
            &&& after.next.committed_any == (live.committed_any || clean.len() > 0)
            &&& after.next.tail.len() == 0
        }),
{
    if clean.len() > 0 {
        live_text::law_one_space_separates_segments(live, clean);
        assert(live.committed_text + seq![' '] + clean == live.committed_text + (seq![' ']
            + clean));
    } else {
        assert(clean == Seq::<char>::empty());
        live_text::law_empty_segments_only_clear_the_tail(live);
    }
}

/// Every committed segment is shown, whether or not others came before it, while
/// the key is held and while the session ends: its cleaned text becomes part of
/// what was committed, after one space where something was. The first text of a
/// press replaces the marker. A segment with placeholders is pasted then.
pub proof fn law_committed_segments_are_shown(press: press::PressView, content: Seq<char>)
    requires
        listens(press),
        press.failed is None,
    ensures
        ({
            let clean = transcript::cleaned(content);
            let after = press.live.commit(clean);
            let segment = if press.live.committed_any {
                seq![' '] + clean
            } else {
                clean
            };
            let step = press.next(
                press::PressEventView::Session(
                    Some(realtime::EventView::CommittedTranscript(content)),
                ),
            );
            &&& shows(
                step,
                press,
                after,
                clean.len() > 0 && !press.live.committed_any && press.live.tail.len() == 0,
                press.phase is Draining,
                Some(segment),
            )
            &&& clean.len() == 0 ==> after.next.committed_text == press.live.committed_text
            &&& clean.len() > 0 ==> after.next.committed_text == press.live.committed_text
                + segment
            &&& after.next.committed_any == (press.live.committed_any || clean.len() > 0)
            &&& after.next.tail.len() == 0
        }),
{
    lemma_segment_shown(press, content);
    lemma_committed_live(press.live, transcript::cleaned(content));
}

/// Every preview is shown while the key is held: its cleaned text becomes the tail,
/// after one space where something was committed, and what was committed stays.
/// The first text of a press replaces the marker.
pub proof fn law_previews_are_shown(press: press::PressView, content: Seq<char>)
    requires
        press.phase is Waiting,
        press.status is Open,
        press.failed is None,
    ensures
        ({
            let clean = transcript::cleaned(content);
            let after = press.live.partial(clean);
            let step = press.next(
                press::PressEventView::Session(
                    Some(realtime::EventView::PartialTranscript(content)),
                ),
            );
            &&& shows(
                step,
                press,
                after,
                clean.len() > 0 && !press.live.committed_any && press.live.tail.len() == 0,
                false,
                None,
            )
            &&& after.next.committed_text == press.live.committed_text
            &&& after.next.committed_any == press.live.committed_any
            &&& after.next.tail == (if clean.len() > 0 && press.live.committed_any {
                seq![' '] + clean
            } else {
                clean
            })
        }),
{
    let clean = transcript::cleaned(content);
    let event = realtime::EventView::PartialTranscript(content);
    lemma_received(press, event);
    assert(press.receiving(event, false) == press.showing(clean, false, false));
    lemma_shows(press, clean, false, false);
    if clean.len() > 0 {
        live_text::law_one_space_separates_segments(press.live, clean);
    } else {
        assert(clean == Seq::<char>::empty());
        live_text::law_empty_segments_only_clear_the_tail(press.live);
    }
}

/// What a press that listens does with an event other than a late preview.
proof fn lemma_received(press: press::PressView, event: realtime::EventView)
    requires
        listens(press),
    ensures
        press.phase is Waiting || !(event is PartialTranscript) ==> press.next(
            press::PressEventView::Session(Some(event)),
        ) == press.receiving(event, press.phase is Draining),
        press.phase is Draining && event is PartialTranscript ==> press.next(
            press::PressEventView::Session(Some(event)),
        ) == press.resuming(true),
{
}

/// What else a session sends changes nothing but that an error is remembered; and
/// after an error transcripts change nothing either.
pub proof fn law_other_session_events(
    press: press::PressView,
    error: realtime::ErrorView,
    content: Seq<char>,
)
    requires
        listens(press),
    ensures
        ({
            let draining = press.phase is Draining;
            let started = realtime::EventView::SessionStarted;
            let completed = realtime::EventView::Completed;
            let failed = realtime::EventView::Error(error);
            let preview = realtime::EventView::PartialTranscript(content);
            let segment = realtime::EventView::CommittedTranscript(content);
            &&& waits_again(
                press.next(press::PressEventView::Session(Some(started))),
                press,
                draining,
            )
            &&& waits_again(
                press.next(press::PressEventView::Session(Some(completed))),
                press,
                draining,
            )
            &&& waits_again(
                press.next(press::PressEventView::Session(Some(failed))),
                press::PressView { failed: Some(error), ..press },
                draining,
            )
            &&& press.failed is Some || draining ==> waits_again(
                press.next(press::PressEventView::Session(Some(preview))),
                press,
                draining,
            )
            &&& press.failed is Some ==> waits_again(
                press.next(press::PressEventView::Session(Some(segment))),
                press,
                draining,
            )
        }),
{
    let draining = press.phase is Draining;
    let preview = realtime::EventView::PartialTranscript(content);
    let segment = realtime::EventView::CommittedTranscript(content);
    lemma_received(press, realtime::EventView::SessionStarted);
    lemma_received(press, realtime::EventView::Completed);
    lemma_received(press, realtime::EventView::Error(error));
    lemma_received(press, preview);
    lemma_received(press, segment);
    lemma_waits_again(press, draining);
    lemma_waits_again(press::PressView { failed: Some(error), ..press }, draining);
    if press.failed is Some {
        assert(press.receiving(preview, draining) == press.resuming(draining));
        assert(press.receiving(segment, draining) == press.resuming(draining));
    }
}

/// A session that ends while the key is held counts as failed, unless it had failed
/// already; the recording goes on without it.
pub proof fn law_sessions_that_end_early_have_failed(press: press::PressView)
    requires
        press.phase is Waiting,
        press.status is Open,
    ensures
        ({
            let step = press.next(press::PressEventView::Session(None));
            let error = match press.failed {
                Some(error) => error,
                None => realtime::ErrorView::TaskFailed,
            };
            &&& step.press == (press::PressView {
                failed: Some(error),
                status: SessionStatus::Closed,
                ..press
            })
            &&& step.actions == seq![press::ActionView::AwaitRelease { session: false }]
        }),
{
}

/// How a press starts: the marker first, then the recording, then a session where
/// one is wanted, and then waiting for the release. Without the marker or the
/// recording the press is over, and what was muted comes back. Without a session
/// the recording goes on, to be transcribed later.
pub proof fn law_how_presses_start(press: press::PressView)
    ensures
        press.phase is TypingMarker ==> {
            let typed = press.next(press::PressEventView::MarkerTyped(true));
            let failed = press.next(press::PressEventView::MarkerTyped(false));
            let start = press::ActionView::StartRecorder { stream: press.realtime };
            &&& typed.press == (press::PressView {
                phase: press::PhaseView::StartingRecorder,
                marker_active: true,
                ..press
            })
            &&& press.mute_mics ==> typed.actions == seq![
                press::ActionView::MuteOtherMicApps,
                start,
            ]
            &&& !press.mute_mics ==> typed.actions == seq![start]
            &&& failed.press == (press::PressView { phase: press::PhaseView::Finished, ..press })
            &&& failed.actions == seq![
                press::ActionView::RestoreAudio,
                press::ActionView::Finish,
            ]
        },
        press.phase is StartingRecorder ==> {
            let started = press.next(press::PressEventView::RecorderStarted(true));
            let failed = press.next(press::PressEventView::RecorderStarted(false));
            &&& press.realtime ==> {
                &&& started.press == (press::PressView {
                    phase: press::PhaseView::OpeningSession,
                    ..press
                })
                &&& started.actions == seq![press::ActionView::OpenSession]
            }
            &&& !press.realtime ==> waits_again(started, press, false)
            &&& over(
                failed,
                press,
                seq![
                    press::ActionView::RestoreAudio,
                    press::ActionView::Notify("Failed to start recording — microphone not available?"@),
                ],
            )
        },
        press.phase is OpeningSession ==> {
            let opened = press.next(press::PressEventView::SessionOpened(true));
            let failed = press.next(press::PressEventView::SessionOpened(false));
            let error = match press.failed {
                Some(error) => error,
                None => realtime::ErrorView::TaskFailed,
            };
            &&& waits_again(
                opened,
                press::PressView { status: SessionStatus::Open, ..press },
                false,
            )
            &&& waits_again(
                failed,
                press::PressView {
                    status: SessionStatus::Missing,
                    failed: Some(error),
                    ..press
                },
                false,
            )
        },
{
    let start = press::ActionView::StartRecorder { stream: press.realtime };
    if press.phase is TypingMarker {
        let typed = press.next(press::PressEventView::MarkerTyped(true));
        assert(press.mute_mics ==> typed.actions == seq![
            press::ActionView::MuteOtherMicApps,
            start,
        ]);
        assert(!press.mute_mics ==> typed.actions == seq![start]);
        assert(press.next(press::PressEventView::MarkerTyped(false)).actions == seq![
            press::ActionView::RestoreAudio,
            press::ActionView::Finish,
        ]);
    }
    if press.phase is StartingRecorder {
        lemma_pushed(
            press.marks(),
            press::ActionView::RestoreAudio,
            press::ActionView::Notify("Failed to start recording — microphone not available?"@),
            press::ActionView::Finish,
        );
        assert(over(
            press.next(press::PressEventView::RecorderStarted(false)),
            press,
            seq![
                press::ActionView::RestoreAudio,
                press::ActionView::Notify("Failed to start recording — microphone not available?"@),
            ],
        ));
    }
}

/// Whether a step is the last of a press: the marker goes where it stands, then
/// comes what else is to be done, and nothing else about the press changes.
pub open spec fn over(
    step: press::PressStepView,
    press: press::PressView,
    actions: Seq<press::ActionView>,
) -> bool {
    &&& step.press == (press::PressView {
        phase: press::PhaseView::Finished,
        marker_active: false,
        ..press
    })
    &&& step.actions == removal(press.marker_active) + actions + seq![press::ActionView::Finish]
}

/// Whether a step has the whole recording transcribed.
pub open spec fn transcribes(step: press::PressStepView, press: press::PressView) -> bool {
    &&& step.press == (press::PressView { phase: press::PhaseView::Transcribing, ..press })
    &&& step.actions == seq![press::ActionView::Transcribe]
}

/// Whether a realtime press ends as it should, once its provisional text is gone or
/// could not be removed. A lost and a silent recording are reported, and a quick
/// tap is not. Where transcription succeeded there is nothing to report. Where it
/// failed before anything was committed, and the window shows nothing of it, the
/// recording is transcribed; where it failed otherwise, that is reported.
pub open spec fn ends(
    step: press::PressStepView,
    press: press::PressView,
    removed: bool,
) -> bool {
    let restore = press::ActionView::RestoreAudio;
    match press.captured {
        None => over(
            step,
            press,
            seq![restore, press::ActionView::Notify("Audio capture failed"@)],
        ),
        Some(Verdict::TooShort) => over(step, press, seq![restore]),
        Some(Verdict::Silent) => over(
            step,
            press,
            seq![press::ActionView::Notify("Microphone appears silent — check your input volume/source in PipeWire"@), restore],
        ),
        Some(Verdict::Usable) => match press.failed {
            None => over(step, press, seq![restore]),
            Some(error) => if removed && press.tail_safe && !press.live.committed_any {
                transcribes(step, press)
            } else {
                over(
                    step,
                    press,
                    seq![press::ActionView::Notify(realtime_mode::realtime_notice(error)), restore],
                )
            },
        },
    }
}

/// Whether a press comes to its end: provisional text that can be trusted to stand
/// in the window is removed first.
pub open spec fn concludes(step: press::PressStepView, press: press::PressView) -> bool {
    if press.tail_safe && press.live.tail.len() > 0 {
        let gone = press::PressView {
            live: live_text::LiveTextView { tail: Seq::empty(), ..press.live },
            ..press
        };
        &&& step.actions == seq![press::ActionView::ApplyEdit(press.live.cleanup().edit)]
        &&& step.press.live == press.live
        &&& ends(step.press.next(press::PressEventView::Delivered(true)), gone, true)
        &&& ends(step.press.next(press::PressEventView::Delivered(false)), press, false)
    } else {
        ends(step, press, press.tail_safe)
    }
}

/// Whether a press goes on as it should once the recorder has stopped and the
/// keyboard is free: a session is asked to finalize; where there is none, the
/// press comes to its end; and a recording that no session was wanted for is
/// transcribed, unless it is a quick tap or silent.
pub open spec fn proceeds(step: press::PressStepView, press: press::PressView) -> bool {
    let restore = press::ActionView::RestoreAudio;
    match (press.captured, press.status) {
        (None, _) => concludes(step, press),
        (Some(_), SessionStatus::Missing) => concludes(step, press),
        (Some(_), SessionStatus::Open) | (Some(_), SessionStatus::Closed) => {
            &&& step.press == (press::PressView { phase: press::PhaseView::Finalizing, ..press })
            &&& step.actions == seq![press::ActionView::RequestFinalize]
        },
        (Some(Verdict::TooShort), SessionStatus::Batch) => over(step, press, seq![restore]),
        (Some(Verdict::Silent), SessionStatus::Batch) => over(
            step,
            press,
            seq![restore, press::ActionView::Notify("Microphone appears silent — check your input volume/source in PipeWire"@)],
        ),
        (Some(Verdict::Usable), SessionStatus::Batch) => transcribes(step, press),
    }
}

proof fn lemma_pushed(
    marks: Seq<press::ActionView>,
    a: press::ActionView,
    b: press::ActionView,
    c: press::ActionView,
)
    ensures
        marks.push(a).push(c) == marks + seq![a] + seq![c],
        marks.push(a).push(b).push(c) == marks + seq![a, b] + seq![c],
{
}

proof fn lemma_wraps_up(press: press::PressView, clean: bool)
    ensures
        press.captured is None ==> ends(
            press.wrapping_up(press::Goal::CaptureFailed, clean),
            press,
            clean,
        ),
        press.captured matches Some(verdict) ==> ends(
            press.wrapping_up(press.realtime_goal(verdict), clean),
            press,
            clean,
        ),
{
    let restore = press::ActionView::RestoreAudio;
    let finish = press::ActionView::Finish;
    let marks = press.marks();
    lemma_pushed(marks, restore, press::ActionView::Notify("Audio capture failed"@), finish);
    lemma_pushed(marks, press::ActionView::Notify("Microphone appears silent — check your input volume/source in PipeWire"@), restore, finish);
    if let Some(error) = press.failed {
        lemma_pushed(
            marks,
            press::ActionView::Notify(realtime_mode::realtime_notice(error)),
            restore,
            finish,
        );
    }
}

proof fn lemma_noop_cleanup(live: live_text::LiveTextView)
    ensures
        live.cleanup().edit.is_noop() <==> live.tail.len() == 0,
{
    live_text::law_cleanup_removes_only_the_tail(live);
    graphemes::law_clusters_partition_the_text(live.tail);
}

proof fn lemma_clears(press: press::PressView, goal: press::Goal)
    requires
        match press.captured {
            None => goal is CaptureFailed,
            Some(verdict) => goal == press.realtime_goal(verdict),
        },
    ensures
        concludes(press.clearing(goal), press),
{
    lemma_noop_cleanup(press.live);
    let step = press.clearing(goal);
    if press.tail_safe && press.live.tail.len() > 0 {
        let gone = press::PressView {
            live: live_text::LiveTextView { tail: Seq::empty(), ..press.live },
            ..press
        };
        live_text::law_cleanup_removes_only_the_tail(press.live);
        lemma_wraps_up(gone, true);
        lemma_wraps_up(press, false);
        assert(step.press.next(press::PressEventView::Delivered(true)) == (press::PressView {
            phase: step.press.phase,
            ..gone
        }).wrapping_up(goal, true));
        assert(step.press.next(press::PressEventView::Delivered(true)) == gone.wrapping_up(
            goal,
            true,
        ));
        assert(step.press.next(press::PressEventView::Delivered(false)) == press.wrapping_up(
            goal,
            false,
        ));
    } else {
        lemma_wraps_up(press, press.tail_safe);
    }
}

proof fn lemma_results(press: press::PressView)
    ensures
        concludes(press.realtime_result(), press),
{
    match press.captured {
        Some(verdict) => {
            lemma_clears(press, press.realtime_goal(verdict));
        },
        None => {
            lemma_clears(press, press::Goal::CaptureFailed);
        },
    }
}

proof fn lemma_proceeds(press: press::PressView)
    ensures
        proceeds(press.proceeding(), press),
{
    match press.captured {
        None => {
            lemma_clears(press, press::Goal::CaptureFailed);
        },
        Some(_) => {
            lemma_results(press);
            let restore = press::ActionView::RestoreAudio;
            lemma_pushed(
                press.marks(),
                restore,
                press::ActionView::Notify("Microphone appears silent — check your input volume/source in PipeWire"@),
                press::ActionView::Finish,
            );
        },
    }
}

/// How a recording comes to be stopped: by the key being let go of, by the longest
/// recording time, or by the end of all hotkey events, after which the keyboard is
/// not safe. Other hotkey events change nothing.
pub proof fn law_how_recordings_are_stopped(press: press::PressView, event: HotkeyEvent)
    requires
        press.phase is Waiting,
    ensures
        ({
            let stopping = press::PressView {
                phase: press::PhaseView::StoppingRecorder,
                ..press
            };
            let stop = seq![press::ActionView::StopRecorder];
            let released = press.next(
                press::PressEventView::Hotkey(Some(HotkeyEvent::ReleaseStarted)),
            );
            let timed_out = press.next(press::PressEventView::Timer);
            let closed = press.next(press::PressEventView::Hotkey(None));
            let other = press.next(press::PressEventView::Hotkey(Some(event)));
            &&& released.press == (press::PressView { release_started: true, ..stopping })
            &&& released.actions == stop
            &&& timed_out.press == stopping
            &&& timed_out.actions == stop
            &&& closed.press == (press::PressView { keyboard_safe: false, ..stopping })
            &&& closed.actions == stop
            &&& event != HotkeyEvent::ReleaseStarted ==> waits_again(other, press, false)
        }),
{
}

/// What follows the end of a recording: other audio comes back at once. Where the
/// keyboard is not safe the press is over; where the key was let go of, the press
/// waits until all of it is released; and otherwise it goes on.
pub proof fn law_what_follows_a_recording(press: press::PressView, verdict: Option<Verdict>)
    requires
        press.phase is StoppingRecorder,
    ensures
        ({
            let restore = press::ActionView::RestoreAudio;
            let stopped = press::PressView { captured: verdict, ..press };
            let step = press.next(press::PressEventView::RecorderStopped(verdict));
            if !press.keyboard_safe {
                &&& step.press == (press::PressView {
                    phase: press::PhaseView::Finished,
                    ..stopped
                })
                &&& step.actions == seq![restore, press::ActionView::Finish]
            } else if press.release_started {
                &&& step.press == (press::PressView {
                    phase: press::PhaseView::Completing,
                    ..stopped
                })
                &&& step.actions == seq![restore, press::ActionView::AwaitCompletion]
            } else {
                &&& step.actions.len() > 0
                &&& step.actions[0] == restore
                &&& proceeds(
                    press::PressStepView { press: step.press, actions: step.actions.skip(1) },
                    stopped,
                )
            }
        }),
{
    let stopped = press::PressView { captured: verdict, ..press };
    let restore = press::ActionView::RestoreAudio;
    let step = press.next(press::PressEventView::RecorderStopped(verdict));
    lemma_proceeds(stopped);
    if press.keyboard_safe && !press.release_started {
        assert(step.actions.skip(1) == stopped.proceeding().actions);
    } else {
        assert(seq![restore].push(press::ActionView::Finish) == seq![
            restore,
            press::ActionView::Finish,
        ]);
    }
}

/// What follows the release: once it is complete, the press goes on; where that
/// cannot be known any more, it is over, and no keystroke is sent; and other hotkey
/// events change nothing.
pub proof fn law_what_follows_the_release(press: press::PressView, event: HotkeyEvent)
    requires
        press.phase is Completing,
    ensures
        ({
            let completed = press.next(
                press::PressEventView::Hotkey(Some(HotkeyEvent::ReleaseCompleted)),
            );
            let closed = press.next(press::PressEventView::Hotkey(None));
            let other = press.next(press::PressEventView::Hotkey(Some(event)));
            &&& proceeds(completed, press)
            &&& closed.press == (press::PressView {
                phase: press::PhaseView::Finished,
                keyboard_safe: false,
                ..press
            })
            &&& closed.actions == seq![
                press::ActionView::RestoreAudio,
                press::ActionView::Finish,
            ]
            &&& event != HotkeyEvent::ReleaseCompleted ==> {
                &&& other.press == press
                &&& other.actions == seq![press::ActionView::AwaitCompletion]
            }
        }),
{
    lemma_proceeds(press);
    assert(seq![press::ActionView::RestoreAudio].push(press::ActionView::Finish) == seq![
        press::ActionView::RestoreAudio,
        press::ActionView::Finish,
    ]);
}

/// What follows the request to finalize: an open session is drained, until it ends;
/// then, or where it had ended already, the press comes to its end. A request that
/// could not be made counts as a failure, unless there was one already.
pub proof fn law_sessions_are_drained(press: press::PressView, ok: bool)
    ensures
        press.phase is Finalizing ==> {
            let error = match press.failed {
                Some(error) => error,
                None => realtime::ErrorView::TaskFailed,
            };
            let asked = if ok {
                press
            } else {
                press::PressView { failed: Some(error), ..press }
            };
            let step = press.next(press::PressEventView::FinalizeRequested(ok));
            if press.status is Open {
                waits_again(step, asked, true)
            } else {
                concludes(step, asked)
            }
        },
        press.phase is Draining ==> concludes(
            press.next(press::PressEventView::Session(None)),
            press::PressView { status: SessionStatus::Closed, ..press },
        ),
{
    if press.phase is Finalizing {
        let asked = if ok {
            press
        } else {
            press.failing()
        };
        let step = press.next(press::PressEventView::FinalizeRequested(ok));
        if press.status is Open {
            assert(step == asked.resuming(true));
            lemma_waits_again(asked, true);
        } else {
            assert(step == asked.realtime_result());
            lemma_results(asked);
        }
    }
    if press.phase is Draining {
        let closed = press::PressView { status: SessionStatus::Closed, ..press };
        assert(press.next(press::PressEventView::Session(None)) == closed.realtime_result());
        lemma_results(closed);
    }
}

/// What follows the transcription of a whole recording: a transcript is delivered
/// in the place of the marker, and then what was muted comes back; a blank one
/// leaves nothing behind; and a failure is reported.
pub proof fn law_what_follows_a_transcription(
    press: press::PressView,
    content: Seq<char>,
    error: TranscribeError,
    ok: bool,
)
    ensures
        press.phase is Transcribing ==> {
            let restore = press::ActionView::RestoreAudio;
            let done = press.next(press::PressEventView::Transcribed(content));
            let failed = press.next(press::PressEventView::TranscriptionFailed(error));
            let blank = forall|i: int|
                0 <= i < content.len() ==> text::is_space(#[trigger] content[i]);
            &&& blank ==> over(done, press, seq![restore])
            &&& !blank ==> {
                &&& done.press == (press::PressView {
                    phase: press::PhaseView::Pasting,
                    marker_active: false,
                    ..press
                })
                &&& done.actions == removal(press.marker_active) + seq![
                    press::ActionView::Deliver(deliver::transcript_deliveries(content)),
                ]
            }
            &&& over(
                failed,
                press,
                seq![
                    press::ActionView::Notify(transcribe::batch_notice(error.text())),
                    restore,
                ],
            )
        },
        press.phase is Pasting ==> {
            let step = press.next(press::PressEventView::Delivered(ok));
            &&& step.press == (press::PressView { phase: press::PhaseView::Finished, ..press })
            &&& step.actions == seq![
                press::ActionView::RestoreAudio,
                press::ActionView::Finish,
            ]
        },
{
    let restore = press::ActionView::RestoreAudio;
    let finish = press::ActionView::Finish;
    lemma_pushed(
        press.marks(),
        press::ActionView::Notify(transcribe::batch_notice(error.text())),
        restore,
        finish,
    );
    lemma_pushed(press.marks(), restore, restore, finish);
    assert(seq![restore].push(finish) == seq![restore, finish]);
    let blank = forall|i: int| 0 <= i < content.len() ==> text::is_space(#[trigger] content[i]);
    if blank {
        let none = Seq::<char>::empty();
        text::law_trim_unwraps(content, none, none);
        assert(content + none + none == content);
    } else {
        let (lo, hi) = text::lemma_strip(content, text::CharClass::Space);
        assert(lo < hi);
    }
    let deliver = press::ActionView::Deliver(deliver::transcript_deliveries(content));
    assert(press.marks().push(deliver) == removal(press.marker_active) + seq![deliver]);
}

/// An event that a press does not wait for changes nothing, and nothing is done.
pub proof fn law_other_events_change_nothing(
    press: press::PressView,
    event: press::PressEventView,
)
    requires
        !press_laws::answers(press, event),
    ensures
        press.next(event).press == press,
        press.next(event).actions.len() == 0,
{
}

/// How a press begins: the marker is being typed and does not stand yet, nothing is
/// shown, nothing has failed, and the keyboard and the window can be trusted.
pub proof fn law_how_presses_begin(realtime: bool, mute_mics: bool)
    ensures
        ({
            let press = press::PressView::initial(realtime, mute_mics);
            &&& press.phase is TypingMarker
            &&& !press.marker_active
            &&& !press.live.committed_any
            &&& press.live.committed_text.len() == 0
            &&& press.live.tail.len() == 0
            &&& press.failed is None
            &&& press.tail_safe
            &&& press.keyboard_safe
            &&& !press.release_started
            &&& press.captured is None
            &&& press.status is Batch
            &&& press.realtime == realtime
            &&& press.mute_mics == mute_mics
        }),
{
}

} // verus!
