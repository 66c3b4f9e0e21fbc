use daapstt::hotkey::{
    find_keyboards, idle_step, plan_readers, raw_event, read_keyboard_events,
    wait_for_release_completion, wait_for_release_started, DeviceInfo, HotkeyEvent, HotkeyInput,
    HotkeyState, HotkeyStep, IdleStep, InputEvent, KeyboardInfo, RawEvent, ReadResult, ReaderStep,
    ReleaseStart, ALT_RESTORE_SETTLE_DURATION, COOLDOWN_DURATION, KEY_F24, KEY_LEFTALT,
};

const MILLISECOND: u64 = 1_000_000;
const SECOND: u64 = 1_000_000_000;
const NOW: u64 = 5 * SECOND;

fn cycle_to_release(state: &mut HotkeyState, now: u64) {
    assert_eq!(
        state.process(RawEvent::F24Down, now),
        Some(HotkeyEvent::Press)
    );
    assert_eq!(
        state.process(RawEvent::F24Up, now + MILLISECOND),
        Some(HotkeyEvent::ReleaseStarted)
    );
}

#[test]
fn direct_f24_cycle_completes_after_settling() {
    let now = NOW;
    let mut state = HotkeyState::default();
    cycle_to_release(&mut state, now);
    assert_eq!(state.settle(now + ALT_RESTORE_SETTLE_DURATION), None);
    assert_eq!(
        state.settle(now + MILLISECOND + ALT_RESTORE_SETTLE_DURATION),
        Some(HotkeyEvent::ReleaseCompleted)
    );
}

#[test]
fn space_before_alt_waits_for_restored_alt_to_be_released() {
    let now = NOW;
    let mut state = HotkeyState::default();
    cycle_to_release(&mut state, now);
    assert_eq!(
        state.process(RawEvent::KeydLeftAltDown, now + 2 * MILLISECOND),
        None
    );
    assert_eq!(
        state.settle(now + SECOND),
        None,
        "an observed restored Alt must not use a fixed delay"
    );
    assert_eq!(
        state.process(RawEvent::KeydLeftAltUp, now + SECOND),
        Some(HotkeyEvent::ReleaseCompleted)
    );
}

#[test]
fn alt_before_space_completes_after_settling() {
    let now = NOW;
    let mut state = HotkeyState::default();
    cycle_to_release(&mut state, now);
    // keyd emits no restored Alt-down when Alt was released first.
    assert_eq!(
        state.settle(now + MILLISECOND + ALT_RESTORE_SETTLE_DURATION),
        Some(HotkeyEvent::ReleaseCompleted)
    );
}

#[test]
fn key_repeats_are_ignored() {
    let now = NOW;
    let mut state = HotkeyState::default();
    assert_eq!(raw_event(evdev::Key::KEY_F24.code(), 2, false), None);
    assert_eq!(raw_event(evdev::Key::KEY_LEFTALT.code(), 2, true), None);
    assert_eq!(raw_event(evdev::Key::KEY_LEFTALT.code(), 1, false), None);
    assert_eq!(
        state.process(RawEvent::F24Down, now),
        Some(HotkeyEvent::Press)
    );
    assert_eq!(state.process(RawEvent::F24Down, now), None);
    assert_eq!(
        state.process(RawEvent::F24Up, now),
        Some(HotkeyEvent::ReleaseStarted)
    );
    assert_eq!(state.process(RawEvent::F24Up, now), None);
}

#[test]
fn mirrored_transitions_are_suppressed() {
    let now = NOW;
    let mut state = HotkeyState::default();
    cycle_to_release(&mut state, now);
    assert_eq!(state.process(RawEvent::KeydLeftAltUp, now), None);
    assert_eq!(state.process(RawEvent::KeydLeftAltDown, now), None);
    assert_eq!(state.process(RawEvent::KeydLeftAltDown, now), None);
    assert_eq!(
        state.process(RawEvent::KeydLeftAltUp, now),
        Some(HotkeyEvent::ReleaseCompleted)
    );
}

#[test]
fn cooldown_suppresses_mirrored_f24_sequence_then_retriggers() {
    let now = NOW;
    let mut state = HotkeyState::default();
    cycle_to_release(&mut state, now);
    assert_eq!(
        state.process(RawEvent::F24Down, now + 100 * MILLISECOND),
        None
    );
    assert_eq!(
        state.process(RawEvent::F24Up, now + 101 * MILLISECOND),
        None
    );
    assert_eq!(
        state.process(
            RawEvent::F24Down,
            now + MILLISECOND + COOLDOWN_DURATION,
        ),
        Some(HotkeyEvent::Press)
    );
}

#[test]
fn release_start_wait_routes_stray_events_before_start() {
    let mut outcome = None;
    for event in [
        HotkeyEvent::Press,
        HotkeyEvent::ReleaseCompleted,
        HotkeyEvent::ReleaseStarted,
    ] {
        assert_eq!(outcome, None);
        outcome = wait_for_release_started(Some(event));
    }
    assert_eq!(outcome, Some(ReleaseStart::Started));
}

#[test]
fn release_start_wait_reports_channel_close() {
    assert_eq!(
        wait_for_release_started(None),
        Some(ReleaseStart::ChannelClosed)
    );
}

#[test]
fn release_completion_wait_ignores_repeated_events() {
    let mut outcome = None;
    for event in [
        HotkeyEvent::Press,
        HotkeyEvent::ReleaseStarted,
        HotkeyEvent::ReleaseCompleted,
    ] {
        assert_eq!(outcome, None);
        outcome = wait_for_release_completion(Some(event));
    }
    assert_eq!(outcome, Some(true));
}

#[test]
fn release_completion_wait_fails_closed_on_channel_close() {
    assert_eq!(wait_for_release_completion(None), Some(false));
}

#[test]
fn key_codes_are_those_of_the_kernel() {
    assert_eq!(KEY_F24, evdev::Key::KEY_F24.code());
    assert_eq!(KEY_LEFTALT, evdev::Key::KEY_LEFTALT.code());
    assert_eq!(raw_event(KEY_F24, 1, false), Some(RawEvent::F24Down));
    assert_eq!(raw_event(KEY_F24, 0, false), Some(RawEvent::F24Up));
    assert_eq!(raw_event(KEY_LEFTALT, 1, true), Some(RawEvent::KeydLeftAltDown));
    assert_eq!(raw_event(KEY_LEFTALT, 0, true), Some(RawEvent::KeydLeftAltUp));
    assert_eq!(raw_event(30, 1, true), None);
}

#[test]
fn the_settle_deadline_lasts_while_a_release_settles() {
    let mut state = HotkeyState::default();
    assert_eq!(state.settle_deadline(), None);
    cycle_to_release(&mut state, NOW);
    assert_eq!(
        state.settle_deadline(),
        Some(NOW + MILLISECOND + ALT_RESTORE_SETTLE_DURATION)
    );
    assert_eq!(
        state.step(HotkeyInput::Raw(RawEvent::KeydLeftAltDown), NOW + 2 * MILLISECOND),
        HotkeyStep::Continue(None)
    );
    assert_eq!(state.settle_deadline(), None);
    assert_eq!(
        state.step(HotkeyInput::Deadline, NOW + SECOND),
        HotkeyStep::Continue(None)
    );
    assert_eq!(state.step(HotkeyInput::ChannelClosed, NOW + SECOND), HotkeyStep::Exit);
    assert_eq!(state.step(HotkeyInput::Shutdown, NOW + SECOND), HotkeyStep::Exit);
}

#[test]
fn readers_pass_on_the_transitions_that_matter() {
    let events = ReadResult::Events(vec![
        InputEvent::Other,
        InputEvent::Key { code: KEY_F24, value: 1 },
        InputEvent::Key { code: KEY_F24, value: 2 },
        InputEvent::Key { code: KEY_LEFTALT, value: 1 },
    ]);
    assert_eq!(
        read_keyboard_events(&events, false),
        ReaderStep::Send(vec![RawEvent::F24Down])
    );
    assert_eq!(
        read_keyboard_events(&events, true),
        ReaderStep::Send(vec![RawEvent::F24Down, RawEvent::KeydLeftAltDown])
    );
    assert_eq!(
        read_keyboard_events(&ReadResult::WouldBlock, true),
        ReaderStep::Send(vec![])
    );
    assert_eq!(read_keyboard_events(&ReadResult::Failed, true), ReaderStep::Stop);
}

fn device(path: &str, name: Option<&str>, supports_f24: bool) -> DeviceInfo {
    DeviceInfo {
        path: path.to_string(),
        name: name.map(str::to_string),
        supports_f24,
    }
}

fn keyboard(path: &str, is_keyd_virtual_keyboard: bool) -> KeyboardInfo {
    KeyboardInfo {
        path: path.to_string(),
        is_keyd_virtual_keyboard,
    }
}

#[test]
fn keyboards_are_the_devices_with_f24() {
    let found = find_keyboards(&vec![
        device("/dev/input/event0", Some("mouse"), false),
        device("/dev/input/event1", Some("keyd virtual keyboard"), true),
        device("/dev/input/event2", None, true),
        device("/dev/input/event3", Some("keyd virtual keyboard 2"), true),
    ]);
    assert_eq!(
        found,
        [
            keyboard("/dev/input/event1", true),
            keyboard("/dev/input/event2", false),
            keyboard("/dev/input/event3", false),
        ]
    );
}

#[test]
fn readers_follow_the_keyboards() {
    let plan = plan_readers(
        &vec!["a".to_string(), "b".to_string()],
        &vec![
            keyboard("b", false),
            keyboard("c", true),
            keyboard("c", true),
        ],
    );
    assert_eq!(plan.start, [keyboard("c", true)]);
    assert_eq!(plan.forget, ["a"]);
}

#[test]
fn an_idle_daemon_waits_for_a_press() {
    assert_eq!(idle_step(Some(HotkeyEvent::Press)), IdleStep::BeginPress);
    assert_eq!(idle_step(Some(HotkeyEvent::ReleaseStarted)), IdleStep::Ignore);
    assert_eq!(idle_step(Some(HotkeyEvent::ReleaseCompleted)), IdleStep::Ignore);
    assert_eq!(idle_step(None), IdleStep::Exit);
}
