//! Hotkey detection: from key events of all keyboards to hotkey events.
//!
//! keyd turns Alt+Space into F24. The state machine emits `Press` for F24 down,
//! `ReleaseStarted` for F24 up, and `ReleaseCompleted` once any Alt that keyd
//! restored has cleared, so that it is safe to inject text.
//!
//! Points in time are nanoseconds on a clock that never goes back.

use crate::text;
use vstd::prelude::*;

verus! {

/// Semantic hotkey events. `ReleaseStarted` stops recording immediately;
/// `ReleaseCompleted` means keyd is no longer holding a restored LeftAlt.
#[derive(Debug, Clone, Copy, PartialEq, Eq)]
pub enum HotkeyEvent {
    Press,
    ReleaseStarted,
    ReleaseCompleted,
}

/// A transition of one of the keys that matter.
#[derive(Debug, Clone, Copy, PartialEq, Eq, Hash)]
pub enum RawEvent {
    F24Down,
    F24Up,
    KeydLeftAltDown,
    KeydLeftAltUp,
}

/// How long after a release F24 is ignored, in nanoseconds: duplicate virtual
/// keyboards mirror the same press.
pub const COOLDOWN_DURATION: u64 = 200_000_000;

/// How long to wait for a restored Alt, in nanoseconds. keyd emits it
/// synchronously with F24-up, if it restores one.
pub const ALT_RESTORE_SETTLE_DURATION: u64 = 20_000_000;

/// The key code of F24.
pub const KEY_F24: u16 = 194;

/// The key code of the left Alt key.
pub const KEY_LEFTALT: u16 = 56;

/// The name of keyd's own output device.
pub const KEYD_VIRTUAL_KEYBOARD: &'static str = "keyd virtual keyboard";

/// How far a release has come.
#[derive(Debug, Clone, Copy, PartialEq, Eq)]
pub enum ReleasePhase {
    Idle,
    /// F24 is up; a restored Alt may still come until the deadline.
    Settling { deadline: u64 },
    /// Alt was restored and is still down.
    WaitingForAltUp,
}

/// State for the modifier-free F24 hotkey.
#[derive(Debug, Clone, Copy, PartialEq, Eq)]
pub struct HotkeyState {
    f24_pressed: bool,
    recording: bool,
    cooldown_until: Option<u64>,
    release_phase: ReleasePhase,
}

/// What a [`HotkeyState`] holds.
pub struct HotkeyView {
    pub f24_pressed: bool,
    pub recording: bool,
    pub cooldown_until: Option<u64>,
    pub release_phase: ReleasePhase,
}

impl View for HotkeyState {
    type V = HotkeyView;

    closed spec fn view(&self) -> HotkeyView {
        HotkeyView {
            f24_pressed: self.f24_pressed,
            recording: self.recording,
            cooldown_until: self.cooldown_until,
            release_phase: self.release_phase,
        }
    }
}

impl HotkeyView {
    /// Nothing is pressed and nothing is going on.
    pub open spec fn initial() -> HotkeyView {
        HotkeyView {
            f24_pressed: false,
            recording: false,
            cooldown_until: None,
            release_phase: ReleasePhase::Idle,
        }
    }

    /// A recording lasts only while F24 is held.
    pub open spec fn valid(self) -> bool {
        self.recording ==> self.f24_pressed
    }

    /// Whether F24 is ignored at this time.
    pub open spec fn cooling_down(self, now: u64) -> bool {
        self.cooldown_until matches Some(until) && now < until
    }

    /// The state after a key transition, and the event that it causes. Repeats
    /// and duplicate transitions change nothing.
    pub open spec fn processed(self, event: RawEvent, now: u64) -> (
        HotkeyView,
        Option<HotkeyEvent>,
    ) {
        match event {
            RawEvent::F24Down => if self.f24_pressed {
                (self, None)
            } else if self.recording || self.cooling_down(now) {
                (HotkeyView { f24_pressed: true, ..self }, None)
            } else {
                (
                    HotkeyView {
                        f24_pressed: true,
                        recording: true,
                        cooldown_until: None,
                        ..self
                    },
                    Some(HotkeyEvent::Press),
                )
            },
            RawEvent::F24Up => if !self.f24_pressed {
                (self, None)
            } else if !self.recording {
                (HotkeyView { f24_pressed: false, ..self }, None)
            } else {
                (
                    HotkeyView {
                        f24_pressed: false,
                        recording: false,
                        cooldown_until: Some((now + COOLDOWN_DURATION) as u64),
                        release_phase: ReleasePhase::Settling {
                            deadline: (now + ALT_RESTORE_SETTLE_DURATION) as u64,
                        },
                    },
                    Some(HotkeyEvent::ReleaseStarted),
                )
            },
            RawEvent::KeydLeftAltDown => if self.release_phase is Settling {
                (HotkeyView { release_phase: ReleasePhase::WaitingForAltUp, ..self }, None)
            } else {
                (self, None)
            },
            RawEvent::KeydLeftAltUp => if self.release_phase is WaitingForAltUp {
                (
                    HotkeyView { release_phase: ReleasePhase::Idle, ..self },
                    Some(HotkeyEvent::ReleaseCompleted),
                )
            } else {
                (self, None)
            },
        }
    }

    /// The state after looking at the clock, and the event that it causes: a
    /// release is complete when no restored Alt arrived before the deadline.
    pub open spec fn settled(self, now: u64) -> (HotkeyView, Option<HotkeyEvent>) {
        match self.release_phase {
            ReleasePhase::Settling { deadline } => if now < deadline {
                (self, None)
            } else {
                (
                    HotkeyView { release_phase: ReleasePhase::Idle, ..self },
                    Some(HotkeyEvent::ReleaseCompleted),
                )
            },
            _ => (self, None),
        }
    }

    /// Whether the clock leaves room for the deadlines that this event sets.
    pub open spec fn clock_suffices(self, event: RawEvent, now: u64) -> bool {
        event is F24Up && self.f24_pressed && self.recording ==> now + COOLDOWN_DURATION
            <= u64::MAX
    }
}

impl Default for HotkeyState {
    fn default() -> (res: Self)
        ensures
            res@ == HotkeyView::initial(),
    {
        HotkeyState {
            f24_pressed: false,
            recording: false,
            cooldown_until: None,
            release_phase: ReleasePhase::Idle,
        }
    }
}

/// What the state machine waits for besides key transitions.
#[derive(Debug, Clone, Copy, PartialEq, Eq)]
pub enum HotkeyInput {
    /// A key transition.
    Raw(RawEvent),
    /// The deadline of a settling release has come.
    Deadline,
    /// There will be no more key transitions.
    ChannelClosed,
    /// The daemon shuts down.
    Shutdown,
}

/// What the caller does after an input.
#[derive(Debug, Clone, Copy, PartialEq, Eq)]
pub enum HotkeyStep {
    /// Pass the event on, if there is one, and wait for the next input.
    Continue(Option<HotkeyEvent>),
    /// Stop.
    Exit,
}

impl HotkeyState {
    /// Processes an event, ignoring repeats and duplicate transitions.
    pub fn process(&mut self, event: RawEvent, now: u64) -> (res: Option<HotkeyEvent>)
        requires
            old(self)@.clock_suffices(event, now),
        ensures
            (final(self)@, res) == old(self)@.processed(event, now),
    {
        match event {
            RawEvent::F24Down => {
                if self.f24_pressed {
                    return None;
                }
                self.f24_pressed = true;
                let cooling_down = match self.cooldown_until {
                    Some(until) => now < until,
                    None => false,
                };
                if self.recording || cooling_down {
                    None
                } else {
                    self.recording = true;
                    self.cooldown_until = None;
                    Some(HotkeyEvent::Press)
                }
            },
            RawEvent::F24Up => {
                if !self.f24_pressed {
                    return None;
                }
                self.f24_pressed = false;
                if self.recording {
                    self.recording = false;
                    self.cooldown_until = Some(now + COOLDOWN_DURATION);
                    self.release_phase = ReleasePhase::Settling {
                        deadline: now + ALT_RESTORE_SETTLE_DURATION,
                    };
                    Some(HotkeyEvent::ReleaseStarted)
                } else {
                    None
                }
            },
            RawEvent::KeydLeftAltDown => {
                if matches!(self.release_phase, ReleasePhase::Settling { .. }) {
                    self.release_phase = ReleasePhase::WaitingForAltUp;
                }
                None
            },
            RawEvent::KeydLeftAltUp => {
                if matches!(self.release_phase, ReleasePhase::WaitingForAltUp) {
                    self.release_phase = ReleasePhase::Idle;
                    Some(HotkeyEvent::ReleaseCompleted)
                } else {
                    None
                }
            },
        }
    }

    /// When to look at the clock again, if a release is settling.
    pub fn settle_deadline(&self) -> (res: Option<u64>)
        ensures
            res == match self@.release_phase {
                ReleasePhase::Settling { deadline } => Some(deadline),
                _ => None,
            },
    {
        match self.release_phase {
            ReleasePhase::Settling { deadline } => Some(deadline),
            ReleasePhase::Idle | ReleasePhase::WaitingForAltUp => None,
        }
    }

    /// Completes a release only when no restored Alt arrived during settling.
    pub fn settle(&mut self, now: u64) -> (res: Option<HotkeyEvent>)
        ensures
            (final(self)@, res) == old(self)@.settled(now),
    {
        match self.release_phase {
            ReleasePhase::Settling { deadline } => {
                if now < deadline {
                    return None;
                }
                self.release_phase = ReleasePhase::Idle;
                Some(HotkeyEvent::ReleaseCompleted)
            },
            ReleasePhase::Idle | ReleasePhase::WaitingForAltUp => None,
        }
    }

    /// Handles one input of the state machine.
    pub fn step(&mut self, input: HotkeyInput, now: u64) -> (res: HotkeyStep)
        requires
            input matches HotkeyInput::Raw(event) ==> old(self)@.clock_suffices(event, now),
        ensures
            match input {
                HotkeyInput::Raw(event) => {
                    &&& final(self)@ == old(self)@.processed(event, now).0
                    &&& res == HotkeyStep::Continue(old(self)@.processed(event, now).1)
                },
                HotkeyInput::Deadline => {
                    &&& final(self)@ == old(self)@.settled(now).0
                    &&& res == HotkeyStep::Continue(old(self)@.settled(now).1)
                },
                HotkeyInput::ChannelClosed | HotkeyInput::Shutdown => {
                    &&& final(self)@ == old(self)@
                    &&& res == HotkeyStep::Exit
                },
            },
    {
        match input {
            HotkeyInput::Raw(event) => HotkeyStep::Continue(self.process(event, now)),
            HotkeyInput::Deadline => HotkeyStep::Continue(self.settle(now)),
            HotkeyInput::ChannelClosed | HotkeyInput::Shutdown => HotkeyStep::Exit,
        }
    }
}

/// How waiting for a release to start ended.
#[derive(Debug, Clone, Copy, PartialEq, Eq)]
pub enum ReleaseStart {
    Started,
    ChannelClosed,
}

/// Whether an event starts the release of the active recording. Events that do
/// not belong to it are ignored; no event means that there will be none any more.
pub fn wait_for_release_started(event: Option<HotkeyEvent>) -> (res: Option<ReleaseStart>)
    ensures
        res == (match event {
            Some(HotkeyEvent::ReleaseStarted) => Some(ReleaseStart::Started),
            Some(_) => None,
            None => Some(ReleaseStart::ChannelClosed),
        }),
{
    match event {
        Some(HotkeyEvent::ReleaseStarted) => Some(ReleaseStart::Started),
        Some(HotkeyEvent::Press) | Some(HotkeyEvent::ReleaseCompleted) => None,
        None => Some(ReleaseStart::ChannelClosed),
    }
}

/// Whether an event completes a release: keyd's possible restored Alt has been
/// released. That there will be no event any more is unsafe: callers must not
/// perform keyboard cleanup or delivery.
pub fn wait_for_release_completion(event: Option<HotkeyEvent>) -> (res: Option<bool>)
    ensures
        res == (match event {
            Some(HotkeyEvent::ReleaseCompleted) => Some(true),
            Some(_) => None,
            None => Some(false),
        }),
{
    match event {
        Some(HotkeyEvent::ReleaseCompleted) => Some(true),
        Some(HotkeyEvent::Press) | Some(HotkeyEvent::ReleaseStarted) => None,
        None => Some(false),
    }
}

/// What a daemon without an active recording does about a hotkey event.
#[derive(Debug, Clone, Copy, PartialEq, Eq)]
pub enum IdleStep {
    BeginPress,
    Ignore,
    Exit,
}

/// Decides what a daemon without an active recording does: a press begins one,
/// releases without a press are ignored, and without any more events the daemon
/// exits.
pub fn idle_step(event: Option<HotkeyEvent>) -> (res: IdleStep)
    ensures
        res == (match event {
            Some(HotkeyEvent::Press) => IdleStep::BeginPress,
            Some(_) => IdleStep::Ignore,
            None => IdleStep::Exit,
        }),
{
    match event {
        Some(HotkeyEvent::Press) => IdleStep::BeginPress,
        Some(HotkeyEvent::ReleaseStarted) | Some(HotkeyEvent::ReleaseCompleted) =>
            IdleStep::Ignore,
        None => IdleStep::Exit,
    }
}

/// The transition that a key event stands for: F24 on any keyboard, and the left
/// Alt key only on keyd's own. Key repeats stand for none.
pub open spec fn transition(key: u16, value: i32, is_keyd_virtual_keyboard: bool) -> Option<
    RawEvent,
> {
    if key == KEY_F24 && value == 1 {
        Some(RawEvent::F24Down)
    } else if key == KEY_F24 && value == 0 {
        Some(RawEvent::F24Up)
    } else if key == KEY_LEFTALT && value == 1 && is_keyd_virtual_keyboard {
        Some(RawEvent::KeydLeftAltDown)
    } else if key == KEY_LEFTALT && value == 0 && is_keyd_virtual_keyboard {
        Some(RawEvent::KeydLeftAltUp)
    } else {
        None
    }
}

/// Converts non-repeat F24 transitions from all readers and LeftAlt transitions
/// only from the authoritative keyd virtual keyboard.
pub fn raw_event(key: u16, value: i32, is_keyd_virtual_keyboard: bool) -> (res: Option<RawEvent>)
    ensures
        res == transition(key, value, is_keyd_virtual_keyboard),
{
    if key == KEY_F24 {
        match value {
            1 => Some(RawEvent::F24Down),
            0 => Some(RawEvent::F24Up),
            _ => None,
        }
    } else if key == KEY_LEFTALT && is_keyd_virtual_keyboard {
        match value {
            1 => Some(RawEvent::KeydLeftAltDown),
            0 => Some(RawEvent::KeydLeftAltUp),
            _ => None,
        }
    } else {
        None
    }
}

/// An input event of a keyboard: the key code and value of a key event, or
/// something that is not a key.
#[derive(Debug, Clone, Copy, PartialEq, Eq)]
pub enum InputEvent {
    Key { code: u16, value: i32 },
    Other,
}

/// What came of asking a keyboard for its events.
#[derive(Debug, Clone, PartialEq, Eq)]
pub enum ReadResult {
    Events(Vec<InputEvent>),
    /// Nothing has happened.
    WouldBlock,
    /// The keyboard is gone.
    Failed,
}

/// What the reader of a keyboard does next.
#[derive(Debug, Clone, PartialEq, Eq)]
pub enum ReaderStep {
    /// Pass these transitions on, rest for five milliseconds and ask again.
    Send(Vec<RawEvent>),
    /// Stop reading this keyboard.
    Stop,
}

/// The transitions among the first `count` events.
pub open spec fn transitions(
    events: Seq<InputEvent>,
    is_keyd_virtual_keyboard: bool,
    count: nat,
) -> Seq<RawEvent>
    decreases count,
{
    if count == 0 {
        Seq::empty()
    } else {
        let before = transitions(events, is_keyd_virtual_keyboard, (count - 1) as nat);
        match events[count - 1] {
            InputEvent::Key { code, value } => match transition(
                code,
                value,
                is_keyd_virtual_keyboard,
            ) {
                Some(event) => before.push(event),
                None => before,
            },
            InputEvent::Other => before,
        }
    }
}

/// Decides what the reader of a keyboard does with what it read.
pub fn read_keyboard_events(result: &ReadResult, is_keyd_virtual_keyboard: bool) -> (res:
    ReaderStep)
    ensures
        match *result {
            ReadResult::Events(events) => res matches ReaderStep::Send(sent) && sent@
                == transitions(events@, is_keyd_virtual_keyboard, events@.len()),
            ReadResult::WouldBlock => res matches ReaderStep::Send(sent) && sent@.len() == 0,
            ReadResult::Failed => res is Stop,
        },
{
    match result {
        ReadResult::Events(events) => {
            let mut sent: Vec<RawEvent> = Vec::new();
            let mut i: usize = 0;
            while i < events.len()
                invariant
                    i <= events@.len(),
                    sent@ == transitions(events@, is_keyd_virtual_keyboard, i as nat),
                decreases events@.len() - i,
            {
                if let InputEvent::Key { code, value } = events[i] {
                    if let Some(event) = raw_event(code, value, is_keyd_virtual_keyboard) {
                        sent.push(event);
                    }
                }
                i = i + 1;
            }
            ReaderStep::Send(sent)
        },
        ReadResult::WouldBlock => ReaderStep::Send(Vec::new()),
        ReadResult::Failed => ReaderStep::Stop,
    }
}

/// An input device that was found.
#[derive(Debug, Clone, PartialEq, Eq)]
pub struct DeviceInfo {
    pub path: String,
    pub name: Option<String>,
    pub supports_f24: bool,
}

/// Information about a discovered keyboard device.
#[derive(Debug, Clone, PartialEq, Eq)]
pub struct KeyboardInfo {
    pub path: String,
    /// Only this authoritative keyd output device may affect Alt safety.
    pub is_keyd_virtual_keyboard: bool,
}

/// What a [`KeyboardInfo`] says.
#[verifier::ext_equal]
pub struct KeyboardView {
    pub path: Seq<char>,
    pub is_keyd_virtual_keyboard: bool,
}

impl View for KeyboardInfo {
    type V = KeyboardView;

    open spec fn view(&self) -> KeyboardView {
        KeyboardView {
            path: self.path@,
            is_keyd_virtual_keyboard: self.is_keyd_virtual_keyboard,
        }
    }
}

/// What a list of keyboards says.
pub open spec fn keyboard_views(list: Seq<KeyboardInfo>) -> Seq<KeyboardView> {
    Seq::new(list.len(), |i: int| list[i]@)
}

/// The keyboards among the first `count` devices: those with an F24 key.
pub open spec fn keyboards_among(devices: Seq<DeviceInfo>, count: nat) -> Seq<KeyboardView>
    decreases count,
{
    if count == 0 {
        Seq::empty()
    } else {
        let before = keyboards_among(devices, (count - 1) as nat);
        let device = devices[count - 1];
        if device.supports_f24 {
            before.push(
                KeyboardView {
                    path: device.path@,
                    is_keyd_virtual_keyboard: device.name matches Some(name) && name@
                        == KEYD_VIRTUAL_KEYBOARD@,
                },
            )
        } else {
            before
        }
    }
}

/// Picks the keyboards out of all input devices: those that have an F24 key.
pub fn find_keyboards(devices: &Vec<DeviceInfo>) -> (res: Vec<KeyboardInfo>)
    ensures
        keyboard_views(res@) == keyboards_among(devices@, devices@.len()),
{
    let mut res: Vec<KeyboardInfo> = Vec::new();
    let mut i: usize = 0;
    assert(keyboard_views(res@) == Seq::<KeyboardView>::empty());
    while i < devices.len()
        invariant
            i <= devices@.len(),
            keyboard_views(res@) == keyboards_among(devices@, i as nat),
        decreases devices@.len() - i,
    {
        let ghost before = keyboard_views(res@);
        let device = &devices[i];
        if device.supports_f24 {
            let is_keyd_virtual_keyboard = match &device.name {
                Some(name) => text::same_text(name.as_str(), KEYD_VIRTUAL_KEYBOARD),
                None => false,
            };
            let found = KeyboardInfo { path: device.path.clone(), is_keyd_virtual_keyboard };
            res.push(found);
            assert(keyboard_views(res@) == before.push(found@));
        }
        i = i + 1;
    }
    res
}

/// What to do about the readers after a scan.
#[derive(Debug, Clone, PartialEq, Eq)]
pub struct ReaderPlan {
    /// Keyboards that get a reader.
    pub start: Vec<KeyboardInfo>,
    /// Paths whose reader is forgotten, as the keyboard is gone.
    pub forget: Vec<String>,
}

/// The paths of keyboards.
pub open spec fn paths_of(list: Seq<KeyboardView>) -> Seq<Seq<char>> {
    Seq::new(list.len(), |i: int| list[i].path)
}

/// The keyboards among the first `count` that have no reader yet, each path once.
pub open spec fn new_among(
    active: Seq<Seq<char>>,
    found: Seq<KeyboardView>,
    count: nat,
) -> Seq<KeyboardView>
    decreases count,
{
    if count == 0 {
        Seq::empty()
    } else {
        let before = new_among(active, found, (count - 1) as nat);
        let keyboard = found[count - 1];
        if active.contains(keyboard.path) || paths_of(before).contains(keyboard.path) {
            before
        } else {
            before.push(keyboard)
        }
    }
}

/// The first `count` active paths whose keyboard was not found.
pub open spec fn gone_among(
    active: Seq<Seq<char>>,
    found: Seq<KeyboardView>,
    count: nat,
) -> Seq<Seq<char>>
    decreases count,
{
    if count == 0 {
        Seq::empty()
    } else {
        let before = gone_among(active, found, (count - 1) as nat);
        if paths_of(found).contains(active[count - 1]) {
            before
        } else {
            before.push(active[count - 1])
        }
    }
}

fn has_path(list: &Vec<KeyboardInfo>, path: &String) -> (res: bool)
    ensures
        res == paths_of(keyboard_views(list@)).contains(path@),
{
    let ghost paths = paths_of(keyboard_views(list@));
    let mut i: usize = 0;
    while i < list.len()
        invariant
            i <= list@.len(),
            paths == paths_of(keyboard_views(list@)),
            forall|j: int| 0 <= j < i ==> #[trigger] paths[j] != path@,
        decreases list@.len() - i,
    {
        assert(paths[i as int] == list@[i as int].path@);
        if list[i].path == *path {
            return true;
        }
        i = i + 1;
    }
    false
}

fn contains_path(list: &Vec<String>, path: &String) -> (res: bool)
    ensures
        res == text::views(list@).contains(path@),
{
    let ghost paths = text::views(list@);
    let mut i: usize = 0;
    while i < list.len()
        invariant
            i <= list@.len(),
            paths == text::views(list@),
            forall|j: int| 0 <= j < i ==> #[trigger] paths[j] != path@,
        decreases list@.len() - i,
    {
        assert(paths[i as int] == list@[i as int]@);
        if list[i] == *path {
            return true;
        }
        i = i + 1;
    }
    false
}

/// Compares the paths that have a running reader with the keyboards of a scan.
pub fn plan_readers(active: &Vec<String>, found: &Vec<KeyboardInfo>) -> (res: ReaderPlan)
    ensures
        keyboard_views(res.start@) == new_among(
            text::views(active@),
            keyboard_views(found@),
            found@.len(),
        ),
        text::views(res.forget@) == gone_among(
            text::views(active@),
            keyboard_views(found@),
            active@.len(),
        ),
{
    let ghost paths = text::views(active@);
    let ghost keyboards = keyboard_views(found@);
    let mut start: Vec<KeyboardInfo> = Vec::new();
    let mut i: usize = 0;
    assert(keyboard_views(start@) == Seq::<KeyboardView>::empty());
    while i < found.len()
        invariant
            i <= found@.len(),
            paths == text::views(active@),
            keyboards == keyboard_views(found@),
            keyboard_views(start@) == new_among(paths, keyboards, i as nat),
        decreases found@.len() - i,
    {
        let ghost before = keyboard_views(start@);
        let keyboard = &found[i];
        assert(keyboards[i as int] == keyboard@);
        if !contains_path(active, &keyboard.path) && !has_path(&start, &keyboard.path) {
            let added = KeyboardInfo {
                path: keyboard.path.clone(),
                is_keyd_virtual_keyboard: keyboard.is_keyd_virtual_keyboard,
            };
            start.push(added);
            assert(keyboard_views(start@) == before.push(keyboard@));
        }
        i = i + 1;
    }
    let mut forget: Vec<String> = Vec::new();
    let mut k: usize = 0;
    assert(text::views(forget@) == Seq::<Seq<char>>::empty());
    while k < active.len()
        invariant
            k <= active@.len(),
            paths == text::views(active@),
            keyboards == keyboard_views(found@),
            text::views(forget@) == gone_among(paths, keyboards, k as nat),
        decreases active@.len() - k,
    {
        let ghost before = text::views(forget@);
        assert(paths[k as int] == active@[k as int]@);
        if !has_path(found, &active[k]) {
            forget.push(active[k].clone());
            assert(text::views(forget@) == before.push(paths[k as int]));
        }
        k = k + 1;
    }
    ReaderPlan { start, forget }
}

/// A recording lasts only while F24 is held: this is true at first, and every
/// input keeps it so.
pub proof fn law_recording_only_while_held(state: HotkeyView, event: RawEvent, now: u64)
    ensures
        HotkeyView::initial().valid(),
        state.valid() ==> state.processed(event, now).0.valid(),
        state.valid() ==> state.settled(now).0.valid(),
{
}

/// A transition that is seen twice counts once: the second changes nothing and
/// causes no event.
pub proof fn law_mirrored_transitions_count_once(
    state: HotkeyView,
    event: RawEvent,
    now: u64,
    later: u64,
)
    ensures
        ({
            let once = state.processed(event, now).0;
            once.processed(event, later) == (once, None::<HotkeyEvent>)
        }),
{
}

/// Press and release alternate: a press starts a recording that was not going
/// on, and a release ends one that was.
pub proof fn law_press_and_release_alternate(state: HotkeyView, event: RawEvent, now: u64)
    ensures
        ({
            let (next, emitted) = state.processed(event, now);
            &&& emitted == Some(HotkeyEvent::Press) ==> !state.recording && next.recording
            &&& emitted == Some(HotkeyEvent::ReleaseStarted) ==> state.recording
                && !next.recording
            &&& next.recording != state.recording ==> emitted is Some
        }),
{
}

/// For 200 milliseconds after a release F24 causes no press; from then on it
/// does.
pub proof fn law_cooldown_suppresses_presses(state: HotkeyView, released: u64, now: u64)
    requires
        released + COOLDOWN_DURATION <= u64::MAX,
        state.processed(RawEvent::F24Up, released).1 == Some(HotkeyEvent::ReleaseStarted),
    ensures
        ({
            let after = state.processed(RawEvent::F24Up, released).0;
            after.processed(RawEvent::F24Down, now).1 == (if now < released + COOLDOWN_DURATION {
                None
            } else {
                Some(HotkeyEvent::Press)
            })
        }),
{
}

/// An Alt that was restored keeps a release open for as long as it is held: the
/// clock alone never completes it, and letting go of Alt does.
pub proof fn law_restored_alt_holds_the_release_open(
    state: HotkeyView,
    restored: u64,
    now: u64,
)
    requires
        state.release_phase is Settling,
    ensures
        ({
            let held = state.processed(RawEvent::KeydLeftAltDown, restored).0;
            &&& held.settled(now) == (held, None::<HotkeyEvent>)
            &&& held.processed(RawEvent::KeydLeftAltUp, now).1 == Some(
                HotkeyEvent::ReleaseCompleted,
            )
        }),
{
}

/// A release is reported as complete only while one is open, and then none is
/// open any more, so no release is reported twice.
pub proof fn law_releases_complete_once(state: HotkeyView, event: RawEvent, now: u64)
    ensures
        state.processed(event, now).1 == Some(HotkeyEvent::ReleaseCompleted)
            ==> state.release_phase is WaitingForAltUp && state.processed(
            event,
            now,
        ).0.release_phase is Idle,
        state.settled(now).1 is Some ==> state.release_phase is Settling && state.settled(
            now,
        ).0.release_phase is Idle,
{
}

proof fn lemma_new_among(active: Seq<Seq<char>>, found: Seq<KeyboardView>, count: nat)
    requires
        count <= found.len(),
    ensures
        paths_of(new_among(active, found, count)).no_duplicates(),
        forall|path: Seq<char>|
            #[trigger] paths_of(new_among(active, found, count)).contains(path)
                <==> !active.contains(path) && paths_of(found.take(count as int)).contains(path),
    decreases count,
{
    let now = new_among(active, found, count);
    if count == 0 {
        assert(paths_of(now).len() == 0);
        assert(paths_of(found.take(0)).len() == 0);
    } else {
        let less = (count - 1) as nat;
        let before = new_among(active, found, less);
        let last = found[count - 1].path;
        lemma_new_among(active, found, less);
        assert(paths_of(found.take(count as int)) == paths_of(found.take(less as int)).push(last));
        let seen = paths_of(found.take(less as int));
        assert forall|path: Seq<char>| #[trigger]
            seen.push(last).contains(path) <==> seen.contains(path) || path == last by {
            if seen.contains(path) {
                let i = choose|i: int| 0 <= i < seen.len() && seen[i] == path;
                assert(seen.push(last)[i] == path);
            }
            if path == last {
                assert(seen.push(last)[seen.len() as int] == path);
            }
        }
        if !active.contains(last) && !paths_of(before).contains(last) {
            let old_paths = paths_of(before);
            assert(paths_of(now) == old_paths.push(last));
            assert forall|path: Seq<char>| #[trigger]
                old_paths.push(last).contains(path) <==> old_paths.contains(path) || path
                    == last by {
                if old_paths.contains(path) {
                    let i = choose|i: int| 0 <= i < old_paths.len() && old_paths[i] == path;
                    assert(old_paths.push(last)[i] == path);
                }
                if path == last {
                    assert(old_paths.push(last)[old_paths.len() as int] == path);
                }
            }
        }
    }
}

/// After a scan every keyboard that was found has exactly one reader: readers
/// are started for precisely the paths that were found and had none, each once.
pub proof fn law_every_keyboard_gets_one_reader(active: Seq<Seq<char>>, found: Seq<KeyboardView>)
    ensures
        paths_of(new_among(active, found, found.len())).no_duplicates(),
        forall|path: Seq<char>|
            #[trigger] paths_of(new_among(active, found, found.len())).contains(path)
                <==> !active.contains(path) && paths_of(found).contains(path),
{
    lemma_new_among(active, found, found.len());
    assert(found.take(found.len() as int) == found);
}

/// What pressing F24 does. Where it is not held, no recording goes on, and 200
/// milliseconds have passed since the last release, a recording begins; where it
/// is held already, nothing happens; and otherwise it only counts as held.
pub proof fn law_what_pressing_does(state: HotkeyView, now: u64)
    ensures
        ({
            let (next, emitted) = state.processed(RawEvent::F24Down, now);
            let ready = match state.cooldown_until {
                Some(until) => now >= until,
                None => true,
            };
            &&& next.f24_pressed
            &&& next.release_phase == state.release_phase
            &&& if !state.f24_pressed && !state.recording && ready {
                emitted == Some(HotkeyEvent::Press) && next.recording
                    && next.cooldown_until is None
            } else {
                emitted is None && next.recording == state.recording && next.cooldown_until
                    == state.cooldown_until
            }
        }),
{
}

/// What letting go of F24 does. Where it was held for a recording, that ends at
/// once, F24 is ignored for 200 milliseconds, and the release is complete after 20
/// milliseconds, unless Alt is restored before; otherwise F24 only counts as let
/// go of.
pub proof fn law_what_letting_go_does(state: HotkeyView, now: u64)
    requires
        now + 200_000_000 <= u64::MAX,
    ensures
        ({
            let (next, emitted) = state.processed(RawEvent::F24Up, now);
            &&& !next.f24_pressed
            &&& if state.f24_pressed && state.recording {
                &&& emitted == Some(HotkeyEvent::ReleaseStarted)
                &&& !next.recording
                &&& next.cooldown_until == Some((now + 200_000_000) as u64)
                &&& next.release_phase == (ReleasePhase::Settling {
                    deadline: (now + 20_000_000) as u64,
                })
            } else {
                &&& emitted is None
                &&& next.recording == state.recording
                &&& next.cooldown_until == state.cooldown_until
                &&& next.release_phase == state.release_phase
            }
        }),
{
}

/// What Alt and the clock do. Alt that comes down while a release settles holds it
/// open, and Alt that goes up then completes it; at any other time Alt changes
/// nothing. The clock completes a release that has settled until its deadline.
pub proof fn law_how_releases_complete(state: HotkeyView, now: u64)
    ensures
        state.processed(RawEvent::KeydLeftAltDown, now) == (
            HotkeyView {
                release_phase: if state.release_phase is Settling {
                    ReleasePhase::WaitingForAltUp
                } else {
                    state.release_phase
                },
                ..state
            },
            None::<HotkeyEvent>,
        ),
        state.release_phase is WaitingForAltUp ==> state.processed(RawEvent::KeydLeftAltUp, now)
            == (
            HotkeyView { release_phase: ReleasePhase::Idle, ..state },
            Some(HotkeyEvent::ReleaseCompleted),
        ),
        !(state.release_phase is WaitingForAltUp) ==> state.processed(
            RawEvent::KeydLeftAltUp,
            now,
        ) == (state, None::<HotkeyEvent>),
        state.settled(now) == (match state.release_phase {
            ReleasePhase::Settling { deadline } => if now >= deadline {
                (
                    HotkeyView { release_phase: ReleasePhase::Idle, ..state },
                    Some(HotkeyEvent::ReleaseCompleted),
                )
            } else {
                (state, None)
            },
            _ => (state, None),
        }),
{
}

/// Which key events count: key 194, which is F24, of every keyboard, and key 56,
/// which is the left Alt key, of keyd's keyboard alone; and of these only presses
/// and releases, no repeats.
pub proof fn law_which_key_events_count(key: u16, value: i32, of_keyd: bool)
    ensures
        transition(194, 1, of_keyd) == Some(RawEvent::F24Down),
        transition(194, 0, of_keyd) == Some(RawEvent::F24Up),
        transition(56, 1, true) == Some(RawEvent::KeydLeftAltDown),
        transition(56, 0, true) == Some(RawEvent::KeydLeftAltUp),
        transition(56, value, false) is None,
        value != 0 && value != 1 ==> transition(key, value, of_keyd) is None,
        key != 194 && key != 56 ==> transition(key, value, of_keyd) is None,
{
}

proof fn lemma_transitions_of_prefix(
    events: Seq<InputEvent>,
    event: InputEvent,
    of_keyd: bool,
    count: nat,
)
    requires
        count <= events.len(),
    ensures
        transitions(events.push(event), of_keyd, count) == transitions(events, of_keyd, count),
    decreases count,
{
    if count > 0 {
        lemma_transitions_of_prefix(events, event, of_keyd, (count - 1) as nat);
        assert(events.push(event)[count - 1] == events[count - 1]);
    }
}

/// A reader passes on every transition among the events that it read, in their
/// order, and nothing else.
pub proof fn law_every_transition_is_passed_on(
    events: Seq<InputEvent>,
    code: u16,
    value: i32,
    of_keyd: bool,
)
    ensures
        ({
            let before = transitions(events, of_keyd, events.len());
            let key = events.push(InputEvent::Key { code, value });
            let other = events.push(InputEvent::Other);
            &&& transitions(Seq::empty(), of_keyd, 0).len() == 0
            &&& transitions(other, of_keyd, other.len()) == before
            &&& transitions(key, of_keyd, key.len()) == (match transition(code, value, of_keyd) {
                Some(event) => before + seq![event],
                None => before,
            })
        }),
{
    lemma_transitions_of_prefix(events, InputEvent::Other, of_keyd, events.len());
    lemma_transitions_of_prefix(events, InputEvent::Key { code, value }, of_keyd, events.len());
    let before = transitions(events, of_keyd, events.len());
    if let Some(event) = transition(code, value, of_keyd) {
        assert(before.push(event) == before + seq![event]);
    }
}

proof fn lemma_keyboards_of_prefix(devices: Seq<DeviceInfo>, device: DeviceInfo, count: nat)
    requires
        count <= devices.len(),
    ensures
        keyboards_among(devices.push(device), count) == keyboards_among(devices, count),
    decreases count,
{
    if count > 0 {
        lemma_keyboards_of_prefix(devices, device, (count - 1) as nat);
        assert(devices.push(device)[count - 1] == devices[count - 1]);
    }
}

/// Every device with an F24 key is a keyboard, in the order in which the devices
/// were found, and no other is. Only a device with keyd's name is keyd's.
pub proof fn law_which_devices_are_keyboards(devices: Seq<DeviceInfo>, device: DeviceInfo)
    ensures
        ({
            let before = keyboards_among(devices, devices.len());
            let all = devices.push(device);
            let of_keyd = match device.name {
                Some(name) => name@ == "keyd virtual keyboard"@,
                None => false,
            };
            &&& keyboards_among(Seq::empty(), 0).len() == 0
            &&& !device.supports_f24 ==> keyboards_among(all, all.len()) == before
            &&& device.supports_f24 ==> keyboards_among(all, all.len()) == before + seq![
                KeyboardView { path: device.path@, is_keyd_virtual_keyboard: of_keyd },
            ]
        }),
{
    lemma_keyboards_of_prefix(devices, device, devices.len());
}

proof fn lemma_new_are_found(active: Seq<Seq<char>>, found: Seq<KeyboardView>, count: nat)
    requires
        count <= found.len(),
    ensures
        forall|i: int|
            0 <= i < new_among(active, found, count).len() ==> found.contains(
                #[trigger] new_among(active, found, count)[i],
            ),
    decreases count,
{
    if count > 0 {
        let less = (count - 1) as nat;
        lemma_new_are_found(active, found, less);
        let before = new_among(active, found, less);
        let now = new_among(active, found, count);
        assert forall|i: int| 0 <= i < now.len() implies found.contains(#[trigger] now[i]) by {
            if i < before.len() {
                assert(now[i] == before[i]);
            } else {
                assert(now[i] == found[count - 1]);
            }
        }
    }
}

proof fn lemma_gone(active: Seq<Seq<char>>, found: Seq<KeyboardView>, count: nat)
    requires
        count <= active.len(),
    ensures
        forall|path: Seq<char>|
            #[trigger] gone_among(active, found, count).contains(path) <==> active.take(
                count as int,
            ).contains(path) && !paths_of(found).contains(path),
    decreases count,
{
    let now = gone_among(active, found, count);
    if count > 0 {
        let less = (count - 1) as nat;
        lemma_gone(active, found, less);
        let before = gone_among(active, found, less);
        let last = active[count - 1];
        assert(active.take(count as int) == active.take(less as int).push(last));
        assert forall|path: Seq<char>| #[trigger] now.contains(path) <==> active.take(
            count as int,
        ).contains(path) && !paths_of(found).contains(path) by {
            let seen = active.take(less as int);
            assert(before.contains(path) <==> seen.contains(path) && !paths_of(found).contains(
                path,
            ));
            if seen.contains(path) {
                let i = choose|i: int| 0 <= i < seen.len() && seen[i] == path;
                assert(seen.push(last)[i] == path);
            }
            if path == last {
                assert(seen.push(last)[seen.len() as int] == path);
            }
            if before.contains(path) {
                let i = choose|i: int| 0 <= i < before.len() && before[i] == path;
                assert(now[i] == path);
            }
            if path == last && !paths_of(found).contains(last) {
                assert(now[before.len() as int] == path);
            }
        }
    }
}

/// Readers are started for keyboards as they were found, and exactly those readers
/// are forgotten whose keyboard was not found any more.
pub proof fn law_readers_follow_the_keyboards(active: Seq<Seq<char>>, found: Seq<KeyboardView>)
    ensures
        forall|i: int|
            0 <= i < new_among(active, found, found.len()).len() ==> found.contains(
                #[trigger] new_among(active, found, found.len())[i],
            ),
        forall|path: Seq<char>|
            #[trigger] gone_among(active, found, active.len()).contains(path) <==> active.contains(
                path,
            ) && !paths_of(found).contains(path),
{
    lemma_new_are_found(active, found, found.len());
    lemma_gone(active, found, active.len());
    assert(active.take(active.len() as int) == active);
}

/// At first nothing is held, nothing is recorded, and a press counts at once.
pub proof fn law_how_the_hotkey_begins(now: u64)
    ensures
        !HotkeyView::initial().f24_pressed,
        !HotkeyView::initial().recording,
        HotkeyView::initial().release_phase is Idle,
        HotkeyView::initial().processed(RawEvent::F24Down, now).1 == Some(HotkeyEvent::Press),
{
}

} // verus!
