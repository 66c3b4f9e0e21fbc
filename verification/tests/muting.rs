use daapstt::media::{
    list_arguments, mute_unmuted_outputs, restore_muted_outputs, set_sink_mute_arguments,
    unmuted_sinks, OutputMuteState, Sink,
};
use daapstt::mic::{
    capture_stream_label, is_monitor_source, microphone_capture_streams, pactl_list_arguments,
    set_source_output_mute_arguments, stream_labels, CaptureStream, Listing, MicMuteState,
    Properties, Source, SourceOutput,
};
use daapstt::muting::MuteAction;

fn sink(index: u32, name: &str, description: Option<&str>, mute: bool) -> Sink {
    Sink {
        index,
        name: name.to_string(),
        description: description.map(str::to_string),
        mute,
    }
}

fn properties(entries: &[(&str, &str)]) -> Properties {
    let mut properties = Properties::new();
    for (key, value) in entries {
        properties.insert(key.to_string(), value.to_string());
    }
    properties
}

fn source(index: u32, name: &str, entries: &[(&str, &str)]) -> Source {
    Source {
        index,
        name: name.to_string(),
        properties: properties(entries),
    }
}

fn output(index: u32, source: u32, mute: bool, entries: &[(&str, &str)]) -> SourceOutput {
    SourceOutput {
        index,
        source,
        mute,
        properties: properties(entries),
    }
}

fn sources() -> Vec<Source> {
    vec![
        source(
            40,
            "alsa_output.speaker.monitor",
            &[("device.class", "monitor")],
        ),
        source(41, "alsa_input.microphone", &[("device.class", "sound")]),
    ]
}

fn outputs() -> Vec<SourceOutput> {
    vec![
        output(
            100,
            41,
            false,
            &[
                ("application.name", "WEBRTC VoiceEngine"),
                ("application.process.binary", "Discord"),
            ],
        ),
        output(101, 41, true, &[("application.name", "Already muted")]),
        output(102, 40, false, &[("application.name", "Screen audio")]),
        output(
            103,
            999,
            false,
            &[("application.name", "Cava"), ("stream.capture.sink", "true")],
        ),
    ]
}

fn stream(index: u32, label: &str) -> CaptureStream {
    CaptureStream {
        index,
        label: label.to_string(),
    }
}

#[test]
fn selects_only_unmuted_sinks_and_uses_descriptive_labels() {
    let sinks = unmuted_sinks(&vec![
        sink(42, "alsa_output.one", Some("Desk speakers"), false),
        sink(7, "alsa_output.two", None, true),
        sink(9, "bluez_output.headset", Some(""), false),
    ]);

    assert_eq!(sinks.len(), 2);
    assert_eq!(sinks[0].index, 42);
    assert_eq!(sinks[0].label, "Desk speakers");
    assert_eq!(sinks[1].index, 9);
    assert_eq!(sinks[1].label, "bluez_output.headset");
}

#[test]
fn selects_only_unmuted_microphone_capture_streams() {
    assert_eq!(
        microphone_capture_streams(Some(&sources()), &outputs()),
        [stream(100, "Discord")]
    );
}

#[test]
fn stream_metadata_still_excludes_sink_capture_without_source_list() {
    let streams = microphone_capture_streams(None, &outputs());

    assert_eq!(
        streams,
        [stream(100, "Discord"), stream(102, "Screen audio")]
    );
}

fn mute(index: u32) -> MuteAction {
    MuteAction::SetMute { index, mute: true }
}

fn unmute(index: u32) -> MuteAction {
    MuteAction::SetMute { index, mute: false }
}

#[test]
fn only_successfully_muted_sinks_are_restored() {
    let mut state = OutputMuteState::new();
    let listed = vec![
        sink(1, "one", None, false),
        sink(2, "two", None, true),
        sink(3, "three", Some("Third"), false),
        sink(4, "four", None, false),
    ];
    assert_eq!(mute_unmuted_outputs(&mut state), MuteAction::List);
    assert_eq!(state.listed(Some(listed)), mute(1));
    assert_eq!(state.carried_out(false), mute(3));
    assert_eq!(state.carried_out(true), mute(4));
    assert_eq!(state.carried_out(true), MuteAction::Done);
    assert_eq!(*state.muted(), [stream(3, "Third"), stream(4, "four")]);
    assert_eq!(restore_muted_outputs(&mut state), unmute(3));
    assert_eq!(state.carried_out(false), unmute(4));
    assert_eq!(state.carried_out(true), MuteAction::Done);
    assert_eq!(restore_muted_outputs(&mut state), MuteAction::Done);
}

#[test]
fn stale_snapshots_are_restored_first() {
    let mut state = OutputMuteState::new();
    mute_unmuted_outputs(&mut state);
    state.listed(Some(vec![sink(7, "seven", None, false)]));
    state.carried_out(true);
    assert_eq!(mute_unmuted_outputs(&mut state), unmute(7));
    assert_eq!(state.carried_out(true), MuteAction::List);
    assert_eq!(state.listed(None), MuteAction::Done);
    assert!(state.muted().is_empty());
}

#[test]
fn blank_descriptions_give_way_to_names() {
    assert_eq!(sink(1, "name", Some(" \t"), false).label(), "name");
    assert_eq!(sink(1, "name", Some(" text "), false).label(), " text ");
    assert_eq!(sink(1, "name", None, false).label(), "name");
}

#[test]
fn pactl_arguments_are_exact() {
    assert_eq!(list_arguments(), ["--format=json", "list", "sinks"]);
    assert_eq!(set_sink_mute_arguments(42, true), ["set-sink-mute", "42", "1"]);
    assert_eq!(set_sink_mute_arguments(0, false), ["set-sink-mute", "0", "0"]);
    assert_eq!(
        pactl_list_arguments("source-outputs"),
        ["--format=json", "list", "source-outputs"]
    );
    assert_eq!(
        set_source_output_mute_arguments(100, true),
        ["set-source-output-mute", "100", "1"]
    );
    assert_eq!(
        set_source_output_mute_arguments(u32::MAX, false),
        ["set-source-output-mute", "4294967295", "0"]
    );
}

#[test]
fn monitors_are_recognized_by_name_and_class() {
    assert!(is_monitor_source(&source(1, "x.monitor", &[])));
    assert!(is_monitor_source(&source(1, "x", &[("device.class", "MONITOR")])));
    assert!(!is_monitor_source(&source(1, "x.monitors", &[("device.class", "sound")])));
}

#[test]
fn labels_prefer_the_binary() {
    assert_eq!(
        capture_stream_label(&properties(&[("node.name", "node"), ("media.name", "media")])),
        "media"
    );
    assert_eq!(capture_stream_label(&properties(&[("node.name", "node")])), "node");
    assert_eq!(capture_stream_label(&properties(&[])), "unknown app");
}

#[test]
fn labels_are_joined_for_the_log() {
    assert_eq!(stream_labels(&vec![]), "");
    assert_eq!(stream_labels(&vec![stream(1, "a")]), "a");
    assert_eq!(
        stream_labels(&vec![stream(1, "a"), stream(2, "b"), stream(3, "c")]),
        "a, b, c"
    );
}

/// The first answer to these lists.
fn answer(sources: Listing<Source>, outputs: Listing<SourceOutput>) -> MuteAction {
    let mut state = MicMuteState::new();
    assert_eq!(state.mute_other_apps(), MuteAction::List);
    state.listed(&sources, &outputs)
}

#[test]
fn unreadable_lists_mute_nothing() {
    assert_eq!(
        answer(Listing::Listed(sources()), Listing::Listed(outputs())),
        mute(100)
    );
    assert_eq!(
        answer(Listing::Unavailable, Listing::Listed(outputs())),
        mute(100)
    );
    assert_eq!(
        answer(Listing::Malformed, Listing::Listed(outputs())),
        MuteAction::Done
    );
    assert_eq!(
        answer(Listing::Listed(sources()), Listing::Unavailable),
        MuteAction::Done
    );
    assert_eq!(
        answer(Listing::Listed(sources()), Listing::Malformed),
        MuteAction::Done
    );
}

#[test]
fn restored_streams_are_forgotten() {
    let mut state = MicMuteState::new();
    state.mute_other_apps();
    assert_eq!(
        state.listed(&Listing::Unavailable, &Listing::Listed(outputs())),
        mute(100)
    );
    assert_eq!(state.carried_out(true), mute(102));
    assert_eq!(state.carried_out(false), MuteAction::Done);
    assert_eq!(*state.muted(), [stream(100, "Discord")]);
    assert_eq!(state.restore(), unmute(100));
    assert_eq!(state.carried_out(true), MuteAction::Done);
    assert_eq!(state.restore(), MuteAction::Done);
}
