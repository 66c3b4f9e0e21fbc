//! Per-application microphone privacy via PipeWire's PulseAudio compatibility
//! layer.
//!
//! Active microphone capture streams are muted while a recording runs, without
//! muting the physical source that the recording itself needs. Only streams that
//! were unmuted before are restored afterwards.

use crate::media;
use crate::muting::{self, MuteAction, MuteTarget, Muting};
use crate::text;
use vstd::hash_map::StringHashMap;
use vstd::prelude::*;

verus! {

/// The properties of a source or of a capture stream.
pub struct Properties {
    entries: StringHashMap<String>,
}

impl View for Properties {
    type V = Map<Seq<char>, Seq<char>>;

    closed spec fn view(&self) -> Map<Seq<char>, Seq<char>> {
        self.entries@.map_values(|value: String| value@)
    }
}

impl Properties {
    /// No properties.
    pub fn new() -> (res: Self)
        ensures
            res@ == Map::<Seq<char>, Seq<char>>::empty(),
    {
        let res = Properties { entries: StringHashMap::new() };
        assert(res@ == Map::<Seq<char>, Seq<char>>::empty());
        res
    }

    /// Sets a property.
    pub fn insert(&mut self, key: String, value: String)
        ensures
            final(self)@ == old(self)@.insert(key@, value@),
    {
        let ghost before = self@;
        self.entries.insert(key, value);
        assert(self@ == before.insert(key@, value@));
    }

    /// The value of a property, if it is set.
    pub fn get(&self, key: &str) -> (res: Option<&String>)
        ensures
            match res {
                Some(value) => self@.contains_key(key@) && value@ == self@[key@],
                None => !self@.contains_key(key@),
            },
    {
        self.entries.get(key)
    }
}

/// An audio source, as `pactl` lists it.
pub struct Source {
    pub index: u32,
    pub name: String,
    pub properties: Properties,
}

/// A stream that captures from a source, as `pactl` lists it.
pub struct SourceOutput {
    pub index: u32,
    pub source: u32,
    pub mute: bool,
    pub properties: Properties,
}

/// A microphone capture stream of another application.
pub type CaptureStream = MuteTarget;

/// What came of listing sources or capture streams.
pub enum Listing<T> {
    /// The list could not be had.
    Unavailable,
    /// The list could not be read.
    Malformed,
    Listed(Vec<T>),
}

/// Whether a property is set to the value, ignoring ASCII case.
pub open spec fn property_is(
    properties: Map<Seq<char>, Seq<char>>,
    key: Seq<char>,
    value: Seq<char>,
) -> bool {
    properties.contains_key(key) && text::same_ignoring_ascii_case(properties[key], value)
}

fn has_property(properties: &Properties, key: &str, value: &str) -> (res: bool)
    ensures
        res == property_is(properties@, key@, value@),
{
    match properties.get(key) {
        Some(found) => text::eq_ignoring_ascii_case(found.as_str(), value),
        None => false,
    }
}

impl Source {
    /// Whether the source hands out what an output plays.
    pub open spec fn is_monitor(self) -> bool {
        ".monitor"@.is_suffix_of(self.name@) || property_is(
            self.properties@,
            "device.class"@,
            "monitor"@,
        )
    }
}

/// Whether the source hands out what an output plays, not what a microphone
/// hears.
pub fn is_monitor_source(source: &Source) -> (res: bool)
    ensures
        res == source.is_monitor(),
{
    text::finishes_with(source.name.as_str(), ".monitor") || has_property(
        &source.properties,
        "device.class",
        "monitor",
    )
}

/// What to call the application behind a capture stream: the first of four
/// properties that is set.
pub open spec fn label_of(properties: Map<Seq<char>, Seq<char>>) -> Seq<char> {
    if properties.contains_key("application.process.binary"@) {
        properties["application.process.binary"@]
    } else if properties.contains_key("application.name"@) {
        properties["application.name"@]
    } else if properties.contains_key("media.name"@) {
        properties["media.name"@]
    } else if properties.contains_key("node.name"@) {
        properties["node.name"@]
    } else {
        "unknown app"@
    }
}

/// What to call the application behind a capture stream.
pub fn capture_stream_label(properties: &Properties) -> (res: String)
    ensures
        res@ == label_of(properties@),
{
    if let Some(value) = properties.get("application.process.binary") {
        return value.clone();
    }
    if let Some(value) = properties.get("application.name") {
        return value.clone();
    }
    if let Some(value) = properties.get("media.name") {
        return value.clone();
    }
    if let Some(value) = properties.get("node.name") {
        return value.clone();
    }
    "unknown app".to_owned()
}

/// Whether one of the sources has this index and is a monitor.
pub open spec fn monitors(sources: Seq<Source>, index: u32) -> bool {
    exists|i: int|
        0 <= i < sources.len() && (#[trigger] sources[i]).index == index
            && sources[i].is_monitor()
}

/// Whether a capture stream is to be muted: it is not muted yet, and it hears a
/// microphone.
pub open spec fn hears_microphone(sources: Seq<Source>, output: SourceOutput) -> bool {
    &&& !output.mute
    &&& !monitors(sources, output.source)
    &&& !property_is(output.properties@, "stream.capture.sink"@, "true"@)
}

/// The microphone capture streams among the first `count` streams.
pub open spec fn capturing_among(
    sources: Seq<Source>,
    outputs: Seq<SourceOutput>,
    count: nat,
) -> Seq<muting::TargetView>
    decreases count,
{
    if count == 0 {
        Seq::empty()
    } else {
        let before = capturing_among(sources, outputs, (count - 1) as nat);
        let output = outputs[count - 1];
        if hears_microphone(sources, output) {
            before.push(
                muting::TargetView { index: output.index, label: label_of(output.properties@) },
            )
        } else {
            before
        }
    }
}

fn is_monitored(sources: &Vec<Source>, index: u32) -> (res: bool)
    ensures
        res == monitors(sources@, index),
{
    let mut i: usize = 0;
    while i < sources.len()
        invariant
            i <= sources@.len(),
            forall|j: int|
                0 <= j < i ==> (#[trigger] sources@[j]).index != index
                    || !sources@[j].is_monitor(),
        decreases sources@.len() - i,
    {
        if sources[i].index == index && is_monitor_source(&sources[i]) {
            return true;
        }
        i = i + 1;
    }
    false
}

/// The unmuted streams that capture from a microphone, in the order in which
/// they were listed. Without a list of sources, the streams' own properties
/// decide.
pub fn microphone_capture_streams(
    sources: Option<&Vec<Source>>,
    outputs: &Vec<SourceOutput>,
) -> (res: Vec<CaptureStream>)
    ensures
        muting::target_views(res@) == capturing_among(
            match sources {
                Some(sources) => sources@,
                None => Seq::empty(),
            },
            outputs@,
            outputs@.len(),
        ),
{
    let ghost known = match sources {
        Some(sources) => sources@,
        None => Seq::empty(),
    };
    let mut res: Vec<CaptureStream> = Vec::new();
    let mut i: usize = 0;
    assert(muting::target_views(res@) == Seq::<muting::TargetView>::empty());
    while i < outputs.len()
        invariant
            i <= outputs@.len(),
            known == (match sources {
                Some(sources) => sources@,
                None => Seq::empty(),
            }),
            muting::target_views(res@) == capturing_among(known, outputs@, i as nat),
        decreases outputs@.len() - i,
    {
        let ghost before = muting::target_views(res@);
        let output = &outputs[i];
        let monitored = match sources {
            Some(sources) => is_monitored(sources, output.source),
            None => false,
        };
        if !output.mute && !monitored && !has_property(
            &output.properties,
            "stream.capture.sink",
            "true",
        ) {
            let stream = CaptureStream {
                index: output.index,
                label: capture_stream_label(&output.properties),
            };
            res.push(stream);
            assert(muting::target_views(res@) == before.push(stream@));
        }
        i = i + 1;
    }
    res
}

/// The labels of the streams, separated by commas.
pub open spec fn joined_labels(streams: Seq<muting::TargetView>) -> Seq<char>
    decreases streams.len(),
{
    if streams.len() == 0 {
        Seq::empty()
    } else if streams.len() == 1 {
        streams[0].label
    } else {
        joined_labels(streams.drop_last()) + ", "@ + streams.last().label
    }
}

/// The labels of the streams, for the log.
pub fn stream_labels(streams: &Vec<CaptureStream>) -> (res: String)
    ensures
        res@ == joined_labels(muting::target_views(streams@)),
{
    let ghost all = muting::target_views(streams@);
    let mut res = String::new();
    let mut i: usize = 0;
    assert(all.take(0) == Seq::<muting::TargetView>::empty());
    assert(res@ == joined_labels(all.take(0)));
    while i < streams.len()
        invariant
            i <= streams@.len(),
            all == muting::target_views(streams@),
            res@ == joined_labels(all.take(i as int)),
        decreases streams@.len() - i,
    {
        assert(all.take(i as int + 1).drop_last() == all.take(i as int));
        if i > 0 {
            res.append(", ");
        }
        res.append(streams[i].label.as_str());
        assert(res@ == joined_labels(all.take(i as int + 1)));
        i = i + 1;
    }
    assert(all.take(all.len() as int) == all);
    res
}

/// The streams to mute, given what could be listed. Where the streams cannot be
/// listed, or a list cannot be read, none is muted; where only the sources cannot
/// be listed, the streams' own properties decide.
pub open spec fn chosen(sources: Listing<Source>, outputs: Listing<SourceOutput>) -> Seq<
    muting::TargetView,
> {
    match (sources, outputs) {
        (Listing::Listed(sources), Listing::Listed(outputs)) => capturing_among(
            sources@,
            outputs@,
            outputs@.len(),
        ),
        (Listing::Unavailable, Listing::Listed(outputs)) => capturing_among(
            Seq::empty(),
            outputs@,
            outputs@.len(),
        ),
        _ => Seq::empty(),
    }
}

fn choose_streams(sources: &Listing<Source>, outputs: &Listing<SourceOutput>) -> (res: Vec<
    CaptureStream,
>)
    ensures
        muting::target_views(res@) == chosen(*sources, *outputs),
{
    match outputs {
        Listing::Listed(outputs) => match sources {
            Listing::Listed(sources) => {
                return microphone_capture_streams(Some(sources), outputs);
            },
            Listing::Unavailable => {
                return microphone_capture_streams(None, outputs);
            },
            Listing::Malformed => {},
        },
        Listing::Unavailable | Listing::Malformed => {},
    }
    let res: Vec<CaptureStream> = Vec::new();
    assert(muting::target_views(res@) == Seq::<muting::TargetView>::empty());
    res
}

/// The capture streams muted for the active recording and awaiting restoration.
#[derive(Debug, Clone, PartialEq, Eq)]
pub struct MicMuteState {
    muting: Muting,
}

impl View for MicMuteState {
    type V = muting::MutingView;

    closed spec fn view(&self) -> muting::MutingView {
        self.muting@
    }
}

impl MicMuteState {
    /// Nothing is muted.
    pub fn new() -> (res: Self)
        ensures
            res@ == muting::MutingView::initial(),
    {
        MicMuteState { muting: Muting::new() }
    }

    /// Begins to mute every currently active, unmuted microphone capture stream.
    ///
    /// This runs before the recording starts, so its own capture stream is not
    /// among them. What an interrupted recording left muted is restored first.
    pub fn mute_other_apps(&mut self) -> (res: MuteAction)
        ensures
            (final(self)@, res) == old(self)@.begin(true),
    {
        self.muting.begin(true)
    }

    /// Goes on with the sources and streams that were listed.
    pub fn listed(&mut self, sources: &Listing<Source>, outputs: &Listing<SourceOutput>) -> (res:
        MuteAction)
        ensures
            (final(self)@, res) == old(self)@.listed(chosen(*sources, *outputs)),
    {
        self.muting.listed(choose_streams(sources, outputs))
    }

    /// Goes on after a command, which succeeded or failed.
    pub fn carried_out(&mut self, succeeded: bool) -> (res: MuteAction)
        ensures
            (final(self)@, res) == old(self)@.carried_out(succeeded),
    {
        self.muting.carried_out(succeeded)
    }

    /// The streams that are muted.
    pub fn muted(&self) -> (res: &Vec<CaptureStream>)
        ensures
            muting::target_views(res@) == self@.muted,
    {
        self.muting.muted()
    }

    /// Begins to restore only the capture streams that were successfully muted by
    /// [`Self::mute_other_apps`].
    pub fn restore(&mut self) -> (res: MuteAction)
        ensures
            (final(self)@, res) == old(self)@.begin(false),
    {
        self.muting.begin(false)
    }
}

/// The arguments with which `pactl` lists sources or capture streams.
pub fn pactl_list_arguments<'a>(kind: &'a str) -> (res: Vec<&'a str>)
    ensures
        text::str_views(res@) == seq!["--format=json"@, "list"@, kind@],
{
    let res: Vec<&'a str> = vec!["--format=json", "list", kind];
    assert(text::str_views(res@) == seq!["--format=json"@, "list"@, kind@]);
    res
}

/// The arguments with which `pactl` mutes or unmutes a capture stream.
pub fn set_source_output_mute_arguments(index: u32, muted: bool) -> (res: Vec<String>)
    ensures
        text::views(res@) == seq![
            "set-source-output-mute"@,
            text::decimal(index as nat),
            media::mute_value(muted),
        ],
{
    let value = if muted {
        "1"
    } else {
        "0"
    };
    let res: Vec<String> = vec![
        "set-source-output-mute".to_owned(),
        text::format_decimal(index as u64),
        value.to_owned(),
    ];
    assert(text::views(res@) == seq![
        "set-source-output-mute"@,
        text::decimal(index as nat),
        media::mute_value(muted),
    ]);
    res
}

/// Whether a stream stands for one of the listed streams that is unmuted and
/// hears a microphone.
pub open spec fn stands_for_microphone_stream(
    sources: Seq<Source>,
    outputs: Seq<SourceOutput>,
    stream: muting::TargetView,
) -> bool {
    exists|i: int|
        0 <= i < outputs.len() && (#[trigger] outputs[i]).index == stream.index
            && hears_microphone(sources, outputs[i])
}

proof fn lemma_capturing_among(
    sources: Seq<Source>,
    outputs: Seq<SourceOutput>,
    count: nat,
    at: int,
)
    requires
        count <= outputs.len(),
        0 <= at < capturing_among(sources, outputs, count).len(),
    ensures
        stands_for_microphone_stream(
            sources,
            outputs,
            capturing_among(sources, outputs, count)[at],
        ),
    decreases count,
{
    let less = (count - 1) as nat;
    let before = capturing_among(sources, outputs, less);
    let now = capturing_among(sources, outputs, count);
    if at < before.len() {
        lemma_capturing_among(sources, outputs, less, at);
        assert(now[at] == before[at]);
    } else {
        assert(outputs[less as int].index == now[at].index);
    }
}

/// Only unmuted streams that hear a microphone are chosen: a stream that was
/// already muted, or that captures what an output plays, is never touched.
pub proof fn law_only_unmuted_microphone_streams_are_chosen(
    sources: Seq<Source>,
    outputs: Seq<SourceOutput>,
    at: int,
)
    requires
        0 <= at < capturing_among(sources, outputs, outputs.len()).len(),
    ensures
        stands_for_microphone_stream(
            sources,
            outputs,
            capturing_among(sources, outputs, outputs.len())[at],
        ),
{
    lemma_capturing_among(sources, outputs, outputs.len(), at);
}

proof fn lemma_every_capturing(
    sources: Seq<Source>,
    outputs: Seq<SourceOutput>,
    count: nat,
    at: int,
)
    requires
        count <= outputs.len(),
        0 <= at < count,
        hears_microphone(sources, outputs[at]),
    ensures
        capturing_among(sources, outputs, count).contains(
            muting::TargetView { index: outputs[at].index, label: label_of(outputs[at].properties@) },
        ),
    decreases count,
{
    let less = (count - 1) as nat;
    let before = capturing_among(sources, outputs, less);
    let now = capturing_among(sources, outputs, count);
    let stream = muting::TargetView {
        index: outputs[at].index,
        label: label_of(outputs[at].properties@),
    };
    if at == less {
        assert(now.last() == stream);
    } else {
        lemma_every_capturing(sources, outputs, less, at);
        let k = choose|k: int| 0 <= k < before.len() && before[k] == stream;
        assert(now[k] == stream);
    }
}

/// Every unmuted stream that hears a microphone is chosen.
pub proof fn law_every_unmuted_microphone_stream_is_chosen(
    sources: Seq<Source>,
    outputs: Seq<SourceOutput>,
    at: int,
)
    requires
        0 <= at < outputs.len(),
        hears_microphone(sources, outputs[at]),
    ensures
        capturing_among(sources, outputs, outputs.len()).contains(
            muting::TargetView { index: outputs[at].index, label: label_of(outputs[at].properties@) },
        ),
{
    lemma_every_capturing(sources, outputs, outputs.len(), at);
}

proof fn lemma_capturing_of_prefix(
    sources: Seq<Source>,
    outputs: Seq<SourceOutput>,
    output: SourceOutput,
    count: nat,
)
    requires
        count <= outputs.len(),
    ensures
        capturing_among(sources, outputs.push(output), count) == capturing_among(
            sources,
            outputs,
            count,
        ),
    decreases count,
{
    if count > 0 {
        lemma_capturing_of_prefix(sources, outputs, output, (count - 1) as nat);
        assert(outputs.push(output)[count - 1] == outputs[count - 1]);
    }
}

/// Whether a source plays back an output: it is named so, or classed so in any
/// ASCII case.
pub open spec fn plays_back(source: Source) -> bool {
    ||| ".monitor"@.is_suffix_of(source.name@)
    ||| source.properties@.contains_key("device.class"@) && text::same_ignoring_ascii_case(
        source.properties@["device.class"@],
        "monitor"@,
    )
}

/// Each stream is chosen once, in the order of the list, where it is not muted,
/// does not capture from a source that plays back an output, and is not marked as
/// capturing an output. It goes by the first of its names that is set.
pub proof fn law_each_microphone_stream_is_chosen_once(
    sources: Seq<Source>,
    outputs: Seq<SourceOutput>,
    output: SourceOutput,
)
    ensures
        ({
            let before = capturing_among(sources, outputs, outputs.len());
            let all = outputs.push(output);
            let properties = output.properties@;
            let from_output = exists|i: int|
                0 <= i < sources.len() && (#[trigger] sources[i]).index == output.source
                    && plays_back(sources[i]);
            let marked = properties.contains_key("stream.capture.sink"@)
                && text::same_ignoring_ascii_case(properties["stream.capture.sink"@], "true"@);
            let label = if properties.contains_key("application.process.binary"@) {
                properties["application.process.binary"@]
            } else if properties.contains_key("application.name"@) {
                properties["application.name"@]
            } else if properties.contains_key("media.name"@) {
                properties["media.name"@]
            } else if properties.contains_key("node.name"@) {
                properties["node.name"@]
            } else {
                "unknown app"@
            };
            let chosen = !output.mute && !from_output && !marked;
            &&& capturing_among(sources, Seq::empty(), 0).len() == 0
            &&& !chosen ==> capturing_among(sources, all, all.len()) == before
            &&& chosen ==> capturing_among(sources, all, all.len()) == before + seq![
                muting::TargetView { index: output.index, label },
            ]
        }),
{
    lemma_capturing_of_prefix(sources, outputs, output, outputs.len());
    assert(forall|source: Source| plays_back(source) == #[trigger] source.is_monitor());
}

/// Where the streams cannot be had, or where either list cannot be read, none is
/// chosen; where the sources cannot be had, the streams alone decide.
pub proof fn law_what_missing_lists_lead_to(
    sources: Listing<Source>,
    outputs: Listing<SourceOutput>,
)
    ensures
        !(outputs is Listed) || sources is Malformed ==> chosen(sources, outputs).len() == 0,
        outputs matches Listing::Listed(streams) ==> {
            &&& sources is Unavailable ==> chosen(sources, outputs) == capturing_among(
                Seq::empty(),
                streams@,
                streams@.len(),
            )
            &&& sources matches Listing::Listed(listed) ==> chosen(sources, outputs)
                == capturing_among(listed@, streams@, streams@.len())
        },
{
}

} // verus!
