//! Captured audio: the WAV container, the peak amplitude, and how a recording
//! is started, fanned out and stopped.
//!
//! Audio is raw PCM at 16 kHz, mono, 16-bit signed little-endian; a WAV file is
//! a 44-byte header followed by that data.

use crate::text;
use vstd::prelude::*;

verus! {

/// Threshold below which a recording is considered silent.
///
/// 16-bit PCM ranges ±32767. A peak below 50 indicates the microphone
/// is either muted, capturing the wrong source, or not producing signal.
pub const SILENCE_THRESHOLD: i16 = 50;

/// The bytes of audio in one second.
pub const BYTES_PER_SECOND: usize = 32000;

/// The length of a WAV header.
pub const WAV_HEADER_BYTES: usize = 44;

/// The shortest WAV file worth transcribing: one of a twentieth of a second.
pub const MIN_WAV_BYTES: usize = 1644;

/// Captured audio as WAV bytes (16kHz, mono, 16-bit PCM).
#[derive(Debug, Clone, PartialEq, Eq)]
pub struct AudioRecording {
    /// Complete WAV file bytes (44-byte header + PCM data).
    pub data: Vec<u8>,
    /// Number of PCM bytes, 32,000 of which are one second.
    pub pcm_bytes: usize,
    /// Maximum absolute sample amplitude (0..32767). Used to detect silence.
    pub peak_amplitude: i16,
}

/// The `count` lowest bytes of `n`, least significant first.
pub open spec fn le_bytes(n: nat, count: nat) -> Seq<u8>
    decreases count,
{
    if count == 0 {
        Seq::empty()
    } else {
        seq![(n % 256) as u8] + le_bytes(n / 256, (count - 1) as nat)
    }
}

/// The number that bytes encode, least significant first.
pub open spec fn from_le(bytes: Seq<u8>) -> nat
    decreases bytes.len(),
{
    if bytes.len() == 0 {
        0
    } else {
        bytes[0] as nat + 256 * from_le(bytes.drop_first())
    }
}

/// The header of a WAV file with so many bytes of audio: 16 kHz, mono, 16-bit PCM.
pub open spec fn wav_header(data_size: nat) -> Seq<u8> {
    seq![0x52u8, 0x49, 0x46, 0x46] + le_bytes(36 + data_size, 4)  // RIFF, file size less 8
     + seq![0x57u8, 0x41, 0x56, 0x45]  // WAVE
     + seq![0x66u8, 0x6d, 0x74, 0x20]  // "fmt "
     + le_bytes(16, 4)  // sub-chunk size
     + le_bytes(1, 2)  // PCM
     + le_bytes(1, 2)  // mono
     + le_bytes(16000, 4)  // sample rate
     + le_bytes(32000, 4)  // byte rate
     + le_bytes(2, 2)  // block align
     + le_bytes(16, 2)  // bits per sample
     + seq![0x64u8, 0x61, 0x74, 0x61] + le_bytes(data_size, 4)  // data, its size

}

/// The size that a WAV header can record for so many bytes of audio.
pub open spec fn recorded_size(len: nat) -> nat {
    len % 0x1_0000_0000
}

/// The WAV file for raw audio.
pub open spec fn wav_file(pcm: Seq<u8>) -> Seq<u8> {
    wav_header(recorded_size(pcm.len())) + pcm
}

/// The sample that two bytes encode.
pub open spec fn sample_of(low: u8, high: u8) -> int {
    let value = low as int + 256 * (high as int);
    if value < 0x8000 {
        value
    } else {
        value - 0x1_0000
    }
}

/// The absolute value of a sample, as far as 16 bits can hold it.
pub open spec fn amplitude(sample: int) -> int {
    if sample == -0x8000 {
        0x7fff
    } else if sample < 0 {
        -sample
    } else {
        sample
    }
}

/// The number of whole samples in raw audio; an odd last byte is none.
pub open spec fn sample_count(pcm: Seq<u8>) -> nat {
    (pcm.len() / 2) as nat
}

/// The amplitude of the sample at `index`.
pub open spec fn amplitude_at(pcm: Seq<u8>, index: int) -> int {
    amplitude(sample_of(pcm[2 * index], pcm[2 * index + 1]))
}

/// The largest amplitude among the first `count` samples, or zero.
pub open spec fn peak_of(pcm: Seq<u8>, count: nat) -> int
    decreases count,
{
    if count == 0 {
        0
    } else {
        let before = peak_of(pcm, (count - 1) as nat);
        let last = amplitude_at(pcm, count - 1);
        if last > before {
            last
        } else {
            before
        }
    }
}

/// The largest amplitude in raw audio.
pub open spec fn peak(pcm: Seq<u8>) -> int {
    peak_of(pcm, sample_count(pcm))
}

/// Appends the `count` lowest bytes of `value`, least significant first.
fn push_le(bytes: &mut Vec<u8>, value: u32, count: usize)
    requires
        count <= 4,
    ensures
        final(bytes)@ == old(bytes)@ + le_bytes(value as nat, count as nat),
{
    let ghost start = bytes@;
    let mut rest: u32 = value;
    let mut i: usize = 0;
    assert(start + le_bytes(value as nat, count as nat) == bytes@ + le_bytes(
        rest as nat,
        (count - i) as nat,
    ));
    while i < count
        invariant
            i <= count,
            start + le_bytes(value as nat, count as nat) == bytes@ + le_bytes(
                rest as nat,
                (count - i) as nat,
            ),
        decreases count - i,
    {
        let ghost before = bytes@;
        let ghost tail = le_bytes((rest / 256) as nat, (count - i - 1) as nat);
        bytes.push((rest % 256) as u8);
        assert(before + (seq![(rest as nat % 256) as u8] + tail) == bytes@ + tail);
        rest = rest / 256;
        i = i + 1;
    }
    assert(le_bytes(rest as nat, 0) == Seq::<u8>::empty());
    assert(bytes@ + Seq::<u8>::empty() == bytes@);
}

/// Build a standard WAV file from raw 16-bit signed little-endian PCM data.
///
/// Produces a 44-byte RIFF WAV header followed by the raw PCM payload.
/// Format: 16kHz, mono, 16-bit PCM.
pub fn build_wav(pcm: &[u8]) -> (res: Vec<u8>)
    requires
        recorded_size(pcm@.len()) + 36 <= u32::MAX,
    ensures
        res@ == wav_file(pcm@),
{
    let size: u64 = pcm.len() as u64 % 0x1_0000_0000;
    let data_size: u32 = size as u32;
    let mut wav: Vec<u8> = vec![0x52u8, 0x49, 0x46, 0x46];
    push_le(&mut wav, 36 + data_size, 4);
    push_tag(&mut wav, 0x57, 0x41, 0x56, 0x45);
    push_tag(&mut wav, 0x66, 0x6d, 0x74, 0x20);
    push_le(&mut wav, 16, 4);
    push_le(&mut wav, 1, 2);
    push_le(&mut wav, 1, 2);
    push_le(&mut wav, 16000, 4);
    push_le(&mut wav, 32000, 4);
    push_le(&mut wav, 2, 2);
    push_le(&mut wav, 16, 2);
    push_tag(&mut wav, 0x64, 0x61, 0x74, 0x61);
    push_le(&mut wav, data_size, 4);
    assert(wav@ == wav_header(recorded_size(pcm@.len())));
    wav.extend_from_slice(pcm);
    wav
}

/// Appends a four-byte chunk name.
fn push_tag(bytes: &mut Vec<u8>, a: u8, b: u8, c: u8, d: u8)
    ensures
        final(bytes)@ == old(bytes)@ + seq![a, b, c, d],
{
    bytes.push(a);
    bytes.push(b);
    bytes.push(c);
    bytes.push(d);
    assert(bytes@ == old(bytes)@ + seq![a, b, c, d]);
}

/// Compute the maximum absolute amplitude of raw 16-bit signed little-endian PCM.
///
/// Scans every pair of bytes as a little-endian i16 and returns the largest
/// absolute value (0..32767). A value near 0 means the buffer is silent.
pub fn compute_peak_amplitude(pcm: &[u8]) -> (res: i16)
    ensures
        res == peak(pcm@),
        res >= 0,
{
    let len: usize = pcm.len();
    let count: usize = len / 2;
    let mut max: i16 = 0;
    let mut i: usize = 0;
    while i < count
        invariant
            i <= count,
            len == pcm@.len(),
            count == len / 2,
            0 <= max <= 0x7fff,
            max == peak_of(pcm@, i as nat),
        decreases count - i,
    {
        let value: i32 = pcm[2 * i] as i32 + 256 * (pcm[2 * i + 1] as i32);
        let sample: i32 = if value < 0x8000 {
            value
        } else {
            value - 0x1_0000
        };
        let size: i32 = if sample == -0x8000 {
            0x7fff
        } else if sample < 0 {
            -sample
        } else {
            sample
        };
        assert(size == amplitude_at(pcm@, i as int));
        if size > max as i32 {
            max = size as i16;
        }
        i = i + 1;
    }
    max
}

/// Check whether a recording is effectively silent based on its peak amplitude.
pub fn is_silence(peak: i16) -> (res: bool)
    ensures
        res == (peak < SILENCE_THRESHOLD),
{
    peak < SILENCE_THRESHOLD
}

/// Whether a WAV file of this length holds less than a twentieth of a second.
pub open spec fn too_short(wav_bytes: nat) -> bool {
    (wav_bytes - WAV_HEADER_BYTES) * 20 < BYTES_PER_SECOND
}

/// What a recording is good for.
#[derive(Debug, Clone, Copy, PartialEq, Eq)]
pub enum Verdict {
    /// A quick tap of the key: nothing to transcribe.
    TooShort,
    /// Long enough, but the microphone gave no signal.
    Silent,
    /// Worth transcribing.
    Usable,
}

/// What a recording with so many WAV bytes and this peak is good for.
pub open spec fn verdict(wav_bytes: nat, peak: int) -> Verdict {
    if too_short(wav_bytes) {
        Verdict::TooShort
    } else if peak < SILENCE_THRESHOLD {
        Verdict::Silent
    } else {
        Verdict::Usable
    }
}

impl AudioRecording {
    /// Whether the fields belong to the same raw audio.
    pub open spec fn records(self, pcm: Seq<u8>) -> bool {
        &&& self.data@ == wav_file(pcm)
        &&& self.pcm_bytes == pcm.len()
        &&& self.peak_amplitude == peak(pcm)
    }

    /// The recording of raw audio.
    pub fn from_pcm(pcm: &[u8]) -> (res: AudioRecording)
        requires
            recorded_size(pcm@.len()) + 36 <= u32::MAX,
        ensures
            res.records(pcm@),
    {
        AudioRecording {
            data: build_wav(pcm),
            pcm_bytes: pcm.len(),
            peak_amplitude: compute_peak_amplitude(pcm),
        }
    }

    /// What the recording is good for.
    pub fn judge(&self) -> (res: Verdict)
        ensures
            res == verdict(self.data@.len(), self.peak_amplitude as int),
    {
        if self.data.len() < MIN_WAV_BYTES {
            Verdict::TooShort
        } else if is_silence(self.peak_amplitude) {
            Verdict::Silent
        } else {
            Verdict::Usable
        }
    }
}

/// The arguments with which `pw-record` writes raw audio to its standard output,
/// from the given node or from the default one.
pub open spec fn record_command(target: Option<Seq<char>>) -> Seq<Seq<char>> {
    seq!["-a"@, "--rate"@, "16000"@, "--channels"@, "1"@, "--format"@, "s16"@, "-"@] + (
    match target {
        Some(node) => seq!["--target"@, node],
        None => Seq::empty(),
    })
}

/// The arguments with which `pw-record` records.
pub fn record_arguments<'a>(target: Option<&'a str>) -> (res: Vec<&'a str>)
    ensures
        text::str_views(res@) == record_command(
            match target {
                Some(node) => Some(node@),
                None => None,
            },
        ),
{
    let mut res: Vec<&'a str> = vec![
        "-a",
        "--rate",
        "16000",
        "--channels",
        "1",
        "--format",
        "s16",
        "-",
    ];
    if let Some(node) = target {
        res.push("--target");
        res.push(node);
    }
    assert(text::str_views(res@) == record_command(
        match target {
            Some(node) => Some(node@),
            None => None,
        },
    ));
    res
}

/// Raw audio as it is captured, with an optional consumer that gets a copy of
/// every chunk.
#[derive(Debug, Clone, PartialEq, Eq)]
pub struct PcmCapture {
    pcm: Vec<u8>,
    forwarding: bool,
}

impl PcmCapture {
    /// Everything captured so far.
    pub closed spec fn captured(self) -> Seq<u8> {
        self.pcm@
    }

    /// Whether a consumer still gets copies.
    pub closed spec fn forwards(self) -> bool {
        self.forwarding
    }

    /// An empty capture, with or without a consumer.
    pub fn new(forwarding: bool) -> (res: PcmCapture)
        ensures
            res.captured() == Seq::<u8>::empty(),
            res.forwards() == forwarding,
    {
        PcmCapture { pcm: Vec::new(), forwarding }
    }

    /// Appends a captured chunk locally and says whether to fan it out.
    pub fn fan_out_pcm_chunk(&mut self, chunk: &[u8]) -> (res: bool)
        ensures
            final(self).captured() == old(self).captured() + chunk@,
            final(self).forwards() == old(self).forwards(),
            res == old(self).forwards(),
    {
        self.pcm.extend_from_slice(chunk);
        self.forwarding
    }

    /// The consumer is gone: later chunks are only captured locally.
    pub fn receiver_dropped(&mut self)
        ensures
            final(self).captured() == old(self).captured(),
            !final(self).forwards(),
    {
        self.forwarding = false;
    }

    /// The captured audio.
    pub fn pcm(&self) -> (res: &Vec<u8>)
        ensures
            res@ == self.captured(),
    {
        &self.pcm
    }
}

/// One step of stopping the recorder, for the caller to perform.
#[derive(Debug, Clone, Copy, PartialEq, Eq)]
pub enum StopStep {
    /// Ask the recorder to end, and wait half a second for it.
    Terminate,
    /// End the recorder by force, and wait for it.
    Kill,
    /// Wait two seconds for the audio that is still on its way.
    Drain,
    /// Take the captured audio.
    Collect,
    /// The recorder could not be waited for.
    Failed,
}

/// What came of a [`StopStep`].
#[derive(Debug, Clone, Copy, PartialEq, Eq)]
pub enum StopOutcome {
    Finished,
    WaitFailed,
    TimedOut,
}

impl StopStep {
    /// The step after this one.
    pub open spec fn following(self, outcome: StopOutcome) -> StopStep {
        match (self, outcome) {
            (StopStep::Terminate, StopOutcome::Finished) => StopStep::Drain,
            (StopStep::Terminate, StopOutcome::WaitFailed) => StopStep::Failed,
            (StopStep::Terminate, StopOutcome::TimedOut) => StopStep::Kill,
            (StopStep::Kill, StopOutcome::Finished) => StopStep::Drain,
            (StopStep::Kill, _) => StopStep::Failed,
            (StopStep::Drain, _) => StopStep::Collect,
            (StopStep::Collect, _) => StopStep::Collect,
            (StopStep::Failed, _) => StopStep::Failed,
        }
    }

    /// The step after this one, given what came of it. Audio that did not arrive
    /// in time is given up; what was captured is used.
    pub fn next(self, outcome: StopOutcome) -> (res: StopStep)
        ensures
            res == self.following(outcome),
    {
        match (self, outcome) {
            (StopStep::Terminate, StopOutcome::Finished) => StopStep::Drain,
            (StopStep::Terminate, StopOutcome::WaitFailed) => StopStep::Failed,
            (StopStep::Terminate, StopOutcome::TimedOut) => StopStep::Kill,
            (StopStep::Kill, StopOutcome::Finished) => StopStep::Drain,
            (StopStep::Kill, _) => StopStep::Failed,
            (StopStep::Drain, _) => StopStep::Collect,
            (StopStep::Collect, _) => StopStep::Collect,
            (StopStep::Failed, _) => StopStep::Failed,
        }
    }
}

proof fn lemma_le_bytes_len(n: nat, count: nat)
    ensures
        le_bytes(n, count).len() == count,
    decreases count,
{
    if count > 0 {
        lemma_le_bytes_len(n / 256, (count - 1) as nat);
    }
}

proof fn lemma_from_le(n: nat, count: nat)
    requires
        n < vstd::arithmetic::power::pow(256, count),
    ensures
        from_le(le_bytes(n, count)) == n,
    decreases count,
{
    reveal(vstd::arithmetic::power::pow);
    let bytes = le_bytes(n, count);
    if count > 0 {
        let less = (count - 1) as nat;
        let scale = vstd::arithmetic::power::pow(256, less);
        assert(vstd::arithmetic::power::pow(256, count) == 256 * scale);
        assert(n / 256 < scale) by (nonlinear_arith)
            requires
                n < 256 * scale,
        ;
        lemma_from_le(n / 256, less);
        assert(bytes.drop_first() == le_bytes(n / 256, less));
    }
}

/// A WAV file is a header of 44 bytes and the audio: its length is that of the
/// audio and 44 more, and what follows the header is the audio, unchanged.
pub proof fn law_wav_holds_the_audio(pcm: Seq<u8>)
    ensures
        wav_file(pcm).len() == WAV_HEADER_BYTES + pcm.len(),
        wav_file(pcm).skip(WAV_HEADER_BYTES as int) == pcm,
{
    let size = recorded_size(pcm.len());
    lemma_le_bytes_len(36 + size, 4);
    lemma_le_bytes_len(16, 4);
    lemma_le_bytes_len(1, 2);
    lemma_le_bytes_len(16000, 4);
    lemma_le_bytes_len(32000, 4);
    lemma_le_bytes_len(2, 2);
    lemma_le_bytes_len(16, 2);
    lemma_le_bytes_len(size, 4);
    assert(wav_header(size).len() == 44);
    assert(wav_file(pcm).skip(44) == pcm);
}

/// The last four bytes of the header give the length of the audio back, as long
/// as four bytes can hold it.
pub proof fn law_wav_records_its_size(pcm: Seq<u8>)
    requires
        pcm.len() < 0x1_0000_0000,
    ensures
        from_le(wav_file(pcm).subrange(40, 44)) == pcm.len(),
{
    let size = recorded_size(pcm.len());
    assert(size == pcm.len());
    law_wav_holds_the_audio(pcm);
    lemma_le_bytes_len(size, 4);
    lemma_le_bytes_len(36 + size, 4);
    lemma_le_bytes_len(16, 4);
    lemma_le_bytes_len(1, 2);
    lemma_le_bytes_len(16000, 4);
    lemma_le_bytes_len(32000, 4);
    lemma_le_bytes_len(2, 2);
    lemma_le_bytes_len(16, 2);
    assert(wav_file(pcm).subrange(40, 44) == le_bytes(size, 4));
    assert(vstd::arithmetic::power::pow(256, 4) == 0x1_0000_0000) by {
        reveal_with_fuel(vstd::arithmetic::power::pow, 5);
    }
    lemma_from_le(size, 4);
}

proof fn lemma_peak_of(pcm: Seq<u8>, count: nat)
    requires
        count <= sample_count(pcm),
    ensures
        0 <= peak_of(pcm, count) <= 0x7fff,
        forall|i: int| 0 <= i < count ==> #[trigger] amplitude_at(pcm, i) <= peak_of(pcm, count),
        peak_of(pcm, count) == 0 || exists|i: int|
            0 <= i < count && #[trigger] amplitude_at(pcm, i) == peak_of(pcm, count),
    decreases count,
{
    if count > 0 {
        lemma_peak_of(pcm, (count - 1) as nat);
        let last = amplitude_at(pcm, count - 1);
        assert(0 <= last <= 0x7fff);
        if last <= peak_of(pcm, (count - 1) as nat) && peak_of(pcm, (count - 1) as nat) != 0 {
            let i = choose|i: int|
                0 <= i < count - 1 && #[trigger] amplitude_at(pcm, i) == peak_of(
                    pcm,
                    (count - 1) as nat,
                );
            assert(amplitude_at(pcm, i) == peak_of(pcm, count));
        }
    }
}

/// The peak is the largest amplitude: no sample exceeds it, and unless it is
/// zero some sample reaches it. It lies between 0 and 32767.
pub proof fn law_peak_is_the_largest_amplitude(pcm: Seq<u8>)
    ensures
        0 <= peak(pcm) <= 0x7fff,
        forall|i: int|
            0 <= i < sample_count(pcm) ==> #[trigger] amplitude_at(pcm, i) <= peak(pcm),
        peak(pcm) == 0 || exists|i: int|
            0 <= i < sample_count(pcm) && #[trigger] amplitude_at(pcm, i) == peak(pcm),
{
    lemma_peak_of(pcm, sample_count(pcm));
}

/// A tap shorter than a twentieth of a second is discarded whatever it holds:
/// its WAV file counts as too short.
pub proof fn law_quick_taps_are_discarded(pcm: Seq<u8>)
    ensures
        pcm.len() * 20 < BYTES_PER_SECOND <==> verdict(wav_file(pcm).len(), peak(pcm))
            == Verdict::TooShort,
{
    law_wav_holds_the_audio(pcm);
}

/// Stopping the recorder is over after at most three steps, whatever comes of
/// them, and force is used only when the recorder did not end when asked.
pub proof fn law_recorder_always_settles(first: StopOutcome, second: StopOutcome, third: StopOutcome)
    ensures
        ({
            let last = StopStep::Terminate.following(first).following(second).following(third);
            last is Collect || last is Failed
        }),
        StopStep::Terminate.following(first) is Kill <==> first is TimedOut,
{
}

proof fn lemma_read_back(n: nat)
    requires
        n < 0x1_0000_0000,
    ensures
        from_le(le_bytes(n, 4)) == n,
        n < 0x1_0000 ==> from_le(le_bytes(n, 2)) == n,
        le_bytes(n, 4).len() == 4,
        le_bytes(n, 2).len() == 2,
{
    lemma_le_bytes_len(n, 4);
    lemma_le_bytes_len(n, 2);
    assert(vstd::arithmetic::power::pow(256, 4) == 0x1_0000_0000) by {
        reveal_with_fuel(vstd::arithmetic::power::pow, 5);
    }
    assert(vstd::arithmetic::power::pow(256, 2) == 0x1_0000) by {
        reveal_with_fuel(vstd::arithmetic::power::pow, 3);
    }
    lemma_from_le(n, 4);
    if n < 0x1_0000 {
        lemma_from_le(n, 2);
    }
}

/// What the header of a WAV file says, number by number: the size of what follows,
/// one channel of 16-bit PCM at 16,000 samples a second, and the size of the audio.
pub proof fn law_what_a_wav_header_says(pcm: Seq<u8>)
    requires
        pcm.len() + 36 < 0x1_0000_0000,
    ensures
        ({
            let file = wav_file(pcm);
            &&& file.subrange(0, 4) == seq![0x52u8, 0x49, 0x46, 0x46]
            &&& from_le(file.subrange(4, 8)) == file.len() - 8
            &&& file.subrange(8, 16) == seq![
                0x57u8,
                0x41,
                0x56,
                0x45,
                0x66,
                0x6d,
                0x74,
                0x20,
            ]
            &&& from_le(file.subrange(16, 20)) == 16
            &&& from_le(file.subrange(20, 22)) == 1
            &&& from_le(file.subrange(22, 24)) == 1
            &&& from_le(file.subrange(24, 28)) == 16000
            &&& from_le(file.subrange(28, 32)) == 32000
            &&& from_le(file.subrange(32, 34)) == 2
            &&& from_le(file.subrange(34, 36)) == 16
            &&& file.subrange(36, 40) == seq![0x64u8, 0x61, 0x74, 0x61]
            &&& from_le(file.subrange(40, 44)) == pcm.len()
        }),
{
    let file = wav_file(pcm);
    let size = recorded_size(pcm.len());
    assert(size == pcm.len());
    law_wav_holds_the_audio(pcm);
    lemma_read_back(36 + size);
    lemma_read_back(16);
    lemma_read_back(1);
    lemma_read_back(16000);
    lemma_read_back(32000);
    lemma_read_back(2);
    lemma_read_back(size);
    assert(file.subrange(0, 4) == seq![0x52u8, 0x49, 0x46, 0x46]);
    assert(file.subrange(4, 8) == le_bytes(36 + size, 4));
    assert(file.subrange(8, 16) == seq![0x57u8, 0x41, 0x56, 0x45, 0x66, 0x6d, 0x74, 0x20]);
    assert(file.subrange(16, 20) == le_bytes(16, 4));
    assert(file.subrange(20, 22) == le_bytes(1, 2));
    assert(file.subrange(22, 24) == le_bytes(1, 2));
    assert(file.subrange(24, 28) == le_bytes(16000, 4));
    assert(file.subrange(28, 32) == le_bytes(32000, 4));
    assert(file.subrange(32, 34) == le_bytes(2, 2));
    assert(file.subrange(34, 36) == le_bytes(16, 2));
    assert(file.subrange(36, 40) == seq![0x64u8, 0x61, 0x74, 0x61]);
    assert(file.subrange(40, 44) == le_bytes(size, 4));
}

/// How loud the sample is whose two bytes, the low one first, stand at twice the
/// index: how far it is from zero, but at most 32767.
pub open spec fn loudness(pcm: Seq<u8>, index: int) -> int {
    let code = pcm[2 * index] as int + 256 * (pcm[2 * index + 1] as int);
    if code <= 32767 {
        code
    } else if code == 32768 {
        32767
    } else {
        65536 - code
    }
}

/// The peak is the loudness of the loudest sample, or zero where there is none; an
/// odd byte at the end is no sample.
pub proof fn law_peak_is_the_loudest_sample(pcm: Seq<u8>)
    ensures
        forall|i: int|
            0 <= i && 2 * i + 1 < pcm.len() ==> #[trigger] loudness(pcm, i) <= peak(pcm),
        peak(pcm) == 0 || exists|i: int|
            0 <= i && 2 * i + 1 < pcm.len() && #[trigger] loudness(pcm, i) == peak(pcm),
{
    law_peak_is_the_largest_amplitude(pcm);
    assert forall|i: int| 0 <= i && 2 * i + 1 < pcm.len() implies #[trigger] loudness(pcm, i)
        <= peak(pcm) by {
        assert(loudness(pcm, i) == amplitude_at(pcm, i));
    }
    if peak(pcm) != 0 {
        let i = choose|i: int|
            0 <= i < sample_count(pcm) && #[trigger] amplitude_at(pcm, i) == peak(pcm);
        assert(loudness(pcm, i) == amplitude_at(pcm, i));
    }
}

/// What a recording is good for: with fewer than 1,600 bytes of audio, which are a
/// twentieth of a second, it is too short; otherwise, with a peak below 50, it is
/// silent; and otherwise it is worth transcribing.
pub proof fn law_what_recordings_are_good_for(pcm: Seq<u8>)
    ensures
        ({
            let found = verdict(wav_file(pcm).len(), peak(pcm));
            &&& found is TooShort <==> pcm.len() < 1600
            &&& found is Silent <==> pcm.len() >= 1600 && peak(pcm) < 50
            &&& found is Usable <==> pcm.len() >= 1600 && peak(pcm) >= 50
        }),
{
    law_wav_holds_the_audio(pcm);
}

/// How audio is recorded: as one channel of 16-bit samples, 16,000 of them a second,
/// to standard output, and from the given node where there is one.
pub proof fn law_how_audio_is_recorded(node: Seq<char>)
    ensures
        record_command(None) == seq![
            "-a"@,
            "--rate"@,
            "16000"@,
            "--channels"@,
            "1"@,
            "--format"@,
            "s16"@,
            "-"@,
        ],
        record_command(Some(node)) == record_command(None) + seq!["--target"@, node],
{
    assert(record_command(None) == seq![
        "-a"@,
        "--rate"@,
        "16000"@,
        "--channels"@,
        "1"@,
        "--format"@,
        "s16"@,
        "-"@,
    ]);
    assert(record_command(Some(node)) == record_command(None) + seq!["--target"@, node]);
}

/// How the recorder is stopped, in every case: it is asked to end, by force where it
/// does not in time; then the rest of the audio is waited for, in vain or not; and
/// what was captured is taken. A recorder that cannot be waited for loses the audio.
pub proof fn law_how_the_recorder_is_stopped(outcome: StopOutcome)
    ensures
        outcome is Finished ==> StopStep::Terminate.following(outcome) is Drain,
        outcome is TimedOut ==> StopStep::Terminate.following(outcome) is Kill,
        outcome is WaitFailed ==> StopStep::Terminate.following(outcome) is Failed,
        outcome is Finished ==> StopStep::Kill.following(outcome) is Drain,
        !(outcome is Finished) ==> StopStep::Kill.following(outcome) is Failed,
        StopStep::Drain.following(outcome) is Collect,
        StopStep::Collect.following(outcome) is Collect,
        StopStep::Failed.following(outcome) is Failed,
{
}

} // verus!
