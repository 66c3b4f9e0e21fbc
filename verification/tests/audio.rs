use daapstt::audio::{
    build_wav, compute_peak_amplitude, is_silence, record_arguments, AudioRecording, PcmCapture,
    StopOutcome, StopStep, Verdict,
};

#[test]
fn test_fan_out_appends_locally_and_sends_chunk() {
    let mut capture = PcmCapture::new(true);
    let chunk = [1, 2, 3, 4];

    let sent = capture.fan_out_pcm_chunk(&chunk);

    assert_eq!(*capture.pcm(), chunk);
    assert!(sent);
}

#[test]
fn test_fan_out_continues_locally_after_receiver_loss() {
    let mut capture = PcmCapture::new(true);

    capture.fan_out_pcm_chunk(&[1, 2]);
    capture.receiver_dropped();
    let sent = capture.fan_out_pcm_chunk(&[3, 4]);

    assert_eq!(*capture.pcm(), [1, 2, 3, 4]);
    assert!(!sent);
}

#[test]
fn test_build_wav_header() {
    let pcm = vec![0u8; 32000]; // 1 second of silence
    let wav = build_wav(&pcm);

    // Total file should be 44 (header) + 32000 (data) bytes
    assert_eq!(wav.len(), 44 + 32000);

    // Check RIFF header
    assert_eq!(&wav[0..4], b"RIFF");
    assert_eq!(&wav[8..12], b"WAVE");

    // Check fmt chunk
    assert_eq!(&wav[12..16], b"fmt ");

    // Check data chunk
    assert_eq!(&wav[36..40], b"data");

    // Data size should be 32000
    let data_size = u32::from_le_bytes([wav[40], wav[41], wav[42], wav[43]]);
    assert_eq!(data_size, 32000);
}

#[test]
fn test_peak_amplitude_all_zeros() {
    let pcm = vec![0u8; 32000];
    assert_eq!(compute_peak_amplitude(&pcm), 0);
    assert!(is_silence(compute_peak_amplitude(&pcm)));
}

#[test]
fn test_peak_amplitude_mixed_samples() {
    // Create PCM with samples: 0, 100, -200, 0
    let pcm: Vec<u8> = [
        0x00, 0x00, // 0
        0x64, 0x00, // 100
        0x38, 0xFF, // -200 (0xFF38 in le)
        0x00, 0x00, // 0
    ]
    .to_vec();
    assert_eq!(compute_peak_amplitude(&pcm), 200);
    assert!(!is_silence(compute_peak_amplitude(&pcm)));
}

#[test]
fn test_peak_amplitude_near_threshold() {
    // Sample value of 49 should be considered silence
    let pcm = vec![0x31, 0x00]; // 49
    assert_eq!(compute_peak_amplitude(&pcm), 49);
    assert!(is_silence(compute_peak_amplitude(&pcm)));

    // Sample value of 50 should NOT be considered silence
    let pcm = vec![0x32, 0x00]; // 50
    assert_eq!(compute_peak_amplitude(&pcm), 50);
    assert!(!is_silence(compute_peak_amplitude(&pcm)));
}

#[test]
fn test_peak_amplitude_odd_byte_ignored() {
    // Odd byte count: last byte should be ignored
    let pcm = vec![0x64, 0x00, 0x00]; // 100, then trailing 0
    assert_eq!(compute_peak_amplitude(&pcm), 100);
}

#[test]
fn the_most_negative_sample_counts_as_full_amplitude() {
    assert_eq!(compute_peak_amplitude(&[0x00, 0x80]), 32767);
}

#[test]
fn wav_header_describes_the_audio() {
    let wav = build_wav(&[1, 2, 3, 4]);
    assert_eq!(u32::from_le_bytes([wav[4], wav[5], wav[6], wav[7]]), 40);
    assert_eq!(u32::from_le_bytes([wav[16], wav[17], wav[18], wav[19]]), 16);
    assert_eq!(u16::from_le_bytes([wav[20], wav[21]]), 1);
    assert_eq!(u16::from_le_bytes([wav[22], wav[23]]), 1);
    assert_eq!(u32::from_le_bytes([wav[24], wav[25], wav[26], wav[27]]), 16000);
    assert_eq!(u32::from_le_bytes([wav[28], wav[29], wav[30], wav[31]]), 32000);
    assert_eq!(u16::from_le_bytes([wav[32], wav[33]]), 2);
    assert_eq!(u16::from_le_bytes([wav[34], wav[35]]), 16);
    assert_eq!(&wav[44..], [1, 2, 3, 4]);
}

fn loud(len: usize) -> Vec<u8> {
    let mut pcm = Vec::new();
    while pcm.len() < len {
        pcm.push(0x64);
        pcm.push(0x00);
    }
    pcm
}

#[test]
fn recordings_are_judged_by_length_and_peak() {
    // A twentieth of a second is 1600 bytes.
    assert_eq!(AudioRecording::from_pcm(&loud(1598)).judge(), Verdict::TooShort);
    assert_eq!(AudioRecording::from_pcm(&loud(1600)).judge(), Verdict::Usable);
    assert_eq!(
        AudioRecording::from_pcm(&vec![0; 1600]).judge(),
        Verdict::Silent
    );
    assert_eq!(AudioRecording::from_pcm(&[]).judge(), Verdict::TooShort);
}

#[test]
fn recorder_arguments_name_the_target() {
    assert_eq!(
        record_arguments(None),
        ["-a", "--rate", "16000", "--channels", "1", "--format", "s16", "-"]
    );
    assert_eq!(
        record_arguments(Some("42")),
        ["-a", "--rate", "16000", "--channels", "1", "--format", "s16", "-", "--target", "42"]
    );
}

#[test]
fn a_stubborn_recorder_is_killed() {
    assert_eq!(StopStep::Terminate.next(StopOutcome::Finished), StopStep::Drain);
    assert_eq!(StopStep::Terminate.next(StopOutcome::TimedOut), StopStep::Kill);
    assert_eq!(StopStep::Terminate.next(StopOutcome::WaitFailed), StopStep::Failed);
    assert_eq!(StopStep::Kill.next(StopOutcome::Finished), StopStep::Drain);
    assert_eq!(StopStep::Kill.next(StopOutcome::WaitFailed), StopStep::Failed);
    assert_eq!(StopStep::Drain.next(StopOutcome::TimedOut), StopStep::Collect);
}
