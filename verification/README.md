# daapSTT

Global push-to-talk dictation for Wayland: hold Alt+Space, speak, release, and the
words appear in the active window. Transcription is done by ElevenLabs Scribe.

This crate is written in Verus. Everything that the daemon decides is a function or
a state machine with a contract, and the laws that hold across them are proved.

## Layout

- `src/` is the library.
  - Text: `text`, `graphemes`, `transcript`, `placeholder`, `live_text`, `json`,
    `encoding`.
  - Settings and files: `storage`, `config`, `mode`, `keyterms`, `menu`, `command`.
  - Keyboard, clipboard and sound: `hotkey`, `audio`, `muting`, `media`, `mic`,
    `clipboard`, `deliver`, `notify`.
  - Transcription: `transcribe` (a whole recording), `realtime` and `session` (while
    it is spoken), `realtime_mode`.
  - `press` is one press of the hotkey from the marker to the delivered text, and
    `press_laws` is what every press keeps to.
- `tests/` runs the library on concrete values.
- `app/` is the daemon around it: it reads keyboards, runs `pw-record`, `wtype`,
  `pactl` and `notify-send`, talks to the network, and does what the state machines
  ask for.

## Laws

Public proof functions whose names begin with `law_` state what holds of the library
as a whole, for instance:

- no keystroke is sent between letting go of the key and the end of the release, and
  none at all where that end cannot be known;
- what was muted for a recording is restored before its press ends, and nothing else;
- committed text is never taken back, and a recording is transcribed a second time
  only where nothing was committed and nothing provisional is left;
- a saved mode or list of keyterms is what is loaded afterwards.

## What is taken on trust

Grapheme boundaries come from `unicode-segmentation`, URLs from `url`, base64 from
`base64`, JSON strings from `serde_json`, and the notion of a letter or digit, and the
appending of a character to a `String`, from the standard library. The items that
declare them say what they rely on.

## Configuration

Variables in `~/.config/voice-daemon/env`:

| Variable | Default |
| --- | --- |
| `ELEVENLABS_API_KEY` | required |
| `ELEVENLABS_API_URL` | `https://api.elevenlabs.io/v1/speech-to-text` |
| `ELEVENLABS_REALTIME_URL` | `wss://api.elevenlabs.io/v1/speech-to-text/realtime` |
| `VOICE_MARKER_CHAR` | `§` |
| `VOICE_MAX_RECORDING_SECS` | `60` |
| `VOICE_RECORD_TARGET` | the default microphone |
| `VOICE_KEYTERMS_FILE` | `~/.config/voice-daemon/keyterms.txt` |

`VOICE_PAUSE_MEDIA` is read as well, but nothing acts on it.
