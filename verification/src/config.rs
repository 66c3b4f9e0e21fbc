//! Configuration from environment variables.
//!
//! `ELEVENLABS_API_KEY` is required. When running as a systemd service, it is
//! injected from the environment file `~/.config/voice-daemon/env`; otherwise
//! that file is read when it exists.

use crate::text;
use vstd::prelude::*;

verus! {

/// The name of the environment file, below the daemon's configuration directory.
pub const ENVIRONMENT_FILE: &'static str = "env";

/// The name of the keyterms file, below the daemon's configuration directory.
pub const KEYTERMS_FILE: &'static str = "keyterms.txt";

/// Where batch transcription is asked for, unless the environment says otherwise.
pub const DEFAULT_API_URL: &'static str = "https://api.elevenlabs.io/v1/speech-to-text";

/// Where realtime transcription is asked for, unless the environment says
/// otherwise.
pub const DEFAULT_REALTIME_URL: &'static str =
    "wss://api.elevenlabs.io/v1/speech-to-text/realtime";

/// The marker that is typed, unless the environment says otherwise.
pub const DEFAULT_MARKER: &'static str = "\u{a7}";

/// The longest recording in seconds, unless the environment says otherwise.
pub const DEFAULT_MAX_RECORDING_SECS: u64 = 60;

/// The environment variables that matter, each as far as it is set.
#[derive(Debug, Clone, PartialEq, Eq)]
pub struct Environment {
    /// `ELEVENLABS_API_KEY`.
    pub api_key: Option<String>,
    /// `ELEVENLABS_API_URL`.
    pub api_url: Option<String>,
    /// `ELEVENLABS_REALTIME_URL`.
    pub realtime_url: Option<String>,
    /// `VOICE_MARKER_CHAR`.
    pub marker_char: Option<String>,
    /// `VOICE_MAX_RECORDING_SECS`.
    pub max_recording_secs: Option<String>,
    /// `VOICE_RECORD_TARGET`.
    pub record_target: Option<String>,
    /// `VOICE_PAUSE_MEDIA`.
    pub pause_media: Option<String>,
    /// `VOICE_KEYTERMS_FILE`.
    pub keyterms_file: Option<String>,
}

/// Application configuration.
#[derive(Debug, Clone, PartialEq, Eq)]
pub struct Config {
    /// ElevenLabs API key (required).
    pub elevenlabs_api_key: String,
    /// ElevenLabs Speech-to-Text endpoint.
    pub elevenlabs_api_url: String,
    /// ElevenLabs Scribe realtime WebSocket endpoint.
    pub elevenlabs_realtime_url: String,
    /// Marker character typed on recording start.
    pub marker_char: String,
    /// Max recording duration in seconds.
    pub max_recording_secs: u64,
    /// Optional PipeWire target node ID for recording.
    pub record_target: Option<String>,
    /// Whether to pause media players when recording starts.
    pub pause_media: bool,
    /// The file with one keyterm per line.
    pub keyterms_path: String,
    /// Whether to mute the output sinks while recording.
    pub mute_audio_outputs: bool,
    /// Whether to mute other applications' microphone streams while recording.
    pub mute_other_mic_apps: bool,
}

/// What a [`Config`] says.
#[verifier::ext_equal]
pub struct ConfigView {
    pub elevenlabs_api_key: Seq<char>,
    pub elevenlabs_api_url: Seq<char>,
    pub elevenlabs_realtime_url: Seq<char>,
    pub marker_char: Seq<char>,
    pub max_recording_secs: nat,
    pub record_target: Option<Seq<char>>,
    pub pause_media: bool,
    pub keyterms_path: Seq<char>,
    pub mute_audio_outputs: bool,
    pub mute_other_mic_apps: bool,
}

impl View for Config {
    type V = ConfigView;

    open spec fn view(&self) -> ConfigView {
        ConfigView {
            elevenlabs_api_key: self.elevenlabs_api_key@,
            elevenlabs_api_url: self.elevenlabs_api_url@,
            elevenlabs_realtime_url: self.elevenlabs_realtime_url@,
            marker_char: self.marker_char@,
            max_recording_secs: self.max_recording_secs as nat,
            record_target: text::opt_view(self.record_target),
            pause_media: self.pause_media,
            keyterms_path: self.keyterms_path@,
            mute_audio_outputs: self.mute_audio_outputs,
            mute_other_mic_apps: self.mute_other_mic_apps,
        }
    }
}

/// Why there is no configuration.
#[derive(Debug, Clone, Copy, PartialEq, Eq)]
pub enum ConfigError {
    /// The API key is not set, or blank.
    MissingApiKey,
}

impl ConfigError {
    pub open spec fn text(self) -> Seq<char> {
        "ELEVENLABS_API_KEY is not set.\n\nAdd ELEVENLABS_API_KEY=... to ~/.config/voice-daemon/env.\nThat file is used by systemd and cargo run."@
    }

    /// What to tell the user.
    pub fn message(self) -> (res: &'static str)
        ensures
            res@ == self.text(),
    {
        "ELEVENLABS_API_KEY is not set.\n\nAdd ELEVENLABS_API_KEY=... to ~/.config/voice-daemon/env.\nThat file is used by systemd and cargo run."
    }
}

/// Whether a character is a decimal digit.
pub open spec fn is_digit(c: char) -> bool {
    '0' <= c <= '9'
}

/// The number that decimal digits spell.
pub open spec fn digits_value(digits: Seq<char>) -> nat
    decreases digits.len(),
{
    if digits.len() == 0 {
        0
    } else {
        10 * digits_value(digits.drop_last()) + (digits.last() as u32 - '0' as u32) as nat
    }
}

/// Whether there is at least one character, and all are decimal digits.
pub open spec fn all_digits(digits: Seq<char>) -> bool {
    &&& digits.len() > 0
    &&& forall|i: int| 0 <= i < digits.len() ==> is_digit(#[trigger] digits[i])
}

/// A text without a plus sign in front.
pub open spec fn without_plus(s: Seq<char>) -> Seq<char> {
    if s.len() > 0 && s[0] == '+' {
        s.drop_first()
    } else {
        s
    }
}

/// The number below 2^64 that a text spells: decimal digits, with an optional
/// plus sign before them.
pub open spec fn whole_number(s: Seq<char>) -> Option<nat> {
    let digits = without_plus(s);
    if all_digits(digits) && digits_value(digits) <= u64::MAX {
        Some(digits_value(digits))
    } else {
        None
    }
}

proof fn lemma_digits_value_grows(digits: Seq<char>, count: int)
    requires
        0 <= count <= digits.len(),
    ensures
        digits_value(digits.take(count)) <= digits_value(digits),
    decreases digits.len(),
{
    if count < digits.len() {
        lemma_digits_value_grows(digits.drop_last(), count);
        assert(digits.drop_last().take(count) == digits.take(count));
    } else {
        assert(digits.take(count) == digits);
    }
}

/// Reads a number below 2^64.
pub fn parse_whole_number(s: &str) -> (res: Option<u64>)
    ensures
        match res {
            Some(n) => whole_number(s@) == Some(n as nat),
            None => whole_number(s@) is None,
        },
{
    let chars = text::to_chars(s);
    let start: usize = if chars.len() > 0 && chars[0] == '+' {
        1
    } else {
        0
    };
    let ghost digits = chars@.skip(start as int);
    assert(digits == without_plus(s@));
    if chars.len() == start {
        return None;
    }
    let mut value: u64 = 0;
    let mut i: usize = start;
    assert(digits.take(0) == Seq::<char>::empty());
    while i < chars.len()
        invariant
            start <= i <= chars@.len(),
            chars@.len() > start,
            digits == chars@.skip(start as int),
            digits == without_plus(s@),
            value == digits_value(digits.take(i - start)),
            forall|j: int| 0 <= j < i - start ==> is_digit(#[trigger] digits[j]),
        decreases chars@.len() - i,
    {
        let c = chars[i];
        assert(c == digits[i - start]);
        let ghost next = digits.take(i - start + 1);
        assert(next.drop_last() == digits.take(i - start));
        assert(next.last() == c);
        if !('0' <= c && c <= '9') {
            assert(!all_digits(digits));
            return None;
        }
        let digit: u64 = (c as u32 - '0' as u32) as u64;
        assert(digits_value(next) == 10 * value + digit);
        proof {
            lemma_digits_value_grows(digits, i - start + 1);
        }
        if value > (u64::MAX - digit) / 10 {
            assert(10 * value + digit > u64::MAX);
            return None;
        }
        value = 10 * value + digit;
        i = i + 1;
    }
    assert(digits.take(digits.len() as int) == digits);
    Some(value)
}

/// Whether a switch is on: anything but `false`, in whatever case, and `0`.
pub open spec fn switched_on(value: Seq<char>) -> bool {
    !text::same_ignoring_ascii_case(value, "false"@) && value != "0"@
}

/// Whether a switch is on: anything but `false`, in whatever case, and `0`.
pub fn is_switched_on(value: &str) -> (res: bool)
    ensures
        res == switched_on(value@),
{
    !text::eq_ignoring_ascii_case(value, "false") && !text::same_text(value, "0")
}

fn or_default(value: Option<String>, default: &str) -> (res: String)
    ensures
        res@ == (match value {
            Some(set) => set@,
            None => default@,
        }),
{
    match value {
        Some(set) => set,
        None => default.to_owned(),
    }
}

/// Where the keyterms are stored: where the environment says, or else below the
/// configuration directory.
pub fn keyterms_path(keyterms_file: Option<String>, default: &str) -> (res: String)
    ensures
        res@ == (match keyterms_file {
            Some(set) => set@,
            None => default@,
        }),
{
    or_default(keyterms_file, default)
}

impl Environment {
    /// The value of a variable, or the default where it is not set.
    pub open spec fn setting(value: Option<String>, default: Seq<char>) -> Seq<char> {
        match value {
            Some(set) => set@,
            None => default,
        }
    }

    /// The configuration that the environment gives.
    pub open spec fn configured(self, default_keyterms_path: Seq<char>) -> Result<
        ConfigView,
        ConfigError,
    > {
        match self.api_key {
            None => Err(ConfigError::MissingApiKey),
            Some(api_key) => if text::trim(api_key@).len() == 0 {
                Err(ConfigError::MissingApiKey)
            } else {
                Ok(
                    ConfigView {
                        elevenlabs_api_key: api_key@,
                        elevenlabs_api_url: Self::setting(self.api_url, DEFAULT_API_URL@),
                        elevenlabs_realtime_url: Self::setting(
                            self.realtime_url,
                            DEFAULT_REALTIME_URL@,
                        ),
                        marker_char: Self::setting(self.marker_char, DEFAULT_MARKER@),
                        max_recording_secs: match self.max_recording_secs {
                            Some(value) => match whole_number(value@) {
                                Some(secs) => secs,
                                None => DEFAULT_MAX_RECORDING_SECS as nat,
                            },
                            None => DEFAULT_MAX_RECORDING_SECS as nat,
                        },
                        record_target: text::opt_view(self.record_target),
                        pause_media: self.pause_media matches Some(value) ==> switched_on(value@),
                        keyterms_path: Self::setting(self.keyterms_file, default_keyterms_path),
                        mute_audio_outputs: true,
                        mute_other_mic_apps: true,
                    },
                )
            },
        }
    }
}

impl Config {
    /// The configuration that the environment gives.
    ///
    /// # Errors
    ///
    /// Returns an error if `ELEVENLABS_API_KEY` is not set, or blank.
    pub fn from_env(environment: Environment, default_keyterms_path: &str) -> (res: Result<
        Config,
        ConfigError,
    >)
        ensures
            match res {
                Ok(config) => environment.configured(default_keyterms_path@) == Ok::<
                    ConfigView,
                    ConfigError,
                >(config@),
                Err(error) => environment.configured(default_keyterms_path@) == Err::<
                    ConfigView,
                    ConfigError,
                >(error),
            },
    {
        let elevenlabs_api_key = match environment.api_key {
            Some(key) => {
                if text::is_blank(key.as_str()) {
                    return Err(ConfigError::MissingApiKey);
                }
                key
            },
            None => {
                return Err(ConfigError::MissingApiKey);
            },
        };
        let max_recording_secs: u64 = match &environment.max_recording_secs {
            Some(value) => match parse_whole_number(value.as_str()) {
                Some(secs) => secs,
                None => DEFAULT_MAX_RECORDING_SECS,
            },
            None => DEFAULT_MAX_RECORDING_SECS,
        };
        let pause_media = match &environment.pause_media {
            Some(value) => is_switched_on(value.as_str()),
            None => true,
        };
        Ok(
            Config {
                elevenlabs_api_key,
                elevenlabs_api_url: or_default(environment.api_url, DEFAULT_API_URL),
                elevenlabs_realtime_url: or_default(
                    environment.realtime_url,
                    DEFAULT_REALTIME_URL,
                ),
                marker_char: or_default(environment.marker_char, DEFAULT_MARKER),
                max_recording_secs,
                record_target: environment.record_target,
                pause_media,
                keyterms_path: keyterms_path(environment.keyterms_file, default_keyterms_path),
                mute_audio_outputs: true,
                mute_other_mic_apps: true,
            },
        )
    }
}

/// The position of the first `=` at `from` or later.
pub open spec fn equals_sign(line: Seq<char>, from: int) -> Option<int>
    decreases line.len() - from,
{
    if from < 0 || from >= line.len() {
        None
    } else if line[from] == '=' {
        Some(from)
    } else {
        equals_sign(line, from + 1)
    }
}

/// What one line of an environment file sets: a name before the first `=`, and a
/// value after it. Blank lines, comments, and lines without `=` or without a name
/// set nothing.
pub open spec fn assignment(line: Seq<char>) -> Option<(Seq<char>, Seq<char>)> {
    let trimmed = text::trim(line);
    if trimmed.len() == 0 || trimmed[0] == '#' {
        None
    } else {
        match equals_sign(trimmed, 0) {
            None => None,
            Some(at) => {
                let key = text::trim(trimmed.take(at));
                let value = text::trim(trimmed.skip(at + 1));
                if key.len() == 0 {
                    None
                } else {
                    Some((key, value))
                }
            },
        }
    }
}

/// What the first `count` lines set, in their order.
pub open spec fn assignments(lines: Seq<Seq<char>>, count: nat) -> Seq<(Seq<char>, Seq<char>)>
    decreases count,
{
    if count == 0 {
        Seq::empty()
    } else {
        let before = assignments(lines, (count - 1) as nat);
        match assignment(lines[count - 1]) {
            Some(pair) => before.push(pair),
            None => before,
        }
    }
}

/// What an environment file sets.
pub open spec fn environment_file(contents: Seq<char>) -> Seq<(Seq<char>, Seq<char>)> {
    assignments(text::split_on(contents, '\n'), text::split_on(contents, '\n').len())
}

/// What a list of names and values says.
pub open spec fn pair_views(list: Seq<(String, String)>) -> Seq<(Seq<char>, Seq<char>)> {
    Seq::new(list.len(), |i: int| (list[i].0@, list[i].1@))
}

fn read_assignment(chars: &Vec<char>, start: usize, end: usize) -> (res: Option<(String, String)>)
    requires
        start <= end <= chars@.len(),
    ensures
        match res {
            Some(pair) => assignment(chars@.subrange(start as int, end as int)) == Some(
                (pair.0@, pair.1@),
            ),
            None => assignment(chars@.subrange(start as int, end as int)) is None,
        },
{
    let (lo, hi) = text::strip_bounds(chars, start, end, text::CharClass::Space);
    let ghost trimmed = chars@.subrange(lo as int, hi as int);
    if lo == hi || chars[lo] == '#' {
        return None;
    }
    let mut at: usize = lo;
    while at < hi && chars[at] != '='
        invariant
            lo <= at <= hi <= chars@.len(),
            trimmed == chars@.subrange(lo as int, hi as int),
            equals_sign(trimmed, 0) == equals_sign(trimmed, at - lo),
        decreases hi - at,
    {
        assert(trimmed[at - lo] == chars@[at as int]);
        at = at + 1;
    }
    if at == hi {
        return None;
    }
    assert(trimmed[at - lo] == chars@[at as int]);
    assert(equals_sign(trimmed, 0) == Some(at - lo));
    let (key_lo, key_hi) = text::strip_bounds(chars, lo, at, text::CharClass::Space);
    let (value_lo, value_hi) = text::strip_bounds(chars, at + 1, hi, text::CharClass::Space);
    assert(trimmed.take(at - lo) == chars@.subrange(lo as int, at as int));
    assert(trimmed.skip(at - lo + 1) == chars@.subrange(at as int + 1, hi as int));
    if key_lo == key_hi {
        return None;
    }
    Some((text::from_chars(chars, key_lo, key_hi), text::from_chars(chars, value_lo, value_hi)))
}

/// Reads a simple environment file of `KEY=VALUE` lines.
///
/// Ignores empty lines, lines starting with `#`, and lines without `=`. Does not
/// handle variable substitution or quoted values.
pub fn load_env_file(contents: &str) -> (res: Vec<(String, String)>)
    ensures
        pair_views(res@) == environment_file(contents@),
{
    let chars = text::to_chars(contents);
    let parts = text::split_bounds(&chars, '\n');
    let ghost lines = text::split_on(contents@, '\n');
    let mut res: Vec<(String, String)> = Vec::new();
    let mut i: usize = 0;
    assert(pair_views(res@) == Seq::<(Seq<char>, Seq<char>)>::empty());
    while i < parts.len()
        invariant
            i <= parts@.len(),
            chars@ == contents@,
            lines == text::split_on(contents@, '\n'),
            parts@.len() == lines.len(),
            forall|j: int|
                0 <= j < parts@.len() ==> {
                    &&& (#[trigger] parts@[j]).0 <= parts@[j].1 <= chars@.len()
                    &&& chars@.subrange(parts@[j].0 as int, parts@[j].1 as int) == lines[j]
                },
            pair_views(res@) == assignments(lines, i as nat),
        decreases parts@.len() - i,
    {
        let ghost before = pair_views(res@);
        let (start, end) = parts[i];
        assert(chars@.subrange(start as int, end as int) == lines[i as int]);
        if let Some(pair) = read_assignment(&chars, start, end) {
            let ghost added = (pair.0@, pair.1@);
            res.push(pair);
            assert(pair_views(res@) == before.push(added));
        }
        i = i + 1;
    }
    res
}

proof fn lemma_equals_sign(line: Seq<char>, from: int, at: int)
    requires
        0 <= from <= at < line.len(),
        line[at] == '=',
        forall|i: int| from <= i < at ==> line[i] != '=',
    ensures
        equals_sign(line, from) == Some(at),
    decreases at - from,
{
    if from < at {
        lemma_equals_sign(line, from + 1, at);
    }
}

/// A line `KEY=VALUE` sets `KEY` to `VALUE`, where neither has white space at its
/// ends, and the key is no comment and holds no `=`. The value may hold `=`.
pub proof fn law_plain_assignments_are_read(key: Seq<char>, value: Seq<char>)
    requires
        key.len() > 0,
        key[0] != '#',
        !key.contains('='),
        text::trim(key) == key,
        text::trim(value) == value,
    ensures
        assignment(key + seq!['='] + value) == Some((key, value)),
{
    let line = key + seq!['='] + value;
    let at = key.len() as int;
    assert(line.take(at) == key);
    assert(line.skip(at + 1) == value);
    assert(equals_sign(line, 0) == Some(at)) by {
        assert(line[at] == '=');
        assert forall|i: int| 0 <= i < at implies line[i] != '=' by {
            assert(line[i] == key[i]);
        }
        lemma_equals_sign(line, 0, at);
    }
    lemma_trimmed_line(key, value);
}

proof fn lemma_trimmed_line(key: Seq<char>, value: Seq<char>)
    requires
        key.len() > 0,
        text::trim(key) == key,
        text::trim(value) == value,
    ensures
        text::trim(key + seq!['='] + value) == key + seq!['='] + value,
{
    let line = key + seq!['='] + value;
    text::lemma_trimmed_ends(key);
    assert(line[0] == key[0]);
    if value.len() > 0 {
        text::lemma_trimmed_ends(value);
        assert(line.last() == value.last());
    } else {
        assert(line.last() == '=');
    }
    text::lemma_strip_nothing(line, text::CharClass::Space);
}

/// A comment sets nothing, whatever follows its first character.
pub proof fn law_comments_set_nothing(comment: Seq<char>)
    requires
        text::trim(comment).len() > 0,
        text::trim(comment)[0] == '#',
    ensures
        assignment(comment) is None,
{
}

proof fn lemma_digit(c: char)
    ensures
        is_digit(c) <==> 48 <= c as u32 <= 57,
{
}

proof fn lemma_same_value(digits: Seq<char>)
    requires
        forall|i: int| 0 <= i < digits.len() ==> 48 <= (#[trigger] digits[i]) as u32 <= 57,
    ensures
        digits_value(digits) == text::decimal_value(digits),
    decreases digits.len(),
{
    if digits.len() > 0 {
        assert(48 <= digits[digits.len() - 1] as u32);
        lemma_same_value(digits.drop_last());
    }
}

/// Which texts are whole numbers: decimal digits, with or without one plus sign
/// before them, as long as 64 bits can hold the number; and nothing else.
pub proof fn law_which_texts_are_numbers(digits: Seq<char>)
    ensures
        ({
            let plain = digits.len() > 0 && forall|i: int|
                0 <= i < digits.len() ==> 48 <= (#[trigger] digits[i]) as u32 <= 57;
            let value = text::decimal_value(digits);
            &&& plain && value <= u64::MAX ==> {
                &&& whole_number(digits) == Some(value)
                &&& whole_number(seq!['+'] + digits) == Some(value)
            }
            &&& plain && value > u64::MAX ==> {
                &&& whole_number(digits) is None
                &&& whole_number(seq!['+'] + digits) is None
            }
            &&& !plain ==> whole_number(seq!['+'] + digits) is None
            &&& !plain && (digits.len() == 0 || digits[0] != '+') ==> whole_number(
                digits,
            ) is None
        }),
{
    let plain = digits.len() > 0 && forall|i: int|
        0 <= i < digits.len() ==> 48 <= (#[trigger] digits[i]) as u32 <= 57;
    assert((seq!['+'] + digits).drop_first() == digits);
    assert(all_digits(digits) == plain) by {
        if plain {
            assert forall|i: int| 0 <= i < digits.len() implies is_digit(#[trigger] digits[i]) by {
                lemma_digit(digits[i]);
            }
        }
        if all_digits(digits) {
            assert forall|i: int| 0 <= i < digits.len() implies 48 <= (
            #[trigger] digits[i]) as u32 <= 57 by {
                assert(is_digit(digits[i]));
                lemma_digit(digits[i]);
            }
        }
    }
    if plain {
        lemma_same_value(digits);
        assert(48 <= digits[0] as u32);
    }
}

/// What an environment comes to. Without an API key, or with a blank one, there is no
/// configuration. With one, every variable that is set counts as it is, and the rest
/// have their defaults; a longest time that is no number counts as not set; and
/// media are paused unless that is switched off with `false` or `0`.
pub proof fn law_what_an_environment_comes_to(environment: Environment, path: Seq<char>)
    ensures
        match environment.api_key {
            None => environment.configured(path) == Err::<ConfigView, _>(
                ConfigError::MissingApiKey,
            ),
            Some(key) => if forall|i: int|
                0 <= i < key@.len() ==> text::is_space(#[trigger] key@[i]) {
                environment.configured(path) == Err::<ConfigView, _>(ConfigError::MissingApiKey)
            } else {
                &&& environment.configured(path) matches Ok(config)
                &&& config.elevenlabs_api_key == key@
                &&& config.elevenlabs_api_url == (match environment.api_url {
                    Some(url) => url@,
                    None => "https://api.elevenlabs.io/v1/speech-to-text"@,
                })
                &&& config.elevenlabs_realtime_url == (match environment.realtime_url {
                    Some(url) => url@,
                    None => "wss://api.elevenlabs.io/v1/speech-to-text/realtime"@,
                })
                &&& config.marker_char == (match environment.marker_char {
                    Some(marker) => marker@,
                    None => "\u{a7}"@,
                })
                &&& config.max_recording_secs == (match environment.max_recording_secs {
                    Some(value) => match whole_number(value@) {
                        Some(secs) => secs,
                        None => 60,
                    },
                    None => 60,
                })
                &&& config.record_target == (match environment.record_target {
                    Some(target) => Some(target@),
                    None => None,
                })
                &&& config.pause_media == (match environment.pause_media {
                    Some(value) => !text::same_ignoring_ascii_case(
                        value@,
                        seq!['f', 'a', 'l', 's', 'e'],
                    ) && value@ != seq!['0'],
                    None => true,
                })
                &&& config.keyterms_path == (match environment.keyterms_file {
                    Some(file) => file@,
                    None => path,
                })
                &&& config.mute_audio_outputs
                &&& config.mute_other_mic_apps
            },
        },
{
    reveal_strlit("false");
    reveal_strlit("0");
    assert("false"@ == seq!['f', 'a', 'l', 's', 'e']);
    assert("0"@ == seq!['0']);
    if let Some(key) = environment.api_key {
        text::lemma_blank(key@);
    }
}

/// A line sets a variable to a value whatever white space stands around either: the
/// name is what stands before the first `=`, and the value all that follows it.
pub proof fn law_white_space_around_assignments_is_ignored(
    before: Seq<char>,
    key: Seq<char>,
    left: Seq<char>,
    right: Seq<char>,
    value: Seq<char>,
    after: Seq<char>,
)
    requires
        key.len() > 0,
        key[0] != '#',
        !key.contains('='),
        !text::is_space(key[0]),
        !text::is_space(key.last()),
        value.len() > 0 ==> !text::is_space(value[0]) && !text::is_space(value.last()),
        forall|i: int| 0 <= i < before.len() ==> text::is_space(#[trigger] before[i]),
        forall|i: int| 0 <= i < left.len() ==> text::is_space(#[trigger] left[i]),
        forall|i: int| 0 <= i < right.len() ==> text::is_space(#[trigger] right[i]),
        forall|i: int| 0 <= i < after.len() ==> text::is_space(#[trigger] after[i]),
    ensures
        assignment(before + (key + left + seq!['='] + right + value) + after) == Some(
            (key, value),
        ),
{
    let none = Seq::<char>::empty();
    let gap = if value.len() > 0 {
        right
    } else {
        none
    };
    let tail = if value.len() > 0 {
        after
    } else {
        right + after
    };
    let inner = key + left + seq!['='] + gap + value;
    let line = before + (key + left + seq!['='] + right + value) + after;
    assert(line == before + inner + tail);
    assert forall|i: int| 0 <= i < tail.len() implies text::is_space(#[trigger] tail[i]) by {
        if value.len() == 0 && i < right.len() {
            assert(tail[i] == right[i]);
        } else if value.len() == 0 {
            assert(tail[i] == after[i - right.len()]);
        }
    }
    assert(inner[0] == key[0]);
    if value.len() > 0 {
        assert(inner.last() == value.last());
    } else {
        assert(value == none);
        assert(inner == key + left + seq!['=']);
        assert(inner.last() == '=');
    }
    text::law_trim_unwraps(before, inner, tail);
    let at = key.len() + left.len();
    assert(inner[at as int] == '=');
    assert forall|i: int| 0 <= i < at implies inner[i] != '=' by {
        if i < key.len() {
            assert(inner[i] == key[i]);
        } else {
            assert(inner[i] == left[i - key.len()]);
        }
    }
    lemma_equals_sign(inner, 0, at as int);
    assert(inner.take(at as int) == none + key + left);
    text::law_trim_unwraps(none, key, left);
    assert(inner.skip(at as int + 1) == gap + value + none);
    text::law_trim_unwraps(gap, value, none);
}

proof fn lemma_no_equals_sign(line: Seq<char>, from: int)
    requires
        0 <= from,
        !line.contains('='),
    ensures
        equals_sign(line, from) is None,
    decreases line.len() - from,
{
    if from < line.len() {
        assert(line.contains(line[from]));
        lemma_no_equals_sign(line, from + 1);
    }
}

/// Which lines set nothing: those without `=`, those with nothing but white space
/// before it, and, among these, blank ones.
pub proof fn law_which_lines_set_nothing(line: Seq<char>, blank: Seq<char>)
    requires
        forall|i: int| 0 <= i < blank.len() ==> text::is_space(#[trigger] blank[i]),
    ensures
        !line.contains('=') ==> assignment(line) is None,
        assignment(blank + seq!['='] + line) is None,
{
    let none = Seq::<char>::empty();
    if !line.contains('=') {
        let (lo, hi) = text::lemma_strip(line, text::CharClass::Space);
        let trimmed = text::trim(line);
        assert(!trimmed.contains('=')) by {
            if trimmed.contains('=') {
                let i = choose|i: int| 0 <= i < trimmed.len() && trimmed[i] == '=';
                assert(line[lo + i] == '=');
            }
        }
        lemma_no_equals_sign(trimmed, 0);
    }
    let whole = blank + seq!['='] + line;
    let (lo, hi) = text::lemma_strip(whole, text::CharClass::Space);
    let trimmed = text::trim(whole);
    assert(whole[blank.len() as int] == '=');
    assert(lo <= blank.len() < hi);
    assert(trimmed[0] == whole[lo]);
    assert(lo == blank.len()) by {
        if lo < blank.len() {
            assert(whole[lo] == blank[lo]);
        }
    }
    lemma_equals_sign(trimmed, 0, 0);
    assert(trimmed.take(0) == none);
    assert(text::trim(none).len() == 0);
}

proof fn lemma_assignments_of_prefix(lines: Seq<Seq<char>>, line: Seq<char>, count: nat)
    requires
        count <= lines.len(),
    ensures
        assignments(lines.push(line), count) == assignments(lines, count),
    decreases count,
{
    if count > 0 {
        lemma_assignments_of_prefix(lines, line, (count - 1) as nat);
        assert(lines.push(line)[count - 1] == lines[count - 1]);
    }
}

/// A file is read line by line: each line that sets a variable adds to what the lines
/// before it set, in their order.
pub proof fn law_files_are_read_line_by_line(lines: Seq<Seq<char>>, line: Seq<char>)
    requires
        lines.len() > 0,
        !line.contains('\n'),
        forall|i: int| 0 <= i < lines.len() ==> !(#[trigger] lines[i]).contains('\n'),
    ensures
        environment_file(line) == (match assignment(line) {
            Some(pair) => seq![pair],
            None => Seq::empty(),
        }),
        environment_file(text::rejoined(lines.push(line), '\n')) == (match assignment(line) {
            Some(pair) => environment_file(text::rejoined(lines, '\n')) + seq![pair],
            None => environment_file(text::rejoined(lines, '\n')),
        }),
{
    let all = lines.push(line);
    assert forall|i: int| 0 <= i < all.len() implies !(#[trigger] all[i]).contains('\n') by {
        if i < lines.len() {
            assert(all[i] == lines[i]);
        }
    }
    text::law_split_undoes_join(lines, '\n');
    text::law_split_undoes_join(all, '\n');
    lemma_assignments_of_prefix(lines, line, lines.len());
    let one = seq![line];
    assert forall|i: int| 0 <= i < one.len() implies !(#[trigger] one[i]).contains('\n') by {
        assert(one[i] == line);
    }
    text::law_split_undoes_join(one, '\n');
    assert(text::rejoined(one, '\n') == line);
    assert(assignments(one, 0) == Seq::<(Seq<char>, Seq<char>)>::empty());
    assert(assignments(one, 1) == (match assignment(one[0]) {
        Some(pair) => assignments(one, 0).push(pair),
        None => assignments(one, 0),
    }));
}

} // verus!
