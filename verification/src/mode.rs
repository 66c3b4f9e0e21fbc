//! Persistent operating mode for the voice daemon.

use crate::storage::{FileRead, SaveError, SavePolicy};
use crate::text;
use vstd::prelude::*;

verus! {

/// The directory, below the configuration directory, that holds the mode file.
pub const CONFIG_DIRECTORY: &'static str = "voice-daemon";

/// The name of the mode file.
pub const MODE_FILE: &'static str = "mode";

/// The user service that is restarted when the mode changes.
pub const SERVICE_NAME: &'static str = "voice-daemon.service";

/// The daemon's transcription operating mode.
#[derive(Debug, Clone, Copy, PartialEq, Eq)]
pub enum Mode {
    Batch,
    Realtime,
}

/// Why the mode could not be loaded or changed.
#[derive(Debug, Clone, Copy, PartialEq, Eq)]
pub enum ModeError {
    /// The mode file holds neither mode.
    Malformed,
    /// The mode file could not be read.
    ReadFailed,
    /// The mode file could not be replaced.
    NotStored(SaveError),
    /// The mode was saved, but the service could not be restarted.
    NotRestarted(Mode),
}

impl Mode {
    /// The name of the mode.
    pub open spec fn text(self) -> Seq<char> {
        match self {
            Mode::Batch => "Batch"@,
            Mode::Realtime => "Realtime"@,
        }
    }

    /// The mode that a text names, with or without white space around it.
    pub open spec fn named(value: Seq<char>) -> Option<Mode> {
        if text::trim(value) == Mode::Batch.text() {
            Some(Mode::Batch)
        } else if text::trim(value) == Mode::Realtime.text() {
            Some(Mode::Realtime)
        } else {
            None
        }
    }

    /// The contents of the file that keeps the mode.
    pub open spec fn file_contents(self) -> Seq<char> {
        self.text() + seq!['\n']
    }

    /// The name of the mode.
    pub fn name(self) -> (res: &'static str)
        ensures
            res@ == self.text(),
    {
        match self {
            Mode::Batch => "Batch",
            Mode::Realtime => "Realtime",
        }
    }

    /// The mode that a text names.
    pub fn from_str(value: &str) -> (res: Result<Mode, ModeError>)
        ensures
            match Mode::named(value@) {
                Some(mode) => res == Ok::<_, ModeError>(mode),
                None => res == Err::<Mode, _>(ModeError::Malformed),
            },
    {
        let name = text::trimmed(value);
        if text::same_text(name.as_str(), "Batch") {
            Ok(Mode::Batch)
        } else if text::same_text(name.as_str(), "Realtime") {
            Ok(Mode::Realtime)
        } else {
            Err(ModeError::Malformed)
        }
    }

    /// The contents of the file that keeps the mode.
    pub fn file_text(self) -> (res: String)
        ensures
            res@ == self.file_contents(),
    {
        let mut res = self.name().to_owned();
        res.push('\n');
        assert(res@ == self.file_contents());
        res
    }
}

impl ModeError {
    /// The error as it is reported to the user; `path` is the file or directory
    /// that it is about.
    pub open spec fn text(self, path: Seq<char>) -> Seq<char> {
        match self {
            ModeError::Malformed => "malformed mode file "@ + path
                + " (expected `Batch` or `Realtime`)"@,
            ModeError::ReadFailed => "failed to read mode file "@ + path,
            ModeError::NotStored(SaveError::CreateDirectory) => "failed to create mode directory "@
                + path,
            ModeError::NotStored(SaveError::CreateTemporary)
            | ModeError::NotStored(SaveError::NoFreeName) =>
                "failed to create temporary mode file "@ + path,
            ModeError::NotStored(SaveError::Write) => "failed to write mode file"@,
            ModeError::NotStored(SaveError::Sync) => "failed to sync mode file"@,
            ModeError::NotStored(SaveError::Replace) => "failed to atomically replace mode file "@
                + path,
            ModeError::NotRestarted(mode) => "mode saved as "@ + mode.text()
                + ", but failed to restart voice-daemon.service; the new mode will apply on its next start"@,
        }
    }

    /// The error as it is reported to the user.
    pub fn message(self, path: &str) -> (res: String)
        ensures
            res@ == self.text(path@),
    {
        match self {
            ModeError::Malformed => "malformed mode file ".to_owned().concat(path).concat(
                " (expected `Batch` or `Realtime`)",
            ),
            ModeError::ReadFailed => "failed to read mode file ".to_owned().concat(path),
            ModeError::NotStored(SaveError::CreateDirectory) =>
                "failed to create mode directory ".to_owned().concat(path),
            ModeError::NotStored(SaveError::CreateTemporary)
            | ModeError::NotStored(SaveError::NoFreeName) =>
                "failed to create temporary mode file ".to_owned().concat(path),
            ModeError::NotStored(SaveError::Write) => "failed to write mode file".to_owned(),
            ModeError::NotStored(SaveError::Sync) => "failed to sync mode file".to_owned(),
            ModeError::NotStored(SaveError::Replace) =>
                "failed to atomically replace mode file ".to_owned().concat(path),
            ModeError::NotRestarted(mode) => "mode saved as ".to_owned().concat(
                mode.name(),
            ).concat(
                ", but failed to restart voice-daemon.service; the new mode will apply on its next start",
            ),
        }
    }
}

/// What loading the mode out of its file gives. A missing file means batch mode.
pub open spec fn loaded(file: FileRead) -> Result<Mode, ModeError> {
    match file {
        FileRead::Missing => Ok(Mode::Batch),
        FileRead::Contents(contents) => match Mode::named(contents@) {
            Some(mode) => Ok(mode),
            None => Err(ModeError::Malformed),
        },
        FileRead::Failed => Err(ModeError::ReadFailed),
    }
}

/// Loads the persisted mode. A missing mode file means batch mode.
pub fn load(file: &FileRead) -> (res: Result<Mode, ModeError>)
    ensures
        res == loaded(*file),
{
    match file {
        FileRead::Missing => Ok(Mode::Batch),
        FileRead::Contents(contents) => Mode::from_str(contents.as_str()),
        FileRead::Failed => Err(ModeError::ReadFailed),
    }
}

/// How the mode file is replaced: one name is tried for the temporary file.
pub fn save_policy() -> (res: SavePolicy)
    ensures
        res == (SavePolicy { names: 1, remove_when_not_created: true }),
{
    SavePolicy { names: 1, remove_when_not_created: true }
}

/// The name of the temporary file with the given number.
pub fn temporary_name(process: u32, number: u64) -> (res: String)
    ensures
        res@ == ".mode."@ + text::decimal(process as nat) + "."@ + text::decimal(number as nat)
            + ".tmp"@,
{
    ".mode.".to_owned().concat(text::format_decimal(process as u64).as_str()).concat(".").concat(
        text::format_decimal(number).as_str(),
    ).concat(".tmp")
}

/// The service could not be restarted.
#[derive(Debug, Clone, Copy, PartialEq, Eq)]
pub struct RestartError;

/// Minimal command boundary for testing service restart behavior.
pub trait Restarter {
    fn restart(&self) -> Result<(), RestartError>;
}

/// Restarts the user-level daemon via systemd.
pub struct Systemctl;

impl Systemctl {
    /// The arguments with which `systemctl` restarts the service.
    pub fn arguments() -> (res: Vec<&'static str>)
        ensures
            text::str_views(res@) == seq!["--user"@, "restart"@, SERVICE_NAME@],
    {
        let res: Vec<&'static str> = vec!["--user", "restart", SERVICE_NAME];
        assert(text::str_views(res@) == seq!["--user"@, "restart"@, SERVICE_NAME@]);
        res
    }
}

/// What changing the mode comes to: it is saved first, and only a saved mode is
/// followed by a restart.
pub open spec fn changed(
    mode: Mode,
    stored: Result<(), SaveError>,
    restarted: Result<(), RestartError>,
) -> Result<(), ModeError> {
    match stored {
        Err(error) => Err(ModeError::NotStored(error)),
        Ok(_) => match restarted {
            Err(_) => Err(ModeError::NotRestarted(mode)),
            Ok(_) => Ok(()),
        },
    }
}

/// What persisting `mode` and restarting the user service comes to.
///
/// The mode is intentionally saved before restarting. If restarting fails, this
/// returns an error that makes clear the next service start will use the saved mode.
pub fn set_and_restart(
    mode: Mode,
    stored: Result<(), SaveError>,
    restarted: Result<(), RestartError>,
) -> (res: Result<(), ModeError>)
    ensures
        res == changed(mode, stored, restarted),
{
    match stored {
        Err(error) => Err(ModeError::NotStored(error)),
        Ok(_) => match restarted {
            Err(_) => Err(ModeError::NotRestarted(mode)),
            Ok(_) => Ok(()),
        },
    }
}

/// Invokes an injectable service restarter once `mode` was stored.
///
/// When storing failed, the restarter is not called and the error is returned;
/// otherwise its answer decides.
pub fn set_and_restart_with<R: Restarter>(
    mode: Mode,
    stored: Result<(), SaveError>,
    restarter: &R,
) -> (res: Result<(), ModeError>)
    ensures
        match stored {
            Err(error) => res == Err::<(), _>(ModeError::NotStored(error)),
            Ok(_) => exists|restarted: Result<(), RestartError>| #[trigger]
                call_ensures(R::restart, (restarter,), restarted) && res == changed(
                    mode,
                    stored,
                    restarted,
                ),
        },
{
    match stored {
        Err(error) => Err(ModeError::NotStored(error)),
        Ok(_) => {
            let restarted = restarter.restart();
            set_and_restart(mode, stored, restarted)
        },
    }
}

/// The mode that is written is the mode that is loaded afterwards.
pub proof fn law_saved_modes_are_loaded(mode: Mode, contents: String)
    requires
        contents@ == mode.file_contents(),
    ensures
        loaded(FileRead::Contents(contents)) == Ok::<_, ModeError>(mode),
{
    reveal_strlit("Batch");
    reveal_strlit("Realtime");
    let name = mode.text();
    let s = mode.file_contents();
    assert(text::strip_start(s, text::CharClass::Space) == s);
    assert(s.drop_last() == name);
    assert(text::strip_end(name, text::CharClass::Space) == name);
    assert(text::trim(s) == name);
    assert(Mode::Batch.text().len() != Mode::Realtime.text().len());
}

/// A mode that was stored stays stored: an error after that point says so, and
/// a success means that both steps succeeded.
pub proof fn law_restart_follows_storing(
    mode: Mode,
    stored: Result<(), SaveError>,
    restarted: Result<(), RestartError>,
)
    ensures
        changed(mode, stored, restarted) is Ok <==> stored is Ok && restarted is Ok,
        stored is Ok && restarted is Err ==> changed(mode, stored, restarted) == Err::<(), _>(
            ModeError::NotRestarted(mode),
        ),
{
}

/// Which texts name a mode: `Batch` and `Realtime`, written so, with any white space
/// around them; and nothing else.
pub proof fn law_which_texts_name_a_mode(before: Seq<char>, name: Seq<char>, after: Seq<char>)
    requires
        name.len() > 0 ==> !text::is_space(name[0]) && !text::is_space(name.last()),
        forall|i: int| 0 <= i < before.len() ==> text::is_space(#[trigger] before[i]),
        forall|i: int| 0 <= i < after.len() ==> text::is_space(#[trigger] after[i]),
    ensures
        ({
            let batch = seq!['B', 'a', 't', 'c', 'h'];
            let realtime = seq!['R', 'e', 'a', 'l', 't', 'i', 'm', 'e'];
            let named = Mode::named(before + name + after);
            &&& named == Some(Mode::Batch) <==> name == batch
            &&& named == Some(Mode::Realtime) <==> name == realtime
        }),
{
    text::law_trim_unwraps(before, name, after);
    reveal_strlit("Batch");
    reveal_strlit("Realtime");
    assert("Batch"@ == seq!['B', 'a', 't', 'c', 'h']);
    assert("Realtime"@ == seq!['R', 'e', 'a', 'l', 't', 'i', 'm', 'e']);
    assert("Batch"@.len() != "Realtime"@.len());
}

/// What a mode file leads to: the mode that it names; batch mode where there is none;
/// and an error where it names no mode or cannot be read.
pub proof fn law_what_a_mode_file_leads_to(contents: String)
    ensures
        loaded(FileRead::Missing) == Ok::<_, ModeError>(Mode::Batch),
        loaded(FileRead::Failed) == Err::<Mode, _>(ModeError::ReadFailed),
        loaded(FileRead::Contents(contents)) == (match Mode::named(contents@) {
            Some(mode) => Ok::<_, ModeError>(mode),
            None => Err(ModeError::Malformed),
        }),
{
}

/// A mode is written by its name, on one complete line.
pub proof fn law_how_modes_are_written()
    ensures
        Mode::Batch.file_contents() == seq!['B', 'a', 't', 'c', 'h', '\n'],
        Mode::Realtime.file_contents() == seq!['R', 'e', 'a', 'l', 't', 'i', 'm', 'e', '\n'],
{
    reveal_strlit("Batch");
    reveal_strlit("Realtime");
    assert(Mode::Batch.file_contents() == seq!['B', 'a', 't', 'c', 'h', '\n']);
    assert(Mode::Realtime.file_contents() == seq![
        'R',
        'e',
        'a',
        'l',
        't',
        'i',
        'm',
        'e',
        '\n',
    ]);
}

/// What comes of changing the mode, in every case.
pub proof fn law_what_comes_of_changing_the_mode(
    mode: Mode,
    error: SaveError,
    restarted: Result<(), RestartError>,
)
    ensures
        changed(mode, Err(error), restarted) == Err::<(), _>(ModeError::NotStored(error)),
        changed(mode, Ok(()), Err(RestartError)) == Err::<(), _>(ModeError::NotRestarted(mode)),
        changed(mode, Ok(()), Ok(())) == Ok::<(), ModeError>(()),
{
}

/// What the user is told of a mode that was not changed: the file or directory that
/// it is about, and, where only the restart failed, the mode that was saved.
pub proof fn law_what_is_told_of_a_mode_that_was_not_changed(path: Seq<char>)
    ensures
        ModeError::Malformed.text(path) == "malformed mode file "@ + path
            + " (expected `Batch` or `Realtime`)"@,
        ModeError::ReadFailed.text(path) == "failed to read mode file "@ + path,
        ModeError::NotStored(SaveError::CreateDirectory).text(path)
            == "failed to create mode directory "@ + path,
        ModeError::NotStored(SaveError::CreateTemporary).text(path)
            == "failed to create temporary mode file "@ + path,
        ModeError::NotStored(SaveError::Replace).text(path)
            == "failed to atomically replace mode file "@ + path,
        ModeError::NotRestarted(Mode::Realtime).text(path) == "mode saved as Realtime"@
            + ", but failed to restart voice-daemon.service; the new mode will apply on its next start"@,
        ModeError::NotRestarted(Mode::Batch).text(path) == "mode saved as Batch"@
            + ", but failed to restart voice-daemon.service; the new mode will apply on its next start"@,
{
    reveal_strlit("mode saved as ");
    reveal_strlit("Batch");
    reveal_strlit("Realtime");
    reveal_strlit("mode saved as Batch");
    reveal_strlit("mode saved as Realtime");
    assert("mode saved as "@ + "Batch"@ == "mode saved as Batch"@);
    assert("mode saved as "@ + "Realtime"@ == "mode saved as Realtime"@);
}

} // verus!
