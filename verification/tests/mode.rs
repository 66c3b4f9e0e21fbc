use daapstt::mode::{
    load, save_policy, set_and_restart, set_and_restart_with, temporary_name, Mode, ModeError,
    RestartError, Restarter, Systemctl,
};
use daapstt::storage::{FileRead, SaveError, SaveOutcome, SaveStep};

struct Succeeds;
impl Restarter for Succeeds {
    fn restart(&self) -> Result<(), RestartError> {
        Ok(())
    }
}

struct Fails;
impl Restarter for Fails {
    fn restart(&self) -> Result<(), RestartError> {
        Err(RestartError)
    }
}

/// Replaces a file that is kept in memory, with every step succeeding, and
/// returns the number of temporary files that are left.
fn store(file: &mut FileRead, mode: Mode) -> Result<usize, SaveError> {
    let mut temporary: Option<String> = None;
    let mut step = SaveStep::CreateDirectory;
    loop {
        match step {
            SaveStep::CreateDirectory | SaveStep::Sync => {}
            SaveStep::CreateTemporary(_) => temporary = Some(String::new()),
            SaveStep::Write => temporary = Some(mode.file_text()),
            SaveStep::Replace => *file = FileRead::Contents(temporary.take().unwrap()),
            SaveStep::RemoveTemporary(_) => temporary = None,
            SaveStep::Saved => return Ok(temporary.into_iter().count()),
            SaveStep::NotSaved(error) => return Err(error),
        }
        step = step.next(save_policy(), SaveOutcome::Succeeded);
    }
}

#[test]
fn missing_file_defaults_to_batch() {
    assert_eq!(load(&FileRead::Missing).unwrap(), Mode::Batch);
}

#[test]
fn loads_valid_persisted_modes() {
    assert_eq!(
        load(&FileRead::Contents("Realtime\n".to_string())).unwrap(),
        Mode::Realtime
    );
}

#[test]
fn malformed_data_has_a_clear_error() {
    let error = load(&FileRead::Contents("fast\n".to_string()))
        .unwrap_err()
        .message("/tmp/mode");
    assert!(error.contains("malformed mode file"));
    assert!(error.contains("Batch"));
}

#[test]
fn atomic_update_replaces_the_saved_mode() {
    let mut file = FileRead::Missing;
    store(&mut file, Mode::Batch).unwrap();
    let temporary_files = store(&mut file, Mode::Realtime).unwrap();
    assert_eq!(file, FileRead::Contents("Realtime\n".to_string()));
    assert_eq!(temporary_files, 0);
    assert!(temporary_name(1, 2).ends_with(".tmp"));
}

#[test]
fn restart_success_and_failure_are_observable_after_persisting() {
    let mut success = FileRead::Missing;
    let stored = store(&mut success, Mode::Realtime).map(|_| ());
    set_and_restart_with(Mode::Realtime, stored, &Succeeds).unwrap();
    assert_eq!(load(&success).unwrap(), Mode::Realtime);

    let mut failure = FileRead::Missing;
    let stored = store(&mut failure, Mode::Realtime).map(|_| ());
    let error = set_and_restart_with(Mode::Realtime, stored, &Fails)
        .unwrap_err()
        .message("/tmp/mode");
    assert!(error.contains("mode saved as Realtime"));
    assert_eq!(load(&failure).unwrap(), Mode::Realtime);
}

#[test]
fn mode_names_are_exact() {
    assert_eq!(Mode::from_str(" Batch \n"), Ok(Mode::Batch));
    assert_eq!(Mode::from_str("batch"), Err(ModeError::Malformed));
    assert_eq!(Mode::from_str(""), Err(ModeError::Malformed));
    assert_eq!(Mode::Realtime.name(), "Realtime");
    assert_eq!(load(&FileRead::Failed), Err(ModeError::ReadFailed));
}

#[test]
fn a_mode_that_was_not_stored_is_not_applied() {
    assert_eq!(
        set_and_restart_with(Mode::Batch, Err(SaveError::Write), &Succeeds),
        Err(ModeError::NotStored(SaveError::Write))
    );
    assert_eq!(
        set_and_restart(Mode::Batch, Ok(()), Err(RestartError)),
        Err(ModeError::NotRestarted(Mode::Batch))
    );
    assert_eq!(set_and_restart(Mode::Batch, Ok(()), Ok(())), Ok(()));
    assert_eq!(Systemctl::arguments(), ["--user", "restart", "voice-daemon.service"]);
}

#[test]
fn failed_saves_remove_the_temporary_file() {
    let policy = save_policy();
    let removal = SaveStep::Write.next(policy, SaveOutcome::Failed);
    assert_eq!(removal, SaveStep::RemoveTemporary(SaveError::Write));
    assert_eq!(
        removal.next(policy, SaveOutcome::Failed),
        SaveStep::NotSaved(SaveError::Write)
    );
    assert_eq!(
        SaveStep::CreateTemporary(0).next(policy, SaveOutcome::AlreadyExists),
        SaveStep::RemoveTemporary(SaveError::CreateTemporary)
    );
    let keyterms = daapstt::keyterms::save_policy();
    assert_eq!(
        SaveStep::CreateTemporary(98).next(keyterms, SaveOutcome::AlreadyExists),
        SaveStep::CreateTemporary(99)
    );
    assert_eq!(
        SaveStep::CreateTemporary(99).next(keyterms, SaveOutcome::AlreadyExists),
        SaveStep::NotSaved(SaveError::NoFreeName)
    );
    assert_eq!(
        SaveStep::CreateDirectory.next(policy, SaveOutcome::Failed),
        SaveStep::NotSaved(SaveError::CreateDirectory)
    );
    assert_eq!(
        SaveStep::Sync.next(policy, SaveOutcome::Failed),
        SaveStep::RemoveTemporary(SaveError::Sync)
    );
    assert_eq!(
        SaveStep::Replace.next(policy, SaveOutcome::Failed),
        SaveStep::RemoveTemporary(SaveError::Replace)
    );
}
