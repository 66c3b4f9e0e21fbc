//! Reading and atomically replacing the small files that the daemon keeps.

use vstd::prelude::*;

verus! {

/// What came of reading a file as text.
#[derive(Debug, Clone, PartialEq, Eq)]
pub enum FileRead {
    /// There is no such file.
    Missing,
    /// The file holds this text.
    Contents(String),
    /// The file is there but could not be read as text.
    Failed,
}

/// The stage at which replacing a file failed.
#[derive(Debug, Clone, Copy, PartialEq, Eq)]
pub enum SaveError {
    /// The directory could not be created.
    CreateDirectory,
    /// A temporary file could not be created.
    CreateTemporary,
    /// Every name that was tried for the temporary file was taken.
    NoFreeName,
    /// The contents could not be written.
    Write,
    /// The contents could not be flushed to disk.
    Sync,
    /// The temporary file could not take the place of the old one.
    Replace,
}

/// How a file is replaced.
#[derive(Debug, Clone, Copy, PartialEq, Eq)]
pub struct SavePolicy {
    /// How many names are tried for the temporary file. With a single one, a
    /// name that is taken counts as any other failure to create the file.
    pub names: u32,
    /// Whether the temporary file is also removed when creating it failed.
    pub remove_when_not_created: bool,
}

/// One step of replacing a file, for the caller to perform.
#[derive(Debug, Clone, Copy, PartialEq, Eq)]
pub enum SaveStep {
    /// Create the directory and its parents.
    CreateDirectory,
    /// Create the temporary file under the name with this number; it must not
    /// exist yet.
    CreateTemporary(u32),
    /// Write the contents to the temporary file.
    Write,
    /// Flush the temporary file to disk.
    Sync,
    /// Rename the temporary file over the old one.
    Replace,
    /// Remove the temporary file; whether that works does not matter.
    RemoveTemporary(SaveError),
    /// The file was replaced.
    Saved,
    /// The file was not replaced.
    NotSaved(SaveError),
}

/// What came of a [`SaveStep`].
#[derive(Debug, Clone, Copy, PartialEq, Eq)]
pub enum SaveOutcome {
    Succeeded,
    /// The file to create was already there.
    AlreadyExists,
    Failed,
}

impl SaveStep {
    /// Whether there is nothing left to do.
    pub open spec fn is_final(self) -> bool {
        self is Saved || self is NotSaved
    }

    /// The step after this one.
    pub open spec fn following(self, policy: SavePolicy, outcome: SaveOutcome) -> SaveStep {
        match self {
            SaveStep::CreateDirectory => if outcome is Succeeded {
                SaveStep::CreateTemporary(0)
            } else {
                SaveStep::NotSaved(SaveError::CreateDirectory)
            },
            SaveStep::CreateTemporary(number) => if outcome is Succeeded {
                SaveStep::Write
            } else if outcome is AlreadyExists && policy.names > 1 {
                if number + 1 < policy.names {
                    SaveStep::CreateTemporary((number + 1) as u32)
                } else {
                    SaveStep::NotSaved(SaveError::NoFreeName)
                }
            } else if policy.remove_when_not_created {
                SaveStep::RemoveTemporary(SaveError::CreateTemporary)
            } else {
                SaveStep::NotSaved(SaveError::CreateTemporary)
            },
            SaveStep::Write => if outcome is Succeeded {
                SaveStep::Sync
            } else {
                SaveStep::RemoveTemporary(SaveError::Write)
            },
            SaveStep::Sync => if outcome is Succeeded {
                SaveStep::Replace
            } else {
                SaveStep::RemoveTemporary(SaveError::Sync)
            },
            SaveStep::Replace => if outcome is Succeeded {
                SaveStep::Saved
            } else {
                SaveStep::RemoveTemporary(SaveError::Replace)
            },
            SaveStep::RemoveTemporary(error) => SaveStep::NotSaved(error),
            SaveStep::Saved | SaveStep::NotSaved(_) => self,
        }
    }

    /// The step after this one, given what came of it.
    pub fn next(self, policy: SavePolicy, outcome: SaveOutcome) -> (res: SaveStep)
        ensures
            res == self.following(policy, outcome),
    {
        let succeeded = matches!(outcome, SaveOutcome::Succeeded);
        match self {
            SaveStep::CreateDirectory => if succeeded {
                SaveStep::CreateTemporary(0)
            } else {
                SaveStep::NotSaved(SaveError::CreateDirectory)
            },
            SaveStep::CreateTemporary(number) => if succeeded {
                SaveStep::Write
            } else if matches!(outcome, SaveOutcome::AlreadyExists) && policy.names > 1 {
                if number < policy.names - 1 {
                    SaveStep::CreateTemporary(number + 1)
                } else {
                    SaveStep::NotSaved(SaveError::NoFreeName)
                }
            } else if policy.remove_when_not_created {
                SaveStep::RemoveTemporary(SaveError::CreateTemporary)
            } else {
                SaveStep::NotSaved(SaveError::CreateTemporary)
            },
            SaveStep::Write => if succeeded {
                SaveStep::Sync
            } else {
                SaveStep::RemoveTemporary(SaveError::Write)
            },
            SaveStep::Sync => if succeeded {
                SaveStep::Replace
            } else {
                SaveStep::RemoveTemporary(SaveError::Sync)
            },
            SaveStep::Replace => if succeeded {
                SaveStep::Saved
            } else {
                SaveStep::RemoveTemporary(SaveError::Replace)
            },
            SaveStep::RemoveTemporary(error) => SaveStep::NotSaved(error),
            SaveStep::Saved | SaveStep::NotSaved(_) => self,
        }
    }
}

/// The step that a save has reached after the first `outcomes`.
pub open spec fn save_reaches(policy: SavePolicy, outcomes: Seq<SaveOutcome>) -> SaveStep
    decreases outcomes.len(),
{
    if outcomes.len() == 0 {
        SaveStep::CreateDirectory
    } else {
        save_reaches(policy, outcomes.drop_last()).following(policy, outcomes.last())
    }
}

/// The old file is replaced only when every earlier step succeeded: whenever
/// the save is about to rename, the temporary file was created, written and
/// flushed by the three outcomes just before.
pub proof fn law_replace_only_complete_files(policy: SavePolicy, outcomes: Seq<SaveOutcome>)
    requires
        save_reaches(policy, outcomes) is Replace,
    ensures
        outcomes.len() >= 4,
        outcomes[outcomes.len() - 1] is Succeeded,
        outcomes[outcomes.len() - 2] is Succeeded,
        outcomes[outcomes.len() - 3] is Succeeded,
        save_reaches(policy, outcomes.take(outcomes.len() - 1)) is Sync,
        save_reaches(policy, outcomes.take(outcomes.len() - 2)) is Write,
        save_reaches(policy, outcomes.take(outcomes.len() - 3)) is CreateTemporary,
{
    let a = outcomes.drop_last();
    assert(a == outcomes.take(outcomes.len() - 1));
    assert(save_reaches(policy, a) is Sync);
    let b = a.drop_last();
    assert(b == outcomes.take(outcomes.len() - 2));
    assert(save_reaches(policy, b) is Write);
    let c = b.drop_last();
    assert(c == outcomes.take(outcomes.len() - 3));
    assert(save_reaches(policy, c) is CreateTemporary);
}

/// After the temporary file was created, a save that fails removes it before it
/// ends, and reports the step that failed.
pub proof fn law_failed_saves_clean_up(policy: SavePolicy, step: SaveStep, outcome: SaveOutcome)
    requires
        step is Write || step is Sync || step is Replace,
        !(outcome is Succeeded),
    ensures
        step.following(policy, outcome) is RemoveTemporary,
        forall|later: SaveOutcome|
            #[trigger] step.following(policy, outcome).following(policy, later)
                == SaveStep::NotSaved(
                match step {
                    SaveStep::Write => SaveError::Write,
                    SaveStep::Sync => SaveError::Sync,
                    _ => SaveError::Replace,
                },
            ),
{
}

/// An upper bound on the steps that are left.
pub open spec fn steps_left(policy: SavePolicy, step: SaveStep) -> int {
    match step {
        SaveStep::CreateDirectory => policy.names + 6,
        SaveStep::CreateTemporary(number) => if number < policy.names {
            policy.names - number + 5
        } else {
            5
        },
        SaveStep::Write => 4,
        SaveStep::Sync => 3,
        SaveStep::Replace => 2,
        SaveStep::RemoveTemporary(_) => 1,
        SaveStep::Saved | SaveStep::NotSaved(_) => 0,
    }
}

/// A save always comes to an end: every step brings it nearer, whatever came of
/// the step before.
pub proof fn law_saves_end(policy: SavePolicy, step: SaveStep, outcome: SaveOutcome)
    ensures
        steps_left(policy, step) >= 0,
        step.is_final() <==> steps_left(policy, step) == 0,
        !step.is_final() ==> steps_left(policy, step.following(policy, outcome)) < steps_left(
            policy,
            step,
        ),
{
}

/// A file is replaced in five steps, and where each succeeds, it is: the directory,
/// the temporary file under its first name, its contents, the flush, and the rename.
pub proof fn law_how_files_are_replaced(policy: SavePolicy, number: u32)
    ensures
        SaveStep::CreateDirectory.following(policy, SaveOutcome::Succeeded)
            == SaveStep::CreateTemporary(0),
        SaveStep::CreateTemporary(number).following(policy, SaveOutcome::Succeeded)
            == SaveStep::Write,
        SaveStep::Write.following(policy, SaveOutcome::Succeeded) == SaveStep::Sync,
        SaveStep::Sync.following(policy, SaveOutcome::Succeeded) == SaveStep::Replace,
        SaveStep::Replace.following(policy, SaveOutcome::Succeeded) == SaveStep::Saved,
{
}

/// Where files are not replaced, and why. Without a directory nothing more is tried.
/// Where a name is taken, the next one is tried, as long as there are names left; any
/// other failure to create the file ends the save, and so does the only name being
/// taken.
pub proof fn law_why_files_are_not_replaced(
    policy: SavePolicy,
    number: u32,
    outcome: SaveOutcome,
    error: SaveError,
)
    requires
        !(outcome is Succeeded),
    ensures
        SaveStep::CreateDirectory.following(policy, outcome) == SaveStep::NotSaved(
            SaveError::CreateDirectory,
        ),
        ({
            let next = SaveStep::CreateTemporary(number).following(policy, outcome);
            let taken = outcome is AlreadyExists && policy.names > 1;
            &&& taken && number + 1 < policy.names ==> next == SaveStep::CreateTemporary(
                (number + 1) as u32,
            )
            &&& taken && number + 1 >= policy.names ==> next == SaveStep::NotSaved(
                SaveError::NoFreeName,
            )
            &&& !taken && policy.remove_when_not_created ==> next == SaveStep::RemoveTemporary(
                SaveError::CreateTemporary,
            )
            &&& !taken && !policy.remove_when_not_created ==> next == SaveStep::NotSaved(
                SaveError::CreateTemporary,
            )
        }),
        SaveStep::RemoveTemporary(error).following(policy, outcome) == SaveStep::NotSaved(error),
        SaveStep::RemoveTemporary(error).following(policy, SaveOutcome::Succeeded)
            == SaveStep::NotSaved(error),
        SaveStep::Saved.following(policy, outcome) == SaveStep::Saved,
        SaveStep::NotSaved(error).following(policy, outcome) == SaveStep::NotSaved(error),
{
}

} // verus!
