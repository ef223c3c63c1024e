//! How a state on disk is replaced by a new one. The files are moved outside: what is said here
//! is which of them is moved next, and which of them is read.

use vstd::prelude::*;

verus! {

/// Which file a state is read from.
#[derive(Debug, Clone, Copy, PartialEq, Eq, Structural)]
pub enum StateSource {
    Primary,
    Backup,
}

/// The file to read: the backup only where an interrupted save has left nothing else.
pub open spec fn spec_state_source(primary_exists: bool, backup_exists: bool) -> Option<
    StateSource,
> {
    if primary_exists {
        Some(StateSource::Primary)
    } else if backup_exists {
        Some(StateSource::Backup)
    } else {
        None
    }
}

/// Picks the file to read.
#[must_use]
pub fn choose_state_source(primary_exists: bool, backup_exists: bool) -> (source: Option<
    StateSource,
>)
    ensures
        source == spec_state_source(primary_exists, backup_exists),
{
    if primary_exists {
        Some(StateSource::Primary)
    } else if backup_exists {
        Some(StateSource::Backup)
    } else {
        None
    }
}

/// What is done to the files of a state: the state itself, the backup that is made of it while
/// it is replaced, and the temporary file that the new state is written to.
#[derive(Debug, Clone, Copy, PartialEq, Eq, Structural)]
pub enum SaveAction {
    /// Remove what an earlier save may have left.
    RemoveTemporary,
    /// Write the new state, and have it on disk.
    WriteTemporary,
    /// Remove a backup that an earlier save may have left.
    RemoveBackup,
    /// Look whether there is a state.
    LookForPrimary,
    /// Move the state out of the way.
    MovePrimaryToBackup,
    /// Put the new state into its place.
    MoveTemporaryToPrimary,
    /// Look whether there is a backup, and no state.
    LookForRestore,
    /// Move the old state back.
    RestoreBackup,
    /// Remove the backup that is no longer needed.
    RemoveOldBackup,
}

/// Where a save stands.
#[derive(Debug, Clone, Copy, PartialEq, Eq, Structural)]
pub enum SaveStep {
    Perform(SaveAction),
    Saved,
    Failed,
}

/// What follows an action: by whether it succeeded, or by whether what it looked for is there.
pub open spec fn spec_next_step(action: SaveAction, outcome: bool) -> SaveStep {
    match action {
        SaveAction::RemoveTemporary => SaveStep::Perform(SaveAction::WriteTemporary),
        SaveAction::WriteTemporary => if outcome {
            SaveStep::Perform(SaveAction::RemoveBackup)
        } else {
            SaveStep::Failed
        },
        SaveAction::RemoveBackup => SaveStep::Perform(SaveAction::LookForPrimary),
        SaveAction::LookForPrimary => if outcome {
            SaveStep::Perform(SaveAction::MovePrimaryToBackup)
        } else {
            SaveStep::Perform(SaveAction::MoveTemporaryToPrimary)
        },
        SaveAction::MovePrimaryToBackup => if outcome {
            SaveStep::Perform(SaveAction::MoveTemporaryToPrimary)
        } else {
            SaveStep::Failed
        },
        SaveAction::MoveTemporaryToPrimary => if outcome {
            SaveStep::Perform(SaveAction::RemoveOldBackup)
        } else {
            SaveStep::Perform(SaveAction::LookForRestore)
        },
        SaveAction::LookForRestore => if outcome {
            SaveStep::Perform(SaveAction::RestoreBackup)
        } else {
            SaveStep::Failed
        },
        SaveAction::RestoreBackup => SaveStep::Failed,
        SaveAction::RemoveOldBackup => SaveStep::Saved,
    }
}

/// The first step of a save.
#[must_use]
pub fn first_save_step() -> (step: SaveStep)
    ensures
        step == SaveStep::Perform(SaveAction::RemoveTemporary),
{
    SaveStep::Perform(SaveAction::RemoveTemporary)
}

/// The step that follows an action.
#[must_use]
pub fn next_save_step(action: SaveAction, outcome: bool) -> (step: SaveStep)
    ensures
        step == spec_next_step(action, outcome),
{
    match action {
        SaveAction::RemoveTemporary => SaveStep::Perform(SaveAction::WriteTemporary),
        SaveAction::WriteTemporary => if outcome {
            SaveStep::Perform(SaveAction::RemoveBackup)
        } else {
            SaveStep::Failed
        },
        SaveAction::RemoveBackup => SaveStep::Perform(SaveAction::LookForPrimary),
        SaveAction::LookForPrimary => if outcome {
            SaveStep::Perform(SaveAction::MovePrimaryToBackup)
        } else {
            SaveStep::Perform(SaveAction::MoveTemporaryToPrimary)
        },
        SaveAction::MovePrimaryToBackup => if outcome {
            SaveStep::Perform(SaveAction::MoveTemporaryToPrimary)
        } else {
            SaveStep::Failed
        },
        SaveAction::MoveTemporaryToPrimary => if outcome {
            SaveStep::Perform(SaveAction::RemoveOldBackup)
        } else {
            SaveStep::Perform(SaveAction::LookForRestore)
        },
        SaveAction::LookForRestore => if outcome {
            SaveStep::Perform(SaveAction::RestoreBackup)
        } else {
            SaveStep::Failed
        },
        SaveAction::RestoreBackup => SaveStep::Failed,
        SaveAction::RemoveOldBackup => SaveStep::Saved,
    }
}

/// What the three files hold.
pub struct Disk {
    pub primary: Option<Seq<u8>>,
    pub backup: Option<Seq<u8>>,
    pub temporary: Option<Seq<u8>>,
}

impl Disk {
    /// The state that is read: what the file holds that is picked.
    pub open spec fn loadable(self) -> Option<Seq<u8>> {
        match spec_state_source(self.primary is Some, self.backup is Some) {
            Some(StateSource::Primary) => self.primary,
            Some(StateSource::Backup) => self.backup,
            None => None,
        }
    }

    /// What an action can do to the files. One that fails changes nothing, but for a write, of
    /// which anything can be left in the temporary file.
    pub open spec fn can_become(
        self,
        action: SaveAction,
        state: Seq<u8>,
        outcome: bool,
        after: Self,
    ) -> bool {
        match action {
            SaveAction::RemoveTemporary => after == if outcome {
                Disk { temporary: None, ..self }
            } else {
                self
            },
            SaveAction::WriteTemporary => {
                &&& after.primary == self.primary
                &&& after.backup == self.backup
                &&& outcome ==> after.temporary == Some(state)
            },
            SaveAction::RemoveBackup | SaveAction::RemoveOldBackup => after == if outcome {
                Disk { backup: None, ..self }
            } else {
                self
            },
            SaveAction::LookForPrimary => after == self && outcome == self.primary is Some,
            SaveAction::LookForRestore => after == self && outcome == (self.backup is Some
                && self.primary is None),
            SaveAction::MovePrimaryToBackup => after == if outcome {
                Disk { primary: None, backup: self.primary, ..self }
            } else {
                self
            },
            SaveAction::MoveTemporaryToPrimary => after == if outcome {
                Disk { primary: self.temporary, temporary: None, ..self }
            } else {
                self
            },
            SaveAction::RestoreBackup => after == if outcome {
                Disk { primary: self.backup, backup: None, ..self }
            } else {
                self
            },
        }
    }
}

/// The action of one step was performed, and the next step follows from it.
pub open spec fn goes_on(
    disks: Seq<Disk>,
    steps: Seq<SaveStep>,
    outcomes: Seq<bool>,
    state: Seq<u8>,
    at: int,
) -> bool {
    &&& steps[at] matches SaveStep::Perform(action)
    &&& disks[at].can_become(action, state, outcomes[at], disks[at + 1])
    &&& steps[at + 1] == spec_next_step(action, outcomes[at])
}

/// A save as it goes, up to any moment: what the files hold, where the save stands, and how its
/// actions came out.
pub open spec fn is_save(
    disks: Seq<Disk>,
    steps: Seq<SaveStep>,
    outcomes: Seq<bool>,
    state: Seq<u8>,
) -> bool {
    &&& disks.len() == outcomes.len() + 1
    &&& steps.len() == outcomes.len() + 1
    &&& steps[0] == SaveStep::Perform(SaveAction::RemoveTemporary)
    &&& forall|i: int|
        0 <= i < outcomes.len() ==> #[trigger] goes_on(disks, steps, outcomes, state, i)
}

/// What holds of the files at each step of a save, where there was a state before.
spec fn holds_at(disk: Disk, step: SaveStep, old: Option<Seq<u8>>, state: Seq<u8>) -> bool {
    match step {
        SaveStep::Perform(SaveAction::RemoveTemporary) => disk.primary == old,
        SaveStep::Perform(SaveAction::WriteTemporary) => disk.primary == old,
        SaveStep::Perform(SaveAction::RemoveBackup) => disk.primary == old && disk.temporary
            == Some(state),
        SaveStep::Perform(SaveAction::LookForPrimary) => disk.primary == old && disk.temporary
            == Some(state),
        SaveStep::Perform(SaveAction::MovePrimaryToBackup) => old is Some && disk.primary == old
            && disk.temporary == Some(state),
        SaveStep::Perform(SaveAction::MoveTemporaryToPrimary) => disk.primary is None && (old
            is Some ==> disk.backup == old) && disk.temporary == Some(state),
        SaveStep::Perform(SaveAction::LookForRestore) => disk.primary is None && (old is Some
            ==> disk.backup == old),
        SaveStep::Perform(SaveAction::RestoreBackup) => disk.primary is None && (old is Some
            ==> disk.backup == old),
        SaveStep::Perform(SaveAction::RemoveOldBackup) => disk.primary == Some(state),
        SaveStep::Saved => disk.primary == Some(state),
        SaveStep::Failed => old is Some ==> disk.loadable() == old,
    }
}

proof fn lemma_save_holds(
    disks: Seq<Disk>,
    steps: Seq<SaveStep>,
    outcomes: Seq<bool>,
    state: Seq<u8>,
    at: int,
)
    requires
        is_save(disks, steps, outcomes, state),
        0 <= at < disks.len(),
    ensures
        holds_at(disks[at], steps[at], disks[0].primary, state),
    decreases at,
{
    if at > 0 {
        lemma_save_holds(disks, steps, outcomes, state, at - 1);
        assert(goes_on(disks, steps, outcomes, state, at - 1));
    }
}

/// A save that is interrupted loses nothing: whenever it ends, what is read is the old state or
/// the new one. One that succeeds leaves the new state, and one that fails the old.
pub proof fn law_interrupted_save_loses_nothing(
    disks: Seq<Disk>,
    steps: Seq<SaveStep>,
    outcomes: Seq<bool>,
    old_state: Seq<u8>,
    state: Seq<u8>,
)
    requires
        is_save(disks, steps, outcomes, state),
        disks[0].primary == Some(old_state),
    ensures
        disks.last().loadable() == Some(old_state) || disks.last().loadable() == Some(state),
        steps.last() is Saved ==> disks.last().loadable() == Some(state),
        steps.last() is Failed ==> disks.last().loadable() == Some(old_state),
{
    lemma_save_holds(disks, steps, outcomes, state, disks.len() - 1);
}

/// A save that succeeds leaves the new state, whatever was there before.
pub proof fn law_saved_state_is_read_back(
    disks: Seq<Disk>,
    steps: Seq<SaveStep>,
    outcomes: Seq<bool>,
    state: Seq<u8>,
)
    requires
        is_save(disks, steps, outcomes, state),
        steps.last() is Saved,
    ensures
        disks.last().loadable() == Some(state),
{
    lemma_save_holds(disks, steps, outcomes, state, disks.len() - 1);
}

/// A save comes to an end: no action follows itself, however the actions come out, so that
/// eight of them are the most.
pub proof fn law_save_ends(
    disks: Seq<Disk>,
    steps: Seq<SaveStep>,
    outcomes: Seq<bool>,
    state: Seq<u8>,
)
    requires
        is_save(disks, steps, outcomes, state),
    ensures
        outcomes.len() <= 8,
        outcomes.len() == 8 ==> !(steps.last() is Perform),
{
    lemma_save_advances(disks, steps, outcomes, state, outcomes.len() as int);
}

/// How far a step is from the end of a save, at most.
spec fn distance(step: SaveStep) -> int {
    match step {
        SaveStep::Perform(SaveAction::RemoveTemporary) => 8,
        SaveStep::Perform(SaveAction::WriteTemporary) => 7,
        SaveStep::Perform(SaveAction::RemoveBackup) => 6,
        SaveStep::Perform(SaveAction::LookForPrimary) => 5,
        SaveStep::Perform(SaveAction::MovePrimaryToBackup) => 4,
        SaveStep::Perform(SaveAction::MoveTemporaryToPrimary) => 3,
        SaveStep::Perform(SaveAction::LookForRestore) => 2,
        SaveStep::Perform(SaveAction::RestoreBackup) => 1,
        SaveStep::Perform(SaveAction::RemoveOldBackup) => 1,
        SaveStep::Saved => 0,
        SaveStep::Failed => 0,
    }
}

proof fn lemma_save_advances(
    disks: Seq<Disk>,
    steps: Seq<SaveStep>,
    outcomes: Seq<bool>,
    state: Seq<u8>,
    at: int,
)
    requires
        is_save(disks, steps, outcomes, state),
        0 <= at <= outcomes.len(),
    ensures
        at + distance(steps[at]) <= 8,
    decreases at,
{
    if at > 0 {
        lemma_save_advances(disks, steps, outcomes, state, at - 1);
        assert(goes_on(disks, steps, outcomes, state, at - 1));
    }
}

/// The primary state is read where it is there, the backup only where it is not, and nothing only
/// where there is neither.
pub proof fn law_primary_is_preferred(disk: Disk)
    ensures
        disk.primary is Some ==> disk.loadable() == disk.primary,
        disk.primary is None ==> disk.loadable() == disk.backup,
{
}

/// Where nothing fails, the state is saved: from any step that is taken, with each one a success
/// and with the disk as it should be, the next step leads on towards the end.
pub proof fn law_save_succeeds_without_failures(action: SaveAction)
    requires
        !(action is LookForRestore),
        !(action is RestoreBackup),
    ensures
        !(spec_next_step(action, true) is Failed),
        action is RemoveOldBackup <==> spec_next_step(action, true) is Saved,
        action is MoveTemporaryToPrimary ==> spec_next_step(action, true) == SaveStep::Perform(
            SaveAction::RemoveOldBackup,
        ),
        action is RemoveTemporary || action is RemoveBackup || action is RemoveOldBackup
            ==> spec_next_step(action, false) == spec_next_step(action, true),
{
}

/// A backup is restored where the new state could not be put in place and there is no other.
pub proof fn law_backup_is_restored()
    ensures
        spec_next_step(SaveAction::MoveTemporaryToPrimary, false) == SaveStep::Perform(
            SaveAction::LookForRestore,
        ),
        spec_next_step(SaveAction::LookForRestore, true) == SaveStep::Perform(
            SaveAction::RestoreBackup,
        ),
        spec_next_step(SaveAction::LookForRestore, false) is Failed,
        forall|outcome: bool| #[trigger]
            spec_next_step(SaveAction::RestoreBackup, outcome) is Failed,
{
}

/// A first state, which replaces none, is put in place without a backup; an earlier one is moved
/// aside before. A state that could not be written, or an earlier one that could not be moved, is
/// the end, and nothing is replaced.
pub proof fn law_earlier_state_is_moved_aside()
    ensures
        spec_next_step(SaveAction::LookForPrimary, false) == SaveStep::Perform(
            SaveAction::MoveTemporaryToPrimary,
        ),
        spec_next_step(SaveAction::LookForPrimary, true) == SaveStep::Perform(
            SaveAction::MovePrimaryToBackup,
        ),
        spec_next_step(SaveAction::WriteTemporary, false) is Failed,
        spec_next_step(SaveAction::MovePrimaryToBackup, false) is Failed,
        spec_next_step(SaveAction::MovePrimaryToBackup, true) == SaveStep::Perform(
            SaveAction::MoveTemporaryToPrimary,
        ),
{
}

} // verus!
