//! The update orchestrator, as a state machine: the phases of a run are
//! `Idle -> PreValidating -> BackingUp -> Copying -> Removing ->
//! PostValidating -> Done`, with `Aborted` reachable from pre-validation
//! (operator declines), from backup creation, and from any file operation
//! that hits a permission error.
//!
//! The machine only decides; performing filesystem work is the driver's
//! job. Each step consumes the event the driver observed and names the
//! next action, so the whole policy - what is skipped, what aborts, what
//! is tolerated - is a pure function proved here.

use vstd::prelude::*;
use crate::changes::{Changes, ChangesData};
use crate::text;

verus! {

/// The switches an update run obeys.
#[derive(Debug, Clone, Copy, PartialEq, Eq, Structural)]
pub struct UpdateConfig {
    /// A manifest file is configured (validation needs one).
    pub have_manifest: bool,
    /// Verify the staged update files before touching anything.
    pub validate_update: bool,
    /// Verify the whole target directory afterwards.
    pub validate_game: bool,
    /// Keep a backup of everything overwritten or removed.
    pub create_backup: bool,
    /// Run the copy phase.
    pub copy_files: bool,
    /// Run the remove phase.
    pub remove_files: bool,
}

/// The phase an update run is in.
#[derive(Debug, Clone, Copy, PartialEq, Eq, Structural)]
pub enum UpdatePhase {
    Idle,
    PreValidating,
    BackingUp,
    Copying,
    Removing,
    PostValidating,
    Done,
    Aborted,
}

/// What the driver must do next.
#[derive(Debug, Clone, Copy, PartialEq, Eq, Structural)]
pub enum UpdateAction {
    /// Verify the staged update directory, restricted to the changeset.
    RunPreValidation,
    /// Create the backup directory under the target directory.
    CreateBackupDir,
    /// Back up (when enabled) and then copy the file at this index of the
    /// copy list from the update directory into the target directory.
    CopyFile { index: usize },
    /// Back up (when enabled) and then delete the file at this index of
    /// the remove list from the target directory.
    RemoveFile { index: usize },
    /// Verify the whole target directory; the outcome is informational.
    RunPostValidation,
    /// Nothing remains: the update finished.
    Finish,
    /// Nothing remains: the update was aborted.
    Stop,
}

/// What the driver observed after performing the last action.
#[derive(Debug, Clone, Copy, PartialEq, Eq, Structural)]
pub enum UpdateEvent {
    /// Pre-validation found nothing wrong.
    PreValidationPassed,
    /// Pre-validation reported bad files and the operator was asked
    /// whether to continue anyway.
    PreValidationFailed { operator_continues: bool },
    /// The backup directory was created.
    BackupDirCreated,
    /// The backup directory already existed.
    BackupDirExists,
    /// The backup directory could not be created.
    BackupDirFailed,
    /// The file of the last copy or remove action was handled; a missing
    /// file or another tolerated error still counts as handled, only a
    /// permission error does not.
    FileHandled { permission_denied: bool },
    /// Post-validation finished.
    PostValidationDone,
}

/// An action that changes the target directory or creates the backup
/// directory.
pub open spec fn spec_mutating(a: UpdateAction) -> bool {
    a is CreateBackupDir || a is CopyFile || a is RemoveFile
}

/// The phase entered when the run reaches post-validation.
pub open spec fn spec_enter_post(c: UpdateConfig) -> UpdatePhase {
    if c.validate_game && c.have_manifest {
        UpdatePhase::PostValidating
    } else {
        UpdatePhase::Done
    }
}

/// The phase entered when the run reaches the remove phase.
pub open spec fn spec_enter_remove(c: UpdateConfig, rl: nat) -> UpdatePhase {
    if c.remove_files && rl > 0 {
        UpdatePhase::Removing
    } else {
        spec_enter_post(c)
    }
}

/// The phase entered when the run reaches the copy phase.
pub open spec fn spec_enter_copy(c: UpdateConfig, cl: nat, rl: nat) -> UpdatePhase {
    if c.copy_files && cl > 0 {
        UpdatePhase::Copying
    } else {
        spec_enter_remove(c, rl)
    }
}

/// The phase entered once pre-validation is passed or waived.
pub open spec fn spec_enter_backup(c: UpdateConfig, cl: nat, rl: nat) -> UpdatePhase {
    if c.create_backup {
        UpdatePhase::BackingUp
    } else {
        spec_enter_copy(c, cl, rl)
    }
}

/// The phase a fresh run starts in: pre-validation only when a manifest
/// is configured and pre-update validation is enabled.
pub open spec fn spec_initial_phase(c: UpdateConfig, cl: nat, rl: nat) -> UpdatePhase {
    if c.validate_update && c.have_manifest {
        UpdatePhase::PreValidating
    } else {
        spec_enter_backup(c, cl, rl)
    }
}

/// The action owed in a given phase.
pub open spec fn spec_action_of(phase: UpdatePhase, idx: nat) -> UpdateAction {
    match phase {
        UpdatePhase::PreValidating => UpdateAction::RunPreValidation,
        UpdatePhase::BackingUp => UpdateAction::CreateBackupDir,
        UpdatePhase::Copying => UpdateAction::CopyFile { index: idx as usize },
        UpdatePhase::Removing => UpdateAction::RemoveFile { index: idx as usize },
        UpdatePhase::PostValidating => UpdateAction::RunPostValidation,
        UpdatePhase::Done => UpdateAction::Finish,
        UpdatePhase::Idle => UpdateAction::Stop,
        UpdatePhase::Aborted => UpdateAction::Stop,
    }
}

/// The transition relation: the phase and file index after one event.
///
/// Declining the confirmation after a failed pre-validation aborts with
/// nothing mutated; a failed backup-directory creation aborts, but a
/// pre-existing backup directory is tolerated; a permission error on any
/// file aborts the whole run, while any other per-file failure moves on
/// to the next file.
pub open spec fn spec_step(
    c: UpdateConfig,
    cl: nat,
    rl: nat,
    phase: UpdatePhase,
    idx: nat,
    ev: UpdateEvent,
) -> (UpdatePhase, nat) {
    match (phase, ev) {
        (UpdatePhase::PreValidating, UpdateEvent::PreValidationPassed) => (
            spec_enter_backup(c, cl, rl),
            0,
        ),
        (
            UpdatePhase::PreValidating,
            UpdateEvent::PreValidationFailed { operator_continues },
        ) => if operator_continues {
            (spec_enter_backup(c, cl, rl), 0)
        } else {
            (UpdatePhase::Aborted, 0)
        },
        (UpdatePhase::BackingUp, UpdateEvent::BackupDirCreated) => (spec_enter_copy(c, cl, rl), 0),
        (UpdatePhase::BackingUp, UpdateEvent::BackupDirExists) => (spec_enter_copy(c, cl, rl), 0),
        (UpdatePhase::BackingUp, UpdateEvent::BackupDirFailed) => (UpdatePhase::Aborted, 0),
        (UpdatePhase::Copying, UpdateEvent::FileHandled { permission_denied }) => if (
        permission_denied) {
            (UpdatePhase::Aborted, 0)
        } else if idx + 1 < cl {
            (UpdatePhase::Copying, idx + 1)
        } else {
            (spec_enter_remove(c, rl), 0)
        },
        (UpdatePhase::Removing, UpdateEvent::FileHandled { permission_denied }) => if (
        permission_denied) {
            (UpdatePhase::Aborted, 0)
        } else if idx + 1 < rl {
            (UpdatePhase::Removing, idx + 1)
        } else {
            (spec_enter_post(c), 0)
        },
        (UpdatePhase::PostValidating, UpdateEvent::PostValidationDone) => (UpdatePhase::Done, 0),
        _ => (phase, idx),
    }
}

/// The paths the copy phase handles, in order: the changeset's added then
/// modified paths, skipping any path holding the installer's own metadata
/// marker.
pub open spec fn spec_copy_list(ps: Seq<Seq<char>>) -> Seq<Seq<char>>
    decreases ps.len(),
{
    if ps.len() == 0 {
        Seq::empty()
    } else if text::spec_contains(ps[0], ".RedAlt-Steam-Installer"@) {
        spec_copy_list(ps.skip(1))
    } else {
        seq![ps[0]] + spec_copy_list(ps.skip(1))
    }
}

/// The copy-phase paths of a changeset.
pub fn files_to_copy(changes: &Changes) -> (r: Vec<String>)
    ensures
        r.deep_view() == spec_copy_list(changes@.added + changes@.modified),
{
    let merged = changes.added_modified();
    let ghost ms = merged.deep_view();
    let mut r: Vec<String> = Vec::new();
    let mut i: usize = 0;
    proof {
        assert(ms.skip(0) =~= ms);
        assert(r.deep_view() =~= Seq::<Seq<char>>::empty());
        assert(r.deep_view() + spec_copy_list(ms) =~= spec_copy_list(ms));
    }
    while i < merged.len()
        invariant
            i <= merged@.len(),
            ms == merged.deep_view(),
            spec_copy_list(ms) == r.deep_view() + spec_copy_list(ms.skip(i as int)),
        decreases merged@.len() - i,
    {
        proof {
            assert(ms.skip(i as int).skip(1) =~= ms.skip(i + 1));
            assert(ms.skip(i as int)[0] == ms[i as int]);
            assert(ms[i as int] =~= merged@[i as int]@);
        }
        let ghost old_dv = r.deep_view();
        let cs = text::chars_of(merged[i].as_str());
        if !text::contains_sub(&cs, ".RedAlt-Steam-Installer") {
            let s = text::clone_string(&merged[i]);
            r.push(s);
            proof {
                assert(r.deep_view() =~= old_dv.push(ms[i as int]));
                assert(old_dv + (seq![ms[i as int]] + spec_copy_list(ms.skip(i + 1))) =~= r.deep_view()
                    + spec_copy_list(ms.skip(i + 1)));
            }
        }
        i = i + 1;
    }
    proof {
        assert(ms.skip(ms.len() as int) =~= Seq::<Seq<char>>::empty());
        assert(r.deep_view() + Seq::<Seq<char>>::empty() =~= r.deep_view());
    }
    r
}

/// The remove-phase paths of a changeset: its removed paths, in order.
pub fn files_to_remove(changes: &Changes) -> (r: Vec<String>)
    ensures
        r.deep_view() == changes@.removed,
{
    let mut r: Vec<String> = Vec::new();
    let mut i: usize = 0;
    while i < changes.removed.len()
        invariant
            i <= changes.removed@.len(),
            r.deep_view() == changes.removed.deep_view().take(i as int),
        decreases changes.removed@.len() - i,
    {
        let ghost old_dv = r.deep_view();
        let s = text::clone_string(&changes.removed[i]);
        r.push(s);
        proof {
            assert(r.deep_view() =~= old_dv.push(s@));
            assert(changes.removed.deep_view().take(i + 1) =~= changes.removed.deep_view().take(
                i as int,
            ).push(changes.removed.deep_view()[i as int]));
        }
        i = i + 1;
    }
    proof {
        assert(changes.removed.deep_view().take(changes.removed@.len() as int)
            =~= changes.removed.deep_view());
    }
    r
}

/// One update run: its switches, its two work lists, and where it stands.
pub struct Updater {
    pub config: UpdateConfig,
    /// Paths to copy, update directory to target directory.
    pub copy_list: Vec<String>,
    /// Paths to delete from the target directory.
    pub remove_list: Vec<String>,
    pub phase: UpdatePhase,
    /// Position in the current phase's work list.
    pub next_index: usize,
}

impl Updater {
    /// The index stays within the current work list.
    pub open spec fn wf(&self) -> bool {
        &&& (self.phase is Copying ==> self.next_index < self.copy_list@.len())
        &&& (self.phase is Removing ==> self.next_index < self.remove_list@.len())
    }

    /// A fresh run for a changeset: work lists derived from it, standing
    /// in the initial phase.
    pub fn new(config: UpdateConfig, changes: &Changes) -> (r: Updater)
        ensures
            r.config == config,
            r.copy_list.deep_view() == spec_copy_list(changes@.added + changes@.modified),
            r.remove_list.deep_view() == changes@.removed,
            r.phase == spec_initial_phase(
                config,
                r.copy_list@.len() as nat,
                r.remove_list@.len() as nat,
            ),
            r.next_index == 0,
            r.wf(),
    {
        let copy_list = files_to_copy(changes);
        let remove_list = files_to_remove(changes);
        let cl = copy_list.len();
        let rl = remove_list.len();
        let phase: UpdatePhase = if config.validate_update && config.have_manifest {
            UpdatePhase::PreValidating
        } else if config.create_backup {
            UpdatePhase::BackingUp
        } else if config.copy_files && cl > 0 {
            UpdatePhase::Copying
        } else if config.remove_files && rl > 0 {
            UpdatePhase::Removing
        } else if config.validate_game && config.have_manifest {
            UpdatePhase::PostValidating
        } else {
            UpdatePhase::Done
        };
        Updater { config, copy_list, remove_list, phase, next_index: 0 }
    }

    /// The action owed in the current phase.
    pub fn next_action(&self) -> (a: UpdateAction)
        ensures
            a == spec_action_of(self.phase, self.next_index as nat),
    {
        match self.phase {
            UpdatePhase::PreValidating => UpdateAction::RunPreValidation,
            UpdatePhase::BackingUp => UpdateAction::CreateBackupDir,
            UpdatePhase::Copying => (UpdateAction::CopyFile { index: self.next_index }),
            UpdatePhase::Removing => (UpdateAction::RemoveFile { index: self.next_index }),
            UpdatePhase::PostValidating => UpdateAction::RunPostValidation,
            UpdatePhase::Done => UpdateAction::Finish,
            UpdatePhase::Idle => UpdateAction::Stop,
            UpdatePhase::Aborted => UpdateAction::Stop,
        }
    }

    /// Consumes the event the driver observed and names the next action.
    pub fn step(&mut self, ev: UpdateEvent) -> (a: UpdateAction)
        requires
            old(self).wf(),
        ensures
            final(self).wf(),
            final(self).config == old(self).config,
            final(self).copy_list@ == old(self).copy_list@,
            final(self).remove_list@ == old(self).remove_list@,
            (final(self).phase, final(self).next_index as nat) == spec_step(
                old(self).config,
                old(self).copy_list@.len() as nat,
                old(self).remove_list@.len() as nat,
                old(self).phase,
                old(self).next_index as nat,
                ev,
            ),
            a == spec_action_of(final(self).phase, final(self).next_index as nat),
    {
        let cl = self.copy_list.len();
        let rl = self.remove_list.len();
        match (self.phase, ev) {
            (UpdatePhase::PreValidating, UpdateEvent::PreValidationPassed) => {
                self.phase = self.enter_backup();
                self.next_index = 0;
            },
            (
                UpdatePhase::PreValidating,
                UpdateEvent::PreValidationFailed { operator_continues },
            ) => {
                if operator_continues {
                    self.phase = self.enter_backup();
                } else {
                    self.phase = UpdatePhase::Aborted;
                }
                self.next_index = 0;
            },
            (UpdatePhase::BackingUp, UpdateEvent::BackupDirCreated) => {
                self.phase = self.enter_copy();
                self.next_index = 0;
            },
            (UpdatePhase::BackingUp, UpdateEvent::BackupDirExists) => {
                self.phase = self.enter_copy();
                self.next_index = 0;
            },
            (UpdatePhase::BackingUp, UpdateEvent::BackupDirFailed) => {
                self.phase = UpdatePhase::Aborted;
                self.next_index = 0;
            },
            (UpdatePhase::Copying, UpdateEvent::FileHandled { permission_denied }) => {
                if permission_denied {
                    self.phase = UpdatePhase::Aborted;
                    self.next_index = 0;
                } else if self.next_index + 1 < cl {
                    self.next_index = self.next_index + 1;
                } else {
                    self.phase = self.enter_remove();
                    self.next_index = 0;
                }
            },
            (UpdatePhase::Removing, UpdateEvent::FileHandled { permission_denied }) => {
                if permission_denied {
                    self.phase = UpdatePhase::Aborted;
                    self.next_index = 0;
                } else if self.next_index + 1 < rl {
                    self.next_index = self.next_index + 1;
                } else {
                    self.phase = self.enter_post();
                    self.next_index = 0;
                }
            },
            (UpdatePhase::PostValidating, UpdateEvent::PostValidationDone) => {
                self.phase = UpdatePhase::Done;
                self.next_index = 0;
            },
            _ => {},
        }
        self.next_action()
    }

    fn enter_post(&self) -> (p: UpdatePhase)
        ensures
            p == spec_enter_post(self.config),
    {
        if self.config.validate_game && self.config.have_manifest {
            UpdatePhase::PostValidating
        } else {
            UpdatePhase::Done
        }
    }

    fn enter_remove(&self) -> (p: UpdatePhase)
        ensures
            p == spec_enter_remove(self.config, self.remove_list@.len() as nat),
    {
        if self.config.remove_files && self.remove_list.len() > 0 {
            UpdatePhase::Removing
        } else {
            self.enter_post()
        }
    }

    fn enter_copy(&self) -> (p: UpdatePhase)
        ensures
            p == spec_enter_copy(
                self.config,
                self.copy_list@.len() as nat,
                self.remove_list@.len() as nat,
            ),
    {
        if self.config.copy_files && self.copy_list.len() > 0 {
            UpdatePhase::Copying
        } else {
            self.enter_remove()
        }
    }

    fn enter_backup(&self) -> (p: UpdatePhase)
        ensures
            p == spec_enter_backup(
                self.config,
                self.copy_list@.len() as nat,
                self.remove_list@.len() as nat,
            ),
    {
        if self.config.create_backup {
            UpdatePhase::BackingUp
        } else {
            self.enter_copy()
        }
    }
}

/// The run, from the given phase on, emits a mutating action at some
/// point of the event trace.
pub open spec fn spec_trace_mutates(
    c: UpdateConfig,
    cl: nat,
    rl: nat,
    phase: UpdatePhase,
    idx: nat,
    events: Seq<UpdateEvent>,
) -> bool
    decreases events.len(),
{
    if spec_mutating(spec_action_of(phase, idx)) {
        true
    } else if events.len() == 0 {
        false
    } else {
        let next = spec_step(c, cl, rl, phase, idx, events[0]);
        spec_trace_mutates(c, cl, rl, next.0, next.1, events.skip(1))
    }
}

/// An aborted run stays aborted and never emits a mutating action,
/// whatever events still arrive.
pub proof fn lemma_aborted_mutates_nothing(
    c: UpdateConfig,
    cl: nat,
    rl: nat,
    idx: nat,
    events: Seq<UpdateEvent>,
)
    ensures
        !spec_trace_mutates(c, cl, rl, UpdatePhase::Aborted, idx, events),
    decreases events.len(),
{
    if events.len() > 0 {
        let next = spec_step(c, cl, rl, UpdatePhase::Aborted, idx, events[0]);
        assert(next.0 == UpdatePhase::Aborted);
        lemma_aborted_mutates_nothing(c, cl, rl, next.1, events.skip(1));
    }
}

/// If pre-validation reports bad files and the operator declines to
/// continue, the run mutates nothing: no backup directory is created and
/// no file is copied or removed, whatever events follow.
pub proof fn lemma_decline_mutates_nothing(
    c: UpdateConfig,
    cl: nat,
    rl: nat,
    events: Seq<UpdateEvent>,
)
    requires
        c.validate_update && c.have_manifest,
        events.len() > 0,
        events[0] == (UpdateEvent::PreValidationFailed { operator_continues: false }),
    ensures
        !spec_trace_mutates(c, cl, rl, spec_initial_phase(c, cl, rl), 0, events),
{
    assert(spec_initial_phase(c, cl, rl) == UpdatePhase::PreValidating);
    let next = spec_step(c, cl, rl, UpdatePhase::PreValidating, 0, events[0]);
    assert(next.0 == UpdatePhase::Aborted);
    lemma_aborted_mutates_nothing(c, cl, rl, next.1, events.skip(1));
}

/// A pre-existing backup directory is not a failure: in the backing-up
/// phase it advances the run exactly as a fresh creation does, so a
/// second run with backups enabled proceeds past its backup step.
pub proof fn lemma_backup_dir_exists_tolerated(
    c: UpdateConfig,
    cl: nat,
    rl: nat,
    idx: nat,
)
    ensures
        spec_step(c, cl, rl, UpdatePhase::BackingUp, idx, UpdateEvent::BackupDirExists)
            == spec_step(c, cl, rl, UpdatePhase::BackingUp, idx, UpdateEvent::BackupDirCreated),
        spec_step(c, cl, rl, UpdatePhase::BackingUp, idx, UpdateEvent::BackupDirExists).0
            != UpdatePhase::Aborted,
{
}

} // verus!
