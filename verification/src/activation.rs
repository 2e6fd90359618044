//! Putting a written figure folder in place on the card. The new folder is
//! prepared under a staging name; the old figure folder, when there is one,
//! is set aside, the staging folder takes the figure's name, and only then
//! is the old folder removed. When the new folder cannot take its place,
//! the old one is put back. The program around the library renames and
//! removes the folders; each step here says what to do next, given whether
//! the last one succeeded.
use vstd::prelude::*;
use crate::text::owned;

verus! {

/// Where an activation stands.
#[derive(PartialEq, Eq, Structural, Clone, Copy, Debug)]
pub enum ActivationState {
    /// The old folder is being set aside.
    SettingAside,
    /// The staging folder is taking the figure's name; `had_previous` tells
    /// whether an old folder was set aside first.
    Activating { had_previous: bool },
    /// The new folder is in place; the old one is being removed.
    RemovingPrevious,
    /// The old folder is being put back.
    Restoring,
    /// Nothing is left to do.
    Finished,
}

/// Why an activation failed.
#[derive(PartialEq, Eq, Structural, Clone, Copy, Debug)]
pub enum ActivationFailure {
    /// The old folder could not be set aside; nothing was replaced.
    SetAside,
    /// The new folder could not take the old one's place, which was put back.
    Restored,
    /// The new folder could not take its place (there was no old folder).
    Finalize,
    /// The new folder is in place, but the old one could not be removed.
    Cleanup,
}

/// What to do next.
#[derive(PartialEq, Eq, Structural, Clone, Copy, Debug)]
pub enum ActivationStep {
    /// Rename the figure folder to the previous name.
    SetAsidePrevious,
    /// Rename the staging folder to the figure's name.
    Activate,
    /// Rename the previous folder back to the figure's name.
    RestorePrevious,
    /// Remove the previous folder.
    RemovePrevious,
    /// Stop: done, or failed for this reason (the staging folder, if it is
    /// still there, is then removed).
    Stop(Option<ActivationFailure>),
}

/// The first step, for a figure folder that exists or not.
pub open spec fn start_of(destination_exists: bool) -> (ActivationState, ActivationStep) {
    if destination_exists {
        (ActivationState::SettingAside, ActivationStep::SetAsidePrevious)
    } else {
        (ActivationState::Activating { had_previous: false }, ActivationStep::Activate)
    }
}

/// The step after the one that `state` was waiting for, which succeeded or not.
pub open spec fn next_of(state: ActivationState, succeeded: bool) -> (ActivationState, ActivationStep) {
    match state {
        ActivationState::SettingAside => if succeeded {
            (ActivationState::Activating { had_previous: true }, ActivationStep::Activate)
        } else {
            (ActivationState::Finished, ActivationStep::Stop(Some(ActivationFailure::SetAside)))
        },
        ActivationState::Activating { had_previous } => if succeeded {
            if had_previous {
                (ActivationState::RemovingPrevious, ActivationStep::RemovePrevious)
            } else {
                (ActivationState::Finished, ActivationStep::Stop(None))
            }
        } else if had_previous {
            (ActivationState::Restoring, ActivationStep::RestorePrevious)
        } else {
            (ActivationState::Finished, ActivationStep::Stop(Some(ActivationFailure::Finalize)))
        },
        ActivationState::RemovingPrevious => if succeeded {
            (ActivationState::Finished, ActivationStep::Stop(None))
        } else {
            (ActivationState::Finished, ActivationStep::Stop(Some(ActivationFailure::Cleanup)))
        },
        ActivationState::Restoring => (
            ActivationState::Finished,
            ActivationStep::Stop(Some(ActivationFailure::Restored)),
        ),
        ActivationState::Finished => (ActivationState::Finished, ActivationStep::Stop(None)),
    }
}

/// The first step of an activation.
pub fn activation_start(destination_exists: bool) -> (result: (ActivationState, ActivationStep))
    ensures
        result == start_of(destination_exists),
{
    if destination_exists {
        (ActivationState::SettingAside, ActivationStep::SetAsidePrevious)
    } else {
        (ActivationState::Activating { had_previous: false }, ActivationStep::Activate)
    }
}

/// The next step of an activation, given whether the last step succeeded.
pub fn activation_next(state: ActivationState, succeeded: bool) -> (result: (ActivationState, ActivationStep))
    ensures
        result == next_of(state, succeeded),
{
    match state {
        ActivationState::SettingAside => if succeeded {
            (ActivationState::Activating { had_previous: true }, ActivationStep::Activate)
        } else {
            (ActivationState::Finished, ActivationStep::Stop(Some(ActivationFailure::SetAside)))
        },
        ActivationState::Activating { had_previous } => if succeeded {
            if had_previous {
                (ActivationState::RemovingPrevious, ActivationStep::RemovePrevious)
            } else {
                (ActivationState::Finished, ActivationStep::Stop(None))
            }
        } else if had_previous {
            (ActivationState::Restoring, ActivationStep::RestorePrevious)
        } else {
            (ActivationState::Finished, ActivationStep::Stop(Some(ActivationFailure::Finalize)))
        },
        ActivationState::RemovingPrevious => if succeeded {
            (ActivationState::Finished, ActivationStep::Stop(None))
        } else {
            (ActivationState::Finished, ActivationStep::Stop(Some(ActivationFailure::Cleanup)))
        },
        ActivationState::Restoring => (
            ActivationState::Finished,
            ActivationStep::Stop(Some(ActivationFailure::Restored)),
        ),
        ActivationState::Finished => (ActivationState::Finished, ActivationStep::Stop(None)),
    }
}

/// What a failed activation tells the user, before the system's own words
/// (a failed removal of the old folder is told in those words alone).
pub open spec fn failure_message_of(failure: ActivationFailure) -> Seq<char> {
    match failure {
        ActivationFailure::SetAside => "Impossible de préparer le remplacement de la figurine."@,
        ActivationFailure::Restored => "Le remplacement a échoué ; l'ancienne version a été restaurée."@,
        ActivationFailure::Finalize => "Impossible de finaliser l'écriture sur la carte."@,
        ActivationFailure::Cleanup => Seq::empty(),
    }
}

/// What a failed activation tells the user.
pub fn failure_message(failure: ActivationFailure) -> (text: String)
    ensures
        text@ == failure_message_of(failure),
{
    match failure {
        ActivationFailure::SetAside => owned("Impossible de préparer le remplacement de la figurine."),
        ActivationFailure::Restored => owned("Le remplacement a échoué ; l'ancienne version a été restaurée."),
        ActivationFailure::Finalize => owned("Impossible de finaliser l'écriture sur la carte."),
        ActivationFailure::Cleanup => String::new(),
    }
}

// ---------------------------------------------------------------------------
// What the folders hold
// ---------------------------------------------------------------------------

/// What a folder name holds: nothing, the old figure folder, or the new one.
#[derive(PartialEq, Eq, Structural, Clone, Copy, Debug)]
pub enum Slot {
    Empty,
    Old,
    New,
}

/// What the figure's name, the previous name and the staging name hold.
#[derive(PartialEq, Eq, Structural, Clone, Copy, Debug)]
pub struct Folders {
    pub destination: Slot,
    pub previous: Slot,
    pub staging: Slot,
}

/// The folders before an activation: the new folder is staged.
pub open spec fn initial_folders(destination_exists: bool) -> Folders {
    Folders {
        destination: if destination_exists { Slot::Old } else { Slot::Empty },
        previous: Slot::Empty,
        staging: Slot::New,
    }
}

/// The folders after `step` was performed: a rename moves a folder from one
/// name to another; a failed step changes nothing.
pub open spec fn performed(step: ActivationStep, succeeded: bool, f: Folders) -> Folders {
    if !succeeded {
        f
    } else {
        match step {
            ActivationStep::SetAsidePrevious => Folders { previous: f.destination, destination: Slot::Empty, ..f },
            ActivationStep::Activate => Folders { destination: f.staging, staging: Slot::Empty, ..f },
            ActivationStep::RestorePrevious => Folders { destination: f.previous, previous: Slot::Empty, ..f },
            ActivationStep::RemovePrevious => Folders { previous: Slot::Empty, ..f },
            ActivationStep::Stop(_) => f,
        }
    }
}

/// When every step succeeds, the activation ends without failure, the new
/// folder holds the figure's name and neither the old nor the staged one is
/// left: whether the figure folder existed or not.
pub proof fn law_activation_puts_the_new_folder_in_place(destination_exists: bool)
    ensures
        ({
            let (s1, a1) = start_of(destination_exists);
            let f1 = performed(a1, true, initial_folders(destination_exists));
            let (s2, a2) = next_of(s1, true);
            let f2 = performed(a2, true, f1);
            let (s3, a3) = next_of(s2, true);
            let f3 = performed(a3, true, f2);
            let (s4, a4) = next_of(s3, true);
            let last = if destination_exists { a4 } else { a2 };
            let folders = if destination_exists { f3 } else { f1 };
            &&& last == ActivationStep::Stop(None)
            &&& folders == Folders { destination: Slot::New, previous: Slot::Empty, staging: Slot::Empty }
        }),
{
}

/// When the new folder cannot take the old one's place, the next step puts
/// the old one back; once that succeeds, the figure's name holds the old
/// folder again, the activation reports the restoration, and the staged
/// folder is still there to be removed.
pub proof fn law_failed_replacement_restores_the_old_folder()
    ensures
        ({
            let (s1, a1) = start_of(true);
            let f1 = performed(a1, true, initial_folders(true));
            let (s2, a2) = next_of(s1, true);
            let f2 = performed(a2, false, f1);
            let (s3, a3) = next_of(s2, false);
            let f3 = performed(a3, true, f2);
            let (s4, a4) = next_of(s3, true);
            &&& a3 == ActivationStep::RestorePrevious
            &&& f3 == Folders { destination: Slot::Old, previous: Slot::Empty, staging: Slot::New }
            &&& a4 == ActivationStep::Stop(Some(ActivationFailure::Restored))
        }),
{
}

/// Once the old folder is set aside, it is removed only after the new one
/// took its place; otherwise the next step puts it back.
pub proof fn law_set_aside_is_never_abandoned(succeeded: bool)
    ensures
        next_of(ActivationState::Activating { had_previous: true }, succeeded).1 == if succeeded {
            ActivationStep::RemovePrevious
        } else {
            ActivationStep::RestorePrevious
        },
{
}

} // verus!
