//! Install: build the configuration, persist it, register the service, and
//! take the artifacts away again when registration fails.
use vstd::prelude::*;
use crate::builder::ValidationError;
use crate::registrar::ServiceManagerError;
use crate::store::{apply_all, final_text, is_removal_plan, lemma_removal_clears, Artifact, Files, FsOp, IoError};

verus! {

#[derive(Clone, Copy, Debug, PartialEq, Eq, Structural)]
pub enum Phase {
    CollectingInput,
    Persisting,
    Registering,
    Done,
    /// Registration failed and the written artifacts are being removed.
    RolledBack,
    /// Input or persistence failed; nothing needs undoing.
    Failed,
}

/// What the host is to do next.
#[derive(Clone, Copy, Debug, PartialEq, Eq, Structural)]
pub enum Action {
    /// Write the configuration and secrets artifacts.
    Persist,
    /// Install the service unit.
    Register,
    /// Remove the artifacts just written, then report the failure.
    RemoveArtifacts,
    /// Report the outcome; nothing is left to do.
    Report,
}

/// Why an install stopped, the originating error unchanged.
#[derive(Clone, Debug)]
pub enum InstallError {
    Validation(ValidationError),
    Io(IoError),
    Service(ServiceManagerError),
}

pub open spec fn terminal(p: Phase) -> bool {
    p == Phase::Done || p == Phase::RolledBack || p == Phase::Failed
}

/// The next phase and action once the current phase's work succeeded (`ok`)
/// or failed.
pub open spec fn transition(p: Phase, ok: bool) -> (Phase, Action) {
    match p {
        Phase::CollectingInput => if ok { (Phase::Persisting, Action::Persist) } else { (Phase::Failed, Action::Report) },
        Phase::Persisting => if ok { (Phase::Registering, Action::Register) } else { (Phase::Failed, Action::Report) },
        Phase::Registering => if ok { (Phase::Done, Action::Report) } else { (Phase::RolledBack, Action::RemoveArtifacts) },
        _ => (p, Action::Report),
    }
}

/// Moves the install on by one phase.
pub fn advance(p: Phase, ok: bool) -> (r: (Phase, Action))
    requires
        !terminal(p),
    ensures
        r == transition(p, ok),
{
    match p {
        Phase::CollectingInput => if ok { (Phase::Persisting, Action::Persist) } else { (Phase::Failed, Action::Report) },
        Phase::Persisting => if ok { (Phase::Registering, Action::Register) } else { (Phase::Failed, Action::Report) },
        Phase::Registering => if ok { (Phase::Done, Action::Report) } else { (Phase::RolledBack, Action::RemoveArtifacts) },
        _ => (p, Action::Report),
    }
}

/// When the artifacts were written and registration then fails, the next
/// action removes them, and once the removal plan has run neither artifact
/// is left for a retry to trip over.
pub proof fn lemma_failed_registration_rolls_back(fs: Files, removal: Seq<FsOp>)
    requires
        is_removal_plan(removal),
    ensures
        transition(Phase::Registering, false) == (Phase::RolledBack, Action::RemoveArtifacts),
        !apply_all(fs, removal).contains_key(final_text(Artifact::Config)),
        !apply_all(fs, removal).contains_key(final_text(Artifact::Secrets)),
{
    lemma_removal_clears(fs, removal);
}

/// A failure before registration never asks for a rollback.
pub proof fn lemma_early_failure_no_rollback(p: Phase)
    requires
        p == Phase::CollectingInput || p == Phase::Persisting,
    ensures
        transition(p, false) == (Phase::Failed, Action::Report),
{
}

} // verus!
