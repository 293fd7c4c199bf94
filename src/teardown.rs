//! Uninstall: a fixed sequence of independently fallible steps, every one
//! attempted whatever came before, and one outcome for all of them.
use vstd::prelude::*;
use crate::registrar::{scraper_unit, unit_path, verb_args, verb_words, Verb};
use crate::store::{artifact_dir, dir_text, Artifact};
use crate::text::texts;

verus! {

#[derive(Clone, Copy, Debug, PartialEq, Eq, Structural)]
pub enum Step {
    StopService,
    DisableService,
    RemoveUnitFile,
    RemoveConfigDir,
    RemoveSecretsDir,
    RemoveBinary,
    ReloadManager,
}

/// The number of teardown steps.
pub const STEP_COUNT: usize = 7;

/// The steps in the order in which they run.
pub open spec fn step_order() -> Seq<Step> {
    seq![
        Step::StopService,
        Step::DisableService,
        Step::RemoveUnitFile,
        Step::RemoveConfigDir,
        Step::RemoveSecretsDir,
        Step::RemoveBinary,
        Step::ReloadManager,
    ]
}

/// What the host does for a step.
#[derive(Clone, Debug)]
pub enum StepAction {
    /// Run the service manager with these arguments.
    Command { args: Vec<String> },
    /// Remove one file.
    RemoveFile { path: String },
    /// Remove a directory and everything under it.
    RemoveDir { path: String },
}

/// The steps that failed, in the order in which they ran.
#[derive(Clone, Debug)]
pub struct AggregatedError {
    pub failed_steps: Vec<Step>,
}

#[derive(Clone, Copy, Debug, PartialEq, Eq, Structural)]
pub enum TeardownOutcome {
    /// The operator declined; nothing was done.
    Cancelled,
    /// Every step succeeded.
    Complete,
}

/// The steps among the first `results.len()` whose result is a failure, in order.
pub open spec fn failures(results: Seq<bool>) -> Seq<Step>
    decreases results.len(),
{
    if results.len() == 0 {
        Seq::<Step>::empty()
    } else if results.last() {
        failures(results.drop_last())
    } else {
        failures(results.drop_last()).push(step_order()[results.len() - 1])
    }
}

/// The teardown in progress: whether it was confirmed and the result of
/// each step that has run.
pub struct Teardown {
    confirmed: bool,
    results: Vec<bool>,
}

pub fn step_at(i: usize) -> (r: Step)
    requires
        i < STEP_COUNT,
    ensures
        r == step_order()[i as int],
{
    if i == 0 {
        Step::StopService
    } else if i == 1 {
        Step::DisableService
    } else if i == 2 {
        Step::RemoveUnitFile
    } else if i == 3 {
        Step::RemoveConfigDir
    } else if i == 4 {
        Step::RemoveSecretsDir
    } else if i == 5 {
        Step::RemoveBinary
    } else {
        Step::ReloadManager
    }
}

/// What the host does for each step.
pub fn step_action(step: Step) -> (r: StepAction)
    ensures
        performs(step, r),
{
    let unit = scraper_unit();
    match step {
        Step::StopService => StepAction::Command { args: verb_args(Verb::Stop, &unit.name) },
        Step::DisableService => StepAction::Command { args: verb_args(Verb::Disable, &unit.name) },
        Step::RemoveUnitFile => StepAction::RemoveFile { path: unit_path(&unit) },
        Step::RemoveConfigDir => StepAction::RemoveDir { path: artifact_dir(Artifact::Config) },
        Step::RemoveSecretsDir => StepAction::RemoveDir { path: artifact_dir(Artifact::Secrets) },
        Step::RemoveBinary => StepAction::RemoveFile { path: unit.exec_path },
        Step::ReloadManager => StepAction::Command { args: verb_args(Verb::Reload, &unit.name) },
    }
}

/// What each step does on the host.
pub open spec fn performs(step: Step, a: StepAction) -> bool {
    match step {
        Step::StopService => (a matches StepAction::Command { args }
            && texts(args@) == verb_words(Verb::Stop, "willhaben-scraper"@)),
        Step::DisableService => (a matches StepAction::Command { args }
            && texts(args@) == verb_words(Verb::Disable, "willhaben-scraper"@)),
        Step::RemoveUnitFile => (a matches StepAction::RemoveFile { path }
            && path@ == "/etc/systemd/system/"@ + "willhaben-scraper"@ + ".service"@),
        Step::RemoveConfigDir => (a matches StepAction::RemoveDir { path } && path@ == dir_text(Artifact::Config)),
        Step::RemoveSecretsDir => (a matches StepAction::RemoveDir { path } && path@ == dir_text(Artifact::Secrets)),
        Step::RemoveBinary => (a matches StepAction::RemoveFile { path } && path@ == "/usr/local/bin/willhaben-scraper"@),
        Step::ReloadManager => (a matches StepAction::Command { args }
            && texts(args@) == verb_words(Verb::Reload, "willhaben-scraper"@)),
    }
}

impl Teardown {
    pub closed spec fn is_confirmed(&self) -> bool {
        self.confirmed
    }

    /// The results of the steps run so far, in order.
    pub closed spec fn results(&self) -> Seq<bool> {
        self.results@
    }

    /// A teardown; an unconfirmed one runs no step.
    pub fn new(confirmed: bool) -> (r: Teardown)
        ensures
            r.is_confirmed() == confirmed,
            r.results() == Seq::<bool>::empty(),
    {
        Teardown { confirmed, results: Vec::new() }
    }

    /// The next step to run: none when declined or when all have run.
    pub fn next_step(&self) -> (r: Option<Step>)
        requires
            self.results().len() <= STEP_COUNT,
        ensures
            !self.is_confirmed() ==> r is None,
            self.is_confirmed() && self.results().len() < STEP_COUNT ==> r == Some(step_order()[self.results().len() as int]),
            self.results().len() == STEP_COUNT ==> r is None,
    {
        if !self.confirmed || self.results.len() >= STEP_COUNT {
            None
        } else {
            Some(step_at(self.results.len()))
        }
    }

    /// Records the result of the step that `next_step` named; earlier
    /// failures never stop later steps.
    pub fn record(&mut self, ok: bool)
        requires
            old(self).is_confirmed(),
            old(self).results().len() < STEP_COUNT,
        ensures
            final(self).is_confirmed(),
            final(self).results() == old(self).results().push(ok),
    {
        self.results.push(ok);
    }

    /// The single outcome: cancelled when declined, complete when every step
    /// succeeded, else the failed steps in order.
    pub fn finish(&self) -> (r: Result<TeardownOutcome, AggregatedError>)
        requires
            self.is_confirmed() ==> self.results().len() == STEP_COUNT,
        ensures
            !self.is_confirmed() ==> r == Ok::<TeardownOutcome, AggregatedError>(TeardownOutcome::Cancelled),
            self.is_confirmed() ==> match r {
                Ok(o) => o == TeardownOutcome::Complete && failures(self.results()).len() == 0,
                Err(e) => e.failed_steps@ == failures(self.results()) && e.failed_steps@.len() > 0,
            },
    {
        if !self.confirmed {
            return Ok(TeardownOutcome::Cancelled);
        }
        let mut failed: Vec<Step> = Vec::new();
        let mut i: usize = 0;
        while i < self.results.len()
            invariant
                i <= self.results@.len() == STEP_COUNT,
                failed@ == failures(self.results@.take(i as int)),
            decreases self.results@.len() - i,
        {
            proof {
                assert(self.results@.take(i + 1).drop_last() =~= self.results@.take(i as int));
            }
            if !self.results[i] {
                failed.push(step_at(i));
            }
            i = i + 1;
        }
        proof {
            assert(self.results@.take(i as int) =~= self.results@);
        }
        if failed.len() == 0 {
            Ok(TeardownOutcome::Complete)
        } else {
            Err(AggregatedError { failed_steps: failed })
        }
    }
}

} // verus!
