use scraper_setup::lifecycle::{advance, Action, Phase};
use scraper_setup::registrar::{scraper_unit, unit_path, verb_args, Verb};
use scraper_setup::store::{removal_plan, temp_path, write_plan, Artifact, FsOp, PRIVATE_MODE, SHARED_MODE};
use scraper_setup::teardown::{step_action, Step, StepAction, Teardown, TeardownOutcome};

#[test]
fn write_plan_renames_a_temporary_file() {
    let ops = write_plan(Artifact::Config, b"a = 1\n".to_vec());
    assert_eq!(ops.len(), 3);
    assert!(matches!(&ops[0], FsOp::CreateDir { path } if path == "./config"));
    assert!(matches!(&ops[1], FsOp::WriteFile { path, bytes, mode }
        if path == "./config/config.toml.tmp" && bytes == b"a = 1\n" && *mode == SHARED_MODE));
    assert!(matches!(&ops[2], FsOp::Rename { from, to }
        if from == "./config/config.toml.tmp" && to == "./config/config.toml"));
    assert_eq!(temp_path(Artifact::Secrets), "./secrets/secrets.yaml.tmp");
}

#[test]
fn secrets_are_private_with_or_without_credentials() {
    for bytes in [b"{}\n".to_vec(), b"telegram:\n  api_token: t\n  chat_id: c\n".to_vec()] {
        let ops = write_plan(Artifact::Secrets, bytes);
        assert!(matches!(&ops[1], FsOp::WriteFile { mode, .. } if *mode == PRIVATE_MODE));
    }
    assert_eq!(PRIVATE_MODE, 0o600);
}

#[test]
fn failed_registration_removes_both_artifacts() {
    let (p, a) = advance(Phase::CollectingInput, true);
    assert_eq!((p, a), (Phase::Persisting, Action::Persist));
    let (p, a) = advance(p, true);
    assert_eq!((p, a), (Phase::Registering, Action::Register));
    let (p, a) = advance(p, false);
    assert_eq!((p, a), (Phase::RolledBack, Action::RemoveArtifacts));
    let ops = removal_plan();
    assert!(matches!(&ops[0], FsOp::RemoveFile { path } if path == "./config/config.toml"));
    assert!(matches!(&ops[1], FsOp::RemoveFile { path } if path == "./secrets/secrets.yaml"));
}

#[test]
fn failed_persistence_needs_no_rollback() {
    assert_eq!(advance(Phase::Persisting, false), (Phase::Failed, Action::Report));
    assert_eq!(advance(Phase::CollectingInput, false), (Phase::Failed, Action::Report));
    assert_eq!(advance(Phase::Registering, true), (Phase::Done, Action::Report));
}

#[test]
fn unit_renders_to_fixed_text() {
    let u = scraper_unit();
    let text = u.render();
    assert_eq!(text, "[Unit]\nDescription=Willhaben Property Scraper\nAfter=network.target\n\n[Service]\nExecStart=/usr/local/bin/willhaben-scraper\nRestart=always\nUser=scraper\n\n[Install]\nWantedBy=multi-user.target\n");
    assert_eq!(scraper_unit().render(), text);
    assert_eq!(unit_path(&u), "/etc/systemd/system/willhaben-scraper.service");
}

#[test]
fn several_after_targets_are_space_separated() {
    let mut u = scraper_unit();
    u.after_targets.push("remote-fs.target".to_string());
    u.enable_on_boot = false;
    let text = u.render();
    assert!(text.contains("\nAfter=network.target remote-fs.target\n"));
    assert!(!text.contains("[Install]"));
}

#[test]
fn verbs_name_the_unit() {
    let name = "willhaben-scraper".to_string();
    assert_eq!(verb_args(Verb::Stop, &name), vec!["stop".to_string(), "willhaben-scraper.service".to_string()]);
    assert_eq!(verb_args(Verb::Disable, &name), vec!["disable".to_string(), "willhaben-scraper.service".to_string()]);
    assert_eq!(verb_args(Verb::Reload, &name), vec!["daemon-reload".to_string()]);
}

fn run(t: &mut Teardown, results: &[bool]) -> Vec<Step> {
    let mut ran = Vec::new();
    let mut i = 0;
    while let Some(step) = t.next_step() {
        ran.push(step);
        t.record(results[i]);
        i += 1;
    }
    ran
}

#[test]
fn teardown_runs_on_after_a_failed_disable() {
    let mut t = Teardown::new(true);
    let ran = run(&mut t, &[true, false, true, true, true, true, true]);
    assert_eq!(ran, vec![
        Step::StopService,
        Step::DisableService,
        Step::RemoveUnitFile,
        Step::RemoveConfigDir,
        Step::RemoveSecretsDir,
        Step::RemoveBinary,
        Step::ReloadManager,
    ]);
    let e = t.finish().unwrap_err();
    assert_eq!(e.failed_steps, vec![Step::DisableService]);
}

#[test]
fn teardown_all_ok_is_complete() {
    let mut t = Teardown::new(true);
    run(&mut t, &[true; 7]);
    assert_eq!(t.finish().unwrap(), TeardownOutcome::Complete);
}

#[test]
fn teardown_reports_every_failure_in_order() {
    let mut t = Teardown::new(true);
    run(&mut t, &[false, true, true, false, true, true, false]);
    assert_eq!(t.finish().unwrap_err().failed_steps, vec![Step::StopService, Step::RemoveConfigDir, Step::ReloadManager]);
}

#[test]
fn declined_teardown_does_nothing() {
    let t = Teardown::new(false);
    assert!(t.next_step().is_none());
    assert_eq!(t.finish().unwrap(), TeardownOutcome::Cancelled);
}

#[test]
fn step_actions_target_fixed_paths() {
    assert!(matches!(step_action(Step::RemoveConfigDir), StepAction::RemoveDir { path } if path == "./config"));
    assert!(matches!(step_action(Step::RemoveSecretsDir), StepAction::RemoveDir { path } if path == "./secrets"));
    assert!(matches!(step_action(Step::RemoveBinary), StepAction::RemoveFile { path } if path == "/usr/local/bin/willhaben-scraper"));
    assert!(matches!(step_action(Step::RemoveUnitFile), StepAction::RemoveFile { path } if path == "/etc/systemd/system/willhaben-scraper.service"));
    assert!(matches!(step_action(Step::ReloadManager), StepAction::Command { args } if args == vec!["daemon-reload".to_string()]));
}
