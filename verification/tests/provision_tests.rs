use native_bridge::provision::{base_dir_name, cloned_dir_name, entry_script, install_dir_name,
    provision_action, provision_start, provision_step, repo_url, ProvisionAction, ProvisionEvent,
    ProvisionState};

fn run(events: Vec<ProvisionEvent>) -> (ProvisionState, Vec<ProvisionAction>) {
    // drives the machine as the application would, recording each action
    // it was asked to perform
    let mut state = provision_start();
    let mut actions = Vec::new();
    for ev in events {
        actions.push(provision_action(state));
        state = provision_step(state, ev);
    }
    actions.push(provision_action(state));
    (state, actions)
}

#[test]
fn first_run_clones_renames_and_launches() {
    let (state, actions) = run(vec![
        ProvisionEvent::BaseReady,
        ProvisionEvent::InstallChecked { present: false },
        ProvisionEvent::CloneFinished { ok: true },
        ProvisionEvent::Renamed,
        ProvisionEvent::Spawned,
    ]);
    assert_eq!(state, ProvisionState::Done);
    assert_eq!(
        actions,
        vec![
            ProvisionAction::EnsureBaseDir,
            ProvisionAction::ProbeInstallDir,
            ProvisionAction::RunClone,
            ProvisionAction::RenameClonedDir,
            ProvisionAction::SpawnEntry,
            ProvisionAction::Finish,
        ]
    );
}

#[test]
fn second_run_with_installation_present_makes_zero_clone_attempts() {
    let (state, actions) = run(vec![
        ProvisionEvent::BaseReady,
        ProvisionEvent::InstallChecked { present: true },
        ProvisionEvent::Spawned,
    ]);
    assert_eq!(state, ProvisionState::Done);
    let clones = actions.iter().filter(|a| **a == ProvisionAction::RunClone).count();
    assert_eq!(clones, 0, "a present installation must never be cloned again");
}

#[test]
fn clone_failure_aborts_silently() {
    let (state, actions) = run(vec![
        ProvisionEvent::BaseReady,
        ProvisionEvent::InstallChecked { present: false },
        ProvisionEvent::CloneFinished { ok: false },
    ]);
    assert_eq!(state, ProvisionState::Aborted);
    assert_eq!(*actions.last().unwrap(), ProvisionAction::Finish);
}

#[test]
fn an_event_that_does_not_belong_changes_nothing() {
    let st = provision_step(ProvisionState::EnsureBase, ProvisionEvent::Spawned);
    assert_eq!(st, ProvisionState::EnsureBase);
    let st = provision_step(ProvisionState::Done, ProvisionEvent::BaseReady);
    assert_eq!(st, ProvisionState::Done);
}

#[test]
fn entry_script_follows_the_platform() {
    assert_eq!(entry_script(true), "run.cmd");
    assert_eq!(entry_script(false), "run.sh");
}

#[test]
fn fixed_names_match_the_layout() {
    assert_eq!(repo_url(), "https://github.com/kwaroran/risu-exllama-connector.git");
    assert_eq!(cloned_dir_name(), "risu-exllama-connector");
    assert_eq!(install_dir_name(), "local_server");
    assert_eq!(base_dir_name(), "co.aiclient.risu");
}
