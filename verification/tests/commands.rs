use remote_flash::chip::Chip;
use remote_flash::process::{
    flash_command, mirror_invocation, ping_invocation, reachable, remote_invocation,
    start_vm_invocation, Invocation, ProcessOutcome, Stdio,
};
use remote_flash::sync::{judge, start, step, SyncAction, SyncError, SyncStage, SyncState};

fn strings(items: &[&str]) -> Vec<String> {
    items.iter().map(|item| item.to_string()).collect()
}

#[test]
fn probe_is_one_echo_request() {
    assert_eq!(
        ping_invocation("Arachnid"),
        Invocation {
            program: "ping".to_string(),
            args: strings(&["-c 1", "Arachnid"]),
            stdio: Stdio::Captured,
        }
    );
}

#[test]
fn host_is_reachable_only_when_the_probe_succeeds() {
    assert!(reachable(ProcessOutcome::Exited { success: true }));
    assert!(!reachable(ProcessOutcome::Exited { success: false }));
    assert!(!reachable(ProcessOutcome::NotStarted));
    assert!(!reachable(ProcessOutcome::NotAwaited));
}

#[test]
fn virtual_machine_is_started_without_a_window() {
    assert_eq!(
        start_vm_invocation("vmrun.exe", "c:\\Virtual Machines\\Arachnid\\Ubuntu.vmx"),
        Invocation {
            program: "vmrun.exe".to_string(),
            args: strings(&["start", "c:\\Virtual Machines\\Arachnid\\Ubuntu.vmx", "noGui"]),
            stdio: Stdio::Captured,
        }
    );
}

#[test]
fn mirror_is_recursive_and_deletes() {
    assert_eq!(
        mirror_invocation("/home/me/dev/rust/Microbit", "Arachnid", "embedded"),
        Invocation {
            program: "rsync".to_string(),
            args: strings(&["-a", "--delete", "/home/me/dev/rust/Microbit", "Arachnid:embedded/"]),
            stdio: Stdio::Inherited,
        }
    );
}

#[test]
fn flash_script_without_a_chip() {
    assert_eq!(
        flash_command("embedded/Microbit", "blinky", "~/embedded/probe_embed", None),
        ". $HOME/.cargo/env; cd embedded/Microbit/projects/blinky; ~/embedded/probe_embed"
    );
}

#[test]
fn flash_script_for_a_chip() {
    assert_eq!(
        flash_command("embedded/Microbit", "blinky", "~/embedded/probe_embed", Some(Chip::Nrf51822)),
        ". $HOME/.cargo/env; cd embedded/Microbit/projects/blinky; ~/embedded/probe_embed --chip nRF51822_xxAA"
    );
}

#[test]
fn remote_session_has_a_terminal() {
    assert_eq!(
        remote_invocation("Arachnid", "cd embedded; ls"),
        Invocation {
            program: "ssh".to_string(),
            args: strings(&["-t", "Arachnid", "cd embedded; ls"]),
            stdio: Stdio::Inherited,
        }
    );
}

#[test]
fn each_way_a_command_ends_has_its_verdict() {
    for stage in [SyncStage::Mirror, SyncStage::Session] {
        assert_eq!(judge(stage, ProcessOutcome::Exited { success: true }), Ok(()));
        assert_eq!(
            judge(stage, ProcessOutcome::Exited { success: false }),
            Err(SyncError::Failed(stage))
        );
        assert_eq!(judge(stage, ProcessOutcome::NotStarted), Err(SyncError::NotStarted(stage)));
        assert_eq!(judge(stage, ProcessOutcome::NotAwaited), Err(SyncError::NotAwaited(stage)));
    }
}

#[test]
fn session_follows_a_successful_mirror() {
    let first = start();
    assert_eq!(first.state, SyncState::Mirroring);
    assert_eq!(first.action, SyncAction::Mirror);
    let second = step(first.state, ProcessOutcome::Exited { success: true });
    assert_eq!(second.state, SyncState::Flashing);
    assert_eq!(second.action, SyncAction::Flash);
    let third = step(second.state, ProcessOutcome::Exited { success: true });
    assert_eq!(third.state, SyncState::Finished(Ok(())));
    assert_eq!(third.action, SyncAction::Finish(Ok(())));
}

#[test]
fn failed_mirror_is_final() {
    for outcome in [
        ProcessOutcome::Exited { success: false },
        ProcessOutcome::NotStarted,
        ProcessOutcome::NotAwaited,
    ] {
        let failed = step(start().state, outcome);
        let error = judge(SyncStage::Mirror, outcome);
        assert!(error.is_err());
        assert_eq!(failed.state, SyncState::Finished(error));
        assert_eq!(failed.action, SyncAction::Finish(error));
        let again = step(failed.state, ProcessOutcome::Exited { success: true });
        assert_eq!(again, failed);
    }
}

#[test]
fn failed_session_fails_the_sequence() {
    let failed = step(SyncState::Flashing, ProcessOutcome::Exited { success: false });
    assert_eq!(failed.action, SyncAction::Finish(Err(SyncError::Failed(SyncStage::Session))));
    let failed = step(SyncState::Flashing, ProcessOutcome::NotStarted);
    assert_eq!(failed.action, SyncAction::Finish(Err(SyncError::NotStarted(SyncStage::Session))));
    let failed = step(SyncState::Flashing, ProcessOutcome::NotAwaited);
    assert_eq!(failed.action, SyncAction::Finish(Err(SyncError::NotAwaited(SyncStage::Session))));
}

#[test]
fn commands_follow_the_places_they_are_given() {
    assert_eq!(
        mirror_invocation("/work", "builder", "mirror/of/work").args[3],
        "builder:mirror/of/work/"
    );
    assert_eq!(
        flash_command("mirror/of/work", "blinky", "cargo embed", Some(Chip::Nrf51822)),
        ". $HOME/.cargo/env; cd mirror/of/work/projects/blinky; cargo embed --chip nRF51822_xxAA"
    );
}
