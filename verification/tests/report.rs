use remote_flash::arguments::InputError;
use remote_flash::config::resolve::ConfigError;
use remote_flash::driver::{Notice, RunError};
use remote_flash::report::{announce, append_decimal, describe, exit_status};
use remote_flash::sync::{SyncError, SyncStage};
use remote_flash::wake::{WakeError, WakeNotice};

fn decimal(n: u64) -> String {
    let mut text = String::new();
    append_decimal(&mut text, n);
    text
}

#[test]
fn numerals_have_no_leading_zeros() {
    assert_eq!(decimal(0), "0");
    assert_eq!(decimal(7), "7");
    assert_eq!(decimal(10), "10");
    assert_eq!(decimal(109), "109");
    assert_eq!(decimal(51822), "51822");
    assert_eq!(decimal(u64::MAX), "18446744073709551615");
}

#[test]
fn numerals_agree_with_the_standard_library() {
    for n in (0..5000u64).chain([u32::MAX as u64, 1 << 40, u64::MAX - 1]) {
        assert_eq!(decimal(n), n.to_string());
    }
}

#[test]
fn numeral_is_appended_to_what_is_there() {
    let mut text = "line ".to_string();
    append_decimal(&mut text, 42);
    assert_eq!(text, "line 42");
}

#[test]
fn notices_read_as_progress() {
    assert_eq!(announce(Notice::HostDown), "Host not found attempting to start");
    assert_eq!(
        announce(Notice::Wake(WakeNotice::ProbeFailed { attempt: 0 })),
        "Ping attempt: 0 [ FAIL ]"
    );
    assert_eq!(
        announce(Notice::Wake(WakeNotice::ProbeFailed { attempt: 12 })),
        "Ping attempt: 12 [ FAIL ]"
    );
    assert_eq!(
        announce(Notice::Wake(WakeNotice::ProbeSucceeded { attempt: 3, settle_seconds: 2 })),
        "Ping attempt: 3 [ SUCCESS ]\nWaiting 2 seconds for system to fully start"
    );
}

fn every_error() -> Vec<RunError> {
    let mut errors = vec![
        RunError::Input(InputError::MissingProject),
        RunError::Input(InputError::ExtraArguments),
        RunError::Input(InputError::NoHome),
        RunError::Input(InputError::ProjectNotFound),
        RunError::Config(ConfigError::Unreadable),
        RunError::Config(ConfigError::Unparseable { line: 1 }),
        RunError::Config(ConfigError::Unparseable { line: 10 }),
        RunError::Config(ConfigError::Unparseable { line: 11 }),
        RunError::Config(ConfigError::MissingBuildSection),
        RunError::Config(ConfigError::MissingTarget),
        RunError::Config(ConfigError::TargetNotText),
        RunError::Config(ConfigError::UnknownTarget),
        RunError::Wake(WakeError::LaunchFailed),
        RunError::Wake(WakeError::Unresponsive),
        RunError::Wake(WakeError::OutOfTurn),
        RunError::OutOfTurn,
    ];
    for stage in [SyncStage::Mirror, SyncStage::Session] {
        errors.push(RunError::Sync(SyncError::NotStarted(stage)));
        errors.push(RunError::Sync(SyncError::NotAwaited(stage)));
        errors.push(RunError::Sync(SyncError::Failed(stage)));
    }
    errors
}

#[test]
fn errors_read_as_the_operator_knows_them() {
    let host = "Arachnid";
    assert_eq!(describe(RunError::Input(InputError::MissingProject), host), "Specify the project");
    assert_eq!(
        describe(RunError::Input(InputError::ExtraArguments), host),
        "Extra arguments are not supported"
    );
    assert_eq!(describe(RunError::Input(InputError::NoHome), host), "No HOME env var");
    assert_eq!(
        describe(RunError::Input(InputError::ProjectNotFound), host),
        "Project specified can not be found"
    );
    assert_eq!(describe(RunError::Wake(WakeError::LaunchFailed), host), "Failed to launch VM");
    assert_eq!(
        describe(RunError::Wake(WakeError::Unresponsive), host),
        "Failed to get a response from Arachnid"
    );
    assert_eq!(
        describe(RunError::Sync(SyncError::NotStarted(SyncStage::Mirror)), host),
        "Failed to run rsync command"
    );
    assert_eq!(
        describe(RunError::Sync(SyncError::NotAwaited(SyncStage::Mirror)), host),
        "Failed to wait for rsync"
    );
    assert_eq!(
        describe(RunError::Sync(SyncError::NotStarted(SyncStage::Session)), host),
        "Failed to run embed command"
    );
    assert_eq!(
        describe(RunError::Sync(SyncError::NotAwaited(SyncStage::Session)), host),
        "Failed to wait for ssh connection"
    );
    assert_eq!(
        describe(RunError::Config(ConfigError::Unparseable { line: 17 }), host),
        "Failed to parse the build configuration at line 17"
    );
}

#[test]
fn no_two_errors_read_alike() {
    for host in ["Arachnid", "", "rsync", "17"] {
        let errors = every_error();
        for (i, first) in errors.iter().enumerate() {
            for second in &errors[i + 1..] {
                assert_ne!(describe(*first, host), describe(*second, host));
            }
        }
    }
}

#[test]
fn exit_status_is_zero_only_for_success() {
    assert_eq!(exit_status(Ok(())), 0);
    for error in every_error() {
        assert_eq!(exit_status(Err(error)), 1);
    }
}
