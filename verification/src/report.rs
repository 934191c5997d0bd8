//! What the operator gets to read: one line for each notice and one for each
//! error, so worded that no two errors read alike; and the exit status that
//! the result of a run stands for.

use vstd::prelude::*;
use crate::arguments::InputError;
use crate::config::resolve::ConfigError;
use crate::driver::{Notice, RunError};
use crate::sync::{SyncError, SyncStage};
use crate::wake::{WakeError, WakeNotice};

verus! {

/// The character for a single decimal digit.
pub open spec fn digit(value: nat) -> char
    recommends
        value < 10,
{
    "0123456789"@[value as int]
}

/// The decimal numeral of `n`, without leading zeros.
pub open spec fn decimal(n: nat) -> Seq<char>
    decreases n,
{
    if n < 10 {
        seq![digit(n)]
    } else {
        decimal(n / 10).push(digit(n % 10))
    }
}

/// The numeral of a single digit.
fn digit_text(value: u64) -> (text: &'static str)
    requires
        value < 10,
    ensures
        text@ == seq![digit(value as nat)],
{
    proof {
        reveal_strlit("0123456789");
        reveal_strlit("0");
        reveal_strlit("1");
        reveal_strlit("2");
        reveal_strlit("3");
        reveal_strlit("4");
        reveal_strlit("5");
        reveal_strlit("6");
        reveal_strlit("7");
        reveal_strlit("8");
        reveal_strlit("9");
    }
    let text = if value == 0 {
        "0"
    } else if value == 1 {
        "1"
    } else if value == 2 {
        "2"
    } else if value == 3 {
        "3"
    } else if value == 4 {
        "4"
    } else if value == 5 {
        "5"
    } else if value == 6 {
        "6"
    } else if value == 7 {
        "7"
    } else if value == 8 {
        "8"
    } else {
        "9"
    };
    assert(text@ =~= seq![digit(value as nat)]);
    text
}

/// Appends the decimal numeral of `n` to `out`.
pub fn append_decimal(out: &mut String, n: u64)
    ensures
        final(out)@ == old(out)@ + decimal(n as nat),
    decreases n,
{
    if n >= 10 {
        append_decimal(out, n / 10);
    }
    out.append(digit_text(n % 10));
    assert(old(out)@ + decimal(n as nat) =~= out@);
}

/// The line that tells the operator about `notice`.
pub open spec fn announcement(notice: Notice) -> Seq<char> {
    match notice {
        Notice::HostDown => "Host not found attempting to start"@,
        Notice::Wake(WakeNotice::ProbeFailed { attempt }) => "Ping attempt: "@ + decimal(
            attempt as nat,
        ) + " [ FAIL ]"@,
        Notice::Wake(WakeNotice::ProbeSucceeded { attempt, settle_seconds }) => "Ping attempt: "@
            + decimal(attempt as nat) + " [ SUCCESS ]\nWaiting "@ + decimal(settle_seconds as nat)
            + " seconds for system to fully start"@,
    }
}

/// Words `notice` for the operator.
pub fn announce(notice: Notice) -> (text: String)
    ensures
        text@ == announcement(notice),
{
    match notice {
        Notice::HostDown => String::from_str("Host not found attempting to start"),
        Notice::Wake(WakeNotice::ProbeFailed { attempt }) => {
            let mut text = String::from_str("Ping attempt: ");
            append_decimal(&mut text, attempt as u64);
            text.append(" [ FAIL ]");
            text
        },
        Notice::Wake(WakeNotice::ProbeSucceeded { attempt, settle_seconds }) => {
            let mut text = String::from_str("Ping attempt: ");
            append_decimal(&mut text, attempt as u64);
            text.append(" [ SUCCESS ]\nWaiting ");
            append_decimal(&mut text, settle_seconds);
            text.append(" seconds for system to fully start");
            text
        },
    }
}

/// The line that tells the operator why a run failed. `host` is the name of
/// the build host.
pub open spec fn description(error: RunError, host: Seq<char>) -> Seq<char> {
    match error {
        RunError::Input(InputError::MissingProject) => "Specify the project"@,
        RunError::Input(InputError::ExtraArguments) => "Extra arguments are not supported"@,
        RunError::Input(InputError::NoHome) => "No HOME env var"@,
        RunError::Input(InputError::ProjectNotFound) => "Project specified can not be found"@,
        RunError::Config(ConfigError::Unreadable) => "Failed to read the build configuration"@,
        RunError::Config(ConfigError::Unparseable { line }) =>
            "Failed to parse the build configuration at line "@ + decimal(line as nat),
        RunError::Config(ConfigError::MissingBuildSection) =>
            "The build configuration has no [build] section"@,
        RunError::Config(ConfigError::MissingTarget) => "The [build] section names no target"@,
        RunError::Config(ConfigError::TargetNotText) => "The build target is not a string"@,
        RunError::Config(ConfigError::UnknownTarget) => "The build target is not recognised"@,
        RunError::Wake(WakeError::LaunchFailed) => "Failed to launch VM"@,
        RunError::Wake(WakeError::Unresponsive) => "Failed to get a response from "@ + host,
        RunError::Wake(WakeError::OutOfTurn) => "The wake sequence was answered out of turn"@,
        RunError::Sync(SyncError::NotStarted(SyncStage::Mirror)) => "Failed to run rsync command"@,
        RunError::Sync(SyncError::NotAwaited(SyncStage::Mirror)) => "Failed to wait for rsync"@,
        RunError::Sync(SyncError::Failed(SyncStage::Mirror)) => "The rsync command reported failure"@,
        RunError::Sync(SyncError::NotStarted(SyncStage::Session)) => "Failed to run embed command"@,
        RunError::Sync(SyncError::NotAwaited(SyncStage::Session)) =>
            "Failed to wait for ssh connection"@,
        RunError::Sync(SyncError::Failed(SyncStage::Session)) => "The embed command reported failure"@,
        RunError::OutOfTurn => "The run was answered out of turn"@,
    }
}

/// Words `error` for the operator. `host` is the name of the build host.
pub fn describe(error: RunError, host: &str) -> (text: String)
    ensures
        text@ == description(error, host@),
{
    match error {
        RunError::Input(InputError::MissingProject) => String::from_str("Specify the project"),
        RunError::Input(InputError::ExtraArguments) => String::from_str(
            "Extra arguments are not supported",
        ),
        RunError::Input(InputError::NoHome) => String::from_str("No HOME env var"),
        RunError::Input(InputError::ProjectNotFound) => String::from_str(
            "Project specified can not be found",
        ),
        RunError::Config(ConfigError::Unreadable) => String::from_str(
            "Failed to read the build configuration",
        ),
        RunError::Config(ConfigError::Unparseable { line }) => {
            let mut text = String::from_str("Failed to parse the build configuration at line ");
            append_decimal(&mut text, line as u64);
            text
        },
        RunError::Config(ConfigError::MissingBuildSection) => String::from_str(
            "The build configuration has no [build] section",
        ),
        RunError::Config(ConfigError::MissingTarget) => String::from_str(
            "The [build] section names no target",
        ),
        RunError::Config(ConfigError::TargetNotText) => String::from_str(
            "The build target is not a string",
        ),
        RunError::Config(ConfigError::UnknownTarget) => String::from_str(
            "The build target is not recognised",
        ),
        RunError::Wake(WakeError::LaunchFailed) => String::from_str("Failed to launch VM"),
        RunError::Wake(WakeError::Unresponsive) => {
            let mut text = String::from_str("Failed to get a response from ");
            text.append(host);
            text
        },
        RunError::Wake(WakeError::OutOfTurn) => String::from_str(
            "The wake sequence was answered out of turn",
        ),
        RunError::Sync(SyncError::NotStarted(SyncStage::Mirror)) => String::from_str(
            "Failed to run rsync command",
        ),
        RunError::Sync(SyncError::NotAwaited(SyncStage::Mirror)) => String::from_str(
            "Failed to wait for rsync",
        ),
        RunError::Sync(SyncError::Failed(SyncStage::Mirror)) => String::from_str(
            "The rsync command reported failure",
        ),
        RunError::Sync(SyncError::NotStarted(SyncStage::Session)) => String::from_str(
            "Failed to run embed command",
        ),
        RunError::Sync(SyncError::NotAwaited(SyncStage::Session)) => String::from_str(
            "Failed to wait for ssh connection",
        ),
        RunError::Sync(SyncError::Failed(SyncStage::Session)) => String::from_str(
            "The embed command reported failure",
        ),
        RunError::OutOfTurn => String::from_str("The run was answered out of turn"),
    }
}

/// The exit status that stands for `result`: zero for success, one for any
/// failure.
pub fn exit_status(result: Result<(), RunError>) -> (status: u8)
    ensures
        status == (if result is Ok { 0u8 } else { 1u8 }),
{
    match result {
        Ok(_) => 0,
        Err(_) => 1,
    }
}

/// A numeral is never empty, and has one digit only below ten.
proof fn lemma_decimal_len(n: nat)
    ensures
        decimal(n).len() >= 1,
        n >= 10 ==> decimal(n).len() >= 2,
    decreases n,
{
    if n >= 10 {
        lemma_decimal_len(n / 10);
    }
}

/// Different numbers have different numerals.
pub proof fn lemma_decimal_injective(a: nat, b: nat)
    requires
        decimal(a) == decimal(b),
    ensures
        a == b,
    decreases a,
{
    reveal_strlit("0123456789");
    lemma_decimal_len(a);
    lemma_decimal_len(b);
    if a >= 10 {
        let (high_a, high_b) = (decimal(a / 10), decimal(b / 10));
        assert(high_a.push(digit(a % 10)).drop_last() =~= high_a);
        assert(high_b.push(digit(b % 10)).drop_last() =~= high_b);
        assert(high_a.push(digit(a % 10)).last() == digit(a % 10));
        assert(high_b.push(digit(b % 10)).last() == digit(b % 10));
        lemma_decimal_injective(a / 10, b / 10);
    } else {
        assert(decimal(a)[0] == digit(a));
        assert(decimal(b)[0] == digit(b));
    }
}

/// No two errors read alike: the description of an error tells which error
/// it is, whatever the host is called.
pub proof fn law_descriptions_tell_errors_apart(first: RunError, second: RunError, host: Seq<char>)
    requires
        description(first, host) == description(second, host),
    ensures
        first == second,
{
    reveal_strlit("Specify the project");
    reveal_strlit("Extra arguments are not supported");
    reveal_strlit("No HOME env var");
    reveal_strlit("Project specified can not be found");
    reveal_strlit("Failed to read the build configuration");
    reveal_strlit("Failed to parse the build configuration at line ");
    reveal_strlit("The build configuration has no [build] section");
    reveal_strlit("The [build] section names no target");
    reveal_strlit("The build target is not a string");
    reveal_strlit("The build target is not recognised");
    reveal_strlit("Failed to launch VM");
    reveal_strlit("Failed to get a response from ");
    reveal_strlit("The wake sequence was answered out of turn");
    reveal_strlit("Failed to run rsync command");
    reveal_strlit("Failed to wait for rsync");
    reveal_strlit("The rsync command reported failure");
    reveal_strlit("Failed to run embed command");
    reveal_strlit("Failed to wait for ssh connection");
    reveal_strlit("The embed command reported failure");
    reveal_strlit("The run was answered out of turn");
    let parse = "Failed to parse the build configuration at line "@;
    let (one, other) = (description(first, host), description(second, host));
    // The length of a description and its characters at two places tell
    // all descriptions apart but those that end in a numeral.
    assert(one.len() == other.len() && one[4] == other[4] && one[18] == other[18]);
    if let RunError::Config(ConfigError::Unparseable { line: a }) = first {
        lemma_decimal_len(a as nat);
        if let RunError::Config(ConfigError::Unparseable { line: b }) = second {
            assert(one.subrange(parse.len() as int, one.len() as int) =~= decimal(a as nat));
            assert(other.subrange(parse.len() as int, other.len() as int) =~= decimal(b as nat));
            lemma_decimal_injective(a as nat, b as nat);
        }
    }
    if let RunError::Config(ConfigError::Unparseable { line: b }) = second {
        lemma_decimal_len(b as nat);
    }
}

} // verus!
