//! External commands: the four that a run is made of, each built as a plain
//! value, and the ways in which running one can end.

use vstd::prelude::*;
use crate::chip::Chip;

verus! {

/// How an attempt to run an external command ended.
#[derive(Clone, Copy, Debug, PartialEq, Eq, Structural)]
pub enum ProcessOutcome {
    /// The command could not be started at all.
    NotStarted,
    /// The command was started but its end could not be awaited.
    NotAwaited,
    /// The command ran to completion; `success` is true for a zero exit status.
    Exited { success: bool },
}

impl ProcessOutcome {
    /// The command ran to completion and reported success.
    pub open spec fn succeeded(self) -> bool {
        self == (ProcessOutcome::Exited { success: true })
    }

    /// Whether the command ran to completion and reported success.
    pub fn is_success(&self) -> (ok: bool)
        ensures
            ok == self.succeeded(),
    {
        match self {
            ProcessOutcome::Exited { success } => *success,
            _ => false,
        }
    }
}

/// Whether a single reachability probe found the host.
///
/// A probe that could not even be run counts as "unreachable", never as an
/// error of its own.
pub fn reachable(outcome: ProcessOutcome) -> (up: bool)
    ensures
        up == outcome.succeeded(),
{
    outcome.is_success()
}

/// How a command is connected to the operator's terminal.
#[derive(Clone, Copy, Debug, PartialEq, Eq)]
pub enum Stdio {
    /// Output is collected and discarded; only the exit status matters.
    Captured,
    /// The command shares the terminal of the caller until it exits.
    Inherited,
}

/// An external command: the program and its arguments, one string each.
#[derive(Debug, PartialEq, Eq)]
pub struct Invocation {
    pub program: String,
    pub args: Vec<String>,
    pub stdio: Stdio,
}

/// The mathematical content of an [`Invocation`].
pub struct InvocationView {
    pub program: Seq<char>,
    pub args: Seq<Seq<char>>,
    pub stdio: Stdio,
}

/// The texts held by a sequence of strings.
pub open spec fn texts(strings: Seq<String>) -> Seq<Seq<char>> {
    strings.map_values(|s: String| s@)
}

impl View for Invocation {
    type V = InvocationView;

    open spec fn view(&self) -> InvocationView {
        InvocationView { program: self.program@, args: texts(self.args@), stdio: self.stdio }
    }
}

impl Clone for Invocation {
    fn clone(&self) -> (copy: Invocation)
        ensures
            copy@ == self@,
    {
        let mut args: Vec<String> = Vec::new();
        let mut n: usize = 0;
        while n < self.args.len()
            invariant
                n <= self.args@.len(),
                args@.len() == n,
                forall|i: int| 0 <= i < n ==> args@[i]@ == self.args@[i]@,
            decreases self.args@.len() - n,
        {
            args.push(self.args[n].clone());
            n += 1;
        }
        assert(texts(args@) =~= texts(self.args@));
        Invocation { program: self.program.clone(), args, stdio: self.stdio }
    }
}

/// The single-probe reachability check against `host`.
pub open spec fn ping_command(host: Seq<char>) -> InvocationView {
    InvocationView { program: "ping"@, args: seq!["-c 1"@, host], stdio: Stdio::Captured }
}

/// Builds the reachability check: one echo request to `host`.
pub fn ping_invocation(host: &str) -> (invocation: Invocation)
    ensures
        invocation@ == ping_command(host@),
{
    let mut args: Vec<String> = Vec::new();
    args.push(String::from_str("-c 1"));
    args.push(String::from_str(host));
    let invocation = Invocation {
        program: String::from_str("ping"),
        args,
        stdio: Stdio::Captured,
    };
    assert(texts(invocation.args@) =~= seq!["-c 1"@, host@]);
    invocation
}

/// The command that starts the virtual machine `image` with the hypervisor's
/// control program `tool`, without a window.
pub open spec fn start_vm_command(tool: Seq<char>, image: Seq<char>) -> InvocationView {
    InvocationView { program: tool, args: seq!["start"@, image, "noGui"@], stdio: Stdio::Captured }
}

/// Builds the command that starts the virtual machine.
pub fn start_vm_invocation(tool: &str, image: &str) -> (invocation: Invocation)
    ensures
        invocation@ == start_vm_command(tool@, image@),
{
    let mut args: Vec<String> = Vec::new();
    args.push(String::from_str("start"));
    args.push(String::from_str(image));
    args.push(String::from_str("noGui"));
    let invocation = Invocation { program: String::from_str(tool), args, stdio: Stdio::Captured };
    assert(texts(invocation.args@) =~= seq!["start"@, image@, "noGui"@]);
    invocation
}

/// The directory `remote_root` on `host`, as the mirroring program addresses
/// it.
pub open spec fn mirror_destination(host: Seq<char>, remote_root: Seq<char>) -> Seq<char> {
    host + ":"@ + remote_root + "/"@
}

/// The one-way mirror of `local_dir` into `remote_root` on `host`:
/// recursive, preserving attributes, and deleting on the remote side
/// whatever is absent locally.
pub open spec fn mirror_command(
    local_dir: Seq<char>,
    host: Seq<char>,
    remote_root: Seq<char>,
) -> InvocationView {
    InvocationView {
        program: "rsync"@,
        args: seq!["-a"@, "--delete"@, local_dir, mirror_destination(host, remote_root)],
        stdio: Stdio::Inherited,
    }
}

/// Builds the command that mirrors `local_dir` into `remote_root` on `host`.
pub fn mirror_invocation(
    local_dir: &str,
    host: &str,
    remote_root: &str,
) -> (invocation: Invocation)
    ensures
        invocation@ == mirror_command(local_dir@, host@, remote_root@),
{
    let mut destination = String::from_str(host);
    destination.append(":");
    destination.append(remote_root);
    destination.append("/");
    let mut args: Vec<String> = Vec::new();
    args.push(String::from_str("-a"));
    args.push(String::from_str("--delete"));
    args.push(String::from_str(local_dir));
    args.push(destination);
    let invocation = Invocation {
        program: String::from_str("rsync"),
        args,
        stdio: Stdio::Inherited,
    };
    assert(texts(invocation.args@) =~= seq![
        "-a"@,
        "--delete"@,
        local_dir@,
        mirror_destination(host@, remote_root@),
    ]);
    invocation
}

/// The shell script that flashes `project` from the mirror of the workspace
/// at `remote_workspace`: load the build environment, enter the project, run
/// `tool`, for `chip` if one is given.
pub open spec fn flash_script(
    remote_workspace: Seq<char>,
    project: Seq<char>,
    tool: Seq<char>,
    chip: Option<Chip>,
) -> Seq<char> {
    let script = ". $HOME/.cargo/env; cd "@ + remote_workspace + "/projects/"@ + project + "; "@
        + tool;
    match chip {
        Some(chip) => script + " --chip "@ + chip.identifier(),
        None => script,
    }
}

/// Builds the shell script that flashes `project` on the remote host.
pub fn flash_command(
    remote_workspace: &str,
    project: &str,
    tool: &str,
    chip: Option<Chip>,
) -> (script: String)
    ensures
        script@ == flash_script(remote_workspace@, project@, tool@, chip),
{
    let mut script = String::from_str(". $HOME/.cargo/env; cd ");
    script.append(remote_workspace);
    script.append("/projects/");
    script.append(project);
    script.append("; ");
    script.append(tool);
    match chip {
        Some(chip) => {
            script.append(" --chip ");
            script.append(chip.name());
        },
        None => {},
    }
    script
}

/// The interactive remote session that runs `script` on `host`.
pub open spec fn remote_command(host: Seq<char>, script: Seq<char>) -> InvocationView {
    InvocationView { program: "ssh"@, args: seq!["-t"@, host, script], stdio: Stdio::Inherited }
}

/// Builds the interactive remote session that runs `script` on `host`.
pub fn remote_invocation(host: &str, script: &str) -> (invocation: Invocation)
    ensures
        invocation@ == remote_command(host@, script@),
{
    let mut args: Vec<String> = Vec::new();
    args.push(String::from_str("-t"));
    args.push(String::from_str(host));
    args.push(String::from_str(script));
    let invocation = Invocation { program: String::from_str("ssh"), args, stdio: Stdio::Inherited };
    assert(texts(invocation.args@) =~= seq!["-t"@, host@, script@]);
    invocation
}

} // verus!
