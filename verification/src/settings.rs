//! What a run is configured with: the host, the timing of the wake sequence
//! and the places on disk. Nothing of it is compiled into the logic.

use vstd::prelude::*;
use crate::wake::WakePolicy;

verus! {

/// The configuration of a run.
#[derive(Debug, PartialEq, Eq)]
pub struct Settings {
    /// The name under which the build host is probed and addressed.
    pub host: String,
    /// How to wake the host when it does not answer.
    pub wake: WakePolicy,
    /// The control program of the hypervisor.
    pub vm_tool: String,
    /// The virtual machine that is the build host.
    pub vm_image: String,
    /// The directory of the embedded workspace, relative to the home
    /// directory of the operator.
    pub workspace: String,
    /// The directory on the host into which the workspace is mirrored.
    pub remote_root: String,
    /// The directory on the host in which the mirror of the workspace lies.
    pub remote_workspace: String,
    /// The command on the host that flashes the project it is run in.
    pub flash_tool: String,
    /// The build configuration of a project, relative to the project
    /// directory; `None` where the chip is not derived from it.
    pub build_config: Option<String>,
}

impl Clone for Settings {
    fn clone(&self) -> (copy: Settings)
        ensures
            copy@ == self@,
    {
        Settings {
            host: self.host.clone(),
            wake: self.wake,
            vm_tool: self.vm_tool.clone(),
            vm_image: self.vm_image.clone(),
            workspace: self.workspace.clone(),
            remote_root: self.remote_root.clone(),
            remote_workspace: self.remote_workspace.clone(),
            flash_tool: self.flash_tool.clone(),
            build_config: match &self.build_config {
                Some(file) => Some(file.clone()),
                None => None,
            },
        }
    }
}

/// The mathematical content of [`Settings`].
pub struct SettingsView {
    pub host: Seq<char>,
    pub wake: WakePolicy,
    pub vm_tool: Seq<char>,
    pub vm_image: Seq<char>,
    pub workspace: Seq<char>,
    pub remote_root: Seq<char>,
    pub remote_workspace: Seq<char>,
    pub flash_tool: Seq<char>,
    pub build_config: Option<Seq<char>>,
}

/// The text of a string that may be missing.
pub open spec fn text_of(text: Option<String>) -> Option<Seq<char>> {
    match text {
        Some(text) => Some(text@),
        None => None,
    }
}

impl View for Settings {
    type V = SettingsView;

    open spec fn view(&self) -> SettingsView {
        SettingsView {
            host: self.host@,
            wake: self.wake,
            vm_tool: self.vm_tool@,
            vm_image: self.vm_image@,
            workspace: self.workspace@,
            remote_root: self.remote_root@,
            remote_workspace: self.remote_workspace@,
            flash_tool: self.flash_tool@,
            build_config: text_of(self.build_config),
        }
    }
}

/// The settings of the installation this tool was made for.
pub open spec fn standard_settings() -> SettingsView {
    SettingsView {
        host: "Arachnid"@,
        wake: WakePolicy { max_attempts: 10, poll_seconds: 1, settle_seconds: 2 },
        vm_tool: "/mnt/c/Program Files (x86)/VMware/VMware Workstation/vmrun.exe"@,
        vm_image: "c:\\Virtual Machines\\Arachnid\\Ubuntu.vmx"@,
        workspace: "dev/rust/Microbit"@,
        remote_root: "embedded"@,
        remote_workspace: "embedded/Microbit"@,
        flash_tool: "~/embedded/probe_embed"@,
        build_config: None,
    }
}

impl Settings {
    /// The settings of the installation this tool was made for: ten probes
    /// one second apart, two seconds to settle, and no chip from the build
    /// configuration.
    pub fn standard() -> (settings: Settings)
        ensures
            settings@ == standard_settings(),
    {
        Settings {
            host: String::from_str("Arachnid"),
            wake: WakePolicy { max_attempts: 10, poll_seconds: 1, settle_seconds: 2 },
            vm_tool: String::from_str(
                "/mnt/c/Program Files (x86)/VMware/VMware Workstation/vmrun.exe",
            ),
            vm_image: String::from_str("c:\\Virtual Machines\\Arachnid\\Ubuntu.vmx"),
            workspace: String::from_str("dev/rust/Microbit"),
            remote_root: String::from_str("embedded"),
            remote_workspace: String::from_str("embedded/Microbit"),
            flash_tool: String::from_str("~/embedded/probe_embed"),
            build_config: None,
        }
    }
}

} // verus!
