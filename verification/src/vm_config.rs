//! The persisted configuration of one virtual machine.

use vstd::prelude::*;

verus! {

/// The kind of guest operating system a VM runs.
#[derive(Debug, Clone, Copy, PartialEq, Eq, Structural)]
pub enum Os {
    Linux,
    MacOs,
}

/// One directory-sharing entry: a share name mapped to a host path.
#[derive(Debug, Clone, PartialEq)]
pub struct Share {
    pub name: String,
    pub path: String,
}

/// The configuration persisted in a VM directory's config file.
///
/// The OS-specific optional fields obey `wf`: a Linux guest carries the
/// `rosetta` toggle and no macOS blobs; a macOS guest carries the
/// `hardware_model` and `machine_identifier` blobs and no `rosetta`.
#[derive(Debug, Clone, PartialEq)]
pub struct VmConfig {
    pub os: Os,
    pub cpu: u64,
    pub memory: u64,
    pub mac_address: String,
    pub sharing: Vec<Share>,
    pub rosetta: Option<bool>,
    pub hardware_model: Option<String>,
    pub machine_identifier: Option<String>,
}

impl VmConfig {
    /// Exactly one OS-specific field group is populated, matching the tag.
    pub open spec fn wf(&self) -> bool {
        match self.os {
            Os::Linux => self.rosetta is Some && self.hardware_model is None
                && self.machine_identifier is None,
            Os::MacOs => self.rosetta is None && self.hardware_model is Some
                && self.machine_identifier is Some,
        }
    }

    /// Checks the OS-field-group invariant.
    pub fn is_wf(&self) -> (r: bool)
        ensures
            r == self.wf(),
    {
        match self.os {
            Os::Linux => self.rosetta.is_some() && self.hardware_model.is_none()
                && self.machine_identifier.is_none(),
            Os::MacOs => self.rosetta.is_none() && self.hardware_model.is_some()
                && self.machine_identifier.is_some(),
        }
    }
}

} // verus!
