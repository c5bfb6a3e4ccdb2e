//! The create workflow.
//!
//! Creating a VM is a linear sequence — validate, allocate a private
//! temporary directory, size the disk, let the engine initialize the
//! firmware store, persist the config, and only then rename the temporary
//! directory to the final VM name. The sequence is a state machine here:
//! each step consumes the outcome of the previous action and names the
//! next one. The driver performs the filesystem and engine work; a VM
//! becomes visible only through the final `CommitRename` action, which the
//! machine orders only after the config was saved — so an interrupted
//! creation never leaves a half-made VM at its final path.

use vstd::prelude::*;

use crate::exception::ErrorKind;
use crate::exception::Exception;
use crate::vm_config::Os;
use crate::vm_config::Share;
use crate::vm_config::VmConfig;
use crate::vm_dir::MAX_DISK_SIZE_GB;

verus! {

/// The `create` command: its name, OS kind, disk size in decimal
/// gigabytes, and the restore image path a macOS guest requires.
pub struct Create {
    pub name: String,
    pub os: Os,
    pub disk_size: u64,
    pub ipsw: Option<String>,
}

/// The inputs pass validation: a macOS guest names a restore image that
/// exists; a Linux guest needs none; the disk size has a byte count.
pub open spec fn spec_validate_ok(c: &Create, ipsw_exists: bool) -> bool {
    &&& (c.os is MacOs ==> c.ipsw is Some && ipsw_exists)
    &&& c.disk_size <= MAX_DISK_SIZE_GB
}

impl Create {
    /// Validates the inputs before any mutation. `ipsw_exists` reports
    /// whether the named restore image file exists on disk.
    pub fn validate(&self, ipsw_exists: bool) -> (r: Result<(), Exception>)
        ensures
            r is Ok <==> spec_validate_ok(self, ipsw_exists),
            r matches Err(e) ==> e matches Exception::ValidationError(_),
    {
        if let Os::MacOs = self.os {
            match &self.ipsw {
                Some(path) => {
                    if !ipsw_exists {
                        let mut m = String::new();
                        m.append("ipsw does not exist, path=");
                        m.append(path.as_str());
                        return Err(Exception::ValidationError(m));
                    }
                },
                None => {
                    return Err(
                        Exception::ValidationError("ipsw is required for macOS vm".to_owned()),
                    );
                },
            }
        }
        if self.disk_size > MAX_DISK_SIZE_GB {
            return Err(Exception::ValidationError("disk size is too large".to_owned()));
        }
        Ok(())
    }
}

/// The fixed defaults of a fresh Linux guest: one CPU, one binary
/// gigabyte of memory, no sharing, the translation layer off.
pub fn linux_config(mac_address: String) -> (c: VmConfig)
    ensures
        c.os == Os::Linux,
        c.cpu == 1,
        c.memory == 1_073_741_824,
        c.mac_address == mac_address,
        c.sharing@ =~= Seq::<Share>::empty(),
        c.rosetta == Some(false),
        c.hardware_model is None,
        c.machine_identifier is None,
        c.wf(),
{
    VmConfig {
        os: Os::Linux,
        cpu: 1,
        memory: 1024 * 1024 * 1024,
        mac_address,
        sharing: Vec::new(),
        rosetta: Some(false),
        hardware_model: None,
        machine_identifier: None,
    }
}

/// The config of a fresh macOS guest: the restore image's minimum CPU
/// and memory, raised to at least 4 cores and 8 binary gigabytes, plus
/// the hardware model and machine identifier blobs the engine derived.
pub fn macos_config(
    min_cpu: u64,
    min_memory: u64,
    mac_address: String,
    hardware_model: String,
    machine_identifier: String,
) -> (c: VmConfig)
    ensures
        c.os == Os::MacOs,
        c.cpu == (if min_cpu >= 4 {
            min_cpu
        } else {
            4u64
        }),
        c.memory == (if min_memory >= 8_589_934_592 {
            min_memory
        } else {
            8_589_934_592u64
        }),
        c.mac_address == mac_address,
        c.sharing@ =~= Seq::<Share>::empty(),
        c.rosetta is None,
        c.hardware_model == Some(hardware_model),
        c.machine_identifier == Some(machine_identifier),
        c.wf(),
{
    let cpu = if min_cpu >= 4 {
        min_cpu
    } else {
        4
    };
    let memory = if min_memory >= 8 * 1024 * 1024 * 1024 {
        min_memory
    } else {
        8 * 1024 * 1024 * 1024
    };
    VmConfig {
        os: Os::MacOs,
        cpu,
        memory,
        mac_address,
        sharing: Vec::new(),
        rosetta: None,
        hardware_model: Some(hardware_model),
        machine_identifier: Some(machine_identifier),
    }
}

/// Where one creation stands.
#[derive(Debug, Clone, Copy, PartialEq, Eq)]
pub enum CreateState {
    /// Nothing has happened yet.
    Start,
    /// Validation passed; the temporary directory is being allocated.
    TempAllocating,
    /// The temporary directory exists; the disk image is being sized.
    DiskSizing,
    /// The disk is sized; the engine initializes the firmware store and
    /// derives the config inputs.
    EngineInitializing,
    /// The config is being written into the temporary directory.
    ConfigSaving,
    /// Everything is written; the rename to the final name is under way.
    Committing,
    /// The VM is visible under its final name. Terminal.
    Created,
    /// The creation failed; only the temporary directory may remain.
    /// Terminal.
    Failed { error: ErrorKind },
}

/// The outcome of the previous action, reported by the driver.
#[derive(Debug, Clone, Copy, PartialEq, Eq)]
pub enum CreateEvent {
    /// The command was invoked: whether the restore image exists, and
    /// whether a VM of this name is already initialized.
    Begin { ipsw_exists: bool, already_initialized: bool },
    TempDirReady { outcome: Result<(), ErrorKind> },
    DiskResized { outcome: Result<(), ErrorKind> },
    EngineReady { outcome: Result<(), ErrorKind> },
    ConfigSaved { outcome: Result<(), ErrorKind> },
    CommitDone { outcome: Result<(), ErrorKind> },
}

/// What the driver must do next.
#[derive(Debug, Clone, Copy, PartialEq, Eq)]
pub enum CreateAction {
    /// Allocate a fresh private directory under the VM home location.
    AllocTempDir,
    /// Create or truncate the disk image to exactly `bytes` bytes.
    ResizeDisk { bytes: u64 },
    /// Let the engine create the firmware store and derive the config
    /// inputs for the requested OS kind.
    InitEngine,
    /// Build the config and write it into the temporary directory.
    SaveConfig,
    /// Atomically rename the temporary directory to the final VM name,
    /// failing if an initialized VM of that name appeared meanwhile.
    CommitRename,
    /// Report success.
    Finish,
    /// Report the error.
    Fail { error: ErrorKind },
    /// Do nothing; the event does not belong to this state.
    Ignore,
}

/// The transition relation of the create workflow.
pub open spec fn spec_create_step(c: Create, s: CreateState, e: CreateEvent) -> (
    CreateState,
    CreateAction,
) {
    match (s, e) {
        (CreateState::Start, CreateEvent::Begin { ipsw_exists, already_initialized }) => {
            if !spec_validate_ok(&c, ipsw_exists) || already_initialized {
                (
                    CreateState::Failed { error: ErrorKind::Validation },
                    CreateAction::Fail { error: ErrorKind::Validation },
                )
            } else {
                (CreateState::TempAllocating, CreateAction::AllocTempDir)
            }
        },
        (CreateState::TempAllocating, CreateEvent::TempDirReady { outcome }) => match outcome {
            Ok(_) => (
                CreateState::DiskSizing,
                CreateAction::ResizeDisk { bytes: (c.disk_size * 1_000_000_000) as u64 },
            ),
            Err(k) => (CreateState::Failed { error: k }, CreateAction::Fail { error: k }),
        },
        (CreateState::DiskSizing, CreateEvent::DiskResized { outcome }) => match outcome {
            Ok(_) => (CreateState::EngineInitializing, CreateAction::InitEngine),
            Err(k) => (CreateState::Failed { error: k }, CreateAction::Fail { error: k }),
        },
        (CreateState::EngineInitializing, CreateEvent::EngineReady { outcome }) => match outcome {
            Ok(_) => (CreateState::ConfigSaving, CreateAction::SaveConfig),
            Err(k) => (CreateState::Failed { error: k }, CreateAction::Fail { error: k }),
        },
        (CreateState::ConfigSaving, CreateEvent::ConfigSaved { outcome }) => match outcome {
            Ok(_) => (CreateState::Committing, CreateAction::CommitRename),
            Err(k) => (CreateState::Failed { error: k }, CreateAction::Fail { error: k }),
        },
        (CreateState::Committing, CreateEvent::CommitDone { outcome }) => match outcome {
            Ok(_) => (CreateState::Created, CreateAction::Finish),
            Err(k) => (CreateState::Failed { error: k }, CreateAction::Fail { error: k }),
        },
        _ => (s, CreateAction::Ignore),
    }
}

impl Create {
    /// Consumes one outcome and returns the next state and the action
    /// owed. The disk-size bound holds whenever `TempAllocating` was
    /// reached, because `Begin` validates it; stating it spares the
    /// multiplication a check it cannot fail.
    pub fn step(&self, s: CreateState, e: CreateEvent) -> (r: (CreateState, CreateAction))
        requires
            s is TempAllocating ==> self.disk_size <= MAX_DISK_SIZE_GB,
        ensures
            r == spec_create_step(*self, s, e),
    {
        match (s, e) {
            (CreateState::Start, CreateEvent::Begin { ipsw_exists, already_initialized }) => {
                let valid = match self.validate(ipsw_exists) {
                    Ok(_) => true,
                    Err(_) => false,
                };
                if !valid || already_initialized {
                    (
                        CreateState::Failed { error: ErrorKind::Validation },
                        CreateAction::Fail { error: ErrorKind::Validation },
                    )
                } else {
                    (CreateState::TempAllocating, CreateAction::AllocTempDir)
                }
            },
            (CreateState::TempAllocating, CreateEvent::TempDirReady { outcome }) => match outcome {
                Ok(_) => (
                    CreateState::DiskSizing,
                    CreateAction::ResizeDisk { bytes: self.disk_size * 1_000_000_000 },
                ),
                Err(k) => (CreateState::Failed { error: k }, CreateAction::Fail { error: k }),
            },
            (CreateState::DiskSizing, CreateEvent::DiskResized { outcome }) => match outcome {
                Ok(_) => (CreateState::EngineInitializing, CreateAction::InitEngine),
                Err(k) => (CreateState::Failed { error: k }, CreateAction::Fail { error: k }),
            },
            (CreateState::EngineInitializing, CreateEvent::EngineReady { outcome }) => match outcome {
                Ok(_) => (CreateState::ConfigSaving, CreateAction::SaveConfig),
                Err(k) => (CreateState::Failed { error: k }, CreateAction::Fail { error: k }),
            },
            (CreateState::ConfigSaving, CreateEvent::ConfigSaved { outcome }) => match outcome {
                Ok(_) => (CreateState::Committing, CreateAction::CommitRename),
                Err(k) => (CreateState::Failed { error: k }, CreateAction::Fail { error: k }),
            },
            (CreateState::Committing, CreateEvent::CommitDone { outcome }) => match outcome {
                Ok(_) => (CreateState::Created, CreateAction::Finish),
                Err(k) => (CreateState::Failed { error: k }, CreateAction::Fail { error: k }),
            },
            _ => (s, CreateAction::Ignore),
        }
    }
}

/// Whether driving `evs` from `s` ever orders the commit rename.
pub open spec fn performs_commit(c: Create, s: CreateState, evs: Seq<CreateEvent>) -> bool
    decreases evs.len(),
{
    if evs.len() == 0 {
        false
    } else {
        spec_create_step(c, s, evs[0]).1 is CommitRename || performs_commit(
            c,
            spec_create_step(c, s, evs[0]).0,
            evs.drop_first(),
        )
    }
}

/// The commit rename is ordered only out of `ConfigSaving`, on the news
/// that the config was written.
pub proof fn lemma_commit_only_after_config_saved(c: Create, s: CreateState, e: CreateEvent)
    ensures
        spec_create_step(c, s, e).1 is CommitRename ==> s is ConfigSaving && (e
            matches CreateEvent::ConfigSaved { outcome } && outcome is Ok),
{
}

/// Atomicity of creation: a run that never learns of a saved config —
/// however it was interrupted, before or after the disk was sized —
/// never orders the rename, so nothing ever appears at the final VM path.
pub proof fn lemma_no_commit_without_saved_config(
    c: Create,
    s: CreateState,
    evs: Seq<CreateEvent>,
)
    requires
        forall|i: int|
            0 <= i < evs.len() ==> !((#[trigger] evs[i]) matches CreateEvent::ConfigSaved {
                outcome,
            } && outcome is Ok),
    ensures
        !performs_commit(c, s, evs),
    decreases evs.len(),
{
    if evs.len() > 0 {
        assert(!(evs[0] matches CreateEvent::ConfigSaved { outcome } && outcome is Ok));
        lemma_commit_only_after_config_saved(c, s, evs[0]);
        assert(forall|i: int|
            0 <= i < evs.drop_first().len() ==> evs.drop_first()[i] == evs[i + 1]);
        lemma_no_commit_without_saved_config(c, spec_create_step(c, s, evs[0]).0, evs.drop_first());
    }
}

/// The state after driving `evs` from `s`.
pub open spec fn run_create(c: Create, s: CreateState, evs: Seq<CreateEvent>) -> CreateState
    decreases evs.len(),
{
    if evs.len() == 0 {
        s
    } else {
        run_create(c, spec_create_step(c, s, evs[0]).0, evs.drop_first())
    }
}

/// A second `create` with the name of an initialized VM fails its
/// validation step and performs nothing but the error report: the first
/// VM's directory and config are untouched.
pub proof fn lemma_create_rejects_existing(c: Create, ipsw_exists: bool)
    ensures
        spec_create_step(
            c,
            CreateState::Start,
            CreateEvent::Begin { ipsw_exists, already_initialized: true },
        ) == (
            CreateState::Failed { error: ErrorKind::Validation },
            CreateAction::Fail { error: ErrorKind::Validation },
        ),
{
}

/// A failed creation is absorbing: whatever outcomes still arrive, the
/// run stays failed and in particular never orders the commit rename. A
/// `create` of a name that already exists therefore leaves the existing
/// VM's directory untouched, however long it is driven on.
pub proof fn lemma_failed_never_commits(c: Create, k: ErrorKind, evs: Seq<CreateEvent>)
    ensures
        run_create(c, CreateState::Failed { error: k }, evs) == (CreateState::Failed { error: k }),
        !performs_commit(c, CreateState::Failed { error: k }, evs),
    decreases evs.len(),
{
    if evs.len() > 0 {
        let s = CreateState::Failed { error: k };
        assert(spec_create_step(c, s, evs[0]) == (s, CreateAction::Ignore));
        lemma_failed_never_commits(c, k, evs.drop_first());
    }
}

} // verus!
