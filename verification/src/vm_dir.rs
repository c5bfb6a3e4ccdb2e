//! The on-disk layout of one VM directory, and the liveness decision.
//!
//! A VM named `n` lives at `<home>/<n>` and holds four artifacts: the
//! serialized config, the disk image, the firmware variable store and the
//! optional pid marker. Path computation is pure; reading and writing the
//! files is the driver's work.

use vstd::prelude::*;

use crate::exception::Exception;

verus! {

/// A name is a safe directory name: non-empty, no path separator, and not
/// one of the two relative-path entries.
pub open spec fn valid_vm_name(s: Seq<char>) -> bool {
    s.len() > 0 && !s.contains('/') && s != seq!['.'] && s != seq!['.', '.']
}

/// Checks a VM name against `valid_vm_name`.
pub fn check_vm_name(name: &str) -> (r: bool)
    ensures
        r == valid_vm_name(name@),
{
    let n = name.unicode_len();
    if n == 0 {
        assert(!valid_vm_name(name@));
        return false;
    }
    if n == 1 && name.get_char(0) == '.' {
        assert(name@ =~= seq!['.']);
        return false;
    }
    if n == 2 && name.get_char(0) == '.' && name.get_char(1) == '.' {
        assert(name@ =~= seq!['.', '.']);
        return false;
    }
    let mut i: usize = 0;
    while i < n
        invariant
            i <= n,
            n == name@.len(),
            forall|j: int| 0 <= j < i ==> name@[j] != '/',
        decreases n - i,
    {
        if name.get_char(i) == '/' {
            assert(name@.contains('/'));
            return false;
        }
        i = i + 1;
    }
    proof {
        assert(!name@.contains('/')) by {
            if name@.contains('/') {
                let j = choose|j: int| 0 <= j < name@.len() && name@[j] == '/';
                assert(name@[j] != '/');
            }
        }
        assert(name@.len() == 1 ==> name@ =~= seq![name@[0]]);
        assert(name@.len() == 2 ==> name@ =~= seq![name@[0], name@[1]]);
    }
    true
}

/// One VM directory and the paths of its artifacts.
#[derive(Debug, Clone)]
pub struct VmDir {
    pub dir: String,
    pub config_path: String,
    pub disk_path: String,
    pub nvram_path: String,
    pub pid_path: String,
}

impl VmDir {
    /// The artifact paths all point into `dir` under their fixed names.
    pub open spec fn wf(&self) -> bool {
        &&& self.config_path@ == self.dir@ + seq!['/'] + "config.json"@
        &&& self.disk_path@ == self.dir@ + seq!['/'] + "disk.img"@
        &&& self.nvram_path@ == self.dir@ + seq!['/'] + "nvram.bin"@
        &&& self.pid_path@ == self.dir@ + seq!['/'] + "pid"@
    }
}

fn join_path(dir: &str, leaf: &str) -> (r: String)
    ensures
        r@ == dir@ + seq!['/'] + leaf@,
{
    let mut s = String::new();
    s.append(dir);
    s.append("/");
    s.append(leaf);
    proof {
        reveal_strlit("/");
        assert("/"@ =~= seq!['/']);
        assert(s@ =~= dir@ + seq!['/'] + leaf@);
    }
    s
}

/// Pure path computation: the directory of the VM named `name` under
/// `home`, with its four artifact paths. Touches no filesystem.
pub fn vm_dir(home: &str, name: &str) -> (r: VmDir)
    ensures
        r.dir@ == home@ + seq!['/'] + name@,
        r.wf(),
{
    let dir = join_path(home, name);
    let config_path = join_path(dir.as_str(), "config.json");
    let disk_path = join_path(dir.as_str(), "disk.img");
    let nvram_path = join_path(dir.as_str(), "nvram.bin");
    let pid_path = join_path(dir.as_str(), "pid");
    VmDir { dir, config_path, disk_path, nvram_path, pid_path }
}

/// Resolves a VM name to its directory, rejecting unsafe names with
/// `ValidationError` and accepting exactly the valid ones.
pub fn resolve(home: &str, name: &str) -> (r: Result<VmDir, Exception>)
    ensures
        valid_vm_name(name@) ==> (r matches Ok(d) && d.dir@ == home@ + seq!['/'] + name@
            && d.wf()),
        !valid_vm_name(name@) ==> (r matches Err(e) && e matches Exception::ValidationError(_)),
{
    if !check_vm_name(name) {
        let mut m = String::new();
        m.append("invalid vm name, name=");
        m.append(name);
        return Err(Exception::ValidationError(m));
    }
    Ok(vm_dir(home, name))
}

/// What probing a recorded process id reported.
#[derive(Debug, Clone, Copy, PartialEq, Eq, Structural)]
pub enum ProcessProbe {
    /// The process exists and answered the probe.
    Alive,
    /// No such process: the marker is stale.
    NotFound,
    /// The process exists but may not be inspected; it is alive.
    AccessDenied,
}

/// The liveness decision: a VM is running only if the pid marker is
/// present and the recorded process is alive right now. An absent marker
/// is "not running" whatever any earlier probe said; a stale marker (the
/// process is gone) is "not running" too; a probe refused for lack of
/// permission means the process is alive.
pub fn live_pid(marker: Option<i32>, probe: ProcessProbe) -> (r: Option<i32>)
    ensures
        marker is None ==> r is None,
        marker matches Some(p) ==> (if probe is NotFound {
            r is None
        } else {
            r == Some(p)
        }),
{
    match marker {
        None => None,
        Some(p) => match probe {
            ProcessProbe::NotFound => None,
            ProcessProbe::Alive | ProcessProbe::AccessDenied => Some(p),
        },
    }
}

/// The largest disk size, in decimal gigabytes, whose byte count fits the
/// size field of the disk image.
pub const MAX_DISK_SIZE_GB: u64 = 18_446_744_073;

/// The logical disk size in bytes for a request of `gb` decimal
/// gigabytes: exactly `gb * 1_000_000_000`.
pub fn disk_size_bytes(gb: u64) -> (r: u64)
    requires
        gb <= MAX_DISK_SIZE_GB,
    ensures
        r == gb * 1_000_000_000,
{
    gb * 1_000_000_000
}

} // verus!
