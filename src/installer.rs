use vstd::prelude::*;
use crate::text::{chars_of, find, find_in_window};

verus! {

/// One stage of a bootstrap run. It runs, then checks that it took effect; either
/// part reports a failure as a message.
pub trait InstallerStep {
    /// A short human-readable title.
    fn name(&self) -> &str;

    /// Performs the step.
    fn run(&self) -> Result<(), String>;

    /// Checks that the step took effect.
    fn verify(&self) -> Result<(), String>;
}

/// `disk` names an NVMe device, whose partitions take a `p` before their number.
pub open spec fn is_nvme(disk: Seq<char>) -> bool {
    find(disk, "nvme"@) is Some
}

/// The device of partition `number` of `disk`: `/dev/nvme0n1` gives `/dev/nvme0n1p2`,
/// `/dev/sda` gives `/dev/sda2`.
pub open spec fn partition_of(disk: Seq<char>, number: Seq<char>) -> Seq<char> {
    if is_nvme(disk) {
        disk + "p"@ + number
    } else {
        disk + number
    }
}

/// The device of partition `number` of `disk`.
pub fn partition_device(disk: &str, number: &str) -> (r: String)
    ensures
        r@ == partition_of(disk@, number@),
{
    let s = chars_of(disk);
    let pat = chars_of("nvme");
    assert(s@.subrange(0, s.len() as int) =~= s@);
    let nvme = find_in_window(&s, 0, s.len(), &pat).is_some();
    let mut r = String::from_str(disk);
    if nvme {
        r.append("p");
    }
    r.append(number);
    r
}

/// Writes a GPT table with an EFI system partition and a Linux partition.
pub struct PartitionDisk {
    pub disk: String,
}

impl PartitionDisk {
    /// The device of the Linux partition, whose presence shows the step took effect.
    pub fn root_partition(&self) -> (r: String)
        ensures
            r@ == partition_of(self.disk@, "2"@),
    {
        partition_device(self.disk.as_str(), "2")
    }
}

/// Formats the EFI partition as FAT32 and the root partition as btrfs.
pub struct FormatPartitions {
    pub disk: String,
}

impl FormatPartitions {
    /// The device of the EFI system partition.
    pub fn efi_partition(&self) -> (r: String)
        ensures
            r@ == partition_of(self.disk@, "1"@),
    {
        partition_device(self.disk.as_str(), "1")
    }

    /// The device of the btrfs root partition.
    pub fn root_partition(&self) -> (r: String)
        ensures
            r@ == partition_of(self.disk@, "2"@),
    {
        partition_device(self.disk.as_str(), "2")
    }
}

/// The flat subvolume layout: root, home, snapshots, logs and package cache.
pub open spec fn subvolume_layout() -> Seq<Seq<char>> {
    seq!["@"@, "@home"@, "@snapshots"@, "@log"@, "@cache"@]
}

/// Where each subvolume but the root one is mounted, relative to the new root.
pub open spec fn mount_layout() -> Seq<(Seq<char>, Seq<char>)> {
    seq![
        ("@home"@, "home"@),
        ("@snapshots"@, ".snapshots"@),
        ("@log"@, "var/log"@),
        ("@cache"@, "var/cache"@),
    ]
}

/// Creates the subvolumes of the flat layout on the root partition.
pub struct CreateSubvolumes {
    pub disk: String,
}

impl CreateSubvolumes {
    /// The device of the btrfs root partition.
    pub fn root_partition(&self) -> (r: String)
        ensures
            r@ == partition_of(self.disk@, "2"@),
    {
        partition_device(self.disk.as_str(), "2")
    }

    /// The subvolumes to create, in order.
    pub fn subvolumes(&self) -> (r: Vec<&'static str>)
        ensures
            r@.map_values(|n: &str| n@) == subvolume_layout(),
    {
        let r = vec!["@", "@home", "@snapshots", "@log", "@cache"];
        assert(r@.map_values(|n: &str| n@) =~= subvolume_layout());
        r
    }
}

/// Mounts the root subvolume at the target, the other subvolumes beneath it, and
/// the EFI partition at its `boot` directory.
pub struct MountHierarchy {
    pub disk: String,
}

impl MountHierarchy {
    /// The device of the EFI system partition.
    pub fn efi_partition(&self) -> (r: String)
        ensures
            r@ == partition_of(self.disk@, "1"@),
    {
        partition_device(self.disk.as_str(), "1")
    }

    /// The device of the btrfs root partition.
    pub fn root_partition(&self) -> (r: String)
        ensures
            r@ == partition_of(self.disk@, "2"@),
    {
        partition_device(self.disk.as_str(), "2")
    }

    /// Each subvolume to mount beneath the new root, with its directory, in order.
    pub fn mounts(&self) -> (r: Vec<(&'static str, &'static str)>)
        ensures
            r@.map_values(|m: (&str, &str)| (m.0@, m.1@)) == mount_layout(),
    {
        let r = vec![("@home", "home"), ("@snapshots", ".snapshots"), ("@log", "var/log"), ("@cache", "var/cache")];
        assert(r@.map_values(|m: (&str, &str)| (m.0@, m.1@)) =~= mount_layout());
        r
    }
}

/// Installs the base system into the new root.
pub struct Pacstrap;

/// Writes fstab, swap, locale, hostname, the user account and services.
pub struct ConfigureSystem;

/// Installs the boot manager and its entry for the new root.
pub struct InstallBootloader;

/// The part of a step that is under way.
#[derive(Debug, Clone, Copy, PartialEq, Eq, Structural)]
pub enum Phase {
    Run,
    Verify,
}

/// Where a bootstrap run over a list of steps stands.
#[derive(Debug, Clone, Copy, PartialEq, Eq, Structural)]
pub enum InstallerState {
    /// Step `step` is in phase `phase`.
    Active { step: usize, phase: Phase },
    /// Every step ran and verified.
    Completed,
    /// Step `step` failed in phase `phase`; nothing after it ran.
    Failed { step: usize, phase: Phase },
}

/// The first state of a run over `n` steps.
pub open spec fn start_state(n: nat) -> InstallerState {
    if n == 0 {
        InstallerState::Completed
    } else {
        InstallerState::Active { step: 0, phase: Phase::Run }
    }
}

/// The state after the current phase of a run over `n` steps reports `ok`:
/// a run that succeeds is verified, a verification that succeeds moves on to the
/// next step, and any failure ends the run.
pub open spec fn next_state(n: nat, state: InstallerState, ok: bool) -> InstallerState {
    match state {
        InstallerState::Active { step, phase } => if !ok {
            InstallerState::Failed { step, phase }
        } else if phase == Phase::Run {
            InstallerState::Active { step, phase: Phase::Verify }
        } else if step + 1 < n {
            InstallerState::Active { step: (step + 1) as usize, phase: Phase::Run }
        } else {
            InstallerState::Completed
        },
        _ => state,
    }
}

/// A state of a run over `n` steps names a step that exists.
pub open spec fn state_within(n: nat, state: InstallerState) -> bool {
    match state {
        InstallerState::Active { step, .. } => step < n,
        InstallerState::Failed { step, .. } => step < n,
        InstallerState::Completed => true,
    }
}

impl InstallerState {
    /// The first state of a run over `n` steps.
    pub fn start(n: usize) -> (r: InstallerState)
        ensures
            r == start_state(n as nat),
            state_within(n as nat, r),
    {
        if n == 0 {
            InstallerState::Completed
        } else {
            InstallerState::Active { step: 0, phase: Phase::Run }
        }
    }

    /// The state after the current phase reports `ok`.
    pub fn next(self, n: usize, ok: bool) -> (r: InstallerState)
        requires
            state_within(n as nat, self),
        ensures
            r == next_state(n as nat, self, ok),
            state_within(n as nat, r),
    {
        match self {
            InstallerState::Active { step, phase } => if !ok {
                InstallerState::Failed { step, phase }
            } else {
                match phase {
                    Phase::Run => InstallerState::Active { step, phase: Phase::Verify },
                    Phase::Verify => if step + 1 < n {
                        InstallerState::Active { step: step + 1, phase: Phase::Run }
                    } else {
                        InstallerState::Completed
                    },
                }
            },
            _ => self,
        }
    }
}

} // verus!
