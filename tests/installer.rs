use jig::installer::{
    partition_device, CreateSubvolumes, FormatPartitions, InstallerState, MountHierarchy, PartitionDisk, Phase,
};

#[test]
fn partitions_of_nvme_disks_take_a_p() {
    assert_eq!(partition_device("/dev/nvme0n1", "2"), "/dev/nvme0n1p2");
    assert_eq!(partition_device("/dev/sda", "1"), "/dev/sda1");
    assert_eq!(partition_device("/dev/vda", "2"), "/dev/vda2");
}

#[test]
fn steps_name_their_partitions() {
    assert_eq!(PartitionDisk { disk: "/dev/sda".to_string() }.root_partition(), "/dev/sda2");
    let f = FormatPartitions { disk: "/dev/nvme0n1".to_string() };
    assert_eq!(f.efi_partition(), "/dev/nvme0n1p1");
    assert_eq!(f.root_partition(), "/dev/nvme0n1p2");
    let m = MountHierarchy { disk: "/dev/vda".to_string() };
    assert_eq!(m.efi_partition(), "/dev/vda1");
    assert_eq!(m.mounts()[1], ("@snapshots", ".snapshots"));
    let c = CreateSubvolumes { disk: "/dev/vda".to_string() };
    assert_eq!(c.subvolumes(), vec!["@", "@home", "@snapshots", "@log", "@cache"]);
    assert_eq!(c.root_partition(), "/dev/vda2");
}

#[test]
fn run_visits_each_step_in_order() {
    let mut s = InstallerState::start(2);
    let mut seen = Vec::new();
    while let InstallerState::Active { step, phase } = s {
        seen.push((step, phase));
        s = s.next(2, true);
    }
    assert_eq!(s, InstallerState::Completed);
    assert_eq!(seen, vec![(0, Phase::Run), (0, Phase::Verify), (1, Phase::Run), (1, Phase::Verify)]);
}

#[test]
fn a_failure_stops_the_run() {
    let s = InstallerState::start(3).next(3, true).next(3, false);
    assert_eq!(s, InstallerState::Failed { step: 0, phase: Phase::Verify });
    assert_eq!(s.next(3, true), s);
    assert_eq!(InstallerState::start(0), InstallerState::Completed);
}
