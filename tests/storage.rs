use jig::backend::{BackendCommand, BackendQuery, CommandOutput, ErrorKind};
use jig::btrfs::{device_in, embedded_path_in, listing_has, next_target_after, uuid_in, BtrfsDriver};
use jig::storage::StorageManager;
use jig::types::{Subvolume, TargetRoots};

fn ok(stdout: &str) -> CommandOutput {
    CommandOutput { success: true, stdout: stdout.to_string(), stderr: String::new() }
}

fn failed(stderr: &str) -> CommandOutput {
    CommandOutput { success: false, stdout: String::new(), stderr: stderr.to_string() }
}

fn argv(c: &BackendCommand) -> Vec<String> {
    let mut v = vec![c.program.clone()];
    v.extend(c.args.iter().cloned());
    v
}

const SHOW: &str = "@active_a\n\tName: \t\t\t@active_a\n\tUUID: \t\t\t0c5c5d0e-7d1b-4d43-a2f1-3f5e4e0d9a11\n\tParent UUID: \t\t-\n\tReceived UUID: \t\t-\n";
const LISTING: &str = "ID 256 gen 10 top level 5 path @active_a\nID 257 gen 11 top level 5 path @snapshots\n";

fn root_of(source: &str) -> Subvolume {
    BtrfsDriver::new().get_current_root(&ok(source), &ok("256\n"), &ok(SHOW)).unwrap()
}

fn current(path: &str) -> Subvolume {
    Subvolume { id: 256, path: path.to_string(), uuid: String::new(), parent_uuid: None }
}

#[test]
fn slot_names_are_canonical() {
    assert_eq!(TargetRoots::A.as_str(), "@active_a");
    assert_eq!(TargetRoots::B.as_str(), "@active_b");
}

#[test]
fn exists_matches_listed_names_verbatim() {
    let d = BtrfsDriver::new();
    let listing = ok(LISTING);
    assert_eq!(d.subvolume_exists(&listing, "@active_a").unwrap(), true);
    assert_eq!(d.subvolume_exists(&listing, "@snapshots").unwrap(), true);
    assert_eq!(d.subvolume_exists(&listing, "@active_b").unwrap(), false);
    assert_eq!(d.subvolume_exists(&listing, "active_a").unwrap(), false);
    assert_eq!(d.subvolume_exists(&listing, "@active").unwrap(), false);
    assert_eq!(d.subvolume_exists(&listing, "").unwrap(), false);
}

#[test]
fn exists_on_empty_listing_is_false() {
    assert!(!listing_has("", "@active_a"));
    assert!(!listing_has("\n", "@active_a"));
}

#[test]
fn exists_ignores_carriage_returns_and_trailing_space() {
    assert!(listing_has("ID 256 gen 10 top level 5 path @active_b  \r\n", "@active_b"));
}

#[test]
fn exists_fails_when_listing_fails() {
    let e = BtrfsDriver::new().subvolume_exists(&failed("not a btrfs filesystem"), "@active_a").err().unwrap();
    assert_eq!(e.kind, ErrorKind::BackendQueryFailed);
    assert_eq!(e.detail, "not a btrfs filesystem");
    assert_eq!(argv(&e.command), vec!["btrfs", "subvolume", "list", "/"]);
}

#[test]
fn current_root_from_bracketed_source() {
    let root = root_of("/dev/sda2[/@active_a]\n");
    assert_eq!(root.path, "@active_a");
    assert_eq!(root.id, 256);
    assert_eq!(root.uuid, "0c5c5d0e-7d1b-4d43-a2f1-3f5e4e0d9a11");
    assert_eq!(root.parent_uuid, None);
}

#[test]
fn current_root_without_qualifier_is_unresolved() {
    let root = root_of("/dev/sda2\n");
    assert_eq!(root.path, "unknown");
    let d = BtrfsDriver::new();
    let t = d.get_next_target(&ok("/dev/sda2\n"), &ok("256\n"), &ok(SHOW)).unwrap();
    assert_eq!(t, TargetRoots::A);
}

#[test]
fn unclosed_qualifier_is_unresolved() {
    assert_eq!(embedded_path_in("/dev/sda2[/@active_a"), None);
    assert_eq!(embedded_path_in("/dev/sda2"), None);
    assert_eq!(embedded_path_in("/dev/sda2[]").unwrap(), "");
}

#[test]
fn next_target_is_the_other_slot() {
    let d = BtrfsDriver::new();
    let a = d.get_next_target(&ok("/dev/sda2[/@active_a]\n"), &ok("256\n"), &ok(SHOW)).unwrap();
    assert_eq!(a, TargetRoots::B);
    let b = d.get_next_target(&ok("/dev/sda2[/@active_b]\n"), &ok("257\n"), &ok(SHOW)).unwrap();
    assert_eq!(b, TargetRoots::A);
}

#[test]
fn next_target_falls_back_to_a() {
    assert_eq!(next_target_after("@snapshots"), TargetRoots::A);
    assert_eq!(next_target_after("@active_a/nested"), TargetRoots::A);
    assert_eq!(next_target_after("unknown"), TargetRoots::A);
    assert_eq!(next_target_after("@active_a"), TargetRoots::B);
}

#[test]
fn root_id_accepts_plus_sign_and_largest_value() {
    let d = BtrfsDriver::new();
    let r = d.get_current_root(&ok("/dev/sda2[/@active_a]"), &ok(" +42 \n"), &ok(SHOW)).unwrap();
    assert_eq!(r.id, 42);
    let r = d.get_current_root(&ok("/dev/sda2[/@active_a]"), &ok("18446744073709551615\n"), &ok(SHOW)).unwrap();
    assert_eq!(r.id, u64::MAX);
}

#[test]
fn root_id_that_does_not_parse_is_a_parse_failure() {
    let d = BtrfsDriver::new();
    for bad in ["abc\n", "", "+", "18446744073709551616\n", "12 34\n", "-1\n"] {
        let e = d.get_current_root(&ok("/dev/sda2[/@active_a]"), &ok(bad), &ok(SHOW)).err().unwrap();
        assert_eq!(e.kind, ErrorKind::ParseFailed);
        assert_eq!(e.detail, bad);
        assert_eq!(argv(&e.command), vec!["btrfs", "inspect-internal", "rootid", "/"]);
    }
}

#[test]
fn failing_introspection_is_a_query_failure() {
    let d = BtrfsDriver::new();
    let e = d.get_current_root(&failed("findmnt: boom"), &ok("256"), &ok(SHOW)).err().unwrap();
    assert_eq!(e.kind, ErrorKind::BackendQueryFailed);
    assert_eq!(e.detail, "findmnt: boom");
    assert_eq!(argv(&e.command), vec!["findmnt", "-n", "-o", "SOURCE", "--target", "/"]);
    let e = d.get_current_root(&ok("/dev/sda2"), &failed("no rootid"), &ok(SHOW)).err().unwrap();
    assert_eq!(e.kind, ErrorKind::BackendQueryFailed);
    assert_eq!(e.detail, "no rootid");
    let e = d.get_current_root(&ok("/dev/sda2"), &ok("5"), &failed("no show")).err().unwrap();
    assert_eq!(e.kind, ErrorKind::BackendQueryFailed);
    assert_eq!(argv(&e.command), vec!["btrfs", "subvolume", "show", "/"]);
    let e = d.get_next_target(&failed("x"), &ok("5"), &ok(SHOW)).err().unwrap();
    assert_eq!(e.kind, ErrorKind::BackendQueryFailed);
}

#[test]
fn missing_uuid_line_is_a_parse_failure() {
    let d = BtrfsDriver::new();
    let show = "@active_a\n\tParent UUID: \t\t-\n";
    let e = d.get_current_root(&ok("/dev/sda2[/@active_a]"), &ok("256"), &ok(show)).err().unwrap();
    assert_eq!(e.kind, ErrorKind::ParseFailed);
    assert_eq!(e.detail, show);
}

#[test]
fn uuid_comes_from_the_first_uuid_line() {
    assert_eq!(uuid_in("\tParent UUID: p\n\tUUID: first\n\tUUID: second\n").unwrap(), "first");
    assert_eq!(uuid_in("UUID:").unwrap(), "UUID:");
    assert_eq!(uuid_in("Name: x"), None);
}

#[test]
fn create_issues_a_command_only_when_missing() {
    let d = BtrfsDriver::new();
    let c = d.create_subvolume(&ok(LISTING), "@active_b").unwrap().unwrap();
    assert_eq!(argv(&c), vec!["btrfs", "subvolume", "create", "@active_b"]);
    assert!(d.create_subvolume(&ok(LISTING), "@active_a").unwrap().is_none());
}

#[test]
fn create_twice_is_idempotent() {
    let d = BtrfsDriver::new();
    let before = ok("ID 257 gen 11 top level 5 path @snapshots\n");
    assert!(d.create_subvolume(&before, "@active_b").unwrap().is_some());
    let after = ok("ID 257 gen 11 top level 5 path @snapshots\nID 258 gen 12 top level 5 path @active_b\n");
    assert!(d.create_subvolume(&after, "@active_b").unwrap().is_none());
}

#[test]
fn delete_twice_is_idempotent() {
    let d = BtrfsDriver::new();
    let cur = current("@active_a");
    let c = d.delete_subvolume(&cur, &ok(LISTING), "@snapshots").unwrap().unwrap();
    assert_eq!(argv(&c), vec!["btrfs", "subvolume", "delete", "@snapshots"]);
    let after = ok("ID 256 gen 10 top level 5 path @active_a\n");
    assert!(d.delete_subvolume(&cur, &after, "@snapshots").unwrap().is_none());
}

#[test]
fn deleting_the_running_root_is_refused() {
    let d = BtrfsDriver::new();
    let root = root_of("/dev/sda2[/@active_a]\n");
    let e = d.delete_subvolume(&root, &ok(LISTING), TargetRoots::A.as_str()).err().unwrap();
    assert_eq!(e.kind, ErrorKind::RefusedActiveRootDeletion);
    assert_eq!(e.detail, "@active_a");
    let e = d.delete_subvolume(&root, &failed("x"), "@active_a").err().unwrap();
    assert_eq!(e.kind, ErrorKind::BackendQueryFailed);
    let c = d.delete_subvolume(&root, &ok("ID 257 gen 1 top level 5 path @active_b\n"), "@active_b").unwrap();
    assert!(c.is_some());
}

#[test]
fn delete_fails_when_listing_fails() {
    let e = BtrfsDriver::new().delete_subvolume(&current("@active_a"), &failed("denied"), "@active_b").err().unwrap();
    assert_eq!(e.kind, ErrorKind::BackendQueryFailed);
    assert_eq!(e.detail, "denied");
}

#[test]
fn mount_strips_the_subvolume_qualifier() {
    let d = BtrfsDriver::new();
    let c = d.mount_subvolume(&ok("/dev/nvme0n1p2[/@active_a]\n"), "@active_b", "/mnt/next").unwrap();
    assert_eq!(argv(&c), vec!["mount", "-o", "subvol=@active_b", "/dev/nvme0n1p2", "/mnt/next"]);
    assert_eq!(device_in("/dev/nvme0n1p2[/@active_a]"), "/dev/nvme0n1p2");
    assert_eq!(device_in("  /dev/sda2  \n"), "/dev/sda2");
}

#[test]
fn mount_without_device_fails() {
    let d = BtrfsDriver::new();
    let e = d.mount_subvolume(&ok("[/@active_a]\n"), "@active_b", "/mnt").err().unwrap();
    assert_eq!(e.kind, ErrorKind::DeviceResolutionFailed);
    let e = d.mount_subvolume(&failed("gone"), "@active_b", "/mnt").err().unwrap();
    assert_eq!(e.kind, ErrorKind::BackendQueryFailed);
    assert_eq!(e.detail, "gone");
}

#[test]
fn command_results_map_failures() {
    let d = BtrfsDriver::new();
    let c = d.create_subvolume(&ok(""), "@x").unwrap().unwrap();
    let e = d.command_result(c, &failed("ERROR: cannot create")).err().unwrap();
    assert_eq!(e.kind, ErrorKind::BackendCommandFailed);
    assert_eq!(e.detail, "ERROR: cannot create");
    assert_eq!(argv(&e.command), vec!["btrfs", "subvolume", "create", "@x"]);
    let m = d.mount_subvolume(&ok("/dev/sda2"), "@x", "/mnt").unwrap();
    assert!(d.mount_result(m, &ok("")).is_ok());
    let m = d.mount_subvolume(&ok("/dev/sda2"), "@x", "/mnt").unwrap();
    assert_eq!(d.mount_result(m, &failed("busy")).err().unwrap().kind, ErrorKind::MountFailed);
}

#[test]
fn queries_name_their_commands() {
    assert_eq!(argv(&BackendQuery::RootId.command()), vec!["btrfs", "inspect-internal", "rootid", "/"]);
    assert_eq!(argv(&BackendQuery::SubvolumeList.command()), vec!["btrfs", "subvolume", "list", "/"]);
}

#[test]
fn trait_dispatch_reaches_the_driver() {
    let m: Box<dyn StorageManager> = Box::new(BtrfsDriver::new());
    assert_eq!(m.subvolume_exists(&ok(LISTING), "@snapshots").unwrap(), true);
}

#[test]
fn deleting_an_unlisted_name_succeeds_even_if_it_is_the_root_path() {
    let d = BtrfsDriver::new();
    let root = root_of("/dev/sda2\n");
    assert_eq!(root.path, "unknown");
    assert!(d.delete_subvolume(&root, &ok(LISTING), "unknown").unwrap().is_none());
    let listed = ok("ID 300 gen 1 top level 5 path unknown\n");
    let e = d.delete_subvolume(&root, &listed, "unknown").err().unwrap();
    assert_eq!(e.kind, ErrorKind::RefusedActiveRootDeletion);
}

#[test]
fn mounting_at_the_root_is_refused() {
    let d = BtrfsDriver::new();
    let e = d.mount_subvolume(&ok("/dev/sda2[/@active_a]\n"), "@active_b", "/").err().unwrap();
    assert_eq!(e.kind, ErrorKind::MountFailed);
    assert_eq!(e.detail, "/");
    assert_eq!(argv(&e.command), vec!["mount", "-o", "subvol=@active_b", "/dev/sda2", "/"]);
    let m: Box<dyn StorageManager> = Box::new(BtrfsDriver::new());
    assert!(m.mount_subvolume(&ok("/dev/sda2[/@active_a]\n"), "@active_a", "/").is_err());
}
