use proxmoxy::compliance::{
    check_disk, check_vm_config, check_vm_disk, find_storage, Rule, Violation,
};
use proxmoxy::defs::{ApiError, DecodeError, Error};
use proxmoxy::json::{parse_json, JsonValue};
use proxmoxy::path::{PathStop, PathStorage};
use proxmoxy::scan::{Scan, Stage};
use proxmoxy::types::{parse_disk, Storage, VmConfig, VmDiskType};

fn json(text: &str) -> JsonValue {
    parse_json(text.as_bytes()).expect("a JSON text")
}

fn storages(text: &str) -> Vec<Storage> {
    PathStorage::from_json(json(text)).unwrap()
}

const STORAGE: &str = r#"[
    {"content": "images", "digest": "d1", "storage": "sp1", "type": "storpool"},
    {"content": "images", "digest": "d2", "storage": "local", "type": "dir"}
]"#;

fn found(vmid: u32, disk_type: VmDiskType, idx: u32, rule: Rule, found: Option<&str>) -> Violation {
    Violation { vmid, disk_type, idx, rule, found: found.map(str::to_owned) }
}

/// Runs a scan to its end, answering each request from `answers`.
fn run(answers: &[(&str, &str)]) -> Result<(Vec<String>, Scan), Error> {
    let mut asked = Vec::new();
    let mut scan = Scan::new();
    while let Some(path) = scan.request() {
        let answer = answers
            .iter()
            .find(|(p, _)| *p == path)
            .unwrap_or_else(|| panic!("no answer for {path}"))
            .1;
        asked.push(path);
        scan = scan.feed(json(answer))?;
    }
    Ok((asked, scan))
}

#[test]
fn a_disk_that_follows_the_rules_breaks_none() {
    let disk = parse_disk(VmDiskType::Virtio, 0, "sp1:v,cache=none,discard=on,iothread=1").unwrap();
    let mut log = Vec::new();
    assert!(!check_vm_disk(150, &disk, &mut log));
    assert!(log.is_empty());
    let disk = parse_disk(VmDiskType::Virtio, 0, "sp1:v,discard=on,iothread=1,size=1G").unwrap();
    assert!(!check_vm_disk(150, &disk, &mut log));
    assert!(log.is_empty());
}

#[test]
fn each_rule_that_is_broken_is_told() {
    let disk = parse_disk(VmDiskType::Scsi, 3, "sp1:v,cache=writeback,discard=ignore").unwrap();
    let mut log = vec![found(1, VmDiskType::Ide, 0, Rule::Storage, Some("x"))];
    assert!(check_vm_disk(150, &disk, &mut log));
    assert_eq!(
        log,
        vec![
            found(1, VmDiskType::Ide, 0, Rule::Storage, Some("x")),
            found(150, VmDiskType::Scsi, 3, Rule::DiskType, None),
            found(150, VmDiskType::Scsi, 3, Rule::Cache, Some("writeback")),
            found(150, VmDiskType::Scsi, 3, Rule::Discard, Some("ignore")),
            found(150, VmDiskType::Scsi, 3, Rule::Iothread, None),
        ]
    );
}

#[test]
fn the_rules_one_by_one() {
    for (disk_type, definition, expected) in [
        (VmDiskType::Ide, "sp1:v,discard=on,iothread=1", vec![(Rule::DiskType, None)]),
        (VmDiskType::Sata, "sp1:v,discard=on,iothread=1", vec![(Rule::DiskType, None)]),
        (VmDiskType::Virtio, "sp1:v,cache=,discard=on,iothread=1", vec![(Rule::Cache, Some(""))]),
        (VmDiskType::Virtio, "sp1:v,cache=None,discard=on,iothread=1", vec![(Rule::Cache, Some("None"))]),
        (VmDiskType::Virtio, "sp1:v,iothread=1", vec![(Rule::Discard, None)]),
        (VmDiskType::Virtio, "sp1:v,discard=off,iothread=1", vec![(Rule::Discard, Some("off"))]),
        (VmDiskType::Virtio, "sp1:v,discard=on", vec![(Rule::Iothread, None)]),
        (VmDiskType::Virtio, "sp1:v,discard=on,iothread=0", vec![(Rule::Iothread, Some("0"))]),
        (VmDiskType::Virtio, "sp1:v,discard=on,iothread=true", vec![(Rule::Iothread, Some("true"))]),
        (VmDiskType::Virtio, "sp1:v", vec![(Rule::Discard, None), (Rule::Iothread, None)]),
    ] {
        let disk = parse_disk(disk_type, 7, definition).unwrap();
        let mut log = Vec::new();
        assert!(check_vm_disk(200, &disk, &mut log));
        let expected: Vec<Violation> = expected
            .into_iter()
            .map(|(rule, value)| found(200, disk_type, 7, rule, value))
            .collect();
        assert_eq!(log, expected, "{definition}");
    }
}

#[test]
fn storage_is_found_by_its_name() {
    let storage = storages(STORAGE);
    assert_eq!(find_storage(&storage, "sp1").map(Storage::storage_type), Some("storpool"));
    assert_eq!(find_storage(&storage, "local").map(Storage::storage_type), Some("dir"));
    assert!(find_storage(&storage, "sp2").is_none());
    assert!(find_storage(&[], "sp1").is_none());
}

#[test]
fn of_two_storages_of_a_name_the_later_counts() {
    let storage = storages(
        r#"[{"content": "", "digest": "", "storage": "s", "type": "storpool"},
            {"content": "", "digest": "", "storage": "t", "type": "dir"},
            {"content": "", "digest": "", "storage": "s", "type": "lvm"}]"#,
    );
    assert_eq!(find_storage(&storage, "s").map(Storage::storage_type), Some("lvm"));
    let disk = parse_disk(VmDiskType::Ide, 0, "s:v").unwrap();
    let mut log = Vec::new();
    assert!(!check_disk(&storage, 100, &disk, &mut log));
    assert!(log.is_empty());
}

#[test]
fn a_disk_on_unknown_storage_is_always_found() {
    let storage = storages(STORAGE);
    for (disk_type, definition) in [
        (VmDiskType::Virtio, "missing-store:vol-3,cache=none,discard=on,iothread=1"),
        (VmDiskType::Scsi, "missing-store:vol-3"),
        (VmDiskType::Ide, "missing-store:,cache=unsafe"),
    ] {
        let disk = parse_disk(disk_type, 1, definition).unwrap();
        let mut log = Vec::new();
        assert!(check_disk(&storage, 150, &disk, &mut log));
        assert_eq!(log, vec![found(150, disk_type, 1, Rule::Storage, Some("missing-store"))]);
    }
}

#[test]
fn a_disk_on_storage_of_another_driver_is_never_found() {
    let storage = storages(STORAGE);
    for (disk_type, definition) in [
        (VmDiskType::Ide, "local:vol"),
        (VmDiskType::Scsi, "local:vol,cache=writeback,discard=ignore,iothread=0"),
        (VmDiskType::Sata, "local:vol,cache=unsafe"),
    ] {
        let disk = parse_disk(disk_type, 1, definition).unwrap();
        let mut log = Vec::new();
        assert!(!check_disk(&storage, 150, &disk, &mut log));
        assert!(log.is_empty());
    }
}

#[test]
fn the_disks_of_a_configuration_are_each_checked() {
    let storage = storages(STORAGE);
    let config = VmConfig::from_json(&json(
        r#"{"ide0": "sp1:a,discard=on,iothread=1", "scsi0": "local:b", "scsi1": "gone:c",
            "virtio0": "sp1:d,discard=on,iothread=1", "virtio1": "sp1:e,discard=on"}"#,
    ))
    .unwrap();
    let mut log = Vec::new();
    assert!(check_vm_config(&storage, 321, &config, &mut log));
    assert_eq!(
        log,
        vec![
            found(321, VmDiskType::Ide, 0, Rule::DiskType, None),
            found(321, VmDiskType::Scsi, 1, Rule::Storage, Some("gone")),
            found(321, VmDiskType::Virtio, 1, Rule::Iothread, None),
        ]
    );
    let config = VmConfig::from_json(&json(r#"{"net0": "virtio=AA"}"#)).unwrap();
    let mut log = Vec::new();
    assert!(!check_vm_config(&storage, 321, &config, &mut log));
    assert!(log.is_empty());
}

const SP1: &str = r#"[{"content": "images", "digest": "d", "storage": "sp1", "type": "storpool"}]"#;
const N1: &str = r#"[{"type": "node", "node": "n1", "status": "online", "id": "node/n1"}]"#;

#[test]
fn a_scsi_disk_breaks_the_rule_on_the_type_only() {
    let (asked, scan) = run(&[
        ("storage", SP1),
        ("nodes", N1),
        ("nodes/n1/qemu", r#"[{"vmid": 150, "status": "running"}]"#),
        (
            "nodes/n1/qemu/150/config",
            r#"{"scsi0": "sp1:vol-1,cache=none,discard=on,iothread=1"}"#,
        ),
    ])
    .unwrap();
    assert_eq!(asked, ["storage", "nodes", "nodes/n1/qemu", "nodes/n1/qemu/150/config"]);
    assert!(scan.finished());
    assert_eq!(
        scan.violations(),
        [found(150, VmDiskType::Scsi, 0, Rule::DiskType, None)]
    );
    let (_, scan) = run(&[
        ("storage", SP1),
        ("nodes", N1),
        ("nodes/n1/qemu", r#"[{"vmid": 150, "status": "running"}]"#),
        (
            "nodes/n1/qemu/150/config",
            r#"{"virtio0": "sp1:vol-1,cache=none,discard=on,iothread=1"}"#,
        ),
    ])
    .unwrap();
    assert!(scan.finished());
    assert!(!scan.problems());
    assert!(scan.violations().is_empty());
}

#[test]
fn an_ide_disk_is_found_and_the_scan_goes_on() {
    let (asked, scan) = run(&[
        ("storage", SP1),
        ("nodes", N1),
        ("nodes/n1/qemu", r#"[{"vmid": 150, "status": "running"}]"#),
        ("nodes/n1/qemu/150/config", r#"{"ide0": "sp1:vol-2,discard=on,iothread=1"}"#),
    ])
    .unwrap();
    assert_eq!(asked.len(), 4);
    assert!(scan.finished());
    assert!(scan.problems());
    assert_eq!(scan.violations(), [found(150, VmDiskType::Ide, 0, Rule::DiskType, None)]);
}

#[test]
fn a_disk_on_missing_storage_is_found_whatever_its_options() {
    for definition in ["missing-store:vol-3", "missing-store:vol-3,cache=none,discard=on,iothread=1"] {
        let config = format!(r#"{{"scsi1": "{definition}"}}"#);
        let (_, scan) = run(&[
            ("storage", SP1),
            ("nodes", N1),
            ("nodes/n1/qemu", r#"[{"vmid": 150, "status": "running"}]"#),
            ("nodes/n1/qemu/150/config", &config),
        ])
        .unwrap();
        assert!(scan.finished());
        assert!(scan.problems());
        assert_eq!(
            scan.violations(),
            [found(150, VmDiskType::Scsi, 1, Rule::Storage, Some("missing-store"))]
        );
    }
}

#[test]
fn a_virtual_machine_below_one_hundred_is_not_looked_at() {
    let (asked, scan) = run(&[
        ("storage", SP1),
        ("nodes", N1),
        ("nodes/n1/qemu", r#"[{"vmid": 99, "status": "running"}]"#),
    ])
    .unwrap();
    assert_eq!(asked, ["storage", "nodes", "nodes/n1/qemu"]);
    assert!(scan.finished());
    assert!(!scan.problems());
    assert!(scan.violations().is_empty());
}

#[test]
fn nodes_that_are_not_online_are_passed_over() {
    let (asked, scan) = run(&[
        ("storage", SP1),
        (
            "nodes",
            r#"[{"type": "node", "node": "down", "status": "offline", "id": "node/down"},
                {"type": "node", "node": "n1", "status": "online", "id": "node/n1"},
                {"type": "node", "node": "lost", "status": "unknown", "id": "node/lost"},
                {"type": "node", "node": "n2", "status": "online", "id": "node/n2"}]"#,
        ),
        (
            "nodes/n1/qemu",
            r#"[{"vmid": 99, "status": "running"}, {"vmid": 100, "status": "stopped"},
                {"vmid": 5, "status": "running"}, {"vmid": 101, "status": "running"}]"#,
        ),
        ("nodes/n1/qemu/100/config", r#"{"virtio0": "sp1:a"}"#),
        ("nodes/n1/qemu/101/config", r#"{"virtio0": "sp1:b,discard=on,iothread=1"}"#),
        ("nodes/n2/qemu", r#"[]"#),
    ])
    .unwrap();
    assert_eq!(
        asked,
        [
            "storage",
            "nodes",
            "nodes/n1/qemu",
            "nodes/n1/qemu/100/config",
            "nodes/n1/qemu/101/config",
            "nodes/n2/qemu",
        ]
    );
    assert!(scan.finished());
    assert_eq!(scan.nodes_passed_over(), ["down", "lost"]);
    assert_eq!(scan.nodes().len(), 4);
    assert_eq!(scan.storage().len(), 1);
    assert_eq!(
        scan.violations(),
        [
            found(100, VmDiskType::Virtio, 0, Rule::Discard, None),
            found(100, VmDiskType::Virtio, 0, Rule::Iothread, None),
        ]
    );
}

#[test]
fn a_cluster_without_online_nodes_is_scanned_at_once() {
    let (asked, scan) = run(&[("storage", "[]"), ("nodes", "[]")]).unwrap();
    assert_eq!(asked, ["storage", "nodes"]);
    assert!(scan.finished());
    assert!(!scan.problems());
    let (asked, _) = run(&[
        ("storage", "[]"),
        (
            "nodes",
            r#"[{"type": "node", "node": "down", "status": "offline", "id": "node/down"}]"#,
        ),
    ])
    .unwrap();
    assert_eq!(asked, ["storage", "nodes"]);
}

#[test]
fn a_scan_goes_through_its_stages() {
    let scan = Scan::new();
    assert_eq!(scan.stage(), Stage::Storage);
    assert!(!scan.finished());
    assert_eq!(scan.request().as_deref(), Some("storage"));
    let scan = scan.feed(json(SP1)).unwrap();
    assert_eq!(scan.stage(), Stage::Nodes);
    assert_eq!(scan.request().as_deref(), Some("nodes"));
    assert!(scan.node().is_none());
    let scan = scan.feed(json(N1)).unwrap();
    assert_eq!(scan.stage(), Stage::Vms);
    assert_eq!(scan.node().map(|node| node.node()), Some("n1"));
    assert!(scan.nodes_passed_over().is_empty());
    let scan = scan.feed(json(r#"[{"vmid": 4000000000, "status": "running"}]"#)).unwrap();
    assert_eq!(scan.stage(), Stage::Config);
    assert_eq!(scan.vms().len(), 1);
    assert_eq!(scan.request().as_deref(), Some("nodes/n1/qemu/4000000000/config"));
    let scan = scan.feed(json("{}")).unwrap();
    assert_eq!(scan.stage(), Stage::Done);
    assert_eq!(scan.request(), None);
    let scan = scan.feed(json("17")).unwrap();
    assert_eq!(scan.stage(), Stage::Done);
    assert!(scan.finished());
}

#[test]
fn a_payload_that_cannot_be_decoded_ends_the_scan() {
    let schema = |desc: &str| Error::Api(ApiError::Decode(desc.to_owned(), DecodeError::Schema));
    assert_eq!(run(&[("storage", "{}")]).err(), Some(schema("storage definitions")));
    assert_eq!(
        run(&[("storage", SP1), ("nodes", r#"[{"node": "n1"}]"#)]).err(),
        Some(schema("cluster nodes"))
    );
    assert_eq!(
        run(&[("storage", SP1), ("nodes", N1), ("nodes/n1/qemu", r#"[{"vmid": "x"}]"#)]).err(),
        Some(schema("virtual machines on a node"))
    );
    assert_eq!(
        run(&[
            ("storage", SP1),
            ("nodes", N1),
            ("nodes/n1/qemu", r#"[{"vmid": 150, "status": "running"}]"#),
            ("nodes/n1/qemu/150/config", r#"{"scsi0": "sp1"}"#),
        ])
        .err(),
        Some(Error::Api(ApiError::Decode(
            "configuration of a virtual machine".to_owned(),
            DecodeError::Disk("scsi0".to_owned(), "sp1".to_owned())
        )))
    );
}
