use proxmoxy::compliance::{check_disk, Rule, Violation};
use proxmoxy::defs::{ApiError, DecodeError, Error};
use proxmoxy::json::parse_json;
use proxmoxy::path::{PathStop, PathStorage};
use proxmoxy::types::{parse_disk, VmDiskType};

fn violation(disk_type: VmDiskType, idx: u32, rule: Rule, found: Option<&str>) -> Violation {
    Violation { vmid: 150, disk_type, idx, rule, found: found.map(str::to_owned) }
}

#[test]
fn a_disk_is_told_by_type_index_and_machine() {
    assert_eq!(
        violation(VmDiskType::Scsi, 2, Rule::DiskType, None).disk_id(),
        "the scsi2 disk for VM 150"
    );
    let far = Violation {
        vmid: 4_294_967_295,
        disk_type: VmDiskType::Virtio,
        idx: 0,
        rule: Rule::Cache,
        found: None,
    };
    assert_eq!(far.disk_id(), "the virtio0 disk for VM 4294967295");
}

#[test]
fn each_violation_has_its_line() {
    assert_eq!(
        violation(VmDiskType::Scsi, 1, Rule::Storage, Some("missing-store")).message(),
        "Invalid type missing-store for the scsi1 disk for VM 150"
    );
    assert_eq!(
        violation(VmDiskType::Ide, 0, Rule::DiskType, None).message(),
        "Disk type 'ide' instead of 'virtio' for the ide0 disk for VM 150"
    );
    assert_eq!(
        violation(VmDiskType::Sata, 10, Rule::DiskType, None).message(),
        "Disk type 'sata' instead of 'virtio' for the sata10 disk for VM 150"
    );
    assert_eq!(
        violation(VmDiskType::Virtio, 3, Rule::Cache, Some("writeback")).message(),
        "Expected 'cache=none' for the virtio3 disk for VM 150, got 'writeback'"
    );
    assert_eq!(
        violation(VmDiskType::Virtio, 3, Rule::Discard, None).message(),
        "No 'discard' defined for the virtio3 disk for VM 150"
    );
    assert_eq!(
        violation(VmDiskType::Virtio, 3, Rule::Discard, Some("ignore")).message(),
        "Expected 'discard=on' for the virtio3 disk for VM 150, got 'ignore'"
    );
    assert_eq!(
        violation(VmDiskType::Virtio, 3, Rule::Iothread, None).message(),
        "No 'iothread' defined for the virtio3 disk for VM 150"
    );
    assert_eq!(
        violation(VmDiskType::Virtio, 3, Rule::Iothread, Some("0")).message(),
        "Expected 'iothread=1' for the virtio3 disk for VM 150, got '0'"
    );
    assert_eq!(
        violation(VmDiskType::Virtio, 3, Rule::Storage, None).message(),
        "Invalid type  for the virtio3 disk for VM 150"
    );
}

#[test]
fn what_is_found_on_a_disk_can_be_told() {
    let storage = PathStorage::from_json(
        parse_json(br#"[{"content": "", "digest": "", "storage": "sp1", "type": "storpool"}]"#)
            .unwrap(),
    )
    .unwrap();
    let disk = parse_disk(VmDiskType::Ide, 0, "sp1:vol-2,cache=directsync,iothread=1").unwrap();
    let mut log = Vec::new();
    assert!(check_disk(&storage, 150, &disk, &mut log));
    let lines: Vec<String> = log.iter().map(Violation::message).collect();
    assert_eq!(
        lines,
        [
            "Disk type 'ide' instead of 'virtio' for the ide0 disk for VM 150",
            "Expected 'cache=none' for the ide0 disk for VM 150, got 'directsync'",
            "No 'discard' defined for the ide0 disk for VM 150",
        ]
    );
}

#[test]
fn errors_have_their_words() {
    assert_eq!(
        Error::Api(ApiError::Envelope).message(),
        "The Proxmox VE API returned an error"
    );
    assert_eq!(
        Error::Internal("'data' should be there".to_owned()).message(),
        "proxmoxy internal error: 'data' should be there"
    );
    assert_eq!(
        Error::Reqwest("connection refused".to_owned()).message(),
        "Could not send an HTTPS request to the Proxmox VE API"
    );
}

#[test]
fn causes_have_their_words() {
    assert_eq!(
        ApiError::Status(404).message(),
        "The GET request returned the HTTP status 404"
    );
    assert_eq!(
        ApiError::Status(65535).message(),
        "The GET request returned the HTTP status 65535"
    );
    assert_eq!(
        ApiError::ContentType.message(),
        "The GET request did not return a JSON Content-Type header"
    );
    assert_eq!(
        ApiError::Body.message(),
        "Could not decode the response to the GET request as valid JSON"
    );
    assert_eq!(ApiError::Envelope.message(), "The GET request returned a weird object");
    assert_eq!(
        ApiError::DiskDefinition("sp1".to_owned()).message(),
        "Could not parse the disk definition sp1"
    );
    assert_eq!(ApiError::DiskType("nvme".to_owned()).message(), "Invalid disk type 'nvme'");
    assert_eq!(
        ApiError::Decode("cluster nodes".to_owned(), DecodeError::Schema).message(),
        "Could not parse deserialize the cluster nodes: the payload does not have the expected shape"
    );
    assert_eq!(
        DecodeError::Value("scsi0".to_owned()).message(),
        "The scsi0 element is not a string"
    );
    assert_eq!(
        DecodeError::Index("scsi4294967296".to_owned()).message(),
        "The index of the scsi4294967296 element is too large"
    );
    assert_eq!(
        DecodeError::Disk("ide1".to_owned(), "x".to_owned()).message(),
        "Could not parse ide1: could not parse the disk definition x"
    );
    assert_eq!(DecodeError::Digest.message(), "unexpected 'digest' value");
}
