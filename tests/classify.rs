use simple_init_boot::classify::{
    block_device_has_partitions, block_device_is_storage, block_device_path, block_device_type,
    device_dir, parent_device_dir, start_targets, BackingChain, BlockDeviceType,
};
use simple_init_boot::sysfs::{path_has_subdir, walk_path_has_subdir};

fn strs(v: &[&str]) -> Vec<String> {
    v.iter().map(|s| s.to_string()).collect()
}

fn chain(sub: Option<&str>, host: Option<&str>) -> BackingChain {
    BackingChain {
        subsystem: sub.map(|s| s.to_string()),
        host_subsystem: host.map(|s| s.to_string()),
    }
}

#[test]
fn classify_virtio_is_internal() {
    assert_eq!(block_device_type(&chain(Some("virtio"), None)), BlockDeviceType::Internal);
}

#[test]
fn classify_scsi_on_usb_host_is_usb() {
    assert_eq!(block_device_type(&chain(Some("scsi"), Some("usb"))), BlockDeviceType::USB);
}

#[test]
fn classify_scsi_on_pci_host_is_internal() {
    assert_eq!(block_device_type(&chain(Some("scsi"), Some("pci"))), BlockDeviceType::Internal);
}

#[test]
fn classify_scsi_without_host_is_internal() {
    assert_eq!(block_device_type(&chain(Some("scsi"), None)), BlockDeviceType::Internal);
}

#[test]
fn classify_other_subsystem_or_none_is_other() {
    assert_eq!(block_device_type(&chain(Some("mmc"), Some("usb"))), BlockDeviceType::Other);
    assert_eq!(block_device_type(&chain(None, None)), BlockDeviceType::Other);
}

#[test]
fn classify_is_repeatable() {
    let c = chain(Some("scsi"), Some("usb"));
    assert_eq!(block_device_type(&c), block_device_type(&c));
    let d = chain(Some("scsi"), Some("usb"));
    assert_eq!(block_device_type(&c), block_device_type(&d));
}

#[test]
fn storage_needs_device_entry() {
    assert!(block_device_is_storage(&strs(&["dev", "device", "queue"])));
    assert!(!block_device_is_storage(&strs(&["dev", "queue", "loop"])));
    assert!(!block_device_is_storage(&Vec::new()));
}

#[test]
fn partitions_are_prefixed_entries() {
    assert!(block_device_has_partitions("sda", &strs(&["dev", "sda1", "queue"])));
    assert!(!block_device_has_partitions("sdb", &strs(&["dev", "device", "queue"])));
    assert!(!block_device_has_partitions("sdb", &Vec::new()));
}

#[test]
fn device_path_prefers_own_device() {
    let block = strs(&["sys", "devices", "pci0", "host0", "block", "sda"]);
    assert_eq!(
        device_dir(&block),
        strs(&["sys", "devices", "pci0", "host0", "block", "sda", "device"])
    );
    assert_eq!(
        block_device_path(&Some(block.clone()), true, true),
        Some(strs(&["sys", "devices", "pci0", "host0", "block", "sda", "device"]))
    );
}

#[test]
fn device_path_of_partition_uses_parent() {
    let block = strs(&["sys", "block", "sda", "sda1"]);
    assert_eq!(parent_device_dir(&block), strs(&["sys", "block", "sda", "device"]));
    assert_eq!(
        block_device_path(&Some(block), false, true),
        Some(strs(&["sys", "block", "sda", "device"]))
    );
}

#[test]
fn device_path_absent() {
    assert_eq!(block_device_path(&Some(strs(&["sys", "block", "ram0"])), false, false), None);
    assert_eq!(block_device_path(&None, true, true), None);
    assert_eq!(parent_device_dir(&Vec::new()), strs(&["device"]));
}

#[test]
fn subdir_lookup() {
    assert!(path_has_subdir(&strs(&["a", "scsi_host", "b"]), "scsi_host"));
    assert!(!path_has_subdir(&strs(&["a", "scsi_hostx"]), "scsi_host"));
}

#[test]
fn walk_finds_deepest_ancestor() {
    let path = strs(&["sys", "devices", "usb1", "host0", "target0"]);
    let listings = vec![
        strs(&["sys"]),
        strs(&["devices"]),
        strs(&["usb1", "scsi_host"]),
        strs(&["host0"]),
        strs(&["scsi_host", "target0"]),
        strs(&["block"]),
    ];
    assert_eq!(
        walk_path_has_subdir(&path, &listings, "scsi_host"),
        Some(strs(&["sys", "devices", "usb1", "host0"]))
    );
}

#[test]
fn walk_checks_the_path_itself_and_the_root() {
    let path = strs(&["a", "b"]);
    let here = vec![strs(&[]), strs(&[]), strs(&["x"])];
    assert_eq!(walk_path_has_subdir(&path, &here, "x"), Some(strs(&["a", "b"])));
    let root = vec![strs(&["x"]), strs(&[]), strs(&[])];
    assert_eq!(walk_path_has_subdir(&path, &root, "x"), Some(Vec::new()));
    let none = vec![strs(&[]), strs(&[]), strs(&[])];
    assert_eq!(walk_path_has_subdir(&path, &none, "x"), None);
}

#[test]
fn start_probes_partitions_of_storage_devices() {
    assert_eq!(
        start_targets("sda", &strs(&["dev", "device", "sda1", "queue", "sda2"])),
        strs(&["sda1", "sda2"])
    );
    assert_eq!(start_targets("loop0", &strs(&["dev", "loop0p1", "queue"])), Vec::<String>::new());
    assert_eq!(start_targets("sr0", &strs(&["dev", "device", "queue"])), Vec::<String>::new());
}
