use flashkraft::block_devices::{scan_drives, virtual_device, BlockDevice, MountedDisk};

fn dev(name: &str, size: Option<&str>, vendor: Option<&str>, model: Option<&str>) -> BlockDevice {
    BlockDevice {
        name: name.to_string(),
        size: size.map(|s| s.to_string()),
        vendor: vendor.map(|s| s.to_string()),
        model: model.map(|s| s.to_string()),
    }
}

fn disk(name: &str, mount_point: &str) -> MountedDisk {
    MountedDisk { name: name.to_string(), mount_point: mount_point.to_string() }
}

#[test]
fn virtual_devices_are_recognised() {
    assert!(virtual_device("loop0"));
    assert!(virtual_device("ram1"));
    assert!(virtual_device("dm-0"));
    assert!(virtual_device("zram0"));
    assert!(!virtual_device("sda"));
    assert!(!virtual_device("nvme0n1"));
}

#[test]
fn skips_virtual_and_empty_devices() {
    let devices = vec![
        dev("loop0", Some("1024\n"), None, None),
        dev("sdc", Some("0\n"), None, None),
        dev("sdd", None, None, None),
        dev("sde", Some("garbage"), None, None),
        dev("sdb", Some("  2048\n"), None, None),
    ];
    let drives = scan_drives(&devices, &vec![]);
    assert_eq!(drives.len(), 1);
    assert_eq!(drives[0].device_path, "/dev/sdb");
    assert_eq!(drives[0].size_sectors, 2048);
    assert_eq!(drives[0].name, "sdb");
    assert_eq!(drives[0].mount_point, "/dev/sdb");
}

#[test]
fn names_from_vendor_and_model() {
    let devices = vec![
        dev("sdb", Some("100"), Some("SanDisk \n"), Some("Cruzer\n")),
        dev("sdc", Some("100"), Some("   "), Some("Ultra\n")),
        dev("sdd", Some("100"), Some("Kingston"), None),
    ];
    let drives = scan_drives(&devices, &vec![]);
    let names: Vec<&str> = drives.iter().map(|d| d.name.as_str()).collect();
    assert_eq!(names, vec!["SanDisk Cruzer (sdb)", "Ultra (sdc)", "sdd"]);
}

#[test]
fn label_from_partition_mount_point() {
    let devices = vec![
        dev("sdb", Some("100"), None, None),
        dev("sdc", Some("100"), None, None),
        dev("sdd", Some("100"), None, None),
    ];
    let disks = vec![
        disk("/dev/sdb1", "/media/user/UBUNTU"),
        disk("/dev/sdc1", "/media/sdc1"),
        disk("/dev/sdd1", "/mnt/ab"),
        disk("/dev/sde1", ""),
    ];
    let drives = scan_drives(&devices, &disks);
    assert_eq!(drives.len(), 3);
    let by_path = |p: &str| drives.iter().find(|d| d.device_path == p).unwrap();
    assert_eq!(by_path("/dev/sdb").name, "UBUNTU (sdb)");
    assert_eq!(by_path("/dev/sdb").mount_point, "/media/user/UBUNTU");
    assert_eq!(by_path("/dev/sdc").name, "sdc", "a label that looks like a device is not used");
    assert_eq!(by_path("/dev/sdd").name, "sdd", "a two-byte label is too short");
    assert_eq!(by_path("/dev/sdd").mount_point, "/mnt/ab");
}

#[test]
fn whole_disk_mount_wins_over_partition() {
    let devices = vec![dev("sdb", Some("100"), Some("A"), Some("B"))];
    let disks = vec![disk("/dev/sdb1", "/media/part"), disk("sdb", "/media/whole")];
    let drives = scan_drives(&devices, &disks);
    assert_eq!(drives[0].mount_point, "/media/whole");
}

#[test]
fn later_mount_of_same_device_replaces_earlier() {
    let devices = vec![dev("sdb", Some("100"), Some("A"), Some("B"))];
    let disks = vec![disk("/dev/sdb", "/media/first"), disk("/dev/sdb", "/media/second")];
    let drives = scan_drives(&devices, &disks);
    assert_eq!(drives[0].mount_point, "/media/second");
}

#[test]
fn list_sorted_by_name() {
    let devices = vec![
        dev("sdc", Some("1"), Some("Zeta"), Some("Z")),
        dev("sdb", Some("1"), Some("Alpha"), Some("A")),
        dev("nvme0n1", Some("1"), None, Some("Samsung SSD")),
    ];
    let drives = scan_drives(&devices, &vec![]);
    let names: Vec<&str> = drives.iter().map(|d| d.name.as_str()).collect();
    assert_eq!(names, vec!["Alpha A (sdb)", "Samsung SSD (nvme0n1)", "Zeta Z (sdc)"]);
}
