use flashkraft::drive_detection::linux::{
    find_mount_point, find_usb_ancestor, parse_proc_mounts, read_sysfs_value, should_skip_device, usb_drive,
    usb_drives, MountTable, SysBlock,
};
use flashkraft::drive_detection::macos::{
    extract_integer, extract_string, macos_drive, match_usb_device, parse_disk_info_plist, parse_plist_string_array,
    advance_past_value, DiskInfo, UsbCandidate,
};
use flashkraft::drive_detection::windows::{match_wmic_device, parse_wmic_csv, windows_drive, WmicDisk};
use flashkraft::drive_detection::{build_display_name, speed_string, UsbInfo, UsbSpeed};

// ── Linux helpers ─────────────────────────────────────────────────────────

#[test]
fn test_skip_loop_devices() {
    assert!(should_skip_device("loop0"));
    assert!(should_skip_device("loop1"));
}

#[test]
fn test_skip_nvme_devices() {
    assert!(should_skip_device("nvme0n1"));
}

#[test]
fn test_skip_ram_devices() {
    assert!(should_skip_device("ram0"));
}

#[test]
fn test_skip_dm_devices() {
    assert!(should_skip_device("dm-0"));
}

#[test]
fn test_skip_optical_drives() {
    assert!(should_skip_device("sr0"));
}

#[test]
fn test_skip_empty_name() {
    assert!(should_skip_device(""));
}

#[test]
fn test_allow_sata_usb_names() {
    assert!(!should_skip_device("sda"));
    assert!(!should_skip_device("sdb"));
    assert!(!should_skip_device("sdc"));
}

#[test]
fn test_find_mount_point_exact_device() {
    let mut mounts = MountTable::new();
    mounts.insert("sdb", "/media/usb");
    assert_eq!(
        find_mount_point("sdb", &mounts),
        Some("/media/usb".to_string())
    );
}

#[test]
fn test_find_mount_point_partition() {
    let mut mounts = MountTable::new();
    mounts.insert("sdb1", "/media/usb");
    assert_eq!(
        find_mount_point("sdb", &mounts),
        Some("/media/usb".to_string())
    );
}

#[test]
fn test_find_mount_point_not_found() {
    assert_eq!(find_mount_point("sdb", &MountTable::new()), None);
}

#[test]
fn test_find_mount_point_different_device_not_matched() {
    let mut mounts = MountTable::new();
    mounts.insert("sdc1", "/media/other");
    assert_eq!(find_mount_point("sdb", &mounts), None);
}

#[test]
fn mount_table_insert_replaces_existing_device() {
    let mut mounts = MountTable::new();
    mounts.insert("sdb1", "/media/a");
    mounts.insert("sdb1", "/media/b");
    assert_eq!(mounts.len(), 1);
    assert_eq!(mounts.get("sdb1"), Some("/media/b".to_string()));
}

#[test]
fn parse_proc_mounts_reads_dev_entries_only() {
    let text = "/dev/sdb1 /media/usb vfat rw 0 0\n\
                proc /proc proc rw 0 0\n\
                /dev/sda2 / ext4 rw 0 0\n\
                /dev/sdb1 /mnt/later vfat rw 0 0\n";
    let t = parse_proc_mounts(text);
    assert_eq!(t.len(), 2);
    assert_eq!(t.get("sdb1"), Some("/mnt/later".to_string()));
    assert_eq!(t.get("sda2"), Some("/".to_string()));
    assert_eq!(t.get("proc"), None);
    assert_eq!(find_mount_point("sdb", &t), Some("/mnt/later".to_string()));
}

#[test]
fn find_mount_point_prefers_the_device_itself() {
    let mut mounts = MountTable::new();
    mounts.insert("sdb1", "/media/part");
    mounts.insert("sdb", "/media/whole");
    assert_eq!(find_mount_point("sdb", &mounts), Some("/media/whole".to_string()));
}

#[test]
fn find_mount_point_accepts_digit_and_p_partitions() {
    let mut mounts = MountTable::new();
    mounts.insert("mmcblk0p1", "/boot");
    assert_eq!(find_mount_point("mmcblk0", &mounts), Some("/boot".to_string()));
    // A name followed by anything but a digit or `p` is another device.
    let mut other = MountTable::new();
    other.insert("sdbx1", "/media/x");
    assert_eq!(find_mount_point("sdb", &other), None);
}

// ── macOS plist parser ────────────────────────────────────────────────────

#[test]
fn test_parse_plist_string_array_whole_disks() {
    let plist = r#"<?xml version="1.0" encoding="UTF-8"?>
<!DOCTYPE plist PUBLIC "-//Apple//DTD PLIST 1.0//EN" "http://www.apple.com/DTDs/PropertyList-1.0.dtd">
<plist version="1.0">
<dict>
    <key>AllDisksAndPartitions</key>
    <array/>
    <key>WholeDisks</key>
    <array>
        <string>disk2</string>
        <string>disk3</string>
    </array>
</dict>
</plist>"#;

    let result = parse_plist_string_array(plist, "WholeDisks");
    assert_eq!(result, vec!["disk2", "disk3"]);
}

#[test]
fn test_parse_plist_string_array_missing_key() {
    let plist = "<plist><dict><key>Other</key><array/></dict></plist>";
    let result = parse_plist_string_array(plist, "WholeDisks");
    assert!(result.is_empty());
}

#[test]
fn test_parse_disk_info_plist_whole_removable() {
    let plist = r#"<?xml version="1.0" encoding="UTF-8"?>
<plist version="1.0">
<dict>
    <key>WholeDisk</key>
    <true/>
    <key>RemovableMediaOrExternalDevice</key>
    <true/>
    <key>ReadOnly</key>
    <false/>
    <key>TotalSize</key>
    <integer>32017047552</integer>
    <key>MountPoint</key>
    <string>/Volumes/SANDISK</string>
    <key>USBVendorID</key>
    <integer>1921</integer>
    <key>USBProductID</key>
    <integer>21889</integer>
</dict>
</plist>"#;

    let info = parse_disk_info_plist(plist, "disk2").unwrap();
    assert!(info.whole_disk);
    assert!(info.removable);
    assert!(!info.read_only);
    assert_eq!(info.size_bytes, 32017047552);
    assert_eq!(info.mount_point, Some("/Volumes/SANDISK".to_string()));
    assert_eq!(info.usb_vendor_id, Some(1921));
    assert_eq!(info.usb_product_id, Some(21889));
}

#[test]
fn test_parse_disk_info_plist_not_whole_disk() {
    let plist = r#"<plist version="1.0"><dict>
            <key>WholeDisk</key><false/>
            <key>RemovableMediaOrExternalDevice</key><true/>
            <key>TotalSize</key><integer>16000000000</integer>
        </dict></plist>"#;
    let info = parse_disk_info_plist(plist, "disk2s1").unwrap();
    assert!(!info.whole_disk);
}

#[test]
fn test_parse_disk_info_plist_zero_size_returns_none() {
    let plist = r#"<plist version="1.0"><dict>
            <key>WholeDisk</key><true/>
            <key>TotalSize</key><integer>0</integer>
        </dict></plist>"#;
    assert!(parse_disk_info_plist(plist, "disk2").is_none());
}

#[test]
fn parse_disk_info_plist_unclosed_key_returns_none() {
    let plist = "<dict><key>TotalSize</key><integer>5</integer><key>Broken";
    assert!(parse_disk_info_plist(plist, "disk2").is_none());
}

#[test]
fn parse_disk_info_plist_keeps_first_size() {
    let plist = "<dict><key>TotalSize</key><integer>7</integer>\
                 <key>DiskSize</key><integer>9</integer></dict>";
    assert_eq!(parse_disk_info_plist(plist, "disk2").unwrap().size_bytes, 7);
}

#[test]
fn test_extract_integer_from_integer_tag() {
    assert_eq!(extract_integer("<integer>12345</integer>"), Some(12345));
}

#[test]
fn test_extract_integer_from_real_tag() {
    assert_eq!(
        extract_integer("<real>32017047552.0</real>"),
        Some(32017047552)
    );
}

#[test]
fn extract_integer_without_number_is_none() {
    assert_eq!(extract_integer("<integer>abc</integer>"), None);
    assert_eq!(extract_integer("<string>1</string>"), None);
}

#[test]
fn test_extract_string_tag() {
    assert_eq!(
        extract_string("<string>/Volumes/USB</string>"),
        Some("/Volumes/USB".to_string())
    );
}

#[test]
fn advance_past_value_skips_one_element() {
    assert_eq!(advance_past_value("  <true/>\n<key>X</key>"), "\n<key>X</key>");
    assert_eq!(advance_past_value("<integer>5</integer><key>Y</key>"), "<key>Y</key>");
    assert_eq!(advance_past_value("no tags here"), "");
}

// ── Windows wmic parser ───────────────────────────────────────────────────

#[test]
fn test_parse_wmic_csv_basic() {
    let csv = "\r\nNode,DeviceID,Model,SerialNumber,Size\r\n\
               MYPC,\\\\.\\PhysicalDrive1,SanDisk Ultra USB3.0,AA01234567890,32017047552\r\n";

    let disks = parse_wmic_csv(csv);
    assert_eq!(disks.len(), 1);
    assert!(disks[0].device_id.contains("PhysicalDrive1"));
    assert_eq!(disks[0].size_bytes, 32017047552);
    assert_eq!(disks[0].serial, "AA01234567890");
}

#[test]
fn test_parse_wmic_csv_empty() {
    let disks = parse_wmic_csv("");
    assert!(disks.is_empty());
}

#[test]
fn test_parse_wmic_csv_skips_non_physical() {
    let csv = "Node,DeviceID,Model,SerialNumber,Size\r\n\
               MYPC,\\\\.\\CDROM0,Some CD Drive,,\r\n";
    let disks = parse_wmic_csv(csv);
    assert!(
        disks.is_empty(),
        "non-PhysicalDrive entries must be skipped"
    );
}

#[test]
fn parse_wmic_csv_unknown_size_is_zero() {
    let csv = "Node,DeviceID,Size\nPC,\\\\.\\PhysicalDrive2,\n";
    let disks = parse_wmic_csv(csv);
    assert_eq!(disks.len(), 1);
    assert_eq!(disks[0].size_bytes, 0);
    assert_eq!(disks[0].model, "");
}

// ── Shared helpers ────────────────────────────────────────────────────────

#[test]
fn test_speed_string_known_variants() {
    assert_eq!(speed_string(UsbSpeed::Low), "Low Speed (1.5 Mbps)");
    assert_eq!(speed_string(UsbSpeed::Full), "Full Speed (12 Mbps)");
    assert_eq!(speed_string(UsbSpeed::High), "High Speed (480 Mbps)");
    assert_eq!(speed_string(UsbSpeed::Super), "SuperSpeed (5 Gbps)");
    assert_eq!(speed_string(UsbSpeed::SuperPlus), "SuperSpeed+ (10 Gbps)");
    assert_eq!(speed_string(UsbSpeed::Other), "Unknown speed");
}

#[test]
fn test_build_display_name_with_label() {
    let info = UsbInfo {
        vendor_id: 0x0781,
        product_id: 0x5581,
        manufacturer: Some("SanDisk".into()),
        product: Some("Ultra".into()),
        serial: None,
        speed: None,
    };
    assert_eq!(build_display_name(&info, "sdb"), "SanDisk Ultra (sdb)");
}

#[test]
fn test_build_display_name_vid_pid_fallback() {
    let info = UsbInfo {
        vendor_id: 0x1234,
        product_id: 0xabcd,
        manufacturer: None,
        product: None,
        serial: None,
        speed: None,
    };
    assert_eq!(info.display_label(), "1234:abcd");
    assert_eq!(build_display_name(&info, "sdb"), "sdb");
}

#[test]
fn test_build_display_name_product_only() {
    let info = UsbInfo {
        vendor_id: 0x1234,
        product_id: 0x5678,
        manufacturer: None,
        product: Some("Flash Drive".into()),
        serial: None,
        speed: None,
    };
    assert_eq!(build_display_name(&info, "sdc"), "Flash Drive (sdc)");
}

#[test]
fn display_label_pads_hex_ids() {
    let info = UsbInfo {
        vendor_id: 0x0a,
        product_id: 0xf00,
        manufacturer: None,
        product: None,
        serial: None,
        speed: None,
    };
    assert_eq!(info.display_label(), "000a:0f00");
}

// ── sysfs ───────────────────────────────────────────────────────────────

#[test]
fn test_read_sysfs_u64_valid() {
    assert_eq!(read_sysfs_value("1953525168\n"), Some(1_953_525_168));
}

#[test]
fn test_read_sysfs_u64_invalid() {
    assert_eq!(read_sysfs_value("not_a_number\n"), None);
}

#[test]
fn test_find_usb_ancestor_stops_at_sys_root() {
    assert_eq!(find_usb_ancestor("/sys", &Vec::new()), None);
}

#[test]
fn find_usb_ancestor_walks_up_to_the_device() {
    let usb = vec![
        "/sys/devices/pci0000:00/0000:00:14.0/usb2/2-1".to_string(),
        "/sys/devices/pci0000:00/0000:00:14.0/usb1".to_string(),
    ];
    let block = "/sys/devices/pci0000:00/0000:00:14.0/usb2/2-1/2-1:1.0/host3/target3:0:0/3:0:0:0/block/sdb";
    assert_eq!(find_usb_ancestor(block, &usb), Some(0));
    assert_eq!(find_usb_ancestor("/sys/devices/platform/other/block/sda", &usb), None);
}

// ── The USB drive list ────────────────────────────────────────────────────

const USB_PORT: &str = "/sys/devices/pci0000:00/0000:00:14.0/usb2/2-1";

fn sandisk() -> UsbInfo {
    UsbInfo {
        vendor_id: 0x0781,
        product_id: 0x5581,
        manufacturer: Some("SanDisk".into()),
        product: Some("Ultra".into()),
        serial: None,
        speed: None,
    }
}

fn block(name: &str, canonical: Option<&str>, size: Option<&str>, ro: Option<&str>) -> SysBlock {
    SysBlock {
        name: name.into(),
        canonical: canonical.map(|s| s.to_string()),
        size: size.map(|s| s.to_string()),
        ro: ro.map(|s| s.to_string()),
    }
}

#[test]
fn usb_block_device_becomes_a_drive() {
    let mounts = parse_proc_mounts("/dev/sdb1 /media/user/STICK vfat rw 0 0\n");
    let canonical = format!("{USB_PORT}/2-1:1.0/host3/target3:0:0/3:0:0:0/block/sdb");
    let b = block("sdb", Some(&canonical), Some("60062500\n"), Some("0\n"));
    let d = usb_drive(&b, &vec![USB_PORT.to_string()], &vec![sandisk()], &mounts).unwrap();
    assert_eq!(d.name, "SanDisk Ultra (sdb)");
    assert_eq!(d.device_path, "/dev/sdb");
    assert_eq!(d.mount_point, "/media/user/STICK");
    assert_eq!(d.size_bytes, 60062500 * 512);
    assert!(!d.is_system);
    assert!(!d.is_read_only);
    let info = d.usb_info.expect("a USB drive carries its device's data");
    assert_eq!(info.vendor_id, 0x0781);
    assert_eq!(info.product.as_deref(), Some("Ultra"));
}

#[test]
fn non_usb_empty_and_skipped_devices_are_not_drives() {
    let mounts = MountTable::new();
    let usb = vec![USB_PORT.to_string()];
    let infos = vec![sandisk()];
    let internal = block("sda", Some("/sys/devices/pci0000:00/0000:00:17.0/ata1/host0/block/sda"), Some("100"), None);
    assert!(usb_drive(&internal, &usb, &infos, &mounts).is_none());
    let empty = block("sdc", Some(&format!("{USB_PORT}/block/sdc")), Some("0"), None);
    assert!(usb_drive(&empty, &usb, &infos, &mounts).is_none());
    let unreadable = block("sdd", Some(&format!("{USB_PORT}/block/sdd")), None, None);
    assert!(usb_drive(&unreadable, &usb, &infos, &mounts).is_none());
    let looped = block("loop0", Some(&format!("{USB_PORT}/block/loop0")), Some("100"), None);
    assert!(usb_drive(&looped, &usb, &infos, &mounts).is_none());
    let dangling = block("sde", None, Some("100"), None);
    assert!(usb_drive(&dangling, &usb, &infos, &mounts).is_none());
}

#[test]
fn read_only_flag_and_device_node_fallback() {
    let b = block("sdb", Some(&format!("{USB_PORT}/block/sdb")), Some("8"), Some("1\n"));
    let d = usb_drive(&b, &vec![USB_PORT.to_string()], &vec![sandisk()], &MountTable::new()).unwrap();
    assert!(d.is_read_only);
    assert_eq!(d.mount_point, "/dev/sdb");
    assert_eq!(d.size_bytes, 4096);
}

#[test]
fn drive_list_sorted_by_device_path() {
    let usb = vec![USB_PORT.to_string()];
    let infos = vec![sandisk()];
    let blocks = vec![
        block("sdc", Some(&format!("{USB_PORT}/block/sdc")), Some("8"), None),
        block("sda", Some("/sys/devices/platform/block/sda"), Some("8"), None),
        block("sdb", Some(&format!("{USB_PORT}/block/sdb")), Some("8"), None),
    ];
    let drives = usb_drives(&blocks, &usb, &infos, &MountTable::new());
    let paths: Vec<&str> = drives.iter().map(|d| d.device_path.as_str()).collect();
    assert_eq!(paths, vec!["/dev/sdb", "/dev/sdc"]);
}

// ── Matching disks to USB devices (macOS, Windows) ───────────────────────

fn usb(vid: u16, pid: u16, maker: Option<&str>, product: Option<&str>, serial: Option<&str>) -> UsbInfo {
    UsbInfo {
        vendor_id: vid,
        product_id: pid,
        manufacturer: maker.map(|s| s.to_string()),
        product: product.map(|s| s.to_string()),
        serial: serial.map(|s| s.to_string()),
        speed: None,
    }
}

fn disk_info(vid: Option<u16>, pid: Option<u16>, serial: Option<&str>, rid: Option<u64>) -> DiskInfo {
    DiskInfo {
        whole_disk: true,
        removable: true,
        size_bytes: 8_000_000_000,
        read_only: false,
        mount_point: Some("/Volumes/STICK".into()),
        usb_vendor_id: vid,
        usb_product_id: pid,
        usb_serial: serial.map(|s| s.to_string()),
        io_registry_entry_id: rid,
    }
}

#[test]
fn macos_matching_prefers_registry_then_serial_then_ids() {
    let c = vec![
        UsbCandidate { registry_id: 10, info: usb(0x0781, 0x5581, Some("SanDisk"), Some("Ultra"), Some("AAA")) },
        UsbCandidate { registry_id: 11, info: usb(0x0781, 0x5581, Some("SanDisk"), Some("Ultra"), Some("BBB")) },
        UsbCandidate { registry_id: 12, info: usb(0x0951, 0x1666, Some("Kingston"), None, None) },
    ];
    assert_eq!(match_usb_device(&c, Some(12), Some(0x0781), Some(0x5581), &Some("BBB".into())), Some(2));
    assert_eq!(match_usb_device(&c, Some(99), Some(0x0781), Some(0x5581), &Some("BBB".into())), Some(1));
    assert_eq!(match_usb_device(&c, None, Some(0x0781), Some(0x5581), &Some("ZZZ".into())), Some(0));
    assert_eq!(match_usb_device(&c, None, Some(0x1234), Some(0x5678), &None), None);
    assert_eq!(match_usb_device(&c, None, None, None, &None), None);
}

#[test]
fn macos_drive_from_disk_info() {
    let c = vec![UsbCandidate { registry_id: 7, info: usb(0x0781, 0x5581, Some("SanDisk"), Some("Ultra"), None) }];
    let d = macos_drive(&disk_info(None, None, None, Some(7)), "disk4", &c).unwrap();
    assert_eq!(d.name, "SanDisk Ultra (disk4)");
    assert_eq!(d.device_path, "/dev/rdisk4");
    assert_eq!(d.mount_point, "/Volumes/STICK");
    assert_eq!(d.size_bytes, 8_000_000_000);
    assert_eq!(d.usb_info.as_ref().unwrap().manufacturer.as_deref(), Some("SanDisk"));
    let unmatched = macos_drive(&disk_info(Some(1), Some(2), Some("S1"), None), "disk5", &c).unwrap();
    assert_eq!(unmatched.name, "disk5");
    let u = unmatched.usb_info.unwrap();
    assert_eq!((u.vendor_id, u.product_id, u.serial.as_deref()), (1, 2, Some("S1")));
    let mut partition = disk_info(None, None, None, Some(7));
    partition.whole_disk = false;
    assert!(macos_drive(&partition, "disk4s1", &c).is_none());
    let mut fixed = disk_info(None, None, None, Some(7));
    fixed.removable = false;
    assert!(macos_drive(&fixed, "disk0", &c).is_none());
    let mut unmounted = disk_info(None, None, None, Some(7));
    unmounted.mount_point = None;
    assert_eq!(macos_drive(&unmounted, "disk4", &c).unwrap().mount_point, "/dev/rdisk4");
}

#[test]
fn windows_matching_by_serial_then_model() {
    let infos = vec![
        usb(0x0781, 0x5581, Some("SanDisk"), Some("Ultra"), Some("  AA0123 ")),
        usb(0x0951, 0x1666, Some("Kingston"), Some("DataTraveler"), None),
    ];
    assert_eq!(match_wmic_device(&infos, "AA0123", "whatever"), Some(0));
    assert_eq!(match_wmic_device(&infos, "", "Kingston DataTraveler 3.0 USB Device"), Some(1));
    assert_eq!(match_wmic_device(&infos, "nope", "SANDISK ULTRA USB"), Some(0));
    assert_eq!(match_wmic_device(&infos, "", ""), None);
    assert_eq!(match_wmic_device(&infos, "", "Generic Flash"), None);
}

#[test]
fn windows_drive_from_wmic_disk() {
    let infos = vec![usb(0x0781, 0x5581, Some("SanDisk"), Some("Ultra"), Some("AA0123"))];
    let disk = WmicDisk {
        device_id: "\\\\.\\PhysicalDrive1".into(),
        size_bytes: 32_012_804_608,
        model: "SanDisk Ultra USB3.0".into(),
        serial: "AA0123".into(),
    };
    let d = windows_drive(&disk, &infos).unwrap();
    assert_eq!(d.name, "SanDisk Ultra (PhysicalDrive1)");
    assert_eq!(d.device_path, "\\\\.\\PhysicalDrive1");
    assert_eq!(d.mount_point, d.device_path);
    let unknown = WmicDisk { device_id: "\\\\.\\PhysicalDrive2".into(), size_bytes: 1, model: "Generic Flash".into(), serial: "".into() };
    let w = windows_drive(&unknown, &vec![]).unwrap();
    assert_eq!(w.name, "Generic Flash (PhysicalDrive2)");
    assert_eq!(w.usb_info.unwrap().product.as_deref(), Some("Generic Flash"));
    let empty = WmicDisk { device_id: "X".into(), size_bytes: 0, model: "".into(), serial: "".into() };
    assert!(windows_drive(&empty, &infos).is_none());
}

#[test]
fn extract_integer_reads_the_first_numeric_element() {
    assert_eq!(extract_integer("<real>5.0</real><integer>7</integer>"), Some(5));
    assert_eq!(extract_integer("<integer>7</integer><real>5.0</real>"), Some(7));
    assert_eq!(extract_integer("<real>32017047552.0</real>"), Some(32017047552));
}
