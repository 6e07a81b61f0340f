use sdcard_image_flasher::command::CommandOutput;
use sdcard_image_flasher::device::linux::{fs_type, read_str, read_u64, BlockChild, BlockEntry};
use sdcard_image_flasher::device::{list_devices, DeviceScan};

fn attr(s: &str) -> Option<String> {
    Some(s.to_string())
}

fn child(name: &str, start: &str, size: &str, fs: Option<&str>) -> BlockChild {
    BlockChild {
        name: name.to_string(),
        start: attr(start),
        size: attr(size),
        fs_probe: fs.map(|f| CommandOutput {
            success: true,
            code: Some(0),
            stdout: format!("{}\n", f),
            stderr: String::new(),
        }),
    }
}

fn sd_card() -> BlockEntry {
    BlockEntry {
        name: "sdb".to_string(),
        removable: attr("1\n"),
        size: attr("62333952\n"),
        vendor: attr("Generic \n"),
        model: attr("STORAGE DEVICE  \n"),
        children: vec![
            child("sdb2", "532480\n", "61801472\n", Some("ext4")),
            child("sdb1", "8192\n", "524288\n", Some("vfat")),
            child("device", "", "", None),
            child("queue", "", "", None),
        ],
    }
}

fn internal_disk() -> BlockEntry {
    BlockEntry {
        name: "sda".to_string(),
        removable: attr("0\n"),
        size: attr("1000215216\n"),
        vendor: attr("ATA\n"),
        model: attr("Samsung SSD\n"),
        children: vec![child("sda1", "2048", "1000212480", Some("ext4"))],
    }
}

fn empty_reader() -> BlockEntry {
    BlockEntry {
        name: "mmcblk0".to_string(),
        removable: attr("1\n"),
        size: attr("0\n"),
        vendor: None,
        model: None,
        children: vec![],
    }
}

#[test]
fn linux_enumerate_devices() {
    let scan = DeviceScan::Linux(vec![sd_card(), internal_disk(), empty_reader()]);
    let devices = list_devices(&scan).unwrap();
    for d in &devices {
        println!("{:?}", d);
    }
    assert_eq!(devices.len(), 1);
}

#[test]
fn linux_card_details() {
    let devices = list_devices(&DeviceScan::Linux(vec![sd_card()])).unwrap();
    let d = &devices[0];
    assert_eq!(d.device_path, "/dev/sdb");
    assert_eq!(d.display_name, "STORAGE DEVICE");
    assert_eq!(d.vendor.as_deref(), Some("Generic"));
    assert_eq!(d.usb_product_name.as_deref(), Some("STORAGE DEVICE"));
    assert_eq!(d.size_bytes, 62333952 * 512);
    assert!(d.removable);
    assert!(!d.is_system);
    assert_eq!(d.partitions.len(), 2);
    assert_eq!(d.partitions[0].name, "/dev/sdb1");
    assert_eq!(d.partitions[0].start, 8192 * 512);
    assert_eq!(d.partitions[0].size, 524288 * 512);
    assert_eq!(d.partitions[0].content.as_deref(), Some("vfat"));
    assert_eq!(d.partitions[1].name, "/dev/sdb2");
    assert_eq!(d.partitions[1].content.as_deref(), Some("ext4"));
}

#[test]
fn linux_unknown_model_falls_back_to_path() {
    let mut e = sd_card();
    e.model = attr("Unknown\n");
    let devices = list_devices(&DeviceScan::Linux(vec![e])).unwrap();
    assert_eq!(devices[0].display_name, "/dev/sdb");
    assert_eq!(devices[0].usb_product_name.as_deref(), Some("Unknown"));
    let mut e = sd_card();
    e.model = None;
    let devices = list_devices(&DeviceScan::Linux(vec![e])).unwrap();
    assert_eq!(devices[0].display_name, "/dev/sdb");
}

#[test]
fn linux_devices_sorted_by_path() {
    let mut a = sd_card();
    a.name = "sdc".to_string();
    let mut b = sd_card();
    b.name = "mmcblk1".to_string();
    b.children = vec![child("mmcblk1p1", "8192", "100", None)];
    let devices = list_devices(&DeviceScan::Linux(vec![a, sd_card(), b])).unwrap();
    let paths: Vec<&str> = devices.iter().map(|d| d.device_path.as_str()).collect();
    assert_eq!(paths, vec!["/dev/mmcblk1", "/dev/sdb", "/dev/sdc"]);
    assert_eq!(devices[0].partitions[0].name, "/dev/mmcblk1p1");
    assert_eq!(devices[0].partitions[0].content, None);
}

#[test]
fn linux_skips_other_disk_kinds() {
    let mut e = sd_card();
    e.name = "nvme0n1".to_string();
    assert!(list_devices(&DeviceScan::Linux(vec![e])).unwrap().is_empty());
    let mut e = sd_card();
    e.name = "loop0".to_string();
    assert!(list_devices(&DeviceScan::Linux(vec![e])).unwrap().is_empty());
}

#[test]
fn linux_removable_must_be_one() {
    let mut e = sd_card();
    e.removable = None;
    assert!(list_devices(&DeviceScan::Linux(vec![e])).unwrap().is_empty());
    let mut e = sd_card();
    e.removable = attr(" 1 ");
    assert_eq!(list_devices(&DeviceScan::Linux(vec![e])).unwrap().len(), 1);
}

#[test]
fn linux_size_saturates() {
    let mut e = sd_card();
    e.size = attr("18446744073709551615");
    let d = list_devices(&DeviceScan::Linux(vec![e])).unwrap();
    assert_eq!(d[0].size_bytes, u64::MAX);
}

#[test]
fn linux_partition_needs_geometry() {
    let mut e = sd_card();
    e.children = vec![
        BlockChild { name: "sdb1".to_string(), start: None, size: attr("10"), fs_probe: None },
        child("sdb2", "10", "0", None),
        child("sd", "10", "10", None),
        child("sdb", "10", "10", None),
        child("sdb3", "x", "10", None),
    ];
    let d = list_devices(&DeviceScan::Linux(vec![e])).unwrap();
    assert!(d[0].partitions.is_empty());
}

#[test]
fn linux_attribute_reading() {
    assert_eq!(read_str(&attr("  abc \n")).as_deref(), Some("abc"));
    assert_eq!(read_str(&attr(" \n\t")), None);
    assert_eq!(read_str(&None), None);
    assert_eq!(read_u64(&attr("42\n")), Some(42));
    assert_eq!(read_u64(&attr("+42")), Some(42));
    assert_eq!(read_u64(&attr("-1")), None);
    assert_eq!(read_u64(&attr("18446744073709551616")), None);
    assert_eq!(read_u64(&attr("")), None);
}

#[test]
fn linux_fs_type_probe() {
    let ok = Some(CommandOutput { success: true, code: Some(0), stdout: " vfat \n".to_string(), stderr: String::new() });
    assert_eq!(fs_type(&ok).as_deref(), Some("vfat"));
    let failed = Some(CommandOutput { success: false, code: Some(1), stdout: "vfat".to_string(), stderr: String::new() });
    assert_eq!(fs_type(&failed), None);
    let empty = Some(CommandOutput { success: true, code: Some(0), stdout: "\n".to_string(), stderr: String::new() });
    assert_eq!(fs_type(&empty), None);
    assert_eq!(fs_type(&None), None);
}

#[test]
fn unsupported_platform_lists_nothing() {
    let r = list_devices(&DeviceScan::Unsupported);
    assert_eq!(r.unwrap_err(), "设备发现暂未在此平台实现");
}
