use sdcard_image_flasher::device::windows::{
    descriptor_string, disk_info, gpt_layout, gpt_read_plan, gpt_type_name, hex_guid,
    gpt_is_wanted, is_protective_mbr, mbr_type_name, parse_gpt_entries, parse_mbr_partitions, DescriptorFields, DiskInfo,
    GptEntries, GptLayout, WinDisk,
};
use sdcard_image_flasher::device::{list_devices, DeviceScan};
use sdcard_image_flasher::text::wide_str;

fn mbr_with(entries: &[(u8, u32, u32)]) -> Vec<u8> {
    let mut b = vec![0u8; 512];
    for (i, (t, start, size)) in entries.iter().enumerate() {
        let off = 446 + i * 16;
        b[off + 4] = *t;
        b[off + 8..off + 12].copy_from_slice(&start.to_le_bytes());
        b[off + 12..off + 16].copy_from_slice(&size.to_le_bytes());
    }
    b[510] = 0x55;
    b[511] = 0xAA;
    b
}

#[test]
fn mbr_partitions_are_read() {
    let b = mbr_with(&[(0x0C, 8192, 524288), (0x83, 532480, 1000), (0, 0, 0), (0x99, 10, 0)]);
    let parts = parse_mbr_partitions(&b);
    assert_eq!(parts.len(), 2);
    assert_eq!(parts[0].name, "Partition 1");
    assert_eq!(parts[0].start, 8192 * 512);
    assert_eq!(parts[0].size, 524288 * 512);
    assert_eq!(parts[0].content.as_deref(), Some("FAT32"));
    assert_eq!(parts[1].name, "Partition 2");
    assert_eq!(parts[1].content.as_deref(), Some("Linux"));
}

#[test]
fn mbr_needs_signature() {
    let mut b = mbr_with(&[(0x0C, 8192, 524288)]);
    b[511] = 0;
    assert!(parse_mbr_partitions(&b).is_empty());
    assert!(parse_mbr_partitions(&b[..300]).is_empty());
}

#[test]
fn mbr_type_names() {
    assert_eq!(mbr_type_name(0x0B), Some("FAT32"));
    assert_eq!(mbr_type_name(0x1C), Some("FAT32"));
    assert_eq!(mbr_type_name(0x06), Some("FAT16"));
    assert_eq!(mbr_type_name(0x07), Some("NTFS"));
    assert_eq!(mbr_type_name(0x82), Some("Linux Swap"));
    assert_eq!(mbr_type_name(0x0F), Some("Extended"));
    assert_eq!(mbr_type_name(0xEE), Some("GPT Protective"));
    assert_eq!(mbr_type_name(0xEF), Some("EFI System"));
    assert_eq!(mbr_type_name(0xAB), Some("APFS"));
    assert_eq!(mbr_type_name(0xAF), Some("HFS+"));
    assert_eq!(mbr_type_name(0x01), None);
}

#[test]
fn guid_bytes_in_gpt_order() {
    let g = hex_guid("C12A7328-F81F-11D2-BA4B-00A0C93EC93B");
    assert_eq!(
        g,
        [0x28, 0x73, 0x2A, 0xC1, 0x1F, 0xF8, 0xD2, 0x11, 0xBA, 0x4B, 0x00, 0xA0, 0xC9, 0x3E, 0xC9, 0x3B]
    );
    assert_eq!(hex_guid("c12a7328f81f11d2ba4b00a0c93ec93b"), g);
    assert_eq!(hex_guid("C12A"), [0u8; 16]);
}

#[test]
fn gpt_type_names() {
    assert_eq!(gpt_type_name(&hex_guid("EBD0A0A2-B9E5-4433-87C0-68B6B72699C7")), Some("Microsoft Basic Data"));
    assert_eq!(gpt_type_name(&hex_guid("C12A7328-F81F-11D2-BA4B-00A0C93EC93B")), Some("EFI System"));
    assert_eq!(gpt_type_name(&hex_guid("E3C9E316-0B5C-4DB8-817D-F92DF00215AE")), Some("Microsoft Reserved"));
    assert_eq!(gpt_type_name(&hex_guid("0FC63DAF-8483-4772-8E79-3D69D8477DE4")), Some("Linux"));
    assert_eq!(gpt_type_name(&hex_guid("7C3457EF-0000-11AA-AA11-00306543ECAC")), Some("APFS"));
    assert_eq!(gpt_type_name(&hex_guid("48465300-0000-11AA-AA11-00306543ECAC")), Some("HFS+"));
    assert_eq!(gpt_type_name(&[1u8; 16]), None);
}

fn gpt_header(count: u32, size: u32, lba: u64) -> Vec<u8> {
    let mut h = vec![0u8; 512];
    h[0..8].copy_from_slice(b"EFI PART");
    h[72..80].copy_from_slice(&lba.to_le_bytes());
    h[80..84].copy_from_slice(&count.to_le_bytes());
    h[84..88].copy_from_slice(&size.to_le_bytes());
    h
}

fn gpt_entry(guid: &str, first: u64, last: u64, name: &str) -> Vec<u8> {
    let mut e = vec![0u8; 128];
    e[0..16].copy_from_slice(&hex_guid(guid));
    e[32..40].copy_from_slice(&first.to_le_bytes());
    e[40..48].copy_from_slice(&last.to_le_bytes());
    for (i, u) in name.encode_utf16().enumerate() {
        e[56 + 2 * i..58 + 2 * i].copy_from_slice(&u.to_le_bytes());
    }
    e
}

#[test]
fn gpt_header_layout() {
    let l = gpt_layout(&gpt_header(128, 128, 2)).unwrap();
    assert_eq!((l.entry_count, l.entry_size, l.entries_lba), (128, 128, 2));
    let mut bad = gpt_header(128, 128, 2);
    bad[0] = b'X';
    assert!(gpt_layout(&bad).is_none());
    assert!(gpt_layout(&gpt_header(0, 128, 2)).is_none());
    assert!(gpt_layout(&gpt_header(128, 0, 2)).is_none());
}

#[test]
fn gpt_read_plan_bounds() {
    let l = GptLayout { entry_count: 5000, entry_size: 128, entries_lba: 2 };
    let p = gpt_read_plan(&l, 1 << 30);
    assert_eq!((p.offset, p.read_count, p.read_bytes), (1024, 1024, 1024 * 128));
    let p = gpt_read_plan(&l, 2048);
    assert_eq!(p.read_bytes, 1024);
    let p = gpt_read_plan(&l, 100);
    assert_eq!(p.read_bytes, 0);
}

#[test]
fn gpt_entries_are_read() {
    let mut buf = gpt_entry("EBD0A0A2-B9E5-4433-87C0-68B6B72699C7", 2048, 4095, "data");
    buf.extend(vec![0u8; 128]);
    buf.extend(gpt_entry("0FC63DAF-8483-4772-8E79-3D69D8477DE4", 10000, 10499, ""));
    buf.extend(gpt_entry("0FC63DAF-8483-4772-8E79-3D69D8477DE4", 20000, 0, "backwards"));
    let parts = parse_gpt_entries(&buf, 6, 128);
    assert_eq!(parts.len(), 2);
    assert_eq!(parts[0].name, "data");
    assert_eq!(parts[0].start, 2048 * 512);
    assert_eq!(parts[0].size, 2048 * 512);
    assert_eq!(parts[1].size, 500 * 512);
    assert_eq!(parts[0].content.as_deref(), Some("Microsoft Basic Data"));
    assert_eq!(parts[1].name, "Partition 3");
    assert_eq!(parts[1].content.as_deref(), Some("Linux"));
    assert!(GptEntries::checked(6, 128, buf).is_some());
}

#[test]
fn gpt_names_are_decoded_from_utf16() {
    let mut buf = gpt_entry("0FC63DAF-8483-4772-8E79-3D69D8477DE4", 34, 43, "Boot😀é");
    let mut odd = gpt_entry("0FC63DAF-8483-4772-8E79-3D69D8477DE4", 64, 73, "");
    for (i, u) in [0x48u16, 0xD800, 0x69].iter().enumerate() {
        odd[56 + 2 * i..58 + 2 * i].copy_from_slice(&u.to_le_bytes());
    }
    buf.extend(odd);
    let parts = parse_gpt_entries(&buf, 2, 128);
    assert_eq!(parts[0].name, "Boot😀é");
    assert_eq!(parts[1].name, "H\u{FFFD}i");
}

#[test]
fn gpt_entry_overflow_is_refused() {
    let buf = gpt_entry("0FC63DAF-8483-4772-8E79-3D69D8477DE4", u64::MAX / 256, u64::MAX / 256, "x");
    assert!(GptEntries::checked(1, 128, buf).is_none());
    let buf = gpt_entry("0FC63DAF-8483-4772-8E79-3D69D8477DE4", 0, u64::MAX / 512, "x");
    assert!(GptEntries::checked(1, 128, buf).is_none());
    let buf = gpt_entry("0FC63DAF-8483-4772-8E79-3D69D8477DE4", 0, u64::MAX / 512 - 1, "x");
    let g = GptEntries::checked(1, 128, buf).unwrap();
    assert_eq!(parse_gpt_entries(&g.entries, 1, 128)[0].size, (u64::MAX / 512) * 512);
}

#[test]
fn descriptor_strings() {
    let mut buf = vec![0u8; 64];
    buf[8..16].copy_from_slice(b" Kingstn");
    buf[20..32].copy_from_slice(b"DataTraveler");
    assert_eq!(descriptor_string(&buf, 8, 8), "Kingstn");
    assert_eq!(descriptor_string(&buf, 20, 12), "DataTraveler");
    assert_eq!(descriptor_string(&buf, 20, 200), "DataTraveler");
    assert_eq!(descriptor_string(&buf, u32::MAX, 4), "");
    assert_eq!(descriptor_string(&buf, 100, 4), "");
    assert_eq!(descriptor_string(&buf, 8, 0), "");
    let bad = [0xFFu8, b'a'];
    assert_eq!(descriptor_string(&bad, 0, 2), "\u{FFFD}a");
    let info = disk_info(
        &buf,
        &DescriptorFields {
            removable_media_offset: 1,
            vendor_id_offset: 8,
            vendor_id_length: 8,
            product_id_offset: 20,
            product_id_length: 12,
            bus_type: 7,
        },
    );
    assert!(info.removable);
    assert_eq!(info.vendor, "Kingstn");
    assert_eq!(info.product, "DataTraveler");
    assert_eq!(info.bus, 7);
}

fn usb_disk(n: u32) -> WinDisk {
    WinDisk {
        number: n,
        info: Some(DiskInfo {
            removable: false,
            vendor: "SanDisk".to_string(),
            product: "Ultra".to_string(),
            bus: 7,
        }),
        size: Some(32_000_000_000),
        mbr: Some(mbr_with(&[(0x0C, 8192, 1000)])),
        gpt: None,
    }
}

#[test]
fn windows_lists_external_disks() {
    let mut internal = usb_disk(0);
    internal.info.as_mut().unwrap().bus = 11;
    let mut unread = usb_disk(3);
    unread.size = None;
    let devices = list_devices(&DeviceScan::Windows(vec![internal, usb_disk(2), usb_disk(1), unread])).unwrap();
    let paths: Vec<&str> = devices.iter().map(|d| d.device_path.as_str()).collect();
    assert_eq!(paths, vec!["\\\\.\\PhysicalDrive1", "\\\\.\\PhysicalDrive2"]);
    let d = &devices[0];
    assert_eq!(d.display_name, "SanDisk Ultra");
    assert_eq!(d.vendor.as_deref(), Some("SanDisk"));
    assert_eq!(d.usb_product_name.as_deref(), Some("Ultra"));
    assert!(!d.removable);
    assert_eq!(d.partitions.len(), 1);
}

#[test]
fn windows_names_and_gpt_fallback() {
    let mut d = usb_disk(4);
    {
        let info = d.info.as_mut().unwrap();
        info.product = String::new();
        info.vendor = String::new();
        info.removable = true;
        info.bus = 1;
    }
    d.mbr = Some(mbr_with(&[]));
    let gpt = gpt_entry("C12A7328-F81F-11D2-BA4B-00A0C93EC93B", 40, 409639, "EFI system partition");
    d.gpt = GptEntries::checked(1, 128, gpt);
    let devices = list_devices(&DeviceScan::Windows(vec![d])).unwrap();
    assert_eq!(devices[0].display_name, "PhysicalDrive4");
    assert_eq!(devices[0].vendor, None);
    assert_eq!(devices[0].usb_product_name, None);
    assert_eq!(devices[0].partitions.len(), 1);
    assert_eq!(devices[0].partitions[0].name, "EFI system partition");
    assert_eq!(devices[0].partitions[0].content.as_deref(), Some("EFI System"));
    let mut d = usb_disk(5);
    d.info.as_mut().unwrap().vendor = String::new();
    d.mbr = None;
    let devices = list_devices(&DeviceScan::Windows(vec![d])).unwrap();
    assert_eq!(devices[0].display_name, "Ultra");
    assert!(devices[0].partitions.is_empty());
}

#[test]
fn wide_strings_end_with_nul() {
    assert_eq!(wide_str("runas"), vec![114, 117, 110, 97, 115, 0]);
    assert_eq!(wide_str("é😀"), vec![0xE9, 0xD83D, 0xDE00, 0]);
    assert_eq!(wide_str(""), vec![0]);
}

#[test]
fn windows_each_drive_listed_once() {
    let devices = list_devices(&DeviceScan::Windows(vec![usb_disk(11), usb_disk(1), usb_disk(10)])).unwrap();
    let paths: Vec<&str> = devices.iter().map(|d| d.device_path.as_str()).collect();
    assert_eq!(paths, vec!["\\\\.\\PhysicalDrive1", "\\\\.\\PhysicalDrive10", "\\\\.\\PhysicalDrive11"]);
}

#[test]
fn protective_mbr_leads_to_the_gpt() {
    let protective = mbr_with(&[(0xEE, 1, u32::MAX)]);
    assert!(is_protective_mbr(&protective));
    assert!(gpt_is_wanted(&protective));
    let hybrid = mbr_with(&[(0xEE, 1, 100), (0x0C, 2048, 1000)]);
    assert!(!is_protective_mbr(&hybrid));
    assert!(!gpt_is_wanted(&hybrid));
    assert!(!is_protective_mbr(&mbr_with(&[])));
    assert!(gpt_is_wanted(&mbr_with(&[])));

    let mut d = usb_disk(6);
    d.mbr = Some(protective);
    let gpt = gpt_entry("EBD0A0A2-B9E5-4433-87C0-68B6B72699C7", 2048, 2099199, "DATA");
    d.gpt = GptEntries::checked(1, 128, gpt);
    let devices = list_devices(&DeviceScan::Windows(vec![d])).unwrap();
    let parts = &devices[0].partitions;
    assert_eq!(parts.len(), 1);
    assert_eq!(parts[0].name, "DATA");
    assert_eq!(parts[0].start, 2048 * 512);
    assert_eq!(parts[0].size, 2097152 * 512);
    assert_eq!(parts[0].content.as_deref(), Some("Microsoft Basic Data"));

    let mut d = usb_disk(7);
    d.mbr = Some(hybrid);
    d.gpt = None;
    let devices = list_devices(&DeviceScan::Windows(vec![d])).unwrap();
    assert_eq!(devices[0].partitions.len(), 2);
    assert_eq!(devices[0].partitions[0].content.as_deref(), Some("GPT Protective"));
}
