use sdcard_image_flasher::device::macos::{
    collect_device_info, get_partitions, Characteristics, MediaEntry, MediaNode, MediaProps,
    RegistryNode,
};
use sdcard_image_flasher::device::{list_devices, DeviceScan};

fn props(whole: bool, size: u64, base: u64, bsd: Option<&str>, content: Option<&str>) -> MediaProps {
    MediaProps {
        whole,
        removable: true,
        ejectable: true,
        internal: false,
        size,
        base,
        bsd_name: bsd.map(|s| s.to_string()),
        content: content.map(|s| s.to_string()),
    }
}

fn leaf(p: MediaProps) -> MediaNode {
    MediaNode { props: Some(p), children: vec![] }
}

fn card_tree() -> Vec<MediaNode> {
    vec![MediaNode {
        props: None,
        children: vec![
            leaf(props(false, 30_000_000_000, 269_484_032, Some("disk4s2"), Some("Linux"))),
            leaf(props(false, 268_435_456, 4_194_304, Some("disk4s1"), Some("DOS_FAT_32"))),
        ],
    }]
}

fn card_ancestry() -> Vec<RegistryNode> {
    vec![
        RegistryNode {
            usb_product_name: None,
            usb_vendor_name: None,
            characteristics: Some(Characteristics {
                product_name: Some("SD Card Reader".to_string()),
                vendor_name: Some("".to_string()),
            }),
        },
        RegistryNode {
            usb_product_name: Some("USB3.0 Card Reader".to_string()),
            usb_vendor_name: Some("Realtek".to_string()),
            characteristics: Some(Characteristics {
                product_name: None,
                vendor_name: Some("Apple".to_string()),
            }),
        },
    ]
}

fn card(bsd: &str) -> MediaEntry {
    MediaEntry {
        props: Some(props(true, 31_914_983_424, 0, Some(bsd), Some("FDisk_partition_scheme"))),
        ancestry: card_ancestry(),
        descendants: card_tree(),
    }
}

#[test]
fn macos_enumerate_devices() {
    let mut internal = card("disk0");
    if let Some(p) = internal.props.as_mut() {
        p.removable = false;
        p.ejectable = false;
        p.internal = true;
    }
    let devices = list_devices(&DeviceScan::MacOs(vec![card("disk4"), internal])).unwrap();
    for d in &devices {
        println!("{:?}", d);
    }
    assert_eq!(devices.len(), 1);
}

#[test]
fn macos_card_details() {
    let devices = list_devices(&DeviceScan::MacOs(vec![card("disk4")])).unwrap();
    let d = &devices[0];
    assert_eq!(d.device_path, "/dev/disk4");
    assert_eq!(d.display_name, "USB3.0 Card Reader");
    assert_eq!(d.vendor.as_deref(), Some("Realtek"));
    assert_eq!(d.usb_product_name.as_deref(), Some("USB3.0 Card Reader"));
    assert_eq!(d.size_bytes, 31_914_983_424);
    assert!(d.removable);
    assert!(!d.is_system);
    let names: Vec<&str> = d.partitions.iter().map(|p| p.name.as_str()).collect();
    assert_eq!(names, vec!["disk4s1", "disk4s2"]);
}

#[test]
fn macos_same_medium_listed_once() {
    let devices =
        list_devices(&DeviceScan::MacOs(vec![card("disk5"), card("disk4"), card("disk5")])).unwrap();
    let paths: Vec<&str> = devices.iter().map(|d| d.device_path.as_str()).collect();
    assert_eq!(paths, vec!["/dev/disk4", "/dev/disk5"]);
}

#[test]
fn macos_needs_whole_removable_named_media() {
    let mut e = card("disk4");
    e.props.as_mut().unwrap().whole = false;
    let mut f = card("disk6");
    f.props.as_mut().unwrap().bsd_name = None;
    let g = MediaEntry { props: None, ancestry: vec![], descendants: vec![] };
    assert!(list_devices(&DeviceScan::MacOs(vec![e, f, g])).unwrap().is_empty());
}

#[test]
fn macos_names_fall_back_to_storage_then_bsd() {
    let info = collect_device_info(&card_ancestry()[..1].to_vec());
    assert_eq!(info.usb_product, None);
    assert_eq!(info.block_product.as_deref(), Some("SD Card Reader"));
    assert_eq!(info.block_vendor, None);
    let mut e = card("disk4");
    e.ancestry = card_ancestry()[..1].to_vec();
    let d = &list_devices(&DeviceScan::MacOs(vec![e])).unwrap()[0];
    assert_eq!(d.display_name, "SD Card Reader");
    assert_eq!(d.vendor, None);
    let mut e = card("disk4");
    e.ancestry = vec![];
    let d = &list_devices(&DeviceScan::MacOs(vec![e])).unwrap()[0];
    assert_eq!(d.display_name, "disk4");
    let info = collect_device_info(&card_ancestry());
    assert_eq!(info.block_vendor.as_deref(), Some("Apple"));
}

#[test]
fn partitions_of_internal() {
    // An APFS container: its volumes sit below the container partition and are not
    // collected; unnamed partitions are numbered by collection order.
    let volume = leaf(props(false, 100, 5, Some("disk3s1"), Some("41504653-0000-11AA-AA11-00306543ECAC")));
    let tree = vec![MediaNode {
        props: None,
        children: vec![
            MediaNode {
                props: Some(props(false, 500_000, 40_960, Some("disk0s2"), Some("Apple_APFS"))),
                children: vec![MediaNode {
                    props: None,
                    children: vec![MediaNode { props: None, children: vec![volume] }],
                }],
            },
            leaf(props(false, 200, 20_480, None, None)),
            leaf(props(false, 0, 10, Some("empty"), None)),
            leaf(props(true, 999, 0, Some("whole"), None)),
        ],
    }];
    let parts = get_partitions(&tree);
    println!("disk0 whole=true parts={}", parts.len());
    for p in &parts {
        println!("   {}", p.name);
    }
    let names: Vec<&str> = parts.iter().map(|p| p.name.as_str()).collect();
    assert_eq!(names, vec!["part1", "disk0s2"]);
    assert_eq!(parts[0].content, None);
    assert_eq!(parts[1].content.as_deref(), Some("Apple_APFS"));
}

#[test]
fn partitions_deeper_than_grandchildren_are_left_out() {
    let tree = vec![MediaNode {
        props: None,
        children: vec![MediaNode {
            props: Some(props(false, 700, 0, Some("disk5s1"), None)),
            children: vec![leaf(props(false, 300, 100, Some("disk6s1"), None))],
        }],
    }];
    let parts = get_partitions(&tree);
    let names: Vec<&str> = parts.iter().map(|p| p.name.as_str()).collect();
    assert_eq!(names, vec!["disk5s1"]);
}
