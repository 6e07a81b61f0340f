//! Device discovery on Linux from the attributes under `/sys/block`.

use vstd::prelude::*;
use vstd::string::*;
use crate::command::CommandOutput;
use crate::device::{
    Device, DeviceView, Partition, PartitionView, partition_views, device_views,
    sort_by_start, sort_by_path, sort_partitions, sort_devices, lemma_sorted_member,
    distinct_paths, lemma_sort_keeps_distinct_paths,
};
use crate::number::{parse_unsigned, parse_u64};
use crate::text::{opt_view, trim, has_prefix, trimmed, concat, chars_of, starts_with, eq_str};

verus! {

/// What `/sys/block/<disk>/<child>` tells of a possible partition: its name and the
/// contents of its `start` and `size` attribute files (`None` when unreadable), and
/// the outcome of `lsblk -no FSTYPE /dev/<child>` (`None` when it could not be run).
#[derive(Debug, Clone)]
pub struct BlockChild {
    pub name: String,
    pub start: Option<String>,
    pub size: Option<String>,
    pub fs_probe: Option<CommandOutput>,
}

/// What `/sys/block/<disk>` tells of a disk: its name, the contents of its
/// `removable`, `size`, `device/vendor` and `device/model` files (`None` when
/// unreadable), and its child entries.
#[derive(Debug, Clone)]
pub struct BlockEntry {
    pub name: String,
    pub removable: Option<String>,
    pub size: Option<String>,
    pub vendor: Option<String>,
    pub model: Option<String>,
    pub children: Vec<BlockChild>,
}

/// An attribute file's text: trimmed, and absent when empty.
pub open spec fn attr_text(content: Option<Seq<char>>) -> Option<Seq<char>> {
    match content {
        Some(c) => if trim(c).len() > 0 {
            Some(trim(c))
        } else {
            None
        },
        None => None,
    }
}

/// An attribute file's value as a `u64`.
pub open spec fn attr_u64(content: Option<Seq<char>>) -> Option<u64> {
    match attr_text(content) {
        Some(t) => match parse_unsigned(t, u64::MAX as nat) {
            Some(v) => Some(v as u64),
            None => None,
        },
        None => None,
    }
}

/// The file system type that `lsblk` reported, if it succeeded and printed one.
pub open spec fn probe_fs_type(probe: Option<CommandOutput>) -> Option<Seq<char>> {
    match probe {
        Some(o) => if o.success && trim(o.stdout@).len() > 0 {
            Some(trim(o.stdout@))
        } else {
            None
        },
        None => None,
    }
}

/// A count of 512-byte sectors in bytes, saturating at `u64::MAX`.
pub open spec fn sector_bytes(n: u64) -> u64 {
    if n * 512 > u64::MAX {
        u64::MAX
    } else {
        (n * 512) as u64
    }
}

/// Disks worth listing by name: SCSI/USB (`sd*`) and SD/eMMC (`mmcblk*`).
pub open spec fn is_candidate_disk(name: Seq<char>) -> bool {
    has_prefix(name, "sd"@) || has_prefix(name, "mmcblk"@)
}

/// The partition a child entry of disk `disk` describes, if any.
pub open spec fn child_partition(disk: Seq<char>, c: BlockChild) -> Option<PartitionView> {
    if !(c.name@.len() > disk.len() && has_prefix(c.name@, disk)) {
        None
    } else {
        match (attr_u64(opt_view(c.start)), attr_u64(opt_view(c.size))) {
            (Some(st), Some(sz)) => if sector_bytes(sz) == 0 {
                None
            } else {
                Some(
                    PartitionView {
                        name: "/dev/"@ + c.name@,
                        start: sector_bytes(st),
                        size: sector_bytes(sz),
                        content: probe_fs_type(c.fs_probe),
                    },
                )
            },
            _ => None,
        }
    }
}

/// The partitions that the child entries describe, in the order of the entries.
pub open spec fn child_partitions(disk: Seq<char>, cs: Seq<BlockChild>) -> Seq<PartitionView>
    decreases cs.len(),
{
    if cs.len() == 0 {
        seq![]
    } else {
        let rest = child_partitions(disk, cs.drop_last());
        match child_partition(disk, cs.last()) {
            Some(p) => rest.push(p),
            None => rest,
        }
    }
}

/// The device that a `/sys/block` entry describes, if it is a removable disk with media.
pub open spec fn block_device(e: BlockEntry) -> Option<DeviceView> {
    let size = sector_bytes(
        match attr_u64(opt_view(e.size)) {
            Some(n) => n,
            None => 0,
        },
    );
    let path = "/dev/"@ + e.name@;
    let model = attr_text(opt_view(e.model));
    if !is_candidate_disk(e.name@) || attr_text(opt_view(e.removable)) != Some("1"@) || size
        == 0 {
        None
    } else {
        Some(
            DeviceView {
                device_path: path,
                display_name: match model {
                    Some(m) => if m.len() > 0 && m != "Unknown"@ {
                        m
                    } else {
                        path
                    },
                    None => path,
                },
                vendor: attr_text(opt_view(e.vendor)),
                usb_product_name: model,
                size_bytes: size,
                removable: true,
                is_system: false,
                partitions: sort_by_start(child_partitions(e.name@, e.children@)),
            },
        )
    }
}

/// The devices that the entries describe, in the order of the entries.
pub open spec fn block_devices(es: Seq<BlockEntry>) -> Seq<DeviceView>
    decreases es.len(),
{
    if es.len() == 0 {
        seq![]
    } else {
        let rest = block_devices(es.drop_last());
        match block_device(es.last()) {
            Some(d) => rest.push(d),
            None => rest,
        }
    }
}

/// An attribute file's text, trimmed; `None` when unreadable or empty.
pub fn read_str(content: &Option<String>) -> (r: Option<String>)
    ensures
        opt_view(r) == attr_text(opt_view(*content)),
{
    match content {
        Some(c) => {
            let t = trimmed(c.as_str());
            if t.as_str().is_empty() {
                None
            } else {
                Some(t)
            }
        },
        None => None,
    }
}

/// An attribute file's value as a `u64`; `None` when unreadable, empty or not a number.
pub fn read_u64(content: &Option<String>) -> (r: Option<u64>)
    ensures
        r == attr_u64(opt_view(*content)),
{
    match read_str(content) {
        Some(t) => parse_u64(t.as_str()),
        None => None,
    }
}

/// The file system type from the outcome of `lsblk -no FSTYPE`.
pub fn fs_type(probe: &Option<CommandOutput>) -> (r: Option<String>)
    ensures
        opt_view(r) == probe_fs_type(*probe),
{
    match probe {
        Some(o) => {
            if !o.success {
                return None;
            }
            let t = trimmed(o.stdout.as_str());
            if t.as_str().is_empty() {
                None
            } else {
                Some(t)
            }
        },
        None => None,
    }
}

fn sectors_to_bytes(n: u64) -> (r: u64)
    ensures
        r == sector_bytes(n),
{
    if n > u64::MAX / 512 {
        u64::MAX
    } else {
        n * 512
    }
}

/// `"/dev/"` followed by `name`.
pub fn dev_path(name: &String) -> (r: String)
    ensures
        r@ == "/dev/"@ + name@,
{
    concat("/dev/", name.as_str())
}

/// Whether a disk name is one of the kinds that are listed.
pub fn candidate_disk(name: &String) -> (r: bool)
    ensures
        r == is_candidate_disk(name@),
{
    let n = chars_of(name.as_str());
    starts_with(&n, &chars_of("sd")) || starts_with(&n, &chars_of("mmcblk"))
}

/// The partition a child entry of disk `disk` describes, if any.
pub fn block_partition(disk: &String, c: &BlockChild) -> (r: Option<Partition>)
    ensures
        match r {
            Some(p) => child_partition(disk@, *c) == Some(p@),
            None => child_partition(disk@, *c) is None,
        },
{
    let cn = chars_of(c.name.as_str());
    let dn = chars_of(disk.as_str());
    if !(cn.len() > dn.len() && starts_with(&cn, &dn)) {
        return None;
    }
    let start = read_u64(&c.start);
    let size = read_u64(&c.size);
    match (start, size) {
        (Some(st), Some(sz)) => {
            let psize = sectors_to_bytes(sz);
            if psize == 0 {
                return None;
            }
            Some(
                Partition {
                    name: dev_path(&c.name),
                    start: sectors_to_bytes(st),
                    size: psize,
                    content: fs_type(&c.fs_probe),
                },
            )
        },
        _ => None,
    }
}

/// The device that a `/sys/block` entry describes, if it is a removable disk with media.
pub fn block_device_of(e: &BlockEntry) -> (r: Option<Device>)
    ensures
        match r {
            Some(d) => block_device(*e) == Some(d@),
            None => block_device(*e) is None,
        },
{
    if !candidate_disk(&e.name) {
        return None;
    }
    let removable = match read_str(&e.removable) {
        Some(s) => eq_str(s.as_str(), "1"),
        None => false,
    };
    if !removable {
        return None;
    }
    let size_sectors = match read_u64(&e.size) {
        Some(n) => n,
        None => 0,
    };
    let size_bytes = sectors_to_bytes(size_sectors);
    if size_bytes == 0 {
        return None;
    }
    let vendor = read_str(&e.vendor);
    let model = read_str(&e.model);
    let mut parts: Vec<Partition> = Vec::new();
    let mut i: usize = 0;
    while i < e.children.len()
        invariant
            i <= e.children@.len(),
            partition_views(parts@) == child_partitions(e.name@, e.children@.take(i as int)),
        decreases e.children@.len() - i,
    {
        assert(e.children@.take(i + 1).drop_last() =~= e.children@.take(i as int));
        match block_partition(&e.name, &e.children[i]) {
            Some(p) => {
                parts.push(p);
            },
            None => {},
        }
        assert(partition_views(parts@) =~= child_partitions(
            e.name@,
            e.children@.take(i + 1),
        ));
        i = i + 1;
    }
    assert(e.children@.take(i as int) =~= e.children@);
    let partitions = sort_partitions(parts);
    let device_path = dev_path(&e.name);
    let display_name = match &model {
        Some(m) => {
            if !m.as_str().is_empty() && !eq_str(m.as_str(), "Unknown") {
                m.clone()
            } else {
                device_path.clone()
            }
        },
        None => device_path.clone(),
    };
    Some(
        Device {
            device_path,
            display_name,
            vendor,
            usb_product_name: model,
            size_bytes,
            removable: true,
            is_system: false,
            partitions,
        },
    )
}

/// The removable devices that the `/sys/block` entries describe, ordered by path.
pub fn list_devices(entries: &Vec<BlockEntry>) -> (r: Vec<Device>)
    ensures
        device_views(r@) == sort_by_path(block_devices(entries@)),
{
    let mut found: Vec<Device> = Vec::new();
    let mut i: usize = 0;
    while i < entries.len()
        invariant
            i <= entries@.len(),
            device_views(found@) == block_devices(entries@.take(i as int)),
        decreases entries@.len() - i,
    {
        assert(entries@.take(i + 1).drop_last() =~= entries@.take(i as int));
        match block_device_of(&entries[i]) {
            Some(d) => {
                found.push(d);
            },
            None => {},
        }
        assert(device_views(found@) =~= block_devices(entries@.take(i + 1)));
        i = i + 1;
    }
    assert(entries@.take(i as int) =~= entries@);
    sort_devices(found)
}


/// What every device found under `/sys/block` is: removable, not a system disk,
/// holding media, and named `/dev/<disk>`.
pub open spec fn listed_linux_device(d: DeviceView) -> bool {
    &&& d.removable
    &&& !d.is_system
    &&& d.size_bytes > 0
    &&& has_prefix(d.device_path, "/dev/"@)
}

proof fn lemma_block_devices_listed(es: Seq<BlockEntry>)
    ensures
        forall|i: int| 0 <= i < block_devices(es).len() ==> listed_linux_device(
            #[trigger] block_devices(es)[i],
        ),
    decreases es.len(),
{
    if es.len() > 0 {
        lemma_block_devices_listed(es.drop_last());
        match block_device(es.last()) {
            Some(d) => {
                assert(has_prefix(d.device_path, "/dev/"@)) by {
                    reveal_strlit("/dev/");
                    assert(d.device_path.subrange(0, 5) =~= "/dev/"@);
                }
                let prev = block_devices(es.drop_last());
                assert forall|i: int| 0 <= i < prev.push(d).len() implies listed_linux_device(
                    #[trigger] prev.push(d)[i],
                ) by {
                    if i < prev.len() {
                        assert(prev.push(d)[i] == prev[i]);
                    }
                }
            },
            None => {},
        }
    }
}

/// Only removable disks with media are listed, never a system disk: every device
/// of the ordered listing is removable, not a system disk, not empty, and named
/// `/dev/<disk>`.
pub proof fn law_only_removable_media_listed(es: Seq<BlockEntry>)
    ensures
        forall|k: int| 0 <= k < sort_by_path(block_devices(es)).len() ==> listed_linux_device(
            #[trigger] sort_by_path(block_devices(es))[k],
        ),
{
    lemma_block_devices_listed(es);
    assert forall|k: int| 0 <= k < sort_by_path(block_devices(es)).len() implies listed_linux_device(
        #[trigger] sort_by_path(block_devices(es))[k],
    ) by {
        crate::device::lemma_sorted_member(block_devices(es), k);
    }
}

/// No two entries name the same disk.
pub open spec fn distinct_names(es: Seq<BlockEntry>) -> bool {
    forall|i: int, j: int| 0 <= i < j < es.len() ==> es[i].name@ != es[j].name@
}

/// The path a disk entry is listed under.
pub open spec fn entry_path(e: BlockEntry) -> Seq<char> {
    "/dev/"@ + e.name@
}

proof fn lemma_prefix_cancels(p: Seq<char>, a: Seq<char>, b: Seq<char>)
    requires
        p + a == p + b,
    ensures
        a == b,
{
    assert((p + a).skip(p.len() as int) =~= a);
    assert((p + b).skip(p.len() as int) =~= b);
}

proof fn lemma_block_devices_apart(es: Seq<BlockEntry>)
    requires
        distinct_names(es),
    ensures
        distinct_paths(block_devices(es)),
        forall|k: int|
            #![trigger block_devices(es)[k]]
            0 <= k < block_devices(es).len() ==> exists|i: int|
                0 <= i < es.len() && #[trigger] entry_path(es[i]) == block_devices(es)[k].device_path,
    decreases es.len(),
{
    if es.len() > 0 {
        let prev_es = es.drop_last();
        assert(distinct_names(prev_es)) by {
            assert forall|i: int, j: int| 0 <= i < j < prev_es.len() implies prev_es[i].name@
                != prev_es[j].name@ by {
                assert(prev_es[i] == es[i] && prev_es[j] == es[j]);
            }
        }
        lemma_block_devices_apart(prev_es);
        let prev = block_devices(prev_es);
        match block_device(es.last()) {
            Some(d) => {
                let cur = prev.push(d);
                assert(d.device_path == entry_path(es.last()));
                assert forall|k: int| 0 <= k < prev.len() implies (#[trigger] prev[k]).device_path
                    != d.device_path by {
                    let i = choose|i: int|
                        0 <= i < prev_es.len() && #[trigger] entry_path(prev_es[i])
                            == prev[k].device_path;
                    assert(prev_es[i] == es[i]);
                    if prev[k].device_path == d.device_path {
                        lemma_prefix_cancels("/dev/"@, es[i].name@, es.last().name@);
                        assert(es[es.len() - 1] == es.last());
                    }
                }
                assert forall|i: int, j: int| 0 <= i < j < cur.len() implies cur[i].device_path
                    != cur[j].device_path by {
                    if j == prev.len() {
                        assert(cur[i] == prev[i]);
                    } else {
                        assert(cur[i] == prev[i] && cur[j] == prev[j]);
                    }
                }
                assert forall|k: int| #![trigger cur[k]] 0 <= k < cur.len() implies exists|i: int|
                    0 <= i < es.len() && #[trigger] entry_path(es[i]) == cur[k].device_path by {
                    if k == prev.len() {
                        assert(entry_path(es[es.len() - 1]) == cur[k].device_path);
                    } else {
                        let i = choose|i: int|
                            0 <= i < prev_es.len() && #[trigger] entry_path(prev_es[i])
                                == prev[k].device_path;
                        assert(prev_es[i] == es[i]);
                        assert(entry_path(es[i]) == cur[k].device_path);
                    }
                }
            },
            None => {
                assert forall|k: int| #![trigger prev[k]] 0 <= k < prev.len() implies exists|i: int|
                    0 <= i < es.len() && #[trigger] entry_path(es[i]) == prev[k].device_path by {
                    let i = choose|i: int|
                        0 <= i < prev_es.len() && #[trigger] entry_path(prev_es[i])
                            == prev[k].device_path;
                    assert(prev_es[i] == es[i]);
                }
            },
        }
    }
}

/// A disk is listed once: when the `/sys/block` entries name distinct disks (as
/// the entries of a directory do), no two devices of the ordered listing share a path.
pub proof fn law_each_disk_listed_once(es: Seq<BlockEntry>)
    requires
        distinct_names(es),
    ensures
        distinct_paths(sort_by_path(block_devices(es))),
{
    lemma_block_devices_apart(es);
    lemma_sort_keeps_distinct_paths(block_devices(es));
}

} // verus!
