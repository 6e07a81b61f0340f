//! Device discovery on macOS from the IORegistry's `IOMedia` entries.

use vstd::prelude::*;
use vstd::string::*;
use crate::device::{
    Device, DeviceView, Partition, PartitionView, partition_views, device_views,
    sort_by_start, sort_by_path, sort_partitions, sort_devices, distinct_paths,
    lemma_sort_keeps_distinct_paths, lemma_sorted_member,
};
use crate::number::{decimal, u64_to_decimal};
use crate::text::{opt_view, clone_opt, concat, eq_str};

verus! {

/// The properties of an `IOMedia` entry that discovery reads. A missing boolean
/// reads as `false` and a missing number as `0`.
#[derive(Debug, Clone)]
pub struct MediaProps {
    pub whole: bool,
    pub removable: bool,
    pub ejectable: bool,
    pub internal: bool,
    pub size: u64,
    pub base: u64,
    pub bsd_name: Option<String>,
    pub content: Option<String>,
}

/// The `Device Characteristics` dictionary of a registry entry.
#[derive(Debug, Clone)]
pub struct Characteristics {
    pub product_name: Option<String>,
    pub vendor_name: Option<String>,
}

/// The naming properties of one entry on the path from a medium up its parents.
#[derive(Debug, Clone)]
pub struct RegistryNode {
    pub usb_product_name: Option<String>,
    pub usb_vendor_name: Option<String>,
    pub characteristics: Option<Characteristics>,
}

/// A registry entry below a whole medium: its properties (`None` when they could
/// not be read) and its own children.
#[derive(Debug)]
pub struct MediaNode {
    pub props: Option<MediaProps>,
    pub children: Vec<MediaNode>,
}

/// An `IOMedia` entry as discovery sees it: its properties, the naming properties
/// of the entry and its parents (nearest first), and the entries below it.
#[derive(Debug)]
pub struct MediaEntry {
    pub props: Option<MediaProps>,
    pub ancestry: Vec<RegistryNode>,
    pub descendants: Vec<MediaNode>,
}

/// The naming information gathered along an entry's ancestry.
pub struct DeviceInfo {
    pub usb_product: Option<String>,
    pub usb_vendor: Option<String>,
    pub block_product: Option<String>,
    pub block_vendor: Option<String>,
}

pub open spec fn nonempty(o: Option<Seq<char>>) -> Option<Seq<char>> {
    match o {
        Some(s) => if s.len() > 0 {
            Some(s)
        } else {
            None
        },
        None => None,
    }
}

pub open spec fn or_else(a: Option<Seq<char>>, b: Option<Seq<char>>) -> Option<Seq<char>> {
    match a {
        Some(x) => Some(x),
        None => b,
    }
}

/// The first USB product name along the ancestry.
pub open spec fn chain_usb_product(c: Seq<RegistryNode>) -> Option<Seq<char>>
    decreases c.len(),
{
    if c.len() == 0 {
        None
    } else {
        or_else(opt_view(c[0].usb_product_name), chain_usb_product(c.drop_first()))
    }
}

/// The first USB vendor name along the ancestry.
pub open spec fn chain_usb_vendor(c: Seq<RegistryNode>) -> Option<Seq<char>>
    decreases c.len(),
{
    if c.len() == 0 {
        None
    } else {
        or_else(opt_view(c[0].usb_vendor_name), chain_usb_vendor(c.drop_first()))
    }
}

pub open spec fn node_block_product(n: RegistryNode) -> Option<Seq<char>> {
    match n.characteristics {
        Some(ch) => nonempty(opt_view(ch.product_name)),
        None => None,
    }
}

pub open spec fn node_block_vendor(n: RegistryNode) -> Option<Seq<char>> {
    match n.characteristics {
        Some(ch) => nonempty(opt_view(ch.vendor_name)),
        None => None,
    }
}

/// The first non-empty storage product name along the ancestry.
pub open spec fn chain_block_product(c: Seq<RegistryNode>) -> Option<Seq<char>>
    decreases c.len(),
{
    if c.len() == 0 {
        None
    } else {
        or_else(node_block_product(c[0]), chain_block_product(c.drop_first()))
    }
}

/// The first non-empty storage vendor name along the ancestry.
pub open spec fn chain_block_vendor(c: Seq<RegistryNode>) -> Option<Seq<char>>
    decreases c.len(),
{
    if c.len() == 0 {
        None
    } else {
        or_else(node_block_vendor(c[0]), chain_block_vendor(c.drop_first()))
    }
}

fn or_else_exec(a: Option<String>, b: Option<String>) -> (r: Option<String>)
    ensures
        opt_view(r) == or_else(opt_view(a), opt_view(b)),
{
    match a {
        Some(x) => Some(x),
        None => b,
    }
}

fn nonempty_exec(o: &Option<String>) -> (r: Option<String>)
    ensures
        opt_view(r) == nonempty(opt_view(*o)),
{
    match o {
        Some(s) => if s.as_str().is_empty() {
            None
        } else {
            Some(s.clone())
        },
        None => None,
    }
}

/// The product and vendor names of a medium: for the USB names the first entry on
/// the ancestry that has one, for the storage names the first that has a non-empty one.
pub fn collect_device_info(chain: &Vec<RegistryNode>) -> (r: DeviceInfo)
    ensures
        opt_view(r.usb_product) == chain_usb_product(chain@),
        opt_view(r.usb_vendor) == chain_usb_vendor(chain@),
        opt_view(r.block_product) == chain_block_product(chain@),
        opt_view(r.block_vendor) == chain_block_vendor(chain@),
{
    let mut i: usize = chain.len();
    let mut info = DeviceInfo {
        usb_product: None,
        usb_vendor: None,
        block_product: None,
        block_vendor: None,
    };
    assert(chain@.skip(chain@.len() as int) =~= Seq::<RegistryNode>::empty());
    while i > 0
        invariant
            i <= chain@.len(),
            opt_view(info.usb_product) == chain_usb_product(chain@.skip(i as int)),
            opt_view(info.usb_vendor) == chain_usb_vendor(chain@.skip(i as int)),
            opt_view(info.block_product) == chain_block_product(chain@.skip(i as int)),
            opt_view(info.block_vendor) == chain_block_vendor(chain@.skip(i as int)),
        decreases i,
    {
        i = i - 1;
        let n = &chain[i];
        assert(chain@.skip(i as int).drop_first() =~= chain@.skip(i + 1));
        assert(chain@.skip(i as int)[0] == chain@[i as int]);
        let bp = match &n.characteristics {
            Some(ch) => nonempty_exec(&ch.product_name),
            None => None,
        };
        let bv = match &n.characteristics {
            Some(ch) => nonempty_exec(&ch.vendor_name),
            None => None,
        };
        info = DeviceInfo {
            usb_product: or_else_exec(clone_opt(&n.usb_product_name), info.usb_product),
            usb_vendor: or_else_exec(clone_opt(&n.usb_vendor_name), info.usb_vendor),
            block_product: or_else_exec(bp, info.block_product),
            block_vendor: or_else_exec(bv, info.block_vendor),
        };
    }
    assert(chain@.skip(0) =~= chain@);
    info
}

/// The partition a registry entry below a medium describes, if it is a non-empty
/// partition; `count` partitions were found before it.
pub open spec fn media_partition(props: Option<MediaProps>, count: nat) -> Option<PartitionView> {
    match props {
        Some(p) => if !p.whole && p.size > 0 {
            Some(
                PartitionView {
                    name: match p.bsd_name {
                        Some(n) => n@,
                        None => "part"@ + decimal(count),
                    },
                    start: p.base,
                    size: p.size,
                    content: nonempty(opt_view(p.content)),
                },
            )
        } else {
            None
        },
        None => None,
    }
}

/// The partitions found walking `nodes` (at `depth` below the medium) depth first,
/// after `acc`: only the medium's children and grandchildren are looked at (medium,
/// BSD client, partition), so that the volumes inside an APFS container are left out.
pub open spec fn collect_nodes(nodes: Seq<MediaNode>, depth: int, acc: Seq<PartitionView>) -> Seq<
    PartitionView,
>
    decreases 2 - depth, nodes.len(),
{
    if depth > 1 || depth < 0 || nodes.len() == 0 {
        acc
    } else {
        let n = nodes[0];
        let acc1 = match media_partition(n.props, acc.len()) {
            Some(p) => acc.push(p),
            None => acc,
        };
        collect_nodes(nodes.drop_first(), depth, collect_nodes(n.children@, depth + 1, acc1))
    }
}

/// Appends to `out` the partitions found below a medium, walking its registry
/// entries depth first and looking at its children and grandchildren only.
pub fn collect_partitions(nodes: &Vec<MediaNode>, depth: u32, out: &mut Vec<Partition>)
    ensures
        partition_views(final(out)@) == collect_nodes(
            nodes@,
            depth as int,
            partition_views(old(out)@),
        ),
    decreases 2 - depth,
{
    if depth > 1 {
        return;
    }
    let ghost acc0 = partition_views(out@);
    assert(nodes@.skip(0) =~= nodes@);
    let mut i: usize = 0;
    while i < nodes.len()
        invariant
            depth <= 1,
            i <= nodes@.len(),
            collect_nodes(nodes@, depth as int, acc0) == collect_nodes(
                nodes@.skip(i as int),
                depth as int,
                partition_views(out@),
            ),
        decreases nodes@.len() - i,
    {
        let n = &nodes[i];
        assert(nodes@.skip(i as int)[0] == nodes@[i as int]);
        assert(nodes@.skip(i as int).drop_first() =~= nodes@.skip(i + 1));
        let ghost before = partition_views(out@);
        match &n.props {
            Some(p) => {
                if !p.whole && p.size > 0 {
                    let name = match &p.bsd_name {
                        Some(b) => b.clone(),
                        None => concat("part", u64_to_decimal(out.len() as u64).as_str()),
                    };
                    out.push(
                        Partition {
                            name,
                            start: p.base,
                            size: p.size,
                            content: nonempty_exec(&p.content),
                        },
                    );
                    assert(partition_views(out@) =~= before.push(
                        media_partition(n.props, before.len()).unwrap(),
                    ));
                }
            },
            None => {},
        }
        collect_partitions(&n.children, depth + 1, out);
        i = i + 1;
    }
    assert(nodes@.skip(i as int) =~= Seq::<MediaNode>::empty());
}

/// The partitions below a medium, ordered by their start offsets.
pub fn get_partitions(nodes: &Vec<MediaNode>) -> (r: Vec<Partition>)
    ensures
        partition_views(r@) == sort_by_start(collect_nodes(nodes@, 0, seq![])),
{
    let mut parts: Vec<Partition> = Vec::new();
    assert(partition_views(parts@) =~= Seq::<PartitionView>::empty());
    collect_partitions(nodes, 0, &mut parts);
    sort_partitions(parts)
}

/// The BSD name of a medium (empty when it has none).
pub open spec fn bsd_name_of(p: MediaProps) -> Seq<char> {
    match p.bsd_name {
        Some(n) => n@,
        None => seq![],
    }
}

/// Whether an `IOMedia` entry is a whole, removable or ejectable medium with a BSD name.
pub open spec fn is_listed_media(props: Option<MediaProps>) -> bool {
    match props {
        Some(p) => p.whole && (p.removable || p.ejectable) && bsd_name_of(p).len() > 0,
        None => false,
    }
}

/// The device an `IOMedia` entry describes, if it is listed.
pub open spec fn media_device(e: MediaEntry) -> Option<DeviceView> {
    if !is_listed_media(e.props) {
        None
    } else {
        let p = e.props.unwrap();
        let c = e.ancestry@;
        Some(
            DeviceView {
                device_path: "/dev/"@ + bsd_name_of(p),
                display_name: match or_else(chain_usb_product(c), chain_block_product(c)) {
                    Some(n) => n,
                    None => bsd_name_of(p),
                },
                vendor: or_else(chain_usb_vendor(c), chain_block_vendor(c)),
                usb_product_name: chain_usb_product(c),
                size_bytes: p.size,
                removable: true,
                is_system: p.internal,
                partitions: sort_by_start(collect_nodes(e.descendants@, 0, seq![])),
            },
        )
    }
}

/// Whether a device with path `path` is among `ds`.
pub open spec fn has_path(ds: Seq<DeviceView>, path: Seq<char>) -> bool {
    exists|i: int| 0 <= i < ds.len() && ds[i].device_path == path
}

/// The devices the entries describe, in the order of the entries, each path once
/// (the first entry with a path wins).
pub open spec fn media_devices(es: Seq<MediaEntry>) -> Seq<DeviceView>
    decreases es.len(),
{
    if es.len() == 0 {
        seq![]
    } else {
        let prev = media_devices(es.drop_last());
        match media_device(es.last()) {
            Some(d) => if has_path(prev, d.device_path) {
                prev
            } else {
                prev.push(d)
            },
            None => prev,
        }
    }
}

/// Whether the device at `path` has already been found.
fn already_found(found: &Vec<Device>, path: &String) -> (r: bool)
    ensures
        r == has_path(device_views(found@), path@),
{
    let mut i: usize = 0;
    while i < found.len()
        invariant
            i <= found@.len(),
            forall|k: int| 0 <= k < i ==> found@[k].device_path@ != path@,
        decreases found@.len() - i,
    {
        if eq_str(found[i].device_path.as_str(), path.as_str()) {
            assert(device_views(found@)[i as int].device_path == path@);
            return true;
        }
        i = i + 1;
    }
    assert forall|k: int| 0 <= k < device_views(found@).len() implies device_views(
        found@,
    )[k].device_path != path@ by {
        assert(device_views(found@)[k] == found@[k]@);
    }
    false
}

/// The device an `IOMedia` entry describes, if it is listed.
pub fn media_device_of(e: &MediaEntry) -> (r: Option<Device>)
    ensures
        match r {
            Some(d) => media_device(*e) == Some(d@),
            None => media_device(*e) is None,
        },
{
    let p = match &e.props {
        Some(p) => p,
        None => {
            return None;
        },
    };
    let bsd = match &p.bsd_name {
        Some(n) => n.clone(),
        None => String::new(),
    };
    if !(p.whole && (p.removable || p.ejectable) && !bsd.as_str().is_empty()) {
        return None;
    }
    let info = collect_device_info(&e.ancestry);
    let display_name = match or_else_exec(clone_opt(&info.usb_product), info.block_product) {
        Some(n) => n,
        None => bsd.clone(),
    };
    Some(
        Device {
            device_path: concat("/dev/", bsd.as_str()),
            display_name,
            vendor: or_else_exec(info.usb_vendor, info.block_vendor),
            usb_product_name: info.usb_product,
            size_bytes: p.size,
            removable: true,
            is_system: p.internal,
            partitions: get_partitions(&e.descendants),
        },
    )
}

/// The removable media that the `IOMedia` entries describe, each once, ordered by path.
pub fn list_devices(entries: &Vec<MediaEntry>) -> (r: Vec<Device>)
    ensures
        device_views(r@) == sort_by_path(media_devices(entries@)),
{
    let mut found: Vec<Device> = Vec::new();
    let mut i: usize = 0;
    while i < entries.len()
        invariant
            i <= entries@.len(),
            device_views(found@) == media_devices(entries@.take(i as int)),
        decreases entries@.len() - i,
    {
        assert(entries@.take(i + 1).drop_last() =~= entries@.take(i as int));
        match media_device_of(&entries[i]) {
            Some(d) => {
                if !already_found(&found, &d.device_path) {
                    found.push(d);
                }
            },
            None => {},
        }
        assert(device_views(found@) =~= media_devices(entries@.take(i + 1)));
        i = i + 1;
    }
    assert(entries@.take(i as int) =~= entries@);
    sort_devices(found)
}


proof fn lemma_media_devices_apart(es: Seq<MediaEntry>)
    ensures
        distinct_paths(media_devices(es)),
        forall|i: int| 0 <= i < media_devices(es).len() ==> (#[trigger] media_devices(es)[i]).removable,
    decreases es.len(),
{
    if es.len() > 0 {
        lemma_media_devices_apart(es.drop_last());
        let prev = media_devices(es.drop_last());
        match media_device(es.last()) {
            Some(d) => {
                if !has_path(prev, d.device_path) {
                    let cur = prev.push(d);
                    assert forall|i: int, j: int|
                        0 <= i < j < cur.len() implies cur[i].device_path != cur[j].device_path by {
                        if j == prev.len() {
                            assert(!(0 <= i < prev.len() && prev[i].device_path == d.device_path));
                        }
                    }
                }
            },
            None => {},
        }
    }
}

/// A medium seen through several registry entries is listed once: no two devices
/// of the ordered listing share a path, and every one of them is removable.
pub proof fn law_each_medium_listed_once(es: Seq<MediaEntry>)
    ensures
        distinct_paths(sort_by_path(media_devices(es))),
        forall|k: int|
            0 <= k < sort_by_path(media_devices(es)).len() ==> (#[trigger] sort_by_path(
                media_devices(es),
            )[k]).removable,
{
    lemma_media_devices_apart(es);
    lemma_sort_keeps_distinct_paths(media_devices(es));
    assert forall|k: int| 0 <= k < sort_by_path(media_devices(es)).len() implies (#[trigger] sort_by_path(
        media_devices(es),
    )[k]).removable by {
        lemma_sorted_member(media_devices(es), k);
        let v = sort_by_path(media_devices(es))[k];
        let m = choose|m: int| 0 <= m < media_devices(es).len() && media_devices(es)[m] == v;
        assert(media_devices(es)[m].removable);
    }
}

/// Which media are listed: an `IOMedia` entry is listed exactly when it is a whole
/// medium with a non-empty BSD name that is removable or ejectable (either one
/// suffices), as `/dev/<BSD name>`, with its size.
pub proof fn law_whole_removable_or_ejectable_media_listed(e: MediaEntry)
    ensures
        media_device(e) is Some <==> (e.props matches Some(p) && p.whole && (p.removable
            || p.ejectable) && (p.bsd_name matches Some(n) && n@.len() > 0)),
        media_device(e) matches Some(v) ==> (e.props matches Some(p) && (p.bsd_name matches Some(n)
            && v.device_path == "/dev/"@ + n@ && v.size_bytes == p.size && v.removable)),
{
}

} // verus!
