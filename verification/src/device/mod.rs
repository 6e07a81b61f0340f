//! Removable storage devices: the records the library reports, the per-platform
//! discovery logic, and the orderings in which devices and partitions are listed.

pub mod linux;
pub mod macos;
pub mod windows;

use vstd::prelude::*;
use vstd::string::*;
use crate::text::{chars_of, opt_view};

verus! {

/// A partition of a device.
#[derive(Debug, Clone)]
pub struct Partition {
    pub name: String,
    pub start: u64,
    pub size: u64,
    pub content: Option<String>,
}

/// A removable device that an image can be written to or read from.
#[derive(Debug, Clone)]
pub struct Device {
    pub device_path: String,
    pub display_name: String,
    pub vendor: Option<String>,
    pub usb_product_name: Option<String>,
    pub size_bytes: u64,
    pub removable: bool,
    pub is_system: bool,
    pub partitions: Vec<Partition>,
}

pub struct PartitionView {
    pub name: Seq<char>,
    pub start: u64,
    pub size: u64,
    pub content: Option<Seq<char>>,
}

pub struct DeviceView {
    pub device_path: Seq<char>,
    pub display_name: Seq<char>,
    pub vendor: Option<Seq<char>>,
    pub usb_product_name: Option<Seq<char>>,
    pub size_bytes: u64,
    pub removable: bool,
    pub is_system: bool,
    pub partitions: Seq<PartitionView>,
}

impl View for Partition {
    type V = PartitionView;

    open spec fn view(&self) -> PartitionView {
        PartitionView {
            name: self.name@,
            start: self.start,
            size: self.size,
            content: opt_view(self.content),
        }
    }
}

pub open spec fn partition_views(s: Seq<Partition>) -> Seq<PartitionView> {
    s.map_values(|p: Partition| p@)
}

impl View for Device {
    type V = DeviceView;

    open spec fn view(&self) -> DeviceView {
        DeviceView {
            device_path: self.device_path@,
            display_name: self.display_name@,
            vendor: opt_view(self.vendor),
            usb_product_name: opt_view(self.usb_product_name),
            size_bytes: self.size_bytes,
            removable: self.removable,
            is_system: self.is_system,
            partitions: partition_views(self.partitions@),
        }
    }
}

pub open spec fn device_views(s: Seq<Device>) -> Seq<DeviceView> {
    s.map_values(|d: Device| d@)
}

// ---------------------------------------------------------------------------
// Stable ordering of partitions by start offset.
/// `s` with `x` placed after every element whose start is at most `x.start`,
/// counted from the end: one step of a stable insertion sort.
pub open spec fn insert_by_start(s: Seq<PartitionView>, x: PartitionView) -> Seq<PartitionView>
    decreases s.len(),
{
    if s.len() == 0 || s.last().start <= x.start {
        s.push(x)
    } else {
        insert_by_start(s.drop_last(), x).push(s.last())
    }
}

/// `s` stably sorted by start offset (what `sort_by_key(|p| p.start)` gives).
pub open spec fn sort_by_start(s: Seq<PartitionView>) -> Seq<PartitionView>
    decreases s.len(),
{
    if s.len() == 0 {
        s
    } else {
        insert_by_start(sort_by_start(s.drop_last()), s.last())
    }
}

proof fn lemma_insert_by_start_at(s: Seq<PartitionView>, x: PartitionView, j: int)
    requires
        0 <= j <= s.len(),
        forall|k: int| j <= k < s.len() ==> s[k].start > x.start,
        j == 0 || s[j - 1].start <= x.start,
    ensures
        insert_by_start(s, x) == s.insert(j, x),
    decreases s.len() - j,
{
    if j == s.len() {
        assert(s.insert(j, x) =~= s.push(x));
    } else {
        lemma_insert_by_start_at(s.drop_last(), x, j);
        assert(s.insert(j, x) =~= s.drop_last().insert(j, x).push(s.last()));
    }
}

/// Partitions in order of their start offsets.
pub open spec fn sorted_by_start(s: Seq<PartitionView>) -> bool {
    forall|i: int, j: int| 0 <= i < j < s.len() ==> s[i].start <= s[j].start
}

proof fn lemma_insert_by_start(s: Seq<PartitionView>, x: PartitionView, bound: Option<u64>)
    requires
        sorted_by_start(s),
        bound matches Some(b) ==> x.start <= b && forall|i: int| 0 <= i < s.len() ==> s[i].start <= b,
    ensures
        sorted_by_start(insert_by_start(s, x)),
        bound matches Some(b) ==> forall|k: int|
            0 <= k < insert_by_start(s, x).len() ==> insert_by_start(s, x)[k].start <= b,
        insert_by_start(s, x).to_multiset() == s.to_multiset().insert(x),
        insert_by_start(s, x).len() == s.len() + 1,
    decreases s.len(),
{
    broadcast use vstd::seq_lib::group_to_multiset_ensures;

    if s.len() == 0 || s.last().start <= x.start {
    } else {
        let l = s.last();
        let d = s.drop_last();
        lemma_insert_by_start(d, x, Some(l.start));
        let r = insert_by_start(d, x);
        assert(s =~= d.push(l));
        assert(r.push(l).to_multiset() =~= s.to_multiset().insert(x));
    }
}

/// Sorting by start puts the partitions in order of their start offsets and keeps
/// each of them, as many times as it occurs.
pub proof fn law_sort_by_start(s: Seq<PartitionView>)
    ensures
        sorted_by_start(sort_by_start(s)),
        sort_by_start(s).to_multiset() == s.to_multiset(),
        sort_by_start(s).len() == s.len(),
    decreases s.len(),
{
    broadcast use vstd::seq_lib::group_to_multiset_ensures;

    if s.len() > 0 {
        law_sort_by_start(s.drop_last());
        lemma_insert_by_start(sort_by_start(s.drop_last()), s.last(), None);
        assert(s =~= s.drop_last().push(s.last()));
    }
}

/// Partitions in stable order of their start offsets.
pub fn sort_partitions(v: Vec<Partition>) -> (r: Vec<Partition>)
    ensures
        partition_views(r@) == sort_by_start(partition_views(v@)),
{
    let ghost orig = partition_views(v@);
    let mut rest = v;
    let mut out: Vec<Partition> = Vec::new();
    let ghost k: int = 0;
    while rest.len() > 0
        invariant
            0 <= k <= orig.len(),
            partition_views(rest@) == orig.skip(k),
            partition_views(out@) == sort_by_start(orig.take(k)),
        decreases rest@.len(),
    {
        let ghost old_rest = rest@;
        assert(partition_views(old_rest).len() == old_rest.len());
        assert(partition_views(old_rest)[0] == orig[k]);
        let x = rest.remove(0);
        assert(orig.take(k + 1).drop_last() =~= orig.take(k));
        assert forall|i: int| 0 <= i < rest@.len() implies partition_views(rest@)[i] == orig.skip(
            k + 1,
        )[i] by {
            assert(rest@[i] == old_rest[i + 1]);
            assert(partition_views(old_rest)[i + 1] == orig.skip(k)[i + 1]);
        }
        assert(partition_views(rest@) =~= orig.skip(k + 1));
        let mut j = out.len();
        while j > 0 && out[j - 1].start > x.start
            invariant
                j <= out@.len(),
                forall|i: int| j <= i < out@.len() ==> out@[i].start > x.start,
            decreases j,
        {
            j = j - 1;
        }
        let ghost before = partition_views(out@);
        proof {
            lemma_insert_by_start_at(before, x@, j as int);
        }
        out.insert(j, x);
        proof {
            assert(partition_views(out@) =~= before.insert(j as int, x@));
            k = k + 1;
        }
    }
    assert(orig.take(k) =~= orig);
    out
}


// ---------------------------------------------------------------------------
// Stable ordering of devices by path.
/// `a <= b` in the order of `String`: lexicographic by character (which is also
/// the byte order of their UTF-8 encodings).
pub open spec fn lex_le(a: Seq<char>, b: Seq<char>) -> bool
    decreases a.len(),
{
    if a.len() == 0 {
        true
    } else if b.len() == 0 {
        false
    } else if a[0] != b[0] {
        a[0] < b[0]
    } else {
        lex_le(a.drop_first(), b.drop_first())
    }
}

/// Whether `a <= b` as strings.
pub fn string_le(a: &String, b: &String) -> (r: bool)
    ensures
        r == lex_le(a@, b@),
{
    let x = chars_of(a.as_str());
    let y = chars_of(b.as_str());
    let mut i: usize = 0;
    assert(x@.skip(0) =~= x@);
    assert(y@.skip(0) =~= y@);
    while i < x.len()
        invariant
            x@ == a@,
            y@ == b@,
            i <= x@.len(),
            i <= y@.len(),
            forall|k: int| 0 <= k < i ==> x@[k] == y@[k],
            lex_le(x@, y@) == lex_le(x@.skip(i as int), y@.skip(i as int)),
        decreases x@.len() - i,
    {
        if i >= y.len() {
            assert(y@.skip(i as int).len() == 0);
            assert(x@.skip(i as int).len() > 0);
            return false;
        }
        assert(x@.skip(i as int)[0] == x@[i as int]);
        assert(y@.skip(i as int)[0] == y@[i as int]);
        assert(x@.skip(i as int).drop_first() =~= x@.skip(i + 1));
        assert(y@.skip(i as int).drop_first() =~= y@.skip(i + 1));
        if x[i] != y[i] {
            return x[i] < y[i];
        }
        i = i + 1;
    }
    assert(x@.skip(i as int) =~= Seq::<char>::empty());
    true
}

/// One step of a stable insertion sort by device path.
pub open spec fn insert_by_path(s: Seq<DeviceView>, x: DeviceView) -> Seq<DeviceView>
    decreases s.len(),
{
    if s.len() == 0 || lex_le(s.last().device_path, x.device_path) {
        s.push(x)
    } else {
        insert_by_path(s.drop_last(), x).push(s.last())
    }
}

/// `s` stably sorted by device path (what `sort_by_key(|d| d.device_path.clone())` gives).
pub open spec fn sort_by_path(s: Seq<DeviceView>) -> Seq<DeviceView>
    decreases s.len(),
{
    if s.len() == 0 {
        s
    } else {
        insert_by_path(sort_by_path(s.drop_last()), s.last())
    }
}

proof fn lemma_insert_by_path_at(s: Seq<DeviceView>, x: DeviceView, j: int)
    requires
        0 <= j <= s.len(),
        forall|k: int| j <= k < s.len() ==> !lex_le(#[trigger] s[k].device_path, x.device_path),
        j == 0 || lex_le(s[j - 1].device_path, x.device_path),
    ensures
        insert_by_path(s, x) == s.insert(j, x),
    decreases s.len() - j,
{
    if j == s.len() {
        assert(s.insert(j, x) =~= s.push(x));
    } else {
        lemma_insert_by_path_at(s.drop_last(), x, j);
        assert(s.insert(j, x) =~= s.drop_last().insert(j, x).push(s.last()));
    }
}

proof fn lemma_lex_total(a: Seq<char>, b: Seq<char>)
    ensures
        lex_le(a, b) || lex_le(b, a),
    decreases a.len(),
{
    if a.len() > 0 && b.len() > 0 {
        if a[0] == b[0] {
            lemma_lex_total(a.drop_first(), b.drop_first());
        }
    }
}

proof fn lemma_lex_trans(a: Seq<char>, b: Seq<char>, c: Seq<char>)
    requires
        lex_le(a, b),
        lex_le(b, c),
    ensures
        lex_le(a, c),
    decreases a.len(),
{
    if a.len() > 0 && b.len() > 0 && c.len() > 0 && a[0] == b[0] && b[0] == c[0] {
        lemma_lex_trans(a.drop_first(), b.drop_first(), c.drop_first());
    }
}

/// Devices in order of their paths.
pub open spec fn sorted_by_path(s: Seq<DeviceView>) -> bool {
    forall|i: int, j: int| 0 <= i < j < s.len() ==> lex_le(s[i].device_path, s[j].device_path)
}

proof fn lemma_insert_by_path(s: Seq<DeviceView>, x: DeviceView, bound: Option<Seq<char>>)
    requires
        sorted_by_path(s),
        bound matches Some(b) ==> lex_le(x.device_path, b) && forall|i: int|
            0 <= i < s.len() ==> lex_le(#[trigger] s[i].device_path, b),
    ensures
        sorted_by_path(insert_by_path(s, x)),
        bound matches Some(b) ==> forall|k: int|
            0 <= k < insert_by_path(s, x).len() ==> lex_le(
                #[trigger] insert_by_path(s, x)[k].device_path,
                b,
            ),
        insert_by_path(s, x).to_multiset() == s.to_multiset().insert(x),
        insert_by_path(s, x).len() == s.len() + 1,
    decreases s.len(),
{
    broadcast use vstd::seq_lib::group_to_multiset_ensures;

    if s.len() == 0 || lex_le(s.last().device_path, x.device_path) {
        let r = s.push(x);
        assert forall|i: int, j: int| 0 <= i < j < r.len() implies lex_le(
            r[i].device_path,
            r[j].device_path,
        ) by {
            if j == s.len() {
                if i < s.len() - 1 {
                    lemma_lex_trans(s[i].device_path, s.last().device_path, x.device_path);
                }
            }
        }
    } else {
        let l = s.last();
        let d = s.drop_last();
        lemma_lex_total(l.device_path, x.device_path);
        lemma_insert_by_path(d, x, Some(l.device_path));
        let r = insert_by_path(d, x);
        assert(s =~= d.push(l));
        assert(r.push(l).to_multiset() =~= s.to_multiset().insert(x));
        if bound is Some {
            let b = bound->0;
            assert forall|k: int| 0 <= k < r.push(l).len() implies lex_le(
                #[trigger] r.push(l)[k].device_path,
                b,
            ) by {
                if k < r.len() {
                    lemma_lex_trans(r[k].device_path, l.device_path, b);
                }
            }
        }
    }
}

/// Sorting by path puts the devices in order of their paths and keeps each of
/// them, as many times as it occurs.
pub proof fn law_sort_by_path(s: Seq<DeviceView>)
    ensures
        sorted_by_path(sort_by_path(s)),
        sort_by_path(s).to_multiset() == s.to_multiset(),
        sort_by_path(s).len() == s.len(),
    decreases s.len(),
{
    broadcast use vstd::seq_lib::group_to_multiset_ensures;

    if s.len() > 0 {
        law_sort_by_path(s.drop_last());
        lemma_insert_by_path(sort_by_path(s.drop_last()), s.last(), None);
        assert(s =~= s.drop_last().push(s.last()));
    }
}

/// Each device of the ordered list is one of the devices ordered.
pub proof fn lemma_sorted_member(s: Seq<DeviceView>, k: int)
    requires
        0 <= k < sort_by_path(s).len(),
    ensures
        s.contains(sort_by_path(s)[k]),
{
    broadcast use vstd::seq_lib::group_to_multiset_ensures;

    law_sort_by_path(s);
    let v = sort_by_path(s)[k];
    assert(sort_by_path(s).contains(v));
    assert(sort_by_path(s).to_multiset().count(v) > 0);
    assert(s.to_multiset().count(v) > 0);
}

/// No two devices of `s` share a path.
pub open spec fn distinct_paths(s: Seq<DeviceView>) -> bool {
    forall|i: int, j: int| 0 <= i < j < s.len() ==> s[i].device_path != s[j].device_path
}

proof fn lemma_insert_keeps_distinct_paths(s: Seq<DeviceView>, x: DeviceView)
    requires
        sorted_by_path(s),
        distinct_paths(s),
        forall|k: int| 0 <= k < s.len() ==> (#[trigger] s[k]).device_path != x.device_path,
    ensures
        distinct_paths(insert_by_path(s, x)),
    decreases s.len(),
{
    broadcast use vstd::seq_lib::group_to_multiset_ensures;

    if s.len() == 0 || lex_le(s.last().device_path, x.device_path) {
        let r = s.push(x);
        assert forall|i: int, j: int| 0 <= i < j < r.len() implies r[i].device_path
            != r[j].device_path by {
            if j == s.len() {
                assert(r[i] == s[i]);
            }
        }
    } else {
        let l = s.last();
        let d = s.drop_last();
        assert forall|k: int| 0 <= k < d.len() implies (#[trigger] d[k]).device_path
            != x.device_path by {
            assert(d[k] == s[k]);
        }
        assert(sorted_by_path(d)) by {
            assert forall|i: int, j: int| 0 <= i < j < d.len() implies lex_le(
                d[i].device_path,
                d[j].device_path,
            ) by {
                assert(d[i] == s[i] && d[j] == s[j]);
            }
        }
        assert(distinct_paths(d)) by {
            assert forall|i: int, j: int| 0 <= i < j < d.len() implies d[i].device_path
                != d[j].device_path by {
                assert(d[i] == s[i] && d[j] == s[j]);
            }
        }
        lemma_insert_keeps_distinct_paths(d, x);
        lemma_insert_by_path(d, x, None);
        let r = insert_by_path(d, x);
        assert forall|k: int| 0 <= k < r.len() implies (#[trigger] r[k]).device_path
            != l.device_path by {
            assert(r.to_multiset().count(r[k]) > 0);
            assert(d.to_multiset().insert(x).count(r[k]) > 0);
            if r[k] != x {
                assert(d.to_multiset().count(r[k]) > 0);
                assert(d.contains(r[k]));
                let m = choose|m: int| 0 <= m < d.len() && d[m] == r[k];
                assert(s[m] == d[m]);
                assert(s[s.len() - 1] == l);
            } else {
                assert(s[s.len() - 1] == l);
            }
        }
        let t = r.push(l);
        assert forall|i: int, j: int| 0 <= i < j < t.len() implies t[i].device_path
            != t[j].device_path by {
            if j == r.len() {
                assert(t[i] == r[i]);
            }
        }
    }
}

/// Ordering devices by path keeps them apart: when no two devices share a path,
/// no two of the ordered list do.
pub proof fn lemma_sort_keeps_distinct_paths(s: Seq<DeviceView>)
    requires
        distinct_paths(s),
    ensures
        distinct_paths(sort_by_path(s)),
    decreases s.len(),
{
    broadcast use vstd::seq_lib::group_to_multiset_ensures;

    if s.len() > 0 {
        let d = s.drop_last();
        assert(distinct_paths(d)) by {
            assert forall|i: int, j: int| 0 <= i < j < d.len() implies d[i].device_path
                != d[j].device_path by {
                assert(d[i] == s[i] && d[j] == s[j]);
            }
        }
        lemma_sort_keeps_distinct_paths(d);
        law_sort_by_path(d);
        let sd = sort_by_path(d);
        assert forall|k: int| 0 <= k < sd.len() implies (#[trigger] sd[k]).device_path
            != s.last().device_path by {
            assert(sd.to_multiset().count(sd[k]) > 0);
            assert(d.to_multiset().count(sd[k]) > 0);
            assert(d.contains(sd[k]));
            let m = choose|m: int| 0 <= m < d.len() && d[m] == sd[k];
            assert(s[m] == d[m]);
        }
        lemma_insert_keeps_distinct_paths(sd, s.last());
    }
}

/// Devices in stable order of their paths.
pub fn sort_devices(v: Vec<Device>) -> (r: Vec<Device>)
    ensures
        device_views(r@) == sort_by_path(device_views(v@)),
{
    let ghost orig = device_views(v@);
    let mut rest = v;
    let mut out: Vec<Device> = Vec::new();
    let ghost k: int = 0;
    while rest.len() > 0
        invariant
            0 <= k <= orig.len(),
            device_views(rest@) == orig.skip(k),
            device_views(out@) == sort_by_path(orig.take(k)),
        decreases rest@.len(),
    {
        let ghost old_rest = rest@;
        assert(device_views(old_rest).len() == old_rest.len());
        assert(device_views(old_rest)[0] == orig[k]);
        let x = rest.remove(0);
        assert(orig.take(k + 1).drop_last() =~= orig.take(k));
        assert forall|i: int| 0 <= i < rest@.len() implies device_views(rest@)[i] == orig.skip(
            k + 1,
        )[i] by {
            assert(rest@[i] == old_rest[i + 1]);
            assert(device_views(old_rest)[i + 1] == orig.skip(k)[i + 1]);
        }
        assert(device_views(rest@) =~= orig.skip(k + 1));
        let mut j = out.len();
        while j > 0 && !string_le(&out[j - 1].device_path, &x.device_path)
            invariant
                j <= out@.len(),
                forall|i: int|
                    j <= i < out@.len() ==> !lex_le(#[trigger] out@[i].device_path@, x.device_path@),
            decreases j,
        {
            j = j - 1;
        }
        let ghost before = device_views(out@);
        proof {
            lemma_insert_by_path_at(before, x@, j as int);
        }
        out.insert(j, x);
        proof {
            assert(device_views(out@) =~= before.insert(j as int, x@));
            k = k + 1;
        }
    }
    assert(orig.take(k) =~= orig);
    out
}


// ---------------------------------------------------------------------------
// Discovery.
/// What was read of the system's disks, in the form of the platform it was read on.
#[derive(Debug)]
pub enum DeviceScan {
    Linux(Vec<linux::BlockEntry>),
    MacOs(Vec<macos::MediaEntry>),
    Windows(Vec<windows::WinDisk>),
    Unsupported,
}

/// The message given on platforms where discovery is not implemented.
pub open spec fn unsupported_message() -> Seq<char> {
    "设备发现暂未在此平台实现"@
}

/// The removable devices a scan shows, ordered by path; an error on platforms
/// where discovery is not implemented.
pub fn list_devices(scan: &DeviceScan) -> (r: Result<Vec<Device>, String>)
    requires
        scan matches DeviceScan::Windows(ds) ==> forall|i: int|
            0 <= i < ds@.len() ==> windows::disk_wf(#[trigger] ds@[i]),
    ensures
        match scan {
            DeviceScan::Linux(es) => r matches Ok(v) && device_views(v@) == sort_by_path(
                linux::block_devices(es@),
            ),
            DeviceScan::MacOs(es) => r matches Ok(v) && device_views(v@) == sort_by_path(
                macos::media_devices(es@),
            ),
            DeviceScan::Windows(ds) => r matches Ok(v) && device_views(v@) == sort_by_path(
                windows::win_devices(ds@),
            ),
            DeviceScan::Unsupported => r matches Err(e) && e@ == unsupported_message(),
        },
{
    match scan {
        DeviceScan::Linux(es) => Ok(linux::list_devices(es)),
        DeviceScan::MacOs(es) => Ok(macos::list_devices(es)),
        DeviceScan::Windows(ds) => Ok(windows::list_devices(ds)),
        DeviceScan::Unsupported => Err(String::from_str("设备发现暂未在此平台实现")),
    }
}

} // verus!
