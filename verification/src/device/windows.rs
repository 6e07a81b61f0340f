//! Device discovery on Windows: disk descriptors, and the MBR and GPT partition
//! tables read from `\\.\PhysicalDriveN`.

use vstd::prelude::*;
use vstd::string::*;
use crate::device::{
    Device, DeviceView, Partition, PartitionView, partition_views, device_views, sort_by_path,
    sort_devices, distinct_paths,
};
use crate::number::{decimal, u64_to_decimal};
use crate::text::{concat, trim, trimmed, utf16_lossy, from_utf16_lossy, utf8_lossy, from_utf8_lossy, chars_of, trim_bounds, sub_string};

verus! {

/// Bytes in a sector of the partition tables.
pub const SECTOR: u64 = 512;

/// The little-endian value of the four bytes at `off`.
pub open spec fn le_u32(b: Seq<u8>, off: int) -> nat {
    (b[off] as nat) + (b[off + 1] as nat) * 0x100 + (b[off + 2] as nat) * 0x1_0000 + (b[off + 3] as nat)
        * 0x100_0000
}

/// The little-endian value of the eight bytes at `off`.
pub open spec fn le_u64(b: Seq<u8>, off: int) -> nat {
    le_u32(b, off) + le_u32(b, off + 4) * 0x1_0000_0000
}

fn read_le_u32(b: &[u8], off: usize) -> (r: u64)
    requires
        off + 4 <= b.len(),
    ensures
        r == le_u32(b@, off as int),
{
    (b[off] as u64) + (b[off + 1] as u64) * 0x100 + (b[off + 2] as u64) * 0x1_0000 + (b[off + 3] as u64)
        * 0x100_0000
}

fn read_le_u64(b: &[u8], off: usize) -> (r: u64)
    requires
        off + 8 <= b.len(),
    ensures
        r == le_u64(b@, off as int),
{
    let lo = read_le_u32(b, off);
    let hi = read_le_u32(b, off + 4);
    assert(hi <= 0xffff_ffff);
    lo + hi * 0x1_0000_0000
}

// ---------------------------------------------------------------------------
// MBR.
/// The file system or role that an MBR partition type byte names.
pub open spec fn mbr_type(t: u8) -> Option<Seq<char>> {
    if t == 0x0B || t == 0x0C || t == 0x1C {
        Some("FAT32"@)
    } else if t == 0x0E || t == 0x06 {
        Some("FAT16"@)
    } else if t == 0x07 {
        Some("NTFS"@)
    } else if t == 0x83 {
        Some("Linux"@)
    } else if t == 0x82 {
        Some("Linux Swap"@)
    } else if t == 0x05 || t == 0x0F {
        Some("Extended"@)
    } else if t == 0xEE {
        Some("GPT Protective"@)
    } else if t == 0xEF {
        Some("EFI System"@)
    } else if t == 0xAB {
        Some("APFS"@)
    } else if t == 0xAF {
        Some("HFS+"@)
    } else {
        None
    }
}

/// The name of an MBR partition type.
pub fn mbr_type_name(ptype: u8) -> (r: Option<&'static str>)
    ensures
        match r {
            Some(s) => mbr_type(ptype) == Some(s@),
            None => mbr_type(ptype) is None,
        },
{
    if ptype == 0x0B || ptype == 0x0C || ptype == 0x1C {
        Some("FAT32")
    } else if ptype == 0x0E || ptype == 0x06 {
        Some("FAT16")
    } else if ptype == 0x07 {
        Some("NTFS")
    } else if ptype == 0x83 {
        Some("Linux")
    } else if ptype == 0x82 {
        Some("Linux Swap")
    } else if ptype == 0x05 || ptype == 0x0F {
        Some("Extended")
    } else if ptype == 0xEE {
        Some("GPT Protective")
    } else if ptype == 0xEF {
        Some("EFI System")
    } else if ptype == 0xAB {
        Some("APFS")
    } else if ptype == 0xAF {
        Some("HFS+")
    } else {
        None
    }
}

pub open spec fn opt_static(o: Option<&'static str>) -> Option<Seq<char>> {
    match o {
        Some(s) => Some(s@),
        None => None,
    }
}

fn owned_opt(o: Option<&'static str>) -> (r: Option<String>)
    ensures
        crate::text::opt_view(r) == opt_static(o),
{
    match o {
        Some(s) => Some(String::from_str(s)),
        None => None,
    }
}

/// `"Partition "` followed by the number `n`.
pub open spec fn numbered_name(n: nat) -> Seq<char> {
    "Partition "@ + decimal(n)
}

/// The `i`-th primary partition entry of an MBR, if it is in use and not empty.
pub open spec fn mbr_entry(buf: Seq<u8>, i: int) -> Option<PartitionView> {
    let off = 446 + i * 16;
    let ptype = buf[off + 4];
    let size = le_u32(buf, off + 12) * 512;
    if ptype == 0 || size == 0 {
        None
    } else {
        Some(
            PartitionView {
                name: numbered_name((i + 1) as nat),
                start: (le_u32(buf, off + 8) * 512) as u64,
                size: size as u64,
                content: mbr_type(ptype),
            },
        )
    }
}

/// The partitions among the first `n` MBR entries.
pub open spec fn mbr_entries(buf: Seq<u8>, n: int) -> Seq<PartitionView>
    decreases n,
{
    if n <= 0 {
        seq![]
    } else {
        let prev = mbr_entries(buf, n - 1);
        match mbr_entry(buf, n - 1) {
            Some(p) => prev.push(p),
            None => prev,
        }
    }
}

/// Whether a sector ends with the MBR boot signature `55 AA`.
pub open spec fn has_mbr_signature(buf: Seq<u8>) -> bool {
    buf.len() >= 512 && buf[510] == 0x55 && buf[511] == 0xAA
}

/// The primary partitions an MBR describes (none without the boot signature).
pub open spec fn mbr_partitions(buf: Seq<u8>) -> Seq<PartitionView> {
    if !has_mbr_signature(buf) {
        seq![]
    } else {
        mbr_entries(buf, 4)
    }
}

/// The primary partitions of the master boot record in `buf`.
pub fn parse_mbr_partitions(buf: &[u8]) -> (r: Vec<Partition>)
    ensures
        partition_views(r@) == mbr_partitions(buf@),
{
    let mut parts: Vec<Partition> = Vec::new();
    if buf.len() < 512 || buf[510] != 0x55 || buf[511] != 0xAA {
        assert(partition_views(parts@) =~= Seq::<PartitionView>::empty());
        return parts;
    }
    let mut i: usize = 0;
    while i < 4
        invariant
            i <= 4,
            buf@.len() >= 512,
            partition_views(parts@) == mbr_entries(buf@, i as int),
        decreases 4 - i,
    {
        let off = 446 + i * 16;
        let ptype = buf[off + 4];
        let start = read_le_u32(buf, off + 8) * SECTOR;
        let size = read_le_u32(buf, off + 12) * SECTOR;
        if ptype != 0 && size > 0 {
            let name = concat("Partition ", u64_to_decimal((i + 1) as u64).as_str());
            parts.push(
                Partition { name, start, size, content: owned_opt(mbr_type_name(ptype)) },
            );
        }
        assert(partition_views(parts@) =~= mbr_entries(buf@, i + 1));
        i = i + 1;
    }
    parts
}

/// Whether an MBR is only a GPT's protective MBR: it has entries in use, and each
/// of them has type 0xEE.
pub open spec fn protective_mbr(buf: Seq<u8>) -> bool {
    &&& has_mbr_signature(buf)
    &&& exists|i: int| 0 <= i < 4 && #[trigger] mbr_entry(buf, i) is Some
    &&& forall|i: int| 0 <= i < 4 && #[trigger] mbr_entry(buf, i) is Some ==> buf[446 + i * 16 + 4] == 0xEE
}

/// Whether the GPT of a disk is to be read: its MBR has no partition, or only
/// protects a GPT.
pub open spec fn gpt_wanted(buf: Seq<u8>) -> bool {
    mbr_partitions(buf).len() == 0 || protective_mbr(buf)
}

/// Whether the MBR in `buf` is only a GPT's protective MBR.
pub fn is_protective_mbr(buf: &[u8]) -> (r: bool)
    ensures
        r == protective_mbr(buf@),
{
    if buf.len() < 512 || buf[510] != 0x55 || buf[511] != 0xAA {
        return false;
    }
    let mut used = false;
    let mut i: usize = 0;
    while i < 4
        invariant
            i <= 4,
            has_mbr_signature(buf@),
            used == exists|k: int| 0 <= k < i && #[trigger] mbr_entry(buf@, k) is Some,
            forall|k: int| 0 <= k < i && #[trigger] mbr_entry(buf@, k) is Some ==> buf@[446 + k * 16 + 4] == 0xEE,
        decreases 4 - i,
    {
        let off = 446 + i * 16;
        let ptype = buf[off + 4];
        let sectors = read_le_u32(buf, off + 12);
        let in_use = ptype != 0 && sectors != 0;
        assert(in_use == mbr_entry(buf@, i as int) is Some);
        if in_use {
            if ptype != 0xEE {
                return false;
            }
            used = true;
        }
        i = i + 1;
    }
    used
}

/// Whether the GPT of a disk whose first sector is `mbr` is to be read.
pub fn gpt_is_wanted(mbr: &[u8]) -> (r: bool)
    ensures
        r == gpt_wanted(mbr@),
{
    parse_mbr_partitions(mbr).len() == 0 || is_protective_mbr(mbr)
}

/// An MBR yields at most its four primary entries, none of them empty, each named
/// after its slot.
pub proof fn law_mbr_partitions_bounded(buf: Seq<u8>)
    ensures
        mbr_partitions(buf).len() <= 4,
        forall|i: int| 0 <= i < mbr_partitions(buf).len() ==> (#[trigger] mbr_partitions(buf)[i]).size > 0,
{
    if has_mbr_signature(buf) {
        lemma_mbr_entries(buf, 4);
    }
}

proof fn lemma_mbr_entries(buf: Seq<u8>, n: int)
    requires
        0 <= n <= 4,
        buf.len() >= 512,
    ensures
        mbr_entries(buf, n).len() <= n,
        forall|i: int| 0 <= i < mbr_entries(buf, n).len() ==> (#[trigger] mbr_entries(buf, n)[i]).size > 0,
    decreases n,
{
    if n > 0 {
        lemma_mbr_entries(buf, n - 1);
        let prev = mbr_entries(buf, n - 1);
        match mbr_entry(buf, n - 1) {
            Some(p) => {
                assert forall|i: int| 0 <= i < prev.push(p).len() implies (#[trigger] prev.push(p)[i]).size > 0 by {
                    if i < prev.len() {
                        assert(prev.push(p)[i] == prev[i]);
                    }
                }
            },
            None => {},
        }
    }
}

// ---------------------------------------------------------------------------
// GUIDs.
pub open spec fn is_hex(c: char) -> bool {
    ('0' <= c && c <= '9') || ('a' <= c && c <= 'f') || ('A' <= c && c <= 'F')
}

pub open spec fn hex_val(c: char) -> u8 {
    if '0' <= c && c <= '9' {
        (c as u32 - 48) as u8
    } else if 'a' <= c && c <= 'f' {
        (c as u32 - 87) as u8
    } else {
        (c as u32 - 55) as u8
    }
}

/// The values of the hexadecimal digits in `s`, other characters skipped.
pub open spec fn hex_values(s: Seq<char>) -> Seq<u8>
    decreases s.len(),
{
    if s.len() == 0 {
        seq![]
    } else if is_hex(s.last()) {
        hex_values(s.drop_last()).push(hex_val(s.last()))
    } else {
        hex_values(s.drop_last())
    }
}

/// Consecutive pairs of hex digit values as bytes (an odd last digit dropped).
pub open spec fn pair_bytes(d: Seq<u8>) -> Seq<u8> {
    Seq::new(d.len() / 2, |i: int| (d[2 * i] * 16 + d[2 * i + 1]) as u8)
}

/// The 16 bytes of a GUID written `XXXXXXXX-XXXX-XXXX-XXXX-XXXXXXXXXXXX`, in the mixed
/// byte order GPT stores them (first three groups little-endian); all zero when the
/// text does not hold exactly 32 hex digits.
pub open spec fn guid_bytes(s: Seq<char>) -> Seq<u8> {
    let b = pair_bytes(hex_values(s));
    if b.len() != 16 {
        Seq::new(16, |i: int| 0u8)
    } else {
        seq![b[3], b[2], b[1], b[0], b[5], b[4], b[7], b[6]] + b.subrange(8, 16)
    }
}

/// The GPT byte form of a GUID.
pub fn hex_guid(s: &str) -> (r: [u8; 16])
    ensures
        r@ == guid_bytes(s@),
{
    let cs = chars_of(s);
    let mut hex: Vec<u8> = Vec::new();
    let mut i: usize = 0;
    while i < cs.len()
        invariant
            i <= cs@.len(),
            hex@ == hex_values(cs@.take(i as int)),
            forall|k: int| 0 <= k < hex@.len() ==> hex@[k] < 16,
        decreases cs@.len() - i,
    {
        assert(cs@.take(i + 1).drop_last() =~= cs@.take(i as int));
        let c = cs[i];
        if '0' <= c && c <= '9' {
            hex.push((c as u32 - 48) as u8);
        } else if 'a' <= c && c <= 'f' {
            hex.push((c as u32 - 87) as u8);
        } else if 'A' <= c && c <= 'F' {
            hex.push((c as u32 - 55) as u8);
        }
        i = i + 1;
    }
    assert(cs@.take(i as int) =~= cs@);
    let mut bytes: Vec<u8> = Vec::new();
    let mut j: usize = 0;
    while j < hex.len() / 2
        invariant
            j <= hex@.len() / 2,
            forall|k: int| 0 <= k < hex@.len() ==> hex@[k] < 16,
            bytes@ =~= pair_bytes(hex@).take(j as int),
        decreases hex@.len() / 2 - j,
    {
        let hi = hex[2 * j];
        let lo = hex[2 * j + 1];
        bytes.push(hi * 16 + lo);
        j = j + 1;
    }
    assert(bytes@ =~= pair_bytes(hex@));
    if bytes.len() != 16 {
        let r = [0u8, 0, 0, 0, 0, 0, 0, 0, 0, 0, 0, 0, 0, 0, 0, 0];
        assert(r@ =~= guid_bytes(s@));
        return r;
    }
    let r = [
        bytes[3],
        bytes[2],
        bytes[1],
        bytes[0],
        bytes[5],
        bytes[4],
        bytes[7],
        bytes[6],
        bytes[8],
        bytes[9],
        bytes[10],
        bytes[11],
        bytes[12],
        bytes[13],
        bytes[14],
        bytes[15],
    ];
    assert(r@ =~= guid_bytes(s@));
    r
}


/// The names of the GPT partition types that are recognised.
pub open spec fn gpt_type(g: Seq<u8>) -> Option<Seq<char>> {
    if g == guid_bytes("EBD0A0A2-B9E5-4433-87C0-68B6B72699C7"@) {
        Some("Microsoft Basic Data"@)
    } else if g == guid_bytes("C12A7328-F81F-11D2-BA4B-00A0C93EC93B"@) {
        Some("EFI System"@)
    } else if g == guid_bytes("E3C9E316-0B5C-4DB8-817D-F92DF00215AE"@) {
        Some("Microsoft Reserved"@)
    } else if g == guid_bytes("0FC63DAF-8483-4772-8E79-3D69D8477DE4"@) {
        Some("Linux"@)
    } else if g == guid_bytes("7C3457EF-0000-11AA-AA11-00306543ECAC"@) {
        Some("APFS"@)
    } else if g == guid_bytes("48465300-0000-11AA-AA11-00306543ECAC"@) {
        Some("HFS+"@)
    } else {
        None
    }
}

/// Whether two byte strings are equal.
pub fn bytes_eq(a: &[u8], b: &[u8]) -> (r: bool)
    ensures
        r == (a@ == b@),
{
    if a.len() != b.len() {
        return false;
    }
    let mut i: usize = 0;
    while i < a.len()
        invariant
            a@.len() == b@.len(),
            i <= a@.len(),
            forall|k: int| 0 <= k < i ==> a@[k] == b@[k],
        decreases a@.len() - i,
    {
        if a[i] != b[i] {
            return false;
        }
        i = i + 1;
    }
    assert(a@ =~= b@);
    true
}

fn is_guid(g: &[u8], s: &str) -> (r: bool)
    ensures
        r == (g@ == guid_bytes(s@)),
{
    let h = hex_guid(s);
    bytes_eq(g, h.as_slice())
}

/// The name of a GPT partition type GUID (16 bytes in GPT order).
pub fn gpt_type_name(ptype: &[u8]) -> (r: Option<&'static str>)
    ensures
        match r {
            Some(s) => gpt_type(ptype@) == Some(s@),
            None => gpt_type(ptype@) is None,
        },
{
    if is_guid(ptype, "EBD0A0A2-B9E5-4433-87C0-68B6B72699C7") {
        Some("Microsoft Basic Data")
    } else if is_guid(ptype, "C12A7328-F81F-11D2-BA4B-00A0C93EC93B") {
        Some("EFI System")
    } else if is_guid(ptype, "E3C9E316-0B5C-4DB8-817D-F92DF00215AE") {
        Some("Microsoft Reserved")
    } else if is_guid(ptype, "0FC63DAF-8483-4772-8E79-3D69D8477DE4") {
        Some("Linux")
    } else if is_guid(ptype, "7C3457EF-0000-11AA-AA11-00306543ECAC") {
        Some("APFS")
    } else if is_guid(ptype, "48465300-0000-11AA-AA11-00306543ECAC") {
        Some("HFS+")
    } else {
        None
    }
}

// ---------------------------------------------------------------------------
// GPT.
/// Where the GPT partition entry array lies and how its entries are sized.
#[derive(Debug, Clone, Copy)]
pub struct GptLayout {
    pub entry_count: u64,
    pub entry_size: u64,
    pub entries_lba: u64,
}

/// The signature `EFI PART` that opens a GPT header.
pub open spec fn gpt_signature() -> Seq<u8> {
    seq![0x45u8, 0x46, 0x49, 0x20, 0x50, 0x41, 0x52, 0x54]
}

/// The layout a GPT header (the sector at LBA 1) announces, if it is a GPT header
/// with entries.
pub open spec fn gpt_header(h: Seq<u8>) -> Option<GptLayout> {
    let count = le_u32(h, 80);
    let size = le_u32(h, 84);
    if h.take(8) != gpt_signature() || size == 0 || count == 0 {
        None
    } else {
        Some(
            GptLayout {
                entry_count: count as u64,
                entry_size: size as u64,
                entries_lba: le_u64(h, 72) as u64,
            },
        )
    }
}

/// The layout a GPT header announces.
pub fn gpt_layout(header: &[u8]) -> (r: Option<GptLayout>)
    requires
        header@.len() == 512,
    ensures
        r == gpt_header(header@),
{
    let sig: [u8; 8] = [0x45, 0x46, 0x49, 0x20, 0x50, 0x41, 0x52, 0x54];
    let mut i: usize = 0;
    while i < 8
        invariant
            i <= 8,
            header@.len() == 512,
            sig@ == gpt_signature(),
            forall|k: int| 0 <= k < i ==> header@[k] == sig@[k],
        decreases 8 - i,
    {
        if header[i] != sig[i] {
            assert(header@.take(8)[i as int] != gpt_signature()[i as int]);
            return None;
        }
        i = i + 1;
    }
    assert(header@.take(8) =~= gpt_signature());
    let entry_count = read_le_u32(header, 80);
    let entry_size = read_le_u32(header, 84);
    let entries_lba = read_le_u64(header, 72);
    if entry_size == 0 || entry_count == 0 {
        return None;
    }
    Some(GptLayout { entry_count, entry_size, entries_lba })
}

/// How much of the partition entry array to read: where it starts on the disk,
/// how many entries (at most 1024), and how many bytes (no more than the disk
/// holds after the start).
#[derive(Debug, Clone, Copy)]
pub struct GptReadPlan {
    pub offset: u64,
    pub read_count: u64,
    pub read_bytes: u64,
}

pub open spec fn min(a: int, b: int) -> int {
    if a <= b {
        a
    } else {
        b
    }
}

/// The read of the partition entry array that a layout calls for on a disk of
/// `disk_size` bytes.
pub fn gpt_read_plan(layout: &GptLayout, disk_size: u64) -> (r: GptReadPlan)
    requires
        layout.entries_lba <= u64::MAX / 512,
        layout.entry_size <= u32::MAX,
    ensures
        r.offset == layout.entries_lba * 512,
        r.read_count == min(layout.entry_count as int, 1024),
        r.read_bytes == min(
            r.read_count * layout.entry_size,
            if disk_size >= r.offset {
                disk_size - r.offset
            } else {
                0
            },
        ),
{
    let offset = layout.entries_lba * SECTOR;
    let read_count = if layout.entry_count < 1024 {
        layout.entry_count
    } else {
        1024
    };
    let avail = if disk_size >= offset {
        disk_size - offset
    } else {
        0
    };
    assert(read_count * layout.entry_size <= 1024 * 0xffff_ffff) by (nonlinear_arith)
        requires
            read_count <= 1024,
            layout.entry_size <= 0xffff_ffff,
    ;
    let want = read_count * layout.entry_size;
    let read_bytes = if want < avail {
        want
    } else {
        avail
    };
    GptReadPlan { offset, read_count, read_bytes }
}

/// The little-endian 16-bit unit at `off`.
pub open spec fn le_u16(b: Seq<u8>, off: int) -> u16 {
    (b[off] as nat + (b[off + 1] as nat) * 256) as u16
}

/// The units of `u` before the first zero unit.
pub open spec fn until_nul(u: Seq<u16>) -> Seq<u16>
    decreases u.len(),
{
    if u.len() == 0 || u[0] == 0 {
        seq![]
    } else {
        seq![u[0]] + until_nul(u.drop_first())
    }
}

/// The name field of a partition entry (72 bytes of UTF-16LE from offset 56), up
/// to its first NUL.
pub open spec fn entry_name_units(e: Seq<u8>) -> Seq<u16> {
    until_nul(Seq::new(36, |k: int| le_u16(e, 56 + 2 * k)))
}

/// The 128 bytes of entry `i`, if they lie within `buf`.
pub open spec fn entry_bytes(buf: Seq<u8>, i: int, entry_size: int) -> Option<Seq<u8>> {
    let off = i * entry_size;
    if off + 128 > buf.len() {
        None
    } else {
        Some(buf.subrange(off, off + 128))
    }
}

pub open spec fn all_zero(g: Seq<u8>) -> bool {
    forall|k: int| 0 <= k < g.len() ==> g[k] == 0
}

/// The number of sectors from `first` to `last`, both included (a GPT entry's
/// extent); none when `last` comes before `first`.
pub open spec fn lba_count(first: nat, last: nat) -> nat {
    if last >= first {
        (last - first + 1) as nat
    } else {
        0
    }
}

/// Whether entry `i` can be read without the byte offsets of its extent overflowing
/// a `u64` (entries outside `buf` or of the unused type are not read).
pub open spec fn entry_fits(buf: Seq<u8>, i: int, entry_size: int) -> bool {
    match entry_bytes(buf, i, entry_size) {
        Some(e) => all_zero(e.take(16)) || (le_u64(e, 32) * 512 <= u64::MAX && lba_count(
            le_u64(e, 32),
            le_u64(e, 40),
        ) * 512 <= u64::MAX),
        None => true,
    }
}

/// Whether every one of the first `count` entries fits.
pub open spec fn entries_fit(buf: Seq<u8>, count: int, entry_size: int) -> bool {
    forall|i: int| 0 <= i < count ==> #[trigger] entry_fits(buf, i, entry_size)
}

/// The partition that entry `i` describes, if it is in use and not empty: it starts
/// at its first LBA (bytes 32..40) and runs to its last LBA (bytes 40..48), included.
pub open spec fn gpt_entry(buf: Seq<u8>, i: int, entry_size: int) -> Option<PartitionView> {
    match entry_bytes(buf, i, entry_size) {
        Some(e) => {
            let name = utf16_lossy(entry_name_units(e));
            let size = lba_count(le_u64(e, 32), le_u64(e, 40)) * 512;
            if all_zero(e.take(16)) || size == 0 {
                None
            } else {
                Some(
                    PartitionView {
                        name: if name.len() == 0 {
                            numbered_name((i + 1) as nat)
                        } else {
                            name
                        },
                        start: (le_u64(e, 32) * 512) as u64,
                        size: size as u64,
                        content: gpt_type(e.take(16)),
                    },
                )
            }
        },
        None => None,
    }
}

/// The partitions among the first `n` entries.
pub open spec fn gpt_entries(buf: Seq<u8>, n: int, entry_size: int) -> Seq<PartitionView>
    decreases n,
{
    if n <= 0 {
        seq![]
    } else {
        let prev = gpt_entries(buf, n - 1, entry_size);
        match gpt_entry(buf, n - 1, entry_size) {
            Some(p) => prev.push(p),
            None => prev,
        }
    }
}

/// Whether the partition entry at `o` has the all-zero (unused) type GUID.
fn unused_entry(buf: &[u8], o: usize) -> (r: bool)
    requires
        o + 128 <= buf.len(),
    ensures
        r == all_zero(buf@.subrange(o as int, o + 128).take(16)),
{
    let ghost g = buf@.subrange(o as int, o + 128).take(16);
    let mut k: usize = 0;
    while k < 16
        invariant
            k <= 16,
            o + 128 <= buf.len(),
            g == buf@.subrange(o as int, o + 128).take(16),
            forall|j: int| 0 <= j < k ==> #[trigger] g[j] == 0,
        decreases 16 - k,
    {
        assert(g[k as int] == buf@[o + k]);
        if buf[o + k] != 0 {
            return false;
        }
        k = k + 1;
    }
    true
}

/// Whether each of the first `read_count` entries fits (see `entry_fits`).
pub fn gpt_entries_fit(buf: &[u8], read_count: u64, entry_size: u64) -> (r: bool)
    requires
        read_count <= 1024,
        entry_size <= u32::MAX,
    ensures
        r == entries_fit(buf@, read_count as int, entry_size as int),
{
    let mut i: u64 = 0;
    while i < read_count
        invariant
            i <= read_count <= 1024,
            entry_size <= u32::MAX,
            entries_fit(buf@, i as int, entry_size as int),
        decreases read_count - i,
    {
        assert(i * entry_size <= 1024 * 0xffff_ffff) by (nonlinear_arith)
            requires
                i <= 1024,
                entry_size <= 0xffff_ffff,
        ;
        let off = i * entry_size;
        if off + 128 <= buf.len() as u64 {
            let o = off as usize;
            let ghost e = buf@.subrange(o as int, o + 128);
            let zero = unused_entry(buf, o);
            if !zero {
                let st = read_le_u64(buf, o + 32);
                let ls = read_le_u64(buf, o + 40);
                assert(st == le_u64(e, 32) && ls == le_u64(e, 40));
                if st > u64::MAX / 512 || (ls >= st && ls - st >= u64::MAX / 512) {
                    assert(!entry_fits(buf@, i as int, entry_size as int));
                    return false;
                }
            }
        }
        assert(entry_fits(buf@, i as int, entry_size as int));
        i = i + 1;
    }
    true
}

/// The partitions that the first `read_count` entries of a GPT partition entry
/// array describe.
pub fn parse_gpt_entries(buf: &[u8], read_count: u64, entry_size: u64) -> (r: Vec<Partition>)
    requires
        read_count <= 1024,
        entry_size <= u32::MAX,
        entries_fit(buf@, read_count as int, entry_size as int),
    ensures
        partition_views(r@) == gpt_entries(buf@, read_count as int, entry_size as int),
{
    let mut parts: Vec<Partition> = Vec::new();
    let mut i: u64 = 0;
    assert(partition_views(parts@) =~= gpt_entries(buf@, 0, entry_size as int));
    while i < read_count
        invariant
            i <= read_count <= 1024,
            entry_size <= u32::MAX,
            entries_fit(buf@, read_count as int, entry_size as int),
            partition_views(parts@) == gpt_entries(buf@, i as int, entry_size as int),
        decreases read_count - i,
    {
        assert(entry_fits(buf@, i as int, entry_size as int));
        assert(i * entry_size <= 1024 * 0xffff_ffff) by (nonlinear_arith)
            requires
                i <= 1024,
                entry_size <= 0xffff_ffff,
        ;
        let off = i * entry_size;
        if off + 128 <= buf.len() as u64 {
            let o = off as usize;
            let ghost e = buf@.subrange(o as int, o + 128);
            let zero = unused_entry(buf, o);
            if !zero {
                let st = read_le_u64(buf, o + 32);
                let ls = read_le_u64(buf, o + 40);
                assert(st == le_u64(e, 32) && ls == le_u64(e, 40));
                let count = if ls >= st {
                    ls - st + 1
                } else {
                    0
                };
                let start = st * SECTOR;
                let size = count * SECTOR;
                if size > 0 {
                    let mut units: Vec<u16> = Vec::new();
                    let ghost all_units = Seq::new(36, |k: int| le_u16(e, 56 + 2 * k));
                    let mut n: usize = 0;
                    assert(all_units.skip(0) =~= all_units);
                    assert(units@ + until_nul(all_units) =~= until_nul(all_units));
                    while n < 36 && (buf[o + 56 + 2 * n] != 0 || buf[o + 57 + 2 * n] != 0)
                        invariant
                            n <= 36,
                            o + 128 <= buf.len(),
                            e == buf@.subrange(o as int, o + 128),
                            all_units == Seq::new(36, |k: int| le_u16(e, 56 + 2 * k)),
                            until_nul(all_units) == units@ + until_nul(all_units.skip(n as int)),
                        decreases 36 - n,
                    {
                        let u = (buf[o + 56 + 2 * n] as u16) + (buf[o + 57 + 2 * n] as u16) * 256;
                        assert(all_units[n as int] == u);
                        assert(all_units.skip(n as int)[0] == u);
                        assert(all_units.skip(n as int).drop_first() =~= all_units.skip(n + 1));
                        units.push(u);
                        n = n + 1;
                        assert(until_nul(all_units) =~= units@ + until_nul(all_units.skip(n as int)));
                    }
                    proof {
                        if n < 36 {
                            assert(all_units.skip(n as int)[0] == all_units[n as int]);
                            assert(all_units[n as int] == 0);
                        }
                        assert(until_nul(all_units.skip(n as int)) =~= Seq::<u16>::empty());
                        assert(units@ =~= entry_name_units(e));
                    }
                    let decoded = from_utf16_lossy(units.as_slice());
                    let name = if decoded.as_str().is_empty() {
                        concat("Partition ", u64_to_decimal(i + 1).as_str())
                    } else {
                        decoded
                    };
                    let kind = gpt_type_name(vstd::slice::slice_subrange(buf, o, o + 16));
                    assert(buf@.subrange(o as int, o + 16) =~= e.take(16));
                    parts.push(
                        Partition { name, start, size, content: owned_opt(kind) },
                    );
                }
            }
        }
        assert(partition_views(parts@) =~= gpt_entries(buf@, i + 1, entry_size as int));
        i = i + 1;
    }
    parts
}


// ---------------------------------------------------------------------------
// Disk descriptors.
/// The text with its trailing NUL characters removed.
pub open spec fn trim_end_nul(s: Seq<char>) -> Seq<char>
    decreases s.len(),
{
    if s.len() > 0 && s.last() == '\0' {
        trim_end_nul(s.drop_last())
    } else {
        s
    }
}

/// A string of a storage device descriptor: `len` bytes at `off` of the returned
/// buffer (cut at its end), decoded as UTF-8, trailing NULs and surrounding
/// whitespace removed; empty when the offset is absent (`u32::MAX`), the length
/// zero, or the offset past the buffer.
pub open spec fn descriptor_text(buffer: Seq<u8>, off: u32, len: u32) -> Seq<char> {
    if off == u32::MAX || len == 0 || off >= buffer.len() {
        seq![]
    } else {
        let end = min(off + len, buffer.len() as int);
        trim(trim_end_nul(utf8_lossy(buffer.subrange(off as int, end))))
    }
}

/// A string of a storage device descriptor.
pub fn descriptor_string(buffer: &[u8], off: u32, len: u32) -> (r: String)
    requires
        off + len <= usize::MAX,
    ensures
        r@ == descriptor_text(buffer@, off, len),
{
    if off == u32::MAX || len == 0 || off as usize >= buffer.len() {
        return String::new();
    }
    let start = off as usize;
    let end = if start + (len as usize) < buffer.len() {
        start + len as usize
    } else {
        buffer.len()
    };
    let text = from_utf8_lossy(vstd::slice::slice_subrange(buffer, start, end));
    let cs = chars_of(text.as_str());
    let mut k = cs.len();
    assert(trim_end_nul(cs@) == trim_end_nul(cs@.subrange(0, k as int))) by {
        assert(cs@.subrange(0, k as int) =~= cs@);
    }
    while k > 0 && cs[k - 1] == '\0'
        invariant
            k <= cs@.len(),
            trim_end_nul(cs@) == trim_end_nul(cs@.subrange(0, k as int)),
        decreases k,
    {
        assert(cs@.subrange(0, k as int).drop_last() =~= cs@.subrange(0, k - 1));
        k = k - 1;
    }
    let stripped = crate::number::slice_vec(&cs, 0, k);
    let (a, b) = trim_bounds(&stripped);
    assert(stripped@.subrange(a as int, b as int) =~= cs@.subrange(a as int, b as int));
    sub_string(text.as_str(), a, b)
}

/// The length of the NUL-terminated string at `off` of `buffer` (up to the
/// buffer's end, and at most `u32::MAX`); zero when `off` is absent (`u32::MAX`)
/// or past the buffer.
pub fn nul_terminated_len(buffer: &[u8], off: u32) -> (r: u32)
    ensures
        off == u32::MAX || off >= buffer@.len() ==> r == 0,
        off != u32::MAX && off < buffer@.len() ==> ({
            &&& off + r <= buffer@.len()
            &&& forall|k: int| off <= k < off + r ==> buffer@[k] != 0
            &&& (off + r == buffer@.len() || buffer@[off + r] == 0 || r == u32::MAX)
        }),
{
    if off == u32::MAX || off as usize >= buffer.len() {
        return 0;
    }
    let start = off as usize;
    let mut k: usize = start;
    while k < buffer.len() && buffer[k] != 0 && k - start < u32::MAX as usize
        invariant
            start == off,
            start <= k <= buffer@.len(),
            k - start <= u32::MAX,
            forall|j: int| start <= j < k ==> buffer@[j] != 0,
        decreases buffer@.len() - k,
    {
        k = k + 1;
    }
    (k - start) as u32
}

/// The fields of a `STORAGE_DEVICE_DESCRIPTOR` that discovery reads.
#[derive(Debug, Clone, Copy)]
pub struct DescriptorFields {
    pub removable_media_offset: u32,
    pub vendor_id_offset: u32,
    pub vendor_id_length: u32,
    pub product_id_offset: u32,
    pub product_id_length: u32,
    pub bus_type: u32,
}

/// Removability, vendor, product and bus type of a disk.
#[derive(Debug, Clone)]
pub struct DiskInfo {
    pub removable: bool,
    pub vendor: String,
    pub product: String,
    pub bus: u32,
}

/// The disk properties that a storage device descriptor returned in `buffer` gives.
pub fn disk_info(buffer: &[u8], d: &DescriptorFields) -> (r: DiskInfo)
    requires
        d.vendor_id_offset + d.vendor_id_length <= usize::MAX,
        d.product_id_offset + d.product_id_length <= usize::MAX,
    ensures
        r.removable == (d.removable_media_offset != u32::MAX),
        r.vendor@ == descriptor_text(buffer@, d.vendor_id_offset, d.vendor_id_length),
        r.product@ == descriptor_text(buffer@, d.product_id_offset, d.product_id_length),
        r.bus == d.bus_type,
{
    DiskInfo {
        removable: d.removable_media_offset != u32::MAX,
        vendor: descriptor_string(buffer, d.vendor_id_offset, d.vendor_id_length),
        product: descriptor_string(buffer, d.product_id_offset, d.product_id_length),
        bus: d.bus_type,
    }
}

// ---------------------------------------------------------------------------
// Listing.
/// The partition entry array read for a GPT disk, with the entry count and size
/// it was read for.
#[derive(Debug, Clone)]
pub struct GptEntries {
    pub read_count: u64,
    pub entry_size: u64,
    pub entries: Vec<u8>,
}

impl GptEntries {
    /// Whether the entries can be parsed without overflow.
    pub open spec fn wf(&self) -> bool {
        &&& self.read_count <= 1024
        &&& self.entry_size <= u32::MAX
        &&& entries_fit(self.entries@, self.read_count as int, self.entry_size as int)
    }

    /// Entries read for a layout's plan; `None` when an entry's extent, in bytes,
    /// does not fit a `u64`.
    pub fn checked(read_count: u64, entry_size: u64, entries: Vec<u8>) -> (r: Option<GptEntries>)
        requires
            read_count <= 1024,
            entry_size <= u32::MAX,
        ensures
            match r {
                Some(g) => g.wf() && g.read_count == read_count && g.entry_size == entry_size
                    && g.entries@ == entries@,
                None => !entries_fit(entries@, read_count as int, entry_size as int),
            },
    {
        if gpt_entries_fit(entries.as_slice(), read_count, entry_size) {
            Some(GptEntries { read_count, entry_size, entries })
        } else {
            None
        }
    }
}

/// What was learnt of `\\.\PhysicalDrive<number>`: its properties and length
/// (`None` when the query failed), its first sector (`None` when it could not be
/// read) and its GPT partition entries (`None` when there is no GPT or it could not
/// be read).
#[derive(Debug, Clone)]
pub struct WinDisk {
    pub number: u32,
    pub info: Option<DiskInfo>,
    pub size: Option<u64>,
    pub mbr: Option<Vec<u8>>,
    pub gpt: Option<GptEntries>,
}

/// The partitions of a disk: those of its MBR, or when that has none or only
/// protects a GPT, those of its GPT (none when it could not be read).
pub open spec fn win_partitions(d: WinDisk) -> Seq<PartitionView> {
    match d.mbr {
        None => seq![],
        Some(m) => {
            if !gpt_wanted(m@) {
                mbr_partitions(m@)
            } else {
                match d.gpt {
                    Some(g) => gpt_entries(g.entries@, g.read_count as int, g.entry_size as int),
                    None => seq![],
                }
            }
        },
    }
}

/// Bus types of external disks: USB, SD and UFS.
pub open spec fn is_external_bus(bus: u32) -> bool {
    bus == 7 || bus == 8 || bus == 12
}

pub open spec fn drive_path(n: nat) -> Seq<char> {
    "\\\\.\\PhysicalDrive"@ + decimal(n)
}

pub open spec fn text_opt(s: Seq<char>) -> Option<Seq<char>> {
    if s.len() == 0 {
        None
    } else {
        Some(s)
    }
}

/// The device a physical drive is, if it is removable or on an external bus.
pub open spec fn win_device(d: WinDisk) -> Option<DeviceView> {
    match (d.info, d.size) {
        (Some(info), Some(size)) => if !info.removable && !is_external_bus(info.bus) {
            None
        } else {
            Some(
                DeviceView {
                    device_path: drive_path(d.number as nat),
                    display_name: if info.product@.len() > 0 {
                        trim(info.vendor@ + " "@ + info.product@)
                    } else {
                        "PhysicalDrive"@ + decimal(d.number as nat)
                    },
                    vendor: text_opt(info.vendor@),
                    usb_product_name: text_opt(info.product@),
                    size_bytes: size,
                    removable: info.removable,
                    is_system: false,
                    partitions: win_partitions(d),
                },
            )
        },
        _ => None,
    }
}

/// The devices the drives are, in the order of the drives.
pub open spec fn win_devices(ds: Seq<WinDisk>) -> Seq<DeviceView>
    decreases ds.len(),
{
    if ds.len() == 0 {
        seq![]
    } else {
        let prev = win_devices(ds.drop_last());
        match win_device(ds.last()) {
            Some(d) => prev.push(d),
            None => prev,
        }
    }
}

pub open spec fn disk_wf(d: WinDisk) -> bool {
    d.gpt matches Some(g) ==> g.wf()
}

fn opt_text(s: &String) -> (r: Option<String>)
    ensures
        crate::text::opt_view(r) == text_opt(s@),
{
    if s.as_str().is_empty() {
        None
    } else {
        Some(s.clone())
    }
}

/// The partitions of a disk.
pub fn disk_partitions(d: &WinDisk) -> (r: Vec<Partition>)
    requires
        disk_wf(*d),
    ensures
        partition_views(r@) == win_partitions(*d),
{
    match &d.mbr {
        None => Vec::new(),
        Some(m) => {
            if !gpt_is_wanted(m.as_slice()) {
                parse_mbr_partitions(m.as_slice())
            } else {
                match &d.gpt {
                    Some(g) => parse_gpt_entries(g.entries.as_slice(), g.read_count, g.entry_size),
                    None => Vec::new(),
                }
            }
        },
    }
}

/// The device a physical drive is, if it is removable or on an external bus.
pub fn win_device_of(d: &WinDisk) -> (r: Option<Device>)
    requires
        disk_wf(*d),
    ensures
        match r {
            Some(x) => win_device(*d) == Some(x@),
            None => win_device(*d) is None,
        },
{
    let info = match &d.info {
        Some(i) => i,
        None => {
            return None;
        },
    };
    let size = match d.size {
        Some(s) => s,
        None => {
            return None;
        },
    };
    let external = info.bus == 7 || info.bus == 8 || info.bus == 12;
    if !info.removable && !external {
        return None;
    }
    let number = u64_to_decimal(d.number as u64);
    let display_name = if !info.product.as_str().is_empty() {
        let joined = concat(concat(info.vendor.as_str(), " ").as_str(), info.product.as_str());
        trimmed(joined.as_str())
    } else {
        concat("PhysicalDrive", number.as_str())
    };
    Some(
        Device {
            device_path: concat("\\\\.\\PhysicalDrive", number.as_str()),
            display_name,
            vendor: opt_text(&info.vendor),
            usb_product_name: opt_text(&info.product),
            size_bytes: size,
            removable: info.removable,
            is_system: false,
            partitions: disk_partitions(d),
        },
    )
}

/// The removable or external physical drives, ordered by path.
pub fn list_devices(disks: &Vec<WinDisk>) -> (r: Vec<Device>)
    requires
        forall|i: int| 0 <= i < disks@.len() ==> disk_wf(#[trigger] disks@[i]),
    ensures
        device_views(r@) == sort_by_path(win_devices(disks@)),
{
    let mut found: Vec<Device> = Vec::new();
    let mut i: usize = 0;
    while i < disks.len()
        invariant
            i <= disks@.len(),
            forall|i: int| 0 <= i < disks@.len() ==> disk_wf(#[trigger] disks@[i]),
            device_views(found@) == win_devices(disks@.take(i as int)),
        decreases disks@.len() - i,
    {
        assert(disks@.take(i + 1).drop_last() =~= disks@.take(i as int));
        match win_device_of(&disks[i]) {
            Some(d) => {
                found.push(d);
            },
            None => {},
        }
        assert(device_views(found@) =~= win_devices(disks@.take(i + 1)));
        i = i + 1;
    }
    assert(disks@.take(i as int) =~= disks@);
    sort_devices(found)
}


/// No two drives have the same number.
pub open spec fn distinct_numbers(ds: Seq<WinDisk>) -> bool {
    forall|i: int, j: int| 0 <= i < j < ds.len() ==> ds[i].number != ds[j].number
}

/// Drives with different numbers have different paths.
proof fn lemma_drive_paths_differ(a: u32, b: u32)
    requires
        a != b,
    ensures
        drive_path(a as nat) != drive_path(b as nat),
{
    let p = "\\\\.\\PhysicalDrive"@;
    if drive_path(a as nat) == drive_path(b as nat) {
        assert((p + decimal(a as nat)).skip(p.len() as int) =~= decimal(a as nat));
        assert((p + decimal(b as nat)).skip(p.len() as int) =~= decimal(b as nat));
        crate::number::law_decimal_round_trip(a as nat, u32::MAX as nat);
        crate::number::law_decimal_round_trip(b as nat, u32::MAX as nat);
    }
}

proof fn lemma_win_devices_apart(ds: Seq<WinDisk>)
    requires
        distinct_numbers(ds),
    ensures
        distinct_paths(win_devices(ds)),
        forall|k: int|
            #![trigger win_devices(ds)[k]]
            0 <= k < win_devices(ds).len() ==> exists|i: int|
                0 <= i < ds.len() && #[trigger] drive_path(ds[i].number as nat)
                    == win_devices(ds)[k].device_path,
    decreases ds.len(),
{
    if ds.len() > 0 {
        let prev_ds = ds.drop_last();
        assert(distinct_numbers(prev_ds)) by {
            assert forall|i: int, j: int| 0 <= i < j < prev_ds.len() implies prev_ds[i].number
                != prev_ds[j].number by {
                assert(prev_ds[i] == ds[i] && prev_ds[j] == ds[j]);
            }
        }
        lemma_win_devices_apart(prev_ds);
        let prev = win_devices(prev_ds);
        match win_device(ds.last()) {
            Some(d) => {
                let cur = prev.push(d);
                assert forall|k: int| 0 <= k < prev.len() implies (#[trigger] prev[k]).device_path
                    != d.device_path by {
                    let i = choose|i: int|
                        0 <= i < prev_ds.len() && #[trigger] drive_path(prev_ds[i].number as nat)
                            == prev[k].device_path;
                    assert(prev_ds[i] == ds[i]);
                    assert(ds[ds.len() - 1] == ds.last());
                    lemma_drive_paths_differ(ds[i].number, ds.last().number);
                }
                assert forall|i: int, j: int| 0 <= i < j < cur.len() implies cur[i].device_path
                    != cur[j].device_path by {
                    if j == prev.len() {
                        assert(cur[i] == prev[i]);
                    } else {
                        assert(cur[i] == prev[i] && cur[j] == prev[j]);
                    }
                }
                assert forall|k: int| #![trigger cur[k]] 0 <= k < cur.len() implies exists|i: int|
                    0 <= i < ds.len() && #[trigger] drive_path(ds[i].number as nat)
                        == cur[k].device_path by {
                    if k == prev.len() {
                        assert(drive_path(ds[ds.len() - 1].number as nat) == cur[k].device_path);
                    } else {
                        let i = choose|i: int|
                            0 <= i < prev_ds.len() && #[trigger] drive_path(
                                prev_ds[i].number as nat,
                            ) == prev[k].device_path;
                        assert(prev_ds[i] == ds[i]);
                        assert(drive_path(ds[i].number as nat) == cur[k].device_path);
                    }
                }
            },
            None => {
                assert forall|k: int| #![trigger prev[k]] 0 <= k < prev.len() implies exists|i: int|
                    0 <= i < ds.len() && #[trigger] drive_path(ds[i].number as nat)
                        == prev[k].device_path by {
                    let i = choose|i: int|
                        0 <= i < prev_ds.len() && #[trigger] drive_path(prev_ds[i].number as nat)
                            == prev[k].device_path;
                    assert(prev_ds[i] == ds[i]);
                }
            },
        }
    }
}

/// A drive is listed once: when the drives have distinct numbers (as the numbers
/// probed do), no two devices of the ordered listing share a path.
pub proof fn law_each_drive_listed_once(ds: Seq<WinDisk>)
    requires
        distinct_numbers(ds),
    ensures
        distinct_paths(sort_by_path(win_devices(ds))),
{
    lemma_win_devices_apart(ds);
    crate::device::lemma_sort_keeps_distinct_paths(win_devices(ds));
}

/// Which drives are listed: one whose properties and length could be read is
/// listed exactly when it is removable or sits on an external bus (USB = 7,
/// SD = 8, UFS = 12), under `\\.\PhysicalDrive<number>`, with its length.
pub proof fn law_removable_or_external_drives_listed(d: WinDisk)
    ensures
        win_device(d) is Some <==> (d.info matches Some(info) && d.size is Some && (info.removable
            || info.bus == 7 || info.bus == 8 || info.bus == 12)),
        win_device(d) matches Some(v) ==> v.device_path == "\\\\.\\PhysicalDrive"@ + decimal(
            d.number as nat,
        ) && d.size == Some(v.size_bytes) && v.removable == d.info->0.removable && !v.is_system,
{
}

} // verus!
