//! The arithmetic of the helper's I/O: sector padding, export windows, how a
//! written image is checked against the device, and the segments in which `dd`
//! and `cmp` are run.

use vstd::prelude::*;
use vstd::string::*;
use crate::number::{decimal, u64_to_decimal, parse_unsigned, parse_unsigned_chars};
use crate::text::{chars_of, concat, contains, find, find_from, has_infix, trim, trimmed, trim_bounds};

verus! {

/// Raw devices take whole 512-byte sectors.
pub const SECTOR: u64 = 512;

/// The block size of `dd` and of the checked segments: 4 MiB.
pub const DD_BS: u64 = 4194304;

/// Blocks per `dd` or `cmp` invocation.
pub const SEG_BLOCKS: u64 = 16;

/// The size of the buffers of direct I/O: 4 MiB.
pub const BUFFER_SIZE: usize = 4194304;

/// The error text by which a cancelled task is recognised.
pub const CANCELLED: &'static str = "__CANCELLED__";

/// `n` rounded up to whole sectors.
pub open spec fn sector_ceil(n: nat) -> nat {
    ((n + 511) / 512) * 512
}

/// `n` bytes rounded up to whole sectors (what a raw device is written and read in).
pub fn padded_len(n: u64) -> (r: u64)
    requires
        n <= u64::MAX - 511,
    ensures
        r == sector_ceil(n as nat),
{
    (n + 511) / 512 * 512
}

/// Rounding up to whole sectors adds less than a sector, and nothing to a whole
/// number of sectors.
pub proof fn law_sector_ceil(n: nat)
    ensures
        n <= sector_ceil(n) < n + 512,
        sector_ceil(n) % 512 == 0,
        (sector_ceil(n) == n) <==> (n % 512 == 0),
{
    assert(n <= sector_ceil(n) < n + 512 && sector_ceil(n) % 512 == 0 && ((sector_ceil(n) == n)
        <==> (n % 512 == 0))) by (nonlinear_arith);
}

/// What to do after a read of the image into the copy buffer.
#[derive(Debug, Clone, Copy, PartialEq, Eq, Structural)]
pub enum WriteStep {
    /// The buffer is not full and the image goes on: read again into the rest of it.
    ReadMore,
    /// Write (or read back and compare) the first `len` bytes of the buffer: `data`
    /// bytes of the image, then zeros up to whole sectors; `last` when the image
    /// has ended.
    Write { data: u64, len: u64, last: bool },
    /// The image has ended and nothing is left in the buffer.
    Finished,
}

/// The next step of a direct copy: `filled` bytes of the image wait in a buffer of
/// `cap` bytes and a read into the rest of it gave `n` more (0 at the image's end).
/// Only full buffers are written as they are; the tail, at the image's end, is
/// padded with zeros to whole sectors, as raw devices take only whole sectors.
pub fn write_step(filled: u64, n: u64, cap: u64) -> (r: WriteStep)
    requires
        filled + n <= cap,
        cap % 512 == 0,
    ensures
        n == 0 && filled == 0 ==> r == WriteStep::Finished,
        n == 0 && filled > 0 ==> r == (WriteStep::Write {
            data: filled,
            len: sector_ceil(filled as nat) as u64,
            last: true,
        }),
        n > 0 && filled + n == cap ==> r == (WriteStep::Write { data: cap, len: cap, last: false }),
        n > 0 && filled + n < cap ==> r == WriteStep::ReadMore,
        r matches WriteStep::Write { data, len, last } ==> len % 512 == 0 && data <= len < data
            + 512 && len <= cap,
{
    if n == 0 {
        if filled == 0 {
            WriteStep::Finished
        } else {
            assert(filled <= u64::MAX - 511 && sector_ceil(filled as nat) <= cap) by (nonlinear_arith)
                requires
                    filled <= cap,
                    cap <= u64::MAX,
                    cap % 512 == 0,
            ;
            proof {
                law_sector_ceil(filled as nat);
            }
            WriteStep::Write { data: filled, len: padded_len(filled), last: true }
        }
    } else if filled + n == cap {
        WriteStep::Write { data: cap, len: cap, last: false }
    } else {
        WriteStep::ReadMore
    }
}

/// The part of a device of `total` bytes an export covers: all of it when the length
/// is `u64::MAX`, else the asked range cut to the device.
pub open spec fn export_window_spec(start: u64, length: u64, total: u64) -> (u64, u64) {
    if length == u64::MAX {
        (0, total)
    } else {
        let s = if start < total {
            start
        } else {
            total
        };
        (s, if length < total - s {
            length
        } else {
            (total - s) as u64
        })
    }
}

/// The part of a device an export covers.
pub fn export_window(start: u64, length: u64, total: u64) -> (r: (u64, u64))
    ensures
        r == export_window_spec(start, length, total),
        r.0 + r.1 <= total,
{
    if length == u64::MAX {
        (0, total)
    } else {
        let s = if start < total {
            start
        } else {
            total
        };
        let l = if length < total - s {
            length
        } else {
            total - s
        };
        (s, l)
    }
}

/// How much of a read of `n` bytes an export writes when `done` of `length` bytes
/// are written: no more than what is left.
pub fn export_write_len(n: u64, length: u64, done: u64) -> (r: u64)
    requires
        done <= length,
    ensures
        r == (if n < length - done {
            n
        } else {
            (length - done) as u64
        }),
        done + r <= length,
{
    if n < length - done {
        n
    } else {
        length - done
    }
}

// ---------------------------------------------------------------------------
// Checking a written image.
/// The first index below `n` where `a` and `b` differ.
pub open spec fn first_difference(a: Seq<u8>, b: Seq<u8>, n: int) -> Option<int>
    decreases n,
{
    if n <= 0 {
        None
    } else {
        match first_difference(a, b, n - 1) {
            Some(k) => Some(k),
            None => if a[n - 1] != b[n - 1] {
                Some(n - 1)
            } else {
                None
            },
        }
    }
}

/// An image chunk padded with zeros to whole sectors, as it was written.
pub open spec fn padded_chunk(image: Seq<u8>) -> Seq<u8> {
    image + Seq::new((sector_ceil(image.len()) - image.len()) as nat, |i: int| 0u8)
}

/// Where a chunk read back from the device differs from the padded image chunk:
/// `None` when they agree, else the first differing offset within the image's own
/// bytes, or 0 when only the padding differs.
pub open spec fn chunk_mismatch(image: Seq<u8>, device: Seq<u8>) -> Option<nat> {
    if padded_chunk(image) == device {
        None
    } else {
        match first_difference(image, device, image.len() as int) {
            Some(k) => Some(k as nat),
            None => Some(0),
        }
    }
}

/// Compares an image chunk with the sectors read back from the device.
pub fn compare_chunk(image: &[u8], device: &[u8]) -> (r: Option<u64>)
    requires
        device@.len() == sector_ceil(image@.len()),
    ensures
        match chunk_mismatch(image@, device@) {
            Some(k) => r == Some(k as u64),
            None => r is None,
        },
{
    let n = image.len();
    let mut first: Option<usize> = None;
    let mut i: usize = 0;
    while i < n
        invariant
            n == image@.len(),
            i <= n,
            device@.len() == sector_ceil(image@.len()),
            device@.len() >= n,
            match first {
                Some(k) => first_difference(image@, device@, i as int) == Some(k as int),
                None => first_difference(image@, device@, i as int) is None,
            },
        decreases n - i,
    {
        if first.is_none() && image[i] != device[i] {
            first = Some(i);
        }
        i = i + 1;
    }
    let mut same = first.is_none();
    let mut j: usize = n;
    while j < device.len()
        invariant
            n == image@.len(),
            n <= j <= device@.len(),
            device@.len() == sector_ceil(image@.len()),
            same == (first_difference(image@, device@, n as int) is None && forall|k: int|
                n <= k < j ==> #[trigger] device@[k] == 0),
        decreases device@.len() - j,
    {
        if device[j] != 0 {
            same = false;
        }
        j = j + 1;
    }
    proof {
        let p = padded_chunk(image@);
        assert(p.len() == device@.len());
        if same {
            assert forall|k: int| 0 <= k < n implies image@[k] == device@[k] by {
                lemma_no_difference(image@, device@, n as int, k);
            }
            assert(p =~= device@);
        } else {
            if first_difference(image@, device@, n as int) is None {
                let k = choose|k: int| n <= k < device@.len() && device@[k] != 0;
                assert(p[k] == 0);
            } else {
                let k = first_difference(image@, device@, n as int)->0;
                lemma_difference_found(image@, device@, n as int);
                assert(p[k] == image@[k]);
            }
        }
    }
    if same {
        None
    } else {
        match first {
            Some(k) => Some(k as u64),
            None => Some(0),
        }
    }
}

proof fn lemma_no_difference(a: Seq<u8>, b: Seq<u8>, n: int, k: int)
    requires
        first_difference(a, b, n) is None,
        0 <= k < n,
    ensures
        a[k] == b[k],
    decreases n,
{
    if k < n - 1 {
        lemma_no_difference(a, b, n - 1, k);
    }
}

proof fn lemma_difference_found(a: Seq<u8>, b: Seq<u8>, n: int)
    requires
        first_difference(a, b, n) is Some,
    ensures
        0 <= first_difference(a, b, n)->0 < n,
        a[first_difference(a, b, n)->0] != b[first_difference(a, b, n)->0],
    decreases n,
{
    if first_difference(a, b, n - 1) is Some {
        lemma_difference_found(a, b, n - 1);
    }
}

/// The message for a check that failed at byte `offset`.
pub open spec fn mismatch_text(offset: nat) -> Seq<char> {
    "校验失败：偏移量 "@ + decimal(offset) + " 字节处数据不一致"@
}

/// The message for a check that failed at byte `offset` of the image.
pub fn mismatch_message(offset: u64) -> (r: String)
    ensures
        r@ == mismatch_text(offset as nat),
{
    concat(concat("校验失败：偏移量 ", u64_to_decimal(offset).as_str()).as_str(), " 字节处数据不一致")
}

/// Whether an I/O error says the device may not be accessed directly, in which
/// case the helper falls back to `dd`.
pub fn is_permission_denied(e: &str) -> (r: bool)
    ensures
        r == (has_infix(e@, "Operation not permitted"@) || has_infix(e@, "Permission denied"@)),
{
    let cs = chars_of(e);
    contains(&cs, &chars_of("Operation not permitted")) || contains(&cs, &chars_of("Permission denied"))
}

/// An image of `total` bytes can be flashed only if it is not empty.
pub fn check_image_size(total: u64) -> (r: Result<(), String>)
    ensures
        total == 0 ==> (r matches Err(e) && e@ == "镜像文件为空"@),
        total != 0 ==> r is Ok,
{
    if total == 0 {
        Err(String::from_str("镜像文件为空"))
    } else {
        Ok(())
    }
}


// ---------------------------------------------------------------------------
// Checking with `cmp` in segments.
/// One `cmp` run: `length` bytes from `offset` in both files, after which
/// `progress` bytes count as checked.
#[derive(Debug, Clone, Copy)]
pub struct CheckRun {
    pub offset: u64,
    pub length: u64,
    pub progress: u64,
}

/// Whole or partial 4 MiB blocks in `total` bytes.
pub open spec fn blocks_of(total: nat) -> nat {
    ((total + 4194303) / 4194304) as nat
}

pub open spec fn nat_min(a: nat, b: nat) -> nat {
    if a <= b {
        a
    } else {
        b
    }
}

/// The `cmp` runs from block `done` on, at most 16 blocks each, the last cut at
/// `total` bytes.
pub open spec fn check_runs_from(total: nat, done: nat) -> Seq<CheckRun>
    decreases blocks_of(total) - done,
{
    if done >= blocks_of(total) {
        seq![]
    } else {
        let count = nat_min((blocks_of(total) - done) as nat, SEG_BLOCKS as nat);
        let off = done * DD_BS;
        seq![
            CheckRun {
                offset: off as u64,
                length: nat_min((count * DD_BS) as nat, (total - off) as nat) as u64,
                progress: nat_min(((done + count) * DD_BS) as nat, total) as u64,
            },
        ] + check_runs_from(total, done + count)
    }
}

/// The `cmp` runs that check an image of `total` bytes.
pub open spec fn check_runs(total: nat) -> Seq<CheckRun> {
    check_runs_from(total, 0)
}

proof fn lemma_blocks_of(total: nat)
    ensures
        blocks_of(total) * DD_BS >= total,
        blocks_of(total) * DD_BS < total + DD_BS,
        total > 0 ==> (blocks_of(total) - 1) * DD_BS < total,
{
    assert(blocks_of(total) * DD_BS >= total && blocks_of(total) * DD_BS < total + DD_BS) by (nonlinear_arith);
    if total > 0 {
        assert((blocks_of(total) - 1) * DD_BS < total) by (nonlinear_arith)
            requires
                blocks_of(total) * DD_BS < total + DD_BS,
                total > 0,
        ;
    }
}

/// The `cmp` runs that check an image of `total` bytes.
pub fn verify_segments(total: u64) -> (r: Vec<CheckRun>)
    requires
        total <= u64::MAX - DD_BS,
    ensures
        r@ == check_runs(total as nat),
{
    proof {
        lemma_blocks_of(total as nat);
    }
    let blocks = (total + (DD_BS - 1)) / DD_BS;
    let mut done: u64 = 0;
    let mut segs: Vec<CheckRun> = Vec::new();
    while done < blocks
        invariant
            total <= u64::MAX - DD_BS,
            blocks == blocks_of(total as nat),
            blocks * DD_BS < total + DD_BS,
            done <= blocks,
            segs@ + check_runs_from(total as nat, done as nat) == check_runs(total as nat),
        decreases blocks - done,
    {
        let count = if blocks - done < SEG_BLOCKS {
            blocks - done
        } else {
            SEG_BLOCKS
        };
        proof {
            assert(done * DD_BS <= blocks * DD_BS) by (nonlinear_arith)
                requires
                    done <= blocks,
            ;
            assert((done + count) * DD_BS <= blocks * DD_BS) by (nonlinear_arith)
                requires
                    done + count <= blocks,
            ;
            assert(count * DD_BS + done * DD_BS == (done + count) * DD_BS) by (nonlinear_arith);
        }
        let off = done * DD_BS;
        let want = count * DD_BS;
        let length = if want < total - off {
            want
        } else {
            total - off
        };
        let reached = (done + count) * DD_BS;
        let progress = if reached < total {
            reached
        } else {
            total
        };
        let seg = CheckRun { offset: off, length, progress };
        proof {
            assert(check_runs_from(total as nat, done as nat) == seq![seg] + check_runs_from(
                total as nat,
                (done + count) as nat,
            ));
        }
        segs.push(seg);
        done = done + count;
        proof {
            assert(segs@ + check_runs_from(total as nat, done as nat) =~= check_runs(
                total as nat,
            ));
        }
    }
    assert(check_runs_from(total as nat, done as nat) =~= Seq::<CheckRun>::empty());
    assert(segs@ =~= check_runs(total as nat));
    segs
}

/// The runs from block `done` on are contiguous, start at that block, and end
/// exactly at `total`, where the progress reaches `total`.
proof fn lemma_check_runs_from(total: nat, done: nat)
    requires
        done < blocks_of(total),
        total + DD_BS <= u64::MAX,
    ensures
        ({
            let r = check_runs_from(total, done);
            &&& r.len() > 0
            &&& r[0].offset == done * DD_BS
            &&& forall|i: int| 0 <= i < r.len() - 1 ==> #[trigger] r[i + 1].offset == r[i].offset + r[i].length
            &&& forall|i: int| 0 <= i < r.len() ==> #[trigger] r[i].length > 0
            &&& r.last().offset + r.last().length == total
            &&& r.last().progress == total
        }),
    decreases blocks_of(total) - done,
{
    lemma_blocks_of(total);
    let count = nat_min((blocks_of(total) - done) as nat, SEG_BLOCKS as nat);
    let r = check_runs_from(total, done);
    let next = done + count;
    assert(done * DD_BS < total) by (nonlinear_arith)
        requires
            done < blocks_of(total),
            (blocks_of(total) - 1) * DD_BS < total,
            total > 0 || blocks_of(total) == 0,
    ;
    if next < blocks_of(total) {
        lemma_check_runs_from(total, next);
        assert(next * DD_BS < total) by (nonlinear_arith)
            requires
                next < blocks_of(total),
                (blocks_of(total) - 1) * DD_BS < total,
        ;
        let rest = check_runs_from(total, next);
        assert(r == seq![r[0]] + rest);
        assert(count * DD_BS < total - done * DD_BS) by (nonlinear_arith)
            requires
                next * DD_BS < total,
                next == done + count,
        ;
        assert(r[0].length == count * DD_BS);
        assert(r[1].offset == next * DD_BS);
        assert(next * DD_BS == done * DD_BS + count * DD_BS) by (nonlinear_arith)
            requires
                next == done + count,
        ;
        assert forall|i: int| 0 <= i < r.len() - 1 implies #[trigger] r[i + 1].offset == r[i].offset
            + r[i].length by {
            if i > 0 {
                assert(r[i] == rest[i - 1]);
                assert(r[i + 1] == rest[i]);
                assert(rest[(i - 1) + 1].offset == rest[i - 1].offset + rest[i - 1].length);
            }
        }
        assert forall|i: int| 0 <= i < r.len() implies #[trigger] r[i].length > 0 by {
            if i > 0 {
                assert(r[i] == rest[i - 1]);
            }
        }
    } else {
        assert(check_runs_from(total, next) =~= Seq::<CheckRun>::empty());
        assert(r.len() == 1);
    }
}

/// Checking in runs covers the image exactly: the runs follow one another from
/// offset 0 without gaps or overlaps, none is empty, the last ends at the image's
/// end and the progress then reports all of it; an empty image needs no run.
pub proof fn law_check_runs_cover(total: nat)
    requires
        total + DD_BS <= u64::MAX,
    ensures
        (check_runs(total).len() == 0) <==> (total == 0),
        check_runs(total).len() > 0 ==> ({
            let r = check_runs(total);
            &&& r[0].offset == 0
            &&& forall|i: int| 0 <= i < r.len() - 1 ==> #[trigger] r[i + 1].offset == r[i].offset + r[i].length
            &&& forall|i: int| 0 <= i < r.len() ==> #[trigger] r[i].length > 0
            &&& r.last().offset + r.last().length == total
            &&& r.last().progress == total
        }),
{
    lemma_blocks_of(total);
    if total > 0 {
        assert(blocks_of(total) > 0);
        lemma_check_runs_from(total, 0);
    } else {
        assert(blocks_of(total) == 0);
    }
}

/// The arguments of `cmp` for one segment of an image and a device.
pub fn check_run_args(seg: &CheckRun, image_path: &str, device_path: &str) -> (r: Vec<String>)
    ensures
        r@.len() == 6,
        r@[0]@ == "-i"@,
        r@[1]@ == decimal(seg.offset as nat) + ":"@ + decimal(seg.offset as nat),
        r@[2]@ == "-n"@,
        r@[3]@ == decimal(seg.length as nat),
        r@[4]@ == image_path@,
        r@[5]@ == device_path@,
{
    let off = u64_to_decimal(seg.offset);
    let skip = concat(concat(off.as_str(), ":").as_str(), off.as_str());
    let mut r: Vec<String> = Vec::new();
    r.push(String::from_str("-i"));
    r.push(skip);
    r.push(String::from_str("-n"));
    r.push(u64_to_decimal(seg.length));
    r.push(String::from_str(image_path));
    r.push(String::from_str(device_path));
    r
}

/// The text between the first and second occurrence of `p` in `s` (or the end), if
/// `p` occurs: the second piece of `str::split`.
pub open spec fn second_piece(s: Seq<char>, p: Seq<char>) -> Option<Seq<char>> {
    match find_from(s, p, 0) {
        None => None,
        Some(i) => {
            let rest = s.skip(i + p.len());
            Some(
                match find_from(rest, p, 0) {
                    Some(j) => rest.take(j),
                    None => rest,
                },
            )
        },
    }
}

/// The text before the first occurrence of `p` (all of it when there is none):
/// the first piece of `str::split`.
pub open spec fn first_piece(s: Seq<char>, p: Seq<char>) -> Seq<char> {
    match find_from(s, p, 0) {
        Some(j) => s.take(j),
        None => s,
    }
}

/// The character number in `cmp`'s report `... differ: char N, line M`, 1 when it
/// cannot be read.
pub open spec fn differ_char_number_spec(report: Seq<char>) -> u64 {
    match second_piece(report, "char "@) {
        Some(piece) => match parse_unsigned(trim(first_piece(piece, ","@)), u64::MAX as nat) {
            Some(n) => n as u64,
            None => 1,
        },
        None => 1,
    }
}

/// The character number in a `cmp` difference report.
pub fn differ_char_number(report: &str) -> (r: u64)
    ensures
        r == differ_char_number_spec(report@),
{
    let cs = chars_of(report);
    let p = chars_of("char ");
    let i = match find(&cs, &p, 0) {
        Some(i) => i,
        None => {
            return 1;
        },
    };
    proof {
        crate::text::lemma_find_some_bound(cs@, p@, 0);
    }
    let n = cs.len();
    assert(i + p@.len() <= n);
    let rest = crate::number::slice_vec(&cs, i + p.len(), n);
    assert(rest@ =~= cs@.skip(i + p@.len()));
    let piece = match find(&rest, &p, 0) {
        Some(j) => {
            proof {
                crate::text::lemma_find_some_bound(rest@, p@, 0);
            }
            let t = crate::number::slice_vec(&rest, 0, j);
            assert(t@ =~= rest@.take(j as int));
            t
        },
        None => rest,
    };
    let comma = chars_of(",");
    let head = match find(&piece, &comma, 0) {
        Some(j) => {
            proof {
                crate::text::lemma_find_some_bound(piece@, comma@, 0);
            }
            let t = crate::number::slice_vec(&piece, 0, j);
            assert(t@ =~= piece@.take(j as int));
            t
        },
        None => piece,
    };
    let (a, b) = trim_bounds(&head);
    let num = crate::number::slice_vec(&head, a, b);
    match parse_unsigned_chars(&num, u64::MAX) {
        Some(n) => n,
        None => 1,
    }
}

/// What a `cmp` run means for the check: exit code 0 passes, 1 reports a
/// difference at the given character of the segment starting at `offset`, and
/// anything else is a failure of `cmp` itself.
pub open spec fn check_run_verdict_spec(code: Option<i32>, char_no: u64, offset: u64, stderr: Seq<char>) -> Result<(), Seq<char>> {
    if code == Some(0i32) {
        Ok(())
    } else if code == Some(1i32) {
        Err(mismatch_text((offset + char_no - 1) as nat))
    } else {
        Err("校验命令失败: "@ + trim(stderr))
    }
}

/// What a `cmp` run means for the check.
pub fn check_run_verdict(code: Option<i32>, char_no: u64, offset: u64, stderr: &str) -> (r: Result<(), String>)
    requires
        code == Some(1i32) ==> 1 <= offset + char_no <= u64::MAX,
    ensures
        match (r, check_run_verdict_spec(code, char_no, offset, stderr@)) {
            (Ok(()), Ok(())) => true,
            (Err(a), Err(b)) => a@ == b,
            _ => false,
        },
{
    match code {
        Some(0) => Ok(()),
        Some(1) => Err(mismatch_message(offset + char_no - 1)),
        _ => Err(concat("校验命令失败: ", trimmed(stderr).as_str())),
    }
}

// ---------------------------------------------------------------------------
// Copying with `dd` in segments.
/// One `dd` run of `count` 4 MiB blocks from block `skip`, after which `progress`
/// bytes count as copied.
#[derive(Debug, Clone, Copy)]
pub struct DdSegment {
    pub skip: u64,
    pub count: u64,
    pub progress: u64,
}

/// The last partial block: `length` bytes from `offset`, written as `padded` bytes
/// (whole sectors, zero-filled) through a temporary file.
#[derive(Debug, Clone, Copy)]
pub struct DdTail {
    pub offset: u64,
    pub length: u64,
    pub padded: u64,
}

/// How `dd` copies `total` bytes: whole blocks in runs of at most 16, then the tail.
#[derive(Debug, Clone)]
pub struct DdPlan {
    pub segments: Vec<DdSegment>,
    pub tail: Option<DdTail>,
}

/// The runs over whole blocks from block `done` of `blocks`.
pub open spec fn dd_segments_from(blocks: nat, done: nat) -> Seq<DdSegment>
    decreases blocks - done,
{
    if done >= blocks {
        seq![]
    } else {
        let count = nat_min((blocks - done) as nat, SEG_BLOCKS as nat);
        seq![
            DdSegment {
                skip: done as u64,
                count: count as u64,
                progress: ((done + count) * DD_BS) as u64,
            },
        ] + dd_segments_from(blocks, done + count)
    }
}

/// Where the whole blocks of `total` bytes end.
pub open spec fn whole_blocks_end(total: nat) -> nat {
    (total - total % (DD_BS as nat)) as nat
}

/// The tail of `total` bytes past the whole blocks, if any.
pub open spec fn dd_tail_of(total: nat) -> Option<DdTail> {
    if total % (DD_BS as nat) == 0 {
        None
    } else {
        let rem = total - whole_blocks_end(total);
        Some(
            DdTail {
                offset: whole_blocks_end(total) as u64,
                length: rem as u64,
                padded: sector_ceil(rem as nat) as u64,
            },
        )
    }
}

/// How `dd` copies `total` bytes.
pub fn dd_plan(total: u64) -> (r: DdPlan)
    ensures
        r.segments@ == dd_segments_from(whole_blocks_end(total as nat) / (DD_BS as nat), 0),
        r.tail == dd_tail_of(total as nat),
{
    let tail_off = total - total % DD_BS;
    let blocks = tail_off / DD_BS;
    proof {
        assert(blocks * DD_BS == tail_off) by (nonlinear_arith)
            requires
                tail_off == total - total % DD_BS,
                blocks == tail_off / DD_BS,
        ;
    }
    let mut done: u64 = 0;
    let mut segs: Vec<DdSegment> = Vec::new();
    while done < blocks
        invariant
            blocks * DD_BS <= total,
            done <= blocks,
            segs@ + dd_segments_from(blocks as nat, done as nat) == dd_segments_from(
                blocks as nat,
                0,
            ),
        decreases blocks - done,
    {
        let count = if blocks - done < SEG_BLOCKS {
            blocks - done
        } else {
            SEG_BLOCKS
        };
        proof {
            assert((done + count) * DD_BS <= blocks * DD_BS) by (nonlinear_arith)
                requires
                    done + count <= blocks,
            ;
        }
        let seg = DdSegment { skip: done, count, progress: (done + count) * DD_BS };
        segs.push(seg);
        done = done + count;
        proof {
            assert(segs@ + dd_segments_from(blocks as nat, done as nat) =~= dd_segments_from(
                blocks as nat,
                0,
            ));
        }
    }
    assert(dd_segments_from(blocks as nat, done as nat) =~= Seq::<DdSegment>::empty());
    assert(segs@ =~= dd_segments_from(blocks as nat, 0));
    let tail = if total % DD_BS != 0 {
        let rem = total - tail_off;
        Some(DdTail { offset: tail_off, length: rem, padded: padded_len(rem) })
    } else {
        None
    };
    DdPlan { segments: segs, tail }
}

proof fn lemma_dd_segments_from(blocks: nat, done: nat)
    requires
        done < blocks,
        blocks * DD_BS <= u64::MAX,
    ensures
        ({
            let r = dd_segments_from(blocks, done);
            &&& r.len() > 0
            &&& r[0].skip == done
            &&& forall|i: int| 0 <= i < r.len() - 1 ==> #[trigger] r[i + 1].skip == r[i].skip + r[i].count
            &&& forall|i: int| 0 <= i < r.len() ==> 0 < #[trigger] r[i].count <= SEG_BLOCKS
            &&& r.last().skip + r.last().count == blocks
            &&& r.last().progress == blocks * DD_BS
        }),
    decreases blocks - done,
{
    let count = nat_min((blocks - done) as nat, SEG_BLOCKS as nat);
    let r = dd_segments_from(blocks, done);
    let next = done + count;
    if next < blocks {
        lemma_dd_segments_from(blocks, next);
        let rest = dd_segments_from(blocks, next);
        assert(r == seq![r[0]] + rest);
        assert(r[1].skip == next);
        assert forall|i: int| 0 <= i < r.len() - 1 implies #[trigger] r[i + 1].skip == r[i].skip
            + r[i].count by {
            if i > 0 {
                assert(r[i] == rest[i - 1]);
                assert(r[i + 1] == rest[i]);
                assert(rest[(i - 1) + 1].skip == rest[i - 1].skip + rest[i - 1].count);
            }
        }
        assert forall|i: int| 0 <= i < r.len() implies 0 < #[trigger] r[i].count <= SEG_BLOCKS by {
            if i > 0 {
                assert(r[i] == rest[i - 1]);
            }
        }
    } else {
        assert(dd_segments_from(blocks, next) =~= Seq::<DdSegment>::empty());
        assert(r.len() == 1);
        assert(next == blocks);
    }
}

/// Copying with `dd` covers the image exactly: the runs over whole blocks follow
/// one another from block 0, at most 16 blocks each, up to the end of the whole
/// blocks; the tail, if any, goes from there to the end, padded to whole sectors.
pub proof fn law_dd_plan_covers(total: nat)
    requires
        total <= u64::MAX,
    ensures
        ({
            let blocks = whole_blocks_end(total) / (DD_BS as nat);
            let r = dd_segments_from(blocks, 0);
            &&& blocks * DD_BS == whole_blocks_end(total)
            &&& whole_blocks_end(total) <= total
            &&& (r.len() == 0) <==> (blocks == 0)
            &&& r.len() > 0 ==> r[0].skip == 0 && r.last().skip + r.last().count == blocks
                && r.last().progress == whole_blocks_end(total)
            &&& forall|i: int| 0 <= i < r.len() - 1 ==> #[trigger] r[i + 1].skip == r[i].skip + r[i].count
            &&& forall|i: int| 0 <= i < r.len() ==> 0 < #[trigger] r[i].count <= SEG_BLOCKS
            &&& match dd_tail_of(total) {
                Some(t) => t.offset == whole_blocks_end(total) && t.offset + t.length == total
                    && 0 < t.length < DD_BS && t.length <= t.padded && t.padded % 512 == 0,
                None => whole_blocks_end(total) == total,
            }
        }),
{
    let w = whole_blocks_end(total);
    let blocks = w / (DD_BS as nat);
    assert(blocks * DD_BS == w && w <= total) by (nonlinear_arith)
        requires
            w == total - total % (DD_BS as nat),
            blocks == w / (DD_BS as nat),
    ;
    if blocks > 0 {
        lemma_dd_segments_from(blocks, 0);
    }
    if total % (DD_BS as nat) != 0 {
        law_sector_ceil((total - w) as nat);
    }
}

/// The arguments of `dd` for one run over whole blocks.
pub fn dd_segment_args(input: &str, output: &str, seg: &DdSegment) -> (r: Vec<String>)
    ensures
        r@.len() == 6,
        r@[0]@ == "if="@ + input@,
        r@[1]@ == "of="@ + output@,
        r@[2]@ == "bs="@ + decimal(DD_BS as nat),
        r@[3]@ == "skip="@ + decimal(seg.skip as nat),
        r@[4]@ == "seek="@ + decimal(seg.skip as nat),
        r@[5]@ == "count="@ + decimal(seg.count as nat),
{
    let mut r: Vec<String> = Vec::new();
    r.push(concat("if=", input));
    r.push(concat("of=", output));
    r.push(concat("bs=", u64_to_decimal(DD_BS).as_str()));
    r.push(concat("skip=", u64_to_decimal(seg.skip).as_str()));
    r.push(concat("seek=", u64_to_decimal(seg.skip).as_str()));
    r.push(concat("count=", u64_to_decimal(seg.count).as_str()));
    r
}

/// The arguments of `dd` that write the padded tail from a temporary file.
pub fn dd_tail_args(tmp: &str, output: &str, tail: &DdTail) -> (r: Vec<String>)
    ensures
        r@.len() == 5,
        r@[0]@ == "if="@ + tmp@,
        r@[1]@ == "of="@ + output@,
        r@[2]@ == "bs=512"@,
        r@[3]@ == "seek="@ + decimal((tail.offset / 512) as nat),
        r@[4]@ == "count="@ + decimal((tail.padded / 512) as nat),
{
    let mut r: Vec<String> = Vec::new();
    r.push(concat("if=", tmp));
    r.push(concat("of=", output));
    r.push(String::from_str("bs=512"));
    r.push(concat("seek=", u64_to_decimal(tail.offset / 512).as_str()));
    r.push(concat("count=", u64_to_decimal(tail.padded / 512).as_str()));
    r
}

/// The temporary file that holds the padded tail while `dd` writes it.
pub fn tail_temp_path(pid: u32) -> (r: String)
    ensures
        r@ == "/tmp/flash-helper-tail-"@ + decimal(pid as nat) + ".bin"@,
{
    concat(concat("/tmp/flash-helper-tail-", u64_to_decimal(pid as u64).as_str()).as_str(), ".bin")
}

/// The text of an exit code as `{:?}` prints an `Option<i32>`.
pub open spec fn debug_exit_code(code: Option<i32>) -> Seq<char> {
    match code {
        Some(c) => "Some("@ + crate::number::signed_decimal(c as int) + ")"@,
        None => "None"@,
    }
}

fn exit_code_text(code: Option<i32>) -> (r: String)
    ensures
        r@ == debug_exit_code(code),
{
    match code {
        Some(c) => concat(concat("Some(", crate::number::i32_to_decimal(c).as_str()).as_str(), ")"),
        None => String::from_str("None"),
    }
}

/// The message for a failed `dd` run over whole blocks.
pub fn dd_failure(code: Option<i32>, stderr: &str) -> (r: String)
    ensures
        r@ == "写入失败：dd 退出码 "@ + debug_exit_code(code) + "，错误: "@ + trim(stderr@),
{
    concat(
        concat(concat("写入失败：dd 退出码 ", exit_code_text(code).as_str()).as_str(), "，错误: ").as_str(),
        trimmed(stderr).as_str(),
    )
}

/// The message for a failed `dd` run over the tail.
pub fn dd_tail_failure(code: Option<i32>, stderr: &str) -> (r: String)
    ensures
        r@ == "写入尾部失败：dd 退出码 "@ + debug_exit_code(code) + "，错误: "@ + trim(stderr@),
{
    concat(
        concat(concat("写入尾部失败：dd 退出码 ", exit_code_text(code).as_str()).as_str(), "，错误: ").as_str(),
        trimmed(stderr).as_str(),
    )
}

/// What an export covers: the whole device only when the length is `u64::MAX`;
/// otherwise the asked range, starting where asked (or at the device's end when
/// that lies beyond it), never longer than asked, and cut only at the device's
/// end. The window always lies within the device.
pub proof fn law_export_window_is_the_asked_range(start: u64, length: u64, total: u64)
    ensures
        export_window_spec(start, length, total).0 + export_window_spec(start, length, total).1
            <= total,
        length == u64::MAX ==> export_window_spec(start, length, total) == (0u64, total),
        length != u64::MAX ==> export_window_spec(start, length, total).0 == (if start <= total {
            start
        } else {
            total
        }),
        length != u64::MAX ==> export_window_spec(start, length, total).1 <= length,
        length != u64::MAX && start + length <= total ==> export_window_spec(start, length, total)
            == (start, length),
        length != u64::MAX && start + length > total ==> export_window_spec(start, length, total).0
            + export_window_spec(start, length, total).1 == total,
{
}

} // verus!
