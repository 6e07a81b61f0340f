//! Names of devices as the helper uses them, and the size of a device as
//! `diskutil` reports it.

use vstd::prelude::*;
use vstd::string::*;
use crate::number::{parse_unsigned, parse_unsigned_chars};
use crate::platform::Platform;
use crate::text::{
    chars_of, concat, has_infix, has_prefix, has_suffix, lines, lines_of, starts_with, ends_with,
    contains, sub_string, trim, trim_bounds, views, opt_view,
};

verus! {

/// The raw (unbuffered) node of a device: on macOS `/dev/diskN` becomes
/// `/dev/rdiskN`; other paths, and other platforms, are unchanged.
pub open spec fn raw_device_path(path: Seq<char>, platform: Platform) -> Seq<char> {
    if platform == Platform::MacOs && has_prefix(path, "/dev/disk"@) {
        "/dev/rdisk"@ + path.skip(9)
    } else {
        path
    }
}

/// The raw node of a device.
pub fn raw_device(path: &str, platform: Platform) -> (r: String)
    ensures
        r@ == raw_device_path(path@, platform),
{
    let cs = chars_of(path);
    let prefix = chars_of("/dev/disk");
    if platform == Platform::MacOs && starts_with(&cs, &prefix) {
        proof {
            reveal_strlit("/dev/disk");
        }
        concat("/dev/rdisk", sub_string(path, 9, cs.len()).as_str())
    } else {
        String::from_str(path)
    }
}

/// Taking the raw node of a raw node changes nothing.
pub proof fn law_raw_device_idempotent(path: Seq<char>, platform: Platform)
    ensures
        raw_device_path(raw_device_path(path, platform), platform) == raw_device_path(
            path,
            platform,
        ),
{
    reveal_strlit("/dev/disk");
    reveal_strlit("/dev/rdisk");
    let r = raw_device_path(path, platform);
    if platform == Platform::MacOs && has_prefix(path, "/dev/disk"@) {
        assert(r[5] == 'r');
        assert("/dev/disk"@[5] == 'd');
        assert(r.subrange(0, 9)[5] == 'r');
    }
}

/// The disk to unmount before writing: on macOS, `diskN` for `/dev/diskN`.
pub open spec fn unmount_disk(path: Seq<char>, platform: Platform) -> Option<Seq<char>> {
    if platform == Platform::MacOs && has_prefix(path, "/dev/disk"@) {
        Some("disk"@ + path.skip(9))
    } else {
        None
    }
}

/// The disk to unmount (with `diskutil unmountDisk force`) before writing, if any.
pub fn unmount_target(path: &str, platform: Platform) -> (r: Option<String>)
    ensures
        opt_view(r) == unmount_disk(path@, platform),
{
    let cs = chars_of(path);
    if platform == Platform::MacOs && starts_with(&cs, &chars_of("/dev/disk")) {
        proof {
            reveal_strlit("/dev/disk");
        }
        Some(concat("disk", sub_string(path, 9, cs.len()).as_str()))
    } else {
        None
    }
}

/// `s` with every leading repetition of `p` removed (`str::trim_start_matches`).
pub open spec fn strip_all_prefix(s: Seq<char>, p: Seq<char>) -> Seq<char>
    decreases s.len(),
{
    if p.len() > 0 && has_prefix(s, p) {
        strip_all_prefix(s.skip(p.len() as int), p)
    } else {
        s
    }
}

/// Where `strip_all_prefix(s[from..], p)` starts in `s`.
fn strip_all_prefix_at(s: &Vec<char>, p: &Vec<char>, from: usize) -> (k: usize)
    requires
        from <= s@.len(),
    ensures
        from <= k <= s@.len(),
        strip_all_prefix(s@.skip(from as int), p@) == s@.skip(k as int),
{
    let n = s.len();
    let mut k = from;
    while p.len() > 0 && crate::text::matches_at(s, p, k)
        invariant
            n == s@.len(),
            from <= k <= s@.len(),
            strip_all_prefix(s@.skip(from as int), p@) == strip_all_prefix(s@.skip(k as int), p@),
        decreases s@.len() - k,
    {
        assert(s@.skip(k as int).subrange(0, p@.len() as int) =~= s@.subrange(
            k as int,
            k + p@.len(),
        ));
        assert(s@.skip(k as int).skip(p@.len() as int) =~= s@.skip(k + p@.len()));
        k = k + p.len();
    }
    proof {
        if p@.len() > 0 {
            assert(s@.skip(k as int).len() < p@.len() || s@.skip(k as int).subrange(
                0,
                p@.len() as int,
            ) =~= s@.subrange(k as int, k + p@.len()));
        }
    }
    k
}

/// The disk name `diskutil` is asked about for a device path: the path with
/// leading `/dev/`, then `rdisk`, then `disk` repetitions removed, after `disk`.
pub open spec fn diskutil_name(path: Seq<char>) -> Seq<char> {
    "disk"@ + strip_all_prefix(
        strip_all_prefix(strip_all_prefix(path, "/dev/"@), "rdisk"@),
        "disk"@,
    )
}

/// The disk name to pass to `diskutil info -plist`.
pub fn diskutil_disk(path: &str) -> (r: String)
    ensures
        r@ == diskutil_name(path@),
{
    let cs = chars_of(path);
    assert(cs@.skip(0) =~= cs@);
    let a = strip_all_prefix_at(&cs, &chars_of("/dev/"), 0);
    let b = strip_all_prefix_at(&cs, &chars_of("rdisk"), a);
    let c = strip_all_prefix_at(&cs, &chars_of("disk"), b);
    assert(cs@.skip(c as int) =~= cs@.subrange(c as int, cs@.len() as int));
    concat("disk", sub_string(path, c, cs.len()).as_str())
}

/// The number on a `<integer>N</integer>` line (surrounding whitespace allowed).
pub open spec fn integer_value(line: Seq<char>) -> Option<u64> {
    let t = trim(line);
    if has_prefix(t, "<integer>"@) && has_suffix(t.skip(9), "</integer>"@) {
        let rest = t.skip(9);
        match parse_unsigned(rest.take(rest.len() - 10), u64::MAX as nat) {
            Some(v) => Some(v as u64),
            None => None,
        }
    } else {
        None
    }
}

/// The first size found from line `i` on: a line holding `<key>Size</key>` whose
/// next line is an integer.
pub open spec fn plist_size_from(ls: Seq<Seq<char>>, i: int) -> Option<u64>
    decreases ls.len() - i,
{
    if i < 0 || i >= ls.len() {
        None
    } else if has_infix(ls[i], "<key>Size</key>"@) && i + 1 < ls.len() && integer_value(
        ls[i + 1],
    ) is Some {
        integer_value(ls[i + 1])
    } else {
        plist_size_from(ls, i + 1)
    }
}

/// The size `diskutil info -plist` reports.
pub open spec fn plist_size(plist: Seq<char>) -> Option<u64> {
    plist_size_from(lines(plist), 0)
}

fn integer_line(line: &Vec<char>) -> (r: Option<u64>)
    ensures
        r == integer_value(line@),
{
    let (a, b) = trim_bounds(line);
    let t = crate::number::slice_vec(line, a, b);
    let open = chars_of("<integer>");
    let close = chars_of("</integer>");
    proof {
        reveal_strlit("<integer>");
        reveal_strlit("</integer>");
    }
    if !starts_with(&t, &open) {
        return None;
    }
    let rest = crate::number::slice_vec(&t, 9, t.len());
    assert(rest@ =~= t@.skip(9));
    if !ends_with(&rest, &close) {
        return None;
    }
    let num = crate::number::slice_vec(&rest, 0, rest.len() - 10);
    assert(num@ =~= rest@.take(rest@.len() - 10));
    parse_unsigned_chars(&num, u64::MAX)
}

/// The size of the disk in the output of `diskutil info -plist`, if it gives one.
pub fn size_from_plist(plist: &str) -> (r: Option<u64>)
    ensures
        r == plist_size(plist@),
{
    let ls = lines_of(&chars_of(plist));
    let key = chars_of("<key>Size</key>");
    let mut i: usize = 0;
    while i < ls.len()
        invariant
            i <= ls@.len(),
            key@ == "<key>Size</key>"@,
            plist_size(plist@) == plist_size_from(views(ls@), i as int),
            views(ls@) == lines(plist@),
        decreases ls@.len() - i,
    {
        assert(views(ls@)[i as int] == ls@[i as int]@);
        if contains(&ls[i], &key) && i + 1 < ls.len() {
            assert(views(ls@)[i + 1] == ls@[i + 1]@);
            let v = integer_line(&ls[i + 1]);
            if v.is_some() {
                return v;
            }
        }
        i = i + 1;
    }
    None
}

/// The size of a device for an export: on macOS from `diskutil`'s output (or the
/// error that running it gave), else from the file system's idea of its length;
/// other platforms cannot export.
pub open spec fn device_size_result(
    platform: Platform,
    diskutil: Result<Seq<char>, Seq<char>>,
    fallback_len: Option<u64>,
) -> Result<u64, Seq<char>> {
    if platform != Platform::MacOs {
        Err("此平台暂不支持导出功能"@)
    } else {
        match diskutil {
            Err(e) => Err("无法执行 diskutil: "@ + e),
            Ok(out) => match plist_size(out) {
                Some(n) => Ok(n),
                None => match fallback_len {
                    Some(n) => Ok(n),
                    None => Err("无法获取设备大小（diskutil 输出解析失败）"@),
                },
            },
        }
    }
}

/// The size of a device for an export.
pub fn device_size(platform: Platform, diskutil: &Result<String, String>, fallback_len: Option<u64>) -> (r: Result<u64, String>)
    ensures
        match (r, device_size_result(
            platform,
            match diskutil {
                Ok(s) => Ok(s@),
                Err(e) => Err(e@),
            },
            fallback_len,
        )) {
            (Ok(a), Ok(b)) => a == b,
            (Err(a), Err(b)) => a@ == b,
            _ => false,
        },
{
    if platform != Platform::MacOs {
        return Err(String::from_str("此平台暂不支持导出功能"));
    }
    match diskutil {
        Err(e) => Err(concat("无法执行 diskutil: ", e.as_str())),
        Ok(out) => match size_from_plist(out.as_str()) {
            Some(n) => Ok(n),
            None => match fallback_len {
                Some(n) => Ok(n),
                None => Err(String::from_str("无法获取设备大小（diskutil 输出解析失败）")),
            },
        },
    }
}

} // verus!
