//! Character-level text utilities with mathematical specifications.

use vstd::prelude::*;
use vstd::string::*;

verus! {

/// Unicode `White_Space`, the set of characters that `char::is_whitespace` accepts.
pub open spec fn is_ws(c: char) -> bool {
    ||| ('\u{9}' <= c && c <= '\u{d}')
    ||| c == ' '
    ||| c == '\u{85}'
    ||| c == '\u{a0}'
    ||| c == '\u{1680}'
    ||| ('\u{2000}' <= c && c <= '\u{200a}')
    ||| c == '\u{2028}'
    ||| c == '\u{2029}'
    ||| c == '\u{202f}'
    ||| c == '\u{205f}'
    ||| c == '\u{3000}'
}

/// The text without its leading whitespace.
pub open spec fn trim_start(s: Seq<char>) -> Seq<char>
    decreases s.len(),
{
    if s.len() > 0 && is_ws(s[0]) {
        trim_start(s.drop_first())
    } else {
        s
    }
}

/// The text without its trailing whitespace.
pub open spec fn trim_end(s: Seq<char>) -> Seq<char>
    decreases s.len(),
{
    if s.len() > 0 && is_ws(s.last()) {
        trim_end(s.drop_last())
    } else {
        s
    }
}

/// The text without leading and trailing whitespace (what `str::trim` gives).
pub open spec fn trim(s: Seq<char>) -> Seq<char> {
    trim_end(trim_start(s))
}

pub fn char_is_ws(c: char) -> (b: bool)
    ensures
        b == is_ws(c),
{
    ('\u{9}' <= c && c <= '\u{d}') || c == ' ' || c == '\u{85}' || c == '\u{a0}' || c == '\u{1680}'
        || ('\u{2000}' <= c && c <= '\u{200a}') || c == '\u{2028}' || c == '\u{2029}' || c
        == '\u{202f}' || c == '\u{205f}' || c == '\u{3000}'
}

/// The characters of a string slice, in order.
pub fn chars_of(s: &str) -> (v: Vec<char>)
    ensures
        v@ == s@,
{
    let mut v: Vec<char> = Vec::new();
    for c in it: s.chars()
        invariant
            v@ == it.seq().take(it.index() as int),
    {
        v.push(c);
        assert(v@ == it.seq().take(it.index() + 1));
    }
    v
}


/// The characters of `s` from index `from` up to `to`, as an owned string.
pub fn sub_string(s: &str, from: usize, to: usize) -> (r: String)
    requires
        from <= to <= s@.len(),
    ensures
        r@ == s@.subrange(from as int, to as int),
{
    s.substring_char(from, to).to_owned()
}

/// Index of the first character of `s` that is not whitespace (`s.len()` when none is).
fn first_non_ws(s: &Vec<char>) -> (k: usize)
    ensures
        k <= s@.len(),
        trim_start(s@) == s@.subrange(k as int, s@.len() as int),
{
    let mut k: usize = 0;
    assert(s@.subrange(0, s@.len() as int) == s@);
    while k < s.len() && char_is_ws(s[k])
        invariant
            k <= s@.len(),
            trim_start(s@) == trim_start(s@.subrange(k as int, s@.len() as int)),
        decreases s@.len() - k,
    {
        assert(s@.subrange(k as int, s@.len() as int).drop_first() == s@.subrange(
            k + 1,
            s@.len() as int,
        ));
        k = k + 1;
    }
    k
}

/// One past the index of the last character of `s[from..]` that is not whitespace.
fn last_non_ws(s: &Vec<char>, from: usize) -> (k: usize)
    requires
        from <= s@.len(),
    ensures
        from <= k <= s@.len(),
        trim_end(s@.subrange(from as int, s@.len() as int)) == s@.subrange(from as int, k as int),
{
    let mut k: usize = s.len();
    assert(s@.subrange(from as int, s@.len() as int) == s@.subrange(from as int, k as int));
    while k > from && char_is_ws(s[k - 1])
        invariant
            from <= k <= s@.len(),
            trim_end(s@.subrange(from as int, s@.len() as int)) == trim_end(
                s@.subrange(from as int, k as int),
            ),
        decreases k,
    {
        assert(s@.subrange(from as int, k as int).drop_last() == s@.subrange(
            from as int,
            k - 1,
        ));
        k = k - 1;
    }
    k
}

/// The bounds of `trim(s)` inside `s`.
pub fn trim_bounds(s: &Vec<char>) -> (r: (usize, usize))
    ensures
        r.0 <= r.1 <= s@.len(),
        trim(s@) == s@.subrange(r.0 as int, r.1 as int),
{
    let a = first_non_ws(s);
    let b = last_non_ws(s, a);
    (a, b)
}

/// `s` without leading and trailing whitespace, as an owned string.
pub fn trimmed(s: &str) -> (r: String)
    ensures
        r@ == trim(s@),
{
    let v = chars_of(s);
    let (a, b) = trim_bounds(&v);
    sub_string(s, a, b)
}

/// Whether `p` occurs in `s` starting at index `i`.
pub open spec fn occurs_at(s: Seq<char>, p: Seq<char>, i: int) -> bool {
    0 <= i && i + p.len() <= s.len() && s.subrange(i, i + p.len()) == p
}

/// Whether `s` begins with `p`.
pub open spec fn has_prefix(s: Seq<char>, p: Seq<char>) -> bool {
    occurs_at(s, p, 0)
}

/// Whether `s` ends with `p`.
pub open spec fn has_suffix(s: Seq<char>, p: Seq<char>) -> bool {
    occurs_at(s, p, s.len() - p.len())
}

/// Whether `p` occurs anywhere in `s`.
pub open spec fn has_infix(s: Seq<char>, p: Seq<char>) -> bool {
    exists|i: int| occurs_at(s, p, i)
}

/// The first index at or after `i` where `p` occurs in `s`.
pub open spec fn find_from(s: Seq<char>, p: Seq<char>, i: int) -> Option<int>
    decreases s.len() + 1 - i,
{
    if i < 0 || i + p.len() > s.len() {
        None
    } else if occurs_at(s, p, i) {
        Some(i)
    } else {
        find_from(s, p, i + 1)
    }
}

/// Whether `p` occurs in `s` at index `i`.
pub fn matches_at(s: &Vec<char>, p: &Vec<char>, i: usize) -> (b: bool)
    ensures
        b == occurs_at(s@, p@, i as int),
{
    if i > s.len() || p.len() > s.len() - i {
        return false;
    }
    let n = s.len();
    let mut j: usize = 0;
    while j < p.len()
        invariant
            n == s@.len(),
            i <= s@.len(),
            i + p@.len() <= s@.len(),
            j <= p@.len(),
            forall|k: int| 0 <= k < j ==> s@[i + k] == p@[k],
        decreases p@.len() - j,
    {
        assert(i + j < s@.len());
        let k: usize = i + j;
        if s[k] != p[j] {
            assert(s@.subrange(i as int, i + p@.len())[j as int] != p@[j as int]);
            return false;
        }
        j = j + 1;
    }
    assert(s@.subrange(i as int, i + p@.len()) =~= p@);
    true
}

pub fn starts_with(s: &Vec<char>, p: &Vec<char>) -> (b: bool)
    ensures
        b == has_prefix(s@, p@),
{
    matches_at(s, p, 0)
}

pub fn ends_with(s: &Vec<char>, p: &Vec<char>) -> (b: bool)
    ensures
        b == has_suffix(s@, p@),
{
    if p.len() > s.len() {
        false
    } else {
        matches_at(s, p, s.len() - p.len())
    }
}

proof fn lemma_find_from_none(s: Seq<char>, p: Seq<char>, i: int)
    requires
        0 <= i,
        find_from(s, p, i) is None,
    ensures
        forall|k: int| i <= k ==> !occurs_at(s, p, k),
    decreases s.len() + 1 - i,
{
    if i + p.len() <= s.len() {
        lemma_find_from_none(s, p, i + 1);
    }
}

proof fn lemma_find_from_some(s: Seq<char>, p: Seq<char>, i: int)
    requires
        0 <= i,
        find_from(s, p, i) is Some,
    ensures
        occurs_at(s, p, find_from(s, p, i)->0),
        i <= find_from(s, p, i)->0,
        forall|k: int| i <= k < find_from(s, p, i)->0 ==> !occurs_at(s, p, k),
    decreases s.len() + 1 - i,
{
    if !occurs_at(s, p, i) {
        lemma_find_from_some(s, p, i + 1);
    }
}

/// First occurrence of `p` in `s` at or after `from`.
pub fn find(s: &Vec<char>, p: &Vec<char>, from: usize) -> (r: Option<usize>)
    ensures
        r matches Some(k) ==> find_from(s@, p@, from as int) == Some(k as int),
        r is None ==> find_from(s@, p@, from as int) is None,
{
    if from > s.len() {
        return None;
    }
    let mut i = from;
    while i < s.len()
        invariant
            from <= i <= s@.len(),
            find_from(s@, p@, from as int) == find_from(s@, p@, i as int),
        decreases s@.len() - i,
    {
        if matches_at(s, p, i) {
            return Some(i);
        }
        i = i + 1;
    }
    assert(find_from(s@, p@, i + 1) is None);
    if matches_at(s, p, i) {
        Some(i)
    } else {
        None
    }
}

/// A found occurrence lies within the text.
pub proof fn lemma_find_some_bound(s: Seq<char>, p: Seq<char>, i: int)
    requires
        0 <= i,
        find_from(s, p, i) is Some,
    ensures
        i <= find_from(s, p, i)->0,
        find_from(s, p, i)->0 + p.len() <= s.len(),
        occurs_at(s, p, find_from(s, p, i)->0),
{
    lemma_find_from_some(s, p, i);
}

/// Whether `p` occurs anywhere in `s` (what `str::contains` answers).
pub fn contains(s: &Vec<char>, p: &Vec<char>) -> (b: bool)
    ensures
        b == has_infix(s@, p@),
{
    let r = find(s, p, 0);
    proof {
        if r is Some {
            lemma_find_from_some(s@, p@, 0);
        } else {
            lemma_find_from_none(s@, p@, 0);
            assert forall|k: int| !occurs_at(s@, p@, k) by {
                if k >= 0 {
                }
            }
        }
    }
    r.is_some()
}

/// A line without the carriage return that ended it, if any.
pub open spec fn strip_cr(l: Seq<char>) -> Seq<char> {
    if l.len() > 0 && l.last() == '\r' {
        l.drop_last()
    } else {
        l
    }
}

/// Reading `s` left to right: the lines closed by a line feed so far, and the open line.
pub open spec fn line_scan(s: Seq<char>) -> (Seq<Seq<char>>, Seq<char>)
    decreases s.len(),
{
    if s.len() == 0 {
        (seq![], seq![])
    } else {
        let (done, cur) = line_scan(s.drop_last());
        if s.last() == '\n' {
            (done.push(strip_cr(cur)), seq![])
        } else {
            (done, cur.push(s.last()))
        }
    }
}

/// The lines of `s` as `str::lines` yields them: split at `\n`, a `\r` before the `\n`
/// dropped, and no empty line after a final `\n`.
pub open spec fn lines(s: Seq<char>) -> Seq<Seq<char>> {
    let (done, cur) = line_scan(s);
    if cur.len() > 0 {
        done.push(cur)
    } else {
        done
    }
}

pub open spec fn views(v: Seq<Vec<char>>) -> Seq<Seq<char>> {
    v.map_values(|l: Vec<char>| l@)
}

/// The lines of `s`.
pub fn lines_of(s: &Vec<char>) -> (r: Vec<Vec<char>>)
    ensures
        views(r@) == lines(s@),
{
    let mut done: Vec<Vec<char>> = Vec::new();
    let mut cur: Vec<char> = Vec::new();
    let mut i: usize = 0;
    while i < s.len()
        invariant
            i <= s@.len(),
            (views(done@), cur@) == line_scan(s@.take(i as int)),
        decreases s@.len() - i,
    {
        assert(s@.take(i + 1).drop_last() == s@.take(i as int));
        let c = s[i];
        if c == '\n' {
            let mut line = cur;
            if line.len() > 0 && line[line.len() - 1] == '\r' {
                line.pop();
            }
            done.push(line);
            cur = Vec::new();
        } else {
            cur.push(c);
        }
        assert(views(done@) =~= line_scan(s@.take(i + 1)).0);
        i = i + 1;
    }
    assert(s@.take(s@.len() as int) == s@);
    if cur.len() > 0 {
        done.push(cur);
    }
    assert(views(done@) =~= lines(s@));
    done
}


/// Where the last line of `s` (as `lines` gives it) lies in `s`; `None` when `s`
/// has no line.
pub fn last_line_bounds(s: &Vec<char>) -> (r: Option<(usize, usize)>)
    ensures
        r is None <==> lines(s@).len() == 0,
        r matches Some((a, b)) ==> a <= b <= s@.len() && lines(s@).last() == s@.subrange(
            a as int,
            b as int,
        ),
{
    let mut last: Option<(usize, usize)> = None;
    let mut start: usize = 0;
    let mut i: usize = 0;
    while i < s.len()
        invariant
            start <= i <= s@.len(),
            line_scan(s@.take(i as int)).1 == s@.subrange(start as int, i as int),
            last is None <==> line_scan(s@.take(i as int)).0.len() == 0,
            last matches Some((a, b)) ==> a <= b <= i && line_scan(s@.take(i as int)).0.last()
                == s@.subrange(a as int, b as int),
        decreases s@.len() - i,
    {
        assert(s@.take(i + 1).drop_last() == s@.take(i as int));
        assert(s@.take(i + 1).last() == s@[i as int]);
        let ghost cur = s@.subrange(start as int, i as int);
        if s[i] == '\n' {
            let end = if i > start && s[i - 1] == '\r' {
                i - 1
            } else {
                i
            };
            proof {
                if i > start && s@[i - 1] == '\r' {
                    assert(cur.drop_last() =~= s@.subrange(start as int, end as int));
                } else {
                    assert(cur =~= s@.subrange(start as int, end as int));
                }
            }
            last = Some((start, end));
            start = i + 1;
            assert(s@.subrange(start as int, i + 1) =~= Seq::<char>::empty());
        } else {
            assert(cur.push(s@[i as int]) =~= s@.subrange(start as int, i + 1));
        }
        i = i + 1;
    }
    assert(s@.take(s@.len() as int) =~= s@);
    if start < s.len() {
        Some((start, s.len()))
    } else {
        last
    }
}

/// Whether two character vectors hold the same text.
pub fn same_chars(a: &Vec<char>, b: &Vec<char>) -> (r: bool)
    ensures
        r == (a@ == b@),
{
    if a.len() != b.len() {
        return false;
    }
    let mut i: usize = 0;
    while i < a.len()
        invariant
            a@.len() == b@.len(),
            i <= a@.len(),
            forall|k: int| 0 <= k < i ==> a@[k] == b@[k],
        decreases a@.len() - i,
    {
        if a[i] != b[i] {
            return false;
        }
        i = i + 1;
    }
    assert(a@ =~= b@);
    true
}

/// Whether two strings are equal.
pub fn eq_str(a: &str, b: &str) -> (r: bool)
    ensures
        r == (a@ == b@),
{
    same_chars(&chars_of(a), &chars_of(b))
}

/// `a` followed by `b`.
pub fn concat(a: &str, b: &str) -> (r: String)
    ensures
        r@ == a@ + b@,
{
    let mut r = String::from_str(a);
    r.append(b);
    r
}


// ---------------------------------------------------------------------------
// UTF-16 and UTF-8.
/// The UTF-16 code units of a character.
pub open spec fn utf16_units(c: char) -> Seq<u16> {
    let v = c as u32;
    if v < 0x10000 {
        seq![v as u16]
    } else {
        let w = (v - 0x10000) as u32;
        seq![(0xD800 + w / 1024) as u16, (0xDC00 + w % 1024) as u16]
    }
}

/// The UTF-16 encoding of a text.
pub open spec fn utf16(s: Seq<char>) -> Seq<u16>
    decreases s.len(),
{
    if s.len() == 0 {
        seq![]
    } else {
        utf16(s.drop_last()) + utf16_units(s.last())
    }
}

/// The UTF-16 encoding of `s` followed by a NUL unit, as Windows APIs take strings.
pub fn wide_str(s: &str) -> (r: Vec<u16>)
    ensures
        r@ == utf16(s@).push(0),
{
    let cs = chars_of(s);
    let mut r: Vec<u16> = Vec::new();
    let mut i: usize = 0;
    while i < cs.len()
        invariant
            i <= cs@.len(),
            r@ == utf16(cs@.take(i as int)),
        decreases cs@.len() - i,
    {
        assert(cs@.take(i + 1).drop_last() =~= cs@.take(i as int));
        let v = cs[i] as u32;
        if v < 0x10000 {
            r.push(v as u16);
        } else {
            let w = v - 0x10000;
            r.push((0xD800 + w / 1024) as u16);
            r.push((0xDC00 + w % 1024) as u16);
        }
        assert(r@ =~= utf16(cs@.take(i + 1)));
        i = i + 1;
    }
    assert(cs@.take(i as int) =~= cs@);
    r.push(0);
    r
}

pub open spec fn is_high_surrogate(u: u16) -> bool {
    0xD800 <= u && u <= 0xDBFF
}

pub open spec fn is_low_surrogate(u: u16) -> bool {
    0xDC00 <= u && u <= 0xDFFF
}

/// Decoding UTF-16 with each unpaired surrogate replaced by U+FFFD, as
/// `char::decode_utf16` followed by the replacement does it.
pub open spec fn utf16_lossy(u: Seq<u16>) -> Seq<char>
    decreases u.len(),
{
    if u.len() == 0 {
        seq![]
    } else if is_high_surrogate(u[0]) && u.len() >= 2 && is_low_surrogate(u[1]) {
        seq![((u[0] - 0xD800) * 0x400 + (u[1] - 0xDC00) + 0x10000) as char] + utf16_lossy(
            u.skip(2),
        )
    } else if is_high_surrogate(u[0]) || is_low_surrogate(u[0]) {
        seq!['\u{FFFD}'] + utf16_lossy(u.skip(1))
    } else {
        seq![u[0] as char] + utf16_lossy(u.skip(1))
    }
}

proof fn lemma_utf16_concat(a: Seq<char>, b: Seq<char>)
    ensures
        utf16(a + b) == utf16(a) + utf16(b),
    decreases b.len(),
{
    if b.len() == 0 {
        assert(a + b =~= a);
        assert(utf16(b) =~= Seq::<u16>::empty());
        assert(utf16(a) + utf16(b) =~= utf16(a));
    } else {
        lemma_utf16_concat(a, b.drop_last());
        assert((a + b).drop_last() =~= a + b.drop_last());
        assert((a + b).last() == b.last());
        assert(utf16(a) + utf16(b) =~= utf16(a) + utf16(b.drop_last()) + utf16_units(b.last()));
    }
}

proof fn lemma_utf16_char_decodes(c: char, rest: Seq<u16>)
    ensures
        utf16_lossy(utf16_units(c) + rest) == seq![c] + utf16_lossy(rest),
{
    let v = c as u32;
    let u = utf16_units(c) + rest;
    if v < 0x10000 {
        assert(u[0] == v as u16);
        assert(u.skip(1) =~= rest);
        assert(((v as u16) as char) == c);
    } else {
        let w = (v - 0x10000) as u32;
        let hi = (0xD800 + w / 1024) as u16;
        let lo = (0xDC00 + w % 1024) as u16;
        assert(w < 0x100000);
        assert(w / 1024 < 1024 && w % 1024 < 1024) by (nonlinear_arith)
            requires
                w < 0x100000,
        ;
        assert(u[0] == hi && u[1] == lo);
        assert(u.skip(2) =~= rest);
        assert((hi - 0xD800) * 0x400 + (lo - 0xDC00) + 0x10000 == v) by (nonlinear_arith)
            requires
                hi == 0xD800 + w / 1024,
                lo == 0xDC00 + w % 1024,
                w == v - 0x10000,
        ;
    }
}

/// Encoding a text in UTF-16 (as `wide_str` does, before its NUL) and decoding it
/// again (as `from_utf16_lossy` does) gives back the text.
pub proof fn law_utf16_round_trip(s: Seq<char>)
    ensures
        utf16_lossy(utf16(s)) == s,
    decreases s.len(),
{
    if s.len() > 0 {
        let rest = s.drop_first();
        lemma_utf16_concat(seq![s[0]], rest);
        assert(seq![s[0]] + rest =~= s);
        assert(utf16(seq![s[0]]) =~= utf16_units(s[0])) by {
            let one = seq![s[0]];
            assert(one.drop_last() =~= Seq::<char>::empty());
            assert(utf16(one.drop_last()) =~= Seq::<u16>::empty());
            assert(one.last() == s[0]);
            assert(utf16(one) == utf16(one.drop_last()) + utf16_units(one.last()));
        }
        lemma_utf16_char_decodes(s[0], utf16(rest));
        law_utf16_round_trip(rest);
        assert(seq![s[0]] + rest =~= s);
    }
}

/// Calls `String::from_utf16_lossy`, whose documentation says it decodes UTF-16,
/// replacing invalid data (unpaired surrogates) with U+FFFD.
#[verifier::external_body]
pub(crate) fn from_utf16_lossy(units: &[u16]) -> (r: String)
    ensures
        r@ == utf16_lossy(units@),
{
    String::from_utf16_lossy(units)
}

/// What `String::from_utf8_lossy` makes of some bytes.
pub uninterp spec fn utf8_lossy(bytes: Seq<u8>) -> Seq<char>;

/// Calls `String::from_utf8_lossy`. Its documentation says that valid UTF-8 comes
/// back as the text it encodes; how invalid sequences are replaced by U+FFFD is
/// left to the name `utf8_lossy`.
#[verifier::external_body]
pub(crate) fn from_utf8_lossy(bytes: &[u8]) -> (r: String)
    ensures
        r@ == utf8_lossy(bytes@),
        vstd::utf8::valid_utf8(bytes@) ==> r@ == vstd::utf8::decode_utf8(bytes@),
{
    String::from_utf8_lossy(bytes).into_owned()
}


/// The text of an optional string.
pub open spec fn opt_view(o: Option<String>) -> Option<Seq<char>> {
    match o {
        Some(s) => Some(s@),
        None => None,
    }
}

/// A copy of an optional string.
pub fn clone_opt(o: &Option<String>) -> (r: Option<String>)
    ensures
        opt_view(r) == opt_view(*o),
{
    match o {
        Some(s) => Some(s.clone()),
        None => None,
    }
}


} // verus!
