//! The byte-pair script encoding: decoding one character and scanning a
//! terminated buffer.
use vstd::prelude::*;

verus! {

/// Glyph id returned for a byte that ends a scan (the terminator among them).
pub const INVALID: u16 = 0xFFFF;

/// Glyph id of the explicit line-break code point.
pub const LINE_BREAK: u16 = 0xFFFE;

/// The byte that terminates a script buffer.
pub const TERMINATOR: u8 = 0xE6;

/// The byte that marks a line break in a script buffer.
pub const LINE_BREAK_BYTE: u8 = 0xE9;

/// What the decoder yields for lead byte `b0` followed by `b1`: the glyph id
/// and whether the character takes two bytes.
pub open spec fn decode_spec(b0: u8, b1: u8) -> (u16, bool) {
    if b0 <= 0xCF {
        (b0 as u16, false)
    } else if b0 <= 0xE3 {
        (((b0 as int - 0xD0) * 0xE4 + b1 as int + 0xD0) as u16, true)
    } else if b0 == 0xE4 {
        (((0xE4 + b1 as int) % 0x10000) as u16, true)
    } else if b0 == 0xE9 {
        (LINE_BREAK, false)
    } else {
        (INVALID, false)
    }
}

/// Number of bytes the decoder consumes for lead byte `b0`.
pub open spec fn decode_width(b0: u8) -> nat {
    if decode_spec(b0, 0).1 { 2 } else { 1 }
}

/// The byte after position `i`, or zero past the end of `s`.
pub open spec fn byte_after(s: Seq<u8>, i: int) -> u8 {
    if i + 1 < s.len() { s[i + 1] } else { 0 }
}

/// Decoding of the character that starts at position `i` of `s`.
pub open spec fn decode_at(s: Seq<u8>, i: int) -> (u16, bool) {
    decode_spec(s[i], byte_after(s, i))
}

/// Decodes the character that starts at position `at` of `script`.
///
/// The byte after `at` is read only for a two-byte character.
pub fn decode_script_at(script: &[u8], at: usize) -> (r: (u16, bool))
    requires
        at < script@.len(),
        at + decode_width(script@[at as int]) <= script@.len(),
    ensures
        r == decode_at(script@, at as int),
{
    let first_code = script[at] as u16;
    if first_code <= 0xCF {
        (first_code, false)
    } else if first_code <= 0xE3 {
        let second_code = script[at + 1] as u16;
        ((first_code - 0xD0) * 0xE4 + second_code + 0xD0, true)
    } else if first_code == 0xE4 {
        let second_code = script[at + 1] as u16;
        (first_code.wrapping_add(second_code), true)
    } else if first_code == 0xE9 {
        (LINE_BREAK, false)
    } else {
        (INVALID, false)
    }
}

/// Decodes the character at the start of `script_data`.
pub fn decode_script(script_data: &[u8]) -> (r: (u16, bool))
    requires
        script_data@.len() >= 1,
        script_data@.len() >= decode_width(script_data@[0]),
    ensures
        r == decode_at(script_data@, 0),
{
    decode_script_at(script_data, 0)
}

/// Byte width of a character by its lead byte, as the reflow routine counts
/// it. Kept apart from the decoder's own width on purpose; the two tables
/// happen to agree on every byte.
pub open spec fn code_size_spec(first_code: u8) -> nat {
    if first_code <= 0xCF {
        1
    } else if first_code <= 0xE4 {
        2
    } else {
        1
    }
}

/// Byte width of the character whose lead byte is `first_code`.
pub fn fontapi_get_code_size(first_code: u8) -> (r: usize)
    ensures
        r == code_size_spec(first_code),
{
    if first_code <= 0xCF {
        1
    } else if first_code <= 0xE4 {
        2
    } else {
        1
    }
}

/// Whether a scan of `s` stops at position `i`: the end of the buffer, a
/// byte that decodes to `INVALID` (the terminator among them), or a
/// two-byte character cut off by the end.
pub open spec fn stops_at(s: Seq<u8>, i: int) -> bool {
    ||| i >= s.len()
    ||| decode_at(s, i).0 == INVALID
    ||| i + decode_width(s[i]) > s.len()
}

/// A scan of `s` from position `i`: the position where it stops and the
/// number of characters it stepped over.
pub open spec fn scan(s: Seq<u8>, i: int) -> (int, nat)
    decreases s.len() - i,
{
    if stops_at(s, i) {
        (i, 0)
    } else {
        let r = scan(s, i + decode_width(s[i]));
        (r.0, r.1 + 1)
    }
}

/// Length in bytes of the script in `s`, the terminator excluded.
pub open spec fn bytes_len(s: Seq<u8>) -> int {
    scan(s, 0).0
}

/// Length in glyphs of the script in `s`.
pub open spec fn glyph_len(s: Seq<u8>) -> nat {
    scan(s, 0).1
}

/// A scan ends between its start and the end of the buffer, and steps over
/// no more characters than bytes.
pub proof fn lemma_scan_bounds(s: Seq<u8>, i: int)
    requires
        0 <= i <= s.len(),
    ensures
        i <= scan(s, i).0 <= s.len(),
        scan(s, i).1 <= scan(s, i).0 - i,
    decreases s.len() - i,
{
    if !stops_at(s, i) {
        lemma_scan_bounds(s, i + decode_width(s[i]));
    }
}

/// Scans `s` from `start`: returns where the scan stops and how many
/// characters it stepped over.
pub(crate) fn scan_from(s: &[u8], start: usize) -> (r: (usize, usize))
    requires
        start <= s@.len(),
    ensures
        r.0 == scan(s@, start as int).0,
        r.1 == scan(s@, start as int).1,
{
    let mut i: usize = start;
    let mut count: usize = 0;
    proof {
        lemma_scan_bounds(s@, start as int);
    }
    while i < s.len() && s[i] != TERMINATOR
        invariant
            start <= i <= s@.len(),
            scan(s@, start as int).0 == scan(s@, i as int).0,
            scan(s@, start as int).1 == scan(s@, i as int).1 + count,
            count <= i - start,
        ensures
            start <= i <= s@.len(),
            stops_at(s@, i as int),
            scan(s@, start as int).0 == scan(s@, i as int).0,
            scan(s@, start as int).1 == scan(s@, i as int).1 + count,
        decreases s@.len() - i,
    {
        let first = s[i];
        let width: usize = if first >= 0xD0 && first <= 0xE4 { 2 } else { 1 };
        if width > s.len() - i {
            break;
        }
        let (code, _is_double) = decode_script_at(s, i);
        if code == INVALID {
            break;
        }
        i = i + width;
        count = count + 1;
    }
    (i, count)
}

/// Number of glyphs before the terminator of `script_data`. The scan also
/// ends at any byte that decodes to `INVALID`.
pub fn fontapi_get_script_chars_len(script_data: &[u8]) -> (r: usize)
    ensures
        r == glyph_len(script_data@),
{
    scan_from(script_data, 0).1
}

/// Number of glyphs before the first byte that decodes to `INVALID`.
pub fn fontapi_get_script_chars_len_loop(script_data: &[u8]) -> (r: usize)
    ensures
        r == glyph_len(script_data@),
{
    let mut i: usize = 0;
    let mut result: usize = 0;
    while i < script_data.len()
        invariant
            i <= script_data@.len(),
            scan(script_data@, 0).1 == scan(script_data@, i as int).1 + result,
            result <= i,
        ensures
            stops_at(script_data@, i as int),
            scan(script_data@, 0).1 == scan(script_data@, i as int).1 + result,
        decreases script_data@.len() - i,
    {
        let first = script_data[i];
        let width: usize = if first >= 0xD0 && first <= 0xE4 { 2 } else { 1 };
        if width > script_data.len() - i {
            break;
        }
        let (code, is_double_encode) = decode_script_at(script_data, i);
        if code == INVALID {
            break;
        }
        i = i + if is_double_encode { 2 } else { 1 };
        result = result + 1;
    }
    result
}

/// Distance in bytes from the start of `script_data` to its terminator.
pub fn fontapi_get_script_bytes_len(script_data: &[u8]) -> (r: usize)
    ensures
        r == bytes_len(script_data@),
{
    scan_from(script_data, 0).0
}

/// Offset of the `n`-th character of `s`, stepping by `code_size_spec`.
pub open spec fn nth_offset(s: Seq<u8>, n: nat) -> int
    decreases n,
{
    if n == 0 {
        0
    } else {
        let p = nth_offset(s, (n - 1) as nat);
        p + code_size_spec(s[p])
    }
}

/// Finds the character with number `index` of `script_data`: returns its
/// offset and its width by `code_size_spec`.
pub fn fontapi_get_encode_size_by_index(script_data: &[u8], index: usize) -> (r: (usize, u8))
    requires
        forall|k: nat| k <= index ==> #[trigger] nth_offset(script_data@, k) < script_data@.len(),
    ensures
        r.0 == nth_offset(script_data@, index as nat),
        r.1 == code_size_spec(script_data@[r.0 as int]),
{
    let mut pos: usize = 0;
    let mut i: usize = 0;
    assert(nth_offset(script_data@, 0) < script_data@.len());
    while i < index
        invariant
            i <= index,
            pos == nth_offset(script_data@, i as nat),
            forall|k: nat| k <= index ==> #[trigger] nth_offset(script_data@, k) < script_data@.len(),
        decreases index - i,
    {
        let width = fontapi_get_code_size(script_data[pos]);
        assert(nth_offset(script_data@, (i + 1) as nat) < script_data@.len());
        pos = pos + width;
        i = i + 1;
    }
    let width = fontapi_get_code_size(script_data[pos]);
    (pos, width as u8)
}

/// Whether a lead byte decodes to `INVALID` does not depend on the byte
/// after it.
pub proof fn lemma_invalid_by_lead(b0: u8, x: u8, y: u8)
    ensures
        (decode_spec(b0, x).0 == INVALID) == (decode_spec(b0, y).0 == INVALID),
        (decode_spec(b0, x).0 == INVALID) == (b0 >= 0xE5 && b0 != 0xE9),
{
    if 0xD0 <= b0 <= 0xE3 {
        let m = b0 as int - 0xD0;
        assert(0 <= m * 0xE4 <= 19 * 0xE4) by (nonlinear_arith)
            requires
                0 <= m <= 19,
        ;
    }
}

/// A scan that ends at a byte decoding to `INVALID` reads only the bytes up to
/// that one: a copy of them elsewhere scans alike.
pub proof fn lemma_scan_shift(s1: Seq<u8>, a: int, s2: Seq<u8>, b: int)
    requires
        0 <= a <= s1.len(),
        0 <= b,
        scan(s1, a).0 < s1.len(),
        decode_at(s1, scan(s1, a).0).0 == INVALID,
        b + (scan(s1, a).0 - a) < s2.len(),
        forall|k: int| 0 <= k <= scan(s1, a).0 - a ==> s2[b + k] == #[trigger] s1[a + k],
    ensures
        scan(s2, b).0 == b + (scan(s1, a).0 - a),
        scan(s2, b).1 == scan(s1, a).1,
    decreases s1.len() - a,
{
    let e = scan(s1, a).0;
    lemma_scan_bounds(s1, a);
    assert(s2[b + 0] == s1[a + 0]);
    lemma_invalid_by_lead(s1[a], byte_after(s1, a), byte_after(s2, b));
    if stops_at(s1, a) {
        assert(e == a);
    } else {
        let w = decode_width(s1[a]);
        lemma_scan_bounds(s1, a + w);
        assert forall|k: int| 0 <= k <= scan(s1, a + w).0 - (a + w) implies s2[b + w + k]
            == #[trigger] s1[a + w + k] by {
            assert(s2[b + (w + k)] == s1[a + (w + k)]);
        }
        lemma_scan_shift(s1, a + w, s2, b + w);
    }
}

} // verus!
