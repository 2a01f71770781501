//! In-place editing of terminated script buffers: replacing one character
//! with width-aware shifting of the rest, compacting, and reflowing lines.
use vstd::prelude::*;

use crate::script::{
    code_size_spec, decode_at, decode_script_at, decode_width, lemma_scan_shift, stops_at, INVALID, fontapi_get_code_size, lemma_scan_bounds, scan, scan_from, LINE_BREAK_BYTE,
    TERMINATOR,
};

verus! {

/// `s` with `t` written over it from position `at` on.
pub open spec fn overwrite(s: Seq<u8>, at: int, t: Seq<u8>) -> Seq<u8> {
    Seq::new(s.len(), |k: int| if at <= k < at + t.len() { t[k - at] } else { s[k] })
}

/// Where the rest of the buffer starts when a character of width `old_width`
/// at `dest` is replaced (`is_update`) or a character is inserted before it.
pub open spec fn tail_start(dest: int, old_width: int, is_update: bool) -> int {
    if is_update { dest + old_width } else { dest }
}

/// Number of bytes from `start` through the byte where a scan from `start`
/// stops (the terminator of a well-formed buffer).
pub open spec fn tail_len(s: Seq<u8>, start: int) -> int {
    scan(s, start).0 - start + 1
}

/// Whether the two widths call for an edit in place, without shifting.
pub open spec fn edits_in_place(old_width: int, new_width: int, is_update: bool) -> bool {
    old_width == new_width && is_update
}

/// The inputs on which `fontapi_input_char` stays within the buffer: the
/// replaced character lies in it, and the shifted rest, up to and with its
/// terminator, fits.
pub open spec fn input_char_fits(
    s: Seq<u8>,
    dest: int,
    src: Seq<u8>,
    old_width: int,
    new_width: int,
    is_update: bool,
) -> bool {
    &&& 0 <= dest
    &&& 0 <= old_width
    &&& 0 <= new_width <= src.len()
    &&& if edits_in_place(old_width, new_width, is_update) {
        dest + old_width <= s.len()
    } else {
        let start = tail_start(dest, old_width, is_update);
        &&& start <= s.len()
        &&& scan(s, start).0 < s.len()
        &&& dest + new_width + tail_len(s, start) <= s.len()
    }
}

/// The buffer after `fontapi_input_char`, and whether it reported the
/// buffer as unchanged.
pub open spec fn input_char_result(
    s: Seq<u8>,
    dest: int,
    src: Seq<u8>,
    old_width: int,
    new_width: int,
    is_update: bool,
) -> (Seq<u8>, bool) {
    if edits_in_place(old_width, new_width, is_update) {
        if s.subrange(dest, dest + old_width) == src.subrange(0, new_width) {
            (s, true)
        } else {
            (overwrite(s, dest, src.subrange(0, new_width)), false)
        }
    } else {
        let start = tail_start(dest, old_width, is_update);
        let rest = s.subrange(start, start + tail_len(s, start));
        let moved = overwrite(s, dest + new_width, rest);
        (overwrite(moved, dest, src.subrange(0, new_width)), false)
    }
}

/// Copies `n` bytes of `buf` from `from` to `to`; the two ranges may overlap.
fn move_bytes(buf: &mut Vec<u8>, from: usize, to: usize, n: usize)
    requires
        from + n <= old(buf)@.len(),
        to + n <= old(buf)@.len(),
    ensures
        final(buf)@ == overwrite(old(buf)@, to as int, old(buf)@.subrange(from as int, from + n)),
{
    let ghost orig = buf@;
    let len = buf.len();
    if to <= from {
        let mut k: usize = 0;
        while k < n
            invariant
                to <= from,
                k <= n,
                orig.len() == len,
                from + n <= orig.len(),
                to + n <= orig.len(),
                buf@.len() == orig.len(),
                forall|j: int| 0 <= j < buf@.len() ==> #[trigger] buf@[j] == if to <= j < to + k {
                    orig[from + j - to]
                } else {
                    orig[j]
                },
            decreases n - k,
        {
            let b = buf[from + k];
            buf.set(to + k, b);
            k = k + 1;
        }
    } else {
        let mut k: usize = n;
        while k > 0
            invariant
                to > from,
                k <= n,
                orig.len() == len,
                from + n <= orig.len(),
                to + n <= orig.len(),
                buf@.len() == orig.len(),
                forall|j: int| 0 <= j < buf@.len() ==> #[trigger] buf@[j] == if to + k <= j < to + n {
                    orig[from + j - to]
                } else {
                    orig[j]
                },
            decreases k,
        {
            k = k - 1;
            let b = buf[from + k];
            buf.set(to + k, b);
        }
    }
    assert(buf@ =~= overwrite(orig, to as int, orig.subrange(from as int, from + n)));
}

/// Writes the first `n` bytes of `src` into `buf` from position `at` on.
pub(crate) fn write_bytes(buf: &mut Vec<u8>, at: usize, src: &[u8], n: usize)
    requires
        n <= src@.len(),
        at + n <= old(buf)@.len(),
    ensures
        final(buf)@ == overwrite(old(buf)@, at as int, src@.subrange(0, n as int)),
{
    let ghost orig = buf@;
    let len = buf.len();
    let mut k: usize = 0;
    while k < n
        invariant
            k <= n,
            orig.len() == len,
            n <= src@.len(),
            at + n <= orig.len(),
            buf@.len() == orig.len(),
            forall|j: int| 0 <= j < buf@.len() ==> #[trigger] buf@[j] == if at <= j < at + k {
                src@[j - at]
            } else {
                orig[j]
            },
        decreases n - k,
    {
        buf.set(at + k, src[k]);
        k = k + 1;
    }
    assert(buf@ =~= overwrite(orig, at as int, src@.subrange(0, n as int)));
}

/// Whether the `n` bytes of `buf` from `at` on equal the first `n` of `src`.
fn bytes_equal(buf: &Vec<u8>, at: usize, src: &[u8], n: usize) -> (r: bool)
    requires
        n <= src@.len(),
        at + n <= buf@.len(),
    ensures
        r == (buf@.subrange(at as int, at + n) == src@.subrange(0, n as int)),
{
    let len = buf.len();
    let mut k: usize = 0;
    while k < n
        invariant
            k <= n,
            n <= src@.len(),
            at + n <= buf@.len(),
            buf@.len() == len,
            forall|j: int| 0 <= j < k ==> buf@[at + j] == src@[j],
        decreases n - k,
    {
        if buf[at + k] != src[k] {
            assert(buf@.subrange(at as int, at + n)[k as int] != src@.subrange(0, n as int)[k as int]);
            return false;
        }
        k = k + 1;
    }
    assert(buf@.subrange(at as int, at + n) =~= src@.subrange(0, n as int));
    true
}

/// Replaces the character of width `encode_width_dest` at position `dest`
/// of `buffer` with the first `encode_width_src` bytes of `src`.
///
/// An update with equal widths edits in place and returns true exactly when
/// the bytes were already equal, leaving the buffer as it was. Otherwise the
/// rest of the buffer, through its terminator, moves by the difference of
/// the widths (an insertion when `is_update` is false) before the new bytes
/// are written, and the result is false.
pub fn fontapi_input_char(
    encode_width_dest: usize,
    encode_width_src: usize,
    buffer: &mut Vec<u8>,
    dest: usize,
    src: &[u8],
    is_update: bool,
) -> (r: bool)
    requires
        input_char_fits(
            old(buffer)@,
            dest as int,
            src@,
            encode_width_dest as int,
            encode_width_src as int,
            is_update,
        ),
    ensures
        (final(buffer)@, r) == input_char_result(
            old(buffer)@,
            dest as int,
            src@,
            encode_width_dest as int,
            encode_width_src as int,
            is_update,
        ),
{
    let _len = buffer.len();
    if encode_width_dest == encode_width_src && is_update {
        if bytes_equal(buffer, dest, src, encode_width_dest) {
            true
        } else {
            write_bytes(buffer, dest, src, encode_width_src);
            false
        }
    } else {
        let rest = if is_update { dest + encode_width_dest } else { dest };
        proof {
            lemma_scan_bounds(buffer@, rest as int);
        }
        let (end, _count) = scan_from(buffer.as_slice(), rest);
        let rest_len = end - rest + 1;
        move_bytes(buffer, rest, dest + encode_width_src, rest_len);
        write_bytes(buffer, dest, src, encode_width_src);
        false
    }
}

/// `dest` after a shrink from `src`: the script of `src` with its terminator,
/// then two zero bytes, the rest of `dest` unchanged.
pub open spec fn shrink_result(src: Seq<u8>, dest: Seq<u8>) -> Seq<u8> {
    overwrite(dest, 0, src.subrange(0, scan(src, 0).0 + 1) + seq![0u8, 0u8])
}

/// Copies the script of `src_script`, through its terminator, to the start
/// of `dest_script`, and writes two zero bytes after it.
pub fn fontapi_shrink_script_data_sub_2002F18(src_script: &[u8], dest_script: &mut Vec<u8>)
    requires
        scan(src_script@, 0).0 < src_script@.len(),
        scan(src_script@, 0).0 + 3 <= old(dest_script)@.len(),
    ensures
        final(dest_script)@ == shrink_result(src_script@, old(dest_script)@),
{
    let ghost orig = dest_script@;
    let _len = dest_script.len();
    proof {
        lemma_scan_bounds(src_script@, 0);
    }
    let (src_len, _count) = scan_from(src_script, 0);
    write_bytes(dest_script, 0, src_script, src_len + 1);
    dest_script.set(src_len + 1, 0);
    dest_script.set(src_len + 2, 0);
    assert(dest_script@ =~= shrink_result(src_script@, orig));
}

/// Number of bytes that a reflow zero-fills at the start of its destination.
pub const REFLOW_CLEAR_LEN: usize = 0x6C;

/// `n` zero bytes.
pub open spec fn zeros(n: int) -> Seq<u8> {
    Seq::new(n as nat, |_k: int| 0u8)
}

/// Bytes that the reflow of `src` writes from position `i` on, with `col`
/// glyphs already on the current line: each line break is preceded by zeros
/// up to column `pad`, other characters are copied by `code_size_spec`, and
/// the terminator ends the output. A source that ends before a terminator, or
/// in the middle of a character, ends the output there.
pub open spec fn reflow(src: Seq<u8>, i: int, col: int, pad: int) -> Seq<u8>
    decreases src.len() - i,
{
    if i < 0 || i >= src.len() {
        Seq::empty()
    } else if src[i] == LINE_BREAK_BYTE {
        zeros(pad - col) + seq![LINE_BREAK_BYTE] + reflow(src, i + 1, 0, pad)
    } else if src[i] == TERMINATOR {
        seq![TERMINATOR]
    } else if i + code_size_spec(src[i]) > src.len() {
        Seq::empty()
    } else {
        src.subrange(i, i + code_size_spec(src[i])) + reflow(
            src,
            i + code_size_spec(src[i]),
            col + 1,
            pad,
        )
    }
}

/// Whether no line of `src` from position `i` on, with `col` glyphs already
/// on the current line, holds more than `pad` glyphs before its break.
pub open spec fn lines_fit(src: Seq<u8>, i: int, col: int, pad: int) -> bool
    decreases src.len() - i,
{
    if i < 0 || i >= src.len() {
        true
    } else if src[i] == LINE_BREAK_BYTE {
        col <= pad && lines_fit(src, i + 1, 0, pad)
    } else if src[i] == TERMINATOR {
        true
    } else if i + code_size_spec(src[i]) > src.len() {
        true
    } else {
        lines_fit(src, i + code_size_spec(src[i]), col + 1, pad)
    }
}

/// The destination after a reflow: its first `REFLOW_CLEAR_LEN` bytes
/// zeroed, then the reflowed script written from the start.
pub open spec fn reflow_result(dest: Seq<u8>, src: Seq<u8>, pad: int) -> Seq<u8> {
    overwrite(overwrite(dest, 0, zeros(REFLOW_CLEAR_LEN as int)), 0, reflow(src, 0, 0, pad))
}

/// Writes `n` zero bytes into `buf` from position `at` on.
pub(crate) fn fill_zero(buf: &mut Vec<u8>, at: usize, n: usize)
    requires
        at + n <= old(buf)@.len(),
    ensures
        final(buf)@ == overwrite(old(buf)@, at as int, zeros(n as int)),
{
    let ghost orig = buf@;
    let len = buf.len();
    let mut k: usize = 0;
    while k < n
        invariant
            k <= n,
            at + n <= orig.len(),
            orig.len() == len,
            buf@.len() == orig.len(),
            forall|j: int| 0 <= j < buf@.len() ==> #[trigger] buf@[j] == if at <= j < at + k {
                0u8
            } else {
                orig[j]
            },
        decreases n - k,
    {
        buf.set(at + k, 0);
        k = k + 1;
    }
    assert(buf@ =~= overwrite(orig, at as int, zeros(n as int)));
}

/// Reflows the unpadded multi-line script `src_script` into lines of
/// `line_pad_size` columns at the start of `dest_script`: the first
/// `REFLOW_CLEAR_LEN` bytes are zeroed, each line is padded with zeros up to
/// the column before its break, and every other character counts as one
/// column whatever its width.
pub fn fontapi_transform_multi_line_script(
    dest_script: &mut Vec<u8>,
    src_script: &[u8],
    line_pad_size: usize,
)
    requires
        REFLOW_CLEAR_LEN <= old(dest_script)@.len(),
        reflow(src_script@, 0, 0, line_pad_size as int).len() <= old(dest_script)@.len(),
        lines_fit(src_script@, 0, 0, line_pad_size as int),
    ensures
        final(dest_script)@ == reflow_result(old(dest_script)@, src_script@, line_pad_size as int),
{
    let ghost orig = dest_script@;
    let ghost pad = line_pad_size as int;
    let ghost full = reflow(src_script@, 0, 0, pad);
    let len = dest_script.len();
    fill_zero(dest_script, 0, REFLOW_CLEAR_LEN);
    let ghost cleared = dest_script@;
    let mut i: usize = 0;
    let mut d: usize = 0;
    let mut line_cursor: usize = 0;
    while i < src_script.len()
        invariant_except_break
            lines_fit(src_script@, i as int, line_cursor as int, pad),
            full.len() == d + reflow(src_script@, i as int, line_cursor as int, pad).len(),
            forall|k: int|
                0 <= k < reflow(src_script@, i as int, line_cursor as int, pad).len() ==> full[d
                    + k] == #[trigger] reflow(src_script@, i as int, line_cursor as int, pad)[k],
        invariant
            i <= src_script@.len(),
            line_cursor <= i,
            dest_script@.len() == len,
            cleared.len() == len,
            full.len() <= len,
            pad == line_pad_size as int,
            full == reflow(src_script@, 0, 0, pad),
            forall|k: int| 0 <= k < d ==> #[trigger] dest_script@[k] == full[k],
            forall|k: int| d <= k < len ==> #[trigger] dest_script@[k] == cleared[k],
        ensures
            full.len() == d,
            forall|k: int| 0 <= k < d ==> #[trigger] dest_script@[k] == full[k],
            forall|k: int| d <= k < len ==> #[trigger] dest_script@[k] == cleared[k],
        decreases src_script@.len() - i,
    {
        let ghost rest = reflow(src_script@, i as int, line_cursor as int, pad);
        let b = src_script[i];
        if b == LINE_BREAK_BYTE {
            assert(src_script@[i as int] == LINE_BREAK_BYTE);
            assert(line_cursor <= line_pad_size);
            let gap = line_pad_size - line_cursor;
            let ghost next = reflow(src_script@, i + 1, 0, pad);
            assert(rest == zeros(gap as int) + seq![LINE_BREAK_BYTE] + next);
            assert forall|k: int| 0 <= k < gap implies #[trigger] full[d + k] == 0u8 by {
                assert(rest[k] == 0u8);
            }
            assert(full[d + gap] == LINE_BREAK_BYTE) by {
                assert(rest[gap as int] == LINE_BREAK_BYTE);
            }
            assert forall|k: int| 0 <= k < next.len() implies full[d + gap + 1 + k] == #[trigger] next[k] by {
                assert(rest[gap + 1 + k] == next[k]);
            }
            let ghost before = dest_script@;
            fill_zero(dest_script, d, gap);
            dest_script.set(d + gap, LINE_BREAK_BYTE);
            assert forall|k: int| 0 <= k < d + gap + 1 implies #[trigger] dest_script@[k]
                == full[k] by {
                if k < d {
                    assert(before[k] == full[k]);
                } else if k < d + gap {
                    assert(full[d + (k - d)] == 0u8);
                }
            }
            d = d + gap + 1;
            i = i + 1;
            line_cursor = 0;
        } else if b == TERMINATOR {
            assert(rest == seq![TERMINATOR]);
            assert(full[d as int] == TERMINATOR) by {
                assert(rest[0] == TERMINATOR);
            }
            dest_script.set(d, TERMINATOR);
            d = d + 1;
            break;
        } else {
            let width = fontapi_get_code_size(b);
            if width > src_script.len() - i {
                break;
            }
            let ghost next = reflow(src_script@, i + width, line_cursor + 1, pad);
            let ghost piece = src_script@.subrange(i as int, i + width);
            assert(rest == piece + next);
            assert forall|k: int| 0 <= k < width implies #[trigger] full[d + k] == src_script@[i + k] by {
                assert(rest[k] == piece[k]);
            }
            assert forall|k: int| 0 <= k < next.len() implies full[d + width + k] == #[trigger] next[k] by {
                assert(rest[width + k] == next[k]);
            }
            let mut c: usize = 0;
            while c < width
                invariant
                    c <= width,
                    i + width <= src_script@.len(),
                    src_script@.len() <= usize::MAX,
                    d + width <= len,
                    d + width <= full.len(),
                    dest_script@.len() == len,
                    forall|k: int| 0 <= k < d ==> #[trigger] dest_script@[k] == full[k],
                    forall|k: int| 0 <= k < c ==> #[trigger] dest_script@[d + k] == src_script@[i + k],
                    forall|k: int| d + c <= k < len ==> #[trigger] dest_script@[k] == cleared[k],
                decreases width - c,
            {
                dest_script.set(d + c, src_script[i + c]);
                c = c + 1;
            }
            assert forall|k: int| 0 <= k < d + width implies #[trigger] dest_script@[k] == full[k] by {
                if k >= d {
                    assert(dest_script@[d + (k - d)] == src_script@[i + (k - d)]);
                }
            }
            i = i + width;
            d = d + width;
            line_cursor = line_cursor + 1;
        }
    }
    assert(dest_script@ =~= reflow_result(orig, src_script@, pad));
}

/// Shrinking a character by one byte and then growing it back with its
/// former bytes gives back the buffer it started from, provided the rest of the
/// buffer ends in a byte that decodes to `INVALID`, such as the terminator.
pub proof fn lemma_input_char_shrink_grow_round_trip(
    s: Seq<u8>,
    dest: int,
    width: int,
    narrow: Seq<u8>,
)
    requires
        1 <= width,
        input_char_fits(s, dest, narrow, width, width - 1, true),
        decode_at(s, scan(s, dest + width).0).0 == INVALID,
    ensures
        input_char_fits(
            input_char_result(s, dest, narrow, width, width - 1, true).0,
            dest,
            s.subrange(dest, dest + width),
            width - 1,
            width,
            true,
        ),
        input_char_result(
            input_char_result(s, dest, narrow, width, width - 1, true).0,
            dest,
            s.subrange(dest, dest + width),
            width - 1,
            width,
            true,
        ).0 == s,
{
    let a = dest + width;
    let b = dest + width - 1;
    let e = scan(s, a).0;
    lemma_scan_bounds(s, a);
    let first = input_char_result(s, dest, narrow, width, width - 1, true).0;
    assert forall|k: int| 0 <= k <= e - a implies first[b + k] == #[trigger] s[a + k] by {}
    lemma_scan_shift(s, a, first, b);
    assert(scan(first, b).0 == e - 1);
    let orig = s.subrange(dest, dest + width);
    let second = input_char_result(first, dest, orig, width - 1, width, true).0;
    assert(second =~= s);
}

/// Where a scan of `s` from `i` that steps over at most `n` characters stops.
pub open spec fn limited_scan(s: Seq<u8>, i: int, n: nat) -> int
    decreases n,
{
    if n == 0 || stops_at(s, i) {
        i
    } else {
        limited_scan(s, i + decode_width(s[i]), (n - 1) as nat)
    }
}

/// A limited scan ends between its start and the end of the buffer.
pub proof fn lemma_limited_scan_bounds(s: Seq<u8>, i: int, n: nat)
    requires
        0 <= i <= s.len(),
    ensures
        i <= limited_scan(s, i, n) <= s.len(),
    decreases n,
{
    if !(n == 0 || stops_at(s, i)) {
        lemma_limited_scan_bounds(s, i + decode_width(s[i]), (n - 1) as nat);
    }
}

/// Copies at most `script_limit` characters of `src_script`, ending early at
/// a byte that decodes to `INVALID`, into `dest_script` from `dest_pos` on.
/// Returns the position just past the copied bytes.
pub fn fontapi_sub_217BBC8_hook(
    dest_script: &mut Vec<u8>,
    dest_pos: usize,
    src_script: &[u8],
    script_limit: usize,
) -> (r: usize)
    requires
        dest_pos + limited_scan(src_script@, 0, script_limit as nat) <= old(dest_script)@.len(),
    ensures
        r == dest_pos + limited_scan(src_script@, 0, script_limit as nat),
        final(dest_script)@ == overwrite(
            old(dest_script)@,
            dest_pos as int,
            src_script@.subrange(0, limited_scan(src_script@, 0, script_limit as nat)),
        ),
{
    let ghost orig = dest_script@;
    let ghost end = limited_scan(src_script@, 0, script_limit as nat);
    proof {
        lemma_limited_scan_bounds(src_script@, 0, script_limit as nat);
    }
    let len = dest_script.len();
    let mut c: usize = 0;
    let mut remaining: usize = script_limit;
    while remaining > 0
        invariant
            c <= end <= src_script@.len(),
            dest_pos + end <= len,
            dest_script@.len() == len,
            orig.len() == len,
            limited_scan(src_script@, c as int, remaining as nat) == end,
            forall|j: int| 0 <= j < len ==> #[trigger] dest_script@[j] == if dest_pos <= j < dest_pos + c {
                src_script@[j - dest_pos]
            } else {
                orig[j]
            },
        ensures
            c == end,
            dest_script@.len() == len,
            forall|j: int| 0 <= j < len ==> #[trigger] dest_script@[j] == if dest_pos <= j < dest_pos + c {
                src_script@[j - dest_pos]
            } else {
                orig[j]
            },
        decreases remaining,
    {
        if c >= src_script.len() {
            break;
        }
        let first = src_script[c];
        let width: usize = if first >= 0xD0 && first <= 0xE4 { 2 } else { 1 };
        if width > src_script.len() - c {
            break;
        }
        let (code, _is_double) = decode_script_at(src_script, c);
        if code == INVALID {
            break;
        }
        proof {
            lemma_limited_scan_bounds(src_script@, c + width, (remaining - 1) as nat);
        }
        dest_script.set(dest_pos + c, src_script[c]);
        if width == 2 {
            dest_script.set(dest_pos + c + 1, src_script[c + 1]);
        }
        c = c + width;
        remaining = remaining - 1;
    }
    assert(dest_script@ =~= overwrite(orig, dest_pos as int, src_script@.subrange(0, end)));
    dest_pos + c
}

/// The walk of a bounded script copy over `s` from byte `c`, in round `i` of
/// `limit`: where it ends, and the number of rounds taken when it met the
/// terminator (zero when it ran out of rounds or bytes first). Each round
/// copies one byte, and one more when the byte after it is a two-byte lead.
pub open spec fn clip_walk(s: Seq<u8>, c: int, i: int, limit: int) -> (int, int)
    decreases limit - i,
{
    if i >= limit || c < 0 || c >= s.len() {
        (c, 0)
    } else if s[c] == TERMINATOR {
        (c, i + 1)
    } else if c + 1 < s.len() && decode_width(s[c + 1]) == 2 {
        clip_walk(s, c + 2, i + 1, limit)
    } else {
        clip_walk(s, c + 1, i + 1, limit)
    }
}

/// A bounded copy's walk ends between its start and the end of the buffer.
proof fn lemma_clip_walk_bounds(s: Seq<u8>, c: int, i: int, limit: int)
    requires
        0 <= c <= s.len(),
        0 <= i,
    ensures
        c <= clip_walk(s, c, i, limit).0 <= s.len(),
        clip_walk(s, c, i, limit).1 > 0 ==> clip_walk(s, c, i, limit).0 < s.len() && s[clip_walk(
            s,
            c,
            i,
            limit,
        ).0] == TERMINATOR && clip_walk(s, c, i, limit).1 <= limit,
    decreases limit - i,
{
    if !(i >= limit || c >= s.len() || s[c] == TERMINATOR) {
        if c + 1 < s.len() && decode_width(s[c + 1]) == 2 {
            lemma_clip_walk_bounds(s, c + 2, i + 1, limit);
        } else {
            lemma_clip_walk_bounds(s, c + 1, i + 1, limit);
        }
    }
}

/// What a bounded script copy leaves in `dest`: the walked bytes of `src`
/// with the terminator after them, or, when the walk met no terminator, the
/// walked bytes with their first one replaced by a terminator.
pub open spec fn clip_result(dest: Seq<u8>, src: Seq<u8>, limit: int) -> Seq<u8> {
    let w = clip_walk(src, 0, 0, limit);
    if w.1 > 0 {
        overwrite(dest, 0, src.subrange(0, w.0 + 1))
    } else {
        overwrite(overwrite(dest, 0, src.subrange(0, w.0)), 0, seq![TERMINATOR])
    }
}

/// Copies the script of `src_script` to `dest_script` for at most `limit`
/// rounds (see `clip_walk`). Returns the number of rounds when the
/// terminator was copied; otherwise writes a terminator at the start of
/// `dest_script` and returns 1.
pub fn fontapi_sub_2002E0C_hook(dest_script: &mut Vec<u8>, src_script: &[u8], limit: usize) -> (r:
    usize)
    requires
        clip_walk(src_script@, 0, 0, limit as int).0 < old(dest_script)@.len(),
    ensures
        final(dest_script)@ == clip_result(old(dest_script)@, src_script@, limit as int),
        r == if clip_walk(src_script@, 0, 0, limit as int).1 > 0 {
            clip_walk(src_script@, 0, 0, limit as int).1
        } else {
            1
        },
{
    let ghost orig = dest_script@;
    let ghost w = clip_walk(src_script@, 0, 0, limit as int);
    proof {
        lemma_clip_walk_bounds(src_script@, 0, 0, limit as int);
    }
    let len = dest_script.len();
    let mut c: usize = 0;
    let mut i: usize = 0;
    while i < limit
        invariant
            i <= limit,
            c <= w.0 < len,
            w.0 <= src_script@.len(),
            dest_script@.len() == len,
            orig.len() == len,
            clip_walk(src_script@, c as int, i as int, limit as int) == w,
            w == clip_walk(src_script@, 0, 0, limit as int),
            orig == old(dest_script)@,
            forall|j: int| 0 <= j < len ==> #[trigger] dest_script@[j] == if j < c {
                src_script@[j]
            } else {
                orig[j]
            },
        ensures
            c == w.0,
            w.1 == 0,
            dest_script@.len() == len,
            forall|j: int| 0 <= j < len ==> #[trigger] dest_script@[j] == if j < c {
                src_script@[j]
            } else {
                orig[j]
            },
        decreases limit - i,
    {
        if c >= src_script.len() {
            break;
        }
        if src_script[c] == TERMINATOR {
            dest_script.set(c, TERMINATOR);
            assert(dest_script@ =~= clip_result(orig, src_script@, limit as int));
            return i + 1;
        }
        proof {
            lemma_clip_walk_bounds(src_script@, c + 1, i + 1, limit as int);
            if c + 1 < src_script@.len() {
                lemma_clip_walk_bounds(src_script@, c + 2, i + 1, limit as int);
            }
        }
        dest_script.set(c, src_script[c]);
        c = c + 1;
        if c < src_script.len() {
            let next = src_script[c];
            if next >= 0xD0 && next <= 0xE4 {
                dest_script.set(c, next);
                c = c + 1;
            }
        }
        i = i + 1;
    }
    let ghost walked = dest_script@;
    dest_script.set(0, TERMINATOR);
    assert(walked =~= overwrite(orig, 0, src_script@.subrange(0, w.0)));
    assert(dest_script@ =~= clip_result(orig, src_script@, limit as int));
    1
}

} // verus!
