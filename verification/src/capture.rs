//! Screen-capture arithmetic: choosing the captured region, its size, the
//! copy box, and packing the rows of a mapped texture into a tight buffer.

use vstd::prelude::*;

verus! {

/// A rectangle in screen coordinates (the fields of a Win32 `RECT`).
#[derive(Debug, Clone, Copy, PartialEq, Eq)]
pub struct WindowRect {
    pub left: i32,
    pub top: i32,
    pub right: i32,
    pub bottom: i32,
}

/// Width and height of a captured region in pixels.
#[derive(Debug, Clone, Copy, PartialEq, Eq)]
pub struct ResourceSize {
    pub width: u32,
    pub height: u32,
}

/// The box handed to the GPU copy (the fields of a `D3D11_BOX`).
#[derive(Debug, Clone, Copy, PartialEq, Eq)]
pub struct CaptureBox {
    pub left: u32,
    pub top: u32,
    pub front: u32,
    pub right: u32,
    pub bottom: u32,
    pub back: u32,
}

/// The whole monitor as a region.
pub open spec fn whole_monitor(width: i32, height: i32) -> WindowRect {
    WindowRect { left: 0, top: 0, right: width, bottom: height }
}

/// The width of a region, reinterpreted as an unsigned number.
pub open spec fn region_width(rect: WindowRect) -> u32 {
    (rect.right - rect.left) as u32
}

/// The height of a region, reinterpreted as an unsigned number.
pub open spec fn region_height(rect: WindowRect) -> u32 {
    (rect.bottom - rect.top) as u32
}

/// The region a monitor capture copies: the requested rectangle when one is
/// given, else the whole monitor of size `width` x `height`.
pub fn capture_region(rect: Option<&WindowRect>, width: i32, height: i32) -> (r: WindowRect)
    ensures
        match rect {
            Some(w) => r == *w,
            None => r == whole_monitor(width, height),
        },
{
    match rect {
        Some(w) => WindowRect { left: w.left, top: w.top, right: w.right, bottom: w.bottom },
        None => WindowRect { left: 0, top: 0, right: width, bottom: height },
    }
}

/// The size of a region: its extents reinterpreted as unsigned 32-bit
/// numbers (a negative extent wraps around).
pub fn region_size(rect: &WindowRect) -> (r: ResourceSize)
    requires
        i32::MIN <= rect.right - rect.left <= i32::MAX,
        i32::MIN <= rect.bottom - rect.top <= i32::MAX,
    ensures
        r.width == region_width(*rect),
        r.height == region_height(*rect),
{
    let w: i32 = rect.right - rect.left;
    let h: i32 = rect.bottom - rect.top;
    ResourceSize { width: w as u32, height: h as u32 }
}

/// The copy box of a region: each edge reinterpreted as unsigned, one slice
/// deep.
pub fn capture_box(rect: &WindowRect) -> (r: CaptureBox)
    ensures
        r == (CaptureBox {
            left: rect.left as u32,
            top: rect.top as u32,
            front: 0,
            right: rect.right as u32,
            bottom: rect.bottom as u32,
            back: 1,
        }),
{
    CaptureBox {
        left: rect.left as u32,
        top: rect.top as u32,
        front: 0,
        right: rect.right as u32,
        bottom: rect.bottom as u32,
        back: 1,
    }
}

/// Law: a capture without a requested rectangle covers the whole monitor;
/// its size is the monitor's size.
pub proof fn lemma_full_monitor_region_size(width: i32, height: i32)
    requires
        width >= 0,
        height >= 0,
    ensures
        whole_monitor(width, height).left == 0,
        whole_monitor(width, height).top == 0,
        region_width(whole_monitor(width, height)) == width,
        region_height(whole_monitor(width, height)) == height,
{
}

/// The region moved by `dx` to the right and `dy` down.
pub open spec fn moved(rect: WindowRect, dx: int, dy: int) -> WindowRect {
    WindowRect {
        left: (rect.left + dx) as i32,
        top: (rect.top + dy) as i32,
        right: (rect.right + dx) as i32,
        bottom: (rect.bottom + dy) as i32,
    }
}

/// Law: moving a region does not change its size, wherever it lies on the
/// screen (edges past the screen's left or top included).
pub proof fn lemma_region_size_unchanged_by_moves(rect: WindowRect, dx: int, dy: int)
    requires
        i32::MIN <= rect.left + dx <= i32::MAX,
        i32::MIN <= rect.right + dx <= i32::MAX,
        i32::MIN <= rect.top + dy <= i32::MAX,
        i32::MIN <= rect.bottom + dy <= i32::MAX,
    ensures
        region_width(moved(rect, dx, dy)) == region_width(rect),
        region_height(moved(rect, dx, dy)) == region_height(rect),
{
    let m = moved(rect, dx, dy);
    assert(m.right - m.left == rect.right - rect.left);
    assert(m.bottom - m.top == rect.bottom - rect.top);
}

/// Law: a region whose right edge is not left of its left edge, and whose
/// bottom is not above its top, is exactly `right - left` wide and
/// `bottom - top` high.
pub proof fn lemma_region_size_of_ordered_region(rect: WindowRect)
    requires
        rect.left <= rect.right,
        rect.top <= rect.bottom,
    ensures
        region_width(rect) == rect.right - rect.left,
        region_height(rect) == rect.bottom - rect.top,
{
}

/// Bytes in one packed row of `width` BGRA pixels.
pub open spec fn row_bytes(width: u32) -> int {
    width * 4
}

/// Position of byte `col` of row `row` in a buffer with rows `stride` apart.
pub open spec fn offset(row: int, col: int, stride: int) -> int {
    row * stride + col
}

/// Law: a row of `width` pixels takes four bytes per pixel.
pub proof fn lemma_row_bytes_per_pixel(width: u32)
    requires
        width < u32::MAX,
    ensures
        row_bytes(0) == 0,
        row_bytes((width + 1) as u32) == row_bytes(width) + 4,
{
}

/// Law: buffer positions run row by row: the first byte of the first row is
/// at 0, the next byte of a row follows directly, and the next row starts
/// `stride` bytes after the start of the previous one.
pub proof fn lemma_offset_row_major(row: int, col: int, stride: int)
    ensures
        offset(0, 0, stride) == 0,
        offset(row, col + 1, stride) == offset(row, col, stride) + 1,
        offset(row + 1, 0, stride) == offset(row, 0, stride) + stride,
{
    assert((row + 1) * stride == row * stride + stride) by (nonlinear_arith);
}

proof fn lemma_offset_below(r: int, k: int, stride: int, rows: int)
    requires
        0 <= r < rows,
        0 <= k < stride,
    ensures
        0 <= offset(r, k, stride) < rows * stride,
{
    assert(0 <= r * stride + k < rows * stride) by (nonlinear_arith)
        requires
            0 <= r < rows,
            0 <= k < stride,
    ;
}

proof fn lemma_row_start_bound(row: int, rows: int, pitch: int)
    requires
        0 <= row < rows,
        0 <= pitch,
    ensures
        row * pitch <= (rows - 1) * pitch,
{
    assert(row * pitch <= (rows - 1) * pitch) by (nonlinear_arith)
        requires
            0 <= row < rows,
            0 <= pitch,
    ;
}

/// Copies the first `rows` rows of a mapped texture, whose rows lie
/// `row_pitch` bytes apart in `mapped`, into a buffer of `width` x
/// `texture_height` tightly packed 4-byte pixels; bytes past the copied rows
/// stay zero.
pub fn pack_rows(mapped: &[u8], row_pitch: u32, width: u32, texture_height: u32, rows: u32) -> (bits:
    Vec<u8>)
    requires
        width * texture_height * 4 <= u32::MAX,
        rows * row_bytes(width) <= width * texture_height * 4,
        rows > 0 ==> (rows - 1) * row_pitch <= u32::MAX,
        rows > 0 ==> (rows - 1) * row_pitch + row_bytes(width) <= mapped@.len(),
    ensures
        bits@.len() == width * texture_height * 4,
        forall|r: int, k: int|
            0 <= r < rows && 0 <= k < row_bytes(width) ==> #[trigger] bits@[offset(
                r,
                k,
                row_bytes(width),
            )] == mapped@[offset(r, k, row_pitch as int)],
        forall|i: int| rows * row_bytes(width) <= i < bits@.len() ==> bits@[i] == 0,
{
    let row_len: u64 = width as u64 * 4;
    let total: u64 = width as u64 * texture_height as u64 * 4;
    let mut bits: Vec<u8> = Vec::new();
    let mut row: u32 = 0;
    while row < rows
        invariant
            row <= rows,
            row_len == row_bytes(width),
            total == width * texture_height * 4,
            total <= u32::MAX,
            rows * row_bytes(width) <= total,
            rows > 0 ==> (rows - 1) * row_pitch + row_bytes(width) <= mapped@.len(),
            rows > 0 ==> (rows - 1) * row_pitch <= u32::MAX,
            bits@.len() == row * row_len,
            forall|r: int, k: int|
                0 <= r < row && 0 <= k < row_len ==> #[trigger] bits@[offset(r, k, row_len as int)]
                    == mapped@[offset(r, k, row_pitch as int)],
        decreases rows - row,
    {
        proof {
            lemma_row_start_bound(row as int, rows as int, row_pitch as int);
            assert(row_len <= rows * row_len) by (nonlinear_arith)
                requires
                    rows >= 1,
            ;
        }
        let start: u64 = row as u64 * row_pitch as u64;
        let mut k: u64 = 0;
        while k < row_len
            invariant
                row < rows,
                row_len == row_bytes(width),
                start == row * row_pitch,
                start <= u32::MAX,
                row_len <= u32::MAX,
                start + row_len <= mapped@.len(),
                k <= row_len,
                bits@.len() == row * row_len + k,
                forall|r: int, c: int|
                    0 <= r < row && 0 <= c < row_len ==> #[trigger] bits@[offset(
                        r,
                        c,
                        row_len as int,
                    )] == mapped@[offset(r, c, row_pitch as int)],
                forall|c: int|
                    0 <= c < k ==> #[trigger] bits@[offset(row as int, c, row_len as int)]
                        == mapped@[offset(row as int, c, row_pitch as int)],
            decreases row_len - k,
        {
            let ghost before = bits@;
            bits.push(mapped[(start + k) as usize]);
            proof {
                assert forall|r: int, c: int|
                    0 <= r < row && 0 <= c < row_len implies #[trigger] bits@[offset(
                        r,
                        c,
                        row_len as int,
                    )] == mapped@[offset(r, c, row_pitch as int)] by {
                    lemma_offset_below(r, c, row_len as int, row as int);
                    assert(row * row_len <= before.len());
                }
                assert forall|c: int|
                    0 <= c < k + 1 implies #[trigger] bits@[offset(row as int, c, row_len as int)]
                        == mapped@[offset(row as int, c, row_pitch as int)] by {
                    if c < k {
                        assert(bits@[offset(row as int, c, row_len as int)] == before[offset(
                            row as int,
                            c,
                            row_len as int,
                        )]);
                    }
                }
            }
            k = k + 1;
        }
        proof {
            assert(row * row_len + row_len == (row + 1) * row_len) by (nonlinear_arith);
            assert forall|r: int, c: int|
                0 <= r < row + 1 && 0 <= c < row_len implies #[trigger] bits@[offset(
                    r,
                    c,
                    row_len as int,
                )] == mapped@[offset(r, c, row_pitch as int)] by {
                if r == row {
                    assert(bits@[offset(row as int, c, row_len as int)] == mapped@[offset(
                        row as int,
                        c,
                        row_pitch as int,
                    )]);
                }
            }
        }
        row = row + 1;
    }
    let ghost copied = bits@;
    while (bits.len() as u64) < total
        invariant
            total == width * texture_height * 4,
            copied.len() == rows * row_bytes(width),
            copied.len() <= bits@.len() <= total,
            bits@.subrange(0, copied.len() as int) == copied,
            forall|i: int| copied.len() <= i < bits@.len() ==> bits@[i] == 0,
        decreases total - bits@.len(),
    {
        let ghost before = bits@;
        bits.push(0);
        proof {
            assert(bits@.subrange(0, copied.len() as int) =~= before.subrange(
                0,
                copied.len() as int,
            ));
        }
    }
    proof {
        assert forall|r: int, c: int|
            0 <= r < rows && 0 <= c < row_bytes(width) implies #[trigger] bits@[offset(
                r,
                c,
                row_bytes(width),
            )] == mapped@[offset(r, c, row_pitch as int)] by {
            lemma_offset_below(r, c, row_bytes(width), rows as int);
            assert(bits@[offset(r, c, row_bytes(width))] == bits@.subrange(
                0,
                copied.len() as int,
            )[offset(r, c, row_bytes(width))]);
        }
    }
    bits
}

} // verus!
