//! Pixel access on packed 4-byte-per-pixel buffers (stride in bytes per
//! row), as the screen capture and the display buffer lay them out.

use vstd::prelude::*;

verus! {

/// The byte offset of pixel `(x, y)` in a buffer with `stride` bytes per row.
pub open spec fn pixel_offset(stride: i32, x: i32, y: i32) -> int {
    y * stride + x * 4
}

/// The offset arithmetic stays inside `i32`, as the pixel routines compute
/// it in `i32`.
pub open spec fn offset_fits(stride: i32, x: i32, y: i32) -> bool {
    &&& i32::MIN <= y * stride <= i32::MAX
    &&& i32::MIN <= x * 4 <= i32::MAX
    &&& i32::MIN <= pixel_offset(stride, x, y) <= i32::MAX
}

/// The offset, taken as a `usize` and advanced by 4, does not wrap around:
/// offsets from -4 to -1 would.
pub open spec fn offset_usable(stride: i32, x: i32, y: i32) -> bool {
    offset_fits(stride, x, y) && !(-4 <= pixel_offset(stride, x, y) < 0)
}

/// Whether the whole pixel at `(x, y)` lies inside a buffer of `len` bytes.
pub open spec fn pixel_in_bounds(len: int, stride: i32, x: i32, y: i32) -> bool {
    0 <= pixel_offset(stride, x, y) && pixel_offset(stride, x, y) + 4 <= len
}

/// Opaque black, what a read outside the buffer gives.
pub open spec fn outside_pixel() -> Seq<u8> {
    seq![0u8, 0u8, 0u8, 0xFFu8]
}

/// The pixel a read at `(x, y)` gives.
pub open spec fn spec_read_pixel(bytes: Seq<u8>, stride: i32, x: i32, y: i32) -> Seq<u8> {
    if pixel_in_bounds(bytes.len() as int, stride, x, y) {
        let o = pixel_offset(stride, x, y);
        bytes.subrange(o, o + 4)
    } else {
        outside_pixel()
    }
}

/// The buffer after writing `p` at `(x, y)`; a pixel that does not lie
/// wholly inside the buffer is not written.
pub open spec fn spec_write_pixel(
    bytes: Seq<u8>,
    stride: i32,
    x: i32,
    y: i32,
    p: Seq<u8>,
) -> Seq<u8> {
    if pixel_in_bounds(bytes.len() as int, stride, x, y) {
        let o = pixel_offset(stride, x, y);
        bytes.subrange(0, o) + p + bytes.subrange(o + 4, bytes.len() as int)
    } else {
        bytes
    }
}

/// The colour of the bar while nothing has been captured: 0xFF14141c as
/// little-endian bytes.
pub open spec fn placeholder_pixel() -> Seq<u8> {
    seq![0x1cu8, 0x14u8, 0x14u8, 0xFFu8]
}

/// The buffer with each whole 4-byte pixel set to the placeholder colour
/// and a trailing partial pixel left as it was.
pub open spec fn spec_fill_placeholder(bytes: Seq<u8>) -> Seq<u8> {
    Seq::new(
        bytes.len(),
        |i: int|
            if i < bytes.len() - bytes.len() % 4 {
                placeholder_pixel()[i % 4]
            } else {
                bytes[i]
            },
    )
}

/// `v` limited to `lo..=hi` as `v.max(lo).min(hi)`: when `hi < lo` this
/// gives `hi`.
pub open spec fn spec_clampi(v: i32, lo: i32, hi: i32) -> i32 {
    let m = if v < lo {
        lo
    } else {
        v
    };
    if m > hi {
        hi
    } else {
        m
    }
}

/// `v` clamped to `lo..=hi` (`v.max(lo).min(hi)`).
pub fn clampi(v: i32, lo: i32, hi: i32) -> (r: i32)
    ensures
        r == spec_clampi(v, lo, hi),
        lo <= hi ==> lo <= r <= hi,
        lo <= v <= hi ==> r == v,
{
    let m = if v < lo {
        lo
    } else {
        v
    };
    if m > hi {
        hi
    } else {
        m
    }
}

/// Reads the 4 bytes of pixel `(x, y)`; a pixel that does not lie wholly
/// inside `src` reads as opaque black.
pub fn read_pixel(src: &[u8], stride: i32, x: i32, y: i32) -> (r: [u8; 4])
    requires
        offset_usable(stride, x, y),
    ensures
        r@ == spec_read_pixel(src@, stride, x, y),
{
    let off = y * stride + x * 4;
    if off >= 0 && (off as usize) <= src.len() && src.len() - (off as usize) >= 4 {
        let o = off as usize;
        let r = [src[o], src[o + 1], src[o + 2], src[o + 3]];
        assert(r@ =~= src@.subrange(o as int, o + 4));
        r
    } else {
        let r = [0u8, 0u8, 0u8, 0xFFu8];
        assert(r@ =~= outside_pixel());
        r
    }
}

/// Writes the 4 bytes of `pixel` at `(x, y)` when that pixel lies wholly
/// inside `dst`; otherwise leaves `dst` as it was.
pub fn write_pixel(dst: &mut [u8], stride: i32, x: i32, y: i32, pixel: [u8; 4])
    requires
        offset_usable(stride, x, y),
    ensures
        final(dst)@ == spec_write_pixel(old(dst)@, stride, x, y, pixel@),
{
    let off = y * stride + x * 4;
    if off >= 0 && (off as usize) <= dst.len() && dst.len() - (off as usize) >= 4 {
        let o = off as usize;
        let ghost before = dst@;
        dst[o] = pixel[0];
        dst[o + 1] = pixel[1];
        dst[o + 2] = pixel[2];
        dst[o + 3] = pixel[3];
        assert(dst@ =~= before.subrange(0, o as int) + pixel@ + before.subrange(
            o + 4,
            before.len() as int,
        ));
    }
}

/// Fills every whole 4-byte pixel of `canvas` with the placeholder colour.
pub fn fill_placeholder(canvas: &mut [u8])
    ensures
        final(canvas)@ == spec_fill_placeholder(old(canvas)@),
{
    let n = canvas.len();
    let whole = n - n % 4;
    let ghost before = canvas@;
    let mut i: usize = 0;
    while i < whole
        invariant
            canvas@.len() == n == before.len(),
            whole == n - n % 4,
            i <= whole,
            i % 4 == 0,
            forall|j: int| 0 <= j < i ==> canvas@[j] == placeholder_pixel()[j % 4],
            forall|j: int| i <= j < n ==> canvas@[j] == before[j],
        decreases whole - i,
    {
        canvas[i] = 0x1c;
        canvas[i + 1] = 0x14;
        canvas[i + 2] = 0x14;
        canvas[i + 3] = 0xFF;
        i = i + 4;
    }
    assert(canvas@ =~= spec_fill_placeholder(before));
}

/// The four pixels around a source point for bilinear filtering: the
/// clamped top-left corner `(x0, y0)` and the pixels at `(x0, y0)`,
/// `(x1, y0)`, `(x0, y1)` and `(x1, y1)`, where `x1`, `y1` are the next
/// column and row clamped to the image.
pub struct BilinearTaps {
    pub x0: i32,
    pub y0: i32,
    pub p00: [u8; 4],
    pub p10: [u8; 4],
    pub p01: [u8; 4],
    pub p11: [u8; 4],
}

/// Every pixel read that sampling at `(x, y)` makes has a usable offset.
pub open spec fn taps_usable(w: i32, h: i32, stride: i32, x: i32, y: i32) -> bool {
    let x0 = spec_clampi(x, 0, (w - 1) as i32);
    let y0 = spec_clampi(y, 0, (h - 1) as i32);
    let x1 = spec_clampi((x0 + 1) as i32, 0, (w - 1) as i32);
    let y1 = spec_clampi((y0 + 1) as i32, 0, (h - 1) as i32);
    &&& offset_usable(stride, x0, y0)
    &&& offset_usable(stride, x1, y0)
    &&& offset_usable(stride, x0, y1)
    &&& offset_usable(stride, x1, y1)
}

/// The pixel nearest to an already rounded source position: the position
/// is clamped to the `w` by `h` image, then read.
pub fn sample_nearest_at(src: &[u8], w: i32, h: i32, stride: i32, x: i32, y: i32) -> (r: [u8; 4])
    requires
        w > i32::MIN,
        h > i32::MIN,
        offset_usable(
            stride,
            spec_clampi(x, 0, (w - 1) as i32),
            spec_clampi(y, 0, (h - 1) as i32),
        ),
    ensures
        r@ == spec_read_pixel(
            src@,
            stride,
            spec_clampi(x, 0, (w - 1) as i32),
            spec_clampi(y, 0, (h - 1) as i32),
        ),
{
    let cx = clampi(x, 0, w - 1);
    let cy = clampi(y, 0, h - 1);
    read_pixel(src, stride, cx, cy)
}

/// The four pixels that bilinear filtering blends for a source point whose
/// floor is `(x, y)`.
pub fn bilinear_taps(src: &[u8], w: i32, h: i32, stride: i32, x: i32, y: i32) -> (r: BilinearTaps)
    requires
        w > i32::MIN,
        h > i32::MIN,
        taps_usable(w, h, stride, x, y),
    ensures
        r.x0 == spec_clampi(x, 0, (w - 1) as i32),
        r.y0 == spec_clampi(y, 0, (h - 1) as i32),
        ({
            let x1 = spec_clampi((r.x0 + 1) as i32, 0, (w - 1) as i32);
            let y1 = spec_clampi((r.y0 + 1) as i32, 0, (h - 1) as i32);
            &&& r.p00@ == spec_read_pixel(src@, stride, r.x0, r.y0)
            &&& r.p10@ == spec_read_pixel(src@, stride, x1, r.y0)
            &&& r.p01@ == spec_read_pixel(src@, stride, r.x0, y1)
            &&& r.p11@ == spec_read_pixel(src@, stride, x1, y1)
        }),
{
    let x0 = clampi(x, 0, w - 1);
    let y0 = clampi(y, 0, h - 1);
    let x1 = clampi(x0 + 1, 0, w - 1);
    let y1 = clampi(y0 + 1, 0, h - 1);
    BilinearTaps {
        x0,
        y0,
        p00: read_pixel(src, stride, x0, y0),
        p10: read_pixel(src, stride, x1, y0),
        p01: read_pixel(src, stride, x0, y1),
        p11: read_pixel(src, stride, x1, y1),
    }
}

/// The source pixel nearest-neighbour scaling shows for a destination pixel
/// whose rounded source column is `col` and row is `row`.
pub open spec fn nearest_source_pixel(
    src: Seq<u8>,
    w: i32,
    h: i32,
    stride: i32,
    col: i32,
    row: i32,
) -> Seq<u8> {
    spec_read_pixel(src, stride, spec_clampi(col, 0, (w - 1) as i32), spec_clampi(row, 0, (h - 1) as i32))
}

/// Destination row `y` after its first `n` pixels are written, left to
/// right, each from source column `cols[x]` of source row `row`.
pub open spec fn scaled_row(
    dst: Seq<u8>,
    src: Seq<u8>,
    w: i32,
    h: i32,
    src_stride: i32,
    dst_stride: i32,
    cols: Seq<i32>,
    row: i32,
    y: int,
    n: int,
) -> Seq<u8>
    decreases n,
{
    if n <= 0 {
        dst
    } else {
        spec_write_pixel(
            scaled_row(dst, src, w, h, src_stride, dst_stride, cols, row, y, n - 1),
            dst_stride,
            (n - 1) as i32,
            y as i32,
            nearest_source_pixel(src, w, h, src_stride, cols[n - 1], row),
        )
    }
}

/// The destination after its first `m` rows are written, top to bottom,
/// destination row `y` from source row `rows[y]`.
pub open spec fn scaled_rows(
    dst: Seq<u8>,
    src: Seq<u8>,
    w: i32,
    h: i32,
    src_stride: i32,
    dst_stride: i32,
    cols: Seq<i32>,
    rows: Seq<i32>,
    m: int,
) -> Seq<u8>
    decreases m,
{
    if m <= 0 {
        dst
    } else {
        scaled_row(
            scaled_rows(dst, src, w, h, src_stride, dst_stride, cols, rows, m - 1),
            src,
            w,
            h,
            src_stride,
            dst_stride,
            cols,
            rows[m - 1],
            m - 1,
            cols.len() as int,
        )
    }
}

/// Every read and write of a nearest-neighbour scaling has a usable offset.
pub open spec fn scaling_offsets_usable(
    w: i32,
    h: i32,
    src_stride: i32,
    dst_stride: i32,
    cols: Seq<i32>,
    rows: Seq<i32>,
) -> bool {
    forall|x: int, y: int|
        0 <= x < cols.len() && 0 <= y < rows.len() ==> {
            &&& offset_usable(
                src_stride,
                spec_clampi(#[trigger] cols[x], 0, (w - 1) as i32),
                spec_clampi(#[trigger] rows[y], 0, (h - 1) as i32),
            )
            &&& offset_usable(dst_stride, x as i32, y as i32)
        }
}

/// Nearest-neighbour scaling of a `w` by `h` source into the destination:
/// destination pixel `(x, y)` is the source pixel at the rounded source
/// position `(cols[x], rows[y])`, clamped to the source; pixels are
/// written row by row, each only where it lies wholly inside `dst`. An
/// empty source (`w` or `h` below 1) leaves `dst` as it was.
pub fn blit_nearest(
    src: &[u8],
    w: i32,
    h: i32,
    src_stride: i32,
    dst: &mut [u8],
    dst_stride: i32,
    cols: &Vec<i32>,
    rows: &Vec<i32>,
)
    requires
        w > i32::MIN,
        h > i32::MIN,
        cols.len() <= i32::MAX,
        rows.len() <= i32::MAX,
        (w >= 1 && h >= 1) ==> scaling_offsets_usable(w, h, src_stride, dst_stride, cols@, rows@),
    ensures
        final(dst)@ == if w < 1 || h < 1 {
            old(dst)@
        } else {
            scaled_rows(
                old(dst)@,
                src@,
                w,
                h,
                src_stride,
                dst_stride,
                cols@,
                rows@,
                rows@.len() as int,
            )
        },
{
    if w < 1 || h < 1 {
        return;
    }
    let ghost before = dst@;
    let mut y: usize = 0;
    while y < rows.len()
        invariant
            y <= rows.len() <= i32::MAX,
            cols.len() <= i32::MAX,
            w >= 1,
            h >= 1,
            scaling_offsets_usable(w, h, src_stride, dst_stride, cols@, rows@),
            dst@ == scaled_rows(
                before,
                src@,
                w,
                h,
                src_stride,
                dst_stride,
                cols@,
                rows@,
                y as int,
            ),
        decreases rows.len() - y,
    {
        let ghost row_start = dst@;
        let row = rows[y];
        let mut x: usize = 0;
        while x < cols.len()
            invariant
                x <= cols.len() <= i32::MAX,
                y < rows.len() <= i32::MAX,
                w >= 1,
                h >= 1,
                row == rows@[y as int],
                scaling_offsets_usable(w, h, src_stride, dst_stride, cols@, rows@),
                dst@ == scaled_row(
                    row_start,
                    src@,
                    w,
                    h,
                    src_stride,
                    dst_stride,
                    cols@,
                    row,
                    y as int,
                    x as int,
                ),
            decreases cols.len() - x,
        {
            let col = cols[x];
            assert(offset_usable(
                src_stride,
                spec_clampi(cols@[x as int], 0, (w - 1) as i32),
                spec_clampi(rows@[y as int], 0, (h - 1) as i32),
            ) && offset_usable(dst_stride, x as i32, y as i32));
            let p = sample_nearest_at(src, w, h, src_stride, col, row);
            write_pixel(dst, dst_stride, x as i32, y as i32, p);
            x = x + 1;
        }
        y = y + 1;
    }
}

/// Reading a pixel back after writing it inside the buffer gives what was
/// written.
pub proof fn lemma_read_after_write(bytes: Seq<u8>, stride: i32, x: i32, y: i32, p: Seq<u8>)
    requires
        p.len() == 4,
        pixel_in_bounds(bytes.len() as int, stride, x, y),
    ensures
        spec_read_pixel(spec_write_pixel(bytes, stride, x, y, p), stride, x, y) == p,
{
    let o = pixel_offset(stride, x, y);
    let w = spec_write_pixel(bytes, stride, x, y, p);
    assert(w.len() == bytes.len());
    assert(w.subrange(o, o + 4) =~= p);
}

/// Writing a pixel leaves every byte outside that pixel unchanged, so a
/// pixel that does not overlap it reads the same as before.
pub proof fn lemma_write_keeps_other_bytes(
    bytes: Seq<u8>,
    stride: i32,
    x: i32,
    y: i32,
    p: Seq<u8>,
    i: int,
)
    requires
        p.len() == 4,
        0 <= i < bytes.len(),
        !(pixel_offset(stride, x, y) <= i < pixel_offset(stride, x, y) + 4),
    ensures
        spec_write_pixel(bytes, stride, x, y, p).len() == bytes.len(),
        spec_write_pixel(bytes, stride, x, y, p)[i] == bytes[i],
{
}

/// After the placeholder fill every pixel inside the buffer whose offset
/// is a multiple of 4 reads as the placeholder colour.
pub proof fn lemma_placeholder_reads(bytes: Seq<u8>, stride: i32, x: i32, y: i32)
    requires
        pixel_in_bounds(bytes.len() as int, stride, x, y),
        pixel_offset(stride, x, y) % 4 == 0,
    ensures
        spec_read_pixel(spec_fill_placeholder(bytes), stride, x, y) == placeholder_pixel(),
{
    let o = pixel_offset(stride, x, y);
    let f = spec_fill_placeholder(bytes);
    let n = bytes.len() as int;
    assert(o + 4 <= n - n % 4) by (nonlinear_arith)
        requires
            o % 4 == 0,
            0 <= o,
            o + 4 <= n,
    ;
    assert forall|k: int| 0 <= k < 4 implies #[trigger] f.subrange(o, o + 4)[k]
        == placeholder_pixel()[k] by {
        assert((o + k) % 4 == k) by (nonlinear_arith)
            requires
                o % 4 == 0,
                0 <= k < 4,
                0 <= o,
        ;
    }
    assert(f.subrange(o, o + 4) =~= placeholder_pixel());
}

/// Byte `i` belongs to the pixel at `(x, y)`.
pub open spec fn byte_in_pixel(i: int, stride: int, x: int, y: int) -> bool {
    y * stride + x * 4 <= i < y * stride + x * 4 + 4
}

proof fn lemma_pixels_disjoint(stride: int, width: int, x1: int, y1: int, x2: int, y2: int)
    requires
        stride >= 4 * width,
        0 <= x1 < width,
        0 <= x2 < width,
        0 <= y1,
        0 <= y2,
        x1 != x2 || y1 != y2,
    ensures
        y1 * stride + x1 * 4 + 4 <= y2 * stride + x2 * 4 || y2 * stride + x2 * 4 + 4 <= y1
            * stride + x1 * 4,
{
    if y1 < y2 {
        assert(y2 * stride - y1 * stride >= stride) by (nonlinear_arith)
            requires
                y2 - y1 >= 1,
                stride >= 0,
        ;
    } else if y2 < y1 {
        assert(y1 * stride - y2 * stride >= stride) by (nonlinear_arith)
            requires
                y1 - y2 >= 1,
                stride >= 0,
        ;
    }
}

proof fn lemma_same_pixel_bytes(b1: Seq<u8>, b2: Seq<u8>, stride: i32, x: i32, y: i32)
    requires
        b1.len() == b2.len(),
        forall|i: int|
            pixel_offset(stride, x, y) <= i < pixel_offset(stride, x, y) + 4 && 0 <= i < b1.len()
                ==> b1[i] == b2[i],
    ensures
        spec_read_pixel(b1, stride, x, y) == spec_read_pixel(b2, stride, x, y),
{
    if pixel_in_bounds(b1.len() as int, stride, x, y) {
        let o = pixel_offset(stride, x, y);
        assert(b1.subrange(o, o + 4) =~= b2.subrange(o, o + 4));
    }
}

proof fn lemma_scaled_row_len(
    dst: Seq<u8>,
    src: Seq<u8>,
    w: i32,
    h: i32,
    src_stride: i32,
    dst_stride: i32,
    cols: Seq<i32>,
    row: i32,
    y: int,
    n: int,
)
    ensures
        scaled_row(dst, src, w, h, src_stride, dst_stride, cols, row, y, n).len() == dst.len(),
    decreases n,
{
    if n > 0 {
        lemma_scaled_row_len(dst, src, w, h, src_stride, dst_stride, cols, row, y, n - 1);
    }
}

proof fn lemma_scaled_rows_len(
    dst: Seq<u8>,
    src: Seq<u8>,
    w: i32,
    h: i32,
    src_stride: i32,
    dst_stride: i32,
    cols: Seq<i32>,
    rows: Seq<i32>,
    m: int,
)
    ensures
        scaled_rows(dst, src, w, h, src_stride, dst_stride, cols, rows, m).len() == dst.len(),
    decreases m,
{
    if m > 0 {
        lemma_scaled_rows_len(dst, src, w, h, src_stride, dst_stride, cols, rows, m - 1);
        lemma_scaled_row_len(
            scaled_rows(dst, src, w, h, src_stride, dst_stride, cols, rows, m - 1),
            src,
            w,
            h,
            src_stride,
            dst_stride,
            cols,
            rows[m - 1],
            m - 1,
            cols.len() as int,
        );
    }
}

/// Writing row `y` leaves alone every byte outside that row's pixels.
proof fn lemma_scaled_row_keeps(
    dst: Seq<u8>,
    src: Seq<u8>,
    w: i32,
    h: i32,
    src_stride: i32,
    dst_stride: i32,
    cols: Seq<i32>,
    row: i32,
    y: int,
    n: int,
    i: int,
)
    requires
        0 <= n <= cols.len() <= i32::MAX,
        0 <= y <= i32::MAX,
        0 <= i < dst.len(),
        forall|x: int| 0 <= x < n ==> !#[trigger] byte_in_pixel(i, dst_stride as int, x, y),
    ensures
        scaled_row(dst, src, w, h, src_stride, dst_stride, cols, row, y, n)[i] == dst[i],
    decreases n,
{
    if n > 0 {
        lemma_scaled_row_keeps(dst, src, w, h, src_stride, dst_stride, cols, row, y, n - 1, i);
        lemma_scaled_row_len(dst, src, w, h, src_stride, dst_stride, cols, row, y, n - 1);
        let prev = scaled_row(dst, src, w, h, src_stride, dst_stride, cols, row, y, n - 1);
        assert(!byte_in_pixel(i, dst_stride as int, n - 1, y));
        assert(((n - 1) as i32) as int == n - 1);
        assert((y as i32) as int == y);
        lemma_write_keeps_other_bytes(
            prev,
            dst_stride,
            (n - 1) as i32,
            y as i32,
            nearest_source_pixel(src, w, h, src_stride, cols[n - 1], row),
            i,
        );
    }
}

/// After row `y` is written up to `n`, each of its pixels before `n` that
/// lies inside the buffer holds its source pixel.
proof fn lemma_scaled_row_reads(
    dst: Seq<u8>,
    src: Seq<u8>,
    w: i32,
    h: i32,
    src_stride: i32,
    dst_stride: i32,
    cols: Seq<i32>,
    row: i32,
    y: int,
    n: int,
    x: int,
)
    requires
        0 <= x < n <= cols.len() <= i32::MAX,
        0 <= y <= i32::MAX,
        dst_stride >= 4 * cols.len(),
        pixel_in_bounds(dst.len() as int, dst_stride, x as i32, y as i32),
    ensures
        spec_read_pixel(
            scaled_row(dst, src, w, h, src_stride, dst_stride, cols, row, y, n),
            dst_stride,
            x as i32,
            y as i32,
        ) == nearest_source_pixel(src, w, h, src_stride, cols[x], row),
    decreases n,
{
    let p = nearest_source_pixel(src, w, h, src_stride, cols[n - 1], row);
    let prev = scaled_row(dst, src, w, h, src_stride, dst_stride, cols, row, y, n - 1);
    lemma_scaled_row_len(dst, src, w, h, src_stride, dst_stride, cols, row, y, n - 1);
    if x == n - 1 {
        lemma_read_after_write(prev, dst_stride, x as i32, y as i32, p);
    } else {
        lemma_scaled_row_reads(dst, src, w, h, src_stride, dst_stride, cols, row, y, n - 1, x);
        lemma_pixels_disjoint(dst_stride as int, cols.len() as int, x, y, n - 1, y);
        let next = spec_write_pixel(prev, dst_stride, (n - 1) as i32, y as i32, p);
        assert forall|i: int|
            pixel_offset(dst_stride, x as i32, y as i32) <= i < pixel_offset(
                dst_stride,
                x as i32,
                y as i32,
            ) + 4 && 0 <= i < prev.len() implies prev[i] == next[i] by {
            lemma_write_keeps_other_bytes(prev, dst_stride, (n - 1) as i32, y as i32, p, i);
        }
        assert(next.len() == prev.len());
        lemma_same_pixel_bytes(prev, next, dst_stride, x as i32, y as i32);
    }
}

/// Nearest-neighbour scaling fills the destination: when rows do not
/// overlap (the stride holds a whole row of pixels), every destination
/// pixel that lies inside the buffer shows the source pixel at its
/// rounded, clamped source position.
pub proof fn lemma_scaled_pixels(
    dst: Seq<u8>,
    src: Seq<u8>,
    w: i32,
    h: i32,
    src_stride: i32,
    dst_stride: i32,
    cols: Seq<i32>,
    rows: Seq<i32>,
    m: int,
    x: int,
    y: int,
)
    requires
        cols.len() <= i32::MAX,
        rows.len() <= i32::MAX,
        0 <= y < m <= rows.len(),
        0 <= x < cols.len(),
        dst_stride >= 4 * cols.len(),
        pixel_in_bounds(dst.len() as int, dst_stride, x as i32, y as i32),
    ensures
        spec_read_pixel(
            scaled_rows(dst, src, w, h, src_stride, dst_stride, cols, rows, m),
            dst_stride,
            x as i32,
            y as i32,
        ) == nearest_source_pixel(src, w, h, src_stride, cols[x], rows[y]),
    decreases m,
{
    let prev = scaled_rows(dst, src, w, h, src_stride, dst_stride, cols, rows, m - 1);
    lemma_scaled_rows_len(dst, src, w, h, src_stride, dst_stride, cols, rows, m - 1);
    let n = cols.len() as int;
    if y == m - 1 {
        lemma_scaled_row_reads(prev, src, w, h, src_stride, dst_stride, cols, rows[m - 1], y, n, x);
    } else {
        lemma_scaled_pixels(dst, src, w, h, src_stride, dst_stride, cols, rows, m - 1, x, y);
        let next = scaled_row(prev, src, w, h, src_stride, dst_stride, cols, rows[m - 1], m - 1, n);
        lemma_scaled_row_len(prev, src, w, h, src_stride, dst_stride, cols, rows[m - 1], m - 1, n);
        assert forall|i: int|
            pixel_offset(dst_stride, x as i32, y as i32) <= i < pixel_offset(
                dst_stride,
                x as i32,
                y as i32,
            ) + 4 && 0 <= i < prev.len() implies prev[i] == next[i] by {
            assert forall|x2: int| 0 <= x2 < n implies !#[trigger] byte_in_pixel(
                i,
                dst_stride as int,
                x2,
                m - 1,
            ) by {
                lemma_pixels_disjoint(dst_stride as int, n, x, y, x2, m - 1);
            }
            lemma_scaled_row_keeps(prev, src, w, h, src_stride, dst_stride, cols, rows[m - 1], m - 1, n, i);
        }
        lemma_same_pixel_bytes(prev, next, dst_stride, x as i32, y as i32);
    }
}

proof fn lemma_split_index(i: int, w: int, h: int)
    requires
        w >= 1,
        h >= 1,
        0 <= i < 4 * w * h,
    ensures
        0 <= i / (4 * w) < h,
        0 <= (i % (4 * w)) / 4 < w,
        0 <= (i % (4 * w)) % 4 < 4,
        i == (i / (4 * w)) * (4 * w) + ((i % (4 * w)) / 4) * 4 + (i % (4 * w)) % 4,
{
    let d = 4 * w;
    let y = i / d;
    let rem = i % d;
    vstd::arithmetic::div_mod::lemma_fundamental_div_mod(i, d);
    vstd::arithmetic::div_mod::lemma_mod_pos_bound(i, d);
    vstd::arithmetic::div_mod::lemma_fundamental_div_mod(rem, 4);
    vstd::arithmetic::div_mod::lemma_mod_pos_bound(rem, 4);
    assert(0 <= y < h) by (nonlinear_arith)
        requires
            d == 4 * w,
            w >= 1,
            i == d * y + rem,
            0 <= rem < d,
            0 <= i < d * h,
    ;
    assert(y * d == d * y) by (nonlinear_arith);
}

/// Scaling by a factor of 1 copies the image: when destination column `x`
/// reads source column `x` and row `y` reads source row `y`, and source and
/// destination both hold exactly `w` by `h` tightly packed pixels, the
/// destination ends equal to the source.
pub proof fn lemma_unit_scale_copies(
    dst: Seq<u8>,
    src: Seq<u8>,
    w: i32,
    h: i32,
    stride: i32,
    cols: Seq<i32>,
    rows: Seq<i32>,
)
    requires
        w >= 1,
        h >= 1,
        stride == 4 * w,
        cols.len() == w,
        rows.len() == h,
        forall|x: int| 0 <= x < w ==> cols[x] == x,
        forall|y: int| 0 <= y < h ==> rows[y] == y,
        src.len() == 4 * w * h,
        dst.len() == 4 * w * h,
    ensures
        scaled_rows(dst, src, w, h, stride, stride, cols, rows, h as int) == src,
{
    let r = scaled_rows(dst, src, w, h, stride, stride, cols, rows, h as int);
    lemma_scaled_rows_len(dst, src, w, h, stride, stride, cols, rows, h as int);
    assert forall|i: int| 0 <= i < r.len() implies r[i] == src[i] by {
        lemma_split_index(i, w as int, h as int);
        let y = i / (4 * w);
        let x = (i % (4 * w)) / 4;
        let b = (i % (4 * w)) % 4;
        assert(pixel_offset(stride, x as i32, y as i32) == y * stride + x * 4);
        assert(pixel_offset(stride, x as i32, y as i32) + 4 <= 4 * w * h) by (nonlinear_arith)
            requires
                stride == 4 * w,
                0 <= y < h,
                0 <= x < w,
        ;
        assert(y * stride >= 0) by (nonlinear_arith)
            requires
                stride >= 4,
                y >= 0,
        ;
        assert(i == pixel_offset(stride, x as i32, y as i32) + b);
        lemma_scaled_pixels(dst, src, w, h, stride, stride, cols, rows, h as int, x, y);
        assert(cols[x] == x);
        assert(rows[y] == y);
        let o = pixel_offset(stride, x as i32, y as i32);
        assert(r.subrange(o, o + 4) == src.subrange(o, o + 4));
        assert(r.subrange(o, o + 4)[b] == r[i]);
    }
    assert(r =~= src);
}

} // verus!
