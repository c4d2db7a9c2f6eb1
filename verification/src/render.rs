//! The dispatcher: scanlines from the top down, pixels from left to right, three bytes a
//! pixel.
//!
//! The dispatcher drives the scanlines one after the other, highest row first, and appends
//! the pixels of each in the order in which the scanline hands them over. How a scanline
//! comes by its pixels (the camera, the integrator, the gamma encoding, and whether the
//! pixels are computed side by side) is the caller's business.
use vstd::prelude::*;
use crate::scenes::Environment;

verus! {

/// One encoded pixel: red, green, blue.
pub type Rgb8 = (u8, u8, u8);

/// The side of the grid of strata for a number of samples per pixel, as a mathematical
/// function: the largest `n` whose square does not exceed the number of samples.
pub open spec fn spec_strata(samples_per_pixel: int, n: int) -> bool {
    0 <= n && n * n <= samples_per_pixel < (n + 1) * (n + 1)
}

/// The side of the grid on which the samples of a pixel are stratified: the square root
/// of the number of samples, rounded down.
pub fn strata(samples_per_pixel: u32) -> (n: u32)
    ensures
        spec_strata(samples_per_pixel as int, n as int),
        n <= 65535,
{
    // binary search for the root in 0..=65535
    let mut low: u32 = 0;
    let mut high: u32 = 65536;
    while high - low > 1
        invariant
            low < high <= 65536,
            low * low <= samples_per_pixel,
            samples_per_pixel < high * high,
        decreases high - low,
    {
        let mid = low + (high - low) / 2;
        assert(mid * mid <= 65535 * 65535) by (nonlinear_arith)
            requires
                0 <= mid <= 65535,
        ;
        if mid * mid <= samples_per_pixel {
            low = mid;
        } else {
            high = mid;
        }
    }
    low
}

/// The root found by [`strata`] is the only one.
pub proof fn lemma_strata_unique(samples_per_pixel: int, n: int, m: int)
    requires
        spec_strata(samples_per_pixel, n),
        spec_strata(samples_per_pixel, m),
    ensures
        n == m,
{
    if n < m {
        assert((n + 1) * (n + 1) <= m * m) by (nonlinear_arith)
            requires
                0 <= n,
                n + 1 <= m,
        ;
    } else if m < n {
        assert((m + 1) * (m + 1) <= n * n) by (nonlinear_arith)
            requires
                0 <= m,
                m + 1 <= n,
        ;
    }
}

/// The bytes of a scanline: the three bytes of each pixel, pixel after pixel.
pub open spec fn pack_row(row: Seq<Rgb8>) -> Seq<u8> {
    Seq::new(
        3 * row.len(),
        |k: int|
            if k % 3 == 0 {
                row[k / 3].0
            } else if k % 3 == 1 {
                row[k / 3].1
            } else {
                row[k / 3].2
            },
    )
}

/// The bytes of a picture: the bytes of each scanline, scanline after scanline.
pub open spec fn pack_rows(rows: Seq<Vec<Rgb8>>) -> Seq<u8>
    decreases rows.len(),
{
    if rows.len() == 0 {
        Seq::empty()
    } else {
        pack_rows(rows.drop_last()) + pack_row(rows.last()@)
    }
}

/// `rows` are scanlines that `scanline` admits for a picture of `height` rows, the topmost
/// first: the scanline at position `k` is one for the row `height - 1 - k`.
pub open spec fn scanned<F: Fn(u32) -> Vec<Rgb8>>(scanline: F, height: u32, rows: Seq<Vec<Rgb8>>) -> bool {
    &&& rows.len() == height
    &&& forall|k: int|
        0 <= k < height ==> call_ensures(scanline, ((height - 1 - k) as u32,), #[trigger] rows[k])
}

/// Appends one pixel to the picture: red, then green, then blue.
pub fn write_color(data: &mut Vec<u8>, pixel: Rgb8)
    ensures
        final(data)@ == old(data)@ + seq![pixel.0, pixel.1, pixel.2],
{
    data.push(pixel.0);
    data.push(pixel.1);
    data.push(pixel.2);
    assert(data@ =~= old(data)@ + seq![pixel.0, pixel.1, pixel.2]);
}

/// Appends a scanline to the picture.
pub fn write_row(data: &mut Vec<u8>, row: &Vec<Rgb8>)
    ensures
        final(data)@ == old(data)@ + pack_row(row@),
{
    let mut i: usize = 0;
    while i < row.len()
        invariant
            i <= row@.len(),
            data@ == old(data)@ + pack_row(row@.take(i as int)),
        decreases row@.len() - i,
    {
        let ghost before = data@;
        write_color(data, row[i]);
        proof {
            let done = row@.take(i as int);
            let more = row@.take(i + 1);
            assert(pack_row(more) =~= pack_row(done) + seq![row@[i as int].0, row@[i as int].1, row@[i as int].2]);
        }
        i = i + 1;
    }
    assert(row@.take(row@.len() as int) =~= row@);
}

/// Renders the picture of `environment`.
///
/// The rows are asked of `scanline` one by one, from row `height - 1`, the top of the
/// picture, down to row 0, and the bytes of each are appended to the picture as they
/// come: row-major, top row first, three bytes a pixel. Where every scanline has `width`
/// pixels, the picture has three bytes for each of its `width` by `height` pixels.
pub fn render<S, C, L, F: Fn(u32) -> Vec<Rgb8>>(environment: &Environment<S, C, L>, scanline: F) -> (data:
    Vec<u8>)
    requires
        forall|j: u32| j < environment.height() ==> call_requires(scanline, (j,)),
    ensures
        exists|rows: Seq<Vec<Rgb8>>| #[trigger]
            scanned(scanline, environment.height(), rows) && data@ == pack_rows(rows),
        (forall|j: u32, row: Vec<Rgb8>| #[trigger]
            call_ensures(scanline, (j,), row) ==> row@.len() == environment.width()) ==> data@.len()
            == 3 * environment.width() * environment.height(),
{
    let mut data: Vec<u8> = Vec::new();
    let h = environment.height();
    let mut j: u32 = h;
    let ghost mut rows: Seq<Vec<Rgb8>> = Seq::empty();
    while j > 0
        invariant
            j <= h == environment.height(),
            forall|k: u32| k < h ==> call_requires(scanline, (k,)),
            rows.len() == h - j,
            forall|k: int| 0 <= k < rows.len() ==> call_ensures(scanline, ((h - 1 - k) as u32,), #[trigger] rows[k]),
            data@ == pack_rows(rows),
        decreases j,
    {
        j = j - 1;
        let row = scanline(j);
        write_row(&mut data, &row);
        proof {
            let longer = rows.push(row);
            assert(longer.drop_last() =~= rows);
            assert(longer.last() == row);
            rows = longer;
        }
    }
    proof {
        assert(scanned(scanline, h, rows));
        if forall|j: u32, row: Vec<Rgb8>| #[trigger]
            call_ensures(scanline, (j,), row) ==> row@.len() == environment.width() {
            assert forall|m: int| 0 <= m < rows.len() implies (#[trigger] rows[m])@.len()
                == environment.width() by {
                assert(call_ensures(scanline, ((h - 1 - m) as u32,), rows[m]));
            }
            lemma_picture_length(rows, environment.width() as int);
        }
    }
    data
}

/// Where the bytes of a pixel start in a picture whose rows all have `width` pixels: the
/// rows are stored from the top, so row `j` of `height` comes after `height - 1 - j` others.
pub open spec fn spec_pixel_offset(i: int, j: int, width: int, height: int) -> int {
    3 * ((height - 1 - j) * width + i)
}

/// Where the bytes of the pixel in column `i` of row `j` start, for a picture that fits
/// into memory.
pub fn pixel_offset(i: u32, j: u32, width: u32, height: u32) -> (offset: usize)
    requires
        i < width,
        j < height,
        3 * width * height <= usize::MAX,
    ensures
        offset == spec_pixel_offset(i as int, j as int, width as int, height as int),
        offset + 3 <= 3 * width * height,
{
    let rows_above: usize = (height - 1 - j) as usize;
    assert(0 <= rows_above * width && rows_above * width + i < width * height) by (nonlinear_arith)
        requires
            rows_above + 1 <= height,
            i < width,
            0 <= rows_above,
            0 <= i,
    ;
    assert(3 * width * height == 3 * (width * height)) by (nonlinear_arith);
    3 * (rows_above * (width as usize) + (i as usize))
}

/// The layout of a picture whose scanlines all have `width` pixels: it has three bytes
/// for each pixel of each row, and the pixel at position `i` of the scanline at position
/// `k` from the top stands at the bytes from `3 * (k * width + i)` on.
pub proof fn lemma_picture_layout(rows: Seq<Vec<Rgb8>>, width: int, k: int, i: int)
    requires
        forall|m: int| 0 <= m < rows.len() ==> (#[trigger] rows[m])@.len() == width,
        0 <= k < rows.len(),
        0 <= i < width,
    ensures
        pack_rows(rows).len() == 3 * width * rows.len(),
        0 <= 3 * (k * width + i),
        3 * (k * width + i) + 2 < pack_rows(rows).len(),
        pack_rows(rows)[3 * (k * width + i)] == rows[k]@[i].0,
        pack_rows(rows)[3 * (k * width + i) + 1] == rows[k]@[i].1,
        pack_rows(rows)[3 * (k * width + i) + 2] == rows[k]@[i].2,
    decreases rows.len(),
{
    let n = rows.len() as int;
    let ahead = rows.drop_last();
    let last = rows.last()@;
    assert(3 * width * n == 3 * width * (n - 1) + 3 * width) by (nonlinear_arith);
    assert(0 <= k * width && k * width + width <= n * width) by (nonlinear_arith)
        requires
            0 <= k < n,
            0 <= width,
    ;
    assert(3 * width * n == 3 * (n * width)) by (nonlinear_arith);
    lemma_picture_length(ahead, width);
    assert(pack_rows(ahead).len() == 3 * width * (n - 1));
    if k < n - 1 {
        lemma_picture_layout(ahead, width, k, i);
        assert(ahead[k] == rows[k]);
    } else {
        assert(3 * width * (n - 1) == 3 * (k * width)) by (nonlinear_arith)
            requires
                k == n - 1,
        ;
        let at = 3 * i;
        assert(pack_row(last)[at] == last[i].0);
        assert(pack_row(last)[at + 1] == last[i].1);
        assert(pack_row(last)[at + 2] == last[i].2);
    }
}

/// A picture whose scanlines all have `width` pixels has three bytes for each pixel of
/// each row.
pub proof fn lemma_picture_length(rows: Seq<Vec<Rgb8>>, width: int)
    requires
        forall|m: int| 0 <= m < rows.len() ==> (#[trigger] rows[m])@.len() == width,
    ensures
        pack_rows(rows).len() == 3 * width * rows.len(),
    decreases rows.len(),
{
    if rows.len() > 0 {
        let n = rows.len() as int;
        let ahead = rows.drop_last();
        assert forall|m: int| 0 <= m < ahead.len() implies (#[trigger] ahead[m])@.len() == width by {
            assert(ahead[m] == rows[m]);
        }
        lemma_picture_length(ahead, width);
        assert(3 * width * n == 3 * width * (n - 1) + 3 * width) by (nonlinear_arith);
    } else {
        assert(3 * width * 0 == 0) by (nonlinear_arith);
    }
}

} // verus!
