//! The ASCII Tessera's integer core: the validated RGBA image, the grid of character cells
//! laid over it, the deterministic integer mean colours of cells (half-block and tint
//! renders), the feature vocabularies, and the budgets that guard every allocation.

use vstd::prelude::*;

use crate::atlas::{PATCH_COLS, PATCH_ROWS, PATCH_SLOTS};
use crate::feature::{max_radius_of, sum_slots, type_slots, FeatureField, FeatureSchema, FeatureType, Gather};
use crate::text::{decimal, push_decimal};

verus! {

/// Upper bound on grid cells, guarding against pathological allocations.
pub const MAX_CELLS: usize = 8000000;

/// Upper bound on the feature buffer produced for one render, in bytes (4 per slot).
pub const MAX_FEATURE_BYTES: usize = 8388608;

/// The core per-cell stride: luminance, gradient magnitude and orientation, cell-centre
/// position `u`/`v`, and mean colour `r`/`g`/`b`.
pub const CORE_STRIDE: u32 = 8;

/// The half-block glyph (`▀`, U+2580) every half-block cell uses.
pub const HALF_BLOCK: u32 = 0x2580;

/// Everything that can go wrong rendering an image to ASCII.
#[derive(Debug, Clone, PartialEq, Eq, Structural)]
pub enum Error {
    /// Image width or height was zero.
    EmptyImage,
    /// The RGBA buffer length did not equal `width * height * 4`.
    BufferSizeMismatch { expected: usize, actual: usize },
    /// Image or grid dimensions overflowed when computing a buffer size.
    DimensionOverflow,
    /// Requested output columns was zero.
    ZeroColumns,
    /// The glyph ramp was empty.
    EmptyRamp,
    /// The grid exceeded [`MAX_CELLS`].
    TooManyCells { cells: usize, max: usize },
    /// The feature buffer would exceed [`MAX_FEATURE_BYTES`].
    FeatureBufferTooLarge { bytes: usize, max: usize },
}

/// The human-readable text of an error.
pub open spec fn error_text(e: Error) -> Seq<char> {
    match e {
        Error::EmptyImage => "image width and height must both be non-zero"@,
        Error::BufferSizeMismatch { expected, actual } => "RGBA buffer size mismatch: expected "@
            + decimal(expected as nat) + " bytes, got "@ + decimal(actual as nat),
        Error::DimensionOverflow => "dimensions overflow when computing a buffer size"@,
        Error::ZeroColumns => "output columns must be greater than zero"@,
        Error::EmptyRamp => "the glyph ramp must contain at least one character"@,
        Error::TooManyCells { cells, max } => "grid has "@ + decimal(cells as nat)
            + " cells, exceeding the maximum of "@ + decimal(max as nat),
        Error::FeatureBufferTooLarge { bytes, max } => "feature buffer is "@ + decimal(bytes as nat)
            + " bytes, exceeding the maximum of "@ + decimal(max as nat),
    }
}

impl Error {
    /// The human-readable text of this error.
    pub fn to_display_string(&self) -> (s: String)
        ensures
            s@ == error_text(*self),
    {
        let mut s = String::new();
        match self {
            Error::EmptyImage => s.append("image width and height must both be non-zero"),
            Error::BufferSizeMismatch { expected, actual } => {
                s.append("RGBA buffer size mismatch: expected ");
                push_decimal(&mut s, *expected as u64);
                s.append(" bytes, got ");
                push_decimal(&mut s, *actual as u64);
            },
            Error::DimensionOverflow => s.append("dimensions overflow when computing a buffer size"),
            Error::ZeroColumns => s.append("output columns must be greater than zero"),
            Error::EmptyRamp => s.append("the glyph ramp must contain at least one character"),
            Error::TooManyCells { cells, max } => {
                s.append("grid has ");
                push_decimal(&mut s, *cells as u64);
                s.append(" cells, exceeding the maximum of ");
                push_decimal(&mut s, *max as u64);
            },
            Error::FeatureBufferTooLarge { bytes, max } => {
                s.append("feature buffer is ");
                push_decimal(&mut s, *bytes as u64);
                s.append(" bytes, exceeding the maximum of ");
                push_decimal(&mut s, *max as u64);
            },
        }
        s
    }
}

/// A borrowed, row-major, 8-bit RGBA image (4 bytes per pixel), validated at construction
/// so every later pixel access is in bounds.
#[derive(Debug, Clone, Copy)]
pub struct ImageRef<'a> {
    width: u32,
    height: u32,
    rgba: &'a [u8],
}

/// The outcome of validating an RGBA buffer of `len` bytes for a `width × height` image.
pub open spec fn image_check(width: u32, height: u32, len: nat) -> Result<(), Error> {
    if width == 0 || height == 0 {
        Err(Error::EmptyImage)
    } else if width * height * 4 > usize::MAX {
        Err(Error::DimensionOverflow)
    } else if len != width * height * 4 {
        Err(Error::BufferSizeMismatch { expected: (width * height * 4) as usize, actual: len as usize })
    } else {
        Ok(())
    }
}

/// Channel `c` of the pixel at `(x, y)` of a `w`-wide RGBA buffer.
pub open spec fn channel(b: Seq<u8>, w: int, x: int, y: int, c: int) -> int {
    b[(y * w + x) * 4 + c] as int
}

/// The sum of channel `c` over the pixels `x0 <= x < x1` of row `y`.
pub open spec fn row_sum(b: Seq<u8>, w: int, c: int, y: int, x0: int, x1: int) -> int
    decreases x1 - x0,
{
    if x1 <= x0 {
        0
    } else {
        row_sum(b, w, c, y, x0, x1 - 1) + channel(b, w, x1 - 1, y, c)
    }
}

/// The sum of channel `c` over the pixels of `[x0, x1) × [y0, y1)`.
pub open spec fn rect_sum(b: Seq<u8>, w: int, c: int, x0: int, x1: int, y0: int, y1: int) -> int
    decreases y1 - y0,
{
    if y1 <= y0 {
        0
    } else {
        rect_sum(b, w, c, x0, x1, y0, y1 - 1) + row_sum(b, w, c, y1 - 1, x0, x1)
    }
}

/// Four channels packed little-endian into one word: `r | g<<8 | b<<16 | a<<24`.
pub open spec fn packed(r: int, g: int, b: int, a: int) -> int {
    r + 256 * g + 65536 * b + 16777216 * a
}

/// The integer mean colour of `[x0, x1) × [y0, y1)`, packed; transparent black (`0`) for
/// an empty rectangle.
pub open spec fn mean_color_of(b: Seq<u8>, w: int, x0: int, x1: int, y0: int, y1: int) -> int {
    let n = (x1 - x0) * (y1 - y0);
    if x1 <= x0 || y1 <= y0 {
        0
    } else {
        packed(
            rect_sum(b, w, 0, x0, x1, y0, y1) / n,
            rect_sum(b, w, 1, x0, x1, y0, y1) / n,
            rect_sum(b, w, 2, x0, x1, y0, y1) / n,
            rect_sum(b, w, 3, x0, x1, y0, y1) / n,
        )
    }
}

/// A packed colour holds its channels byte by byte, red in the low byte: the word's
/// bytes, from the least significant, are `r`, `g`, `b` and `a`.
pub proof fn lemma_packed_bytes(r: u32, g: u32, b: u32, a: u32)
    requires
        r < 256,
        g < 256,
        b < 256,
        a < 256,
    ensures
        0 <= packed(r as int, g as int, b as int, a as int) <= u32::MAX,
        ({
            let p = packed(r as int, g as int, b as int, a as int) as u32;
            &&& p & 0xFF == r
            &&& (p >> 8u32) & 0xFF == g
            &&& (p >> 16u32) & 0xFF == b
            &&& p >> 24u32 == a
        }),
{
    let w: int = packed(r as int, g as int, b as int, a as int);
    assert(0 <= w <= u32::MAX);
    let p = w as u32;
    assert(p == r + 256 * g + 65536 * b + 16777216 * a);
    assert(p & 0xFF == r && (p >> 8u32) & 0xFF == g && (p >> 16u32) & 0xFF == b && p >> 24u32 == a)
        by (bit_vector)
        requires
            r < 256,
            g < 256,
            b < 256,
            a < 256,
            p == r + 256 * g + 65536 * b + 16777216 * a,
    ;
}

proof fn lemma_pixel_index(w: int, h: int, x: int, y: int)
    by (nonlinear_arith)
    requires
        0 <= x < w,
        0 <= y < h,
    ensures
        0 <= (y * w + x) * 4,
        (y * w + x) * 4 + 4 <= w * h * 4,
{
}

impl<'a> ImageRef<'a> {
    /// The pixel bytes.
    pub closed spec fn bytes(&self) -> Seq<u8> {
        self.rgba@
    }

    pub closed spec fn spec_width(&self) -> u32 {
        self.width
    }

    pub closed spec fn spec_height(&self) -> u32 {
        self.height
    }

    /// The buffer holds exactly `width * height` pixels of 4 bytes, and the image is not
    /// empty.
    pub closed spec fn wf(&self) -> bool {
        &&& self.width > 0
        &&& self.height > 0
        &&& self.rgba@.len() == self.width * self.height * 4
    }

    /// Validate and wrap an RGBA buffer: `rgba.len()` must equal `width * height * 4`.
    pub fn new(width: u32, height: u32, rgba: &'a [u8]) -> (r: Result<ImageRef<'a>, Error>)
        ensures
            match image_check(width, height, rgba@.len()) {
                Ok(()) => r matches Ok(img) && img.wf() && img.bytes() == rgba@ && img.spec_width()
                    == width && img.spec_height() == height,
                Err(e) => r == Err::<ImageRef<'a>, Error>(e),
            },
    {
        if width == 0 || height == 0 {
            return Err(Error::EmptyImage);
        }
        let px = match (width as usize).checked_mul(height as usize) {
            Some(v) => v,
            None => return Err(Error::DimensionOverflow),
        };
        let expected = match px.checked_mul(4) {
            Some(v) => v,
            None => return Err(Error::DimensionOverflow),
        };
        if rgba.len() != expected {
            return Err(Error::BufferSizeMismatch { expected, actual: rgba.len() });
        }
        Ok(ImageRef { width, height, rgba })
    }

    pub fn width(&self) -> (w: u32)
        ensures
            w == self.spec_width(),
    {
        self.width
    }

    pub fn height(&self) -> (h: u32)
        ensures
            h == self.spec_height(),
    {
        self.height
    }

    /// The raw 8-bit RGBA of the pixel at `(x, y)`.
    pub fn rgba(&self, x: u32, y: u32) -> (p: [u8; 4])
        requires
            self.wf(),
            x < self.spec_width(),
            y < self.spec_height(),
        ensures
            forall|c: int|
                0 <= c < 4 ==> #[trigger] p@[c] as int == channel(
                    self.bytes(),
                    self.spec_width() as int,
                    x as int,
                    y as int,
                    c,
                ),
    {
        let _len = self.rgba.len();
        proof {
            lemma_pixel_index(self.width as int, self.height as int, x as int, y as int);
            assert(y * self.width <= (y * self.width + x) * 4) by (nonlinear_arith)
                requires
                    0 <= y,
                    0 <= x,
                    0 <= self.width,
            ;
        }
        let idx = ((y as usize * self.width as usize) + x as usize) * 4;
        let p = [self.rgba[idx], self.rgba[idx + 1], self.rgba[idx + 2], self.rgba[idx + 3]];
        assert(forall|c: int| 0 <= c < 4 ==> #[trigger] p@[c] == self.rgba@[idx + c]);
        p
    }
}

/// How an image is partitioned into a grid of character cells. Cell boundaries use integer
/// scaling (`col * width / cols`), so adjacent cells differ by at most one pixel and every
/// cell is non-empty and in bounds.
#[derive(Debug, Clone, Copy)]
pub struct Grid {
    cols: u32,
    rows: u32,
    width: u32,
    height: u32,
}

impl Grid {
    pub closed spec fn spec_cols(&self) -> u32 {
        self.cols
    }

    pub closed spec fn spec_rows(&self) -> u32 {
        self.rows
    }

    pub closed spec fn spec_width(&self) -> u32 {
        self.width
    }

    pub closed spec fn spec_height(&self) -> u32 {
        self.height
    }

    /// At least one column and one row.
    pub closed spec fn wf(&self) -> bool {
        self.cols >= 1 && self.rows >= 1
    }

    /// A grid of `cols` columns and `rows` rows over a `width × height` image, each count
    /// clamped to at least 1.
    pub fn with_rows(width: u32, height: u32, cols: u32, rows: u32) -> (g: Grid)
        ensures
            g.wf(),
            g.spec_width() == width,
            g.spec_height() == height,
            g.spec_cols() == if cols == 0 { 1 } else { cols },
            g.spec_rows() == if rows == 0 { 1 } else { rows },
    {
        Grid {
            cols: if cols == 0 { 1 } else { cols },
            rows: if rows == 0 { 1 } else { rows },
            width,
            height,
        }
    }

    pub fn cols(&self) -> (c: u32)
        ensures
            c == self.spec_cols(),
    {
        self.cols
    }

    pub fn rows(&self) -> (r: u32)
        ensures
            r == self.spec_rows(),
    {
        self.rows
    }

    /// Pixel bounds `(x0, x1, y0, y1)` of cell `(col, row)`, as half-open ranges
    /// `[x0, x1) × [y0, y1)`: non-empty and inside the image when the image is.
    pub fn cell_bounds(&self, col: u32, row: u32) -> (r: (u32, u32, u32, u32))
        requires
            self.wf(),
            col < self.spec_cols(),
            row < self.spec_rows(),
        ensures
            r == cell_bounds_of(*self, col as int, row as int),
            r.0 <= r.1 <= self.spec_width(),
            r.2 <= r.3 <= self.spec_height(),
            self.spec_width() > 0 ==> r.0 < r.1,
            self.spec_height() > 0 ==> r.2 < r.3,
    {
        let (x0, x1) = span(col, self.cols, self.width);
        let (y0, y1) = span(row, self.rows, self.height);
        (x0, x1, y0, y1)
    }
}

/// The `i`-th of `n` integer spans of `[0, len)`: `[i*len/n, max((i+1)*len/n, start+1))`,
/// capped at `len`.
pub open spec fn span_of(i: int, n: int, len: int) -> (u32, u32) {
    let a = i * len / n;
    let b = (i + 1) * len / n;
    let hi = if b > a + 1 { b } else { a + 1 };
    (a as u32, (if hi < len { hi } else { len }) as u32)
}

/// The bounds of cell `(col, row)` of grid `g`.
pub open spec fn cell_bounds_of(g: Grid, col: int, row: int) -> (u32, u32, u32, u32) {
    let (x0, x1) = span_of(col, g.spec_cols() as int, g.spec_width() as int);
    let (y0, y1) = span_of(row, g.spec_rows() as int, g.spec_height() as int);
    (x0, x1, y0, y1)
}

proof fn lemma_span(i: int, n: int, len: int)
    by (nonlinear_arith)
    requires
        0 <= i < n,
        0 <= len,
    ensures
        0 <= i * len / n <= (i + 1) * len / n <= len,
        len > 0 ==> i * len / n < len,
        i * len <= n * len,
{
    assert(i * len <= (i + 1) * len);
    assert((i + 1) * len <= n * len);
}

/// `(a + l) / n` exceeds `a / n` by `l / n` or by one more.
proof fn lemma_floor_sum(a: int, l: int, n: int)
    requires
        n > 0,
        a >= 0,
        l >= 0,
    ensures
        l / n <= (a + l) / n - a / n <= l / n + 1,
{
    vstd::arithmetic::div_mod::lemma_fundamental_div_mod(a, n);
    vstd::arithmetic::div_mod::lemma_fundamental_div_mod(l, n);
    vstd::arithmetic::div_mod::lemma_fundamental_div_mod(a + l, n);
    let (qa, ra) = (a / n, a % n);
    let (ql, rl) = (l / n, l % n);
    let (qs, rs) = ((a + l) / n, (a + l) % n);
    assert(0 <= ra < n && 0 <= rl < n && 0 <= rs < n);
    assert(n * (qs - qa - ql) == ra + rl - rs) by (nonlinear_arith)
        requires
            a == n * qa + ra,
            l == n * ql + rl,
            a + l == n * qs + rs,
    ;
    let k = qs - qa - ql;
    assert(0 <= k <= 1) by (nonlinear_arith)
        requires
            n * k == ra + rl - rs,
            0 <= ra < n,
            0 <= rl < n,
            0 <= rs < n,
            n > 0,
    ;
}

/// With at least as many pixels as spans, span `i` of `n` over `[0, len)` is exactly
/// `[i * len / n, (i + 1) * len / n)`, and it is not empty.
proof fn lemma_span_exact(i: int, n: int, len: int)
    requires
        0 <= i < n <= len <= u32::MAX,
    ensures
        span_of(i, n, len).0 as int == i * len / n,
        span_of(i, n, len).1 as int == (i + 1) * len / n,
        i * len / n < (i + 1) * len / n <= len,
{
    lemma_span(i, n, len);
    assert((i + 1) * len == i * len + len) by (nonlinear_arith);
    lemma_floor_sum(i * len, len, n);
    vstd::arithmetic::div_mod::lemma_div_is_ordered(n, len, n);
    vstd::arithmetic::div_mod::lemma_div_by_self(n);
}

/// Span `i` ends where span `i + 1` starts.
proof fn lemma_span_adjacent(i: int, n: int, len: int)
    requires
        0 <= i,
        i + 1 < n <= len <= u32::MAX,
    ensures
        span_of(i, n, len).1 == span_of(i + 1, n, len).0,
{
    lemma_span_exact(i, n, len);
    lemma_span_exact(i + 1, n, len);
}

/// Spans `i < j` do not overlap: span `i` ends no later than span `j` starts.
proof fn lemma_span_ordered(i: int, j: int, n: int, len: int)
    requires
        0 <= i < j < n <= len <= u32::MAX,
    ensures
        span_of(i, n, len).1 <= span_of(j, n, len).0,
{
    lemma_span_exact(i, n, len);
    lemma_span_exact(j, n, len);
    assert((i + 1) * len <= j * len) by (nonlinear_arith)
        requires
            i + 1 <= j,
            len >= 0,
    ;
    vstd::arithmetic::div_mod::lemma_div_is_ordered((i + 1) * len, j * len, n);
}

proof fn lemma_span_covers_from(x: int, i: int, n: int, len: int)
    requires
        0 <= i < n <= len <= u32::MAX,
        span_of(i, n, len).0 <= x < len,
    ensures
        exists|j: int| i <= j < n && #[trigger] span_of(j, n, len).0 <= x < span_of(j, n, len).1,
    decreases n - i,
{
    lemma_span_exact(i, n, len);
    if x < span_of(i, n, len).1 {
        assert(span_of(i, n, len).0 <= x < span_of(i, n, len).1);
    } else {
        if i + 1 == n {
            assert(span_of(i, n, len).1 as int == len) by {
                vstd::arithmetic::div_mod::lemma_div_by_multiple(len, n);
                assert(n * len == len * n) by (nonlinear_arith);
            }
        } else {
            lemma_span_adjacent(i, n, len);
            lemma_span_covers_from(x, i + 1, n, len);
        }
    }
}

/// The spans tile `[0, len)`: each pixel lies in exactly one of them.
pub proof fn lemma_spans_tile(x: int, n: int, len: int)
    requires
        0 < n <= len <= u32::MAX,
        0 <= x < len,
    ensures
        exists|i: int| 0 <= i < n && #[trigger] span_of(i, n, len).0 <= x < span_of(i, n, len).1,
        forall|i: int, j: int|
            0 <= i < n && 0 <= j < n && (#[trigger] span_of(i, n, len)).0 <= x < span_of(i, n, len).1
                && (#[trigger] span_of(j, n, len)).0 <= x < span_of(j, n, len).1 ==> i == j,
{
    lemma_span_exact(0, n, len);
    assert(0 * len / n == 0);
    lemma_span_covers_from(x, 0, n, len);
    assert forall|i: int, j: int|
        0 <= i < n && 0 <= j < n && (#[trigger] span_of(i, n, len)).0 <= x < span_of(i, n, len).1
            && (#[trigger] span_of(j, n, len)).0 <= x < span_of(j, n, len).1 implies i == j by {
        if i < j {
            lemma_span_ordered(i, j, n, len);
        } else if j < i {
            lemma_span_ordered(j, i, n, len);
        }
    }
}

/// The spans are balanced: any two widths differ by at most one.
pub proof fn lemma_spans_balanced(i: int, j: int, n: int, len: int)
    requires
        0 <= i < n,
        0 <= j < n,
        n <= len <= u32::MAX,
    ensures
        len / n <= span_of(i, n, len).1 - span_of(i, n, len).0 <= len / n + 1,
        -1 <= (span_of(i, n, len).1 - span_of(i, n, len).0) - (span_of(j, n, len).1 - span_of(j, n, len).0) <= 1,
{
    lemma_span_exact(i, n, len);
    lemma_span_exact(j, n, len);
    assert((i + 1) * len == i * len + len) by (nonlinear_arith);
    assert((j + 1) * len == j * len + len) by (nonlinear_arith);
    assert(i * len >= 0 && j * len >= 0) by (nonlinear_arith)
        requires
            i >= 0,
            j >= 0,
            len >= 0,
    ;
    lemma_floor_sum(i * len, len, n);
    lemma_floor_sum(j * len, len, n);
}

/// Pixel `(x, y)` lies in the cell whose bounds are `b`.
pub open spec fn in_cell(b: (u32, u32, u32, u32), x: int, y: int) -> bool {
    b.0 <= x < b.1 && b.2 <= y < b.3
}

/// A grid with no more columns than the image is wide and no more rows than it is tall
/// partitions the image: every pixel lies in exactly one cell.
pub proof fn lemma_grid_partitions(g: Grid, x: int, y: int)
    requires
        g.wf(),
        g.spec_cols() <= g.spec_width(),
        g.spec_rows() <= g.spec_height(),
        0 <= x < g.spec_width(),
        0 <= y < g.spec_height(),
    ensures
        exists|col: int, row: int|
            0 <= col < g.spec_cols() && 0 <= row < g.spec_rows() && in_cell(#[trigger] cell_bounds_of(g, col, row), x, y),
        forall|c1: int, r1: int, c2: int, r2: int|
            0 <= c1 < g.spec_cols() && 0 <= r1 < g.spec_rows() && 0 <= c2 < g.spec_cols() && 0 <= r2
                < g.spec_rows() && in_cell(#[trigger] cell_bounds_of(g, c1, r1), x, y) && in_cell(
                #[trigger] cell_bounds_of(g, c2, r2),
                x,
                y,
            ) ==> c1 == c2 && r1 == r2,
{
    let (n, w) = (g.spec_cols() as int, g.spec_width() as int);
    let (m, h) = (g.spec_rows() as int, g.spec_height() as int);
    lemma_spans_tile(x, n, w);
    lemma_spans_tile(y, m, h);
    let col = choose|i: int| 0 <= i < n && #[trigger] span_of(i, n, w).0 <= x < span_of(i, n, w).1;
    let row = choose|i: int| 0 <= i < m && #[trigger] span_of(i, m, h).0 <= y < span_of(i, m, h).1;
    assert(in_cell(cell_bounds_of(g, col, row), x, y));
    assert forall|c1: int, r1: int, c2: int, r2: int|
        0 <= c1 < g.spec_cols() && 0 <= r1 < g.spec_rows() && 0 <= c2 < g.spec_cols() && 0 <= r2
            < g.spec_rows() && in_cell(#[trigger] cell_bounds_of(g, c1, r1), x, y) && in_cell(
            #[trigger] cell_bounds_of(g, c2, r2),
            x,
            y,
        ) implies c1 == c2 && r1 == r2 by {
        assert(span_of(c1, n, w).0 <= x < span_of(c1, n, w).1);
        assert(span_of(c2, n, w).0 <= x < span_of(c2, n, w).1);
        assert(span_of(r1, m, h).0 <= y < span_of(r1, m, h).1);
        assert(span_of(r2, m, h).0 <= y < span_of(r2, m, h).1);
    }
}

/// In such a grid the cells are balanced: any two cells' widths differ by at most one
/// pixel, and so do any two cells' heights.
pub proof fn lemma_grid_balanced(g: Grid, c1: int, r1: int, c2: int, r2: int)
    requires
        g.wf(),
        g.spec_cols() <= g.spec_width(),
        g.spec_rows() <= g.spec_height(),
        0 <= c1 < g.spec_cols(),
        0 <= c2 < g.spec_cols(),
        0 <= r1 < g.spec_rows(),
        0 <= r2 < g.spec_rows(),
    ensures
        ({
            let a = cell_bounds_of(g, c1, r1);
            let b = cell_bounds_of(g, c2, r2);
            &&& -1 <= (a.1 - a.0) - (b.1 - b.0) <= 1
            &&& -1 <= (a.3 - a.2) - (b.3 - b.2) <= 1
        }),
{
    lemma_spans_balanced(c1, c2, g.spec_cols() as int, g.spec_width() as int);
    lemma_spans_balanced(r1, r2, g.spec_rows() as int, g.spec_height() as int);
}

fn span(i: u32, n: u32, len: u32) -> (r: (u32, u32))
    requires
        i < n,
    ensures
        r == span_of(i as int, n as int, len as int),
        r.0 <= r.1 <= len,
        len > 0 ==> r.0 < r.1,
{
    proof {
        lemma_span(i as int, n as int, len as int);
        assert(i as int * len as int <= 0xffff_ffff * 0xffff_ffff) by (nonlinear_arith)
            requires
                i <= 0xffff_ffff,
                len <= 0xffff_ffff,
        ;
        assert((i as int + 1) * len as int <= 0x1_0000_0000 * 0xffff_ffff) by (nonlinear_arith)
            requires
                i + 1 <= 0x1_0000_0000,
                len <= 0xffff_ffff,
        ;
    }
    let a = (i as u64 * len as u64 / n as u64) as u32;
    let b = ((i as u64 + 1) * len as u64 / n as u64) as u32;
    let hi = if b > a + 1 { b } else { a + 1 };
    (a, if hi < len { hi } else { len })
}

/// The first braille pattern, U+2800 (no dots raised).
pub const BRAILLE_BLANK: u32 = 0x2800;

/// The bit of the braille dot that sub-cell `k` of a cell's 2×4 grid raises, sub-cells
/// counted row by row, left then right: the left column holds dots 1, 2, 3, 7 (bits 0, 1, 2,
/// 6), the right column dots 4, 5, 6, 8 (bits 3, 4, 5, 7).
pub open spec fn dot_bit(k: int) -> nat {
    let row = k / 2;
    let col = k % 2;
    if row < 3 {
        (row + 3 * col) as nat
    } else {
        (6 + col) as nat
    }
}

/// The dot bits raised by the first `n` sub-cells of `lit`.
pub open spec fn dots_raised(lit: Seq<bool>, n: int) -> nat
    decreases n,
{
    if n <= 0 {
        0
    } else {
        dots_raised(lit, n - 1) + if lit[n - 1] {
            vstd::arithmetic::power2::pow2(dot_bit(n - 1))
        } else {
            0
        }
    }
}

/// Only sub-cell `k` of a cell lit.
pub open spec fn only_lit(k: int) -> Seq<bool> {
    Seq::new(8, |i: int| i == k)
}

/// Unicode's braille dot numbering: with only one sub-cell lit, the glyph raises that
/// sub-cell's dot. Down the left column the sub-cells are dots 1, 2, 3 and 7, down the right
/// column dots 4, 5, 6 and 8, and dot `d` is bit `d - 1` above U+2800. So, sub-cells counted
/// row by row, left then right, the single dots are U+2800 plus 1, 8, 2, 16, 4, 32, 64, 128;
/// and lit sub-cells add their dots up.
pub proof fn lemma_braille_dots(k: int, lit: Seq<bool>)
    requires
        0 <= k < 8,
        lit.len() == 8,
    ensures
        dots_raised(only_lit(k), 8) == seq![1nat, 8, 2, 16, 4, 32, 64, 128][k],
        dots_raised(lit, 8) == (if lit[0] { 1nat } else { 0 }) + (if lit[1] { 8nat } else { 0 }) + (if lit[2] {
            2nat
        } else {
            0
        }) + (if lit[3] { 16nat } else { 0 }) + (if lit[4] { 4nat } else { 0 }) + (if lit[5] { 32nat } else {
            0
        }) + (if lit[6] { 64nat } else { 0 }) + (if lit[7] { 128nat } else { 0 }),
{
    vstd::arithmetic::power2::lemma2_to64();
    reveal_with_fuel(dots_raised, 9);
    assert(dot_bit(0) == 0 && dot_bit(1) == 3 && dot_bit(2) == 1 && dot_bit(3) == 4);
    assert(dot_bit(4) == 2 && dot_bit(5) == 5 && dot_bit(6) == 6 && dot_bit(7) == 7);
    let o = only_lit(k);
    assert(o[0] == (k == 0) && o[1] == (k == 1) && o[2] == (k == 2) && o[3] == (k == 3));
    assert(o[4] == (k == 4) && o[5] == (k == 5) && o[6] == (k == 6) && o[7] == (k == 7));
}

/// The braille glyph whose raised dots are the lit sub-cells of a cell: U+2800 plus the
/// bit of each lit sub-cell's dot.
pub fn braille_glyph(lit: [bool; 8]) -> (c: u32)
    ensures
        c == BRAILLE_BLANK + dots_raised(lit@, 8),
        BRAILLE_BLANK <= c < BRAILLE_BLANK + 256,
{
    let weights: [u32; 8] = [1, 8, 2, 16, 4, 32, 64, 128];
    proof {
        vstd::arithmetic::power2::lemma2_to64();
        assert forall|k: int| 0 <= k < 8 implies weights@[k] == vstd::arithmetic::power2::pow2(
            #[trigger] dot_bit(k),
        ) by {
            assert(k == 0 || k == 1 || k == 2 || k == 3 || k == 4 || k == 5 || k == 6 || k == 7);
        }
    }
    let mut bits: u32 = 0;
    let mut k: usize = 0;
    while k < 8
        invariant
            k <= 8,
            bits == dots_raised(lit@, k as int),
            bits <= (if k == 0 { 0int } else if k == 1 { 1 } else if k == 2 { 9 } else if k == 3 { 11 } else if k == 4 {
                27
            } else if k == 5 { 31 } else if k == 6 { 63 } else if k == 7 { 127 } else { 255 }),
            forall|j: int| 0 <= j < 8 ==> weights@[j] == vstd::arithmetic::power2::pow2(#[trigger] dot_bit(j)),
            weights@[0] == 1 && weights@[1] == 8 && weights@[2] == 2 && weights@[3] == 16,
            weights@[4] == 4 && weights@[5] == 32 && weights@[6] == 64 && weights@[7] == 128,
        decreases 8 - k,
    {
        if lit[k] {
            bits = bits + weights[k];
        }
        k += 1;
    }
    BRAILLE_BLANK + bits
}

/// The `idx`-th of `div` equal integer sub-spans of `[lo, hi)`, as `[a, b)`.
pub open spec fn sub_span_of(lo: int, hi: int, idx: int, div: int) -> (u32, u32) {
    let len = hi - lo;
    ((lo + len * idx / div) as u32, (lo + len * (idx + 1) / div) as u32)
}

/// The `idx`-th of `div` equal integer sub-spans of `[lo, hi)`, as `[a, b)`; the spans
/// tile `[lo, hi)` in order.
pub fn sub_span(lo: u32, hi: u32, idx: u32, div: u32) -> (r: (u32, u32))
    requires
        lo <= hi,
        idx < div,
    ensures
        r == sub_span_of(lo as int, hi as int, idx as int, div as int),
        lo <= r.0 <= r.1 <= hi,
{
    let len = (hi - lo) as u64;
    proof {
        lemma_span(idx as int, div as int, len as int);
        assert(len * idx <= 0xffff_ffff * 0xffff_ffff) by (nonlinear_arith)
            requires
                idx <= 0xffff_ffff,
                len <= 0xffff_ffff,
        ;
        assert(len * (idx as int + 1) <= 0xffff_ffff * 0x1_0000_0000) by (nonlinear_arith)
            requires
                idx + 1 <= 0x1_0000_0000,
                len <= 0xffff_ffff,
        ;
        assert(len * idx == idx * len) by (nonlinear_arith);
        assert(len * (idx + 1) == (idx + 1) * len) by (nonlinear_arith);
    }
    let a = lo + (len * idx as u64 / div as u64) as u32;
    let b = lo + (len * (idx as u64 + 1) / div as u64) as u32;
    (a, b)
}

/// Pack four channels into one word, little-endian: `r | g<<8 | b<<16 | a<<24`.
pub fn pack_rgba(r: u32, g: u32, b: u32, a: u32) -> (p: u32)
    requires
        r < 256,
        g < 256,
        b < 256,
        a < 256,
    ensures
        p as int == packed(r as int, g as int, b as int, a as int),
{
    assert(r | (g << 8) | (b << 16) | (a << 24) == r + 256 * g + 65536 * b + 16777216 * a)
        by (bit_vector)
        requires
            r < 256,
            g < 256,
            b < 256,
            a < 256,
    ;
    r | (g << 8) | (b << 16) | (a << 24)
}

proof fn lemma_row_sum_bound(b: Seq<u8>, w: int, c: int, y: int, x0: int, x1: int)
    requires
        x0 <= x1,
        forall|x: int| x0 <= x < x1 ==> 0 <= #[trigger] channel(b, w, x, y, c) <= 255,
    ensures
        0 <= row_sum(b, w, c, y, x0, x1) <= 255 * (x1 - x0),
    decreases x1 - x0,
{
    if x1 > x0 {
        lemma_row_sum_bound(b, w, c, y, x0, x1 - 1);
        assert(0 <= channel(b, w, x1 - 1, y, c) <= 255);
    }
}

/// The integer mean colour of the pixels in `[x0, x1) × [y0, y1)`, packed RGBA; an empty
/// rectangle yields transparent black (`0`).
pub fn mean_color(image: &ImageRef, x0: u32, x1: u32, y0: u32, y1: u32) -> (p: u32)
    requires
        image.wf(),
        x1 <= image.spec_width(),
        y1 <= image.spec_height(),
    ensures
        p as int == mean_color_of(image.bytes(), image.spec_width() as int, x0 as int, x1 as int, y0 as int, y1 as int),
{
    if x1 <= x0 || y1 <= y0 {
        return 0;
    }
    let ghost b = image.bytes();
    let ghost w = image.spec_width() as int;
    let mut sums: [u128; 4] = [0, 0, 0, 0];
    let mut y = y0;
    while y < y1
        invariant
            image.wf(),
            b == image.bytes(),
            w == image.spec_width(),
            x0 < x1 <= image.spec_width(),
            y0 <= y <= y1 <= image.spec_height(),
            sums@.len() == 4,
            forall|c: int| 0 <= c < 4 ==> #[trigger] sums@[c] == rect_sum(b, w, c, x0 as int, x1 as int, y0 as int, y as int),
            forall|c: int| 0 <= c < 4 ==> #[trigger] sums@[c] <= 255 * 0x1_0000_0000 * (y - y0),
        decreases y1 - y,
    {
        let mut x = x0;
        let ghost base = sums@;
        while x < x1
            invariant
                image.wf(),
                b == image.bytes(),
                w == image.spec_width(),
                x0 <= x <= x1 <= image.spec_width(),
                y0 <= y < y1 <= image.spec_height(),
                sums@.len() == 4,
                base.len() == 4,
                forall|c: int| 0 <= c < 4 ==> #[trigger] base[c] <= 255 * 0x1_0000_0000 * (y - y0),
                forall|c: int| 0 <= c < 4 ==> #[trigger] sums@[c] == base[c] + row_sum(b, w, c, y as int, x0 as int, x as int),
                forall|c: int| 0 <= c < 4 ==> #[trigger] sums@[c] <= base[c] + 255 * (x - x0),
            decreases x1 - x,
        {
            let p = image.rgba(x, y);
            let ghost before = sums@;
            assert(255 * 0x1_0000_0000 * (y - y0) <= 255 * 0x1_0000_0000 * 0x1_0000_0000) by (nonlinear_arith)
                requires
                    0 <= y - y0 <= 0x1_0000_0000,
            ;
            assert(p@[0] <= 255 && p@[1] <= 255 && p@[2] <= 255 && p@[3] <= 255);
            assert(base[0] <= 255 * 0x1_0000_0000 * (y - y0) && base[1] <= 255 * 0x1_0000_0000 * (y - y0)
                && base[2] <= 255 * 0x1_0000_0000 * (y - y0) && base[3] <= 255 * 0x1_0000_0000 * (y - y0));
            assert(sums@[0] <= base[0] + 255 * (x - x0) && sums@[1] <= base[1] + 255 * (x - x0)
                && sums@[2] <= base[2] + 255 * (x - x0) && sums@[3] <= base[3] + 255 * (x - x0));
            sums[0] = sums[0] + p[0] as u128;
            sums[1] = sums[1] + p[1] as u128;
            sums[2] = sums[2] + p[2] as u128;
            sums[3] = sums[3] + p[3] as u128;
            assert forall|c: int| 0 <= c < 4 implies #[trigger] sums@[c] == before[c] + channel(b, w, x as int, y as int, c) by {
                if c == 0 { assert(sums@[0] == before[0] + p@[0]); }
                else if c == 1 { assert(sums@[1] == before[1] + p@[1]); }
                else if c == 2 { assert(sums@[2] == before[2] + p@[2]); }
                else { assert(sums@[3] == before[3] + p@[3]); }
            }
            x = x + 1;
        }
        assert forall|c: int| 0 <= c < 4 implies #[trigger] sums@[c] <= 255 * 0x1_0000_0000 * (y + 1 - y0) by {
            assert(255 * (x1 - x0) <= 255 * 0x1_0000_0000);
        }
        y = y + 1;
    }
    proof {
        assert((x1 - x0) * (y1 - y0) <= 0xffff_ffff * 0xffff_ffff) by (nonlinear_arith)
            requires
                x1 - x0 <= 0xffff_ffff,
                y1 - y0 <= 0xffff_ffff,
                x0 < x1,
                y0 < y1,
        ;
        assert((x1 - x0) * (y1 - y0) > 0) by (nonlinear_arith)
            requires
                x0 < x1,
                y0 < y1,
        ;
    }
    let n: u64 = (x1 - x0) as u64 * (y1 - y0) as u64;
    let n128 = n as u128;
    proof {
        assert forall|c: int| 0 <= c < 4 implies rect_sum(b, w, c, x0 as int, x1 as int, y0 as int, y1 as int) / (n as int) < 256 by {
            lemma_rect_sum_bound(b, w, c, x0 as int, x1 as int, y0 as int, y1 as int, image.spec_height() as int);
            lemma_div_lt(rect_sum(b, w, c, x0 as int, x1 as int, y0 as int, y1 as int), n as int);
        }
        assert(n as int == (x1 - x0) * (y1 - y0));
    }
    let r = (sums[0] / n128) as u32;
    let g = (sums[1] / n128) as u32;
    let bl = (sums[2] / n128) as u32;
    let a = (sums[3] / n128) as u32;
    pack_rgba(r, g, bl, a)
}

proof fn lemma_div_lt(s: int, n: int)
    by (nonlinear_arith)
    requires
        n > 0,
        0 <= s <= 255 * n,
    ensures
        s / n < 256,
{
}

proof fn lemma_rect_sum_bound(b: Seq<u8>, w: int, c: int, x0: int, x1: int, y0: int, y1: int, h: int)
    requires
        0 <= c < 4,
        0 <= x0 <= x1 <= w,
        0 <= y0 <= y1 <= h,
        b.len() == w * h * 4,
    ensures
        0 <= rect_sum(b, w, c, x0, x1, y0, y1) <= 255 * ((x1 - x0) * (y1 - y0)),
    decreases y1 - y0,
{
    if y1 > y0 {
        lemma_rect_sum_bound(b, w, c, x0, x1, y0, y1 - 1, h);
        assert forall|x: int| x0 <= x < x1 implies 0 <= #[trigger] channel(b, w, x, y1 - 1, c) <= 255 by {
            lemma_pixel_index(w, h, x, y1 - 1);
        }
        lemma_row_sum_bound(b, w, c, y1 - 1, x0, x1);
        assert(255 * ((x1 - x0) * (y1 - 1 - y0)) + 255 * (x1 - x0) == 255 * ((x1 - x0) * (y1 - y0)))
            by (nonlinear_arith);
    }
}

/// A coloured half-block render: `cols × rows` cells, each drawn as [`HALF_BLOCK`] with
/// `fg[i]` over `bg[i]` (packed RGBA).
#[derive(Debug, Clone, PartialEq, Eq)]
pub struct HalfBlock {
    pub cols: u32,
    pub rows: u32,
    /// Top-half mean colour per cell (the glyph foreground).
    pub fg: Vec<u32>,
    /// Bottom-half mean colour per cell (the glyph background).
    pub bg: Vec<u32>,
}

/// The number of cells of a grid, or why the grid is refused.
pub open spec fn cell_count_of(cols: u32, rows: u32) -> Result<usize, Error> {
    if cols * rows > usize::MAX {
        Err(Error::DimensionOverflow)
    } else if cols * rows > MAX_CELLS {
        Err(Error::TooManyCells { cells: (cols * rows) as usize, max: MAX_CELLS })
    } else {
        Ok((cols * rows) as usize)
    }
}

/// The number of cells of `grid`, refusing one past [`MAX_CELLS`].
pub fn cell_count(grid: &Grid) -> (r: Result<usize, Error>)
    ensures
        r == cell_count_of(grid.spec_cols(), grid.spec_rows()),
{
    let ncells = match (grid.cols() as usize).checked_mul(grid.rows() as usize) {
        Some(v) => v,
        None => return Err(Error::DimensionOverflow),
    };
    if ncells > MAX_CELLS {
        return Err(Error::TooManyCells { cells: ncells, max: MAX_CELLS });
    }
    Ok(ncells)
}

/// The top and bottom half colours of cell `(col, row)`: a one-pixel-tall cell shows that
/// row in both halves.
pub open spec fn halfblock_cell(img: ImageRef, g: Grid, col: int, row: int) -> (int, int) {
    let (x0, x1, y0, y1) = cell_bounds_of(g, col, row);
    let b = img.bytes();
    let w = img.spec_width() as int;
    if y1 - y0 <= 1 {
        let c = mean_color_of(b, w, x0 as int, x1 as int, y0 as int, y1 as int);
        (c, c)
    } else {
        let ymid = y0 + (y1 - y0) / 2;
        (
            mean_color_of(b, w, x0 as int, x1 as int, y0 as int, ymid),
            mean_color_of(b, w, x0 as int, x1 as int, ymid, y1 as int),
        )
    }
}

/// The grid fits inside the image.
pub open spec fn grid_fits(img: ImageRef, g: Grid) -> bool {
    &&& img.wf()
    &&& g.wf()
    &&& g.spec_width() <= img.spec_width()
    &&& g.spec_height() <= img.spec_height()
}

proof fn lemma_cell_of_index(k: int, cols: int, rows: int)
    by (nonlinear_arith)
    requires
        0 <= k < cols * rows,
        cols >= 1,
    ensures
        0 <= k % cols < cols,
        0 <= k / cols < rows,
{
}

/// Render `image` as coloured half-blocks over `grid`: cell `k` (row-major) is `▀` with
/// its top and bottom pixel-halves' mean colours.
pub fn render_halfblock(image: &ImageRef, grid: &Grid) -> (r: Result<HalfBlock, Error>)
    requires
        grid_fits(*image, *grid),
    ensures
        match cell_count_of(grid.spec_cols(), grid.spec_rows()) {
            Err(e) => r == Err::<HalfBlock, Error>(e),
            Ok(n) => r matches Ok(hb) && hb.cols == grid.spec_cols() && hb.rows == grid.spec_rows()
                && hb.fg@.len() == n && hb.bg@.len() == n && forall|k: int|
                0 <= k < n ==> {
                    let (top, bottom) = #[trigger] halfblock_cell(
                        *image,
                        *grid,
                        k % grid.spec_cols() as int,
                        k / grid.spec_cols() as int,
                    );
                    hb.fg@[k] as int == top && hb.bg@[k] as int == bottom
                },
        },
{
    let n = match cell_count(grid) {
        Ok(n) => n,
        Err(e) => return Err(e),
    };
    let cols = grid.cols();
    let rows = grid.rows();
    let mut fg: Vec<u32> = Vec::new();
    let mut bg: Vec<u32> = Vec::new();
    let mut k: usize = 0;
    while k < n
        invariant
            grid_fits(*image, *grid),
            cols == grid.spec_cols(),
            rows == grid.spec_rows(),
            n == cols * rows,
            k <= n,
            fg@.len() == k,
            bg@.len() == k,
            forall|j: int|
                0 <= j < k ==> {
                    let (top, bottom) = #[trigger] halfblock_cell(
                        *image,
                        *grid,
                        j % cols as int,
                        j / cols as int,
                    );
                    fg@[j] as int == top && bg@[j] as int == bottom
                },
        decreases n - k,
    {
        proof {
            lemma_cell_of_index(k as int, cols as int, rows as int);
        }
        let col = (k % cols as usize) as u32;
        let row = (k / cols as usize) as u32;
        let (x0, x1, y0, y1) = grid.cell_bounds(col, row);
        if y1 - y0 <= 1 {
            let c = mean_color(image, x0, x1, y0, y1);
            fg.push(c);
            bg.push(c);
        } else {
            let ymid = y0 + (y1 - y0) / 2;
            fg.push(mean_color(image, x0, x1, y0, ymid));
            bg.push(mean_color(image, x0, x1, ymid, y1));
        }
        proof {
            assert(halfblock_cell(*image, *grid, k as int % cols as int, k as int / cols as int).0 == fg@[k as int]);
        }
        k += 1;
    }
    Ok(HalfBlock { cols, rows, fg, bg })
}

/// One mean colour per cell (row-major, packed RGBA): cell `k` gets the mean of the pixels
/// it covers — to tint the glyphs a Facet produced.
pub fn extract_cell_colors(image: &ImageRef, grid: &Grid) -> (r: Result<Vec<u32>, Error>)
    requires
        grid_fits(*image, *grid),
    ensures
        match cell_count_of(grid.spec_cols(), grid.spec_rows()) {
            Err(e) => r == Err::<Vec<u32>, Error>(e),
            Ok(n) => r matches Ok(v) && v@.len() == n && forall|k: int|
                0 <= k < n ==> {
                    let (x0, x1, y0, y1) = #[trigger] cell_bounds_of(
                        *grid,
                        k % grid.spec_cols() as int,
                        k / grid.spec_cols() as int,
                    );
                    v@[k] as int == mean_color_of(
                        image.bytes(),
                        image.spec_width() as int,
                        x0 as int,
                        x1 as int,
                        y0 as int,
                        y1 as int,
                    )
                },
        },
{
    let n = match cell_count(grid) {
        Ok(n) => n,
        Err(e) => return Err(e),
    };
    let cols = grid.cols();
    let rows = grid.rows();
    let mut out: Vec<u32> = Vec::new();
    let mut k: usize = 0;
    while k < n
        invariant
            grid_fits(*image, *grid),
            cols == grid.spec_cols(),
            rows == grid.spec_rows(),
            n == cols * rows,
            k <= n,
            out@.len() == k,
            forall|j: int|
                0 <= j < k ==> {
                    let (x0, x1, y0, y1) = #[trigger] cell_bounds_of(*grid, j % cols as int, j / cols as int);
                    out@[j] as int == mean_color_of(
                        image.bytes(),
                        image.spec_width() as int,
                        x0 as int,
                        x1 as int,
                        y0 as int,
                        y1 as int,
                    )
                },
        decreases n - k,
    {
        proof {
            lemma_cell_of_index(k as int, cols as int, rows as int);
        }
        let col = (k % cols as usize) as u32;
        let row = (k / cols as usize) as u32;
        let (x0, x1, y0, y1) = grid.cell_bounds(col, row);
        out.push(mean_color(image, x0, x1, y0, y1));
        proof {
            assert(cell_bounds_of(*grid, k as int % cols as int, k as int / cols as int) == (x0, x1, y0, y1));
        }
        k += 1;
    }
    Ok(out)
}

/// Whether a feature buffer of `ncells × stride` four-byte slots fits the budget.
pub open spec fn feature_budget_of(ncells: usize, stride: u32) -> Result<(), Error> {
    if ncells * stride * 4 > usize::MAX {
        Err(Error::DimensionOverflow)
    } else if ncells * stride * 4 > MAX_FEATURE_BYTES {
        Err(Error::FeatureBufferTooLarge { bytes: (ncells * stride * 4) as usize, max: MAX_FEATURE_BYTES })
    } else {
        Ok(())
    }
}

/// Reject a feature buffer whose byte size overflows or exceeds [`MAX_FEATURE_BYTES`],
/// before it is allocated.
pub fn check_feature_budget(ncells: usize, stride: u32) -> (r: Result<(), Error>)
    ensures
        r == feature_budget_of(ncells, stride),
{
    let slots = match ncells.checked_mul(stride as usize) {
        Some(v) => v,
        None => {
            proof {
                assert(ncells * stride * 4 >= ncells * stride) by (nonlinear_arith)
                    requires
                        ncells >= 0,
                        stride >= 0,
                ;
            }
            return Err(Error::DimensionOverflow);
        },
    };
    let bytes = match slots.checked_mul(4) {
        Some(v) => v,
        None => return Err(Error::DimensionOverflow),
    };
    if bytes > MAX_FEATURE_BYTES {
        return Err(Error::FeatureBufferTooLarge { bytes, max: MAX_FEATURE_BYTES });
    }
    Ok(())
}

/// The declared core vocabulary: `luminance` (self-only scalar), `gradient` (radius-1
/// gathered 2-vector of magnitude and orientation), `position` (self-only 2-vector of the
/// cell centre), `color` (self-only 3-vector of the mean colour). Its slots sum to
/// [`CORE_STRIDE`] and its widest gather is radius 1.
pub fn vocabulary() -> (s: FeatureSchema)
    ensures
        s.fields@.len() == 4,
        s.fields@[0].key@ == "luminance"@ && s.fields@[0].ty == FeatureType::Scalar
            && s.fields@[0].gather == Gather::SelfOnly,
        s.fields@[1].key@ == "gradient"@ && s.fields@[1].ty == (FeatureType::Vector { len: 2 })
            && s.fields@[1].gather == (Gather::Neighborhood { radius: 1 }),
        s.fields@[2].key@ == "position"@ && s.fields@[2].ty == (FeatureType::Vector { len: 2 })
            && s.fields@[2].gather == Gather::SelfOnly,
        s.fields@[3].key@ == "color"@ && s.fields@[3].ty == (FeatureType::Vector { len: 3 })
            && s.fields@[3].gather == Gather::SelfOnly,
        sum_slots(s.fields@) == CORE_STRIDE,
        max_radius_of(s.fields@) == 1,
{
    let mut fields: Vec<FeatureField> = Vec::new();
    fields.push(FeatureField { key: "luminance".to_owned(), ty: FeatureType::Scalar, gather: Gather::SelfOnly });
    fields.push(FeatureField {
        key: "gradient".to_owned(),
        ty: FeatureType::Vector { len: 2 },
        gather: Gather::Neighborhood { radius: 1 },
    });
    fields.push(FeatureField { key: "position".to_owned(), ty: FeatureType::Vector { len: 2 }, gather: Gather::SelfOnly });
    fields.push(FeatureField { key: "color".to_owned(), ty: FeatureType::Vector { len: 3 }, gather: Gather::SelfOnly });
    proof {
        reveal_with_fuel(sum_slots, 5);
        reveal_with_fuel(max_radius_of, 5);
        assert(fields@.drop_last().drop_last().drop_last().drop_last().len() == 0);
    }
    FeatureSchema { fields }
}

/// The declared structural vocabulary: a single self-only patch of sub-cell luminance
/// samples, [`PATCH_ROWS`] × [`PATCH_COLS`] — 64 slots, radius 0.
pub fn vocabulary_structural() -> (s: FeatureSchema)
    ensures
        s.fields@.len() == 1,
        s.fields@[0].key@ == "patch"@,
        s.fields@[0].ty == (FeatureType::Patch { rows: PATCH_ROWS as u16, cols: PATCH_COLS as u16 }),
        s.fields@[0].gather == Gather::SelfOnly,
        sum_slots(s.fields@) == PATCH_SLOTS,
        max_radius_of(s.fields@) == 0,
{
    let mut fields: Vec<FeatureField> = Vec::new();
    fields.push(FeatureField {
        key: "patch".to_owned(),
        ty: FeatureType::Patch { rows: PATCH_ROWS as u16, cols: PATCH_COLS as u16 },
        gather: Gather::SelfOnly,
    });
    proof {
        reveal_with_fuel(sum_slots, 2);
        reveal_with_fuel(max_radius_of, 2);
        assert(fields@.drop_last().len() == 0);
        assert(PATCH_ROWS as u16 == 8 && PATCH_COLS as u16 == 8);
        assert(fields@[0].ty == (FeatureType::Patch { rows: 8, cols: 8 }));
        assert(type_slots(FeatureType::Patch { rows: 8, cols: 8 }) == 64) by (nonlinear_arith);
    }
    FeatureSchema { fields }
}

} // verus!
