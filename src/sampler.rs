//! The sampler: one block-averaged measurement per output cell.
use vstd::prelude::*;
use vstd::arithmetic::div_mod::{
    lemma_div_by_multiple, lemma_div_is_ordered, lemma_multiply_divide_lt,
};
use crate::raster::{Pixel, Raster, RasterModel};

verus! {

/// The per-cell measurement: mean luminance and mean colour of the cell's
/// block of source samples.
#[derive(Clone, Copy, Debug, PartialEq, Eq, Structural)]
pub struct Cell {
    pub luminance: u8,
    pub red: u8,
    pub green: u8,
    pub blue: u8,
}

/// What a sample contributes to channel `c` of a block sum: channel `0` is
/// the luminance `0.2126 R + 0.7152 G + 0.0722 B` scaled by 10000, channels
/// `1`, `2` and `3` are red, green and blue. A fully transparent sample
/// (alpha 0) counts as black in every channel, so that luminance and colour
/// follow one policy.
pub open spec fn channel(p: Pixel, c: int) -> int {
    if p.a == 0 {
        0
    } else if c == 0 {
        2126 * p.r + 7152 * p.g + 722 * p.b
    } else if c == 1 {
        p.r as int
    } else if c == 2 {
        p.g as int
    } else {
        p.b as int
    }
}

/// Sum of channel `c` over the samples `x0 .. x` of row `y`.
pub open spec fn row_sum(img: RasterModel, c: int, y: int, x0: int, x: int) -> int
    decreases x - x0,
{
    if x <= x0 { 0 } else { row_sum(img, c, y, x0, x - 1) + channel(img.pixel(x - 1, y), c) }
}

/// Sum of channel `c` over the block of columns `x0 .. x1` and rows `y0 .. y`.
pub open spec fn block_sum(img: RasterModel, c: int, x0: int, x1: int, y0: int, y: int) -> int
    decreases y - y0,
{
    if y <= y0 { 0 } else { block_sum(img, c, x0, x1, y0, y - 1) + row_sum(img, c, y - 1, x0, x1) }
}

/// First source index covered by cell `i` of `n` along an axis of `s` samples.
pub open spec fn span_start(i: int, n: int, s: int) -> int {
    i * s / n
}

/// One past the last source index covered by cell `i` of `n` along an axis of
/// `s` samples; every cell covers at least one sample.
pub open spec fn span_end(i: int, n: int, s: int) -> int {
    let e = (i + 1) * s / n;
    if e <= span_start(i, n, s) { span_start(i, n, s) + 1 } else { e }
}

/// The measurement of cell `(cx, cy)` of a `columns` x `rows` grid laid over
/// `img`: block means, rounded down, over the cell's covering rectangle.
pub open spec fn cell_at(img: RasterModel, columns: int, rows: int, cx: int, cy: int) -> Cell {
    let x0 = span_start(cx, columns, img.width as int);
    let x1 = span_end(cx, columns, img.width as int);
    let y0 = span_start(cy, rows, img.height as int);
    let y1 = span_end(cy, rows, img.height as int);
    let n = (x1 - x0) * (y1 - y0);
    Cell {
        luminance: (block_sum(img, 0, x0, x1, y0, y1) / (10000 * n)) as u8,
        red: (block_sum(img, 1, x0, x1, y0, y1) / n) as u8,
        green: (block_sum(img, 2, x0, x1, y0, y1) / n) as u8,
        blue: (block_sum(img, 3, x0, x1, y0, y1) / n) as u8,
    }
}

/// Every cell covers a non-empty range of source indices inside the axis.
pub proof fn lemma_span_bounds(i: int, n: int, s: int)
    requires
        0 <= i < n,
        s > 0,
    ensures
        0 <= span_start(i, n, s) < span_end(i, n, s) <= s,
{
    assert(i * s < n * s) by (nonlinear_arith)
        requires i < n, s > 0;
    assert(0 <= i * s) by (nonlinear_arith)
        requires 0 <= i, s > 0;
    lemma_multiply_divide_lt(i * s, n, s);
    assert((i + 1) * s <= n * s) by (nonlinear_arith)
        requires i < n, s > 0;
    lemma_div_is_ordered((i + 1) * s, n * s, n);
    lemma_div_is_ordered(0, i * s, n);
    lemma_div_by_multiple(s, n);
    assert(n * s == s * n) by (nonlinear_arith);
}

/// A row whose samples all contribute `v` to channel `c` sums to `(x - x0) * v`.
proof fn lemma_row_sum_uniform(img: RasterModel, c: int, y: int, x0: int, x: int, v: int)
    requires
        x0 <= x,
        forall|i: int| x0 <= i < x ==> channel(#[trigger] img.pixel(i, y), c) == v,
    ensures
        row_sum(img, c, y, x0, x) == (x - x0) * v,
    decreases x - x0,
{
    if x > x0 {
        lemma_row_sum_uniform(img, c, y, x0, x - 1, v);
        assert(channel(img.pixel(x - 1, y), c) == v);
        assert((x - 1 - x0) * v + v == (x - x0) * v) by (nonlinear_arith);
    } else {
        assert((x - x0) * v == 0) by (nonlinear_arith)
            requires x == x0;
    }
}

/// A block whose samples all contribute `v` to channel `c` sums to
/// `(y - y0) * ((x1 - x0) * v)`.
proof fn lemma_block_sum_uniform(img: RasterModel, c: int, x0: int, x1: int, y0: int, y: int, v: int)
    requires
        x0 <= x1,
        y0 <= y,
        forall|i: int, j: int| x0 <= i < x1 && y0 <= j < y ==> channel(#[trigger] img.pixel(i, j), c) == v,
    ensures
        block_sum(img, c, x0, x1, y0, y) == (y - y0) * ((x1 - x0) * v),
    decreases y - y0,
{
    if y > y0 {
        lemma_block_sum_uniform(img, c, x0, x1, y0, y - 1, v);
        assert forall|i: int| x0 <= i < x1 implies channel(#[trigger] img.pixel(i, y - 1), c) == v by {}
        lemma_row_sum_uniform(img, c, y - 1, x0, x1, v);
        assert((y - 1 - y0) * ((x1 - x0) * v) + (x1 - x0) * v == (y - y0) * ((x1 - x0) * v)) by (nonlinear_arith);
    } else {
        assert((y - y0) * ((x1 - x0) * v) == 0) by (nonlinear_arith)
            requires y == y0;
    }
}

/// Where every sample has luminance `k` (scaled: `10000 * k`), every cell
/// measures luminance `k`.
pub proof fn lemma_uniform_luminance(img: RasterModel, columns: int, rows: int, cx: int, cy: int, k: int)
    requires
        img.width > 0,
        img.height > 0,
        0 <= cx < columns,
        0 <= cy < rows,
        0 <= k <= 255,
        forall|x: int, y: int| 0 <= x < img.width && 0 <= y < img.height
            ==> channel(#[trigger] img.pixel(x, y), 0) == 10000 * k,
    ensures
        cell_at(img, columns, rows, cx, cy).luminance == k,
{
    let x0 = span_start(cx, columns, img.width as int);
    let x1 = span_end(cx, columns, img.width as int);
    let y0 = span_start(cy, rows, img.height as int);
    let y1 = span_end(cy, rows, img.height as int);
    lemma_span_bounds(cx, columns, img.width as int);
    lemma_span_bounds(cy, rows, img.height as int);
    lemma_block_sum_uniform(img, 0, x0, x1, y0, y1, 10000 * k);
    let n = (x1 - x0) * (y1 - y0);
    assert(n > 0) by (nonlinear_arith)
        requires n == (x1 - x0) * (y1 - y0), x1 > x0, y1 > y0;
    assert((y1 - y0) * ((x1 - x0) * (10000 * k)) == k * (10000 * n)) by (nonlinear_arith)
        requires n == (x1 - x0) * (y1 - y0);
    lemma_div_by_multiple(k, 10000 * n);
}

/// The covering range `(start, end)` of cell `i` of `n` along an axis of `s` samples.
fn span(i: u32, n: u32, s: u32) -> (r: (u32, u32))
    requires
        i < n,
        s > 0,
    ensures
        r.0 as int == span_start(i as int, n as int, s as int),
        r.1 as int == span_end(i as int, n as int, s as int),
        r.0 < r.1 <= s,
{
    proof {
        lemma_span_bounds(i as int, n as int, s as int);
        assert((i + 1) * s <= u32::MAX * u32::MAX) by (nonlinear_arith)
            requires i < n, n <= u32::MAX, s <= u32::MAX;
        assert(i * s <= (i + 1) * s) by (nonlinear_arith)
            requires s > 0;
    }
    let start: u64 = (i as u64) * (s as u64) / (n as u64);
    let end: u64 = ((i as u64) + 1) * (s as u64) / (n as u64);
    if end <= start {
        (start as u32, (start + 1) as u32)
    } else {
        (start as u32, end as u32)
    }
}

/// The contributions of one sample to the four channels.
fn channels(p: Pixel) -> (r: (u128, u128, u128, u128))
    ensures
        r.0 == channel(p, 0),
        r.1 == channel(p, 1),
        r.2 == channel(p, 2),
        r.3 == channel(p, 3),
        r.0 <= 2550000,
        r.1 <= 255 && r.2 <= 255 && r.3 <= 255,
{
    if p.a == 0 {
        (0, 0, 0, 0)
    } else {
        let luma: u128 = 2126 * (p.r as u128) + 7152 * (p.g as u128) + 722 * (p.b as u128);
        (luma, p.r as u128, p.g as u128, p.b as u128)
    }
}

/// `total / count`, known to fit a byte because `total <= 255 * count`.
fn mean(total: u128, count: u128) -> (r: u8)
    requires
        count > 0,
        total <= 255 * count,
    ensures
        r as int == total / count,
{
    proof {
        lemma_div_is_ordered(total as int, 255 * count, count as int);
        lemma_div_by_multiple(255, count as int);
        assert(255 * count == 255int * count);
    }
    (total / count) as u8
}

/// Measures cell `(cx, cy)` of a `columns` x `rows` grid laid over `img`.
pub fn sample_cell(img: &Raster, columns: u32, rows: u32, cx: u32, cy: u32) -> (r: Cell)
    requires
        img.wf(),
        img@.width > 0,
        img@.height > 0,
        cx < columns,
        cy < rows,
    ensures
        r == cell_at(img@, columns as int, rows as int, cx as int, cy as int),
{
    let (x0, x1) = span(cx, columns, img.width());
    let (y0, y1) = span(cy, rows, img.height());
    let ghost width = (x1 - x0) as int;
    let mut luma: u128 = 0;
    let mut red: u128 = 0;
    let mut green: u128 = 0;
    let mut blue: u128 = 0;
    let mut y: u32 = y0;
    proof {
        assert((y1 - y0) * width <= 0x1_0000_0000_0000_0000) by (nonlinear_arith)
            requires y0 < y1 <= u32::MAX, 0 < width <= u32::MAX;
    }
    while y < y1
        invariant
            img.wf(),
            x0 < x1 <= img@.width,
            y0 <= y <= y1 <= img@.height,
            width == x1 - x0,
            (y1 - y0) * width <= 0x1_0000_0000_0000_0000,
            luma == block_sum(img@, 0, x0 as int, x1 as int, y0 as int, y as int),
            red == block_sum(img@, 1, x0 as int, x1 as int, y0 as int, y as int),
            green == block_sum(img@, 2, x0 as int, x1 as int, y0 as int, y as int),
            blue == block_sum(img@, 3, x0 as int, x1 as int, y0 as int, y as int),
            luma <= (y - y0) * width * 2550000,
            red <= (y - y0) * width * 255,
            green <= (y - y0) * width * 255,
            blue <= (y - y0) * width * 255,
        decreases y1 - y,
    {
        let ghost base = (y - y0) * width;
        proof {
            assert(base + width <= (y1 - y0) * width) by (nonlinear_arith)
                requires base == (y - y0) * width, y0 <= y, y < y1, width > 0;
        }
        let mut x: u32 = x0;
        while x < x1
            invariant
                img.wf(),
                x0 <= x <= x1 <= img@.width,
                y0 <= y < y1 <= img@.height,
                width == x1 - x0,
                base == (y - y0) * width,
                base + width <= 0x1_0000_0000_0000_0000,
                luma == block_sum(img@, 0, x0 as int, x1 as int, y0 as int, y as int)
                    + row_sum(img@, 0, y as int, x0 as int, x as int),
                red == block_sum(img@, 1, x0 as int, x1 as int, y0 as int, y as int)
                    + row_sum(img@, 1, y as int, x0 as int, x as int),
                green == block_sum(img@, 2, x0 as int, x1 as int, y0 as int, y as int)
                    + row_sum(img@, 2, y as int, x0 as int, x as int),
                blue == block_sum(img@, 3, x0 as int, x1 as int, y0 as int, y as int)
                    + row_sum(img@, 3, y as int, x0 as int, x as int),
                luma <= (base + (x - x0)) * 2550000,
                red <= (base + (x - x0)) * 255,
                green <= (base + (x - x0)) * 255,
                blue <= (base + (x - x0)) * 255,
            decreases x1 - x,
        {
            let (l, r, g, b) = channels(img.pixel(x, y));
            luma = luma + l;
            red = red + r;
            green = green + g;
            blue = blue + b;
            x = x + 1;
        }
        proof {
            assert(base + width == (y + 1 - y0) * width) by (nonlinear_arith)
                requires base == (y - y0) * width;
        }
        y = y + 1;
    }
    proof {
        assert((x1 - x0) * (y1 - y0) <= 0x1_0000_0000_0000_0000) by (nonlinear_arith)
            requires (y1 - y0) * width <= 0x1_0000_0000_0000_0000, width == x1 - x0;
    }
    let count: u128 = ((x1 - x0) as u128) * ((y1 - y0) as u128);
    proof {
        assert((y1 - y0) * width == width * (y1 - y0)) by (nonlinear_arith);
        assert(count > 0) by (nonlinear_arith)
            requires count == width * (y1 - y0), width > 0, y1 > y0;
        assert(luma <= 255 * (10000 * count)) by (nonlinear_arith)
            requires luma <= (y1 - y0) * width * 2550000, count == width * (y1 - y0);
        assert(red <= 255 * count && green <= 255 * count && blue <= 255 * count) by (nonlinear_arith)
            requires count == width * (y1 - y0), red <= (y1 - y0) * width * 255,
                green <= (y1 - y0) * width * 255, blue <= (y1 - y0) * width * 255;
    }
    Cell {
        luminance: mean(luma, 10000 * count),
        red: mean(red, count),
        green: mean(green, count),
        blue: mean(blue, count),
    }
}

} // verus!
