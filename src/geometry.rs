//! The geometry resolver: the output grid from the source size and the request.
use vstd::prelude::*;
use crate::error::RenderError;

verus! {

/// Numerator of the glyph aspect ratio (visual cell height over width).
pub const ASPECT_NUM: u32 = 11;

/// Denominator of the glyph aspect ratio: the ratio is `11 / 5 = 2.2`.
pub const ASPECT_DEN: u32 = 5;

/// `p / q` rounded to the nearest integer, halves rounded up (`q > 0`, `p >= 0`).
pub open spec fn round_ratio(p: int, q: int) -> int {
    (2 * p + q) / (2 * q)
}

/// A resolved dimension is never smaller than one cell.
pub open spec fn at_least_one(v: int) -> int {
    if v < 1 { 1 } else { v }
}

/// Rows implied by `columns` for a `sw` x `sh` source: `round(columns * sh / sw / A)`.
pub open spec fn rows_for_columns(columns: int, sw: int, sh: int) -> int {
    round_ratio(columns * sh * ASPECT_DEN, sw * ASPECT_NUM)
}

/// Columns implied by `rows` for a `sw` x `sh` source: `round(rows * sw / sh * A)`.
pub open spec fn columns_for_rows(rows: int, sw: int, sh: int) -> int {
    round_ratio(rows * sw * ASPECT_NUM, sh * ASPECT_DEN)
}

/// The output grid `(columns, rows)` for a source of `sw` x `sh` pixels and
/// the requested sizes, or `None` when it cannot be resolved: the source has
/// no area, neither size is requested, or a derived size exceeds `u32`.
pub open spec fn resolved_grid(sw: int, sh: int, width: Option<u32>, height: Option<u32>) -> Option<(int, int)> {
    if sw == 0 || sh == 0 {
        None
    } else {
        match (width, height) {
            (Some(w), Some(h)) => Some((at_least_one(w as int), at_least_one(h as int))),
            (Some(w), None) => {
                let rows = rows_for_columns(w as int, sw, sh);
                if rows > u32::MAX { None } else { Some((at_least_one(w as int), at_least_one(rows))) }
            },
            (None, Some(h)) => {
                let columns = columns_for_rows(h as int, sw, sh);
                if columns > u32::MAX { None } else { Some((at_least_one(columns), at_least_one(h as int))) }
            },
            (None, None) => None,
        }
    }
}

/// Given only a width `w`, the resolved rows `h` are within one of the exact
/// `w * sh / (sw * A)`: `|h * sw * A - w * sh| <= sw * A`, and the columns are
/// `w` itself (at least one).
pub proof fn lemma_aspect_law(sw: u32, sh: u32, w: u32)
    requires
        sw > 0,
        sh > 0,
        resolved_grid(sw as int, sh as int, Some(w), None) is Some,
    ensures
        ({
            let (columns, rows) = resolved_grid(sw as int, sh as int, Some(w), None)->0;
            let exact_num = w * sh * ASPECT_DEN;
            let exact_den = sw * ASPECT_NUM;
            &&& columns == at_least_one(w as int)
            &&& (rows - 1) * exact_den <= exact_num
            &&& exact_num <= (rows + 1) * exact_den
        }),
{
    let p = w * sh * ASPECT_DEN;
    let q = sw * ASPECT_NUM;
    let r = round_ratio(p, q);
    assert(q > 0);
    assert(p >= 0) by (nonlinear_arith)
        requires p == w * sh * 5, w >= 0, sh >= 0;
    assert(2 * q * r <= 2 * p + q && 2 * p + q < 2 * q * (r + 1)) by (nonlinear_arith)
        requires r == (2 * p + q) / (2 * q), q > 0;
    assert(r >= 0) by (nonlinear_arith)
        requires r == (2 * p + q) / (2 * q), q > 0, p >= 0;
    let rows = at_least_one(r);
    assert((rows - 1) * q <= p && p <= (rows + 1) * q) by (nonlinear_arith)
        requires
            2 * q * r <= 2 * p + q,
            2 * p + q < 2 * q * (r + 1),
            r >= 0,
            p >= 0,
            q > 0,
            rows == if r < 1 { 1 } else { r };
}

/// The product `a * b * c` of three 32-bit values, which fits in 128 bits.
fn wide_product(a: u32, b: u32, c: u32) -> (r: u128)
    ensures
        r as int == a as int * b as int * c as int,
        r <= 0x1_0000_0000_0000_0000_0000_0000,
{
    proof {
        assert(a * b <= 0x1_0000_0000_0000_0000) by (nonlinear_arith)
            requires a <= u32::MAX, b <= u32::MAX;
    }
    let ab: u128 = (a as u128) * (b as u128);
    proof {
        assert(ab * c <= 0x1_0000_0000_0000_0000_0000_0000) by (nonlinear_arith)
            requires ab <= 0x1_0000_0000_0000_0000, c <= u32::MAX;
    }
    ab * (c as u128)
}

/// Rounded quotient `p / q` computed exactly on wide integers.
fn rounded_quotient(p: u128, q: u128) -> (r: u128)
    requires
        q > 0,
        p <= 0x1_0000_0000_0000_0000_0000_0000,
        q <= 0x1_0000_0000_0000_0000,
    ensures
        r as int == round_ratio(p as int, q as int),
{
    (2 * p + q) / (2 * q)
}

/// Computes the output grid `(columns, rows)` for a source of
/// `source_width` x `source_height` pixels.
///
/// Both sizes given: taken as they are. Only the width: the rows follow the
/// source's aspect corrected by the glyph aspect ratio; only the height: the
/// columns likewise. Each dimension is at least one.
pub fn resolve_grid(source_width: u32, source_height: u32, width: Option<u32>, height: Option<u32>) -> (r: Result<(u32, u32), RenderError>)
    ensures
        match resolved_grid(source_width as int, source_height as int, width, height) {
            Some((c, h)) => r == Ok::<(u32, u32), RenderError>((c as u32, h as u32)),
            None => r == Err::<(u32, u32), RenderError>(RenderError::InvalidGeometry),
        },
{
    if source_width == 0 || source_height == 0 {
        return Err(RenderError::InvalidGeometry);
    }
    match (width, height) {
        (Some(w), Some(h)) => {
            Ok((if w < 1 { 1 } else { w }, if h < 1 { 1 } else { h }))
        },
        (Some(w), None) => {
            let p: u128 = wide_product(w, source_height, ASPECT_DEN);
            let q: u128 = wide_product(source_width, ASPECT_NUM, 1);
            proof {
                assert(q <= 0x1_0000_0000_0000_0000);
            }
            let rows = rounded_quotient(p, q);
            if rows > u32::MAX as u128 {
                Err(RenderError::InvalidGeometry)
            } else {
                Ok((if w < 1 { 1 } else { w }, if rows < 1 { 1 } else { rows as u32 }))
            }
        },
        (None, Some(h)) => {
            let p: u128 = wide_product(h, source_width, ASPECT_NUM);
            let q: u128 = wide_product(source_height, ASPECT_DEN, 1);
            proof {
                assert(q <= 0x1_0000_0000_0000_0000);
            }
            let columns = rounded_quotient(p, q);
            if columns > u32::MAX as u128 {
                Err(RenderError::InvalidGeometry)
            } else {
                Ok((if columns < 1 { 1 } else { columns as u32 }, if h < 1 { 1 } else { h }))
            }
        },
        (None, None) => Err(RenderError::InvalidGeometry),
    }
}

} // verus!
