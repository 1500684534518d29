//! The glyph mapper: from a cell's luminance to an index into the charset.
use vstd::prelude::*;

verus! {

/// The glyph index selected for a luminance in `[0, 255]` within a charset
/// of `len` glyphs: `floor(luminance / 256 * len)`, clamped to the last
/// index, and mirrored when `invert` is set.
pub open spec fn glyph_index_spec(luminance: int, len: int, invert: bool) -> int {
    let scaled = luminance * len / 256;
    let base = if scaled > len - 1 { len - 1 } else { scaled };
    if invert { len - 1 - base } else { base }
}

/// Maps a cell's luminance to an index into a charset of `len` glyphs.
pub fn glyph_index(luminance: u8, len: usize, invert: bool) -> (r: usize)
    requires
        len > 0,
    ensures
        r < len,
        r as int == glyph_index_spec(luminance as int, len as int, invert),
{
    proof {
        assert((luminance as u128) * (len as u128) <= 255 * 0x1_0000_0000_0000_0000) by (nonlinear_arith)
            requires luminance <= 255, len < 0x1_0000_0000_0000_0000;
    }
    let wide: u128 = (luminance as u128) * (len as u128);
    let scaled: u128 = wide / 256;
    proof {
        assert(wide <= 255 * len) by (nonlinear_arith)
            requires wide == luminance * len, luminance <= 255;
        assert(scaled < len) by (nonlinear_arith)
            requires scaled == wide / 256, wide <= 255 * len, len > 0;
    }
    let base: usize = if scaled > (len - 1) as u128 { len - 1 } else { scaled as usize };
    if invert { len - 1 - base } else { base }
}

/// With `invert` set, the index selected for a luminance is the mirror
/// `len - 1 - i` of the index `i` selected without it.
pub proof fn lemma_invert_mirrors(luminance: int, len: int)
    requires
        0 <= luminance <= 255,
        len > 0,
    ensures
        glyph_index_spec(luminance, len, true) == len - 1 - glyph_index_spec(luminance, len, false),
        0 <= glyph_index_spec(luminance, len, false) < len,
{
    assert(0 <= luminance * len / 256) by (nonlinear_arith)
        requires 0 <= luminance, len > 0;
}

} // verus!
