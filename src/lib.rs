//! Converts a raster image into glyph-based text ("ASCII art").
//!
//! The pipeline is linear: the charset is resolved, the target grid is
//! computed from the source size, every cell of the grid is sampled, its
//! luminance is mapped to a glyph, and the glyphs are composed into rows.
mod charset;
mod compose;
mod error;
mod geometry;
mod glyph;
mod naming;
mod options;
mod raster;
mod sampler;

pub use crate::charset::{
    char_glyphs, charset_for_name, charset_named, from_str, glyph_texts, graphemes_of,
    preset_text,
};
pub use crate::compose::{
    cell_text, color_escape, color_open, color_reset, decimal, digit_char, glyph_for, grid_rows,
    join_lines, lemma_black_source, lemma_grid_shape, lemma_render_deterministic,
    lemma_white_source, render_image_to, render_rows, rendered_rows, rendered_text, row_cells,
    row_text,
};
pub use crate::error::RenderError;
pub use crate::geometry::{
    at_least_one, columns_for_rows, lemma_aspect_law, resolve_grid, resolved_grid, round_ratio,
    rows_for_columns, ASPECT_DEN, ASPECT_NUM,
};
pub use crate::glyph::{glyph_index, glyph_index_spec, lemma_invert_mirrors};
pub use crate::naming::{
    chosen_extension, edited_name, extension_or_fallback, fallback_extension, is_image_extension,
    output_extension,
};
pub use crate::options::{
    ascii_options, default_charset_name, OptionsModel, RenderOptions, DEFAULT_COLUMNS,
};
pub use crate::raster::{Pixel, Raster, RasterModel};
pub use crate::sampler::{
    block_sum, cell_at, channel, lemma_span_bounds, lemma_uniform_luminance, row_sum,
    sample_cell, span_end, span_start, Cell,
};
