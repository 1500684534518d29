//! The composer: glyph texts per cell, rows, and the rendered text.
use vstd::prelude::*;
use crate::error::RenderError;
use crate::geometry::{resolve_grid, resolved_grid};
use crate::glyph::{glyph_index, glyph_index_spec, lemma_invert_mirrors};
use crate::options::{OptionsModel, RenderOptions};
use crate::raster::{Raster, RasterModel};
use crate::sampler::{cell_at, channel, lemma_uniform_luminance, sample_cell, Cell};

verus! {

/// The decimal digit `d` (`0 <= d < 10`).
pub open spec fn digit_char(d: int) -> char {
    "0123456789"@[d]
}

/// The decimal notation of `v`, without leading zeros.
pub open spec fn decimal(v: nat) -> Seq<char>
    decreases v,
{
    if v < 10 {
        seq![digit_char(v as int)]
    } else {
        decimal(v / 10).push(digit_char((v % 10) as int))
    }
}

/// Start of a 24-bit foreground colour escape: `ESC [ 3 8 ; 2 ;`.
pub open spec fn color_open() -> Seq<char> {
    seq!['\u{1b}', '[', '3', '8', ';', '2', ';']
}

/// The escape that resets all colours: `ESC [ 0 m`.
pub open spec fn color_reset() -> Seq<char> {
    seq!['\u{1b}', '[', '0', 'm']
}

/// The escape that sets the foreground to a cell's mean colour.
pub open spec fn color_escape(c: Cell) -> Seq<char> {
    color_open() + decimal(c.red as nat) + seq![';'] + decimal(c.green as nat) + seq![';']
        + decimal(c.blue as nat) + seq!['m']
}

/// The glyph that a measured cell selects from the charset.
pub open spec fn glyph_for(opts: OptionsModel, c: Cell) -> Seq<char> {
    opts.charset[glyph_index_spec(c.luminance as int, opts.charset.len() as int, opts.invert)]
}

/// The text of one cell: its glyph, wrapped in its colour and a reset when
/// colour is on.
pub open spec fn cell_text(opts: OptionsModel, c: Cell) -> Seq<char> {
    if opts.colored {
        color_escape(c) + glyph_for(opts, c) + color_reset()
    } else {
        glyph_for(opts, c)
    }
}

/// The texts of the `columns` cells of row `cy`, left to right.
pub open spec fn row_cells(img: RasterModel, opts: OptionsModel, columns: int, rows: int, cy: int) -> Seq<Seq<char>> {
    Seq::new(columns as nat, |cx: int| cell_text(opts, cell_at(img, columns, rows, cx, cy)))
}

/// The text of row `cy`: its cells side by side.
pub open spec fn row_text(img: RasterModel, opts: OptionsModel, columns: int, rows: int, cy: int) -> Seq<char> {
    row_cells(img, opts, columns, rows, cy).flatten()
}

/// The texts of the `rows` rows of the grid, top to bottom.
pub open spec fn grid_rows(img: RasterModel, opts: OptionsModel, columns: int, rows: int) -> Seq<Seq<char>> {
    Seq::new(rows as nat, |cy: int| row_text(img, opts, columns, rows, cy))
}

/// Lines joined by single newlines, with none after the last.
pub open spec fn join_lines(lines: Seq<Seq<char>>) -> Seq<char>
    decreases lines.len(),
{
    if lines.len() == 0 {
        Seq::empty()
    } else if lines.len() == 1 {
        lines[0]
    } else {
        join_lines(lines.drop_last()) + seq!['\n'] + lines.last()
    }
}

/// The rows a render of `img` produces, or `None` when its grid cannot be resolved.
pub open spec fn rendered_rows(img: RasterModel, opts: OptionsModel) -> Option<Seq<Seq<char>>> {
    match resolved_grid(img.width as int, img.height as int, opts.width, opts.height) {
        Some((columns, rows)) => Some(grid_rows(img, opts, columns, rows)),
        None => None,
    }
}

/// The text a render of `img` produces, or `None` when its grid cannot be resolved.
pub open spec fn rendered_text(img: RasterModel, opts: OptionsModel) -> Option<Seq<char>> {
    match rendered_rows(img, opts) {
        Some(lines) => Some(join_lines(lines)),
        None => None,
    }
}

/// A render has exactly the resolved number of rows, each made of exactly
/// the resolved number of cells, and every cell shows a glyph of the charset
/// (inside its colour escape when colour is on).
pub proof fn lemma_grid_shape(img: RasterModel, opts: OptionsModel)
    requires
        opts.charset.len() > 0,
        resolved_grid(img.width as int, img.height as int, opts.width, opts.height) is Some,
    ensures
        ({
            let (columns, rows) = resolved_grid(img.width as int, img.height as int, opts.width, opts.height)->0;
            let lines = rendered_rows(img, opts)->0;
            &&& rendered_rows(img, opts) is Some
            &&& columns >= 1 && rows >= 1
            &&& lines.len() == rows
            &&& forall|cy: int| 0 <= cy < rows ==> {
                &&& (#[trigger] lines[cy]) == row_cells(img, opts, columns, rows, cy).flatten()
                &&& row_cells(img, opts, columns, rows, cy).len() == columns
            }
            &&& forall|cx: int, cy: int| 0 <= cx < columns && 0 <= cy < rows ==> {
                let c = #[trigger] cell_at(img, columns, rows, cx, cy);
                &&& row_cells(img, opts, columns, rows, cy)[cx] == cell_text(opts, c)
                &&& opts.charset.contains(glyph_for(opts, c))
            }
        }),
{
    let (columns, rows) = resolved_grid(img.width as int, img.height as int, opts.width, opts.height)->0;
    assert forall|cx: int, cy: int| 0 <= cx < columns && 0 <= cy < rows implies
        opts.charset.contains(glyph_for(opts, #[trigger] cell_at(img, columns, rows, cx, cy))) by {
        let c = cell_at(img, columns, rows, cx, cy);
        let len = opts.charset.len() as int;
        lemma_invert_mirrors(c.luminance as int, len);
        let k = glyph_index_spec(c.luminance as int, len, opts.invert);
        assert(0 <= k < len);
        assert(opts.charset[k] == glyph_for(opts, c));
    }
}

/// Rendering depends on nothing but the raster and the options: equal
/// inputs give the same text, byte for byte.
pub proof fn lemma_render_deterministic(a: RasterModel, b: RasterModel, o: OptionsModel, p: OptionsModel)
    requires
        a == b,
        o == p,
    ensures
        rendered_text(a, o) == rendered_text(b, p),
{
}

/// A source whose samples are all black (red, green and blue 0) shows the
/// first glyph in every cell, or the last one when inverted.
pub proof fn lemma_black_source(img: RasterModel, opts: OptionsModel)
    requires
        img.width > 0,
        img.height > 0,
        opts.charset.len() > 0,
        resolved_grid(img.width as int, img.height as int, opts.width, opts.height) is Some,
        forall|x: int, y: int| 0 <= x < img.width && 0 <= y < img.height ==> {
            let p = #[trigger] img.pixel(x, y);
            p.r == 0 && p.g == 0 && p.b == 0
        },
    ensures
        ({
            let (columns, rows) = resolved_grid(img.width as int, img.height as int, opts.width, opts.height)->0;
            let last = opts.charset.len() - 1;
            forall|cx: int, cy: int| 0 <= cx < columns && 0 <= cy < rows ==>
                glyph_for(opts, #[trigger] cell_at(img, columns, rows, cx, cy))
                    == if opts.invert { opts.charset[last] } else { opts.charset[0] }
        }),
{
    let (columns, rows) = resolved_grid(img.width as int, img.height as int, opts.width, opts.height)->0;
    assert forall|x: int, y: int| 0 <= x < img.width && 0 <= y < img.height implies
        channel(#[trigger] img.pixel(x, y), 0) == 10000 * 0 by {}
    assert forall|cx: int, cy: int| 0 <= cx < columns && 0 <= cy < rows implies
        glyph_for(opts, #[trigger] cell_at(img, columns, rows, cx, cy))
            == if opts.invert { opts.charset[opts.charset.len() - 1] } else { opts.charset[0] } by {
        lemma_uniform_luminance(img, columns, rows, cx, cy, 0);
    }
}

/// A source whose samples are all opaque white (red, green and blue 255,
/// alpha not 0) shows the last glyph in every cell, or the first one when
/// inverted, for a charset of at most 256 glyphs.
pub proof fn lemma_white_source(img: RasterModel, opts: OptionsModel)
    requires
        img.width > 0,
        img.height > 0,
        0 < opts.charset.len() <= 256,
        resolved_grid(img.width as int, img.height as int, opts.width, opts.height) is Some,
        forall|x: int, y: int| 0 <= x < img.width && 0 <= y < img.height ==> {
            let p = #[trigger] img.pixel(x, y);
            p.r == 255 && p.g == 255 && p.b == 255 && p.a != 0
        },
    ensures
        ({
            let (columns, rows) = resolved_grid(img.width as int, img.height as int, opts.width, opts.height)->0;
            let last = opts.charset.len() - 1;
            forall|cx: int, cy: int| 0 <= cx < columns && 0 <= cy < rows ==>
                glyph_for(opts, #[trigger] cell_at(img, columns, rows, cx, cy))
                    == if opts.invert { opts.charset[0] } else { opts.charset[last] }
        }),
{
    let (columns, rows) = resolved_grid(img.width as int, img.height as int, opts.width, opts.height)->0;
    let len = opts.charset.len() as int;
    assert(255 * len / 256 == len - 1) by (nonlinear_arith)
        requires 0 < len <= 256;
    assert forall|x: int, y: int| 0 <= x < img.width && 0 <= y < img.height implies
        channel(#[trigger] img.pixel(x, y), 0) == 10000 * 255 by {}
    assert forall|cx: int, cy: int| 0 <= cx < columns && 0 <= cy < rows implies
        glyph_for(opts, #[trigger] cell_at(img, columns, rows, cx, cy))
            == if opts.invert { opts.charset[0] } else { opts.charset[len - 1] } by {
        lemma_uniform_luminance(img, columns, rows, cx, cy, 255);
    }
}

/// Appends the decimal digit `d`.
fn push_digit(out: &mut String, d: u8)
    requires
        d < 10,
    ensures
        final(out)@ == old(out)@.push(digit_char(d as int)),
{
    let digits: &str = "0123456789";
    proof {
        reveal_strlit("0123456789");
    }
    let piece: &str = digits.substring_char(d as usize, d as usize + 1);
    assert(piece@ =~= seq![digit_char(d as int)]);
    out.append(piece);
    assert(final(out)@ =~= old(out)@.push(digit_char(d as int)));
}

/// Appends the decimal notation of `v`.
fn push_decimal(out: &mut String, v: u8)
    ensures
        final(out)@ == old(out)@ + decimal(v as nat),
{
    proof {
        reveal_with_fuel(decimal, 3);
    }
    if v >= 100 {
        push_digit(out, v / 100);
        push_digit(out, (v / 10) % 10);
        push_digit(out, v % 10);
        assert(decimal(v as nat) =~= seq![digit_char((v / 100) as int), digit_char(((v / 10) % 10) as int), digit_char((v % 10) as int)]);
    } else if v >= 10 {
        push_digit(out, v / 10);
        push_digit(out, v % 10);
        assert(decimal(v as nat) =~= seq![digit_char((v / 10) as int), digit_char((v % 10) as int)]);
    } else {
        push_digit(out, v);
    }
    assert(final(out)@ =~= old(out)@ + decimal(v as nat));
}

/// Appends a literal piece of text.
fn push_text(out: &mut String, text: &str)
    ensures
        final(out)@ == old(out)@ + text@,
{
    out.append(text);
}

/// Appends the colour escape of a cell.
fn push_color(out: &mut String, c: Cell)
    ensures
        final(out)@ == old(out)@ + color_escape(c),
{
    proof {
        reveal_strlit("\x1b[38;2;");
        reveal_strlit(";");
        reveal_strlit("m");
    }
    push_text(out, "\x1b[38;2;");
    assert("\x1b[38;2;"@ =~= color_open());
    push_decimal(out, c.red);
    push_text(out, ";");
    push_decimal(out, c.green);
    push_text(out, ";");
    push_decimal(out, c.blue);
    push_text(out, "m");
    assert(final(out)@ =~= old(out)@ + color_escape(c));
}

/// Appends the text of one measured cell.
fn push_cell(out: &mut String, options: &RenderOptions, c: Cell)
    requires
        options.wf(),
    ensures
        final(out)@ == old(out)@ + cell_text(options@, c),
{
    let index: usize = glyph_index(c.luminance, options.charset.len(), options.invert);
    let glyph: &str = options.charset[index].as_str();
    assert(glyph@ == glyph_for(options@, c));
    if options.colored {
        push_color(out, c);
        push_text(out, glyph);
        proof {
            reveal_strlit("\x1b[0m");
        }
        push_text(out, "\x1b[0m");
        assert("\x1b[0m"@ =~= color_reset());
        assert(final(out)@ =~= old(out)@ + cell_text(options@, c));
    } else {
        push_text(out, glyph);
    }
}

/// Renders row `cy` of a `columns` x `rows` grid laid over `img`.
fn render_row(img: &Raster, options: &RenderOptions, columns: u32, rows: u32, cy: u32) -> (r: String)
    requires
        img.wf(),
        img@.width > 0,
        img@.height > 0,
        options.wf(),
        cy < rows,
    ensures
        r@ == row_text(img@, options@, columns as int, rows as int, cy as int),
{
    let ghost cells = row_cells(img@, options@, columns as int, rows as int, cy as int);
    let mut out: String = String::new();
    let mut cx: u32 = 0;
    while cx < columns
        invariant
            img.wf(),
            img@.width > 0,
            img@.height > 0,
            options.wf(),
            cy < rows,
            cx <= columns,
            cells == row_cells(img@, options@, columns as int, rows as int, cy as int),
            out@ == cells.take(cx as int).flatten(),
        decreases columns - cx,
    {
        let c: Cell = sample_cell(img, columns, rows, cx, cy);
        push_cell(&mut out, options, c);
        proof {
            assert(cells.take(cx + 1) =~= cells.take(cx as int).push(cells[cx as int]));
            cells.take(cx as int).lemma_flatten_push(cells[cx as int]);
        }
        cx = cx + 1;
    }
    assert(cells.take(columns as int) =~= cells);
    out
}

/// Renders `img` as rows of glyphs, top to bottom.
///
/// Fails with `InvalidGeometry`, before any sampling, when the raster has no
/// area or the grid cannot be resolved from the options; otherwise there is
/// one row per grid row, each the concatenation of one cell text per column.
pub fn render_rows(img: &Raster, options: &RenderOptions) -> (r: Result<Vec<String>, RenderError>)
    requires
        img.wf(),
        options.wf(),
    ensures
        match rendered_rows(img@, options@) {
            Some(lines) => r is Ok && r->Ok_0@.map_values(|s: String| s@) == lines,
            None => r == Err::<Vec<String>, RenderError>(RenderError::InvalidGeometry),
        },
{
    let (columns, rows) = match resolve_grid(img.width(), img.height(), options.width, options.height) {
        Ok(grid) => grid,
        Err(e) => {
            return Err(e);
        },
    };
    let ghost lines = grid_rows(img@, options@, columns as int, rows as int);
    let mut out: Vec<String> = Vec::new();
    let mut cy: u32 = 0;
    while cy < rows
        invariant
            img.wf(),
            img@.width > 0,
            img@.height > 0,
            options.wf(),
            cy <= rows,
            lines == grid_rows(img@, options@, columns as int, rows as int),
            out@.len() == cy,
            forall|i: int| 0 <= i < cy ==> (#[trigger] out@[i])@ == lines[i],
        decreases rows - cy,
    {
        let row: String = render_row(img, options, columns, rows, cy);
        out.push(row);
        cy = cy + 1;
    }
    assert(out@.map_values(|s: String| s@) =~= lines);
    Ok(out)
}

/// Renders `img` and appends the text to `buffer`: the rows joined by single
/// newlines, with no newline after the last.
///
/// Fails with `InvalidGeometry`, leaving `buffer` as it was, when the raster
/// has no area or the grid cannot be resolved from the options.
pub fn render_image_to(img: &Raster, buffer: &mut String, options: &RenderOptions) -> (r: Result<(), RenderError>)
    requires
        img.wf(),
        options.wf(),
    ensures
        match rendered_text(img@, options@) {
            Some(text) => r is Ok && final(buffer)@ == old(buffer)@ + text,
            None => r == Err::<(), RenderError>(RenderError::InvalidGeometry) && final(buffer)@ == old(buffer)@,
        },
{
    let lines: Vec<String> = match render_rows(img, options) {
        Ok(lines) => lines,
        Err(e) => {
            return Err(e);
        },
    };
    let ghost texts = lines@.map_values(|s: String| s@);
    let ghost start = buffer@;
    let mut i: usize = 0;
    while i < lines.len()
        invariant
            texts == lines@.map_values(|s: String| s@),
            i <= lines@.len(),
            buffer@ == start + join_lines(texts.take(i as int)),
        decreases lines@.len() - i,
    {
        proof {
            reveal_strlit("\n");
        }
        if i > 0 {
            push_text(buffer, "\n");
        }
        push_text(buffer, lines[i].as_str());
        proof {
            let before = texts.take(i as int);
            let after = texts.take(i + 1);
            assert(after.drop_last() =~= before);
            assert(after.last() == texts[i as int]);
            if i == 0 {
                assert(join_lines(after) == texts[0]);
            }
            assert(buffer@ =~= start + join_lines(after));
        }
        i = i + 1;
    }
    assert(texts.take(lines@.len() as int) =~= texts);
    Ok(())
}

} // verus!
