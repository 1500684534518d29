use ascii_art::{
    ascii_options, charset_for_name, from_str, glyph_index, render_image_to, render_rows,
    resolve_grid, sample_cell, Pixel, Raster, RenderError, RenderOptions,
};

fn solid(width: u32, height: u32, p: Pixel) -> Raster {
    let pixels = vec![p; (width * height) as usize];
    Raster::new(width, height, pixels).unwrap()
}

fn options(width: Option<u32>, height: Option<u32>, colored: bool, invert: bool, glyphs: &[&str]) -> RenderOptions {
    RenderOptions {
        width,
        height,
        colored,
        invert,
        charset: glyphs.iter().map(|g| g.to_string()).collect(),
    }
}

fn render(img: &Raster, opts: &RenderOptions) -> Result<String, RenderError> {
    let mut out = String::new();
    render_image_to(img, &mut out, opts)?;
    Ok(out)
}

const SIX: [&str; 6] = ["@", "#", "%", "+", "-", "."];

#[test]
fn mid_gray_renders_plus_rows() {
    let img = solid(100, 50, Pixel { r: 128, g: 128, b: 128, a: 255 });
    let opts = options(Some(10), None, false, false, &SIX);
    let text = render(&img, &opts).unwrap();
    assert_eq!(text, "++++++++++\n++++++++++");
}

#[test]
fn unknown_name_falls_back_to_graphemes() {
    assert!(from_str("unknownxyz").is_none());
    let charset = charset_for_name("AB");
    assert_eq!(charset, vec!["A".to_string(), "B".to_string()]);
    assert_eq!(charset[glyph_index(50, charset.len(), false)], "A");
    assert_eq!(charset[glyph_index(200, charset.len(), false)], "B");
}

#[test]
fn literal_charset_renders_by_luminance() {
    let dark = solid(1, 1, Pixel { r: 50, g: 50, b: 50, a: 255 });
    let light = solid(1, 1, Pixel { r: 200, g: 200, b: 200, a: 255 });
    let opts = RenderOptions { width: Some(1), height: Some(1), colored: false, invert: false, charset: charset_for_name("AB") };
    assert_eq!(render(&dark, &opts).unwrap(), "A");
    assert_eq!(render(&light, &opts).unwrap(), "B");
}

#[test]
fn graphemes_keep_combining_marks_together() {
    let charset = charset_for_name("e\u{301}x\u{1F600}");
    assert_eq!(charset, vec!["e\u{301}".to_string(), "x".to_string(), "\u{1F600}".to_string()]);
    assert!(charset_for_name("").is_empty());
}

#[test]
fn presets_are_found_by_name() {
    let default = from_str("default").unwrap();
    assert_eq!(default.len(), 12);
    assert_eq!(default[0], " ");
    assert_eq!(default[11], "@");
    assert_eq!(from_str("block").unwrap(), vec![" ", "\u{2591}", "\u{2592}", "\u{2593}", "\u{2588}"]);
    assert_eq!(from_str("minimal").unwrap(), vec![" ", ".", "+", "#"]);
    assert_eq!(from_str("detailed").unwrap().len(), 70);
    assert_eq!(charset_for_name("minimal"), vec![" ", ".", "+", "#"]);
}

#[test]
fn grid_has_resolved_rows_and_columns() {
    let img = solid(40, 30, Pixel { r: 10, g: 200, b: 30, a: 255 });
    let opts = options(Some(7), Some(4), false, false, &SIX);
    let rows = render_rows(&img, &opts).unwrap();
    assert_eq!(rows.len(), 4);
    for row in &rows {
        assert_eq!(row.chars().count(), 7);
    }
    let text = render(&img, &opts).unwrap();
    assert_eq!(text.lines().count(), 4);
    assert!(!text.ends_with('\n'));
}

#[test]
fn renders_are_identical() {
    let bytes: Vec<u8> = (0..(6 * 5 * 4)).map(|i| (i * 37 % 256) as u8).collect();
    let img = Raster::from_rgba_bytes(6, 5, &bytes).unwrap();
    let opts = options(Some(3), None, true, false, &SIX);
    assert_eq!(render(&img, &opts).unwrap(), render(&img, &opts).unwrap());
}

#[test]
fn invert_mirrors_the_index() {
    for len in [1usize, 2, 6, 12, 70, 300] {
        for lum in [0u8, 1, 50, 127, 128, 200, 255] {
            let plain = glyph_index(lum, len, false);
            let inverted = glyph_index(lum, len, true);
            assert_eq!(inverted, len - 1 - plain);
        }
    }
    assert_eq!(glyph_index(128, 6, false), 3);
    assert_eq!(glyph_index(128, 6, true), 2);
}

#[test]
fn aspect_from_width_or_height() {
    assert_eq!(resolve_grid(100, 50, Some(10), None), Ok((10, 2)));
    assert_eq!(resolve_grid(100, 50, None, Some(5)), Ok((22, 5)));
    assert_eq!(resolve_grid(100, 50, Some(80), None), Ok((80, 18)));
    assert_eq!(resolve_grid(100, 50, Some(7), Some(9)), Ok((7, 9)));
    assert_eq!(resolve_grid(1000, 1, Some(1), None), Ok((1, 1)));
    assert_eq!(resolve_grid(100, 50, Some(0), Some(0)), Ok((1, 1)));
}

#[test]
fn geometry_errors() {
    assert_eq!(resolve_grid(0, 50, Some(10), None), Err(RenderError::InvalidGeometry));
    assert_eq!(resolve_grid(100, 0, Some(10), None), Err(RenderError::InvalidGeometry));
    assert_eq!(resolve_grid(100, 50, None, None), Err(RenderError::InvalidGeometry));
    assert_eq!(resolve_grid(1, u32::MAX, Some(u32::MAX), None), Err(RenderError::InvalidGeometry));
    let empty = Raster::new(0, 0, vec![]).unwrap();
    let mut out = String::from("kept");
    let opts = options(Some(3), None, false, false, &SIX);
    assert_eq!(render_image_to(&empty, &mut out, &opts), Err(RenderError::InvalidGeometry));
    assert_eq!(out, "kept");
    let img = solid(4, 4, Pixel { r: 0, g: 0, b: 0, a: 255 });
    assert_eq!(render(&img, &options(None, None, false, false, &SIX)), Err(RenderError::InvalidGeometry));
}

#[test]
fn black_and_white_extremes() {
    let black = solid(9, 9, Pixel { r: 0, g: 0, b: 0, a: 255 });
    let white = solid(9, 9, Pixel { r: 255, g: 255, b: 255, a: 255 });
    assert_eq!(render(&black, &options(Some(3), Some(2), false, false, &SIX)).unwrap(), "@@@\n@@@");
    assert_eq!(render(&black, &options(Some(3), Some(2), false, true, &SIX)).unwrap(), "...\n...");
    assert_eq!(render(&white, &options(Some(3), Some(2), false, false, &SIX)).unwrap(), "...\n...");
    assert_eq!(render(&white, &options(Some(3), Some(2), false, true, &SIX)).unwrap(), "@@@\n@@@");
}

#[test]
fn transparent_samples_count_as_black() {
    let clear = solid(2, 2, Pixel { r: 255, g: 255, b: 255, a: 0 });
    assert_eq!(render(&clear, &options(Some(1), Some(1), false, false, &SIX)).unwrap(), "@");
}

#[test]
fn colored_cells_carry_mean_color() {
    let red = solid(1, 1, Pixel { r: 255, g: 0, b: 0, a: 255 });
    let text = render(&red, &options(Some(1), Some(1), true, false, &["#"])).unwrap();
    assert_eq!(text, "\x1b[38;2;255;0;0m#\x1b[0m");
    let pair = Raster::new(2, 1, vec![
        Pixel { r: 255, g: 8, b: 40, a: 255 },
        Pixel { r: 0, g: 2, b: 61, a: 255 },
    ]).unwrap();
    let cell = sample_cell(&pair, 1, 1, 0, 0);
    assert_eq!((cell.red, cell.green, cell.blue), (127, 5, 50));
    let text = render(&pair, &options(Some(1), Some(1), true, false, &["a", "b"])).unwrap();
    assert_eq!(text, "\x1b[38;2;127;5;50ma\x1b[0m");
}

#[test]
fn block_average_of_luminance() {
    let pair = Raster::new(2, 1, vec![
        Pixel { r: 0, g: 0, b: 0, a: 255 },
        Pixel { r: 255, g: 255, b: 255, a: 255 },
    ]).unwrap();
    assert_eq!(sample_cell(&pair, 1, 1, 0, 0).luminance, 127);
    assert_eq!(sample_cell(&pair, 2, 1, 0, 0).luminance, 0);
    assert_eq!(sample_cell(&pair, 2, 1, 1, 0).luminance, 255);
    let green = solid(1, 1, Pixel { r: 0, g: 100, b: 0, a: 255 });
    assert_eq!(sample_cell(&green, 1, 1, 0, 0).luminance, 71);
}

#[test]
fn upscaled_grid_repeats_samples() {
    let pair = Raster::new(2, 1, vec![
        Pixel { r: 0, g: 0, b: 0, a: 255 },
        Pixel { r: 255, g: 255, b: 255, a: 255 },
    ]).unwrap();
    let text = render(&pair, &options(Some(4), Some(2), false, false, &["a", "b"])).unwrap();
    assert_eq!(text, "aabb\naabb");
}

#[test]
fn appends_to_existing_buffer() {
    let img = solid(2, 2, Pixel { r: 0, g: 0, b: 0, a: 255 });
    let mut out = String::from(">");
    render_image_to(&img, &mut out, &options(Some(2), Some(1), false, false, &SIX)).unwrap();
    assert_eq!(out, ">@@");
}

#[test]
fn raster_construction_checks_sizes() {
    assert!(Raster::new(2, 2, vec![Pixel { r: 0, g: 0, b: 0, a: 0 }; 3]).is_none());
    assert!(Raster::from_rgba_bytes(2, 1, &vec![0u8; 7]).is_none());
    let img = Raster::from_rgba_bytes(2, 1, &vec![1, 2, 3, 4, 5, 6, 7, 8]).unwrap();
    assert_eq!(img.width(), 2);
    assert_eq!(img.height(), 1);
    assert_eq!(img.pixel(1, 0), Pixel { r: 5, g: 6, b: 7, a: 8 });
}

#[test]
fn command_line_options() {
    let opts = ascii_options(None, Some(5), true, false, "AB");
    assert_eq!(opts.width, Some(80));
    assert_eq!(opts.height, Some(5));
    assert!(opts.colored);
    assert!(!opts.invert);
    assert_eq!(opts.charset, vec!["A".to_string(), "B".to_string()]);
    let preset = ascii_options(Some(12), None, false, true, "minimal");
    assert_eq!(preset.width, Some(12));
    assert_eq!(preset.charset.len(), 4);
    let unnamed = ascii_options(Some(3), None, false, false, "");
    assert_eq!(unnamed.charset, from_str("default").unwrap());
}

#[test]
fn error_messages_are_not_empty() {
    assert!(!RenderError::InvalidGeometry.message().is_empty());
    assert!(RenderError::Io("denied".to_string()).message().contains("denied"));
    assert!(RenderError::ImageDecode("bad".to_string()).message().contains("bad"));
}
