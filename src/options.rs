//! The options of a render.
use vstd::prelude::*;
use crate::charset::{charset_for_name, charset_named, glyph_texts};

verus! {

/// Columns used when a caller asks for a render without giving a width.
pub const DEFAULT_COLUMNS: u32 = 80;

/// What the options of a render are: requested sizes, decoration flags and
/// the glyph texts of the charset, darkest first.
pub struct OptionsModel {
    pub width: Option<u32>,
    pub height: Option<u32>,
    pub colored: bool,
    pub invert: bool,
    pub charset: Seq<Seq<char>>,
}

/// How a raster is rendered: the requested grid size (either may be left
/// out and is then derived from the other), whether each glyph is coloured
/// with its cell's mean colour, whether the charset is read lightest first,
/// and the charset itself, darkest glyph first.
pub struct RenderOptions {
    pub width: Option<u32>,
    pub height: Option<u32>,
    pub colored: bool,
    pub invert: bool,
    pub charset: Vec<String>,
}

impl View for RenderOptions {
    type V = OptionsModel;

    open spec fn view(&self) -> OptionsModel {
        OptionsModel {
            width: self.width,
            height: self.height,
            colored: self.colored,
            invert: self.invert,
            charset: glyph_texts(self.charset@),
        }
    }
}

impl RenderOptions {
    /// A render needs at least one glyph.
    pub open spec fn wf(&self) -> bool {
        self.charset@.len() > 0
    }
}

/// The charset name used when a caller names none.
pub open spec fn default_charset_name() -> Seq<char> {
    "default"@
}

/// The options of a text render as a command line asks for it: the width
/// defaults to `DEFAULT_COLUMNS`, and the charset is the preset named
/// `charset_name`, or else that name's own grapheme clusters; an empty name
/// selects the `"default"` preset.
pub fn ascii_options(width: Option<u32>, height: Option<u32>, colored: bool, invert: bool, charset_name: &str) -> (r: RenderOptions)
    ensures
        r@ == (OptionsModel {
            width: Some(
                match width {
                    Some(w) => w,
                    None => DEFAULT_COLUMNS,
                },
            ),
            height: height,
            colored: colored,
            invert: invert,
            charset: charset_named(
                if charset_name@.len() == 0 { default_charset_name() } else { charset_name@ },
            ),
        }),
        r.wf(),
{
    let columns: u32 = match width {
        Some(w) => w,
        None => DEFAULT_COLUMNS,
    };
    let name: &str = if charset_name.unicode_len() == 0 { "default" } else { charset_name };
    proof {
        reveal_strlit("default");
    }
    RenderOptions {
        width: Some(columns),
        height,
        colored,
        invert,
        charset: charset_for_name(name),
    }
}

} // verus!
