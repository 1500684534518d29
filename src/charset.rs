//! The charset registry: named presets, and grapheme splitting for custom charsets.
use vstd::prelude::*;
use unicode_segmentation::UnicodeSegmentation;

verus! {

/// The extended grapheme clusters of a string, in order.
pub uninterp spec fn graphemes_of(s: Seq<char>) -> Seq<Seq<char>>;

/// The text of each glyph of a charset.
pub open spec fn glyph_texts(glyphs: Seq<String>) -> Seq<Seq<char>> {
    glyphs.map_values(|g: String| g@)
}

/// Relies on `unicode_segmentation::UnicodeSegmentation::graphemes` with
/// extended clusters: it yields consecutive, non-empty slices of the string,
/// from left to right, that together make up the whole string.
#[verifier::external_body]
fn split_graphemes(s: &str) -> (r: Vec<String>)
    ensures
        glyph_texts(r@) == graphemes_of(s@),
        glyph_texts(r@).flatten() == s@,
        forall|i: int| 0 <= i < r@.len() ==> (#[trigger] r@[i])@.len() > 0,
{
    s.graphemes(true).map(String::from).collect()
}

/// The glyphs of a preset, darkest first, one character each, or `None` for
/// a name that is no preset.
pub open spec fn preset_text(name: Seq<char>) -> Option<Seq<char>> {
    if name == "default"@ {
        Some(" .,:;+*?%S#@"@)
    } else if name == "block"@ {
        Some(" \u{2591}\u{2592}\u{2593}\u{2588}"@)
    } else if name == "minimal"@ {
        Some(" .+#"@)
    } else if name == "detailed"@ {
        Some(" .'`^\",:;Il!i><~+_-?][}{1)(|\\/tfjrxnuvczXYUJCLQ0OZmwqpdbkhao*#MW&8%B@$"@)
    } else {
        None
    }
}

/// A text read as a charset with one glyph per character.
pub open spec fn char_glyphs(text: Seq<char>) -> Seq<Seq<char>> {
    Seq::new(text.len(), |i: int| seq![text[i]])
}

/// The charset a name selects: the preset of that name, or else the name's
/// own grapheme clusters, left to right.
pub open spec fn charset_named(name: Seq<char>) -> Seq<Seq<char>> {
    match preset_text(name) {
        Some(text) => char_glyphs(text),
        None => graphemes_of(name),
    }
}

/// Whether two strings hold the same characters.
fn same_text(a: &str, b: &str) -> (r: bool)
    ensures
        r == (a@ == b@),
{
    let a_owned: String = a.to_owned();
    let b_owned: String = b.to_owned();
    a_owned == b_owned
}

/// The preset text registered under `name`.
fn lookup_preset(name: &str) -> (r: Option<&'static str>)
    ensures
        match preset_text(name@) {
            Some(text) => r is Some && r->0@ == text,
            None => r is None,
        },
{
    if same_text(name, "default") {
        Some(" .,:;+*?%S#@")
    } else if same_text(name, "block") {
        Some(" \u{2591}\u{2592}\u{2593}\u{2588}")
    } else if same_text(name, "minimal") {
        Some(" .+#")
    } else if same_text(name, "detailed") {
        Some(" .'`^\",:;Il!i><~+_-?][}{1)(|\\/tfjrxnuvczXYUJCLQ0OZmwqpdbkhao*#MW&8%B@$")
    } else {
        None
    }
}

/// Splits a text into one glyph per character.
fn split_chars(text: &str) -> (r: Vec<String>)
    ensures
        glyph_texts(r@) == char_glyphs(text@),
{
    let n: usize = text.unicode_len();
    let mut glyphs: Vec<String> = Vec::new();
    let mut i: usize = 0;
    while i < n
        invariant
            n == text@.len(),
            i <= n,
            glyphs@.len() == i,
            forall|j: int| 0 <= j < i ==> (#[trigger] glyphs@[j])@ == seq![text@[j]],
        decreases n - i,
    {
        let piece: &str = text.substring_char(i, i + 1);
        assert(piece@ =~= seq![text@[i as int]]);
        glyphs.push(piece.to_owned());
        i = i + 1;
    }
    assert(glyph_texts(glyphs@) =~= char_glyphs(text@));
    glyphs
}

/// Looks up a preset charset by name: its glyphs ordered darkest first, or
/// `None` when no preset has that name.
pub fn from_str(name: &str) -> (r: Option<Vec<String>>)
    ensures
        match preset_text(name@) {
            Some(text) => r is Some && glyph_texts(r->0@) == char_glyphs(text),
            None => r is None,
        },
{
    match lookup_preset(name) {
        Some(text) => Some(split_chars(text)),
        None => None,
    }
}

/// The charset a name selects: a preset, or else the name itself split into
/// grapheme clusters. It is empty only for an empty name.
pub fn charset_for_name(name: &str) -> (r: Vec<String>)
    ensures
        glyph_texts(r@) == charset_named(name@),
        r@.len() == 0 <==> name@.len() == 0,
        forall|i: int| 0 <= i < r@.len() ==> (#[trigger] r@[i])@.len() > 0,
{
    match from_str(name) {
        Some(glyphs) => {
            proof {
                reveal_strlit("default");
                reveal_strlit("block");
                reveal_strlit("minimal");
                reveal_strlit("detailed");
                reveal_strlit(" .,:;+*?%S#@");
                reveal_strlit(" \u{2591}\u{2592}\u{2593}\u{2588}");
                reveal_strlit(" .+#");
                reveal_strlit(" .'`^\",:;Il!i><~+_-?][}{1)(|\\/tfjrxnuvczXYUJCLQ0OZmwqpdbkhao*#MW&8%B@$");
                let text = preset_text(name@)->0;
                assert(glyph_texts(glyphs@).len() == glyphs@.len());
                assert forall|i: int| 0 <= i < glyphs@.len() implies (#[trigger] glyphs@[i])@.len() > 0 by {
                    assert(glyph_texts(glyphs@)[i] == glyphs@[i]@);
                    assert(char_glyphs(text)[i] == seq![text[i]]);
                }
            }
            glyphs
        },
        None => {
            let glyphs = split_graphemes(name);
            proof {
                if name@.len() == 0 {
                    if glyphs@.len() > 0 {
                        let t = glyph_texts(glyphs@);
                        assert(t.flatten() == t.first() + t.drop_first().flatten());
                        assert(t.first() == glyphs@[0]@);
                    }
                } else {
                    if glyphs@.len() == 0 {
                        assert(glyph_texts(glyphs@) =~= Seq::<Seq<char>>::empty());
                    }
                }
            }
            glyphs
        },
    }
}

} // verus!
