//! Names and extensions of the files that edited images are saved to.
use vstd::prelude::*;
use image::ImageFormat;

verus! {

#[verifier::external_type_specification]
#[verifier::external_body]
pub struct ExImageFormat(ImageFormat);

/// Whether a file extension names an image format that the image crate knows.
pub uninterp spec fn is_image_extension(ext: Seq<char>) -> bool;

/// Relies on `image::ImageFormat::from_extension`: the format a file
/// extension names, or `None` when it names none that the crate knows; the
/// answer depends on the extension alone.
#[verifier::external_body]
fn format_from_extension(ext: &str) -> (r: Option<ImageFormat>)
    ensures
        r is Some <==> is_image_extension(ext@),
{
    ImageFormat::from_extension(ext)
}

/// The extension an output is saved with when no usable one is given.
pub open spec fn fallback_extension() -> Seq<char> {
    "jpg"@
}

/// The extension to save an output with, given the requested extension and
/// whether it names a known image format.
pub open spec fn chosen_extension(ext: Option<Seq<char>>, known: bool) -> Seq<char> {
    match ext {
        Some(e) => if known { e } else { fallback_extension() },
        None => fallback_extension(),
    }
}

/// The extension to save an output with: `ext` when `known` says it names
/// an image format, `"jpg"` otherwise.
pub fn extension_or_fallback(ext: Option<&str>, known: bool) -> (r: String)
    ensures
        r@ == chosen_extension(
            match ext {
                Some(e) => Some(e@),
                None => None,
            },
            known,
        ),
{
    proof {
        reveal_strlit("jpg");
    }
    match ext {
        Some(e) => if known { e.to_owned() } else { "jpg".to_owned() },
        None => "jpg".to_owned(),
    }
}

/// The extension to save an output with: the requested one when it names an
/// image format, `"jpg"` otherwise.
pub fn output_extension(ext: Option<&str>) -> (r: String)
    ensures
        r@ == match ext {
            Some(e) => chosen_extension(Some(e@), is_image_extension(e@)),
            None => fallback_extension(),
        },
{
    let known: bool = match ext {
        Some(e) => match format_from_extension(e) {
            Some(_) => true,
            None => false,
        },
        None => false,
    };
    extension_or_fallback(ext, known)
}

/// The name an edited copy of a file with stem `stem` is saved under:
/// `<stem>_edited.<ext>`, with `"jpg"` when no extension is given.
pub fn edited_name(stem: &str, ext: Option<&str>) -> (r: String)
    ensures
        r@ == stem@ + "_edited."@ + match ext {
            Some(e) => e@,
            None => fallback_extension(),
        },
{
    let mut name: String = stem.to_owned();
    name.append("_edited.");
    match ext {
        Some(e) => name.append(e),
        None => {
            proof {
                reveal_strlit("jpg");
            }
            name.append("jpg");
        },
    }
    name
}

} // verus!
