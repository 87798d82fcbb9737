//! Supported image formats and case-insensitive extension classification.
//!
//! The pipeline recognizes exactly three extensions — `png`, `jpg`, `jpeg` —
//! compared without regard to ASCII case. The original-format codec is
//! chosen by extension: `png` takes the PNG path, anything else the JPEG
//! path.

use vstd::prelude::*;

verus! {

/// ASCII code of `A`.
pub const UPPER_A: u8 = 65;

/// ASCII code of `Z`.
pub const UPPER_Z: u8 = 90;

/// ASCII code of `p`.
pub const LC_P: u8 = 112;

/// ASCII code of `n`.
pub const LC_N: u8 = 110;

/// ASCII code of `g`.
pub const LC_G: u8 = 103;

/// ASCII code of `j`.
pub const LC_J: u8 = 106;

/// ASCII code of `e`.
pub const LC_E: u8 = 101;

/// The two source formats the pipeline optimizes in place.
#[derive(Clone, Copy, PartialEq, Eq, Structural, Debug)]
pub enum ImageKind {
    Png,
    Jpeg,
}

/// ASCII lowercase of one byte; bytes outside `A..=Z` are unchanged.
pub open spec fn lower_byte(b: u8) -> u8 {
    if UPPER_A <= b <= UPPER_Z {
        (b + 32) as u8
    } else {
        b
    }
}

/// The extension `png`, in any ASCII case.
pub open spec fn is_png_ext(e: Seq<u8>) -> bool {
    e.len() == 3 && lower_byte(e[0]) == LC_P && lower_byte(e[1]) == LC_N && lower_byte(e[2]) == LC_G
}

/// The extension `jpg`, in any ASCII case.
pub open spec fn is_jpg_ext(e: Seq<u8>) -> bool {
    e.len() == 3 && lower_byte(e[0]) == LC_J && lower_byte(e[1]) == LC_P && lower_byte(e[2]) == LC_G
}

/// The extension `jpeg`, in any ASCII case.
pub open spec fn is_jpeg_ext(e: Seq<u8>) -> bool {
    e.len() == 4 && lower_byte(e[0]) == LC_J && lower_byte(e[1]) == LC_P && lower_byte(e[2]) == LC_E
        && lower_byte(e[3]) == LC_G
}

/// An extension the pipeline accepts as input.
pub open spec fn supported_ext(e: Seq<u8>) -> bool {
    is_png_ext(e) || is_jpg_ext(e) || is_jpeg_ext(e)
}

/// Which original-format codec handles a file with extension `e`:
/// `png` goes to the PNG path, every other supported extension to JPEG.
pub open spec fn codec_for_ext(e: Seq<u8>) -> ImageKind {
    if is_png_ext(e) {
        ImageKind::Png
    } else {
        ImageKind::Jpeg
    }
}

/// ASCII-lowercase one byte.
fn lower(b: u8) -> (r: u8)
    ensures
        r == lower_byte(b),
{
    if UPPER_A <= b && b <= UPPER_Z {
        b + 32
    } else {
        b
    }
}

/// Whether `e` is one of the supported extensions, ignoring ASCII case.
pub fn ext_is_supported(e: &[u8]) -> (b: bool)
    ensures
        b == supported_ext(e@),
{
    if e.len() == 3 {
        let b0 = lower(e[0]);
        let b1 = lower(e[1]);
        let b2 = lower(e[2]);
        (b0 == LC_P && b1 == LC_N && b2 == LC_G) || (b0 == LC_J && b1 == LC_P && b2 == LC_G)
    } else if e.len() == 4 {
        lower(e[0]) == LC_J && lower(e[1]) == LC_P && lower(e[2]) == LC_E && lower(e[3]) == LC_G
    } else {
        false
    }
}

/// The original-format codec selected by a file's extension.
pub fn original_codec_for(e: &[u8]) -> (k: ImageKind)
    ensures
        k == codec_for_ext(e@),
{
    if e.len() == 3 && lower(e[0]) == LC_P && lower(e[1]) == LC_N && lower(e[2]) == LC_G {
        ImageKind::Png
    } else {
        ImageKind::Jpeg
    }
}

} // verus!
