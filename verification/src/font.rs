//! The Spleen bitmap fonts, through the `spleen_font` crate: loading a face
//! and looking up the glyph of a UTF-8 character as rows of pixels.
use vstd::prelude::*;

use spleen_font::PSF2Font;

verus! {

#[verifier::external_type_specification]
#[verifier::external_body]
pub struct ExPSF2Font<'a>(PSF2Font<'a>);

/// The font faces the kernel draws with.
#[derive(Debug, Clone, Copy, PartialEq, Eq, Structural)]
pub enum FontFace {
    /// Spleen 8x16, for window titles and the shell.
    Spleen8x16,
    /// Spleen 16x32, for the GPU boot log.
    Spleen16x32,
}

/// A loaded font: its face and the parsed PSF2 data.
pub struct Font {
    face: FontFace,
    psf: PSF2Font<'static>,
}

impl Font {
    /// The font's face.
    pub closed spec fn spec_face(&self) -> FontFace {
        self.face
    }

    /// The font's face.
    pub fn face(&self) -> (f: FontFace)
        ensures
            f == self.spec_face(),
    {
        self.face
    }
}

/// The glyph that face `face` draws for the UTF-8 bytes `text`: its rows
/// from top to bottom, each row's pixels left to right (`true` = ink);
/// `None` when the font has no glyph for it.
pub uninterp spec fn spleen_glyph(face: FontFace, text: Seq<u8>) -> Option<Seq<Seq<bool>>>;

/// Load Spleen 8x16 (`PSF2Font::new(FONT_8X16)`). The font data bundled
/// with the crate is fixed and parses (through the crate's PSF1 path), so
/// the load succeeds; the result has that face.
#[verifier::external_body]
pub fn load_font_8x16() -> (f: Option<Font>)
    ensures
        f is Some,
        f matches Some(x) ==> x.spec_face() == FontFace::Spleen8x16,
{
    match PSF2Font::new(spleen_font::FONT_8X16) {
        Ok(psf) => Some(Font { face: FontFace::Spleen8x16, psf }),
        Err(_) => None,
    }
}

/// Load Spleen 16x32 (`PSF2Font::new(FONT_16X32)`). The font data bundled
/// with the crate is fixed and parses (its header sizes fit the data), so
/// the load succeeds; the result has that face.
#[verifier::external_body]
pub fn load_font_16x32() -> (f: Option<Font>)
    ensures
        f is Some,
        f matches Some(x) ==> x.spec_face() == FontFace::Spleen16x32,
{
    match PSF2Font::new(spleen_font::FONT_16X32) {
        Ok(psf) => Some(Font { face: FontFace::Spleen16x32, psf }),
        Err(_) => None,
    }
}

/// `PSF2Font::glyph_for_utf8(text)`, with the glyph's rows and pixels
/// collected: claimed equal to `spleen_glyph(face, text)`, a function of the
/// face and the bytes for non-empty `text` (for an empty one the font's
/// lookup cache makes the answer depend on earlier lookups, so it is left
/// out). The face is unchanged.
#[verifier::external_body]
pub fn glyph_rows(font: &mut Font, text: &[u8]) -> (r: Option<Vec<Vec<bool>>>)
    requires
        text@.len() > 0,
    ensures
        final(font).spec_face() == old(font).spec_face(),
        match r {
            Some(v) => spleen_glyph(old(font).spec_face(), text@) == Some(v.deep_view()),
            None => spleen_glyph(old(font).spec_face(), text@) is None,
        },
{
    font.psf.glyph_for_utf8(text).map(|g| g.map(|row| row.collect::<Vec<bool>>()).collect())
}

} // verus!
