//! Window configuration and font loading.
//!
//! A [`Builder`] gathers the window's initial size, title and font. A font
//! is a 16 by 16 glyph atlas image; [`load_font_image`] decodes one from
//! encoded image bytes and rejects atlases whose glyph cells would be
//! zero-sized.

use image::ImageFormat;
use vstd::prelude::*;
use vstd::string::StringSliceAdditionalSpecFns;

use crate::error::Error;

verus! {

/// Used to build the window that hosts the character-grid rendering.
pub struct Builder {
    /// The size of the inside of the window (in pixels).
    pub inner_size: (usize, usize),
    /// The title of the window.
    pub title: String,
    /// The font used to render the text.
    pub font: Font,
}

/// The font a window renders with.
pub enum Font {
    /// Use the built-in font.
    Default,
    /// Use a custom font.
    Custom(FontData),
}

/// The pixel data of a font atlas: a 16 by 16 grid of glyph cells, each
/// `width` by `height` pixels, as packed 32-bit pixels in row-major order.
#[derive(Debug)]
pub struct FontData {
    pub data: Vec<u32>,
    pub width: u32,
    pub height: u32,
}

impl Builder {
    /// Create a new builder with default settings: an 800 by 600 window
    /// aligned to the character cell size, and the built-in font.
    pub fn new() -> (b: Self)
        ensures
            b.inner_size == (800usize, 600usize),
            b.title@ == "mterm"@,
            b.font is Default,
    {
        Builder { inner_size: (800, 600), title: "mterm".to_owned(), font: Font::Default }
    }

    /// Set the size of the window when it is created, in pixels inside the
    /// window's frame. On creation the size is reduced so that there are no
    /// margins around the characters.
    pub fn with_inner_size(&mut self, width: usize, height: usize) -> (r: &mut Self)
        ensures
            r.inner_size == (width, height),
            r.title == old(self).title,
            r.font == old(self).font,
            *final(self) == *final(r),
    {
        self.inner_size = (width, height);
        self
    }

    /// Set the title of the window.
    pub fn with_title(&mut self, title: &str) -> (r: &mut Self)
        ensures
            r.title@ == title@,
            r.inner_size == old(self).inner_size,
            r.font == old(self).font,
            *final(self) == *final(r),
    {
        self.title = title.to_owned();
        self
    }

    /// Choose a font for rendering. A `FontData` can be made with
    /// [`load_font_image`].
    pub fn with_font(&mut self, font: FontData) -> (r: &mut Self)
        ensures
            r.font == Font::Custom(font),
            r.inner_size == old(self).inner_size,
            r.title == old(self).title,
            *final(self) == *final(r),
    {
        self.font = Font::Custom(font);
        self
    }

    /// Finalise the builder and return an instance, taking the font out of
    /// the builder.
    pub fn build(&mut self) -> (b: Self)
        ensures
            b.inner_size == old(self).inner_size,
            b.title == old(self).title,
            b.font == old(self).font,
            final(self).font is Default,
            final(self).inner_size == old(self).inner_size,
            final(self).title == old(self).title,
    {
        let mut font = Font::Default;
        core::mem::swap(&mut self.font, &mut font);
        Builder { inner_size: self.inner_size, font, title: self.title.clone() }
    }
}

/// The encoded image formats a font atlas can be given in: the library's
/// own value for the decoder's format selector.
#[derive(Debug, Clone, Copy, PartialEq, Eq, Structural)]
pub enum FontImageFormat {
    Png,
    Jpeg,
    Gif,
    WebP,
    Pnm,
    Tiff,
    Tga,
    Dds,
    Bmp,
    Ico,
    Hdr,
    OpenExr,
    Farbfeld,
    Avif,
    Qoi,
}

/// What decoding a byte buffer in a given format yields: the image's width
/// and height and its RGBA bytes, four per pixel, or nothing when the bytes
/// are not a valid image of that format. Decoding is deterministic, so the
/// result is a function of the bytes and the format alone.
pub uninterp spec fn decoded_rgba_of(data: Seq<u8>, format: FontImageFormat) -> Option<
    (u32, u32, Seq<u8>),
>;

/// image's format enum, constructed only to select the decoder.
#[verifier::external_type_specification]
#[verifier::external_body]
pub struct ExImageFormat(image::ImageFormat);

/// Relies on image::ImageFormat: carries the library's format value to the
/// decoder, variant for variant.
#[verifier::external_body]
fn image_format_of(format: FontImageFormat) -> (r: image::ImageFormat) {
    match format {
        FontImageFormat::Png => ImageFormat::Png, FontImageFormat::Jpeg => ImageFormat::Jpeg,
        FontImageFormat::Gif => ImageFormat::Gif, FontImageFormat::WebP => ImageFormat::WebP,
        FontImageFormat::Pnm => ImageFormat::Pnm, FontImageFormat::Tiff => ImageFormat::Tiff,
        FontImageFormat::Tga => ImageFormat::Tga, FontImageFormat::Dds => ImageFormat::Dds,
        FontImageFormat::Bmp => ImageFormat::Bmp, FontImageFormat::Ico => ImageFormat::Ico,
        FontImageFormat::Hdr => ImageFormat::Hdr, FontImageFormat::OpenExr => ImageFormat::OpenExr,
        FontImageFormat::Farbfeld => ImageFormat::Farbfeld,
        FontImageFormat::Avif => ImageFormat::Avif, FontImageFormat::Qoi => ImageFormat::Qoi,
    }
}

/// Relies on image::load_from_memory_with_format and
/// image::DynamicImage::to_rgba8: decoding is deterministic in the bytes and
/// the format, its result here named `decoded_rgba_of`, and a successfully
/// decoded image converts to an RGBA buffer holding exactly
/// `width * height` pixels of four bytes each.
#[verifier::external_body]
fn decode_rgba(data: &[u8], format: FontImageFormat) -> (r: Option<(u32, u32, Vec<u8>)>)
    ensures
        (r is Some) == (decoded_rgba_of(data@, format) is Some),
        r matches Some((w, h, px)) ==> (decoded_rgba_of(data@, format) matches Some(t) && w == t.0
            && h == t.1 && px@ == t.2),
        r matches Some((w, h, px)) ==> px@.len() == 4 * (w as int) * (h as int),
{
    match image::load_from_memory_with_format(data, image_format_of(format)) {
        Ok(img) => {
            let rgba = img.to_rgba8();
            let (w, h) = rgba.dimensions();
            Some((w, h, rgba.into_raw()))
        },
        Err(_) => None,
    }
}

/// The packed 32-bit value of four bytes in little-endian order: the
/// boundary format for pixels, with the first byte in the lowest bits.
pub open spec fn le_u32(b0: u8, b1: u8, b2: u8, b3: u8) -> u32 {
    ((b0 as int) + (b1 as int) * 0x100 + (b2 as int) * 0x1_0000 + (b3 as int) * 0x100_0000) as u32
}

/// Pack a buffer of bytes into 32-bit values, four bytes each, first byte
/// lowest.
fn pack_pixels(bytes: &Vec<u8>) -> (r: Vec<u32>)
    requires
        bytes@.len() % 4 == 0,
    ensures
        r@.len() == bytes@.len() / 4,
        forall|i: int|
            0 <= i < r@.len() ==> r@[i] == le_u32(
                bytes@[4 * i],
                bytes@[4 * i + 1],
                bytes@[4 * i + 2],
                bytes@[4 * i + 3],
            ),
{
    let n = bytes.len() / 4;
    proof {
        vstd::arithmetic::div_mod::lemma_fundamental_div_mod(bytes@.len() as int, 4int);
    }
    let mut out: Vec<u32> = Vec::new();
    let mut i: usize = 0;
    while i < n
        invariant
            i <= n,
            n == bytes@.len() / 4,
            4 * n <= bytes@.len(),
            bytes@.len() <= usize::MAX,
            out@.len() == i,
            forall|j: int|
                0 <= j < i ==> out@[j] == le_u32(
                    bytes@[4 * j],
                    bytes@[4 * j + 1],
                    bytes@[4 * j + 2],
                    bytes@[4 * j + 3],
                ),
        decreases n - i,
    {
        let b0 = bytes[4 * i];
        let b1 = bytes[4 * i + 1];
        let b2 = bytes[4 * i + 2];
        let b3 = bytes[4 * i + 3];
        let v = (b0 as u32) + (b1 as u32) * 0x100 + (b2 as u32) * 0x1_0000 + (b3 as u32)
            * 0x100_0000;
        out.push(v);
        i = i + 1;
    }
    out
}

/// Build a font atlas from decoded pixel data of the given dimensions. The
/// atlas is a 16 by 16 grid of glyph cells, so each cell is a sixteenth of
/// the image on each axis; an image under 16 pixels on either axis has
/// zero-sized cells and is rejected.
pub fn font_from_decoded(width: u32, height: u32, data: Vec<u32>) -> (r: Result<FontData, Error>)
    requires
        data@.len() == (width as int) * (height as int),
    ensures
        width >= 16 && height >= 16 ==> (r matches Ok(f) && f.width == width as int / 16
            && f.height == height as int / 16 && f.data@ == data@),
        !(width >= 16 && height >= 16) ==> (r matches Err(e) && e == Error::BadFont),
{
    let char_width = width / 16;
    let char_height = height / 16;
    if char_width == 0 || char_height == 0 {
        Err(Error::BadFont)
    } else {
        Ok(FontData { width: char_width, height: char_height, data })
    }
}

/// Load a font from an encoded image held in a byte array.
///
/// The image is taken to contain 256 glyphs in a 16 by 16 grid of equally
/// sized cells. It loads if and only if the bytes decode in the given
/// format to an image of at least 16 pixels on each axis; the atlas then
/// has the decoded dimensions divided by 16 as its cell size and the
/// decoded pixels packed little-endian, first byte lowest. Undecodable
/// data, and images whose cells would be zero-sized, are rejected as
/// [`Error::BadFont`].
pub fn load_font_image(data: &[u8], format: FontImageFormat) -> (r: Result<FontData, Error>)
    ensures
        (r is Ok) <==> (decoded_rgba_of(data@, format) matches Some(t) && t.0 >= 16 && t.1 >= 16),
        r matches Ok(f) ==> (decoded_rgba_of(data@, format) matches Some(t) && f.width == t.0
            as int / 16 && f.height == t.1 as int / 16 && f.data@.len() == (t.0 as int) * (t.1
            as int) && (forall|i: int|
            0 <= i < f.data@.len() ==> f.data@[i] == le_u32(
                t.2[4 * i],
                t.2[4 * i + 1],
                t.2[4 * i + 2],
                t.2[4 * i + 3],
            ))),
        r matches Ok(f) ==> f.width >= 1 && f.height >= 1 && f.data@.len() >= 256 * (f.width as int)
            * (f.height as int),
        r matches Err(e) ==> e == Error::BadFont,
{
    match decode_rgba(data, format) {
        None => Err(Error::BadFont),
        Some((w, h, bytes)) => {
            proof {
                let wh = (w as int) * (h as int);
                assert(bytes@.len() == wh * 4 + 0) by (nonlinear_arith)
                    requires
                        bytes@.len() == 4 * (w as int) * (h as int),
                        wh == (w as int) * (h as int),
                ;
                vstd::arithmetic::div_mod::lemma_fundamental_div_mod_converse(
                    bytes@.len() as int,
                    4int,
                    wh,
                    0int,
                );
            }
            let pixels = pack_pixels(&bytes);
            let r = font_from_decoded(w, h, pixels);
            proof {
                if w >= 16 && h >= 16 {
                    let cw = w as int / 16;
                    let ch = h as int / 16;
                    vstd::arithmetic::div_mod::lemma_fundamental_div_mod(w as int, 16);
                    vstd::arithmetic::div_mod::lemma_mod_division_less_than_divisor(w as int, 16);
                    vstd::arithmetic::div_mod::lemma_fundamental_div_mod(h as int, 16);
                    vstd::arithmetic::div_mod::lemma_mod_division_less_than_divisor(h as int, 16);
                    assert((w as int) * (h as int) >= 256 * cw * ch) by (nonlinear_arith)
                        requires
                            w as int >= 16 * cw,
                            h as int >= 16 * ch,
                            cw >= 1,
                            ch >= 1,
                    ;
                }
            }
            r
        },
    }
}

} // verus!
