//! Decoding of picture files into RGBA pixels.

use vstd::prelude::*;

verus! {

/// The error of the `image` crate.
#[verifier::external_type_specification]
#[verifier::external_body]
pub struct ExImageError(image::ImageError);

/// A file format of the `image` crate.
#[verifier::external_type_specification]
#[verifier::external_body]
pub struct ExImageFormat(image::ImageFormat);

/// The format that a file is decoded in.
pub enum PictureFormat {
    /// Portable network graphics.
    Png,
    /// Windows icons.
    Ico,
    /// The format that a file was recognized as.
    Recognized(image::ImageFormat),
}

/// Decoded pixels.
pub struct Picture {
    /// Width in pixels.
    pub width: u32,
    /// Height in pixels.
    pub height: u32,
    /// RGBA bytes, row by row.
    pub rgba: Vec<u8>,
}

/// Width, height and RGBA bytes.
pub type Pixels = (u32, u32, Seq<u8>);

impl Picture {
    /// Width, height and RGBA bytes.
    pub open spec fn pixels(self) -> Pixels {
        (self.width, self.height, self.rgba@)
    }

    /// There are four bytes for each pixel.
    pub open spec fn wf(self) -> bool {
        self.rgba@.len() == self.width * self.height * 4
    }
}

/// What a decoder returned.
pub open spec fn pixels_of(result: Result<Picture, image::ImageError>) -> Option<Pixels> {
    match result {
        Ok(picture) => Some(picture.pixels()),
        Err(_) => None,
    }
}

/// The pixels of a file in a known format, if it can be decoded.
pub uninterp spec fn picture_decoded(file: Seq<u8>, format: PictureFormat) -> Option<Pixels>;

/// The format that the contents of a file tell, if they tell one.
pub uninterp spec fn format_recognized(file: Seq<u8>) -> Option<PictureFormat>;

/// What the recognition of a format returned.
pub open spec fn format_of(result: Result<PictureFormat, image::ImageError>) -> Option<
    PictureFormat,
> {
    match result {
        Ok(format) => Some(format),
        Err(_) => None,
    }
}

/// The pixels of a file whose format is told by its contents, if they tell one
/// and the file can be decoded in it.
pub open spec fn texture_decoded(file: Seq<u8>) -> Option<Pixels> {
    match format_recognized(file) {
        Some(format) => picture_decoded(file, format),
        None => None,
    }
}

/// `image::load_from_memory_with_format` followed by `into_rgba8`: either the
/// file is refused, or the dimensions come with four bytes for each pixel. The
/// decoder of a format is built into the `image` crate: hooks that are registered
/// there take no part.
#[verifier::external_body]
fn load_with_format(file: &[u8], format: PictureFormat) -> (picture: Result<
    Picture,
    image::ImageError,
>)
    ensures
        pixels_of(picture) == picture_decoded(file@, format),
        picture matches Ok(picture) ==> picture.wf(),
{
    let format = match format {
        PictureFormat::Png => image::ImageFormat::Png,
        PictureFormat::Ico => image::ImageFormat::Ico,
        PictureFormat::Recognized(format) => format,
    };
    let rgba = image::load_from_memory_with_format(file, format)?.into_rgba8();
    Ok(Picture { width: rgba.width(), height: rgba.height(), rgba: rgba.into_raw() })
}

/// `image::guess_format` tells the format of a file by the constant table of
/// signatures of the `image` crate, or refuses the file.
#[verifier::external_body]
fn recognize(file: &[u8]) -> (format: Result<PictureFormat, image::ImageError>)
    ensures
        format_of(format) == format_recognized(file@),
{
    image::guess_format(file).map(PictureFormat::Recognized)
}

/// Decodes a PNG file.
pub fn decode_png(file: &[u8]) -> (picture: Option<Picture>)
    ensures
        match picture {
            Some(picture) => picture_decoded(file@, PictureFormat::Png) == Some(picture.pixels()),
            None => picture_decoded(file@, PictureFormat::Png) is None,
        },
        picture matches Some(picture) ==> picture.wf(),
{
    match load_with_format(file, PictureFormat::Png) {
        Ok(picture) => Some(picture),
        Err(_) => None,
    }
}

/// The pixels of the icon of a window, if it can be decoded.
pub open spec fn icon_decoded(file: Seq<u8>) -> Option<Pixels> {
    picture_decoded(file, PictureFormat::Ico)
}

/// Textures are decoded in the format that they are recognized as, and icons in
/// that of icons; a file that is not recognized is no texture.
pub proof fn files_are_decoded_in_their_format(file: Seq<u8>)
    ensures
        format_recognized(file) matches Some(format) ==> texture_decoded(file) == picture_decoded(
            file,
            format,
        ),
        format_recognized(file) is None ==> texture_decoded(file) is None,
        icon_decoded(file) == picture_decoded(file, PictureFormat::Ico),
{
}

/// Decoded pixels come with their width first and their height second.
pub proof fn pixels_come_with_their_size(picture: Picture)
    ensures
        picture.pixels().0 == picture.width,
        picture.pixels().1 == picture.height,
        picture.pixels().2 == picture.rgba@,
        picture.wf() <==> picture.pixels().2.len() == picture.pixels().0 * picture.pixels().1 * 4,
{
}

/// Decodes the icon of the window.
pub fn decode_window_icon(file: &[u8]) -> (picture: Result<Picture, image::ImageError>)
    ensures
        pixels_of(picture) == picture_decoded(file@, PictureFormat::Ico),
        pixels_of(picture) == icon_decoded(file@),
        picture matches Ok(picture) ==> picture.wf(),
{
    load_with_format(file, PictureFormat::Ico)
}

/// Decodes a texture in any format that the file is recognized as, into eight
/// bits per channel, which every graphics device supports.
pub fn decode_texture(file: &[u8]) -> (picture: Result<Picture, image::ImageError>)
    ensures
        pixels_of(picture) == texture_decoded(file@),
        picture matches Ok(picture) ==> picture.wf(),
{
    match recognize(file) {
        Ok(format) => load_with_format(file, format),
        Err(error) => Err(error),
    }
}

} // verus!
