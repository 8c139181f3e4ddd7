//! Decoded images, held as plain RGBA8 pixel data.

use vstd::prelude::*;

verus! {

/// What decoding an encoded image to RGBA8 yields, exactly as the `image`
/// crate computes it from the bytes alone: `None` when the bytes are not
/// a decodable image, otherwise the width, the height and the pixel
/// buffer, four bytes per pixel.
pub uninterp spec fn decoded_rgba(raw: Seq<u8>) -> Option<(u32, u32, Seq<u8>)>;

/// Mathematical model of a decoded image.
#[verifier::ext_equal]
pub ghost struct ImageModel {
    pub width: u32,
    pub height: u32,
    pub pixels: Seq<u8>,
}

impl ImageModel {
    /// An image always holds four bytes per pixel.
    pub open spec fn wf(self) -> bool {
        self.pixels.len() == self.width * self.height * 4
    }
}

/// A decoded image: its dimensions and its RGBA8 pixels, four bytes per
/// pixel, rows top to bottom.
#[derive(Debug, PartialEq, Eq)]
pub struct Image {
    width: u32,
    height: u32,
    pixels: Vec<u8>,
}

impl View for Image {
    type V = ImageModel;

    closed spec fn view(&self) -> ImageModel {
        ImageModel { width: self.width, height: self.height, pixels: self.pixels@ }
    }
}

impl Clone for Image {
    /// Duplicates the image, pixels included.
    fn clone(&self) -> (res: Self)
        ensures
            res@ == self@,
    {
        Image {
            width: self.width,
            height: self.height,
            pixels: vstd::slice::slice_to_vec(self.pixels.as_slice()),
        }
    }
}

/// Why creating an image failed.
#[derive(Debug, Clone, Copy, PartialEq, Eq, Structural)]
pub enum ImageError {
    /// The bytes are not a decodable image.
    Decode,
}

/// Relies on `image::load_from_memory` and `DynamicImage::to_rgba8`: the
/// decoding is a function of the bytes alone, and the RGBA8 buffer holds
/// four bytes for each of width times height pixels.
#[verifier::external_body]
fn decode_rgba(raw: &[u8]) -> (r: Option<Image>)
    ensures
        r is Some <==> decoded_rgba(raw@) is Some,
        r matches Some(img) ==> decoded_rgba(raw@) matches Some(t) && img@.width == t.0
            && img@.height == t.1 && img@.pixels == t.2 && img@.pixels.len() == t.0 * t.1 * 4,
{
    match image::load_from_memory(raw) {
        Ok(decoded) => {
            let rgba = decoded.to_rgba8();
            let width = rgba.width();
            let height = rgba.height();
            let pixels = rgba.into_raw();
            Some(Image { width, height, pixels })
        },
        Err(_) => None,
    }
}

impl Image {
    /// Creates an Image by decoding encoded bytes; fails exactly when the
    /// bytes are not a decodable image.
    pub fn from_mem(raw_bytes: &[u8]) -> (r: Result<Image, ImageError>)
        ensures
            match r {
                Ok(img) => decoded_rgba(raw_bytes@) matches Some(t) && img@.width == t.0
                    && img@.height == t.1 && img@.pixels == t.2 && img@.wf(),
                Err(e) => decoded_rgba(raw_bytes@) is None && e == ImageError::Decode,
            },
    {
        match decode_rgba(raw_bytes) {
            Some(img) => Ok(img),
            None => Err(ImageError::Decode),
        }
    }

    /// Returns the dimensions of the image as (width, height).
    pub fn dimensions(&self) -> (r: (u32, u32))
        ensures
            r == (self@.width, self@.height),
    {
        (self.width, self.height)
    }

    /// Returns the raw pixel bytes of the image in RGBA format.
    pub fn pixel_bytes(&self) -> (r: &Vec<u8>)
        ensures
            r@ == self@.pixels,
    {
        &self.pixels
    }
}

} // verus!
