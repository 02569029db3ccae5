//! Turning a tile server's reply into the pixels of a tile.
use vstd::prelude::*;
use crate::coords::TILE_SIZE;

verus! {

#[verifier::external_type_specification]
#[verifier::external_body]
pub struct ExDynamicImage(image::DynamicImage);

#[verifier::external_type_specification]
#[verifier::external_body]
pub struct ExImageError(image::ImageError);

/// The bytes are an image in a format that `image::load_from_memory`
/// recognises and decodes without error.
pub uninterp spec fn decodes_as_image(bytes: Seq<u8>) -> bool;

/// How an image is sampled when it is resized.
#[derive(Clone, Copy, Debug, PartialEq, Eq, Structural)]
pub enum ResizeFilter {
    Nearest,
    Triangle,
    CatmullRom,
    Gaussian,
    Lanczos3,
}

/// The pixels of a tile: `width` by `height` pixels, four bytes each
/// (red, green, blue, alpha), row by row.
pub struct TilePixels {
    pub width: u32,
    pub height: u32,
    pub rgba: Vec<u8>,
}

/// Why a tile could not be had from a reply.
pub enum TileError {
    /// The server answered with a status outside `200..300`.
    HttpStatus(u16),
    /// The body is not an image that could be decoded; the decoder's message.
    Decode(String),
}

/// An image decoded by `load_from_memory`. Its view is the bytes it was
/// decoded from; only `load_from_memory` makes one.
pub struct DecodedImage {
    image: image::DynamicImage,
    source: Ghost<Seq<u8>>,
}

impl View for DecodedImage {
    type V = Seq<u8>;

    closed spec fn view(&self) -> Seq<u8> {
        self.source@
    }
}

/// Why `load_from_memory` refused some bytes. Its view is those bytes; only
/// `load_from_memory` makes one.
pub struct DecodeFailure {
    error: image::ImageError,
    source: Ghost<Seq<u8>>,
}

impl View for DecodeFailure {
    type V = Seq<u8>;

    closed spec fn view(&self) -> Seq<u8> {
        self.source@
    }
}

/// The message (`Display`) of the error that `image::load_from_memory`
/// gives on `source`.
pub uninterp spec fn decode_error_text(source: Seq<u8>) -> Seq<char>;

/// The pixel bytes (`DynamicImage::into_bytes`: every channel of every
/// pixel, row by row, in the image's own color type) of the image decoded
/// from `source`.
pub uninterp spec fn decoded_bytes(source: Seq<u8>) -> Seq<u8>;

/// The RGBA pixels (width, height, bytes) of the image decoded from
/// `source`, scaled by `DynamicImage::resize` with `filter` to the largest
/// size within `width` by `height` that keeps its aspect ratio.
pub uninterp spec fn fitted_rgba(source: Seq<u8>, width: u32, height: u32, filter: ResizeFilter) -> (u32, u32, Seq<u8>);

/// `image::load_from_memory`: guesses the format from the bytes and decodes
/// them. Claimed: it succeeds exactly on the bytes that `decodes_as_image`
/// names, and the image or the error it gives is the one for those bytes.
#[verifier::external_body]
fn load_from_memory(bytes: &[u8]) -> (r: Result<DecodedImage, DecodeFailure>)
    ensures
        r is Ok <==> decodes_as_image(bytes@),
        r matches Ok(img) ==> img@ == bytes@,
        r matches Err(e) ==> e@ == bytes@,
{
    match image::load_from_memory(bytes) {
        Ok(image) => Ok(DecodedImage { image, source: Ghost(bytes@) }),
        Err(error) => Err(DecodeFailure { error, source: Ghost(bytes@) }),
    }
}

/// `image::DynamicImage::resize`, then `into_rgba8` with the buffer's width,
/// height and bytes taken out. Claimed: the result is the one `fitted_rgba`
/// names; it is `width` wide or `height` high and fits within both (the
/// aspect ratio is kept, and a decoded image is at least one pixel each
/// way); it holds exactly four bytes per pixel.
#[verifier::external_body]
fn fit_rgba(img: &DecodedImage, width: u32, height: u32, filter: ResizeFilter) -> (p: TilePixels)
    requires
        width >= 1,
        height >= 1,
    ensures
        (p.width, p.height, p.rgba@) == fitted_rgba(img@, width, height, filter),
        p.width <= width,
        p.height <= height,
        p.width == width || p.height == height,
        p.rgba@.len() == p.width * p.height * 4,
{
    let buffer = img.image.resize(
        width,
        height,
        match filter {
            ResizeFilter::Nearest => image::imageops::FilterType::Nearest,
            ResizeFilter::Triangle => image::imageops::FilterType::Triangle,
            ResizeFilter::CatmullRom => image::imageops::FilterType::CatmullRom,
            ResizeFilter::Gaussian => image::imageops::FilterType::Gaussian,
            ResizeFilter::Lanczos3 => image::imageops::FilterType::Lanczos3,
        },
    ).into_rgba8();
    TilePixels { width: buffer.width(), height: buffer.height(), rgba: buffer.into_raw() }
}

/// `image::DynamicImage::into_bytes`. Claimed: the bytes are those
/// `decoded_bytes` names for the image's source.
#[verifier::external_body]
fn image_bytes(img: DecodedImage) -> (v: Vec<u8>)
    ensures
        v@ == decoded_bytes(img@),
{
    img.image.into_bytes()
}

/// The message of a decoding error (`ImageError`'s `Display`). Claimed: it
/// is the text `decode_error_text` names for the bytes that were refused.
#[verifier::external_body]
fn image_error_text(e: &DecodeFailure) -> (text: String)
    ensures
        text@ == decode_error_text(e@),
{
    e.error.to_string()
}

/// An HTTP status in the success class `200..300`.
pub open spec fn is_success_status(code: u16) -> bool {
    200 <= code < 300
}

pub fn is_success(code: u16) -> (b: bool)
    ensures
        b == is_success_status(code),
{
    200 <= code && code < 300
}

/// The tile in a reply with HTTP status `status` and body `body`: a reply
/// that is not a success is refused with its status; otherwise the body is
/// decoded (or refused with the decoder's message) and scaled, sampling the
/// nearest pixel, to fit in `TILE_SIZE` by `TILE_SIZE` pixels.
pub fn tile_from_response(status: u16, body: &[u8]) -> (r: Result<TilePixels, TileError>)
    ensures
        !is_success_status(status) ==> (r matches Err(TileError::HttpStatus(s)) && s == status),
        is_success_status(status) && !decodes_as_image(body@) ==> (r matches Err(TileError::Decode(m))
            && m@ == decode_error_text(body@)),
        is_success_status(status) && decodes_as_image(body@) ==> r is Ok,
        r matches Ok(p) ==> {
            &&& (p.width, p.height, p.rgba@) == fitted_rgba(
                body@,
                TILE_SIZE as u32,
                TILE_SIZE as u32,
                ResizeFilter::Nearest,
            )
            &&& p.width <= TILE_SIZE
            &&& p.height <= TILE_SIZE
            &&& (p.width == TILE_SIZE || p.height == TILE_SIZE)
            &&& p.rgba@.len() == p.width * p.height * 4
        },
{
    if !is_success(status) {
        return Err(TileError::HttpStatus(status));
    }
    match load_from_memory(body) {
        Ok(img) => Ok(fit_rgba(&img, TILE_SIZE as u32, TILE_SIZE as u32, ResizeFilter::Nearest)),
        Err(e) => Err(TileError::Decode(image_error_text(&e))),
    }
}

/// The pixel bytes of the image in `bytes` (an image file's contents), or,
/// when they do not decode, the decoder's message.
pub fn decode_image_bytes(bytes: &[u8]) -> (r: Result<Vec<u8>, String>)
    ensures
        r is Ok <==> decodes_as_image(bytes@),
        r matches Ok(v) ==> v@ == decoded_bytes(bytes@),
        r matches Err(m) ==> m@ == decode_error_text(bytes@),
{
    match load_from_memory(bytes) {
        Ok(img) => Ok(image_bytes(img)),
        Err(e) => Err(image_error_text(&e)),
    }
}

/// Exactly the replies in the success class `200..=299` are turned into a
/// tile; every other status, `503` or `404` or `199` alike, is refused with
/// that status.
pub proof fn lemma_only_success_class_succeeds(code: u16)
    ensures
        is_success_status(code) <==> (200 <= code && code <= 299),
        code >= 300 ==> !is_success_status(code),
        code < 200 ==> !is_success_status(code),
{
}

} // verus!
