//! Turning an upload into the variants that are stored: a raster image becomes a
//! lossless WebP original, a JPEG of at most 800×550 and a JPEG thumbnail of at most
//! 200×200; SVG is checked and kept as it is.

use vstd::prelude::*;
use vstd::slice::slice_to_vec;
use vstd::utf8::{decode_utf8, valid_utf8};
use crate::error::StoreError;
use image::GenericImageView;
use image::codecs::jpeg::JpegEncoder;
use image::codecs::webp::WebPEncoder;
use xmlparser::Token;

verus! {

/// The box that the medium variant must fit in.
pub const MEDIUM_WIDTH: u32 = 800;
pub const MEDIUM_HEIGHT: u32 = 550;

/// The box that the thumbnail fits in.
pub const THUMB_WIDTH: u32 = 200;
pub const THUMB_HEIGHT: u32 = 200;

/// The JPEG quality of the medium variant and of the thumbnail.
pub const MEDIUM_QUALITY: u8 = 90;
pub const THUMB_QUALITY: u8 = 85;

/// The width and height of the raster image that image's reader decodes from some bytes
/// (format guessed from the content), or `None` where they hold no supported raster image.
pub uninterp spec fn raster_size(raw: Seq<u8>) -> Option<(u32, u32)>;

/// The lossless WebP encoding of the raster image in some bytes, or the error message.
pub uninterp spec fn lossless_webp(raw: Seq<u8>) -> Result<Seq<u8>, Seq<char>>;

/// The JPEG encoding, at a quality, of the raster image in some bytes scaled with the
/// triangle filter to fit a box, aspect ratio kept, as 8-bit RGB; or the error message.
pub uninterp spec fn scaled_jpeg(raw: Seq<u8>, width: u32, height: u32, quality: u8) -> Result<Seq<u8>, Seq<char>>;

/// The JPEG encoding, at a quality, of the raster image in some bytes, unscaled, as 8-bit
/// RGB; or the error message.
pub uninterp spec fn copy_jpeg(raw: Seq<u8>, quality: u8) -> Result<Seq<u8>, Seq<char>>;

/// The JPEG encoding, at a quality, of the thumbnail of the raster image in some bytes
/// that fits a box, as 8-bit RGB; or the error message.
pub uninterp spec fn thumb_jpeg(raw: Seq<u8>, width: u32, height: u32, quality: u8) -> Result<Seq<u8>, Seq<char>>;

/// `r` is the bytes or the message that `o` names.
pub open spec fn bytes_are(r: Result<Vec<u8>, String>, o: Result<Seq<u8>, Seq<char>>) -> bool {
    match o {
        Ok(b) => r is Ok && r->Ok_0@ == b,
        Err(m) => r is Err && r->Err_0@ == m,
    }
}

/// Relies on `image::load_from_memory` and `GenericImageView::dimensions`: the size of the
/// decoded raster image, if the bytes hold one.
#[verifier::external_body]
fn decode_size(raw: &[u8]) -> (r: Option<(u32, u32)>)
    ensures
        r == raster_size(raw@),
{
    image::load_from_memory(raw).ok().map(|img| img.dimensions())
}

/// Relies on `image::load_from_memory` and `WebPEncoder::new_lossless`.
#[verifier::external_body]
fn encode_original(raw: &[u8]) -> (r: Result<Vec<u8>, String>)
    ensures
        bytes_are(r, lossless_webp(raw@)),
{
    let img = image::load_from_memory(raw).map_err(|e| e.to_string())?;
    let mut out = Vec::new();
    img.write_with_encoder(WebPEncoder::new_lossless(&mut out)).map_err(|e| e.to_string())?;
    Ok(out)
}

/// Relies on `image::load_from_memory`, `DynamicImage::resize` with the triangle filter,
/// `into_rgb8` and `JpegEncoder::new_with_quality`.
#[verifier::external_body]
fn encode_scaled(raw: &[u8], width: u32, height: u32, quality: u8) -> (r: Result<Vec<u8>, String>)
    ensures
        bytes_are(r, scaled_jpeg(raw@, width, height, quality)),
{
    let img = image::load_from_memory(raw).map_err(|e| e.to_string())?;
    let scaled = image::DynamicImage::ImageRgb8(img.resize(width, height, image::imageops::FilterType::Triangle).into_rgb8());
    let mut out = Vec::new();
    scaled.write_with_encoder(JpegEncoder::new_with_quality(&mut out, quality)).map_err(|e| e.to_string())?;
    Ok(out)
}

/// Relies on `image::load_from_memory`, `into_rgb8` and `JpegEncoder::new_with_quality`.
#[verifier::external_body]
fn encode_copy(raw: &[u8], quality: u8) -> (r: Result<Vec<u8>, String>)
    ensures
        bytes_are(r, copy_jpeg(raw@, quality)),
{
    let img = image::load_from_memory(raw).map_err(|e| e.to_string())?;
    let rgb = image::DynamicImage::ImageRgb8(img.into_rgb8());
    let mut out = Vec::new();
    rgb.write_with_encoder(JpegEncoder::new_with_quality(&mut out, quality)).map_err(|e| e.to_string())?;
    Ok(out)
}

/// Relies on `image::load_from_memory`, `DynamicImage::thumbnail`, `into_rgb8` and
/// `JpegEncoder::new_with_quality`.
#[verifier::external_body]
fn encode_thumbnail(raw: &[u8], width: u32, height: u32, quality: u8) -> (r: Result<Vec<u8>, String>)
    ensures
        bytes_are(r, thumb_jpeg(raw@, width, height, quality)),
{
    let img = image::load_from_memory(raw).map_err(|e| e.to_string())?;
    let thumb = image::DynamicImage::ImageRgb8(img.thumbnail(width, height).into_rgb8());
    let mut out = Vec::new();
    thumb.write_with_encoder(JpegEncoder::new_with_quality(&mut out, quality)).map_err(|e| e.to_string())?;
    Ok(out)
}

/// Relies on `std::str::from_utf8`: text exactly when the bytes are valid UTF-8.
#[verifier::external_body]
fn utf8_text(raw: &[u8]) -> (r: Option<String>)
    ensures
        r is Some <==> valid_utf8(raw@),
        r matches Some(s) ==> s@ == decode_utf8(raw@),
{
    std::str::from_utf8(raw).ok().map(|s| s.to_string())
}

/// One XML token, as far as the SVG check reads it.
#[derive(Debug)]
pub enum SvgToken {
    /// The start of an element.
    ElementStart,
    /// Any other token.
    Other,
    /// A syntax error, with its message; the tokenizer stops after it.
    Error { reason: String },
}

/// The tokens that xmlparser's tokenizer yields for a text.
pub uninterp spec fn svg_tokens(text: Seq<char>) -> Seq<SvgToken>;

/// Relies on xmlparser's `Tokenizer`: its tokens in order, each mapped to its kind.
#[verifier::external_body]
fn tokenize(text: &str) -> (r: Vec<SvgToken>)
    ensures
        r@ == svg_tokens(text@),
{
    xmlparser::Tokenizer::from(text).map(|t| match t {
        Ok(Token::ElementStart { .. }) => SvgToken::ElementStart,
        Ok(_) => SvgToken::Other,
        Err(e) => SvgToken::Error { reason: e.to_string() },
    }).collect()
}

/// The first token that starts an element or is an error, if any.
pub open spec fn first_decisive(tokens: Seq<SvgToken>) -> Option<SvgToken>
    decreases tokens.len(),
{
    if tokens.len() == 0 {
        None
    } else if tokens[0] is Other {
        first_decisive(tokens.drop_first())
    } else {
        Some(tokens[0])
    }
}

/// Whether the medium variant must be scaled down: the original is wider or taller than
/// the medium box.
pub fn needs_medium_resize(width: u32, height: u32) -> (r: bool)
    ensures
        r == (width > MEDIUM_WIDTH || height > MEDIUM_HEIGHT),
{
    width > MEDIUM_WIDTH || height > MEDIUM_HEIGHT
}

/// The bytes of every variant of an upload, made before anything is written.
#[derive(Debug)]
pub enum ImageUpload {
    /// An SVG document, stored alone.
    Svg { original: Vec<u8> },
    /// A raster image: lossless WebP original, JPEG medium and JPEG thumbnail.
    Raster { original: Vec<u8>, medium: Vec<u8>, thumbnail: Vec<u8> },
}

/// What the SVG check decides for bytes: they must be UTF-8 text in which an element
/// starts before any syntax error.
pub open spec fn svg_outcome(raw: Seq<u8>) -> Result<(), StoreError> {
    if !valid_utf8(raw) {
        Err(StoreError::UnsupportedImageFormat)
    } else {
        match first_decisive(svg_tokens(decode_utf8(raw))) {
            Some(SvgToken::ElementStart) => Ok(()),
            Some(SvgToken::Error { reason }) => Err(StoreError::BadSvg { reason }),
            _ => Err(StoreError::EmptySvg),
        }
    }
}

/// Checks bytes as SVG, as `svg_outcome` says.
pub fn check_svg(raw: &[u8]) -> (r: Result<(), StoreError>)
    ensures
        r == svg_outcome(raw@),
{
    let text = match utf8_text(raw) {
        None => return Err(StoreError::UnsupportedImageFormat),
        Some(text) => text,
    };
    let tokens = tokenize(text.as_str());
    let ghost all = tokens@;
    let mut i: usize = 0;
    assert(all.subrange(0, all.len() as int) =~= all);
    while i < tokens.len()
        invariant
            all == tokens@,
            all == svg_tokens(decode_utf8(raw@)),
            valid_utf8(raw@),
            i <= tokens.len(),
            first_decisive(all) == first_decisive(all.subrange(i as int, all.len() as int)),
        decreases tokens.len() - i,
    {
        let ghost rest = all.subrange(i as int, all.len() as int);
        assert(rest[0] == all[i as int]);
        match &tokens[i] {
            SvgToken::ElementStart => return Ok(()),
            SvgToken::Error { reason } => return Err(StoreError::BadSvg { reason: reason.clone() }),
            SvgToken::Other => {},
        }
        assert(rest.drop_first() =~= all.subrange(i + 1, all.len() as int));
        i = i + 1;
    }
    Err(StoreError::EmptySvg)
}

/// The medium variant: scaled down into the medium box where the original exceeds it,
/// else the original's pixels as they are.
pub open spec fn medium_jpeg(raw: Seq<u8>, width: u32, height: u32) -> Result<Seq<u8>, Seq<char>> {
    if width > MEDIUM_WIDTH || height > MEDIUM_HEIGHT {
        scaled_jpeg(raw, MEDIUM_WIDTH, MEDIUM_HEIGHT, MEDIUM_QUALITY)
    } else {
        copy_jpeg(raw, MEDIUM_QUALITY)
    }
}

/// The three raster variants of an image of the given size, or the first encoding error.
pub open spec fn raster_variants(raw: Seq<u8>, width: u32, height: u32) -> Result<(Seq<u8>, Seq<u8>, Seq<u8>), Seq<char>> {
    match lossless_webp(raw) {
        Err(m) => Err(m),
        Ok(o) => match medium_jpeg(raw, width, height) {
            Err(m) => Err(m),
            Ok(md) => match thumb_jpeg(raw, THUMB_WIDTH, THUMB_HEIGHT, THUMB_QUALITY) {
                Err(m) => Err(m),
                Ok(t) => Ok((o, md, t)),
            },
        },
    }
}

/// What making the variants of some bytes gives: for a raster image its three variants
/// (or `EncodeFailed` with the encoder's message), otherwise the SVG itself, or the SVG
/// check's error.
pub open spec fn upload_is(r: Result<ImageUpload, StoreError>, raw: Seq<u8>) -> bool {
    match raster_size(raw) {
        Some((w, h)) => match raster_variants(raw, w, h) {
            Ok((o, m, t)) => match r {
                Ok(ImageUpload::Raster { original, medium, thumbnail }) => original@ == o && medium@ == m && thumbnail@ == t,
                _ => false,
            },
            Err(msg) => match r {
                Err(StoreError::EncodeFailed { reason }) => reason@ == msg,
                _ => false,
            },
        },
        None => match svg_outcome(raw) {
            Ok(()) => match r {
                Ok(ImageUpload::Svg { original }) => original@ == raw,
                _ => false,
            },
            Err(e) => r == Err::<ImageUpload, StoreError>(e),
        },
    }
}

/// Makes the variants of an upload, as `upload_is` says. Bytes that decode as a raster
/// image give the three raster variants, the medium one scaled down only where the
/// original exceeds the medium box; other bytes must pass the SVG check and are kept as
/// they are.
pub fn derive_variants(raw: &[u8]) -> (r: Result<ImageUpload, StoreError>)
    ensures
        upload_is(r, raw@),
{
    match decode_size(raw) {
        Some((w, h)) => {
            let original = match encode_original(raw) {
                Ok(b) => b,
                Err(reason) => return Err(StoreError::EncodeFailed { reason }),
            };
            let medium = if needs_medium_resize(w, h) {
                encode_scaled(raw, MEDIUM_WIDTH, MEDIUM_HEIGHT, MEDIUM_QUALITY)
            } else {
                encode_copy(raw, MEDIUM_QUALITY)
            };
            let medium = match medium {
                Ok(b) => b,
                Err(reason) => return Err(StoreError::EncodeFailed { reason }),
            };
            let thumbnail = match encode_thumbnail(raw, THUMB_WIDTH, THUMB_HEIGHT, THUMB_QUALITY) {
                Ok(b) => b,
                Err(reason) => return Err(StoreError::EncodeFailed { reason }),
            };
            Ok(ImageUpload::Raster { original, medium, thumbnail })
        },
        None => match check_svg(raw) {
            Ok(()) => Ok(ImageUpload::Svg { original: slice_to_vec(raw) }),
            Err(e) => Err(e),
        },
    }
}

} // verus!
