//! Decoding, resizing and encoding through the `image` crate, and the
//! compositing of a logo onto a rendered symbol.

use vstd::prelude::*;
use crate::raster::{centered, overlaid, overlay_centered, Raster};

verus! {

#[verifier::external_type_specification]
#[verifier::external_body]
pub struct ExImageError(image::ImageError);

/// Why a logo could not be composited.
#[derive(Debug, Clone, Copy, PartialEq, Eq, Structural)]
pub enum ComposeError {
    /// The logo bytes are not an image in a supported format.
    DecodeFailure,
    /// The resized logo would not fit in addressable memory.
    TooLarge,
}

/// Why a raster could not be encoded.
#[derive(Debug, Clone, Copy, PartialEq, Eq, Structural)]
pub enum EncodeError {
    /// The encoder refused the raster.
    EncodeFailure,
}

/// The logo to place on a symbol: where to fetch it and how large to draw it.
pub struct LogoSpec {
    pub source_url: String,
    pub target_width: u32,
    /// When absent, the height follows the logo's own aspect ratio.
    pub target_height: Option<u32>,
}

/// The RGB raster (width, height, samples) that decoding `bytes` gives, the
/// format guessed from the content; `None` when they do not decode.
pub uninterp spec fn decoded_rgb(bytes: Seq<u8>) -> Option<(nat, nat, Seq<u8>)>;

/// The samples of a `width × height` raster resized to `nwidth × nheight`
/// with nearest-neighbour sampling.
pub uninterp spec fn nearest_resized(
    width: nat,
    height: nat,
    data: Seq<u8>,
    nwidth: nat,
    nheight: nat,
) -> Seq<u8>;

/// The lossless WebP file for a `width × height` raster; `None` when the
/// encoder refuses it.
pub uninterp spec fn webp_encoding(width: nat, height: nat, data: Seq<u8>) -> Option<Seq<u8>>;

/// Relies on `image::load_from_memory`, which guesses the format from the
/// content, and `DynamicImage::into_rgb8`, whose buffer holds exactly three
/// samples per pixel.
#[verifier::external_body]
fn decode_rgb(bytes: &[u8]) -> (r: Result<Raster, image::ImageError>)
    ensures
        r is Err <==> decoded_rgb(bytes@) is None,
        r matches Ok(img) ==> img.wf() && decoded_rgb(bytes@) == Some(
            (img.width as nat, img.height as nat, img.data@),
        ),
{
    match image::load_from_memory(bytes) {
        Ok(decoded) => {
            let rgb = decoded.into_rgb8();
            Ok(Raster { width: rgb.width(), height: rgb.height(), data: rgb.into_raw() })
        },
        Err(e) => Err(e),
    }
}

/// Relies on `image::imageops::resize` with `FilterType::Nearest`: the result
/// is a fresh `nwidth × nheight` buffer. It allocates an intermediate
/// `width × nheight` buffer of four `f32` per pixel, and panics when either
/// buffer's size overflows.
#[verifier::external_body]
fn resize_nearest(img: &Raster, nwidth: u32, nheight: u32) -> (r: Raster)
    requires
        img.wf(),
        3 * nwidth * nheight <= isize::MAX,
        16 * img.width * nheight <= isize::MAX,
    ensures
        r.wf(),
        r.width == nwidth,
        r.height == nheight,
        r.data@ == nearest_resized(
            img.width as nat,
            img.height as nat,
            img.data@,
            nwidth as nat,
            nheight as nat,
        ),
{
    let src: image::RgbImage = image::ImageBuffer::from_raw(img.width, img.height, img.data.clone())
        .unwrap_or_default();
    let out = image::imageops::resize(&src, nwidth, nheight, image::imageops::FilterType::Nearest);
    Raster { width: out.width(), height: out.height(), data: out.into_raw() }
}

/// Relies on `image::ImageBuffer::write_to` with `ImageFormat::WebP`, which
/// writes a lossless WebP file into an in-memory buffer.
#[verifier::external_body]
fn encode_webp(img: &Raster) -> (r: Result<Vec<u8>, image::ImageError>)
    requires
        img.wf(),
    ensures
        r is Err <==> webp_encoding(img.width as nat, img.height as nat, img.data@) is None,
        r matches Ok(b) ==> webp_encoding(img.width as nat, img.height as nat, img.data@) == Some(
            b@,
        ),
{
    let buffer: image::RgbImage = image::ImageBuffer::from_raw(img.width, img.height, img.data.clone())
        .unwrap_or_default();
    let mut out = std::io::Cursor::new(Vec::new());
    match buffer.write_to(&mut out, image::ImageFormat::WebP) {
        Ok(()) => Ok(out.into_inner()),
        Err(e) => Err(e),
    }
}

/// Relies on `image::ImageFormat::to_mime_type`, which maps `WebP` to
/// `image/webp`.
#[verifier::external_body]
fn webp_mime_type() -> (r: String)
    ensures
        r@ == "image/webp"@,
{
    image::ImageFormat::WebP.to_mime_type().to_string()
}

/// The media type of every encoded response.
pub fn output_mime_type() -> (r: String)
    ensures
        r@ == "image/webp"@,
{
    webp_mime_type()
}

/// Encodes a raster as WebP and reports the media type of the result.
pub fn reader_image(image: Raster) -> (r: Result<(Vec<u8>, String), EncodeError>)
    requires
        image.wf(),
    ensures
        r is Err <==> webp_encoding(image.width as nat, image.height as nat, image.data@) is None,
        r matches Ok((b, mime)) ==> webp_encoding(
            image.width as nat,
            image.height as nat,
            image.data@,
        ) == Some(b@) && mime@ == "image/webp"@,
{
    match encode_webp(&image) {
        Ok(bytes) => Ok((bytes, webp_mime_type())),
        Err(_) => Err(EncodeError::EncodeFailure),
    }
}

/// The logo height for a `width × height` logo drawn `target_width` wide
/// with its aspect ratio kept: `height / width * target_width`, rounded to the
/// nearest integer with halves rounded up (zero for a zero-width logo).
pub open spec fn aspect_height(width: nat, height: nat, target_width: nat) -> nat {
    if width == 0 {
        0
    } else {
        (2 * height * target_width + width) / (2 * width)
    }
}

/// The height the logo is drawn at.
pub open spec fn resolved_height(width: nat, height: nat, target_width: nat, target_height: Option<u32>) -> nat {
    match target_height {
        Some(h) => h as nat,
        None => aspect_height(width, height, target_width),
    }
}

/// Whether a `width × height` logo can be resized to `nwidth × nheight`
/// within addressable memory.
pub open spec fn resize_fits(width: nat, nwidth: nat, nheight: nat) -> bool {
    &&& nheight <= u32::MAX
    &&& 3 * nwidth * nheight <= isize::MAX
    &&& 16 * width * nheight <= isize::MAX
}

/// What compositing the logo in `bytes` onto a `bw × bh` base gives.
pub open spec fn compose_outcome(
    base: Seq<u8>,
    bw: nat,
    bh: nat,
    bytes: Seq<u8>,
    target_width: nat,
    target_height: Option<u32>,
) -> Result<Seq<u8>, ComposeError> {
    match decoded_rgb(bytes) {
        None => Err(ComposeError::DecodeFailure),
        Some((w, h, d)) => {
            let nh = resolved_height(w, h, target_width, target_height);
            if !resize_fits(w, target_width, nh) {
                Err(ComposeError::TooLarge)
            } else {
                Ok(
                    overlaid(
                        base,
                        bw,
                        nearest_resized(w, h, d, target_width, nh),
                        target_width,
                        nh,
                        centered(bw as int, target_width as int),
                        centered(bh as int, nh as int),
                    ),
                )
            }
        },
    }
}

/// The logo height: `target_height` when given, otherwise the height that
/// keeps the logo's aspect ratio at `target_width`.
pub fn logo_height(width: u32, height: u32, target_width: u32, target_height: Option<u32>) -> (r: u128)
    ensures
        r == resolved_height(width as nat, height as nat, target_width as nat, target_height),
{
    match target_height {
        Some(h) => h as u128,
        None => {
            if width == 0 {
                0
            } else {
                let w = width as u128;
                proof {
                    assert(2 * (height as int) * (target_width as int) <= 2 * 0xffff_ffff * 0xffff_ffff) by (nonlinear_arith)
                        requires
                            height <= 0xffff_ffff,
                            target_width <= 0xffff_ffff,
                    ;
                }
                (2 * (height as u128) * (target_width as u128) + w) / (2 * w)
            }
        },
    }
}

/// Decodes `logo_bytes`, resizes the logo to `spec`'s size with
/// nearest-neighbour sampling and places it centred on `base`, clipping
/// whatever falls outside.
pub fn compose(base: Raster, logo_bytes: &[u8], spec: &LogoSpec) -> (r: Result<Raster, ComposeError>)
    requires
        base.wf(),
    ensures
        match r {
            Ok(img) => img.wf() && img.width == base.width && img.height == base.height
                && compose_outcome(
                base.data@,
                base.width as nat,
                base.height as nat,
                logo_bytes@,
                spec.target_width as nat,
                spec.target_height,
            ) == Ok::<Seq<u8>, ComposeError>(img.data@),
            Err(e) => compose_outcome(
                base.data@,
                base.width as nat,
                base.height as nat,
                logo_bytes@,
                spec.target_width as nat,
                spec.target_height,
            ) == Err::<Seq<u8>, ComposeError>(e),
        },
{
    let logo = match decode_rgb(logo_bytes) {
        Ok(img) => img,
        Err(_) => return Err(ComposeError::DecodeFailure),
    };
    let nh = logo_height(logo.width, logo.height, spec.target_width, spec.target_height);
    let tw = spec.target_width as u128;
    if nh > 0xffff_ffff {
        return Err(ComposeError::TooLarge);
    }
    proof {
        assert(3 * tw * nh <= 3 * 0xffff_ffff * 0xffff_ffff) by (nonlinear_arith)
            requires
                tw <= 0xffff_ffff,
                nh <= 0xffff_ffff,
        ;
        assert(16 * (logo.width as int) * nh <= 16 * 0xffff_ffff * 0xffff_ffff) by (nonlinear_arith)
            requires
                logo.width <= 0xffff_ffff,
                nh <= 0xffff_ffff,
        ;
    }
    if 3 * tw * nh > isize::MAX as u128 || 16 * (logo.width as u128) * nh > isize::MAX as u128 {
        return Err(ComposeError::TooLarge);
    }
    let resized = resize_nearest(&logo, spec.target_width, nh as u32);
    let mut out = base;
    overlay_centered(&mut out, &resized);
    Ok(out)
}

} // verus!
