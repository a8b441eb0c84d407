//! Image transcoding: PNG decoding, the resize policy, and lossy WebP
//! re-encoding. The decoding, resampling and encoding themselves are done by
//! the `image` crate behind trusted wrappers; the resize policy and the
//! plumbing around the calls are verified.

use crate::errors::PipelineError;
use vstd::prelude::*;
use vstd::string::StringExecFns;

verus! {

#[verifier::external_type_specification]
#[verifier::external_body]
pub struct ExImageError(image::error::ImageError);

/// The greatest width or height a lossy WebP picture can have; the encoder
/// rejects anything larger.
pub const MAX_WEBP_DIM: u32 = 16383;

/// The dimensions of the image that `bytes` decode to as PNG, or `None` when
/// they do not decode; a function of the bytes alone.
pub uninterp spec fn decoded_dims(bytes: Seq<u8>) -> Option<(u32, u32)>;

/// Relies on image::load_from_memory_with_format with the PNG format, whose
/// success and result depend on the bytes alone (it runs under the crate's
/// fixed default decoding limits and returns an error, never panics, on
/// malformed or oversized input), and on DynamicImage::to_rgba8, which keeps
/// the dimensions.
#[verifier::external_body]
fn decode_dimensions(bytes: &Vec<u8>) -> (r: Result<(u32, u32), image::error::ImageError>)
    ensures
        (r is Ok) == (decoded_dims(bytes@) is Some),
        r matches Ok(d) ==> decoded_dims(bytes@) == Some(d),
{
    let img = image::load_from_memory_with_format(bytes, image::ImageFormat::Png)?;
    Ok(img.to_rgba8().dimensions())
}

/// The WebP encoding of the PNG `bytes`, resampled to `width` by `height` and
/// encoded lossily at `quality`; `None` when the bytes do not decode or the
/// encoder rejects the picture. A function of the arguments alone.
pub uninterp spec fn webp_of(bytes: Seq<u8>, width: u32, height: u32, quality: u8) -> Option<
    Seq<u8>,
>;

/// Relies on image::load_from_memory_with_format with the PNG format, on
/// image::imageops::resize, which resamples to exactly the given dimensions
/// with the Lanczos3 filter, and on webp::Encoder::encode_simple, the lossy
/// WebP encoder, which hands every encoding failure back as an error; each
/// step's result depends on the arguments alone. `None` stands for bytes
/// that do not decode or a picture the encoder rejects.
#[verifier::external_body]
fn transcode_webp(bytes: &Vec<u8>, width: u32, height: u32, quality: u8) -> (r: Option<Vec<u8>>)
    requires
        1 <= width <= MAX_WEBP_DIM,
        1 <= height <= MAX_WEBP_DIM,
    ensures
        (r is Some) == (webp_of(bytes@, width, height, quality) is Some),
        r matches Some(v) ==> webp_of(bytes@, width, height, quality) == Some(v@),
{
    let img = match image::load_from_memory_with_format(bytes, image::ImageFormat::Png) {
        Ok(i) => i,
        Err(_) => { return None; },
    };
    let rgba = img.to_rgba8();
    let scaled = if rgba.dimensions() == (width, height) {
        rgba
    } else {
        image::imageops::resize(&rgba, width, height, image::imageops::FilterType::Lanczos3)
    };
    match webp::Encoder::from_rgba(&scaled, width, height).encode_simple(false, quality.into()) {
        Ok(mem) => Some(mem.to_vec()),
        Err(_) => None,
    }
}

/// One axis scaled by `min_size / min_dim`, rounded to the nearest pixel
/// (half away from zero).
pub open spec fn spec_scaled_axis(dim: u32, min_size: u32, min_dim: u32) -> int {
    (2 * dim * min_size + min_dim) / (2 * min_dim)
}

/// The target dimensions of the resize policy: an image whose smaller
/// dimension reaches `min_size` is kept as it is — never downscaled — and a
/// smaller one is upscaled by the uniform factor `min_size / min(w, h)`,
/// each axis rounded to the nearest pixel.
pub open spec fn spec_target_dims(w: u32, h: u32, min_size: u32) -> (int, int) {
    let min_dim = if w <= h {
        w as int
    } else {
        h as int
    };
    if min_dim >= min_size {
        (w as int, h as int)
    } else {
        (
            spec_scaled_axis(w, min_size, if w <= h {
                w
            } else {
                h
            }),
            spec_scaled_axis(h, min_size, if w <= h {
                w
            } else {
                h
            }),
        )
    }
}

/// Decides the resize policy for decoded dimensions: the target dimensions,
/// or `None` when a scaled axis would not fit the pixel width.
pub fn resize_dims(w: u32, h: u32, min_size: u32) -> (r: Option<(u32, u32)>)
    requires
        w >= 1,
        h >= 1,
    ensures
        match r {
            Some(d) => (d.0 as int, d.1 as int) == spec_target_dims(w, h, min_size),
            None => spec_target_dims(w, h, min_size).0 > u32::MAX || spec_target_dims(
                w,
                h,
                min_size,
            ).1 > u32::MAX,
        },
{
    let min_dim = if w <= h {
        w
    } else {
        h
    };
    if min_dim >= min_size {
        return Some((w, h));
    }
    let md = min_dim as u128;
    proof {
        assert((2 * (w as int)) * (min_size as int) >= 0 && (2 * (w as int)) * (min_size as int)
            <= 0x2_0000_0000_0000_0000) by (nonlinear_arith)
            requires
                1 <= w <= 0xffff_ffffu32,
                min_size <= 0xffff_ffffu32,
        ;
        assert((2 * (h as int)) * (min_size as int) >= 0 && (2 * (h as int)) * (min_size as int)
            <= 0x2_0000_0000_0000_0000) by (nonlinear_arith)
            requires
                1 <= h <= 0xffff_ffffu32,
                min_size <= 0xffff_ffffu32,
        ;
    }
    let tw = (2 * (w as u128) * (min_size as u128) + md) / (2 * md);
    let th = (2 * (h as u128) * (min_size as u128) + md) / (2 * md);
    if tw > u32::MAX as u128 || th > u32::MAX as u128 {
        return None;
    }
    proof {
        assert(tw as int == spec_target_dims(w, h, min_size).0);
        assert(th as int == spec_target_dims(w, h, min_size).1);
    }
    Some((tw as u32, th as u32))
}

/// The resize policy reaches the bound exactly: an upscaled image's smaller
/// axis becomes exactly `min_size`, an image whose smaller axis already
/// reaches `min_size` keeps both dimensions — it is never downscaled — and
/// the target dimensions of a non-empty image are never zero.
pub proof fn lemma_resize_policy(w: u32, h: u32, min_size: u32)
    requires
        1 <= w,
        1 <= h,
    ensures
        (if w <= h {
            w
        } else {
            h
        }) >= min_size ==> spec_target_dims(w, h, min_size) == (w as int, h as int),
        w <= h && w < min_size ==> spec_target_dims(w, h, min_size).0 == min_size,
        h < w && h < min_size ==> spec_target_dims(w, h, min_size).1 == min_size,
        spec_target_dims(w, h, min_size).0 >= 1,
        spec_target_dims(w, h, min_size).1 >= 1,
{
    if w <= h && w < min_size {
        assert((2 * w * min_size + w) / (2 * w) == min_size) by (nonlinear_arith)
            requires
                1 <= w,
        ;
        assert((2 * h * min_size + w) / (2 * w) >= 1) by (nonlinear_arith)
            requires
                1 <= w <= h,
                1 <= min_size,
        ;
    }
    if h < w && h < min_size {
        assert((2 * h * min_size + h) / (2 * h) == min_size) by (nonlinear_arith)
            requires
                1 <= h,
        ;
        assert((2 * w * min_size + h) / (2 * h) >= 1) by (nonlinear_arith)
            requires
                1 <= h <= w,
                1 <= min_size,
        ;
    }
}

/// The inputs on which transcoding succeeds: the bytes decode to an image
/// with positive dimensions, the policy's target dimensions stay within the
/// WebP format bound, and the encoder accepts the picture.
pub open spec fn spec_transcode_ok(bytes: Seq<u8>, min_size: u32, quality: u8) -> bool {
    decoded_dims(bytes) matches Some(d) && d.0 >= 1 && d.1 >= 1 && spec_target_dims(
        d.0,
        d.1,
        min_size,
    ).0 <= MAX_WEBP_DIM && spec_target_dims(d.0, d.1, min_size).1 <= MAX_WEBP_DIM && webp_of(
        bytes,
        spec_target_dims(d.0, d.1, min_size).0 as u32,
        spec_target_dims(d.0, d.1, min_size).1 as u32,
        quality,
    ) is Some
}

/// A transcoded image ready to be written: the encoded bytes and the
/// dimensions they were encoded at.
#[derive(Debug)]
pub struct ProcessedAsset {
    /// The encoded WebP bytes.
    pub bytes: Vec<u8>,
    /// The width the image was encoded at.
    pub width: u32,
    /// The height the image was encoded at.
    pub height: u32,
}

/// Decodes fetched PNG bytes, applies the resize policy, and re-encodes
/// lossily at the given quality.
///
/// Success is owed exactly on the inputs of [`spec_transcode_ok`]; the
/// asset's dimensions are then the policy's target dimensions for the
/// decoded image, and its bytes are their WebP encoding. Malformed bytes, a
/// zero dimension and a target beyond the pixel width are decode errors; a
/// target beyond the WebP format bound or a rejected picture is an encode
/// error.
pub fn process_image(bytes: &Vec<u8>, min_size: u32, quality: u8) -> (r: Result<
    ProcessedAsset,
    PipelineError,
>)
    ensures
        (r is Ok) == spec_transcode_ok(bytes@, min_size, quality),
        match r {
            Ok(p) => {
                &&& decoded_dims(bytes@) matches Some(d) && d.0 >= 1 && d.1 >= 1 && (
                p.width as int, p.height as int) == spec_target_dims(d.0, d.1, min_size)
                &&& 1 <= p.width <= MAX_WEBP_DIM
                &&& 1 <= p.height <= MAX_WEBP_DIM
                &&& webp_of(bytes@, p.width, p.height, quality) == Some(p.bytes@)
            },
            Err(e) => match e {
                PipelineError::Decode(_) => decoded_dims(bytes@) is None || (decoded_dims(
                    bytes@,
                ) matches Some(d) && (d.0 == 0 || d.1 == 0 || spec_target_dims(
                    d.0,
                    d.1,
                    min_size,
                ).0 > u32::MAX || spec_target_dims(d.0, d.1, min_size).1 > u32::MAX)),
                PipelineError::Encode(_) => decoded_dims(bytes@) matches Some(d) && d.0 >= 1
                    && d.1 >= 1 && spec_target_dims(d.0, d.1, min_size).0 <= u32::MAX
                    && spec_target_dims(d.0, d.1, min_size).1 <= u32::MAX && (spec_target_dims(
                    d.0,
                    d.1,
                    min_size,
                ).0 > MAX_WEBP_DIM || spec_target_dims(d.0, d.1, min_size).1 > MAX_WEBP_DIM
                    || webp_of(
                    bytes@,
                    spec_target_dims(d.0, d.1, min_size).0 as u32,
                    spec_target_dims(d.0, d.1, min_size).1 as u32,
                    quality,
                ) is None),
                _ => false,
            },
        },
{
    let (w, h) = match decode_dimensions(bytes) {
        Ok(d) => d,
        Err(_) => {
            return Err(PipelineError::Decode(String::from_str("the bytes are not a valid image")));
        },
    };
    if w == 0 || h == 0 {
        return Err(PipelineError::Decode(String::from_str("the image has a zero dimension")));
    }
    proof {
        lemma_resize_policy(w, h, min_size);
    }
    let (tw, th) = match resize_dims(w, h, min_size) {
        Some(d) => d,
        None => {
            return Err(
                PipelineError::Decode(
                    String::from_str("the scaled dimensions exceed the pixel width"),
                ),
            );
        },
    };
    if tw > MAX_WEBP_DIM || th > MAX_WEBP_DIM {
        return Err(
            PipelineError::Encode(
                String::from_str("the scaled dimensions exceed the output format bound"),
            ),
        );
    }
    match transcode_webp(bytes, tw, th, quality) {
        Some(encoded) => Ok(ProcessedAsset { bytes: encoded, width: tw, height: th }),
        None => Err(PipelineError::Encode(String::from_str("the encoder rejected the image"))),
    }
}

} // verus!
