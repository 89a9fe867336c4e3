//! The pixel-value codec. A reference raster fetched from the downstream
//! WMS carries, in each pixel's red channel, an 8-bit color-bin index from a
//! 250-band inverted-greyscale ramp. The codec rewrites every pixel so that
//! its four bytes hold the little-endian word standing for the bin's
//! physical value: zero for fully transparent pixels, the all-ones no-data
//! sentinel for the reserved bin 0, and otherwise the caller-supplied word
//! of the pixel's bin.
//!
//! The word of bin `b` is the 32-bit float `b * (max - min) / 249 + min`;
//! building that 250-entry table is floating-point work and stays with the
//! caller, so the codec's own behavior is exact over plain integers.

use vstd::bytes::{spec_u32_to_le_bytes, u32_to_le_bytes};
use vstd::prelude::*;

use crate::error::WmsError;

verus! {

/// The color bin that red-channel value `r` falls in: `ceil((r/255)/(1/250))`,
/// meaningful for `r >= 1`, where it lies in `1 ..= 250`.
pub open spec fn bin_index_spec(r: u8) -> int {
    (250 * (r as int) + 254) / 255
}

/// Computes the color bin of a non-zero red-channel value.
pub fn bin_index(r: u8) -> (i: usize)
    requires
        r >= 1,
    ensures
        i == bin_index_spec(r),
        1 <= i <= 250,
{
    ((250 * (r as usize)) + 254) / 255
}

/// The four output bytes of one pixel, given the pixel's red and alpha
/// channels and the 250-entry table of per-bin value words: four zero bytes
/// for a transparent pixel, the reserved all-ones no-data pattern for red
/// value 0, and otherwise the little-endian bytes of the bin's word.
pub open spec fn pixel_value_bytes(red: u8, alpha: u8, bins: Seq<u32>) -> Seq<u8> {
    if alpha == 0 {
        seq![0u8, 0u8, 0u8, 0u8]
    } else if red == 0 {
        seq![255u8, 255u8, 255u8, 255u8]
    } else {
        spec_u32_to_le_bytes(bins[bin_index_spec(red) - 1])
    }
}

/// A pixel with alpha 0 always yields four zero bytes, whatever its other
/// channels hold.
pub proof fn lemma_transparent_pixel_zero(red: u8, bins: Seq<u32>)
    ensures
        pixel_value_bytes(red, 0, bins) == seq![0u8, 0u8, 0u8, 0u8],
{
}

/// A pixel with red channel 0 and non-zero alpha always yields the reserved
/// no-data pattern `0xFF x 4`, never a computed value.
pub proof fn lemma_nodata_pixel(alpha: u8, bins: Seq<u32>)
    requires
        alpha != 0,
    ensures
        pixel_value_bytes(0, alpha, bins) == seq![255u8, 255u8, 255u8, 255u8],
{
}

/// The whole raster, transcoded pixel by pixel: byte `i` belongs to pixel
/// `i / 4` and takes that pixel's output byte `i % 4`.
pub open spec fn transcoded(data: Seq<u8>, bins: Seq<u32>) -> Seq<u8> {
    Seq::new(
        data.len(),
        |i: int| pixel_value_bytes(data[4 * (i / 4)], data[4 * (i / 4) + 3], bins)[i % 4],
    )
}

/// The codec is a pure function: equal rasters and equal bin tables give
/// byte-identical output, so running it twice over the same pair changes
/// nothing about the result.
pub proof fn lemma_transcode_deterministic(
    data1: Seq<u8>,
    data2: Seq<u8>,
    bins1: Seq<u32>,
    bins2: Seq<u32>,
)
    requires
        data1 == data2,
        bins1 == bins2,
    ensures
        transcoded(data1, bins1) == transcoded(data2, bins2),
{
}

/// Rewrites an RGBA raster in place so that every pixel's four bytes hold
/// its physical-value word, as `transcoded` describes.
pub fn transcode_raster(data: &mut Vec<u8>, bins: &Vec<u32>)
    requires
        old(data)@.len() % 4 == 0,
        bins@.len() == 250,
    ensures
        final(data)@.len() == old(data)@.len(),
        final(data)@ == transcoded(old(data)@, bins@),
{
    let n = data.len();
    let pixels = n / 4;
    let mut p: usize = 0;
    while p < pixels
        invariant
            data@.len() == n,
            n == old(data)@.len(),
            n % 4 == 0,
            pixels == n / 4,
            bins@.len() == 250,
            0 <= p <= pixels,
            forall|i: int| 0 <= i < 4 * p ==> data@[i] == transcoded(old(data)@, bins@)[i],
            forall|i: int| 4 * p <= i < n ==> data@[i] == old(data)@[i],
        decreases pixels - p,
    {
        let base = 4 * p;
        assert(base + 3 < n);
        let red = data[base];
        let alpha = data[base + 3];
        proof {
            let b = base as int;
            assert(b / 4 == p && b % 4 == 0);
            assert((b + 1) / 4 == p && (b + 1) % 4 == 1);
            assert((b + 2) / 4 == p && (b + 2) % 4 == 2);
            assert((b + 3) / 4 == p && (b + 3) % 4 == 3);
        }
        if alpha == 0 {
            data.set(base, 0);
            data.set(base + 1, 0);
            data.set(base + 2, 0);
            data.set(base + 3, 0);
        } else if red == 0 {
            data.set(base, 255);
            data.set(base + 1, 255);
            data.set(base + 2, 255);
            data.set(base + 3, 255);
        } else {
            let bi = bin_index(red);
            let word = bins[bi - 1];
            let bytes = u32_to_le_bytes(word);
            data.set(base, bytes[0]);
            data.set(base + 1, bytes[1]);
            data.set(base + 2, bytes[2]);
            data.set(base + 3, bytes[3]);
        }
        proof {
            let b = base as int;
            assert(data@[b] == transcoded(old(data)@, bins@)[b]);
            assert(data@[b + 1] == transcoded(old(data)@, bins@)[b + 1]);
            assert(data@[b + 2] == transcoded(old(data)@, bins@)[b + 2]);
            assert(data@[b + 3] == transcoded(old(data)@, bins@)[b + 3]);
        }
        p = p + 1;
    }
    proof {
        assert(data@ =~= transcoded(old(data)@, bins@));
    }
}

/// What the PNG decoder yields for `bytes`: the image's width, height and
/// RGBA samples when `bytes` is a well-formed image, nothing otherwise.
pub uninterp spec fn png_decoded_rgba(bytes: Seq<u8>) -> Option<(u32, u32, Seq<u8>)>;

/// Relies on `image::load_from_memory` and `DynamicImage::to_rgba8`: whether
/// the bytes decode, and to which raster, depends on the bytes alone, and an
/// RGBA buffer holds exactly `width * height * 4` samples.
#[verifier::external_body]
fn decode_png_rgba(bytes: &Vec<u8>) -> (r: Option<(u32, u32, Vec<u8>)>)
    ensures
        match r {
            Option::Some((w, h, data)) => png_decoded_rgba(bytes@) == Option::Some(
                (w, h, data@),
            ) && data@.len() == (w as int) * (h as int) * 4,
            Option::None => png_decoded_rgba(bytes@) is None,
        },
{
    match image::load_from_memory(bytes) {
        Ok(img) => {
            let rgba = img.to_rgba8();
            let (w, h) = (rgba.width(), rgba.height());
            Some((w, h, rgba.into_raw()))
        },
        Err(_) => None,
    }
}

/// Whether `png` holds a decodable image.
pub fn image_decodes(png: &Vec<u8>) -> (ok: bool)
    ensures
        ok == (png_decoded_rgba(png@) is Some),
{
    decode_png_rgba(png).is_some()
}

/// What the PNG encoder yields for a `width` by `height` RGBA raster, or
/// nothing where the raster cannot be encoded (wrong sample count).
pub uninterp spec fn png_encoded(width: u32, height: u32, data: Seq<u8>) -> Option<Seq<u8>>;

/// Relies on `image::RgbaImage::from_raw` and `ImageBuffer::write_to` with
/// the PNG format: encoding an in-memory raster is a pure function of the
/// dimensions and samples.
#[verifier::external_body]
fn encode_png_rgba(width: u32, height: u32, data: Vec<u8>) -> (r: Option<Vec<u8>>)
    ensures
        match r {
            Option::Some(png) => png_encoded(width, height, data@) == Option::Some(png@),
            Option::None => png_encoded(width, height, data@) is None,
        },
{
    let img = match image::RgbaImage::from_raw(width, height, data) {
        Some(img) => img,
        None => {
            return None;
        },
    };
    let mut w = std::io::Cursor::new(Vec::new());
    match img.write_to(&mut w, image::ImageOutputFormat::Png) {
        Ok(()) => Some(w.into_inner()),
        Err(_) => None,
    }
}

/// What `transcode_image` yields: the reference image's raster transcoded
/// under the bin table and re-encoded as a PNG, or `ImageError` where the
/// input does not decode or the output does not encode.
pub open spec fn spec_transcode_image(
    png: Seq<u8>,
    bins: Seq<u32>,
    r: Result<Vec<u8>, WmsError>,
) -> bool {
    match png_decoded_rgba(png) {
        Option::None => r == Result::<Vec<u8>, WmsError>::Err(WmsError::ImageError),
        Option::Some((w, h, data)) => match png_encoded(w, h, transcoded(data, bins)) {
            Option::None => r == Result::<Vec<u8>, WmsError>::Err(WmsError::ImageError),
            Option::Some(out) => r matches Result::Ok(v) && v@ == out,
        },
    }
}

/// Decodes a fetched reference image, transcodes every pixel to its
/// physical-value bytes under the 250-entry bin table, and re-encodes the
/// result as a PNG of the same dimensions.
pub fn transcode_image(png: &Vec<u8>, bins: &Vec<u32>) -> (r: Result<Vec<u8>, WmsError>)
    requires
        bins@.len() == 250,
    ensures
        spec_transcode_image(png@, bins@, r),
{
    let decoded = decode_png_rgba(png);
    match decoded {
        Option::None => Result::Err(WmsError::ImageError),
        Option::Some((w, h, mut data)) => {
            proof {
                assert(((w as int) * (h as int) * 4) % 4 == 0) by (nonlinear_arith);
            }
            transcode_raster(&mut data, bins);
            match encode_png_rgba(w, h, data) {
                Option::None => Result::Err(WmsError::ImageError),
                Option::Some(out) => Result::Ok(out),
            }
        },
    }
}

} // verus!
