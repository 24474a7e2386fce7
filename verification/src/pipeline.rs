//! The pipeline: strategy dispatch and everything between received sprite
//! bytes and the hand-off to the render sink — decode, optional crop, and
//! the dimension fit. Transport (queries, fetches, painting) stays with the
//! caller; every failure here aborts the invocation.

use vstd::prelude::*;

use crate::error::Error;
use crate::geometry::{
    crop_transparent_pixels, fit_dimensions, is_crop_of, spec_fit, FitTarget, ImageView,
    PixelBuffer,
};
use crate::sprite::{fetch_embedded, normalized_key, SpriteBundle};

verus! {

/// Which record backend an invocation queries.
#[derive(Debug, Clone, Copy, PartialEq, Eq, Structural)]
pub enum QueryMethod {
    Db,
    Http,
}

/// Which sprite backend an invocation resolves bytes from.
#[derive(Debug, Clone, Copy, PartialEq, Eq, Structural)]
pub enum SpriteRetrievalMethod {
    Embedded,
    Http,
}

/// What an encoded sprite decodes to: `None` when the bytes are no valid
/// image, otherwise the flat RGBA bytes with their width and height.
pub uninterp spec fn png_decoded(bytes: Seq<u8>) -> Option<(Seq<u8>, u32, u32)>;

/// The image model that a successful decode of these bytes yields.
pub open spec fn decoded_view(bytes: Seq<u8>) -> ImageView {
    let d = png_decoded(bytes).unwrap();
    ImageView { bytes: d.0, width: d.1 as int, height: d.2 as int }
}

/// Relies on image::load_from_memory: decoding is a function of the bytes
/// alone, and the RGBA buffer holds four bytes per pixel in row-major order.
#[verifier::external_body]
fn decode_image(bytes: &[u8]) -> (r: Option<PixelBuffer>)
    ensures
        r is Some <==> png_decoded(bytes@) is Some,
        r matches Some(pb) ==> png_decoded(bytes@) == Some((pb.data@, pb.width, pb.height))
            && pb@.wf(),
{
    match image::load_from_memory(bytes) {
        Ok(img) => {
            let rgba = img.to_rgba8();
            let (width, height) = rgba.dimensions();
            Some(PixelBuffer { data: rgba.into_raw(), width, height })
        },
        Err(_) => None,
    }
}

/// Decodes sprite bytes into a pixel buffer; malformed bytes are a
/// `DecodeError`.
pub fn decode_sprite(bytes: &Vec<u8>) -> (r: Result<PixelBuffer, Error>)
    ensures
        r is Ok <==> png_decoded(bytes@) is Some,
        r matches Ok(pb) ==> pb@ == decoded_view(bytes@) && pb@.wf(),
        r is Err ==> r == Err::<PixelBuffer, Error>(Error::DecodeError),
{
    match decode_image(bytes.as_slice()) {
        Some(pb) => {
            proof {
                assert(pb@ =~= decoded_view(bytes@));
            }
            Ok(pb)
        },
        None => Err(Error::DecodeError),
    }
}

/// What the caller must do next to obtain sprite bytes: the embedded bundle
/// already yielded them, or a URL remains to be fetched over the network.
pub enum SpriteFetch {
    Ready(Vec<u8>),
    Remote(String),
}

/// Dispatches a sprite locator on the configured strategy: the embedded
/// bundle resolves it here; the remote strategy hands the URL back to the
/// caller's transport.
pub fn resolve_sprite_source(
    method: SpriteRetrievalMethod,
    bundle: &SpriteBundle,
    locator: &String,
) -> (r: Result<SpriteFetch, Error>)
    ensures
        method is Embedded ==> {
            &&& bundle@.contains_key(normalized_key(locator@)) ==> (r matches Ok(
                SpriteFetch::Ready(b),
            ) && b@ == bundle@[normalized_key(locator@)])
            &&& !bundle@.contains_key(normalized_key(locator@)) ==> r == Err::<
                SpriteFetch,
                Error,
            >(Error::MissingAsset)
        },
        method is Http ==> (r matches Ok(SpriteFetch::Remote(u)) && u@ == locator@),
{
    match method {
        SpriteRetrievalMethod::Embedded => match fetch_embedded(bundle, locator.as_str()) {
            Ok(b) => Ok(SpriteFetch::Ready(b)),
            Err(e) => Err(e),
        },
        SpriteRetrievalMethod::Http => Ok(SpriteFetch::Remote(locator.clone())),
    }
}

/// Decode, optional crop, and fit: turns received sprite bytes into the
/// buffer and dimension constraint handed to the render sink.
pub fn prepare_sprite(bytes: &Vec<u8>, crop: bool, max_dim: u32) -> (r: Result<
    (PixelBuffer, FitTarget),
    Error,
>)
    ensures
        r is Ok <==> png_decoded(bytes@) is Some,
        r is Err ==> r == Err::<(PixelBuffer, FitTarget), Error>(Error::DecodeError),
        r matches Ok(out) ==> {
            &&& crop ==> is_crop_of(out.0@, decoded_view(bytes@))
            &&& !crop ==> out.0@ == decoded_view(bytes@)
            &&& out.1 == spec_fit(out.0.width, out.0.height, max_dim)
        },
{
    let decoded = match decode_sprite(bytes) {
        Ok(pb) => pb,
        Err(e) => {
            return Err(e);
        },
    };
    let shown = if crop {
        crop_transparent_pixels(&decoded)
    } else {
        decoded
    };
    let target = fit_dimensions(shown.width, shown.height, max_dim);
    Ok((shown, target))
}

} // verus!
