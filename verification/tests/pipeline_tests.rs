use pokemonsay::error::Error;
use pokemonsay::geometry::FitTarget;
use pokemonsay::pipeline::{
    decode_sprite, prepare_sprite, resolve_sprite_source, SpriteFetch, SpriteRetrievalMethod,
};
use pokemonsay::sprite::SpriteBundle;

/// Encodes a raw RGBA buffer as a PNG.
fn png_bytes(width: u32, height: u32, rgba: Vec<u8>) -> Vec<u8> {
    let img = image::RgbaImage::from_raw(width, height, rgba).unwrap();
    let mut out = Vec::new();
    image::DynamicImage::ImageRgba8(img)
        .write_to(&mut std::io::Cursor::new(&mut out), image::ImageFormat::Png)
        .unwrap();
    out
}

#[test]
fn garbage_bytes_fail_with_decode_error() {
    let r = decode_sprite(&vec![0, 1, 2, 3, 4]);
    assert_eq!(r.unwrap_err(), Error::DecodeError);
}

#[test]
fn decode_recovers_the_encoded_pixels() {
    let rgba = vec![
        10, 20, 30, 255, 40, 50, 60, 0, //
        70, 80, 90, 128, 100, 110, 120, 255,
    ];
    let bytes = png_bytes(2, 2, rgba.clone());
    let pb = decode_sprite(&bytes).unwrap();
    assert_eq!((pb.width, pb.height), (2, 2));
    assert_eq!(pb.data, rgba);
}

#[test]
fn prepare_crops_the_transparent_border_and_fits() {
    // 4 x 4, one opaque pixel at (2, 1)
    let mut rgba = vec![0u8; 64];
    let base = 4 * (1 * 4 + 2);
    rgba[base] = 9;
    rgba[base + 1] = 8;
    rgba[base + 2] = 7;
    rgba[base + 3] = 255;
    let bytes = png_bytes(4, 4, rgba);
    let (pb, target) = prepare_sprite(&bytes, true, 30).unwrap();
    assert_eq!((pb.width, pb.height), (1, 1));
    assert_eq!(pb.data, vec![9, 8, 7, 255]);
    assert_eq!(target, FitTarget { width: None, height: Some(1) });
}

#[test]
fn prepare_without_crop_keeps_the_decoded_image() {
    let rgba = vec![0u8; 4 * 6 * 2];
    let bytes = png_bytes(6, 2, rgba.clone());
    let (pb, target) = prepare_sprite(&bytes, false, 4).unwrap();
    assert_eq!((pb.width, pb.height), (6, 2));
    assert_eq!(pb.data, rgba);
    assert_eq!(target, FitTarget { width: Some(4), height: None });
}

#[test]
fn prepare_propagates_a_decode_failure() {
    assert_eq!(prepare_sprite(&vec![1, 2, 3], true, 30).unwrap_err(), Error::DecodeError);
}

#[test]
fn embedded_dispatch_resolves_from_the_bundle() {
    let mut bundle = SpriteBundle::new();
    bundle.add_sprite("25.png".to_string(), vec![3, 1, 4]);
    let locator =
        "https://raw.githubusercontent.com/PokeAPI/sprites/master/sprites/pokemon/25.png"
            .to_string();
    match resolve_sprite_source(SpriteRetrievalMethod::Embedded, &bundle, &locator) {
        Ok(SpriteFetch::Ready(bytes)) => assert_eq!(bytes, vec![3, 1, 4]),
        other => panic!("expected bundle bytes, got {:?}", other.is_ok()),
    }
}

#[test]
fn embedded_dispatch_misses_with_missing_asset() {
    let bundle = SpriteBundle::new();
    let locator = "25.png".to_string();
    match resolve_sprite_source(SpriteRetrievalMethod::Embedded, &bundle, &locator) {
        Err(e) => assert_eq!(e, Error::MissingAsset),
        Ok(_) => panic!("expected a miss"),
    }
}

#[test]
fn remote_dispatch_hands_the_url_back() {
    let bundle = SpriteBundle::new();
    let locator = "https://example.net/25.png".to_string();
    match resolve_sprite_source(SpriteRetrievalMethod::Http, &bundle, &locator) {
        Ok(SpriteFetch::Remote(url)) => assert_eq!(url, locator),
        other => panic!("expected the url back, got {:?}", other.is_ok()),
    }
}
