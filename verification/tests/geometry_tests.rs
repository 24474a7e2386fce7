use pokemonsay::geometry::{
    alpha_bounding_box, crop_transparent_pixels, fit_dimensions, FitTarget, PixelBuffer,
};

/// Builds an RGBA buffer from an alpha grid; color channels get distinct
/// values derived from the coordinates so copied pixels can be recognized.
fn buffer_from_alphas(width: u32, height: u32, alphas: &[u8]) -> PixelBuffer {
    assert_eq!((width * height) as usize, alphas.len());
    let mut data = Vec::new();
    for y in 0..height {
        for x in 0..width {
            data.push(x as u8);
            data.push(y as u8);
            data.push(7);
            data.push(alphas[(y * width + x) as usize]);
        }
    }
    PixelBuffer { data, width, height }
}

#[test]
fn fit_wide_image_constrains_width() {
    let t = fit_dimensions(40, 20, 30);
    assert_eq!(t, FitTarget { width: Some(30), height: None });
}

#[test]
fn fit_tall_image_constrains_height() {
    let t = fit_dimensions(20, 40, 30);
    assert_eq!(t, FitTarget { width: None, height: Some(30) });
}

#[test]
fn fit_square_image_ties_to_height() {
    let t = fit_dimensions(30, 30, 30);
    assert_eq!(t, FitTarget { width: None, height: Some(30) });
}

#[test]
fn fit_zero_cap_means_no_constraint() {
    assert_eq!(fit_dimensions(40, 20, 0), FitTarget { width: None, height: None });
    assert_eq!(fit_dimensions(0, 0, 0), FitTarget { width: None, height: None });
}

#[test]
fn fit_small_image_keeps_its_own_dimension() {
    assert_eq!(fit_dimensions(10, 4, 30), FitTarget { width: Some(10), height: None });
    assert_eq!(fit_dimensions(4, 10, 30), FitTarget { width: None, height: Some(10) });
}

#[test]
fn bounding_box_of_transparent_image_is_none() {
    let pb = buffer_from_alphas(3, 2, &[0, 0, 0, 0, 0, 0]);
    assert!(alpha_bounding_box(&pb).is_none());
}

#[test]
fn bounding_box_covers_exactly_the_visible_pixels() {
    // visible pixels at (1, 0) and (2, 1) inside a 4 x 3 grid
    let pb = buffer_from_alphas(4, 3, &[0, 9, 0, 0, 0, 0, 1, 0, 0, 0, 0, 0]);
    let b = alpha_bounding_box(&pb).unwrap();
    assert_eq!((b.min_x, b.min_y, b.max_x, b.max_y), (1, 0, 2, 1));
}

#[test]
fn crop_of_transparent_image_is_zero_by_zero() {
    let pb = buffer_from_alphas(2, 2, &[0, 0, 0, 0]);
    let r = crop_transparent_pixels(&pb);
    assert_eq!(r.width, 0);
    assert_eq!(r.height, 0);
    assert!(r.data.is_empty());
}

#[test]
fn crop_keeps_a_single_visible_pixel() {
    let pb = buffer_from_alphas(3, 3, &[0, 0, 0, 0, 5, 0, 0, 0, 0]);
    let r = crop_transparent_pixels(&pb);
    assert_eq!(r.width, 1);
    assert_eq!(r.height, 1);
    assert_eq!(r.data, vec![1, 1, 7, 5]);
}

#[test]
fn crop_cuts_the_transparent_border() {
    // visible pixels at (1, 1) and (2, 2) inside 4 x 4
    let mut alphas = vec![0u8; 16];
    alphas[1 * 4 + 1] = 3;
    alphas[2 * 4 + 2] = 8;
    let pb = buffer_from_alphas(4, 4, &alphas);
    let r = crop_transparent_pixels(&pb);
    assert_eq!(r.width, 2);
    assert_eq!(r.height, 2);
    // rows of the source from (1, 1) to (2, 2)
    assert_eq!(
        r.data,
        vec![
            1, 1, 7, 3, 2, 1, 7, 0, // row y = 1: pixels (1,1) (2,1)
            1, 2, 7, 0, 2, 2, 7, 8, // row y = 2: pixels (1,2) (2,2)
        ]
    );
}

#[test]
fn crop_is_idempotent_on_a_concrete_image() {
    let mut alphas = vec![0u8; 20];
    alphas[4 * 1 + 1] = 1;
    alphas[4 * 3 + 2] = 200;
    let pb = buffer_from_alphas(4, 5, &alphas);
    let once = crop_transparent_pixels(&pb);
    let twice = crop_transparent_pixels(&once);
    assert_eq!(once.width, twice.width);
    assert_eq!(once.height, twice.height);
    assert_eq!(once.data, twice.data);
}

#[test]
fn crop_of_fully_visible_image_changes_nothing() {
    let pb = buffer_from_alphas(2, 3, &[1, 2, 3, 4, 5, 6]);
    let r = crop_transparent_pixels(&pb);
    assert_eq!(r.width, 2);
    assert_eq!(r.height, 3);
    assert_eq!(r.data, pb.data);
}

#[test]
fn crop_of_zero_sized_image_is_zero_by_zero() {
    let pb = PixelBuffer { data: vec![], width: 0, height: 0 };
    let r = crop_transparent_pixels(&pb);
    assert_eq!((r.width, r.height), (0, 0));
    let wide = PixelBuffer { data: vec![], width: 5, height: 0 };
    let r = crop_transparent_pixels(&wide);
    assert_eq!((r.width, r.height), (0, 0));
}
