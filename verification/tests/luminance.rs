use trainingsample::{
    batch_calculate_luminance_arrays, calculate_luminance_array, calculate_luminance_array_sequential,
    Image, Luminance,
};

fn image_from_fn(height: usize, width: usize, channels: usize, f: impl Fn(usize, usize, usize) -> u8) -> Image {
    let mut data = Vec::with_capacity(height * width * channels);
    for y in 0..height {
        for x in 0..width {
            for c in 0..channels {
                data.push(f(y, x, c));
            }
        }
    }
    Image::from_vec(height, width, channels, data).unwrap()
}

fn create_test_image() -> Image {
    image_from_fn(100, 100, 3, |y, x, c| ((x + y + c * 50) % 256) as u8)
}

fn as_f64(l: Luminance) -> f64 {
    l.numerator as f64 / l.denominator as f64
}

#[test]
fn test_calculate_luminance_array() {
    let img = create_test_image();
    let luminance = as_f64(calculate_luminance_array(&img));

    // Luminance should be a reasonable value between 0 and 255
    assert!(luminance >= 0.0);
    assert!(luminance <= 255.0);
}

#[test]
fn test_luminance_pure_white() {
    let img = image_from_fn(10, 10, 3, |_, _, _| 255);
    let luminance = as_f64(calculate_luminance_array(&img));

    // Pure white should have high luminance
    assert!((luminance - 255.0).abs() < 1.0);
}

#[test]
fn test_luminance_pure_black() {
    let img = image_from_fn(10, 10, 3, |_, _, _| 0);
    let luminance = as_f64(calculate_luminance_array(&img));

    // Pure black should have zero luminance
    assert!((luminance - 0.0).abs() < 1.0);
}

#[test]
fn test_single_pixel_image() {
    let img = image_from_fn(1, 1, 3, |_, _, _| 128);
    let luminance = as_f64(calculate_luminance_array(&img));
    assert!((luminance - 128.0).abs() < 1.0);
}

#[test]
fn test_batch_calculate_luminance_arrays() {
    let images = vec![create_test_image(), create_test_image()];
    let results = batch_calculate_luminance_arrays(&images);

    assert_eq!(results.len(), 2);
    for luminance in results {
        assert!((0.0..=255.0).contains(&as_f64(luminance)));
    }
}

#[test]
fn luminance_weights_the_three_colour_channels() {
    // One pixel (R, G, B) = (10, 20, 30): 0.299 * 10 + 0.587 * 20 + 0.114 * 30 = 18.15.
    let img = Image::from_vec(1, 1, 3, vec![10, 20, 30]).unwrap();
    let l = calculate_luminance_array(&img);
    assert_eq!(l, Luminance { numerator: 2990 + 11740 + 3420, denominator: 1000 });
    assert!((as_f64(l) - 18.15).abs() < 1e-9);
}

#[test]
fn luminance_is_the_mean_over_pixels() {
    // Two pixels: pure red and pure blue.
    let img = Image::from_vec(1, 2, 3, vec![255, 0, 0, 0, 0, 255]).unwrap();
    let l = calculate_luminance_array_sequential(&img);
    assert_eq!(l.numerator, 299 * 255 + 114 * 255);
    assert_eq!(l.denominator, 2000);
}

#[test]
fn alpha_channel_is_not_weighted() {
    let img = Image::from_vec(1, 1, 4, vec![10, 20, 30, 255]).unwrap();
    let l = calculate_luminance_array(&img);
    assert_eq!(l.numerator, 18150);
    assert_eq!(l.denominator, 1000);
}

#[test]
fn fewer_than_three_channels_give_zero() {
    let img = Image::from_vec(2, 2, 1, vec![200, 200, 200, 200]).unwrap();
    let l = calculate_luminance_array(&img);
    assert_eq!(l, Luminance { numerator: 0, denominator: 1 });
    assert_eq!(as_f64(l), 0.0);
}

#[test]
fn empty_image_has_no_mean() {
    let img = Image::from_vec(0, 4, 3, vec![]).unwrap();
    let l = calculate_luminance_array(&img);
    assert_eq!(l, Luminance { numerator: 0, denominator: 0 });
    assert!(as_f64(l).is_nan());
}

#[test]
fn uniform_images_have_their_sample_value() {
    for v in [0u8, 1, 77, 128, 254, 255] {
        let img = image_from_fn(7, 9, 3, |_, _, _| v);
        let l = calculate_luminance_array(&img);
        assert_eq!(l.numerator, v as u128 * l.denominator);
    }
}

#[test]
fn batch_luminance_matches_single_image() {
    let a = create_test_image();
    let b = image_from_fn(3, 3, 3, |y, x, c| (y + x + c) as u8);
    let results = batch_calculate_luminance_arrays(&[a.duplicate(), b.duplicate()]);
    assert_eq!(results[0], calculate_luminance_array(&a));
    assert_eq!(results[1], calculate_luminance_array(&b));
}
