use trainingsample::{
    batch_center_crop_image_arrays, batch_crop_image_arrays, batch_random_crop_image_arrays,
    center_crop_image_array, crop_image_array, random_crop_image_array, Image, ImageError,
};

fn image_from_fn(height: usize, width: usize, channels: usize, f: impl Fn(usize, usize, usize) -> u8) -> Image {
    let mut data = Vec::with_capacity(height * width * channels);
    for y in 0..height {
        for x in 0..width {
            for c in 0..channels {
                data.push(f(y, x, c));
            }
        }
    }
    Image::from_vec(height, width, channels, data).unwrap()
}

fn create_test_image() -> Image {
    image_from_fn(100, 100, 3, |y, x, c| ((x + y + c * 50) % 256) as u8)
}

#[test]
fn test_crop_image_array() {
    let img = create_test_image();
    let result = crop_image_array(&img, 10, 10, 50, 50).unwrap();
    assert_eq!(result.dim(), (50, 50, 3));

    // Check that cropped values match the source image
    assert_eq!(result.get(0, 0, 0), img.get(10, 10, 0));
    assert_eq!(result.get(25, 25, 1), img.get(35, 35, 1));
}

#[test]
fn test_crop_out_of_bounds() {
    let img = create_test_image();
    let result = crop_image_array(&img, 90, 90, 50, 50);
    assert!(result.is_err());
}

#[test]
fn test_center_crop_image_array() {
    let img = create_test_image();
    let result = center_crop_image_array(&img, 60, 60).unwrap();
    assert_eq!(result.dim(), (60, 60, 3));

    // Center crop should start at (20, 20) for 100x100 -> 60x60
    assert_eq!(result.get(0, 0, 0), img.get(20, 20, 0));
}

#[test]
fn test_random_crop_image_array() {
    let img = create_test_image();
    let result = random_crop_image_array(&img, 50, 50).unwrap();
    assert_eq!(result.dim(), (50, 50, 3));
}

#[test]
fn test_center_crop_larger_than_image() {
    let img = create_test_image();
    let result = center_crop_image_array(&img, 150, 150).unwrap();
    // Should return the source image size when target is larger
    assert_eq!(result.dim(), (100, 100, 3));
}

#[test]
fn test_crop_exact_size() {
    let img = create_test_image();
    let result = crop_image_array(&img, 0, 0, 100, 100).unwrap();
    assert_eq!(result.dim(), (100, 100, 3));

    // Should be identical to the source image
    for y in 0..100 {
        for x in 0..100 {
            for c in 0..3 {
                assert_eq!(result.get(y, x, c), img.get(y, x, c));
            }
        }
    }
}

#[test]
fn test_batch_crop_image_arrays() {
    let images = vec![create_test_image(), create_test_image()];
    let crop_boxes = vec![(10, 10, 50, 50), (20, 20, 40, 40)];

    let results = batch_crop_image_arrays(&images, &crop_boxes);
    assert_eq!(results.len(), 2);
    assert!(results[0].is_ok());
    assert!(results[1].is_ok());

    assert_eq!(results[0].as_ref().unwrap().dim(), (50, 50, 3));
    assert_eq!(results[1].as_ref().unwrap().dim(), (40, 40, 3));
}

#[test]
fn crop_error_names_the_cause() {
    let img = create_test_image();
    assert_eq!(crop_image_array(&img, 51, 0, 50, 10).unwrap_err(), ImageError::CropOutOfBounds);
    assert_eq!(crop_image_array(&img, 0, 51, 10, 50).unwrap_err(), ImageError::CropOutOfBounds);
    assert_eq!(crop_image_array(&img, usize::MAX, 0, 2, 1).unwrap_err(), ImageError::CropOutOfBounds);
    // A box that ends exactly on the edge fits.
    assert!(crop_image_array(&img, 50, 50, 50, 50).is_ok());
}

#[test]
fn crop_keeps_every_channel_and_sample() {
    let img = image_from_fn(4, 5, 4, |y, x, c| (y * 40 + x * 4 + c) as u8);
    let out = crop_image_array(&img, 1, 2, 3, 2).unwrap();
    assert_eq!(out.dim(), (2, 3, 4));
    let expected: Vec<u8> = vec![
        84, 85, 86, 87, 88, 89, 90, 91, 92, 93, 94, 95, // row 2, columns 1..4
        124, 125, 126, 127, 128, 129, 130, 131, 132, 133, 134, 135, // row 3
    ];
    assert_eq!(out.as_bytes(), &expected[..]);
}

#[test]
fn crop_of_crop_equals_single_crop() {
    let img = create_test_image();
    let first = crop_image_array(&img, 10, 20, 60, 50).unwrap();
    let twice = crop_image_array(&first, 5, 7, 30, 25).unwrap();
    let once = crop_image_array(&img, 15, 27, 30, 25).unwrap();
    assert_eq!(twice.as_bytes(), once.as_bytes());
    assert_eq!(twice.dim(), once.dim());
}

#[test]
fn empty_crop_is_allowed() {
    let img = create_test_image();
    let out = crop_image_array(&img, 100, 100, 0, 0).unwrap();
    assert_eq!(out.dim(), (0, 0, 3));
    assert!(out.as_bytes().is_empty());
}

#[test]
fn center_crop_of_odd_margin_rounds_down() {
    let img = image_from_fn(5, 7, 1, |y, x, _| (y * 10 + x) as u8);
    // Margins: (7 - 4) / 2 = 1 column, (5 - 2) / 2 = 1 row.
    let out = center_crop_image_array(&img, 4, 2).unwrap();
    assert_eq!(out.dim(), (2, 4, 1));
    assert_eq!(out.as_bytes(), &[11, 12, 13, 14, 21, 22, 23, 24][..]);
}

#[test]
fn center_crop_larger_along_one_side_keeps_that_side() {
    let img = create_test_image();
    let out = center_crop_image_array(&img, 150, 40).unwrap();
    assert_eq!(out.dim(), (40, 100, 3));
    assert_eq!(out.get(0, 0, 2), img.get(30, 0, 2));
}

#[test]
fn random_crop_is_a_window_of_the_image() {
    let img = image_from_fn(20, 30, 3, |y, x, c| ((y * 31 + x * 7 + c) % 251) as u8);
    for _ in 0..20 {
        let out = random_crop_image_array(&img, 12, 9).unwrap();
        assert_eq!(out.dim(), (9, 12, 3));
        let mut found = false;
        for oy in 0..=11 {
            for ox in 0..=18 {
                let window = crop_image_array(&img, ox, oy, 12, 9).unwrap();
                if window.as_bytes() == out.as_bytes() {
                    found = true;
                }
            }
        }
        assert!(found);
    }
}

#[test]
fn random_crop_larger_than_image_is_refused() {
    let img = create_test_image();
    assert_eq!(random_crop_image_array(&img, 101, 10).unwrap_err(), ImageError::CropLargerThanImage);
    assert_eq!(random_crop_image_array(&img, 10, 101).unwrap_err(), ImageError::CropLargerThanImage);
    let whole = random_crop_image_array(&img, 100, 100).unwrap();
    assert_eq!(whole.as_bytes(), img.as_bytes());
}

#[test]
fn batch_crops_pair_by_position_and_stop_at_shorter_list() {
    let images = vec![create_test_image(), create_test_image(), create_test_image()];
    let boxes = vec![(0, 0, 10, 10), (95, 0, 10, 10)];
    let results = batch_crop_image_arrays(&images, &boxes);
    assert_eq!(results.len(), 2);
    assert!(results[0].is_ok());
    assert_eq!(results[1].as_ref().unwrap_err(), &ImageError::CropOutOfBounds);

    let centred = batch_center_crop_image_arrays(&images, &[(60, 60)]);
    assert_eq!(centred.len(), 1);
    assert_eq!(centred[0].as_ref().unwrap().get(0, 0, 0), images[0].get(20, 20, 0));

    let random = batch_random_crop_image_arrays(&images, &[(50, 50), (200, 5), (100, 100)]);
    assert_eq!(random.len(), 3);
    assert_eq!(random[0].as_ref().unwrap().dim(), (50, 50, 3));
    assert_eq!(random[1].as_ref().unwrap_err(), &ImageError::CropLargerThanImage);
    assert_eq!(random[2].as_ref().unwrap().as_bytes(), images[2].as_bytes());
}

#[test]
fn from_vec_checks_the_buffer_length() {
    assert_eq!(Image::from_vec(2, 3, 3, vec![0; 17]).unwrap_err(), ImageError::ShapeMismatch);
    assert!(Image::from_vec(2, 3, 3, vec![0; 18]).is_ok());
    assert_eq!(Image::from_vec(usize::MAX, 2, 1, vec![]).unwrap_err(), ImageError::ShapeMismatch);
    assert!(Image::from_vec(usize::MAX, 2, 0, vec![]).is_ok());
}
