use trainingsample::{
    batch_calculate_luminance_arrays, batch_resize_image_arrays, batch_resize_video_arrays,
    calculate_luminance_array, center_crop_image_array, crop_image_array, image_from_resampled,
    resize_image_array, resize_video_array, Image, ImageError, Luminance, Video,
};

fn image_from_fn(height: usize, width: usize, channels: usize, f: impl Fn(usize, usize, usize) -> u8) -> Image {
    let mut data = Vec::with_capacity(height * width * channels);
    for y in 0..height {
        for x in 0..width {
            for c in 0..channels {
                data.push(f(y, x, c));
            }
        }
    }
    Image::from_vec(height, width, channels, data).unwrap()
}

fn create_test_image() -> Image {
    image_from_fn(100, 100, 3, |y, x, c| ((x + y + c * 50) % 256) as u8)
}

fn create_large_test_image() -> Image {
    image_from_fn(256, 256, 3, |y, x, c| ((x + y + c * 85) % 256) as u8)
}

fn create_test_video() -> Video {
    let frames = (0..5)
        .map(|f| image_from_fn(50, 50, 3, |y, x, c| ((x + y + c * 50 + f * 10) % 256) as u8))
        .collect();
    Video::from_frames(50, 50, 3, frames).unwrap()
}

fn as_f64(l: Luminance) -> f64 {
    l.numerator as f64 / l.denominator as f64
}

#[test]
fn test_resize_image_array() {
    let img = create_test_image();
    let result = resize_image_array(&img, 64, 64).unwrap();
    assert_eq!(result.dim(), (64, 64, 3));
}

#[test]
fn test_resize_video_array() {
    let video = create_test_video();
    let result = resize_video_array(&video, 32, 32).unwrap();
    assert_eq!(result.dim(), (5, 32, 32, 3));
}

#[test]
fn test_resize_upscale() {
    let img = image_from_fn(10, 10, 3, |y, x, c| (x + y + c) as u8);
    let result = resize_image_array(&img, 20, 20).unwrap();
    assert_eq!(result.dim(), (20, 20, 3));
}

#[test]
fn test_resize_downscale() {
    let img = create_test_image();
    let result = resize_image_array(&img, 25, 25).unwrap();
    assert_eq!(result.dim(), (25, 25, 3));
}

#[test]
fn test_resize_same_size() {
    let img = create_test_image();
    let result = resize_image_array(&img, 100, 100).unwrap();
    assert_eq!(result.dim(), (100, 100, 3));
}

#[test]
fn test_batch_resize_image_arrays() {
    let images = vec![create_test_image(), create_test_image()];
    let target_sizes = vec![(64, 64), (32, 32)];

    let results = batch_resize_image_arrays(&images, &target_sizes);
    assert_eq!(results.len(), 2);
    assert!(results[0].is_ok());
    assert!(results[1].is_ok());

    assert_eq!(results[0].as_ref().unwrap().dim(), (64, 64, 3));
    assert_eq!(results[1].as_ref().unwrap().dim(), (32, 32, 3));
}

#[test]
fn test_batch_resize_video_arrays() {
    let videos = vec![create_test_video()];
    let target_sizes = vec![(25, 25)];

    let results = batch_resize_video_arrays(&videos, &target_sizes);
    assert_eq!(results.len(), 1);
    assert!(results[0].is_ok());
    assert_eq!(results[0].as_ref().unwrap().dim(), (5, 25, 25, 3));
}

#[test]
fn test_crop_then_resize_pipeline() {
    let img = create_test_image();

    // First crop
    let cropped = crop_image_array(&img, 20, 20, 60, 60).unwrap();
    assert_eq!(cropped.dim(), (60, 60, 3));

    // Then resize
    let resized = resize_image_array(&cropped, 32, 32).unwrap();
    assert_eq!(resized.dim(), (32, 32, 3));
}

#[test]
fn test_full_processing_pipeline() {
    let img = create_test_image();

    // Center crop
    let cropped = center_crop_image_array(&img, 80, 80).unwrap();

    // Resize
    let resized = resize_image_array(&cropped, 64, 64).unwrap();

    // Calculate luminance
    let luminance = as_f64(calculate_luminance_array(&resized));

    assert_eq!(resized.dim(), (64, 64, 3));
    assert!((0.0..=255.0).contains(&luminance));
}

#[test]
fn test_x86_integration_with_batch_functions() {
    let images = vec![create_test_image(), create_large_test_image()];

    // Test batch resize
    let target_sizes = [(64u32, 64u32); 2];
    let batch_resize_result = batch_resize_image_arrays(&images, &target_sizes);
    assert_eq!(batch_resize_result.len(), 2);

    for result in batch_resize_result {
        assert!(result.is_ok(), "Batch resize should succeed");
        let resized = result.unwrap();
        assert_eq!(resized.dim(), (64, 64, 3));
    }

    // Test batch luminance
    let batch_luminance_result = batch_calculate_luminance_arrays(&images);
    assert_eq!(batch_luminance_result.len(), 2);

    for luminance in batch_luminance_result {
        let luminance = as_f64(luminance);
        assert!(luminance > 0.0 && luminance < 255.0, "Luminance should be valid");
    }
}

#[test]
fn resize_to_same_size_copies_the_image() {
    let img = create_test_image();
    let result = resize_image_array(&img, 100, 100).unwrap();
    assert_eq!(result.as_bytes(), img.as_bytes());
}

#[test]
fn resize_of_uniform_image_stays_uniform() {
    let img = image_from_fn(40, 30, 3, |_, _, _| 90);
    let result = resize_image_array(&img, 17, 23).unwrap();
    assert_eq!(result.dim(), (23, 17, 3));
    assert!(result.as_bytes().iter().all(|&v| v == 90));
}

#[test]
fn resize_of_empty_image_is_black() {
    let img = Image::from_vec(0, 7, 3, vec![]).unwrap();
    let result = resize_image_array(&img, 4, 3).unwrap();
    assert_eq!(result.dim(), (3, 4, 3));
    assert!(result.as_bytes().iter().all(|&v| v == 0));
}

#[test]
fn resize_refusals_come_in_order() {
    let gray = image_from_fn(4, 4, 1, |_, _, _| 1);
    assert_eq!(resize_image_array(&gray, 0, 2).unwrap_err(), ImageError::UnsupportedChannels);
    let img = create_test_image();
    assert_eq!(resize_image_array(&img, 0, 2).unwrap_err(), ImageError::ZeroTargetSize);
    assert_eq!(resize_image_array(&img, 2, 0).unwrap_err(), ImageError::ZeroTargetSize);
}

#[test]
fn resampled_bytes_are_shaped_into_an_image() {
    let img = image_from_resampled(vec![1, 2, 3, 4, 5, 6], 2, 1).unwrap();
    assert_eq!(img.dim(), (1, 2, 3));
    assert_eq!(img.get(0, 1, 0), 4);
    assert_eq!(image_from_resampled(vec![1, 2, 3, 4, 5], 2, 1).unwrap_err(), ImageError::ReshapeFailed);
}

#[test]
fn video_frames_are_resized_one_by_one() {
    let video = create_test_video();
    let result = resize_video_array(&video, 20, 15).unwrap();
    for f in 0..5 {
        let single = resize_image_array(video.frame(f), 20, 15).unwrap();
        assert_eq!(result.frame(f).as_bytes(), single.as_bytes());
    }
}

#[test]
fn video_refusals() {
    let gray = Video::from_frames(2, 2, 1, vec![image_from_fn(2, 2, 1, |_, _, _| 0)]).unwrap();
    assert_eq!(resize_video_array(&gray, 3, 3).unwrap_err(), ImageError::UnsupportedChannels);
    let video = create_test_video();
    assert_eq!(resize_video_array(&video, 3, 0).unwrap_err(), ImageError::ZeroTargetSize);

    let empty = Video::from_frames(8, 8, 3, vec![]).unwrap();
    let results = batch_resize_video_arrays(&[empty, create_test_video()], &[(4, 4), (4, 0)]);
    assert_eq!(results.len(), 2);
    assert_eq!(results[0].as_ref().unwrap_err(), &ImageError::EmptyVideo);
    assert_eq!(results[1].as_ref().unwrap_err(), &ImageError::ZeroTargetSize);
}

#[test]
fn frames_of_another_shape_are_refused() {
    let frames = vec![image_from_fn(2, 2, 3, |_, _, _| 0), image_from_fn(2, 3, 3, |_, _, _| 0)];
    assert_eq!(Video::from_frames(2, 2, 3, frames).unwrap_err(), ImageError::FrameShapeMismatch);
}
