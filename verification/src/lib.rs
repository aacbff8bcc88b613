//! Batch preprocessing of raw images and videos for machine-learning pipelines:
//! cropping, resizing and luminance, over images held as row-major byte buffers.
pub mod batch;
pub mod cropping;
pub mod error;
pub mod luminance;
pub mod raster;
pub mod resize;
pub mod scheduling;
pub mod weight_cache;

pub use crate::error::ImageError;
pub use crate::raster::{Image, ImageModel, Video, VideoModel};
pub use crate::cropping::{
    center_crop_image_array, crop_image_array, random_crop_image_array, random_crop_image_array_with,
};
pub use crate::luminance::{calculate_luminance_array, calculate_luminance_array_sequential, Luminance};
pub use crate::resize::{image_from_resampled, resize_image_array, resize_video_array};
pub use crate::batch::{
    batch_calculate_luminance_arrays, batch_center_crop_image_arrays, batch_crop_image_arrays,
    batch_random_crop_image_arrays, batch_random_crop_image_arrays_with, batch_resize_image_arrays, batch_resize_video_arrays,
};
pub use crate::scheduling::{
    calculate_optimal_block_height, choose_lanczos3_kernel, clamp_batch_size, resize_worker_threads,
    worker_thread_count, Lanczos3Kernel,
};
pub use crate::weight_cache::{WeightCache, WeightKey};
