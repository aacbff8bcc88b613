//! Batch versions of the image operations: the `i`-th answer is the single-image operation on
//! the `i`-th input. Where two lists are paired, the shorter one bounds the batch.
use vstd::prelude::*;

use crate::cropping::{
    center_crop_image_array, center_cropped, crop_image_array, crop_outcome, cropped, is_random_crop,
    random_crop_image_array, random_crop_image_array_with,
};
use crate::error::ImageError;
use crate::luminance::{calculate_luminance_array_sequential, luminance_fraction, Luminance};
use crate::raster::{result_model, Image, Video, VideoModel};
use crate::resize::{
    resize_accepts, resize_fits_memory, resize_image_array, resize_outcome, resize_video_array,
    video_resize_accepts, video_resize_outcome, video_result_model,
};

verus! {

/// Number of pairs that two lists of these lengths form.
pub open spec fn paired_len(a: nat, b: nat) -> nat {
    if a <= b {
        a
    } else {
        b
    }
}

/// Crops every image with the box `(x, y, width, height)` at the same position.
pub fn batch_crop_image_arrays(images: &[Image], crop_boxes: &[(usize, usize, usize, usize)]) -> (r: Vec<
    Result<Image, ImageError>,
>)
    ensures
        r@.len() == paired_len(images@.len(), crop_boxes@.len()),
        forall|i: int|
            0 <= i < r@.len() ==> result_model(#[trigger] r@[i]) == crop_outcome(
                images@[i]@,
                crop_boxes@[i].0 as int,
                crop_boxes@[i].1 as int,
                crop_boxes@[i].2 as nat,
                crop_boxes@[i].3 as nat,
            ),
{
    let n = if images.len() <= crop_boxes.len() {
        images.len()
    } else {
        crop_boxes.len()
    };
    let mut out: Vec<Result<Image, ImageError>> = Vec::new();
    for i in 0..n
        invariant
            n == paired_len(images@.len(), crop_boxes@.len()),
            out@.len() == i,
            forall|j: int|
                0 <= j < i ==> result_model(#[trigger] out@[j]) == crop_outcome(
                    images@[j]@,
                    crop_boxes@[j].0 as int,
                    crop_boxes@[j].1 as int,
                    crop_boxes@[j].2 as nat,
                    crop_boxes@[j].3 as nat,
                ),
    {
        let (x, y, width, height) = crop_boxes[i];
        out.push(crop_image_array(&images[i], x, y, width, height));
    }
    out
}

/// Centre-crops every image to the target size `(width, height)` at the same position.
pub fn batch_center_crop_image_arrays(images: &[Image], target_sizes: &[(usize, usize)]) -> (r: Vec<
    Result<Image, ImageError>,
>)
    ensures
        r@.len() == paired_len(images@.len(), target_sizes@.len()),
        forall|i: int|
            0 <= i < r@.len() ==> result_model(#[trigger] r@[i]) == Ok::<_, ImageError>(
                center_cropped(images@[i]@, target_sizes@[i].0 as nat, target_sizes@[i].1 as nat),
            ),
{
    let n = if images.len() <= target_sizes.len() {
        images.len()
    } else {
        target_sizes.len()
    };
    let mut out: Vec<Result<Image, ImageError>> = Vec::new();
    for i in 0..n
        invariant
            n == paired_len(images@.len(), target_sizes@.len()),
            out@.len() == i,
            forall|j: int|
                0 <= j < i ==> result_model(#[trigger] out@[j]) == Ok::<_, ImageError>(
                    center_cropped(images@[j]@, target_sizes@[j].0 as nat, target_sizes@[j].1 as nat),
                ),
    {
        let (width, height) = target_sizes[i];
        out.push(center_crop_image_array(&images[i], width, height));
    }
    out
}

/// Crops every image to the target size `(width, height)` at the same position, each at the
/// offsets that `draw` returns for it: `draw(W - w)` for the column, then `draw(H - h)` for the
/// row, image after image.
pub fn batch_random_crop_image_arrays_with<F: Fn(usize) -> usize>(
    images: &[Image],
    target_sizes: &[(usize, usize)],
    draw: F,
) -> (r: Vec<Result<Image, ImageError>>)
    requires
        forall|max: usize| #[trigger] call_requires(draw, (max,)),
        forall|max: usize, v: usize| #[trigger] call_ensures(draw, (max,), v) ==> v <= max,
    ensures
        r@.len() == paired_len(images@.len(), target_sizes@.len()),
        forall|i: int|
            0 <= i < r@.len() ==> {
                &&& (#[trigger] r@[i] is Ok <==> (target_sizes@[i].0 <= images@[i]@.width
                    && target_sizes@[i].1 <= images@[i]@.height))
                &&& r@[i] matches Ok(out) ==> exists|x: usize, y: usize|
                    call_ensures(draw, ((images@[i]@.width - target_sizes@[i].0) as usize,), x)
                        && call_ensures(draw, ((images@[i]@.height - target_sizes@[i].1) as usize,), y)
                        && out@ == #[trigger] cropped(
                        images@[i]@,
                        x as int,
                        y as int,
                        target_sizes@[i].0 as nat,
                        target_sizes@[i].1 as nat,
                    )
                &&& r@[i] matches Err(e) ==> e == ImageError::CropLargerThanImage
            },
{
    let n = if images.len() <= target_sizes.len() {
        images.len()
    } else {
        target_sizes.len()
    };
    let mut out: Vec<Result<Image, ImageError>> = Vec::new();
    for i in 0..n
        invariant
            n == paired_len(images@.len(), target_sizes@.len()),
            forall|max: usize| #[trigger] call_requires(draw, (max,)),
            forall|max: usize, v: usize| #[trigger] call_ensures(draw, (max,), v) ==> v <= max,
            out@.len() == i,
            forall|j: int|
                0 <= j < i ==> {
                    &&& (#[trigger] out@[j] is Ok <==> (target_sizes@[j].0 <= images@[j]@.width
                        && target_sizes@[j].1 <= images@[j]@.height))
                    &&& out@[j] matches Ok(o) ==> exists|x: usize, y: usize|
                        call_ensures(draw, ((images@[j]@.width - target_sizes@[j].0) as usize,), x)
                            && call_ensures(
                            draw,
                            ((images@[j]@.height - target_sizes@[j].1) as usize,),
                            y,
                        ) && o@ == #[trigger] cropped(
                            images@[j]@,
                            x as int,
                            y as int,
                            target_sizes@[j].0 as nat,
                            target_sizes@[j].1 as nat,
                        )
                    &&& out@[j] matches Err(e) ==> e == ImageError::CropLargerThanImage
                },
    {
        let (width, height) = target_sizes[i];
        out.push(random_crop_image_array_with(&images[i], width, height, &draw));
    }
    out
}

/// Crops every image to the target size `(width, height)` at the same position, each at its
/// own random offset.
pub fn batch_random_crop_image_arrays(images: &[Image], target_sizes: &[(usize, usize)]) -> (r: Vec<
    Result<Image, ImageError>,
>)
    ensures
        r@.len() == paired_len(images@.len(), target_sizes@.len()),
        forall|i: int|
            0 <= i < r@.len() ==> {
                &&& (#[trigger] r@[i] is Ok <==> (target_sizes@[i].0 <= images@[i]@.width
                    && target_sizes@[i].1 <= images@[i]@.height))
                &&& r@[i] matches Ok(out) ==> is_random_crop(
                    images@[i]@,
                    target_sizes@[i].0 as nat,
                    target_sizes@[i].1 as nat,
                    out@,
                )
                &&& r@[i] matches Err(e) ==> e == ImageError::CropLargerThanImage
            },
{
    let n = if images.len() <= target_sizes.len() {
        images.len()
    } else {
        target_sizes.len()
    };
    let mut out: Vec<Result<Image, ImageError>> = Vec::new();
    for i in 0..n
        invariant
            n == paired_len(images@.len(), target_sizes@.len()),
            out@.len() == i,
            forall|j: int|
                0 <= j < i ==> {
                    &&& (#[trigger] out@[j] is Ok <==> (target_sizes@[j].0 <= images@[j]@.width
                        && target_sizes@[j].1 <= images@[j]@.height))
                    &&& out@[j] matches Ok(o) ==> is_random_crop(
                        images@[j]@,
                        target_sizes@[j].0 as nat,
                        target_sizes@[j].1 as nat,
                        o@,
                    )
                    &&& out@[j] matches Err(e) ==> e == ImageError::CropLargerThanImage
                },
    {
        let (width, height) = target_sizes[i];
        out.push(random_crop_image_array(&images[i], width, height));
    }
    out
}

/// Mean luminance of every image, each summed sequentially.
pub fn batch_calculate_luminance_arrays(images: &[Image]) -> (r: Vec<Luminance>)
    ensures
        r@.len() == images@.len(),
        forall|i: int|
            0 <= i < r@.len() ==> {
                &&& (#[trigger] r@[i]).numerator == luminance_fraction(images@[i]@).0
                &&& r@[i].denominator == luminance_fraction(images@[i]@).1
            },
{
    let n = images.len();
    let mut out: Vec<Luminance> = Vec::new();
    for i in 0..n
        invariant
            n == images@.len(),
            out@.len() == i,
            forall|j: int|
                0 <= j < i ==> {
                    &&& (#[trigger] out@[j]).numerator == luminance_fraction(images@[j]@).0
                    &&& out@[j].denominator == luminance_fraction(images@[j]@).1
                },
    {
        out.push(calculate_luminance_array_sequential(&images[i]));
    }
    out
}

/// Resizes every image to its target size `(width, height)` with the Lanczos3 filter.
pub fn batch_resize_image_arrays(images: &[Image], target_sizes: &[(u32, u32)]) -> (r: Vec<
    Result<Image, ImageError>,
>)
    requires
        forall|i: int|
            0 <= i < paired_len(images@.len(), target_sizes@.len()) ==> (resize_accepts(
                #[trigger] images@[i]@,
                target_sizes@[i].0 as nat,
                target_sizes@[i].1 as nat,
            ) ==> resize_fits_memory(images@[i]@, target_sizes@[i].0 as nat, target_sizes@[i].1 as nat)),
    ensures
        r@.len() == paired_len(images@.len(), target_sizes@.len()),
        forall|i: int|
            0 <= i < r@.len() ==> result_model(#[trigger] r@[i]) == resize_outcome(
                images@[i]@,
                target_sizes@[i].0 as nat,
                target_sizes@[i].1 as nat,
            ),
{
    let n = if images.len() <= target_sizes.len() {
        images.len()
    } else {
        target_sizes.len()
    };
    let mut out: Vec<Result<Image, ImageError>> = Vec::new();
    for i in 0..n
        invariant
            n == paired_len(images@.len(), target_sizes@.len()),
            forall|k: int|
                0 <= k < paired_len(images@.len(), target_sizes@.len()) ==> (resize_accepts(
                    #[trigger] images@[k]@,
                    target_sizes@[k].0 as nat,
                    target_sizes@[k].1 as nat,
                ) ==> resize_fits_memory(
                    images@[k]@,
                    target_sizes@[k].0 as nat,
                    target_sizes@[k].1 as nat,
                )),
            out@.len() == i,
            forall|j: int|
                0 <= j < i ==> result_model(#[trigger] out@[j]) == resize_outcome(
                    images@[j]@,
                    target_sizes@[j].0 as nat,
                    target_sizes@[j].1 as nat,
                ),
    {
        let (width, height) = target_sizes[i];
        out.push(resize_image_array(&images[i], width, height));
    }
    out
}

/// What `batch_resize_video_arrays` answers for one video: a video without frames that
/// passes the channel and target checks is refused, any other goes to `resize_video_array`.
pub open spec fn batch_video_outcome(v: VideoModel, target_width: nat, target_height: nat) -> Result<
    VideoModel,
    ImageError,
> {
    if v.channels == 3 && target_width > 0 && target_height > 0 && v.frames.len() == 0 {
        Err(ImageError::EmptyVideo)
    } else {
        video_resize_outcome(v, target_width, target_height)
    }
}

/// Resizes every video to its target size `(width, height)` with the Lanczos3 filter.
pub fn batch_resize_video_arrays(videos: &[Video], target_sizes: &[(u32, u32)]) -> (r: Vec<
    Result<Video, ImageError>,
>)
    requires
        forall|i: int|
            0 <= i < paired_len(videos@.len(), target_sizes@.len()) ==> (video_resize_accepts(
                #[trigger] videos@[i]@,
                target_sizes@[i].0 as nat,
                target_sizes@[i].1 as nat,
            ) ==> 3 * target_sizes@[i].0 * target_sizes@[i].1 <= isize::MAX && 16 * videos@[i]@.width
                * target_sizes@[i].1 <= isize::MAX),
    ensures
        r@.len() == paired_len(videos@.len(), target_sizes@.len()),
        forall|i: int|
            0 <= i < r@.len() ==> video_result_model(#[trigger] r@[i]) == batch_video_outcome(
                videos@[i]@,
                target_sizes@[i].0 as nat,
                target_sizes@[i].1 as nat,
            ),
{
    let n = if videos.len() <= target_sizes.len() {
        videos.len()
    } else {
        target_sizes.len()
    };
    let mut out: Vec<Result<Video, ImageError>> = Vec::new();
    for i in 0..n
        invariant
            n == paired_len(videos@.len(), target_sizes@.len()),
            forall|k: int|
                0 <= k < paired_len(videos@.len(), target_sizes@.len()) ==> (video_resize_accepts(
                    #[trigger] videos@[k]@,
                    target_sizes@[k].0 as nat,
                    target_sizes@[k].1 as nat,
                ) ==> 3 * target_sizes@[k].0 * target_sizes@[k].1 <= isize::MAX && 16
                    * videos@[k]@.width * target_sizes@[k].1 <= isize::MAX),
            out@.len() == i,
            forall|j: int|
                0 <= j < i ==> video_result_model(#[trigger] out@[j]) == batch_video_outcome(
                    videos@[j]@,
                    target_sizes@[j].0 as nat,
                    target_sizes@[j].1 as nat,
                ),
    {
        let (width, height) = target_sizes[i];
        let video = &videos[i];
        let (frames, _h, _w, channels) = video.dim();
        if channels == 3 && width > 0 && height > 0 && frames == 0 {
            out.push(Err(ImageError::EmptyVideo));
        } else {
            out.push(resize_video_array(video, width, height));
        }
    }
    out
}

} // verus!
