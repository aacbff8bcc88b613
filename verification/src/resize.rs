//! Lanczos3 resizing of RGB images and videos through the `image` crate's resampler.
use vstd::prelude::*;

use crate::error::ImageError;
use crate::raster::{result_model, Image, ImageModel, Video, VideoModel};

verus! {

/// The bytes that the `image` crate's Lanczos3 resampler (`DynamicImage::resize_exact` with
/// `FilterType::Lanczos3`) produces from an RGB buffer of `width x height` pixels when asked
/// for `target_width x target_height` pixels.
pub uninterp spec fn lanczos3_resampled(
    data: Seq<u8>,
    width: nat,
    height: nat,
    target_width: nat,
    target_height: nat,
) -> Seq<u8>;

/// Resamples an RGB buffer with the `image` crate.
///
/// Calls `image::ImageBuffer::<Rgb<u8>, Vec<u8>>::from_vec`, which gives `None` exactly when
/// the buffer holds fewer than `3 * width * height` bytes (an overflowing product counts as
/// more than any buffer), then `DynamicImage::resize_exact(.., FilterType::Lanczos3)`,
/// `to_rgb8` and `into_raw`. The contract claims what the crate's source shows: the output
/// is a `target_width x target_height` RGB buffer; equal extents copy the pixels; an empty
/// source gives a zero-filled buffer. The resampled values themselves are only named. The
/// requirements exclude the sizes for which the crate's allocations panic.
#[verifier::external_body]
fn lanczos3_resample_rgb(
    data: Vec<u8>,
    width: u32,
    height: u32,
    target_width: u32,
    target_height: u32,
) -> (r: Option<Vec<u8>>)
    requires
        3 * target_width * target_height <= isize::MAX,
        16 * width * target_height <= isize::MAX,
    ensures
        r is Some <==> 3 * width * height <= data@.len(),
        r matches Some(out) ==> {
            &&& out@ == lanczos3_resampled(
                data@,
                width as nat,
                height as nat,
                target_width as nat,
                target_height as nat,
            )
            &&& out@.len() == 3 * target_width * target_height
            &&& (width == target_width && height == target_height) ==> out@ == data@.subrange(
                0,
                3 * width * height,
            )
            &&& (width == 0 || height == 0) ==> forall|i: int|
                0 <= i < out@.len() ==> #[trigger] out@[i] == 0
        },
{
    match image::ImageBuffer::<image::Rgb<u8>, Vec<u8>>::from_vec(width, height, data) {
        Some(buffer) => Some(
            image::DynamicImage::ImageRgb8(buffer).resize_exact(
                target_width,
                target_height,
                image::imageops::FilterType::Lanczos3,
            ).to_rgb8().into_raw(),
        ),
        None => None,
    }
}

/// The resize request is one that `resize_image_array` carries out: three channels, a
/// non-zero target, and source sides that the resampler can represent.
pub open spec fn resize_accepts(m: ImageModel, target_width: nat, target_height: nat) -> bool {
    &&& m.channels == 3
    &&& target_width > 0
    &&& target_height > 0
    &&& m.width <= u32::MAX
    &&& m.height <= u32::MAX
}

/// The resampler's buffers for this request fit in memory: the RGB output and the
/// floating-point intermediate of `width x target_height` RGBA pixels.
pub open spec fn resize_fits_memory(m: ImageModel, target_width: nat, target_height: nat) -> bool {
    &&& 3 * target_width * target_height <= isize::MAX
    &&& 16 * m.width * target_height <= isize::MAX
}

/// The image that a Lanczos3 resize of `m` produces.
pub open spec fn resized(m: ImageModel, target_width: nat, target_height: nat) -> ImageModel {
    ImageModel {
        height: target_height,
        width: target_width,
        channels: 3,
        data: lanczos3_resampled(m.data, m.width, m.height, target_width, target_height),
    }
}

/// What `resize_image_array` answers: the first refused condition, in the order checked,
/// or the resized image.
pub open spec fn resize_outcome(m: ImageModel, target_width: nat, target_height: nat) -> Result<
    ImageModel,
    ImageError,
> {
    if m.channels != 3 {
        Err(ImageError::UnsupportedChannels)
    } else if target_width == 0 || target_height == 0 {
        Err(ImageError::ZeroTargetSize)
    } else if m.width > u32::MAX || m.height > u32::MAX {
        Err(ImageError::BufferCreation)
    } else {
        Ok(resized(m, target_width, target_height))
    }
}

/// Shapes resampled RGB bytes into a `target_height x target_width x 3` image; refuses
/// bytes of any other count.
pub fn image_from_resampled(resampled: Vec<u8>, target_width: u32, target_height: u32) -> (r: Result<
    Image,
    ImageError,
>)
    ensures
        r is Ok <==> resampled@.len() == 3 * target_width * target_height,
        r matches Ok(img) ==> img@ == (ImageModel {
            height: target_height as nat,
            width: target_width as nat,
            channels: 3,
            data: resampled@,
        }),
        r matches Ok(img) ==> img@.wf(),
        r matches Err(e) ==> e == ImageError::ReshapeFailed,
{
    let h = target_height as usize;
    let w = target_width as usize;
    proof {
        assert(h * w * 3 == 3 * target_width * target_height) by (nonlinear_arith)
            requires
                h == target_height,
                w == target_width,
        ;
    }
    match Image::from_vec(h, w, 3, resampled) {
        Ok(img) => Ok(img),
        Err(_) => Err(ImageError::ReshapeFailed),
    }
}

/// Resizes an RGB image to `target_width x target_height` with the Lanczos3 filter.
///
/// Refuses, in this order: a channel count other than three, a zero target side, a source
/// side above `u32::MAX`.
pub fn resize_image_array(image: &Image, target_width: u32, target_height: u32) -> (r: Result<
    Image,
    ImageError,
>)
    requires
        resize_accepts(image@, target_width as nat, target_height as nat) ==> resize_fits_memory(
            image@,
            target_width as nat,
            target_height as nat,
        ),
    ensures
        result_model(r) == resize_outcome(image@, target_width as nat, target_height as nat),
        r is Ok <==> resize_accepts(image@, target_width as nat, target_height as nat),
        r matches Ok(out) ==> out@.wf(),
        r matches Ok(out) ==> (image@.width == target_width && image@.height == target_height
            ==> out@ == image@),
        r matches Ok(out) ==> ((image@.width == 0 || image@.height == 0) ==> out@.uniform(0)),
{
    let (height, width, channels) = image.dim();
    if channels != 3 {
        return Err(ImageError::UnsupportedChannels);
    }
    if target_width == 0 || target_height == 0 {
        return Err(ImageError::ZeroTargetSize);
    }
    if width > u32::MAX as usize || height > u32::MAX as usize {
        return Err(ImageError::BufferCreation);
    }
    let data = image.duplicate().into_vec();
    proof {
        assert(height * width * 3 == 3 * width * height) by (nonlinear_arith);
    }
    match lanczos3_resample_rgb(data, width as u32, height as u32, target_width, target_height) {
        Some(out) => {
            let r = image_from_resampled(out, target_width, target_height);
            proof {
                if image@.width == target_width && image@.height == target_height {
                    assert(image@.data.subrange(0, 3 * width * height) =~= image@.data);
                }
            }
            r
        },
        None => Err(ImageError::BufferCreation),
    }
}

/// What `resize_video_array` answers: the refusal of the first check that fails, or the
/// video whose every frame is the resized frame.
pub open spec fn video_resize_outcome(v: VideoModel, target_width: nat, target_height: nat) -> Result<
    VideoModel,
    ImageError,
> {
    if v.channels != 3 {
        Err(ImageError::UnsupportedChannels)
    } else if target_width == 0 || target_height == 0 {
        Err(ImageError::ZeroTargetSize)
    } else if v.width > u32::MAX || v.height > u32::MAX {
        Err(ImageError::BufferCreation)
    } else {
        Ok(
            VideoModel {
                height: target_height,
                width: target_width,
                channels: 3,
                frames: v.frames.map_values(
                    |f: ImageModel| resized(f, target_width, target_height),
                ),
            },
        )
    }
}

/// The model of a result that carries a video.
pub open spec fn video_result_model(r: Result<Video, ImageError>) -> Result<VideoModel, ImageError> {
    match r {
        Ok(v) => Ok(v@),
        Err(e) => Err(e),
    }
}

/// The video resize request is one that `resize_video_array` carries out.
pub open spec fn video_resize_accepts(v: VideoModel, target_width: nat, target_height: nat) -> bool {
    &&& v.channels == 3
    &&& target_width > 0
    &&& target_height > 0
    &&& v.width <= u32::MAX
    &&& v.height <= u32::MAX
}

/// Resizes every frame of an RGB video to `target_width x target_height` with the Lanczos3
/// filter. A video that passes the channel and target checks must have a frame.
pub fn resize_video_array(video: &Video, target_width: u32, target_height: u32) -> (r: Result<
    Video,
    ImageError,
>)
    requires
        (video@.channels == 3 && target_width > 0 && target_height > 0) ==> video@.frames.len() > 0,
        video_resize_accepts(video@, target_width as nat, target_height as nat) ==> 3 * target_width
            * target_height <= isize::MAX && 16 * video@.width * target_height <= isize::MAX,
    ensures
        video_result_model(r) == video_resize_outcome(video@, target_width as nat, target_height as nat),
        r is Ok <==> video_resize_accepts(video@, target_width as nat, target_height as nat),
        r matches Ok(out) ==> out@.frames.len() == video@.frames.len() && forall|f: int|
            0 <= f < out@.frames.len() ==> Ok::<ImageModel, ImageError>(#[trigger] out@.frames[f]) == resize_outcome(
                video@.frames[f],
                target_width as nat,
                target_height as nat,
            ),
{
    let (num_frames, height, width, channels) = video.dim();
    if channels != 3 {
        return Err(ImageError::UnsupportedChannels);
    }
    if target_width == 0 || target_height == 0 {
        return Err(ImageError::ZeroTargetSize);
    }
    let ghost v = video@;
    let ghost target = v.frames.map_values(
        |f: ImageModel| resized(f, target_width as nat, target_height as nat),
    );
    let mut frames: Vec<Image> = Vec::new();
    for f in 0..num_frames
        invariant
            v == video@,
            v.wf(),
            num_frames == v.frames.len(),
            num_frames > 0,
            v.channels == 3,
            v.width == width,
            v.height == height,
            target_width > 0,
            target_height > 0,
            video_resize_accepts(v, target_width as nat, target_height as nat) ==> 3 * target_width
                * target_height <= isize::MAX && 16 * v.width * target_height <= isize::MAX,
            target == v.frames.map_values(
                |fr: ImageModel| resized(fr, target_width as nat, target_height as nat),
            ),
            frames@.len() == f,
            f > 0 ==> v.width <= u32::MAX && v.height <= u32::MAX,
            forall|g: int|
                0 <= g < f ==> (#[trigger] frames@[g])@ == target[g] && frames@[g]@.height
                    == target_height && frames@[g]@.width == target_width && frames@[g]@.channels
                    == 3,
    {
        let frame = video.frame(f);
        proof {
            assert(v.frames[f as int].wf());
        }
        match resize_image_array(frame, target_width, target_height) {
            Ok(img) => {
                frames.push(img);
            },
            Err(e) => {
                return Err(e);
            },
        }
    }
    let r = Video::from_frames(target_height as usize, target_width as usize, 3, frames);
    proof {
        if r is Ok {
            assert(r->Ok_0@.frames =~= target);
            assert forall|g: int| 0 <= g < target.len() implies Ok::<ImageModel, ImageError>(
                #[trigger] target[g],
            ) == resize_outcome(v.frames[g], target_width as nat, target_height as nat) by {
                assert(v.frames[g].wf());
            }
        }
    }
    match r {
        Ok(out) => Ok(out),
        Err(e) => Err(e),
    }
}

} // verus!
