use vstd::prelude::*;

verus! {

/// Every way in which an operation of this library can refuse its input.
#[derive(Debug, Clone, Copy, PartialEq, Eq, Structural)]
pub enum ImageError {
    /// The pixel buffer does not hold `height * width * channels` bytes.
    ShapeMismatch,
    /// The crop box reaches past the right or bottom edge of the image.
    CropOutOfBounds,
    /// A random crop was asked for a window larger than the image.
    CropLargerThanImage,
    /// Only three-channel (RGB) images are accepted here.
    UnsupportedChannels,
    /// A target width or height of zero was requested.
    ZeroTargetSize,
    /// The image is too large to be handed to the resampler (a side above `u32::MAX`),
    /// or the resampler could not wrap the pixel buffer.
    BufferCreation,
    /// The resampled bytes do not fill a `target_height x target_width x 3` image.
    ReshapeFailed,
    /// A video with no frames cannot be resized.
    EmptyVideo,
    /// The frames to be stacked into a video do not all share one shape.
    FrameShapeMismatch,
}

} // verus!
