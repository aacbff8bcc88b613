//! The image and video types of the library and the arithmetic of their row-major layout.
//!
//! An image of `height x width x channels` bytes keeps its samples in one buffer, row
//! after row, pixel after pixel, channel after channel: sample `(y, x, c)` lives at
//! `flat_index(y, x, c, width, channels) == (y * width + x) * channels + c`.
use vstd::arithmetic::div_mod::*;
use vstd::arithmetic::mul::*;
use vstd::prelude::*;

use crate::error::ImageError;

verus! {

/// Position of sample `(y, x, c)` in a row-major buffer.
pub open spec fn flat_index(y: int, x: int, c: int, width: int, channels: int) -> int {
    (y * width + x) * channels + c
}

/// Row of the sample stored at buffer position `i`.
pub open spec fn row_of(i: int, width: int, channels: int) -> int {
    (i / channels) / width
}

/// Column of the sample stored at buffer position `i`.
pub open spec fn col_of(i: int, width: int, channels: int) -> int {
    (i / channels) % width
}

/// Channel of the sample stored at buffer position `i`.
pub open spec fn chan_of(i: int, channels: int) -> int {
    i % channels
}

/// The mathematical value of an image: its three extents and its samples.
#[verifier::ext_equal]
pub struct ImageModel {
    pub height: nat,
    pub width: nat,
    pub channels: nat,
    pub data: Seq<u8>,
}

impl ImageModel {
    /// The buffer holds exactly one byte per sample.
    pub open spec fn wf(self) -> bool {
        self.data.len() == self.height * self.width * self.channels
    }

    pub open spec fn in_bounds(self, y: int, x: int, c: int) -> bool {
        0 <= y < self.height && 0 <= x < self.width && 0 <= c < self.channels
    }

    /// Sample `c` of the pixel in row `y`, column `x`.
    pub open spec fn at(self, y: int, x: int, c: int) -> u8 {
        self.data[flat_index(y, x, c, self.width as int, self.channels as int)]
    }

    /// Every sample of the image equals `v`.
    pub open spec fn uniform(self, v: u8) -> bool {
        forall|i: int| 0 <= i < self.data.len() ==> #[trigger] self.data[i] == v
    }
}

/// The image of the given extents whose sample `(y, x, c)` is `f(y, x, c)`.
pub open spec fn model_from_fn(
    height: nat,
    width: nat,
    channels: nat,
    f: spec_fn(int, int, int) -> u8,
) -> ImageModel {
    ImageModel {
        height,
        width,
        channels,
        data: Seq::new(
            height * width * channels,
            |i: int|
                f(
                    row_of(i, width as int, channels as int),
                    col_of(i, width as int, channels as int),
                    chan_of(i, channels as int),
                ),
        ),
    }
}

/// A sample inside the extents lies inside the buffer.
pub proof fn lemma_flat_index_bounds(y: int, x: int, c: int, height: int, width: int, channels: int)
    requires
        0 <= y < height,
        0 <= x < width,
        0 <= c < channels,
    ensures
        0 <= flat_index(y, x, c, width, channels) < height * width * channels,
{
    assert(0 <= y * width + x < height * width) by (nonlinear_arith)
        requires
            0 <= y < height,
            0 <= x < width,
    ;
    let p = y * width + x;
    assert(0 <= p * channels + c < (height * width) * channels) by (nonlinear_arith)
        requires
            0 <= p < height * width,
            0 <= c < channels,
    ;
    lemma_mul_is_associative(height, width, channels);
}

/// Reading the position of an in-bounds sample back gives the sample's coordinates.
pub proof fn lemma_flat_index_inverse(y: int, x: int, c: int, width: int, channels: int)
    requires
        0 <= y,
        0 <= x < width,
        0 <= c < channels,
    ensures
        row_of(flat_index(y, x, c, width, channels), width, channels) == y,
        col_of(flat_index(y, x, c, width, channels), width, channels) == x,
        chan_of(flat_index(y, x, c, width, channels), channels) == c,
{
    let p = y * width + x;
    let i = p * channels + c;
    lemma_fundamental_div_mod_converse(i, channels, p, c);
    lemma_fundamental_div_mod_converse(p, width, y, x);
}

/// Every buffer position is the position of the sample at its own coordinates.
pub proof fn lemma_flat_index_decompose(i: int, height: int, width: int, channels: int)
    requires
        0 <= i < height * width * channels,
        0 < width,
        0 < channels,
    ensures
        0 <= row_of(i, width, channels) < height,
        0 <= col_of(i, width, channels) < width,
        0 <= chan_of(i, channels) < channels,
        flat_index(
            row_of(i, width, channels),
            col_of(i, width, channels),
            chan_of(i, channels),
            width,
            channels,
        ) == i,
{
    let p = i / channels;
    let c = i % channels;
    lemma_fundamental_div_mod(i, channels);
    lemma_mod_bound(i, channels);
    lemma_mul_is_associative(height, width, channels);
    assert(0 <= p < height * width) by {
        lemma_div_pos_is_pos(i, channels);
        lemma_div_strictly_bounded_by(i, height * width, channels);
    }
    let y = p / width;
    let x = p % width;
    lemma_fundamental_div_mod(p, width);
    lemma_mod_bound(p, width);
    assert(0 <= y < height) by {
        lemma_div_pos_is_pos(p, width);
        lemma_div_strictly_bounded_by(p, height, width);
    }
    lemma_mul_is_commutative(channels, p);
    lemma_mul_is_commutative(width, y);
}

/// `x < a * b` with positive `b` gives `x / b < a`.
proof fn lemma_div_strictly_bounded_by(x: int, a: int, b: int)
    requires
        0 <= x < a * b,
        0 < b,
    ensures
        x / b < a,
{
    lemma_fundamental_div_mod(x, b);
    lemma_mod_bound(x, b);
    assert(x / b < a) by (nonlinear_arith)
        requires
            x == b * (x / b) + x % b,
            0 <= x % b,
            x < a * b,
            0 < b,
    ;
}

/// Moving one channel, one pixel or one row forward in the loop order moves one
/// position, one pixel stride or one row stride forward in the buffer.
pub proof fn lemma_flat_index_steps(y: int, x: int, width: int, channels: int)
    ensures
        flat_index(y, x, channels, width, channels) == flat_index(y, x + 1, 0, width, channels),
        flat_index(y, width, 0, width, channels) == flat_index(y + 1, 0, 0, width, channels),
        flat_index(0, 0, 0, width, channels) == 0,
{
    lemma_mul_is_distributive_add_other_way(channels, y * width + x, 1);
    lemma_mul_is_distributive_add_other_way(width, y, 1);
    lemma_mul_basics(width);
    lemma_mul_basics(channels);
}

/// The sample of `model_from_fn` at in-bounds coordinates is the function's value there.
pub proof fn lemma_model_from_fn_at(
    height: nat,
    width: nat,
    channels: nat,
    f: spec_fn(int, int, int) -> u8,
    y: int,
    x: int,
    c: int,
)
    requires
        0 <= y < height,
        0 <= x < width,
        0 <= c < channels,
    ensures
        model_from_fn(height, width, channels, f).at(y, x, c) == f(y, x, c),
        model_from_fn(height, width, channels, f).wf(),
{
    lemma_flat_index_bounds(y, x, c, height as int, width as int, channels as int);
    lemma_flat_index_inverse(y, x, c, width as int, channels as int);
}

/// `model_from_fn` always gives a well-formed image.
pub proof fn lemma_model_from_fn_wf(
    height: nat,
    width: nat,
    channels: nat,
    f: spec_fn(int, int, int) -> u8,
)
    ensures
        model_from_fn(height, width, channels, f).wf(),
{
}

/// The model of a result that carries an image.
pub open spec fn result_model(r: Result<Image, ImageError>) -> Result<ImageModel, ImageError> {
    match r {
        Ok(img) => Ok(img@),
        Err(e) => Err(e),
    }
}

/// An image whose samples agree everywhere with `model_from_fn` of the same extents is it.
pub proof fn lemma_model_from_fn_ext(
    m: ImageModel,
    f: spec_fn(int, int, int) -> u8,
)
    requires
        m.wf(),
        forall|y: int, x: int, c: int| m.in_bounds(y, x, c) ==> #[trigger] m.at(y, x, c) == f(y, x, c),
    ensures
        m == model_from_fn(m.height, m.width, m.channels, f),
{
    let g = model_from_fn(m.height, m.width, m.channels, f);
    assert forall|i: int| 0 <= i < m.data.len() implies m.data[i] == g.data[i] by {
        lemma_mul_is_associative(m.height as int, m.width as int, m.channels as int);
        if m.width == 0 || m.channels == 0 {
            lemma_mul_by_zero_is_zero(m.height as int);
            lemma_mul_by_zero_is_zero((m.height * m.width) as int);
            lemma_mul_basics(m.channels as int);
        }
        lemma_flat_index_decompose(i, m.height as int, m.width as int, m.channels as int);
        let y = row_of(i, m.width as int, m.channels as int);
        let x = col_of(i, m.width as int, m.channels as int);
        let c = chan_of(i, m.channels as int);
        assert(m.in_bounds(y, x, c));
        assert(m.at(y, x, c) == f(y, x, c));
    }
    assert(m.data =~= g.data);
}

/// An RGB-or-more image held in one row-major buffer.
#[derive(Debug)]
pub struct Image {
    height: usize,
    width: usize,
    channels: usize,
    data: Vec<u8>,
}

impl View for Image {
    type V = ImageModel;

    closed spec fn view(&self) -> ImageModel {
        ImageModel {
            height: self.height as nat,
            width: self.width as nat,
            channels: self.channels as nat,
            data: self.data@,
        }
    }
}

impl Image {
    #[verifier::type_invariant]
    spec fn shape_holds(self) -> bool {
        self.data.len() == self.height * self.width * self.channels
    }

    /// Wraps a buffer of `height * width * channels` bytes.
    pub fn from_vec(height: usize, width: usize, channels: usize, data: Vec<u8>) -> (r: Result<
        Image,
        ImageError,
    >)
        ensures
            r is Ok <==> data@.len() == height * width * channels,
            r matches Ok(img) ==> img@ == (ImageModel {
                height: height as nat,
                width: width as nat,
                channels: channels as nat,
                data: data@,
            }),
            r matches Err(e) ==> e == ImageError::ShapeMismatch,
    {
        let len = data.len();
        let total: usize = if height == 0 || width == 0 || channels == 0 {
            proof {
                lemma_mul_by_zero_is_zero(width as int);
                lemma_mul_by_zero_is_zero(height as int);
                lemma_mul_by_zero_is_zero(channels as int);
                lemma_mul_basics(height as int);
                lemma_mul_basics((height * width) as int);
            }
            0
        } else {
            let hw = match height.checked_mul(width) {
                Some(v) => v,
                None => {
                    proof {
                        lemma_grows_with_factor(height * width, channels as int);
                        assert(data@.len() != height * width * channels);
                    }
                    return Err(ImageError::ShapeMismatch);
                },
            };
            assert(hw == height * width);
            match hw.checked_mul(channels) {
                Some(v) => v,
                None => {
                    assert(data@.len() != height * width * channels);
                    return Err(ImageError::ShapeMismatch);
                },
            }
        };
        if total != len {
            return Err(ImageError::ShapeMismatch);
        }
        Ok(Image { height, width, channels, data })
    }

    /// Builds an image from a buffer already known to have the right length.
    pub(crate) fn assemble(height: usize, width: usize, channels: usize, data: Vec<u8>) -> (img: Image)
        requires
            data@.len() == height * width * channels,
        ensures
            img@ == (ImageModel {
                height: height as nat,
                width: width as nat,
                channels: channels as nat,
                data: data@,
            }),
    {
        Image { height, width, channels, data }
    }

    pub fn height(&self) -> (r: usize)
        ensures
            r == self@.height,
            self@.wf(),
    {
        proof {
            use_type_invariant(self);
        }
        self.height
    }

    pub fn width(&self) -> (r: usize)
        ensures
            r == self@.width,
            self@.wf(),
    {
        proof {
            use_type_invariant(self);
        }
        self.width
    }

    pub fn channels(&self) -> (r: usize)
        ensures
            r == self@.channels,
            self@.wf(),
    {
        proof {
            use_type_invariant(self);
        }
        self.channels
    }

    /// The extents `(height, width, channels)`, in the order of the buffer's axes.
    pub fn dim(&self) -> (r: (usize, usize, usize))
        ensures
            r.0 == self@.height,
            r.1 == self@.width,
            r.2 == self@.channels,
            self@.wf(),
    {
        proof {
            use_type_invariant(self);
        }
        (self.height, self.width, self.channels)
    }

    /// The samples, row after row.
    pub fn as_bytes(&self) -> (r: &[u8])
        ensures
            r@ == self@.data,
            self@.wf(),
    {
        proof {
            use_type_invariant(self);
        }
        self.data.as_slice()
    }

    /// Gives the buffer back.
    pub fn into_vec(self) -> (r: Vec<u8>)
        ensures
            r@ == self@.data,
            self@.wf(),
    {
        proof {
            use_type_invariant(&self);
        }
        self.data
    }

    /// Sample `c` of the pixel in row `y`, column `x`.
    pub fn get(&self, y: usize, x: usize, c: usize) -> (r: u8)
        requires
            self@.in_bounds(y as int, x as int, c as int),
        ensures
            r == self@.at(y as int, x as int, c as int),
    {
        proof {
            use_type_invariant(self);
            lemma_flat_index_bounds(
                y as int,
                x as int,
                c as int,
                self.height as int,
                self.width as int,
                self.channels as int,
            );
            lemma_index_parts_bounded(y as int, x as int, c as int, self.width as int, self.channels as int);
        }
        self.data[(y * self.width + x) * self.channels + c]
    }

    /// A copy of this image.
    pub fn duplicate(&self) -> (r: Image)
        ensures
            r@ == self@,
    {
        proof {
            use_type_invariant(self);
        }
        let data = self.data.clone();
        proof {
            assert(data@ =~= self.data@);
        }
        Image { height: self.height, width: self.width, channels: self.channels, data }
    }
}

/// The partial sums of `flat_index` never exceed it.
pub proof fn lemma_index_parts_bounded(y: int, x: int, c: int, width: int, channels: int)
    requires
        0 <= y,
        0 <= x,
        0 <= width,
        0 <= c < channels,
    ensures
        0 <= y * width <= y * width + x <= (y * width + x) * channels <= flat_index(y, x, c, width, channels),
{
    lemma_mul_nonnegative(y, width);
    assert(0 <= y * width + x <= (y * width + x) * channels) by (nonlinear_arith)
        requires
            0 <= y,
            0 <= x,
            1 <= channels,
            0 <= y * width,
    ;
}

proof fn lemma_grows_with_factor(a: int, c: int)
    requires
        a >= 0,
        c >= 1,
    ensures
        a * c >= a,
{
    assert(a * c >= a) by (nonlinear_arith)
        requires
            a >= 0,
            c >= 1,
    ;
}

/// The mathematical value of a video: its frame extents and its frames.
#[verifier::ext_equal]
pub struct VideoModel {
    pub height: nat,
    pub width: nat,
    pub channels: nat,
    pub frames: Seq<ImageModel>,
}

impl VideoModel {
    /// Every frame is a well-formed image of the video's extents.
    pub open spec fn wf(self) -> bool {
        forall|f: int|
            0 <= f < self.frames.len() ==> {
                &&& #[trigger] self.frames[f].wf()
                &&& self.frames[f].height == self.height
                &&& self.frames[f].width == self.width
                &&& self.frames[f].channels == self.channels
            }
    }
}

/// A sequence of frames that all share one height, width and channel count.
#[derive(Debug)]
pub struct Video {
    height: usize,
    width: usize,
    channels: usize,
    frames: Vec<Image>,
}

impl View for Video {
    type V = VideoModel;

    closed spec fn view(&self) -> VideoModel {
        VideoModel {
            height: self.height as nat,
            width: self.width as nat,
            channels: self.channels as nat,
            frames: self.frames@.map_values(|img: Image| img@),
        }
    }
}

impl Video {
    #[verifier::type_invariant]
    spec fn frames_agree(self) -> bool {
        forall|f: int|
            0 <= f < self.frames@.len() ==> {
                &&& (#[trigger] self.frames@[f])@.height == self.height
                &&& self.frames@[f]@.width == self.width
                &&& self.frames@[f]@.channels == self.channels
                &&& self.frames@[f]@.wf()
            }
    }

    /// Gathers frames of the given extents into a video; refuses a frame of another shape.
    pub fn from_frames(height: usize, width: usize, channels: usize, frames: Vec<Image>) -> (r: Result<
        Video,
        ImageError,
    >)
        ensures
            r is Ok <==> forall|f: int|
                0 <= f < frames@.len() ==> {
                    &&& (#[trigger] frames@[f])@.height == height
                    &&& frames@[f]@.width == width
                    &&& frames@[f]@.channels == channels
                },
            r matches Ok(v) ==> v@ == (VideoModel {
                height: height as nat,
                width: width as nat,
                channels: channels as nat,
                frames: frames@.map_values(|img: Image| img@),
            }),
            r matches Err(e) ==> e == ImageError::FrameShapeMismatch,
    {
        let n = frames.len();
        for i in 0..n
            invariant
                n == frames@.len(),
                forall|f: int|
                    0 <= f < i ==> {
                        &&& (#[trigger] frames@[f])@.height == height
                        &&& frames@[f]@.width == width
                        &&& frames@[f]@.channels == channels
                        &&& frames@[f]@.wf()
                    },
        {
            let (h, w, c) = frames[i].dim();
            if h != height || w != width || c != channels {
                return Err(ImageError::FrameShapeMismatch);
            }
        }
        Ok(Video { height, width, channels, frames })
    }

    pub fn num_frames(&self) -> (r: usize)
        ensures
            r == self@.frames.len(),
            self@.wf(),
    {
        proof {
            use_type_invariant(self);
            self.lemma_wf();
        }
        self.frames.len()
    }

    /// The extents `(frames, height, width, channels)`.
    pub fn dim(&self) -> (r: (usize, usize, usize, usize))
        ensures
            r.0 == self@.frames.len(),
            r.1 == self@.height,
            r.2 == self@.width,
            r.3 == self@.channels,
            self@.wf(),
    {
        proof {
            use_type_invariant(self);
            self.lemma_wf();
        }
        (self.frames.len(), self.height, self.width, self.channels)
    }

    /// Frame `f`.
    pub fn frame(&self, f: usize) -> (r: &Image)
        requires
            f < self@.frames.len(),
        ensures
            r@ == self@.frames[f as int],
            self@.wf(),
    {
        proof {
            use_type_invariant(self);
            self.lemma_wf();
        }
        &self.frames[f]
    }

    /// Gives the frames back.
    pub fn into_frames(self) -> (r: Vec<Image>)
        ensures
            r@.map_values(|img: Image| img@) == self@.frames,
    {
        self.frames
    }

    proof fn lemma_wf(&self)
        requires
            self.frames_agree(),
        ensures
            self@.wf(),
    {
        assert forall|f: int| 0 <= f < self@.frames.len() implies {
            &&& #[trigger] self@.frames[f].wf()
            &&& self@.frames[f].height == self@.height
            &&& self@.frames[f].width == self@.width
            &&& self@.frames[f].channels == self@.channels
        } by {
            assert(self@.frames[f] == self.frames@[f]@);
        }
    }
}

} // verus!
