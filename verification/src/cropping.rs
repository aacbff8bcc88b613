//! Rectangular crops: at a given offset, centred, and at a random offset.
use vstd::prelude::*;

use crate::error::ImageError;
use crate::raster::{
    lemma_flat_index_bounds, lemma_flat_index_steps, lemma_model_from_fn_at, lemma_model_from_fn_ext,
    lemma_model_from_fn_wf, flat_index, model_from_fn, result_model, Image, ImageModel,
};

verus! {

/// The box `(x, y, width, height)` lies inside the image.
pub open spec fn crop_fits(m: ImageModel, x: int, y: int, width: int, height: int) -> bool {
    0 <= x && 0 <= y && 0 <= width && 0 <= height && x + width <= m.width && y + height <= m.height
}

/// The `height x width` window of `m` whose top-left pixel is `(x, y)`, all channels kept.
pub open spec fn cropped(m: ImageModel, x: int, y: int, width: nat, height: nat) -> ImageModel {
    model_from_fn(height, width, m.channels, |yy: int, xx: int, cc: int| m.at(y + yy, x + xx, cc))
}

/// What `crop_image_array` answers for an image and a box.
pub open spec fn crop_outcome(m: ImageModel, x: int, y: int, width: nat, height: nat) -> Result<
    ImageModel,
    ImageError,
> {
    if crop_fits(m, x, y, width as int, height as int) {
        Ok(cropped(m, x, y, width, height))
    } else {
        Err(ImageError::CropOutOfBounds)
    }
}

/// The window that `center_crop_image_array` keeps: the target size, shrunk to the image
/// where it is larger, placed with equal margins (the odd pixel going to the right or bottom).
pub open spec fn center_cropped(m: ImageModel, target_width: nat, target_height: nat) -> ImageModel {
    let w = if target_width <= m.width { target_width } else { m.width };
    let h = if target_height <= m.height { target_height } else { m.height };
    cropped(m, (m.width - w) / 2, (m.height - h) / 2, w, h)
}

/// The side of a centre crop: the target side, shrunk to the image side where it is larger.
pub open spec fn crop_extent(target: nat, size: nat) -> nat {
    if target <= size {
        target
    } else {
        size
    }
}

/// `offset` splits `slack` into two margins that differ by at most one, the larger one
/// (if any) after the window.
pub open spec fn balanced_margin(offset: int, slack: int) -> bool {
    0 <= offset && offset <= slack - offset <= offset + 1
}

/// `out` is the crop of `m` at some offset that leaves the whole window inside the image.
pub open spec fn is_random_crop(m: ImageModel, target_width: nat, target_height: nat, out: ImageModel) -> bool {
    exists|x: int, y: int|
        0 <= x <= m.width - target_width && 0 <= y <= m.height - target_height && out
            == #[trigger] cropped(m, x, y, target_width, target_height)
}

/// Copies the `height x width` window whose top-left pixel is `(x, y)`.
///
/// Refuses a box that reaches past the right or bottom edge.
pub fn crop_image_array(image: &Image, x: usize, y: usize, width: usize, height: usize) -> (r: Result<
    Image,
    ImageError,
>)
    ensures
        r is Ok <==> crop_fits(image@, x as int, y as int, width as int, height as int),
        r matches Ok(out) ==> out@ == cropped(image@, x as int, y as int, width as nat, height as nat),
        r matches Err(e) ==> e == ImageError::CropOutOfBounds,
        result_model(r) == crop_outcome(image@, x as int, y as int, width as nat, height as nat),
{
    let (img_height, img_width, channels) = image.dim();
    if width > img_width || x > img_width - width || height > img_height || y > img_height - height {
        return Err(ImageError::CropOutOfBounds);
    }
    let ghost m = image@;
    let ghost target = cropped(m, x as int, y as int, width as nat, height as nat);
    let ghost wi = width as int;
    let ghost ci = channels as int;
    let mut out: Vec<u8> = Vec::new();
    proof {
        lemma_flat_index_steps(0, 0, wi, ci);
    }
    for yy in 0..height
        invariant
            m == image@,
            m.wf(),
            m.channels == channels,
            m.width == img_width,
            m.height == img_height,
            crop_fits(m, x as int, y as int, width as int, height as int),
            target == cropped(m, x as int, y as int, width as nat, height as nat),
            wi == width,
            ci == channels,
            out@.len() == flat_index(yy as int, 0, 0, wi, ci),
            forall|k: int| 0 <= k < out@.len() ==> #[trigger] out@[k] == target.data[k],
    {
        for xx in 0..width
            invariant
                m == image@,
                m.wf(),
                m.channels == channels,
                m.width == img_width,
                m.height == img_height,
                crop_fits(m, x as int, y as int, width as int, height as int),
                target == cropped(m, x as int, y as int, width as nat, height as nat),
                wi == width,
                ci == channels,
                yy < height,
                out@.len() == flat_index(yy as int, xx as int, 0, wi, ci),
                forall|k: int| 0 <= k < out@.len() ==> #[trigger] out@[k] == target.data[k],
        {
            for cc in 0..channels
                invariant
                    m == image@,
                    m.wf(),
                    m.channels == channels,
                    m.width == img_width,
                    m.height == img_height,
                    crop_fits(m, x as int, y as int, width as int, height as int),
                    target == cropped(m, x as int, y as int, width as nat, height as nat),
                    wi == width,
                    ci == channels,
                    yy < height,
                    xx < width,
                    out@.len() == flat_index(yy as int, xx as int, cc as int, wi, ci),
                    forall|k: int| 0 <= k < out@.len() ==> #[trigger] out@[k] == target.data[k],
            {
                let v = image.get(y + yy, x + xx, cc);
                proof {
                    lemma_model_from_fn_at(
                        height as nat,
                        width as nat,
                        channels as nat,
                        |a: int, b: int, c: int| m.at(y + a, x + b, c),
                        yy as int,
                        xx as int,
                        cc as int,
                    );
                    lemma_flat_index_bounds(yy as int, xx as int, cc as int, height as int, wi, ci);
                }
                out.push(v);
            }
            proof {
                lemma_flat_index_steps(yy as int, xx as int, wi, ci);
            }
        }
        proof {
            lemma_flat_index_steps(yy as int, width as int, wi, ci);
        }
    }
    proof {
        assert(out@ =~= target.data);
    }
    Ok(Image::assemble(height, width, channels, out))
}

/// Copies the centred window of the target size; a target side larger than the image
/// keeps the image's whole extent along that side.
pub fn center_crop_image_array(image: &Image, target_width: usize, target_height: usize) -> (r: Result<
    Image,
    ImageError,
>)
    ensures
        r matches Ok(out) && out@ == center_cropped(image@, target_width as nat, target_height as nat),
        r matches Ok(out) ==> forall|x: int, y: int|
            balanced_margin(x, image@.width - crop_extent(target_width as nat, image@.width))
                && balanced_margin(y, image@.height - crop_extent(target_height as nat, image@.height))
                ==> out@ == #[trigger] cropped(
                image@,
                x,
                y,
                crop_extent(target_width as nat, image@.width),
                crop_extent(target_height as nat, image@.height),
            ),
{
    let (img_height, img_width, _channels) = image.dim();
    let crop_width = if target_width <= img_width { target_width } else { img_width };
    let crop_height = if target_height <= img_height { target_height } else { img_height };
    let x = (img_width - crop_width) / 2;
    let y = (img_height - crop_height) / 2;
    let r = crop_image_array(image, x, y, crop_width, crop_height);
    proof {
        law_center_crop_balanced_margins(image@, target_width as nat, target_height as nat);
    }
    r
}

/// A uniformly drawn integer in `0..=max`.
///
/// Calls `rand::Rng::gen_range` on the thread-local generator `rand::thread_rng()` with the
/// inclusive range `0..=max`. The contract claims only that the value lies in the range;
/// which value comes depends on the generator's state.
#[verifier::external_body]
fn random_offset(max: usize) -> (r: usize)
    ensures
        r <= max,
{
    rand::Rng::gen_range(&mut rand::thread_rng(), 0..=max)
}

/// Copies a window of the target size at the offsets that `draw` returns: `draw(W - w)` for
/// the column and then `draw(H - h)` for the row, each in `0..=` its argument.
///
/// Refuses a target larger than the image along either side (and then draws nothing).
pub fn random_crop_image_array_with<F: Fn(usize) -> usize>(
    image: &Image,
    target_width: usize,
    target_height: usize,
    draw: F,
) -> (r: Result<Image, ImageError>)
    requires
        forall|max: usize| #[trigger] call_requires(draw, (max,)),
        forall|max: usize, v: usize| #[trigger] call_ensures(draw, (max,), v) ==> v <= max,
    ensures
        r is Ok <==> (target_width <= image@.width && target_height <= image@.height),
        r matches Ok(out) ==> exists|x: usize, y: usize|
            call_ensures(draw, ((image@.width - target_width) as usize,), x) && call_ensures(
                draw,
                ((image@.height - target_height) as usize,),
                y,
            ) && out@ == #[trigger] cropped(
                image@,
                x as int,
                y as int,
                target_width as nat,
                target_height as nat,
            ),
        r matches Err(e) ==> e == ImageError::CropLargerThanImage,
{
    let (img_height, img_width, _channels) = image.dim();
    if target_width > img_width || target_height > img_height {
        return Err(ImageError::CropLargerThanImage);
    }
    let x = draw(img_width - target_width);
    let y = draw(img_height - target_height);
    let r = crop_image_array(image, x, y, target_width, target_height);
    proof {
        if r is Ok {
            assert(r->Ok_0@ == cropped(image@, x as int, y as int, target_width as nat, target_height as nat));
        }
    }
    r
}


/// Copies a window of the target size at an offset drawn at random among those that keep
/// the window inside the image: `random_crop_image_array_with` with offsets drawn uniformly
/// by the thread-local generator.
///
/// Refuses a target larger than the image along either side.
pub fn random_crop_image_array(image: &Image, target_width: usize, target_height: usize) -> (r:
    Result<Image, ImageError>)
    ensures
        r is Ok <==> (target_width <= image@.width && target_height <= image@.height),
        r matches Ok(out) ==> is_random_crop(image@, target_width as nat, target_height as nat, out@),
        r matches Err(e) ==> e == ImageError::CropLargerThanImage,
{
    let r = random_crop_image_array_with(image, target_width, target_height, random_offset);
    proof {
        if r is Ok {
            let (x, y) = choose|x: usize, y: usize|
                call_ensures(random_offset, ((image@.width - target_width) as usize,), x)
                    && call_ensures(random_offset, ((image@.height - target_height) as usize,), y)
                    && r->Ok_0@ == #[trigger] cropped(
                    image@,
                    x as int,
                    y as int,
                    target_width as nat,
                    target_height as nat,
                );
            assert(is_random_crop(image@, target_width as nat, target_height as nat, r->Ok_0@)) by {
                assert(r->Ok_0@ == cropped(image@, x as int, y as int, target_width as nat, target_height as nat));
            }
        }
    }
    r
}

/// Cropping the whole image gives the image back.
pub proof fn law_full_crop_is_identity(m: ImageModel)
    requires
        m.wf(),
    ensures
        crop_fits(m, 0, 0, m.width as int, m.height as int),
        cropped(m, 0, 0, m.width, m.height) == m,
{
    let f = |yy: int, xx: int, cc: int| m.at(0 + yy, 0 + xx, cc);
    assert forall|y: int, x: int, c: int| m.in_bounds(y, x, c) implies #[trigger] m.at(y, x, c) == f(
        y,
        x,
        c,
    ) by {}
    lemma_model_from_fn_ext(m, f);
}

/// A crop of a crop is one crop of the source image, at the sum of the two offsets.
pub proof fn law_crop_of_crop(
    m: ImageModel,
    x1: nat,
    y1: nat,
    w1: nat,
    h1: nat,
    x2: nat,
    y2: nat,
    w2: nat,
    h2: nat,
)
    requires
        m.wf(),
        crop_fits(m, x1 as int, y1 as int, w1 as int, h1 as int),
        crop_fits(cropped(m, x1 as int, y1 as int, w1, h1), x2 as int, y2 as int, w2 as int, h2 as int),
    ensures
        crop_fits(m, (x1 + x2) as int, (y1 + y2) as int, w2 as int, h2 as int),
        cropped(cropped(m, x1 as int, y1 as int, w1, h1), x2 as int, y2 as int, w2, h2) == cropped(
            m,
            (x1 + x2) as int,
            (y1 + y2) as int,
            w2,
            h2,
        ),
{
    let inner = cropped(m, x1 as int, y1 as int, w1, h1);
    let outer_fn = |yy: int, xx: int, cc: int| inner.at(y2 + yy, x2 + xx, cc);
    let direct = cropped(m, (x1 + x2) as int, (y1 + y2) as int, w2, h2);
    assert forall|y: int, x: int, c: int| direct.in_bounds(y, x, c) implies #[trigger] direct.at(
        y,
        x,
        c,
    ) == outer_fn(y, x, c) by {
        lemma_model_from_fn_at(
            h2,
            w2,
            m.channels,
            |yy: int, xx: int, cc: int| m.at(y1 + y2 + yy, x1 + x2 + xx, cc),
            y,
            x,
            c,
        );
        lemma_model_from_fn_at(
            h1,
            w1,
            m.channels,
            |yy: int, xx: int, cc: int| m.at(y1 + yy, x1 + xx, cc),
            y2 + y,
            x2 + x,
            c,
        );
        assert((y1 + y2 + y) == y1 + (y2 + y));
        assert((x1 + x2 + x) == x1 + (x2 + x));
    }
    if 0 < h2 && 0 < w2 && 0 < m.channels {
        lemma_model_from_fn_at(
            h2,
            w2,
            m.channels,
            |yy: int, xx: int, cc: int| m.at(y1 + y2 + yy, x1 + x2 + xx, cc),
            0,
            0,
            0,
        );
    }
    lemma_model_from_fn_wf(h2, w2, m.channels, |yy: int, xx: int, cc: int| m.at(y1 + y2 + yy, x1 + x2 + xx, cc));
    lemma_model_from_fn_ext(direct, outer_fn);
}

/// A centre crop whose target is at least as large as the image keeps the whole image.
pub proof fn law_oversized_center_crop_is_identity(m: ImageModel, target_width: nat, target_height: nat)
    requires
        m.wf(),
        m.width <= target_width,
        m.height <= target_height,
    ensures
        center_cropped(m, target_width, target_height) == m,
{
    law_full_crop_is_identity(m);
    assert((m.width - m.width) / 2 == 0);
    assert((m.height - m.height) / 2 == 0);
}

/// A centre crop keeps a window of the target size (shrunk to the image where the target is
/// larger) whose left and right margins, and whose top and bottom margins, differ by at most
/// one pixel, the odd pixel going to the right or bottom: any such offset gives the crop.
pub proof fn law_center_crop_balanced_margins(m: ImageModel, target_width: nat, target_height: nat)
    ensures
        forall|x: int, y: int|
            balanced_margin(x, m.width - crop_extent(target_width, m.width)) && balanced_margin(
                y,
                m.height - crop_extent(target_height, m.height),
            ) ==> center_cropped(m, target_width, target_height) == #[trigger] cropped(
                m,
                x,
                y,
                crop_extent(target_width, m.width),
                crop_extent(target_height, m.height),
            ),
{
    let w = crop_extent(target_width, m.width);
    let h = crop_extent(target_height, m.height);
    assert forall|x: int, y: int|
        balanced_margin(x, m.width - w) && balanced_margin(y, m.height - h) implies center_cropped(
        m,
        target_width,
        target_height,
    ) == #[trigger] cropped(m, x, y, w, h) by {
        let sx = m.width - w;
        let sy = m.height - h;
        assert(x == sx / 2);
        assert(y == sy / 2);
    }
}

/// A random crop as large as the image can only be the whole image.
pub proof fn law_full_size_random_crop_is_identity(m: ImageModel, out: ImageModel)
    requires
        m.wf(),
        is_random_crop(m, m.width, m.height, out),
    ensures
        out == m,
{
    let (x, y) = choose|x: int, y: int|
        0 <= x <= m.width - m.width && 0 <= y <= m.height - m.height && out == #[trigger] cropped(
            m,
            x,
            y,
            m.width,
            m.height,
        );
    assert(x == 0 && y == 0);
    law_full_crop_is_identity(m);
}

} // verus!
