# trainingsample

Batch preprocessing of images and videos for machine-learning data pipelines: cropping
(at an offset, centred, at random), Lanczos3 resizing, and mean luminance.

* `src/` is the library, verified with Verus. Images are row-major byte buffers
  (`Image`, `Video`); every public function states in its contract what it returns, and
  the laws of the library (crop identity and composition, luminance range, power-of-two
  batch heights, ...) are proof functions next to the operations they speak of. The
  resampling arithmetic itself is done by the `image` crate and is named, not restated.
* `app/` wraps the library for `ndarray` users and Python (pyo3/numpy), runs batches on
  rayon, reads files, and holds the floating-point resize kernels (bilinear, Lanczos3,
  Lanczos4, cache-blocked and table-driven variants).
* `tests/` exercises the library on concrete images.
