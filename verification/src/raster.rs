//! The decoded raster image that the rendering engines consume.
//!
//! A `Raster` holds plain row-major RGB bytes (three per pixel).  Decoding a
//! file into these bytes is the surrounding application's job; resampling to
//! the output grid is delegated to the `image` crate behind a trusted
//! wrapper, and everything downstream of the resample is verified.

use vstd::prelude::*;

verus! {

/// An immutable decoded raster image: row-major RGB bytes, three per pixel.
#[derive(Debug, Clone, PartialEq, Eq)]
pub struct Raster {
    width: usize,
    height: usize,
    data: Vec<u8>,
}

impl Raster {
    /// Both dimensions are at least one and fit in 32 bits, and the byte
    /// buffer holds exactly three bytes per pixel.
    pub closed spec fn wf(&self) -> bool {
        &&& 1 <= self.width <= u32::MAX
        &&& 1 <= self.height <= u32::MAX
        &&& self.data@.len() == 3 * self.width * self.height
    }

    pub closed spec fn spec_width(&self) -> int {
        self.width as int
    }

    pub closed spec fn spec_height(&self) -> int {
        self.height as int
    }

    pub closed spec fn spec_data(&self) -> Seq<u8> {
        self.data@
    }

    /// What well-formedness gives every caller.
    pub proof fn lemma_wf(&self)
        requires
            self.wf(),
        ensures
            1 <= self.spec_width() <= u32::MAX,
            1 <= self.spec_height() <= u32::MAX,
            self.spec_data().len() == 3 * self.spec_width() * self.spec_height(),
    {
    }

    /// Builds a raster from raw RGB bytes; rejects empty or oversized
    /// dimensions and a buffer whose length does not match them.
    pub fn new(width: usize, height: usize, data: Vec<u8>) -> (r: Option<Raster>)
        ensures
            r matches Some(img) ==> img.wf() && img.spec_width() == width && img.spec_height()
                == height && img.spec_data() == data@,
            r is None <==> (width < 1 || height < 1 || width > u32::MAX as usize || height
                > u32::MAX as usize || data@.len() != 3 * width * height),
    {
        let n = data.len();
        if width < 1 || height < 1 {
            return None;
        }
        if width > u32::MAX as usize || height > u32::MAX as usize {
            return None;
        }
        let per_row = match 3usize.checked_mul(width) {
            Some(n) => n,
            None => {
                proof {
                    assert(data@.len() < 3 * width * height) by (nonlinear_arith)
                        requires
                            3 * width > usize::MAX,
                            height >= 1,
                            data@.len() == n,
                            n <= usize::MAX,
                    ;
                }
                return None;
            },
        };
        let total = match per_row.checked_mul(height) {
            Some(n) => n,
            None => {
                proof {
                    assert(data@.len() < 3 * width * height) by (nonlinear_arith)
                        requires
                            3 * width * height > usize::MAX,
                            data@.len() == n,
                            n <= usize::MAX,
                    ;
                }
                return None;
            },
        };
        if data.len() != total {
            return None;
        }
        Some(Raster { width, height, data })
    }

    pub fn width(&self) -> (w: usize)
        ensures
            w == self.spec_width(),
    {
        self.width
    }

    pub fn height(&self) -> (h: usize)
        ensures
            h == self.spec_height(),
    {
        self.height
    }

    /// The RGB triple of the pixel at (x, y).
    pub fn pixel(&self, x: usize, y: usize) -> (p: (u8, u8, u8))
        requires
            self.wf(),
            x < self.spec_width(),
            y < self.spec_height(),
        ensures
            p.0 == self.spec_data()[3 * (y * self.spec_width() + x)],
            p.1 == self.spec_data()[3 * (y * self.spec_width() + x) + 1],
            p.2 == self.spec_data()[3 * (y * self.spec_width() + x) + 2],
    {
        let len = self.data.len();
        proof {
            assert(y * self.spec_width() + x < self.spec_width() * self.spec_height() && 3 * (y
                * self.spec_width() + x) + 2 < 3 * self.spec_width() * self.spec_height())
                by (nonlinear_arith)
                requires
                    0 <= x < self.spec_width(),
                    0 <= y < self.spec_height(),
            ;
        }
        let base: usize = 3 * (y * self.width + x);
        (self.data[base], self.data[base + 1], self.data[base + 2])
    }

    /// Direct access to the raw RGB bytes.
    pub fn data(&self) -> (d: &Vec<u8>)
        ensures
            d@ == self.spec_data(),
    {
        &self.data
    }
}

/// The RGB pixel grid produced by Lanczos3 resampling of a source grid: a
/// pure function of the source bytes and the four dimensions.
pub uninterp spec fn lanczos_resample(
    data: Seq<u8>,
    src_w: int,
    src_h: int,
    out_w: int,
    out_h: int,
) -> Seq<u8>;

/// Relies on `image::imageops::resize` with `FilterType::Lanczos3`: the
/// result is a buffer of exactly `out_w * out_h` RGB pixels, computed from
/// the source pixels and the dimensions alone.
#[verifier::external_body]
pub(crate) fn resize_rgb(
    data: &Vec<u8>,
    src_w: usize,
    src_h: usize,
    out_w: usize,
    out_h: usize,
) -> (r: Vec<u8>)
    requires
        data@.len() == 3 * src_w * src_h,
        1 <= src_w <= u32::MAX,
        1 <= src_h <= u32::MAX,
        1 <= out_w <= u32::MAX,
        1 <= out_h <= u32::MAX,
        3 * out_w * out_h <= usize::MAX,
    ensures
        r@ == lanczos_resample(data@, src_w as int, src_h as int, out_w as int, out_h as int),
        r@.len() == 3 * out_w * out_h,
{
    let img: image::RgbImage = image::RgbImage::from_raw(src_w as u32, src_h as u32, data.clone())
        .expect("buffer length matches the dimensions");
    let resized = image::imageops::resize(
        &img,
        out_w as u32,
        out_h as u32,
        image::imageops::FilterType::Lanczos3,
    );
    resized.into_raw()
}

} // verus!
