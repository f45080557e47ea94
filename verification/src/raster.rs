//! The pixel source adapter: a validated decoded raster image and its
//! reduction to the grayscale sample grid the engine operates on.

use vstd::prelude::*;

use crate::HashError;
use crate::grid::GrayscaleGrid;
use crate::grid::GridModel;
use crate::grid::MAX_DIM;

verus! {

/// The fixed luma weights (red, green, blue), summing to 256 so that the
/// weighted sum of three `u8` samples divided by 256 stays in `0..=255`.
pub const LUMA_R: u32 = 77;

pub const LUMA_G: u32 = 150;

pub const LUMA_B: u32 = 29;

/// The luma of one pixel given its channel samples, as the adapter computes
/// it: single-channel and luma+alpha pixels pass their first sample through,
/// RGB and RGBA pixels take the fixed weighted sum of the first three.
pub open spec fn spec_luma(channels: int, s0: u8, s1: u8, s2: u8) -> u8 {
    if channels <= 2 {
        s0
    } else {
        ((LUMA_R * s0 + LUMA_G * s1 + LUMA_B * s2) / 256) as u8
    }
}

/// A decoded raster image: declared dimensions, a channel count in `1..=4`
/// (luma, luma+alpha, RGB, RGBA), and a flat row-major sample buffer of
/// exactly `width * height * channels` bytes. The invariant is established
/// at construction and never broken: a mismatched buffer is a construction
/// error, never silently truncated or padded.
pub struct RasterImage {
    pub width: usize,
    pub height: usize,
    pub channels: usize,
    pub samples: Vec<u8>,
}

impl RasterImage {
    pub open spec fn wf(self) -> bool {
        &&& 1 <= self.width <= MAX_DIM as int
        &&& 1 <= self.height <= MAX_DIM as int
        &&& 1 <= self.channels <= 4
        &&& self.samples@.len() == self.width * self.height * self.channels
    }

    pub open spec fn spec_width(self) -> int {
        self.width as int
    }

    pub open spec fn spec_height(self) -> int {
        self.height as int
    }

    pub open spec fn spec_channels(self) -> int {
        self.channels as int
    }

    pub open spec fn spec_samples(self) -> Seq<u8> {
        self.samples@
    }

    /// The grayscale model this image reduces to: same dimensions, each
    /// pixel replaced by its luma.
    pub open spec fn gray_model(self) -> GridModel {
        GridModel {
            width: self.width as int,
            height: self.height as int,
            data: Seq::new(
                (self.width * self.height) as nat,
                |i: int|
                    spec_luma(
                        self.channels as int,
                        self.samples@[i * self.channels],
                        self.samples@[if self.channels as int >= 2 {
                            i * self.channels + 1
                        } else {
                            i * self.channels
                        }],
                        self.samples@[if self.channels as int >= 3 {
                            i * self.channels + 2
                        } else {
                            i * self.channels
                        }],
                    ),
            ),
        }
    }

    /// Validated construction. Succeeds exactly when both dimensions are in
    /// `1..=MAX_DIM`, the channel count is in `1..=4`, and the buffer length
    /// matches `width * height * channels`; a bad dimension or channel count
    /// is `InvalidDimensions`, a bad buffer length `BufferSizeMismatch`.
    pub fn new(width: u32, height: u32, channels: u32, samples: Vec<u8>) -> (r: Result<
        RasterImage,
        HashError,
    >)
        ensures
            (1 <= width <= MAX_DIM && 1 <= height <= MAX_DIM && 1 <= channels <= 4) ==> (if samples@.len()
                == width * height * channels {
                r matches Ok(img) && img.wf() && img.spec_width() == width && img.spec_height()
                    == height && img.spec_channels() == channels && img.spec_samples() == samples@
            } else {
                r == Err::<RasterImage, HashError>(HashError::BufferSizeMismatch)
            }),
            !(1 <= width <= MAX_DIM && 1 <= height <= MAX_DIM && 1 <= channels <= 4) ==> r
                == Err::<RasterImage, HashError>(HashError::InvalidDimensions),
    {
        if width < 1 || width > MAX_DIM as u32 || height < 1 || height > MAX_DIM as u32 || channels
            < 1 || channels > 4 {
            return Err(HashError::InvalidDimensions);
        }
        let w = width as usize;
        let h = height as usize;
        let c = channels as usize;
        proof {
            assert(w * h <= MAX_DIM as int * MAX_DIM as int && w * h * c <= MAX_DIM as int
                * MAX_DIM as int * 4) by (nonlinear_arith)
                requires
                    1 <= w <= MAX_DIM as int,
                    1 <= h <= MAX_DIM as int,
                    1 <= c <= 4,
            ;
        }
        if samples.len() != w * h * c {
            return Err(HashError::BufferSizeMismatch);
        }
        Ok(RasterImage { width: w, height: h, channels: c, samples })
    }

    /// The pixel source adapter: reduce this image to a grayscale grid of
    /// identical width and height, each pixel mapped to its luma.
    pub fn to_grayscale(&self) -> (r: GrayscaleGrid)
        requires
            self.wf(),
        ensures
            r.wf(),
            r@ == self.gray_model(),
    {
        proof {
            assert(1 <= self.width * self.height <= MAX_DIM as int * MAX_DIM as int && self.width
                * self.height * self.channels <= MAX_DIM as int * MAX_DIM as int * 4)
                by (nonlinear_arith)
                requires
                    1 <= self.width as int <= MAX_DIM as int,
                    1 <= self.height as int <= MAX_DIM as int,
                    1 <= self.channels <= 4,
            ;
        }
        let n: usize = self.width * self.height;
        let mut data: Vec<u8> = Vec::new();
        let mut i: usize = 0;
        while i < n
            invariant
                i <= n,
                data@.len() == i,
                forall|k: int| 0 <= k < i ==> data@[k] == self.gray_model().data[k],
            decreases n - i,
        {
            proof {
                let c = self.channels as int;
                let ni = n as int;
                assert(0 <= (i as int) * c && (i as int) * c + c <= ni * c) by (nonlinear_arith)
                    requires
                        0 <= (i as int) < ni,
                        1 <= c,
                ;
                assert(ni * c == self.width * self.height * self.channels);
            }
            let base: usize = i * self.channels;
            let lum: u8 = if self.channels <= 2 {
                self.samples[base]
            } else {
                let s0 = self.samples[base] as u32;
                let s1 = self.samples[base + 1] as u32;
                let s2 = self.samples[base + 2] as u32;
                ((LUMA_R * s0 + LUMA_G * s1 + LUMA_B * s2) / 256) as u8
            };
            assert(lum == self.gray_model().data[i as int]);
            data.push(lum);
            i = i + 1;
        }
        proof {
            assert(data@ =~= self.gray_model().data);
        }
        GrayscaleGrid { width: self.width, height: self.height, data }
    }
}

} // verus!
