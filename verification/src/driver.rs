//! Driving the engine from a packed byte description: one byte each for
//! width and height (offset by one, so zero-sized images cannot be asked
//! for), one options byte selecting filter, algorithm and pre-processing,
//! and a flat single-channel sample buffer.

use vstd::prelude::*;

use crate::config::HashAlg;
use crate::config::HasherConfig;
use crate::config::spec_alg_from_code;
use crate::config::spec_filter_from_code;
use crate::config::decode_options;
use crate::config::spec_valid_config;
use crate::grid::GridModel;
use crate::hash::ImageHash;
use crate::hasher::spec_hash_bits;
use crate::raster::RasterImage;

verus! {

/// The configuration a packed options byte selects, at the default 64-bit
/// hash length.
pub open spec fn spec_packed_config(options: u8) -> HasherConfig {
    HasherConfig {
        filter: spec_filter_from_code(options),
        alg: spec_alg_from_code(options),
        bit_length: 64u32,
        preproc_dct: (options >> 6) == 1,
        preproc_gauss: (options >> 7) == 1,
    }
}

/// Hash a packed input: decode the options byte, build the image from the
/// buffer as a single-channel raster of `(width + 1) x (height + 1)`
/// pixels, and hash it at the default 64-bit length, which every
/// algorithm accepts (64 is an even perfect square). Yields `Some` exactly
/// when the buffer length matches the declared size; the hash is then
/// exactly the one the engine specification assigns to that configuration
/// and sample grid.
pub fn hash_packed_input(width: u8, height: u8, options: u8, img: Vec<u8>) -> (r: Option<
    ImageHash,
>)
    ensures
        img@.len() == (width + 1) * (height + 1) ==> (r matches Some(h) && h.wf() && h.config
            == spec_packed_config(options) && h.bits@ == spec_hash_bits(
            spec_packed_config(options),
            8,
            GridModel {
                width: width + 1,
                height: height + 1,
                data: img@,
            },
        )),
        img@.len() != (width + 1) * (height + 1) ==> r is None,
{
    let (filter, alg, dct, gauss) = decode_options(options);
    let w = width as u32 + 1;
    let h = height as u32 + 1;
    let image = match RasterImage::new(w, h, 1, img) {
        Ok(image) => image,
        Err(_) => {
            return None;
        },
    };
    let mut cfg = HasherConfig::new().resize_filter(filter).hash_alg(alg);
    if dct {
        cfg = cfg.preproc_dct();
    }
    if gauss {
        cfg = cfg.preproc_diff_gauss();
    }
    proof {
        assert(8 * 8 == 64int);
        assert(spec_valid_config(cfg.alg, cfg.bit_length));
    }
    let hasher = match cfg.to_hasher() {
        Ok(hasher) => hasher,
        Err(_) => {
            proof {
                assert(false);
            }
            return None;
        },
    };
    proof {
        assert(hasher.side as int == 8) by (nonlinear_arith)
            requires
                1 <= hasher.side as int <= 256,
                (hasher.side as int) * (hasher.side as int) == 64,
        ;
        assert forall|i: int|
            0 <= i < image.gray_model().data.len() implies image.gray_model().data[i]
            == image.spec_samples()[i] by {
            assert(i * 1 == i);
        }
        assert(image.gray_model().data =~= image.spec_samples());
        assert(image.gray_model() == (GridModel {
            width: width + 1,
            height: height + 1,
            data: image.spec_samples(),
        }));
    }
    Some(hasher.hash_image(&image))
}

} // verus!
