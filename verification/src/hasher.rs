//! The hasher: a validated configuration snapshot bound to the pipeline
//! that turns a raster image into a perceptual hash.

use vstd::prelude::*;

use crate::HashError;
use crate::bits::blockhash_bits;
use crate::bits::h_bits;
use crate::bits::mean_bits;
use crate::bits::spec_blockhash_bits;
use crate::bits::spec_h_bits;
use crate::bits::spec_mean_bits;
use crate::bits::spec_v_bits;
use crate::bits::v_bits;
use crate::config::HashAlg;
use crate::config::HasherConfig;
use crate::config::MAX_BITS;
use crate::config::is_perfect_square;
use crate::config::spec_valid_config;
use crate::config::sqrt_exact;
use crate::grid::GridModel;
use crate::hash::ImageHash;
use crate::preproc::compact;
use crate::preproc::diff_gauss;
use crate::preproc::spec_compact;
use crate::preproc::spec_dog;
use crate::raster::RasterImage;
use crate::resize::resize;
use crate::resize::spec_resize;

verus! {

/// An immutable hasher: the configuration it was built from plus the
/// resolved side length of its bit grid. Building it validates the
/// configuration once; hashing never fails afterwards.
pub struct Hasher {
    pub config: HasherConfig,
    pub side: u32,
}

impl Hasher {
    /// The resolved side length squares to the bit length. For the double
    /// gradient the length is also even, which makes the side even, so
    /// each gradient direction gets a whole side by half-side lattice.
    pub open spec fn wf(self) -> bool {
        &&& spec_valid_config(self.config.alg, self.config.bit_length)
        &&& 1 <= self.side <= 256
        &&& self.side * self.side == self.config.bit_length
    }
}

/// The side of an even perfect square is even.
proof fn lemma_even_square_side(side: int)
    requires
        0 <= side,
        (side * side) % 2 == 0,
    ensures
        side % 2 == 0,
        2 * (side / 2) == side,
{
    let half = side / 2;
    vstd::arithmetic::div_mod::lemma_fundamental_div_mod(side, 2);
    if side % 2 == 1 {
        assert(side * side == 2 * (2 * half * half + 2 * half) + 1) by (nonlinear_arith)
            requires
                side == 2 * half + 1,
        ;
        vstd::arithmetic::div_mod::lemma_fundamental_div_mod_converse_mod(
            side * side,
            2,
            2 * half * half + 2 * half,
            1,
        );
    }
}

/// The working dimensions a hash algorithm asks of the resizer: the bit
/// grid itself for the mean threshold, one extra column or row for the
/// gradients (each bit compares two neighbours), a half-height grid with
/// one extra column and row for the double gradient (each direction
/// extracts a side by half-side lattice), and the block grid for the
/// block hash (which only resizes when compaction needs a double-size
/// source).
pub open spec fn spec_target(alg: HashAlg, side: int) -> (int, int) {
    match alg {
        HashAlg::Mean => (side, side),
        HashAlg::Gradient => (side + 1, side),
        HashAlg::VertGradient => (side, side + 1),
        HashAlg::DoubleGradient => (side + 1, side / 2 + 1),
        HashAlg::Blockhash => (side, side),
    }
}

/// The grid the bit extraction runs on: the grayscale image resized to
/// the working dimensions (at double size first when frequency-domain
/// compaction is enabled, which then halves it back; the block hash
/// works at the image's own resolution unless compaction is enabled),
/// then optionally edge-enhanced. Compaction always precedes edge
/// enhancement.
pub open spec fn spec_preprocessed(cfg: HasherConfig, side: int, m0: GridModel) -> GridModel {
    let dims = spec_target(cfg.alg, side);
    let m1 = if cfg.alg == HashAlg::Blockhash && !cfg.preproc_dct {
        m0
    } else if cfg.preproc_dct {
        spec_compact(spec_resize(m0, 2 * dims.0, 2 * dims.1, cfg.filter))
    } else {
        spec_resize(m0, dims.0, dims.1, cfg.filter)
    };
    if cfg.preproc_gauss {
        spec_dog(m1)
    } else {
        m1
    }
}

/// The hash bits a configuration produces from a grayscale grid: the
/// configured extraction applied to the pre-processed grid, with the
/// double gradient concatenating its horizontal bits (a side by half-side
/// lattice) before its vertical ones (the same lattice).
pub open spec fn spec_hash_bits(cfg: HasherConfig, side: int, m0: GridModel) -> Seq<bool> {
    let m2 = spec_preprocessed(cfg, side, m0);
    match cfg.alg {
        HashAlg::Mean => spec_mean_bits(m2),
        HashAlg::Gradient => spec_h_bits(m2, side, side),
        HashAlg::VertGradient => spec_v_bits(m2, side, side),
        HashAlg::DoubleGradient => spec_h_bits(m2, side, side / 2) + spec_v_bits(
            m2,
            side,
            side / 2,
        ),
        HashAlg::Blockhash => spec_blockhash_bits(m2, side),
    }
}

impl HasherConfig {
    /// Build the hasher this configuration describes. Succeeds exactly
    /// when the bit length validates against the algorithm
    /// (`spec_valid_config`); every invalid combination is rejected here
    /// with `ConfigurationError`, never deferred to hash time.
    pub fn to_hasher(self) -> (r: Result<Hasher, HashError>)
        ensures
            spec_valid_config(self.alg, self.bit_length) ==> (r matches Ok(h) && h.wf() && h.config
                == self),
            !spec_valid_config(self.alg, self.bit_length) ==> r == Err::<Hasher, HashError>(
                HashError::ConfigurationError,
            ),
    {
        if self.bit_length < 1 || self.bit_length > MAX_BITS {
            return Err(HashError::ConfigurationError);
        }
        match self.alg {
            HashAlg::DoubleGradient => {
                if self.bit_length % 2 != 0 {
                    return Err(HashError::ConfigurationError);
                }
            },
            _ => {},
        }
        match sqrt_exact(self.bit_length) {
            None => Err(HashError::ConfigurationError),
            Some(k) => {
                proof {
                    assert((k as int) * (k as int) == self.bit_length as int);
                    assert(is_perfect_square(self.bit_length as int));
                    assert(1 <= k as int && k as int <= 256) by (nonlinear_arith)
                        requires
                            (k as int) * (k as int) == self.bit_length as int,
                            1 <= self.bit_length <= 65536,
                    ;
                }
                Ok(Hasher { config: self, side: k })
            },
        }
    }
}

impl Hasher {
    /// Hash an image: reduce it to grayscale, resize and pre-process it
    /// as configured, extract the configured bits. The result is a pure
    /// function of the configuration and the pixel data, so hashing the
    /// same image with the same hasher always yields bit-identical
    /// hashes, and the bit vector is exactly `bit_length` long.
    pub fn hash_image(&self, img: &RasterImage) -> (r: ImageHash)
        requires
            self.wf(),
            img.wf(),
        ensures
            r.config == self.config,
            r.bits@ == spec_hash_bits(self.config, self.side as int, img.gray_model()),
            r.wf(),
    {
        let g0 = img.to_grayscale();
        let side = self.side as usize;
        let half = side / 2;
        proof {
            if self.config.alg is DoubleGradient {
                lemma_even_square_side(side as int);
                assert(side as int >= 2);
            }
        }
        let dims: (usize, usize) = match self.config.alg {
            HashAlg::Mean => (side, side),
            HashAlg::Gradient => (side + 1, side),
            HashAlg::VertGradient => (side, side + 1),
            HashAlg::DoubleGradient => (side + 1, half + 1),
            HashAlg::Blockhash => (side, side),
        };
        let skip_resize = match self.config.alg {
            HashAlg::Blockhash => !self.config.preproc_dct,
            _ => false,
        };
        let g1 = if skip_resize {
            g0
        } else if self.config.preproc_dct {
            let doubled = resize(&g0, 2 * dims.0, 2 * dims.1, self.config.filter);
            compact(&doubled)
        } else {
            resize(&g0, dims.0, dims.1, self.config.filter)
        };
        let g2 = if self.config.preproc_gauss {
            diff_gauss(&g1)
        } else {
            g1
        };
        proof {
            assert(g2@ == spec_preprocessed(self.config, self.side as int, img.gray_model()));
        }
        let bits: Vec<bool> = match self.config.alg {
            HashAlg::Mean => mean_bits(&g2),
            HashAlg::Gradient => h_bits(&g2, side, side),
            HashAlg::VertGradient => v_bits(&g2, side, side),
            HashAlg::DoubleGradient => {
                let mut hb = h_bits(&g2, side, half);
                let mut vb = v_bits(&g2, side, half);
                hb.append(&mut vb);
                hb
            },
            HashAlg::Blockhash => blockhash_bits(&g2, side),
        };
        proof {
            let s = self.side as int;
            assert(side as int == s);
            assert(s * s == (side as int) * (side as int)) by (nonlinear_arith)
                requires
                    side as int == s,
            ;
            if self.config.alg is DoubleGradient {
                assert((side as int) * (half as int) + (side as int) * (half as int) == (side
                    as int) * (side as int)) by (nonlinear_arith)
                    requires
                        2 * (half as int) == side as int,
                ;
            }
            crate::bits::lemma_lattice_bound(s, s);
        }
        ImageHash { bits, config: self.config }
    }
}

/// Hashing is deterministic: two hashes whose bits both come from the
/// same configuration and the same grayscale grid are bit-identical, and
/// their Hamming distance is zero.
pub proof fn lemma_hash_deterministic(
    a: ImageHash,
    b: ImageHash,
    cfg: HasherConfig,
    side: int,
    m: GridModel,
)
    requires
        a.bits@ == spec_hash_bits(cfg, side, m),
        b.bits@ == spec_hash_bits(cfg, side, m),
    ensures
        a.bits@ == b.bits@,
        crate::hash::hamming(a.bits@, b.bits@) == 0,
{
    crate::hash::lemma_hamming_self(a.bits@);
}

} // verus!
