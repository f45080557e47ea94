//! The configuration surface: resize filters, hash algorithms, the
//! immutable `HasherConfig` builder, and its validation at build time.

use vstd::prelude::*;

verus! {

/// The largest accepted hash bit length (a 256 x 256 bit grid).
pub const MAX_BITS: u32 = 65536;

/// The resampling filter used when rescaling a grid.
#[derive(Clone, Copy, Debug, PartialEq, Eq, Structural)]
pub enum FilterType {
    Nearest,
    Triangle,
    CatmullRom,
    Gaussian,
    Lanczos3,
}

/// The bit-extraction strategy that reduces a grid to a bit vector.
#[derive(Clone, Copy, Debug, PartialEq, Eq, Structural)]
pub enum HashAlg {
    Mean,
    Gradient,
    VertGradient,
    DoubleGradient,
    Blockhash,
}

/// The filter selected by the low three bits of an options byte.
pub open spec fn spec_filter_from_code(options: u8) -> FilterType {
    let code = options & 0x07;
    if code == 0 {
        FilterType::Nearest
    } else if code == 1 {
        FilterType::Triangle
    } else if code == 2 {
        FilterType::CatmullRom
    } else if code == 3 {
        FilterType::Gaussian
    } else {
        FilterType::Lanczos3
    }
}

/// The algorithm selected by bits three to five of an options byte.
pub open spec fn spec_alg_from_code(options: u8) -> HashAlg {
    let code = (options >> 3) & 0x07;
    if code == 0 {
        HashAlg::Mean
    } else if code == 1 {
        HashAlg::Gradient
    } else if code == 2 {
        HashAlg::VertGradient
    } else if code == 3 {
        HashAlg::DoubleGradient
    } else {
        HashAlg::Blockhash
    }
}

/// Decode a packed options byte into a filter, an algorithm and the two
/// pre-processing toggles: the low three bits pick the filter, the next
/// three the algorithm, and the top two bits are read as the whole shifted
/// byte compared against one, so each toggle is set only when its bit is
/// the highest bit set.
pub fn decode_options(options: u8) -> (r: (FilterType, HashAlg, bool, bool))
    ensures
        r.0 == spec_filter_from_code(options),
        r.1 == spec_alg_from_code(options),
        r.2 == ((options >> 6) == 1),
        r.3 == ((options >> 7) == 1),
{
    let fcode = options & 0x07;
    let filter = if fcode == 0 {
        FilterType::Nearest
    } else if fcode == 1 {
        FilterType::Triangle
    } else if fcode == 2 {
        FilterType::CatmullRom
    } else if fcode == 3 {
        FilterType::Gaussian
    } else {
        FilterType::Lanczos3
    };
    let acode = (options >> 3) & 0x07;
    let alg = if acode == 0 {
        HashAlg::Mean
    } else if acode == 1 {
        HashAlg::Gradient
    } else if acode == 2 {
        HashAlg::VertGradient
    } else if acode == 3 {
        HashAlg::DoubleGradient
    } else {
        HashAlg::Blockhash
    };
    (filter, alg, (options >> 6) == 1, (options >> 7) == 1)
}

/// Whether `n` is a perfect square.
pub open spec fn is_perfect_square(n: int) -> bool {
    exists|r: int| 0 <= r && #[trigger] (r * r) == n
}

/// The exact integer square root test: `Some(k)` with `k * k == n` when
/// `n` is a perfect square, `None` otherwise.
pub fn sqrt_exact(n: u32) -> (r: Option<u32>)
    ensures
        r matches Some(k) ==> k * k == n,
        r is None ==> !is_perfect_square(n as int),
{
    let mut k: u64 = 0;
    let n64 = n as u64;
    while k * k < n64
        invariant
            0 <= k <= n64,
            k <= 0x10000,
            (k as int) * (k as int) <= 0x1_0000_0000,
            forall|j: int| 0 <= j < k ==> #[trigger] (j * j) < n64,
        decreases n64 - k,
    {
        proof {
            assert((k as int) * (k as int) < n64 ==> k as int + 1 <= n64) by (nonlinear_arith);
            assert((k as int) * (k as int) < 0x1_0000_0000 ==> (k as int + 1 <= 0x10000 && (k
                as int + 1) * (k as int + 1) <= 0x1_0000_0000)) by (nonlinear_arith);
        }
        k = k + 1;
    }
    if k * k == n64 {
        Some(k as u32)
    } else {
        proof {
            assert forall|j: int| 0 <= j implies #[trigger] (j * j) != n64 by {
                if j >= k {
                    assert((k as int) * (k as int) <= j * j) by (nonlinear_arith)
                        requires
                            0 <= k as int <= j,
                    ;
                }
            }
        }
        None
    }
}

/// Whether a bit length is acceptable for an algorithm: positive, at most
/// `MAX_BITS`, and a perfect square (every algorithm lays its bits out on
/// a square grid); `DoubleGradient` further needs an even length, so that
/// the two gradient directions can split the bits evenly (the side of an
/// even square is itself even, so each direction gets a side by half-side
/// lattice).
pub open spec fn spec_valid_config(alg: HashAlg, bits: u32) -> bool {
    &&& 1 <= bits <= MAX_BITS
    &&& is_perfect_square(bits as int)
    &&& (alg is DoubleGradient ==> bits % 2 == 0)
}

/// An immutable, validated configuration bundle. Built up through the
/// chained builder methods; every invalid combination is rejected when the
/// hasher is built, never at hash time.
#[derive(Clone, Copy, Debug, PartialEq, Eq, Structural)]
pub struct HasherConfig {
    pub filter: FilterType,
    pub alg: HashAlg,
    pub bit_length: u32,
    pub preproc_dct: bool,
    pub preproc_gauss: bool,
}

impl HasherConfig {
    /// The default configuration: Lanczos-3 resampling, mean-threshold
    /// hashing, 64 hash bits, no pre-processing.
    pub fn new() -> (r: HasherConfig)
        ensures
            r == (HasherConfig {
                filter: FilterType::Lanczos3,
                alg: HashAlg::Mean,
                bit_length: 64u32,
                preproc_dct: false,
                preproc_gauss: false,
            }),
    {
        HasherConfig {
            filter: FilterType::Lanczos3,
            alg: HashAlg::Mean,
            bit_length: 64,
            preproc_dct: false,
            preproc_gauss: false,
        }
    }

    /// Select the resampling filter.
    pub fn resize_filter(self, filter: FilterType) -> (r: HasherConfig)
        ensures
            r == (HasherConfig { filter, ..self }),
    {
        HasherConfig { filter, ..self }
    }

    /// Select the bit-extraction algorithm.
    pub fn hash_alg(self, alg: HashAlg) -> (r: HasherConfig)
        ensures
            r == (HasherConfig { alg, ..self }),
    {
        HasherConfig { alg, ..self }
    }

    /// Select the output bit length; validated when the hasher is built.
    pub fn hash_bit_length(self, bit_length: u32) -> (r: HasherConfig)
        ensures
            r == (HasherConfig { bit_length, ..self }),
    {
        HasherConfig { bit_length, ..self }
    }

    /// Enable frequency-domain compaction before hashing.
    pub fn preproc_dct(self) -> (r: HasherConfig)
        ensures
            r == (HasherConfig { preproc_dct: true, ..self }),
    {
        HasherConfig { preproc_dct: true, ..self }
    }

    /// Enable difference-of-Gaussians edge enhancement before hashing.
    pub fn preproc_diff_gauss(self) -> (r: HasherConfig)
        ensures
            r == (HasherConfig { preproc_gauss: true, ..self }),
    {
        HasherConfig { preproc_gauss: true, ..self }
    }
}

} // verus!
