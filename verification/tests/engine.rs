use imghash::HashError;
use imghash::bits::blockhash_bits;
use imghash::bits::h_bits;
use imghash::bits::mean_bits;
use imghash::bits::v_bits;
use imghash::config::FilterType;
use imghash::config::HashAlg;
use imghash::config::HasherConfig;
use imghash::config::decode_options;
use imghash::driver::hash_packed_input;
use imghash::grid::GrayscaleGrid;
use imghash::preproc::compact;
use imghash::preproc::diff_gauss;
use imghash::raster::RasterImage;
use imghash::resize::kernel_w;
use imghash::resize::resize;

fn grid(width: usize, height: usize, data: Vec<u8>) -> GrayscaleGrid {
    assert_eq!(data.len(), width * height);
    GrayscaleGrid { width, height, data }
}

fn mean_of(g: &GrayscaleGrid) -> f64 {
    let sum: u64 = g.data.iter().map(|&v| v as u64).sum();
    sum as f64 / g.data.len() as f64
}

const ALL_FILTERS: [FilterType; 5] = [
    FilterType::Nearest,
    FilterType::Triangle,
    FilterType::CatmullRom,
    FilterType::Gaussian,
    FilterType::Lanczos3,
];

#[test]
fn hashing_is_deterministic() {
    let samples: Vec<u8> = (0..64u32).map(|i| (i * 37 % 256) as u8).collect();
    let img = RasterImage::new(8, 8, 1, samples).unwrap();
    for alg in [
        HashAlg::Mean,
        HashAlg::Gradient,
        HashAlg::VertGradient,
        HashAlg::DoubleGradient,
        HashAlg::Blockhash,
    ] {
        let hasher = HasherConfig::new()
            .hash_alg(alg)
            .resize_filter(FilterType::Triangle)
            .to_hasher()
            .unwrap();
        let a = hasher.hash_image(&img);
        let b = hasher.hash_image(&img);
        assert_eq!(a.to_bytes(), b.to_bytes());
        assert_eq!(a.dist(&b).unwrap(), 0);
    }
}

#[test]
fn resize_round_trip_roughly_preserves_mean() {
    let data: Vec<u8> = (0..64u32).map(|i| (40 + i * 3) as u8).collect();
    let g = grid(8, 8, data);
    let before = mean_of(&g);
    for f in ALL_FILTERS {
        let down = resize(&g, 4, 4, f);
        let back = resize(&down, 8, 8, f);
        assert_eq!(back.width, 8);
        assert_eq!(back.height, 8);
        let after = mean_of(&back);
        assert!(
            (before - after).abs() < 48.0,
            "mean drifted too far under {:?}: {} vs {}",
            f,
            before,
            after
        );
    }
}

#[test]
fn resize_to_same_dimensions_keeps_mean_close() {
    let data: Vec<u8> = (0..64u32).map(|i| (i * 4 % 256) as u8).collect();
    let g = grid(8, 8, data);
    let before = mean_of(&g);
    for f in ALL_FILTERS {
        let same = resize(&g, 8, 8, f);
        let after = mean_of(&same);
        assert!((before - after).abs() < 32.0);
    }
    let nearest = resize(&g, 8, 8, FilterType::Nearest);
    assert_eq!(nearest.data, g.data);
}

#[test]
fn distance_to_self_is_zero() {
    let img = RasterImage::new(3, 3, 1, vec![9; 9]).unwrap();
    let hasher = HasherConfig::new().to_hasher().unwrap();
    let h = hasher.hash_image(&img);
    assert_eq!(h.dist(&h).unwrap(), 0);
}

#[test]
fn distance_is_symmetric() {
    let a_img = RasterImage::new(4, 4, 1, (0..16).map(|i| i as u8 * 16).collect()).unwrap();
    let b_img = RasterImage::new(4, 4, 1, (0..16).map(|i| 255 - i as u8 * 13).collect()).unwrap();
    let hasher = HasherConfig::new()
        .hash_alg(HashAlg::Gradient)
        .to_hasher()
        .unwrap();
    let a = hasher.hash_image(&a_img);
    let b = hasher.hash_image(&b_img);
    assert_eq!(a.dist(&b).unwrap(), b.dist(&a).unwrap());
}

#[test]
fn one_pixel_image_hashes_under_every_algorithm() {
    let img = RasterImage::new(1, 1, 1, vec![137]).unwrap();
    for (alg, bits) in [
        (HashAlg::Mean, 64),
        (HashAlg::Gradient, 64),
        (HashAlg::VertGradient, 64),
        (HashAlg::DoubleGradient, 64),
        (HashAlg::Blockhash, 64),
    ] {
        for f in ALL_FILTERS {
            for (dct, gauss) in [(false, false), (true, false), (false, true), (true, true)] {
                let mut cfg = HasherConfig::new()
                    .hash_alg(alg)
                    .resize_filter(f)
                    .hash_bit_length(bits);
                if dct {
                    cfg = cfg.preproc_dct();
                }
                if gauss {
                    cfg = cfg.preproc_diff_gauss();
                }
                let hasher = cfg.to_hasher().unwrap();
                let h = hasher.hash_image(&img);
                assert_eq!(h.bit_len(), bits as usize);
            }
        }
    }
}

#[test]
fn zero_bit_length_is_a_configuration_error() {
    let r = HasherConfig::new().hash_bit_length(0).to_hasher();
    assert!(matches!(r, Err(HashError::ConfigurationError)));
}

#[test]
fn odd_double_gradient_length_is_a_configuration_error() {
    let r = HasherConfig::new()
        .hash_alg(HashAlg::DoubleGradient)
        .hash_bit_length(9)
        .to_hasher();
    assert!(matches!(r, Err(HashError::ConfigurationError)));
    let even_non_square = HasherConfig::new()
        .hash_alg(HashAlg::DoubleGradient)
        .hash_bit_length(32)
        .to_hasher();
    assert!(matches!(even_non_square, Err(HashError::ConfigurationError)));
    let ok = HasherConfig::new()
        .hash_alg(HashAlg::DoubleGradient)
        .hash_bit_length(36)
        .to_hasher();
    assert!(ok.is_ok());
    let default_len = HasherConfig::new()
        .hash_alg(HashAlg::DoubleGradient)
        .to_hasher();
    assert!(default_len.is_ok());
}

#[test]
fn non_square_bit_length_is_a_configuration_error() {
    let r = HasherConfig::new().hash_bit_length(12).to_hasher();
    assert!(matches!(r, Err(HashError::ConfigurationError)));
}

#[test]
fn all_white_mean_hash_sets_every_bit() {
    let img = RasterImage::new(2, 2, 1, vec![255; 4]).unwrap();
    let hasher = HasherConfig::new()
        .hash_alg(HashAlg::Mean)
        .resize_filter(FilterType::Nearest)
        .hash_bit_length(4)
        .to_hasher()
        .unwrap();
    let h = hasher.hash_image(&img);
    assert_eq!(h.bit_len(), 4);
    for i in 0..4 {
        assert!(h.bit(i), "inclusive tie-break: equal samples set the bit");
    }
}

#[test]
fn thin_images_resize_without_reading_out_of_bounds() {
    let row = grid(300, 1, (0..300).map(|i| (i % 256) as u8).collect());
    let col = grid(1, 300, (0..300).map(|i| (i % 256) as u8).collect());
    for f in ALL_FILTERS {
        let a = resize(&row, 8, 8, f);
        assert_eq!((a.width, a.height, a.data.len()), (8, 8, 64));
        let b = resize(&col, 8, 8, f);
        assert_eq!((b.width, b.height, b.data.len()), (8, 8, 64));
    }
    let img = RasterImage::new(1, 300, 1, vec![77; 300]).unwrap();
    let hasher = HasherConfig::new()
        .resize_filter(FilterType::Nearest)
        .to_hasher()
        .unwrap();
    let h = hasher.hash_image(&img);
    assert_eq!(h.bit_len(), 64);
}

#[test]
fn short_buffer_is_a_size_mismatch() {
    let r = RasterImage::new(5, 5, 3, vec![0; 70]);
    assert!(matches!(r, Err(HashError::BufferSizeMismatch)));
    let ok = RasterImage::new(5, 5, 3, vec![0; 75]);
    assert!(ok.is_ok());
}

#[test]
fn zero_dimensions_are_invalid() {
    assert!(matches!(
        RasterImage::new(0, 5, 1, vec![]),
        Err(HashError::InvalidDimensions)
    ));
    assert!(matches!(
        RasterImage::new(5, 0, 1, vec![]),
        Err(HashError::InvalidDimensions)
    ));
    assert!(matches!(
        RasterImage::new(5, 5, 0, vec![]),
        Err(HashError::InvalidDimensions)
    ));
    assert!(matches!(
        RasterImage::new(5, 5, 5, vec![0; 125]),
        Err(HashError::InvalidDimensions)
    ));
    assert!(matches!(
        RasterImage::new(1 << 20, 1 << 20, 1, vec![]),
        Err(HashError::InvalidDimensions)
    ));
}

#[test]
fn hashes_from_different_configurations_do_not_compare() {
    let img = RasterImage::new(4, 4, 1, vec![8; 16]).unwrap();
    let a = HasherConfig::new()
        .hash_alg(HashAlg::Mean)
        .to_hasher()
        .unwrap()
        .hash_image(&img);
    let b = HasherConfig::new()
        .hash_alg(HashAlg::Gradient)
        .to_hasher()
        .unwrap()
        .hash_image(&img);
    assert!(matches!(a.dist(&b), Err(HashError::ProgrammingError)));
}

#[test]
fn options_byte_decodes_each_field() {
    let (f, a, dct, gauss) = decode_options(0b0000_0000);
    assert_eq!((f, a, dct, gauss), (FilterType::Nearest, HashAlg::Mean, false, false));
    let (f, a, dct, gauss) = decode_options(0b0101_1010);
    assert_eq!(
        (f, a, dct, gauss),
        (FilterType::CatmullRom, HashAlg::DoubleGradient, true, false)
    );
    let (f, a, dct, gauss) = decode_options(0b1000_0100);
    assert_eq!((f, a, dct, gauss), (FilterType::Lanczos3, HashAlg::Mean, false, true));
    let (f, a, _, _) = decode_options(0b0011_1111);
    assert_eq!((f, a), (FilterType::Lanczos3, HashAlg::Blockhash));
}

#[test]
fn nearest_resize_has_exact_samples() {
    let g = grid(2, 2, vec![10, 20, 30, 40]);
    let up = resize(&g, 4, 4, FilterType::Nearest);
    assert_eq!(
        up.data,
        vec![10, 10, 20, 20, 10, 10, 20, 20, 30, 30, 40, 40, 30, 30, 40, 40]
    );
}

#[test]
fn bytes_pack_bits_least_significant_first() {
    let img = RasterImage::new(2, 2, 1, vec![255; 4]).unwrap();
    let hasher = HasherConfig::new()
        .hash_alg(HashAlg::Mean)
        .hash_bit_length(4)
        .to_hasher()
        .unwrap();
    let h = hasher.hash_image(&img);
    assert_eq!(h.to_bytes(), vec![0b0000_1111]);
}

#[test]
fn gradient_bits_compare_row_neighbours() {
    let g = grid(3, 2, vec![1, 2, 2, 5, 4, 6]);
    let bits = h_bits(&g, 2, 2);
    assert_eq!(bits, vec![true, false, false, true]);
}

#[test]
fn vertical_gradient_bits_compare_column_neighbours() {
    let g = grid(2, 3, vec![1, 5, 2, 4, 2, 6]);
    let bits = v_bits(&g, 2, 2);
    assert_eq!(bits, vec![true, false, false, true]);
}

#[test]
fn mean_bits_use_inclusive_threshold() {
    let g = grid(2, 2, vec![0, 100, 200, 56]);
    let bits = mean_bits(&g);
    assert_eq!(bits, vec![false, true, true, false]);
    let uniform = grid(2, 2, vec![7; 4]);
    assert_eq!(mean_bits(&uniform), vec![true; 4]);
}

#[test]
fn blockhash_bits_compare_against_the_median() {
    let g = grid(2, 2, vec![0, 100, 200, 50]);
    let bits = blockhash_bits(&g, 2);
    assert_eq!(bits, vec![false, false, true, false]);
}

#[test]
fn blockhash_degrades_gracefully_on_tiny_grids() {
    let g = grid(1, 1, vec![42]);
    let bits = blockhash_bits(&g, 8);
    assert_eq!(bits.len(), 64);
    assert!(bits.iter().all(|&b| !b));
}

#[test]
fn compaction_halves_dimensions_and_averages() {
    let g = grid(2, 2, vec![10, 20, 30, 40]);
    let c = compact(&g);
    assert_eq!((c.width, c.height), (1, 1));
    assert_eq!(c.data, vec![25]);
    let wide = grid(3, 1, vec![8, 16, 32]);
    let cw = compact(&wide);
    assert_eq!((cw.width, cw.height), (2, 1));
    assert_eq!(cw.data, vec![(8 + 16 + 8 + 16) / 4, (32 + 32 + 32 + 32) / 4]);
}

#[test]
fn edge_enhancement_centres_uniform_grids() {
    let g = grid(4, 3, vec![90; 12]);
    let d = diff_gauss(&g);
    assert_eq!((d.width, d.height), (4, 3));
    assert!(d.data.iter().all(|&v| v == 128));
}

#[test]
fn packed_input_hashes_when_well_formed() {
    let h = hash_packed_input(1, 1, 0, vec![0, 64, 128, 255]).unwrap();
    assert_eq!(h.bit_len(), 64);
    assert_eq!(h.config.bit_length, 64);
    assert_eq!(h.config.filter, FilterType::Nearest);
}

#[test]
fn packed_input_rejects_mismatched_buffers_only() {
    assert!(hash_packed_input(1, 1, 0, vec![0, 64, 128]).is_none());
    assert!(hash_packed_input(1, 1, 0, vec![0, 64, 128, 255, 9]).is_none());
    for alg_code in 0..5u8 {
        let h = hash_packed_input(1, 1, alg_code << 3, vec![0, 64, 128, 255]).unwrap();
        assert_eq!(h.bit_len(), 64);
    }
}

#[test]
fn builders_do_not_mutate_earlier_configurations() {
    let base = HasherConfig::new();
    let changed = base
        .hash_alg(HashAlg::Blockhash)
        .resize_filter(FilterType::Triangle)
        .preproc_dct();
    assert_eq!(base.alg, HashAlg::Mean);
    assert_eq!(base.filter, FilterType::Lanczos3);
    assert!(!base.preproc_dct);
    assert_eq!(changed.alg, HashAlg::Blockhash);
    assert_eq!(changed.filter, FilterType::Triangle);
    assert!(changed.preproc_dct);
    let first = base.to_hasher().unwrap();
    let second = changed.to_hasher().unwrap();
    assert_eq!(first.config.alg, HashAlg::Mean);
    assert_eq!(second.config.alg, HashAlg::Blockhash);
}

#[test]
fn rgb_and_rgba_images_reduce_to_the_same_luma() {
    let rgb = RasterImage::new(2, 1, 3, vec![10, 200, 30, 90, 90, 90]).unwrap();
    let rgba = RasterImage::new(2, 1, 4, vec![10, 200, 30, 0, 90, 90, 90, 255]).unwrap();
    let hasher = HasherConfig::new().to_hasher().unwrap();
    let a = hasher.hash_image(&rgb);
    let b = hasher.hash_image(&rgba);
    assert_eq!(a.to_bytes(), b.to_bytes());
}

#[test]
fn double_gradient_concatenates_both_directions() {
    let samples: Vec<u8> = (0..36u32).map(|i| (i * 7 % 251) as u8).collect();
    let img = RasterImage::new(6, 6, 1, samples).unwrap();
    let hasher = HasherConfig::new()
        .hash_alg(HashAlg::DoubleGradient)
        .hash_bit_length(16)
        .to_hasher()
        .unwrap();
    let h = hasher.hash_image(&img);
    assert_eq!(h.bit_len(), 16);
    let default_len = HasherConfig::new()
        .hash_alg(HashAlg::DoubleGradient)
        .to_hasher()
        .unwrap()
        .hash_image(&img);
    assert_eq!(default_len.bit_len(), 64);
}

#[test]
fn luma_uses_the_fixed_weighted_sum() {
    let rgb = RasterImage::new(1, 1, 3, vec![10, 200, 30]).unwrap();
    let g = rgb.to_grayscale();
    assert_eq!(g.data, vec![((77 * 10 + 150 * 200 + 29 * 30) / 256) as u8]);
    let luma_only = RasterImage::new(1, 1, 1, vec![99]).unwrap();
    assert_eq!(luma_only.to_grayscale().data, vec![99]);
}

#[test]
fn kernels_are_unity_at_the_centre() {
    for f in ALL_FILTERS {
        assert_eq!(kernel_w(f, 0), 1024, "{:?}", f);
    }
    assert_eq!(kernel_w(FilterType::Triangle, 128), 512);
    assert_eq!(kernel_w(FilterType::Triangle, 256), 0);
    assert_eq!(kernel_w(FilterType::Lanczos3, 768), 0);
    assert!(kernel_w(FilterType::CatmullRom, 384) < 0);
}

#[test]
fn every_options_byte_hashes_a_one_pixel_image() {
    for options in 0..=255u8 {
        let h = hash_packed_input(0, 0, options, vec![137]).unwrap();
        assert_eq!(h.bit_len(), 64);
    }
}
