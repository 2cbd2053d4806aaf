use frequalizer::audiovisual::bin_edges::adapt_bound;
use frequalizer::audiovisual::audio_fft_binner::coefficient_bin;
use frequalizer::audiovisual::audio_fft_binner::distribute_magnitudes;
use frequalizer::audiovisual::audio_fft_binner::divisor_width;
use frequalizer::audiovisual::bin_edges::fitting_geometric_edges;
use frequalizer::audiovisual::audio_fft_binner::frequency_of_coefficient;
use frequalizer::audiovisual::bin_edges::geometric_edge;
use frequalizer::audiovisual::bin_edges::geometric_edges;
use frequalizer::audiovisual::audio_fft_binner::is_denser;
use frequalizer::audiovisual::bin_edges::is_valid_placement;
use frequalizer::audiovisual::audio_fft_binner::measure_max_freq;
use frequalizer::audiovisual::audio_fft_binner::measure_min_freq;
use frequalizer::audiovisual::audio_fft_binner::normalize_densities;
use frequalizer::audiovisual::audio_fft_binner::normalize_density;
use frequalizer::audiovisual::bin_edges::AdaptiveResultEdges;
use frequalizer::audiovisual::audio_fft_binner::integer_sqrt_of;
use frequalizer::audiovisual::audio_fft_binner::magnitude;
use frequalizer::audiovisual::audio_fft_binner::AudioFrequalizer;
use frequalizer::audiovisual::audio_fft_binner::Coefficient;
use frequalizer::audiovisual::audio_fft_binner::BinDensity;
use frequalizer::audiovisual::audio_fft_binner::FFTOverSamples;
use frequalizer::audiovisual::audio_fft_binner::FFTResultBins;
use frequalizer::audiovisual::audio_fft_binner::RawBuffer;
use frequalizer::audiovisual::bin_edges::ABSOLUTE_MAX_FREQ;
use frequalizer::audiovisual::bin_edges::ABSOLUTE_MIN_FREQ;
use frequalizer::config::CHUNK_SIZE;
use frequalizer::config::FULL_SCALE;
use rustfft::num_complex::Complex;
use rustfft::FftPlanner;

fn four_bin_edges() -> Vec<u32> {
    vec![30_000, 87_000, 253_000, 735_000, 2_134_000, 6_197_000, 18_000_000]
}

fn float_edges(floor: u32, ceiling: u32, num_bins: usize) -> Vec<u32> {
    let steps = num_bins + 2;
    (0..=steps)
        .map(|i| {
            let t = i as f64 / steps as f64;
            let freq = floor as f64 * (ceiling as f64 / floor as f64).powf(t);
            (freq.round() as u32).clamp(floor, ceiling)
        })
        .collect()
}

fn spectrum_of(samples: &[f32]) -> Vec<u32> {
    let mut buffer: Vec<Complex<f32>> = samples.iter().map(|&x| Complex::new(x, 0.0)).collect();
    let mut planner = FftPlanner::new();
    let fft = planner.plan_fft_forward(buffer.len());
    fft.process(&mut buffer);
    buffer.iter().map(|c| (c.norm() * 65536.0).round() as u32).collect()
}

fn coefficients_of(samples: &[f32]) -> Vec<Coefficient> {
    let mut buffer: Vec<Complex<f32>> = samples.iter().map(|&x| Complex::new(x, 0.0)).collect();
    let mut planner = FftPlanner::new();
    let fft = planner.plan_fft_forward(buffer.len());
    fft.process(&mut buffer);
    buffer
        .iter()
        .map(|c| Coefficient { re: (c.re * 65536.0).round() as i32, im: (c.im * 65536.0).round() as i32 })
        .collect()
}

fn sine(frequency: f32, sample_rate: f32, count: usize) -> Vec<f32> {
    (0..count)
        .map(|i| (2.0 * std::f32::consts::PI * frequency * i as f32 / sample_rate).sin())
        .collect()
}

#[test]
fn band_lies_between_resolution_and_nyquist() {
    let edges = AdaptiveResultEdges::new(2048, 4, 48000);
    assert_eq!(edges.current_min_freq(), 30_000);
    assert_eq!(edges.current_max_freq(), 18_000_000);
    assert_eq!(edges.num_bins(), 4);
    assert_eq!(edges.sample_rate(), 48000);
    assert_eq!(edges.num_edges(), Some(7));
    assert!(edges.placed_edges().is_empty());
}

#[test]
fn coarse_transform_raises_the_floor() {
    let edges = AdaptiveResultEdges::new(256, 4, 48000);
    assert_eq!(edges.current_min_freq(), 187_500);
}

#[test]
fn low_sample_rate_lowers_the_ceiling() {
    let edges = AdaptiveResultEdges::new(2048, 4, 8000);
    assert_eq!(edges.current_max_freq(), 4_000_000);
    assert_eq!(edges.current_min_freq(), ABSOLUTE_MIN_FREQ);
}

#[test]
fn empty_transform_has_no_band() {
    let edges = AdaptiveResultEdges::new(0, 4, 48000);
    assert_eq!(edges.current_min_freq(), u32::MAX);
    assert_eq!(edges.current_max_freq(), ABSOLUTE_MAX_FREQ);
}

#[test]
fn valid_placement_is_accepted() {
    let mut edges = AdaptiveResultEdges::new(2048, 4, 48000);
    assert!(edges.place_edges(four_bin_edges()));
    assert_eq!(edges.placed_edges(), &four_bin_edges());
}

#[test]
fn placement_with_wrong_count_is_refused() {
    let mut edges = AdaptiveResultEdges::new(2048, 4, 48000);
    assert!(!edges.place_edges(vec![30_000, 87_000, 253_000, 735_000, 2_134_000, 6_197_000]));
    assert!(edges.placed_edges().is_empty());
    assert!(!edges.place_edges(Vec::new()));
}

#[test]
fn placement_that_steps_down_is_refused() {
    let mut edges = AdaptiveResultEdges::new(2048, 4, 48000);
    assert!(!edges.place_edges(vec![30_000, 87_000, 87_000, 735_000, 2_134_000, 6_197_000, 18_000_000]));
    assert!(!edges.place_edges(vec![30_000, 253_000, 87_000, 735_000, 2_134_000, 6_197_000, 18_000_000]));
}

#[test]
fn placement_outside_the_band_is_refused() {
    let mut edges = AdaptiveResultEdges::new(2048, 4, 48000);
    assert!(!edges.place_edges(vec![29_999, 87_000, 253_000, 735_000, 2_134_000, 6_197_000, 18_000_000]));
    assert!(!edges.place_edges(vec![30_000, 87_000, 253_000, 735_000, 2_134_000, 6_197_000, 18_000_001]));
}

#[test]
fn refused_placement_keeps_the_earlier_edges() {
    let mut edges = AdaptiveResultEdges::new(2048, 4, 48000);
    assert!(edges.place_edges(four_bin_edges()));
    assert!(!edges.place_edges(vec![1, 2, 3]));
    assert_eq!(edges.placed_edges(), &four_bin_edges());
}

#[test]
fn geometric_edges_divide_the_band_in_equal_ratios() {
    assert_eq!(
        geometric_edges(30_000, 18_000_000, 4),
        Some(vec![30_000, 87_125, 253_029, 734_846, 2_134_135, 6_197_938, 18_000_000])
    );
    assert_eq!(geometric_edges(30_000, 18_000_000, 1), Some(vec![30_000, 253_029, 2_134_135, 18_000_000]));
    assert_eq!(
        geometric_edges(1, 1024, 8),
        Some(vec![1, 2, 4, 8, 16, 32, 64, 128, 256, 512, 1024])
    );
    assert_eq!(geometric_edges(10, 12, 4), Some(vec![10, 10, 10, 10, 11, 11, 12]));
    assert_eq!(geometric_edges(5, 5, 1), Some(vec![5, 5, 5, 5]));
    assert_eq!(geometric_edges(0, 100, 1), Some(vec![0, 0, 0, 100]));
    assert_eq!(geometric_edges(6, 5, 1), None);
    assert_eq!(geometric_edges(1, 2, usize::MAX - 2), None);
    assert_eq!(geometric_edge(30_000, 18_000_000, 34, 17), 734_846);
    assert_eq!(geometric_edge(30_000, 18_000_000, 34, 33), 14_912_902);
    assert_eq!(geometric_edge(0, u32::MAX, 2, 2), u32::MAX);
    assert_eq!(geometric_edge(u32::MAX, u32::MAX, 3, 1), u32::MAX);
}

#[test]
fn geometric_edges_agree_with_the_power_function() {
    for num_bins in [1usize, 4, 32] {
        let exact = geometric_edges(30_000, 18_000_000, num_bins).unwrap();
        let steps = num_bins + 2;
        assert_eq!(exact.len(), num_bins + 3);
        for (i, &edge) in exact.iter().enumerate() {
            let real = 30_000f64 * 600f64.powf(i as f64 / steps as f64);
            assert!(edge as f64 <= real + 0.001);
            assert!(real < edge as f64 + 1.001);
        }
    }
}

#[test]
fn geometric_edges_of_a_wide_band_are_a_valid_placement() {
    for num_bins in [1usize, 4, 32] {
        let placed = fitting_geometric_edges(30_000, 18_000_000, num_bins).unwrap();
        assert_eq!(placed.len(), num_bins + 3);
        assert!(placed.windows(2).all(|pair| pair[0] < pair[1]));
        assert_eq!(placed[0], 30_000);
        assert_eq!(placed[placed.len() - 1], 18_000_000);
        assert!(is_valid_placement(&placed, num_bins, 30_000, 18_000_000));
        assert_eq!(Some(placed), geometric_edges(30_000, 18_000_000, num_bins));
    }
    assert!(is_valid_placement(&float_edges(30_000, 18_000_000, 32), 32, 30_000, 18_000_000));
}

#[test]
fn band_too_narrow_for_its_bins_has_no_placement() {
    assert_eq!(fitting_geometric_edges(10, 12, 4), None);
    assert_eq!(fitting_geometric_edges(5, 5, 1), None);
    assert_eq!(fitting_geometric_edges(6, 5, 1), None);
    assert_eq!(geometric_edges(10, 13, 1), Some(vec![10, 10, 11, 13]));
    assert_eq!(fitting_geometric_edges(10, 13, 1), None);
    assert_eq!(fitting_geometric_edges(10, 40, 1), Some(vec![10, 15, 25, 40]));
    let mut edges = AdaptiveResultEdges::new(2048, 4, 60);
    assert_eq!(edges.current_min_freq(), 30_000);
    assert_eq!(edges.current_max_freq(), 30_000);
    assert!(!edges.create_log_bin_edges());
    assert!(edges.placed_edges().is_empty());
}

#[test]
fn band_places_its_geometric_edges() {
    let mut edges = AdaptiveResultEdges::new(2048, 4, 48000);
    assert!(edges.create_log_bin_edges());
    assert_eq!(
        edges.placed_edges(),
        &vec![30_000, 87_125, 253_029, 734_846, 2_134_135, 6_197_938, 18_000_000]
    );
    let mut coarse = AdaptiveResultEdges::new(1024, 7, 48000);
    assert!(coarse.create_log_bin_edges());
    assert_eq!(
        coarse.placed_edges(),
        &vec![46_875, 90_800, 175_888, 340_710, 659_983, 1_278_441, 2_476_445, 4_797_076, 9_292_329, 18_000_000]
    );
}

#[test]
fn coefficient_falls_in_the_bin_whose_edges_enclose_it() {
    let edges = four_bin_edges();
    assert_eq!(coefficient_bin(&edges, 48000, 2048, 0), 0);
    assert_eq!(coefficient_bin(&edges, 48000, 2048, 1), 0);
    assert_eq!(coefficient_bin(&edges, 48000, 2048, 2), 0);
    assert_eq!(coefficient_bin(&edges, 48000, 2048, 4), 1);
    assert_eq!(coefficient_bin(&edges, 48000, 2048, 19), 2);
    assert_eq!(coefficient_bin(&edges, 48000, 2048, 40), 3);
    assert_eq!(coefficient_bin(&edges, 48000, 2048, 100), 4);
    assert_eq!(coefficient_bin(&edges, 48000, 2048, 700), 5);
    assert_eq!(coefficient_bin(&edges, 48000, 2048, 1000), 5);
}

#[test]
fn frequency_on_an_edge_belongs_to_the_bin_below() {
    let edges = vec![30_000, 46_875, 100_000];
    assert_eq!(coefficient_bin(&edges, 48000, 2048, 2), 0);
    assert_eq!(coefficient_bin(&edges, 48000, 2048, 3), 1);
    assert_eq!(coefficient_bin(&edges, 48000, 2048, 5), 1);
}

#[test]
fn magnitudes_are_summed_per_bin() {
    let magnitudes: Vec<u32> = vec![1, 2, 3, 4, 5, 6, 7, 100, 100, 100, 100, 100, 100, 100, 100, 100];
    let edges = vec![500_000, 1_500_000, 3_500_000, 10_000_000];
    let bins = distribute_magnitudes(&magnitudes, &edges, 16000);
    assert_eq!(
        bins,
        vec![
            BinDensity { magnitude: 3, width: 1_000_000 },
            BinDensity { magnitude: 7, width: 2_000_000 },
            BinDensity { magnitude: 18, width: 6_500_000 },
        ]
    );
}

#[test]
fn mirrored_half_is_never_inspected() {
    let mut magnitudes: Vec<u32> = vec![0; 16];
    for i in 7..16 {
        magnitudes[i] = 1000;
    }
    let edges = vec![500_000, 1_500_000, 3_500_000, 10_000_000];
    let bins = distribute_magnitudes(&magnitudes, &edges, 16000);
    assert!(bins.iter().all(|bin| bin.magnitude == 0));
}

#[test]
fn short_spectra_have_nothing_to_scan() {
    let edges = vec![500_000, 1_500_000, 3_500_000];
    for len in 0..4usize {
        let bins = distribute_magnitudes(&vec![9; len], &edges, 16000);
        assert_eq!(bins.len(), 2);
        assert!(bins.iter().all(|bin| bin.magnitude == 0));
    }
}

#[test]
fn densities_are_normalised_against_the_peak() {
    let bins = vec![
        BinDensity { magnitude: 3, width: 1_000_000 },
        BinDensity { magnitude: 7, width: 2_000_000 },
        BinDensity { magnitude: 18, width: 6_500_000 },
    ];
    assert_eq!(normalize_densities(&bins), vec![857_142, 1_000_000, 791_208]);
}

#[test]
fn zero_width_bin_is_not_divided() {
    let narrow = BinDensity { magnitude: 5, width: 0 };
    assert_eq!(divisor_width(narrow), 1000);
    let bins = vec![narrow, BinDensity { magnitude: 10, width: 1000 }];
    assert_eq!(normalize_densities(&bins), vec![500_000, 1_000_000]);
}

#[test]
fn silent_bins_stay_zero() {
    let bins = vec![
        BinDensity { magnitude: 0, width: 10 },
        BinDensity { magnitude: 0, width: 20 },
        BinDensity { magnitude: 0, width: 0 },
    ];
    assert_eq!(normalize_densities(&bins), vec![0, 0, 0]);
    assert!(normalize_densities(&Vec::new()).is_empty());
}

#[test]
fn denser_compares_magnitude_per_width() {
    let a = BinDensity { magnitude: 10, width: 5 };
    let b = BinDensity { magnitude: 30, width: 10 };
    assert!(is_denser(b, a));
    assert!(!is_denser(a, b));
    assert!(!is_denser(a, a));
    assert_eq!(normalize_density(a, b), 666_666);
    assert_eq!(normalize_density(b, b), FULL_SCALE);
    let silent = BinDensity { magnitude: 0, width: 5 };
    assert_eq!(normalize_density(silent, silent), 0);
    assert_eq!(normalize_density(silent, b), 0);
}

#[test]
fn first_of_equal_peaks_and_all_equal_reach_full_scale() {
    let bins = vec![
        BinDensity { magnitude: 4, width: 2 },
        BinDensity { magnitude: 8, width: 4 },
        BinDensity { magnitude: 1, width: 1 },
    ];
    assert_eq!(normalize_densities(&bins), vec![1_000_000, 1_000_000, 500_000]);
}

#[test]
fn guard_bins_are_dropped_on_output() {
    let bins = FFTResultBins::new(vec![
        BinDensity { magnitude: 100, width: 1 },
        BinDensity { magnitude: 3, width: 1 },
        BinDensity { magnitude: 6, width: 1 },
        BinDensity { magnitude: 50, width: 1 },
    ]);
    let normalized = bins.normalize_logarithmic_bins();
    assert_eq!(normalized.bins(), &vec![1_000_000, 30_000, 60_000, 500_000]);
    assert_eq!(normalized.output(), vec![30_000, 60_000]);
}

#[test]
fn output_of_fewer_than_three_bins_is_empty() {
    let two = FFTResultBins::new(vec![
        BinDensity { magnitude: 1, width: 1 },
        BinDensity { magnitude: 2, width: 1 },
    ]);
    assert!(two.normalize_logarithmic_bins().output().is_empty());
    let none = FFTResultBins::new(Vec::new());
    assert!(none.normalize_logarithmic_bins().output().is_empty());
}

#[test]
fn observed_band_runs_from_lowest_to_highest_active_coefficient() {
    let magnitudes: Vec<u32> = vec![0, 0, 5, 0, 3, 0, 0, 9, 9, 9, 9, 9, 9, 9, 9, 9];
    assert_eq!(measure_min_freq(&magnitudes, 16000, 77), 2_000_000);
    assert_eq!(measure_max_freq(&magnitudes, 16000, 88), 4_000_000);
    let silent: Vec<u32> = vec![0; 16];
    assert_eq!(measure_min_freq(&silent, 16000, 77), 77);
    assert_eq!(measure_max_freq(&silent, 16000, 88), 88);
    assert_eq!(frequency_of_coefficient(48000, 2048, 19), 445_312);
    assert_eq!(frequency_of_coefficient(u32::MAX, 1, 2), u32::MAX);
}

#[test]
fn band_adapts_a_tenth_of_the_way() {
    assert_eq!(adapt_bound(30_000, 2_000_000, 30_000, 18_000_000), 227_000);
    assert_eq!(adapt_bound(18_000_000, 4_000_000, 30_000, 18_000_000), 16_600_000);
    assert_eq!(adapt_bound(30_000, 0, 30_000, 18_000_000), 30_000);
    assert_eq!(adapt_bound(17_999_999, u32::MAX, 30_000, 18_000_000), 18_000_000);
    let mut edges = AdaptiveResultEdges::new(2048, 4, 48000);
    assert!(edges.place_edges(four_bin_edges()));
    assert!(edges.adapt_range(2_000_000, 4_000_000));
    assert_eq!(edges.current_min_freq(), 227_000);
    assert_eq!(edges.current_max_freq(), 16_600_000);
    assert_eq!(
        edges.placed_edges(),
        &vec![227_000, 464_201, 949_263, 1_941_185, 3_969_605, 8_117_601, 16_600_000]
    );
    assert!(!edges.place_edges(four_bin_edges()));
    assert!(edges.place_edges(float_edges(227_000, 16_600_000, 4)));
}

#[test]
fn adaptation_to_the_band_itself_places_the_geometric_edges() {
    let mut edges = AdaptiveResultEdges::new(2048, 4, 48000);
    assert!(edges.place_edges(four_bin_edges()));
    assert!(edges.adapt_range(30_000, 18_000_000));
    assert_eq!(edges.current_min_freq(), 30_000);
    assert_eq!(edges.current_max_freq(), 18_000_000);
    assert_eq!(
        edges.placed_edges(),
        &vec![30_000, 87_125, 253_029, 734_846, 2_134_135, 6_197_938, 18_000_000]
    );
}

#[test]
fn adaptation_that_leaves_no_room_does_not_take_place() {
    let mut edges = AdaptiveResultEdges::new(2048, 32, 61);
    assert_eq!(edges.current_min_freq(), 30_000);
    assert_eq!(edges.current_max_freq(), 30_500);
    assert!(edges.create_log_bin_edges());
    let placed = edges.placed_edges().clone();
    assert_eq!(placed.len(), 35);
    assert!(!edges.adapt_range(u32::MAX, 0));
    assert_eq!(edges.current_min_freq(), 30_000);
    assert_eq!(edges.current_max_freq(), 30_500);
    assert_eq!(edges.placed_edges(), &placed);
    let mut none = AdaptiveResultEdges::new(2048, 4, 50);
    assert_eq!(none.current_max_freq(), 25_000);
    assert!(!none.adapt_range(1, 2));
    assert_eq!(none.current_min_freq(), 30_000);
    assert!(none.placed_edges().is_empty());
}

#[test]
fn adapt_edges_leaves_the_edges_alone_unless_adaptive() {
    let mut edges = AdaptiveResultEdges::new(16, 1, 16000);
    assert_eq!(edges.current_min_freq(), 1_000_000);
    assert_eq!(edges.current_max_freq(), 8_000_000);
    assert!(edges.create_log_bin_edges());
    assert_eq!(edges.placed_edges(), &vec![1_000_000, 2_000_000, 4_000_000, 8_000_000]);
    let magnitudes: Vec<u32> = vec![0, 0, 5, 0, 3, 0, 0, 9, 9, 9, 9, 9, 9, 9, 9, 9];
    let adapted = FFTOverSamples::new(magnitudes.clone()).adapt_edges(&mut edges, false);
    assert_eq!(adapted.observed_min_freq(), 2_000_000);
    assert_eq!(adapted.observed_max_freq(), 4_000_000);
    assert_eq!(edges.placed_edges(), &vec![1_000_000, 2_000_000, 4_000_000, 8_000_000]);
    let bins = adapted.distribute_fft_to_fixed_bins(&edges);
    assert_eq!(
        bins.bins(),
        &vec![
            BinDensity { magnitude: 5, width: 1_000_000 },
            BinDensity { magnitude: 3, width: 2_000_000 },
            BinDensity { magnitude: 0, width: 4_000_000 },
        ]
    );
    let adapted = FFTOverSamples::new(magnitudes).adapt_edges(&mut edges, true);
    assert_eq!(adapted.observed_min_freq(), 2_000_000);
    assert_eq!(edges.current_min_freq(), 1_100_000);
    assert_eq!(edges.current_max_freq(), 7_600_000);
    assert_eq!(edges.placed_edges(), &vec![1_100_000, 2_095_075, 3_990_309, 7_600_000]);
}

#[test]
fn adaptive_frequalizer_follows_the_signal() {
    let mut magnitudes = vec![0u32; 2048];
    magnitudes[43] = 700;
    magnitudes[85] = 900;
    let mut fixed = AudioFrequalizer::<f32>::new(4, 48000).unwrap();
    assert!(!fixed.adaptive());
    fixed.bin_spectrum(FFTOverSamples::new(magnitudes.clone()));
    assert_eq!(fixed.edges().current_min_freq(), 30_000);
    assert_eq!(fixed.edges().current_max_freq(), 18_000_000);
    let mut adaptive = AudioFrequalizer::<f32>::new(4, 48000).unwrap();
    adaptive.set_adaptive(true);
    assert!(adaptive.adaptive());
    adaptive.bin_spectrum(FFTOverSamples::new(magnitudes.clone()));
    assert_eq!(adaptive.edges().current_min_freq(), 127_781);
    assert_eq!(adaptive.edges().current_max_freq(), 16_399_219);
    assert_eq!(adaptive.eq_bins().len(), 4);
    let first = adaptive.edges().placed_edges().clone();
    assert_eq!(first.len(), 7);
    assert_eq!(first[0], 127_781);
    assert_eq!(first[6], 16_399_219);
    adaptive.bin_spectrum(FFTOverSamples::new(magnitudes));
    assert_eq!(adaptive.edges().current_min_freq(), 215_784);
    assert_eq!(adaptive.edges().current_max_freq(), 14_958_516);
}

#[test]
fn frequalizer_needs_a_valid_placement() {
    assert!(AudioFrequalizer::<f32>::with_edges(4, 48000, four_bin_edges()).is_some());
    assert!(AudioFrequalizer::<f32>::with_edges(5, 48000, four_bin_edges()).is_none());
    assert!(AudioFrequalizer::<f32>::with_edges(4, 48000, Vec::new()).is_none());
    assert!(AudioFrequalizer::<f32>::with_edges(4, 8000, four_bin_edges()).is_none());
}

#[test]
fn frequalizer_places_the_geometric_edges_of_its_band() {
    let frequalizer = AudioFrequalizer::<f32>::new(4, 48000).unwrap();
    assert_eq!(
        frequalizer.edges().placed_edges(),
        &vec![30_000, 87_125, 253_029, 734_846, 2_134_135, 6_197_938, 18_000_000]
    );
    assert_eq!(AudioFrequalizer::<f32>::new(32, 48000).unwrap().edges().placed_edges().len(), 35);
    assert!(AudioFrequalizer::<f32>::new(4, 61).is_some());
    assert!(AudioFrequalizer::<f32>::new(4, 60).is_none());
    assert!(AudioFrequalizer::<f32>::new(4, 50).is_none());
    assert!(AudioFrequalizer::<f32>::new(4, 0).is_none());
    assert!(AudioFrequalizer::<f32>::new(usize::MAX, 48000).is_none());
}

#[test]
fn frequalizer_releases_chunks_of_the_analysis_size() {
    let mut frequalizer = AudioFrequalizer::<f32>::with_edges(4, 48000, four_bin_edges()).unwrap();
    assert!(frequalizer.eq_bins().is_empty());
    let chunks = frequalizer.frequalize(vec![0.5; 5000]);
    assert_eq!(chunks.len(), 2);
    assert_eq!(frequalizer.pending_len(), 5000 - 2 * CHUNK_SIZE);
    for chunk in chunks {
        assert_eq!(chunk.into_samples().len(), CHUNK_SIZE);
    }
    assert_eq!(frequalizer.edges().placed_edges(), &four_bin_edges());
}

#[test]
fn released_chunks_keep_the_stream_order() {
    let mut frequalizer = AudioFrequalizer::<f32>::with_edges(4, 48000, four_bin_edges()).unwrap();
    let samples: Vec<f32> = (0..4100).map(|i| i as f32).collect();
    let chunks: Vec<Vec<f32>> = frequalizer.frequalize(samples).into_iter().map(RawBuffer::into_samples).collect();
    assert_eq!(chunks.len(), 2);
    assert_eq!(chunks[0][0], 0.0);
    assert_eq!(chunks[0][2047], 2047.0);
    assert_eq!(chunks[1][0], 2048.0);
    assert_eq!(chunks[1][2047], 4095.0);
    assert_eq!(frequalizer.pending_len(), 4);
}

#[test]
fn output_has_as_many_bins_as_requested() {
    for (num_bins, sample_rate, len) in [(1usize, 48000u32, 2048usize), (4, 44100, 1024), (32, 48000, 2048), (7, 96000, 64), (3, 48000, 0)] {
        let mut frequalizer = AudioFrequalizer::<f32>::new(num_bins, sample_rate).unwrap();
        frequalizer.bin_spectrum(FFTOverSamples::new(vec![17; len]));
        assert_eq!(frequalizer.eq_bins().len(), num_bins);
    }
}

#[test]
fn binning_twice_gives_the_same_bins() {
    let samples = sine(440.0, 48000.0, 2048);
    let magnitudes = spectrum_of(&samples);
    let mut frequalizer = AudioFrequalizer::<f32>::with_edges(4, 48000, four_bin_edges()).unwrap();
    frequalizer.bin_spectrum(FFTOverSamples::new(magnitudes.clone()));
    let first = frequalizer.eq_bins().clone();
    frequalizer.bin_spectrum(FFTOverSamples::new(magnitudes));
    assert_eq!(frequalizer.eq_bins(), &first);
    assert_eq!(frequalizer.edges().placed_edges(), &four_bin_edges());
}

#[test]
fn silent_chunk_shows_nothing() {
    let magnitudes = spectrum_of(&vec![0.0; 2048]);
    let mut frequalizer = AudioFrequalizer::<f32>::with_edges(4, 48000, four_bin_edges()).unwrap();
    frequalizer.bin_spectrum(FFTOverSamples::new(magnitudes));
    assert_eq!(frequalizer.eq_bins(), &vec![0, 0, 0, 0]);
}

#[test]
fn peak_of_a_sounding_chunk_is_at_full_scale() {
    for frequency in [60.0f32, 440.0, 1000.0, 5000.0, 12000.0] {
        let magnitudes = spectrum_of(&sine(frequency, 48000.0, 2048));
        let mut edges = AdaptiveResultEdges::new(2048, 4, 48000);
        assert!(edges.place_edges(four_bin_edges()));
        let adapted = FFTOverSamples::new(magnitudes).adapt_edges(&mut edges, false);
        let normalized = adapted.distribute_fft_to_fixed_bins(&edges).normalize_logarithmic_bins();
        assert_eq!(normalized.bins().len(), 6);
        assert_eq!(normalized.bins().iter().copied().max(), Some(FULL_SCALE));
        assert!(normalized.bins().iter().all(|&bin| bin <= FULL_SCALE));
    }
}

#[test]
fn integer_square_root_rounds_down() {
    for (n, root) in [(0u64, 0u32), (1, 1), (2, 1), (3, 1), (4, 2), (24, 4), (25, 5), (26, 5), (99, 9), (100, 10)] {
        assert_eq!(integer_sqrt_of(n), root);
    }
    assert_eq!(integer_sqrt_of(u64::MAX), u32::MAX);
    assert_eq!(integer_sqrt_of(0xffff_fffe_0000_0001), u32::MAX);
    assert_eq!(integer_sqrt_of(0xffff_fffe_0000_0000), u32::MAX - 1);
    assert_eq!(integer_sqrt_of(1 << 62), 1 << 31);
    assert_eq!(integer_sqrt_of((1 << 62) - 1), (1 << 31) - 1);
}

#[test]
fn magnitude_is_the_modulus_rounded_down() {
    assert_eq!(magnitude(Coefficient { re: 3, im: 4 }), 5);
    assert_eq!(magnitude(Coefficient { re: -3, im: 4 }), 5);
    assert_eq!(magnitude(Coefficient { re: -4, im: -3 }), 5);
    assert_eq!(magnitude(Coefficient { re: 1, im: 1 }), 1);
    assert_eq!(magnitude(Coefficient { re: 0, im: 0 }), 0);
    assert_eq!(magnitude(Coefficient { re: 0, im: -7 }), 7);
    assert_eq!(magnitude(Coefficient { re: 1000, im: 1000 }), 1414);
    assert_eq!(magnitude(Coefficient { re: i32::MAX, im: 0 }), i32::MAX as u32);
    assert_eq!(magnitude(Coefficient { re: i32::MIN, im: 0 }), 1 << 31);
    assert_eq!(magnitude(Coefficient { re: i32::MIN, im: i32::MIN }), 3_037_000_499);
}

#[test]
fn spectrum_takes_the_magnitudes_of_the_coefficients() {
    let coefficients = vec![
        Coefficient { re: 0, im: 0 },
        Coefficient { re: 0, im: 0 },
        Coefficient { re: 3, im: -4 },
        Coefficient { re: 0, im: 0 },
        Coefficient { re: 0, im: 3 },
        Coefficient { re: 0, im: 0 },
        Coefficient { re: 0, im: 0 },
        Coefficient { re: 9, im: 9 },
    ];
    let mut all = coefficients.clone();
    all.extend(coefficients.iter().rev());
    let mut edges = AdaptiveResultEdges::new(16, 1, 16000);
    assert!(edges.create_log_bin_edges());
    let adapted = FFTOverSamples::from_coefficients(&all).adapt_edges(&mut edges, false);
    assert_eq!(adapted.observed_min_freq(), 2_000_000);
    assert_eq!(adapted.observed_max_freq(), 4_000_000);
    let bins = adapted.distribute_fft_to_fixed_bins(&edges);
    assert_eq!(
        bins.bins(),
        &vec![
            BinDensity { magnitude: 5, width: 1_000_000 },
            BinDensity { magnitude: 3, width: 2_000_000 },
            BinDensity { magnitude: 0, width: 4_000_000 },
        ]
    );
    assert_eq!(bins.normalize_logarithmic_bins().output(), vec![300_000]);
}

#[test]
fn coefficients_and_magnitudes_of_a_tone_agree() {
    let samples = sine(440.0, 48000.0, 2048);
    let mut from_parts = AudioFrequalizer::<f32>::new(4, 48000).unwrap();
    from_parts.bin_spectrum(FFTOverSamples::from_coefficients(&coefficients_of(&samples)));
    let mut from_magnitudes = AudioFrequalizer::<f32>::new(4, 48000).unwrap();
    from_magnitudes.bin_spectrum(FFTOverSamples::new(spectrum_of(&samples)));
    assert_eq!(from_parts.eq_bins()[1], FULL_SCALE);
    for (a, b) in from_parts.eq_bins().iter().zip(from_magnitudes.eq_bins()) {
        assert!(a.abs_diff(*b) < 10);
    }
}

#[test]
fn pure_tone_peaks_in_the_bin_that_contains_it() {
    let coefficients = coefficients_of(&sine(440.0, 48000.0, 2048));
    let mut frequalizer = AudioFrequalizer::<f32>::with_edges(4, 48000, four_bin_edges()).unwrap();
    frequalizer.bin_spectrum(FFTOverSamples::from_coefficients(&coefficients));
    let bins = frequalizer.eq_bins();
    assert_eq!(bins.len(), 4);
    assert_eq!(bins[1], FULL_SCALE);
    assert!(bins[0] < FULL_SCALE);
    assert!(bins[2] < FULL_SCALE / 5);
    assert!(bins[3] < FULL_SCALE / 20);
}

#[test]
fn direct_component_of_the_transform_is_the_sum_of_the_samples() {
    let samples: Vec<f32> = (0..2048).map(|i| ((i % 7) as f32 - 2.0) / 8.0).collect();
    let sum: f32 = samples.iter().sum();
    let mut buffer: Vec<Complex<f32>> = samples.iter().map(|&x| Complex::new(x, 0.0)).collect();
    let mut planner = FftPlanner::new();
    planner.plan_fft_forward(buffer.len()).process(&mut buffer);
    assert!((buffer[0].re - sum).abs() < 0.01);
    assert!(buffer[0].im.abs() < 0.01);
    let magnitudes: Vec<u32> = buffer.iter().map(|c| (c.norm() * 65536.0).round() as u32).collect();
    let bins = distribute_magnitudes(&magnitudes, &four_bin_edges(), 48000);
    assert!(bins[0].magnitude >= magnitudes[0] as u64);
}
