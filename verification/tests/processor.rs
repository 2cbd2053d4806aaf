use frequalizer::audiovisual::bin_edges::AdaptiveResultEdges;
use frequalizer::audiovisual::audio_fft_binner::FFTOverSamples;
use frequalizer::audiovisual::audio_tuner::NoteName;
use frequalizer::audiovisual::audio_tuner::NoteReading;
use frequalizer::audiovisual::AudioProcessor;
use frequalizer::audiovisual::AudioProcessorOutputEnum;
use frequalizer::audiovisual::PendingChunks;
use frequalizer::audiovisual::VisualProcessor;
use frequalizer::config::AUDIO_SAMPLE_RATE;
use frequalizer::config::CHUNK_SIZE;
use frequalizer::config::FULL_SCALE;
use frequalizer::config::LEDS_MAX_X;
use frequalizer::config::LEDS_MAX_Y;
use frequalizer::graphics::RGB;
use frequalizer::EqTunerModeEnum;

fn placed_edges() -> Vec<u32> {
    let band = AdaptiveResultEdges::new(CHUNK_SIZE, LEDS_MAX_Y, AUDIO_SAMPLE_RATE);
    let floor = band.current_min_freq();
    let ceiling = band.current_max_freq();
    let steps = LEDS_MAX_Y + 2;
    (0..=steps)
        .map(|i| {
            let t = i as f64 / steps as f64;
            let freq = floor as f64 * (ceiling as f64 / floor as f64).powf(t);
            (freq.round() as u32).clamp(floor, ceiling)
        })
        .collect()
}

fn processor() -> AudioProcessor<f32> {
    AudioProcessor::new(&AUDIO_SAMPLE_RATE).unwrap()
}

fn led(canvas: &[u8], index: usize) -> [u8; 3] {
    [canvas[3 * index], canvas[3 * index + 1], canvas[3 * index + 2]]
}

#[test]
fn matrix_is_eight_by_thirty_two() {
    assert_eq!(LEDS_MAX_X, 8);
    assert_eq!(LEDS_MAX_Y, 32);
    assert_eq!(CHUNK_SIZE, 2048);
    assert_eq!(AUDIO_SAMPLE_RATE, 48000);
    assert_eq!(FULL_SCALE, 1_000_000);
}

#[test]
fn processor_needs_one_bin_per_row() {
    assert!(AudioProcessor::<f32>::with_edges(&48000, placed_edges()).is_some());
    assert!(AudioProcessor::<f32>::with_edges(&48000, vec![30_000, 60_000, 120_000, 240_000]).is_none());
    assert!(AudioProcessor::<f32>::with_edges(&8000, placed_edges()).is_none());
    assert_eq!(processor().sample_rate(), 48000);
}

#[test]
fn processor_places_the_edges_of_its_band() {
    let processor = processor();
    let edges = processor.equalizer().edges().placed_edges();
    assert_eq!(edges.len(), LEDS_MAX_Y + 3);
    assert_eq!(edges[0], 30_000);
    assert_eq!(edges[1], 36_210);
    assert_eq!(edges[17], 734_846);
    assert_eq!(edges[34], 18_000_000);
    assert!(AudioProcessor::<f32>::new(&8000).is_some());
    assert!(AudioProcessor::<f32>::new(&60).is_none());
}

#[test]
fn processor_adapts_its_band_when_told_to() {
    let mut processor = processor();
    let mut magnitudes = vec![0u32; CHUNK_SIZE];
    magnitudes[43] = 700;
    processor.bin_spectrum(FFTOverSamples::new(magnitudes.clone()));
    assert_eq!(processor.equalizer().edges().current_min_freq(), 30_000);
    processor.set_adaptive(true);
    assert!(processor.equalizer().adaptive());
    processor.bin_spectrum(FFTOverSamples::new(magnitudes));
    assert_eq!(processor.equalizer().edges().current_min_freq(), 127_781);
    assert_eq!(processor.equalizer().edges().current_max_freq(), 16_300_782);
    assert_eq!(processor.equalizer().eq_bins().len(), LEDS_MAX_Y);
}

#[test]
fn processor_starts_with_empty_output() {
    let processor = processor();
    assert!(matches!(processor.output(&EqTunerModeEnum::Equalizer), AudioProcessorOutputEnum::EqBins(bins) if bins.is_empty()));
    assert!(matches!(processor.output(&EqTunerModeEnum::Tuner), AudioProcessorOutputEnum::NoteInfo(None)));
}

#[test]
fn samples_go_to_the_active_analysis_only() {
    let mut processor = processor();
    let chunks = processor.process(vec![0.25; 3000], &EqTunerModeEnum::Equalizer);
    assert!(matches!(&chunks, PendingChunks::Spectral(released) if released.len() == 1));
    assert_eq!(processor.equalizer().pending_len(), 952);
    assert_eq!(processor.pitch_tuner().pending_len(), 0);
    let chunks = processor.process(vec![0.25; 1000], &EqTunerModeEnum::Tuner);
    assert!(matches!(&chunks, PendingChunks::Pitch(released) if released.is_empty()));
    assert_eq!(processor.equalizer().pending_len(), 952);
    assert_eq!(processor.pitch_tuner().pending_len(), 1000);
    let chunks = processor.process(vec![0.25; 1100], &EqTunerModeEnum::Equalizer);
    assert!(matches!(&chunks, PendingChunks::Spectral(released) if released.len() == 1));
    assert_eq!(processor.equalizer().pending_len(), 4);
    assert_eq!(processor.pitch_tuner().pending_len(), 1000);
}

#[test]
fn spectrum_becomes_one_bin_per_row() {
    let mut processor = processor();
    let mut magnitudes = vec![0u32; CHUNK_SIZE];
    magnitudes[19] = 1000;
    processor.bin_spectrum(FFTOverSamples::new(magnitudes));
    let AudioProcessorOutputEnum::EqBins(bins) = processor.output(&EqTunerModeEnum::Equalizer) else {
        panic!("equalizer output expected");
    };
    assert_eq!(bins.len(), LEDS_MAX_Y);
    assert_eq!(bins.iter().filter(|&&bin| bin == FULL_SCALE).count(), 1);
    assert_eq!(bins.iter().filter(|&&bin| bin == 0).count(), LEDS_MAX_Y - 1);
    assert!(matches!(processor.output(&EqTunerModeEnum::Tuner), AudioProcessorOutputEnum::NoteInfo(None)));
}

#[test]
fn pitches_become_a_note() {
    let mut processor = processor();
    let PendingChunks::Pitch(chunks) = processor.process(vec![0.0f32; 2 * CHUNK_SIZE], &EqTunerModeEnum::Tuner) else {
        panic!("chunks for the tuner expected");
    };
    assert_eq!(chunks.len(), 2);
    let reading = NoteReading { note_name: NoteName::E, note_freq: 82_407, octave: 2, cents_offset: 12_451 };
    let mut means = Vec::new();
    for (chunk, detected) in chunks.into_iter().zip([82_000u32, 84_000]) {
        let determined = processor.pitch_detected(chunk, Some(detected));
        means.push(determined.mean_freq());
        let read = determined.mean_freq().map(|_| reading);
        processor.note_determined(determined, read);
    }
    assert_eq!(means, vec![None, Some(83_000)]);
    let AudioProcessorOutputEnum::NoteInfo(Some(note)) = processor.output(&EqTunerModeEnum::Tuner) else {
        panic!("a note expected");
    };
    assert_eq!(note.actual_freq, 83_000);
    assert_eq!(note.note_name, NoteName::E);
    assert_eq!(note.previous_note_name, NoteName::DSharp);
    assert_eq!(note.next_note_name, NoteName::F);
    assert!(!note.in_tune);
    assert!(matches!(processor.output(&EqTunerModeEnum::Equalizer), AudioProcessorOutputEnum::EqBins(bins) if bins.is_empty()));
}

#[test]
fn equalizer_frame_needs_colours_and_tuner_frame_none() {
    let mut visual = VisualProcessor::new();
    let bins = vec![FULL_SCALE; 32];
    let plan = visual.plan_frame(&AudioProcessorOutputEnum::EqBins(&bins)).unwrap();
    assert_eq!(plan.background_cycle_state, 0);
    assert_eq!(plan.bars.len(), 32);
    assert_eq!(plan.bars[0].leds, 8);
    assert_eq!(plan.bars[0].phase, 1);
    assert_eq!(plan.bars[31].phase, 32);
    let nothing = None;
    assert!(visual.plan_frame(&AudioProcessorOutputEnum::NoteInfo(&nothing)).is_none());
}

#[test]
fn frames_follow_the_output_of_the_mode() {
    let mut visual = VisualProcessor::new();
    let background = RGB { r: 1, g: 2, b: 3 };
    let colour = RGB { r: 0, g: 0, b: 50 };
    let bins = vec![FULL_SCALE, 0];
    let frame = visual
        .process_and_output(AudioProcessorOutputEnum::EqBins(&bins), background, &vec![colour; 2])
        .unwrap();
    assert_eq!(frame.len(), 768);
    assert_eq!(led(&frame, 0), [0, 0, 50]);
    assert_eq!(led(&frame, 8), [2, 1, 3]);
    let nothing = None;
    assert!(visual.process_and_output(AudioProcessorOutputEnum::NoteInfo(&nothing), background, &Vec::new()).is_none());
    let note = frequalizer::audiovisual::audio_tuner::NoteDescriptor::new(
        440_000,
        NoteReading { note_name: NoteName::A, note_freq: 440_000, octave: 4, cents_offset: 25_000 },
    );
    let frame = visual
        .process_and_output(AudioProcessorOutputEnum::NoteInfo(&note), background, &Vec::new())
        .unwrap();
    assert_eq!(led(&frame, 128), [215, 255, 0]);
    assert_eq!(led(&frame, 192), [255, 51, 255]);
}
