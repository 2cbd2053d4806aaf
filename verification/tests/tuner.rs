use frequalizer::audiovisual::audio_tuner::GiTuner;
use frequalizer::audiovisual::audio_tuner::NoteDescriptor;
use frequalizer::audiovisual::audio_tuner::NoteName;
use frequalizer::audiovisual::audio_tuner::NoteReading;
use frequalizer::audiovisual::audio_tuner::PitchHistory;
use frequalizer::audiovisual::audio_tuner::RawBuffer;
use frequalizer::audiovisual::audio_tuner::HISTORY_WINDOW;
use frequalizer::config::CHUNK_SIZE;
use pitch_detection::detector::mcleod::McLeodDetector;
use pitch_detection::detector::PitchDetector;
use pitch_detector::note::NoteDetectionResult;

const ALL_NOTES: [NoteName; 12] = [
    NoteName::A,
    NoteName::ASharp,
    NoteName::B,
    NoteName::C,
    NoteName::CSharp,
    NoteName::D,
    NoteName::DSharp,
    NoteName::E,
    NoteName::F,
    NoteName::FSharp,
    NoteName::G,
    NoteName::GSharp,
];

fn millihertz(hertz: f32) -> u32 {
    (hertz * 1000.0).round() as u32
}

fn name_of(note: &pitch_detector::core::NoteName) -> NoteName {
    match note {
        pitch_detector::core::NoteName::A => NoteName::A,
        pitch_detector::core::NoteName::ASharp => NoteName::ASharp,
        pitch_detector::core::NoteName::B => NoteName::B,
        pitch_detector::core::NoteName::C => NoteName::C,
        pitch_detector::core::NoteName::CSharp => NoteName::CSharp,
        pitch_detector::core::NoteName::D => NoteName::D,
        pitch_detector::core::NoteName::DSharp => NoteName::DSharp,
        pitch_detector::core::NoteName::E => NoteName::E,
        pitch_detector::core::NoteName::F => NoteName::F,
        pitch_detector::core::NoteName::FSharp => NoteName::FSharp,
        pitch_detector::core::NoteName::G => NoteName::G,
        pitch_detector::core::NoteName::GSharp => NoteName::GSharp,
    }
}

fn reading_of(mean_freq: u32) -> Option<(NoteReading, NoteDetectionResult)> {
    let result = NoteDetectionResult::try_from(mean_freq as f64 / 1000.0).ok()?;
    let reading = NoteReading {
        note_name: name_of(&result.note_name),
        note_freq: (result.note_freq * 1000.0).round() as u32,
        octave: result.octave,
        cents_offset: (result.cents_offset * 1000.0).round() as i32,
    };
    Some((reading, result))
}

fn a_reading(cents_offset: i32) -> NoteReading {
    NoteReading { note_name: NoteName::A, note_freq: 440_000, octave: 4, cents_offset }
}

#[test]
fn second_detection_yields_the_mean_of_two() {
    let mut history = PitchHistory::new();
    assert_eq!(history.observe(Some(millihertz(82.0))), None);
    assert_eq!(history.len(), 1);
    assert_eq!(history.observe(Some(millihertz(84.0))), Some(millihertz(83.0)));
    assert_eq!(history.len(), 1);
}

#[test]
fn every_further_detection_yields_a_mean_with_the_one_before() {
    let mut history = PitchHistory::new();
    assert_eq!(history.observe(Some(100_000)), None);
    assert_eq!(history.observe(Some(200_000)), Some(150_000));
    assert_eq!(history.observe(Some(400_000)), Some(300_000));
    assert_eq!(history.observe(Some(400_001)), Some(400_000));
    assert_eq!(history.observe(Some(u32::MAX)), Some(2_147_683_648));
    assert_eq!(history.observe(Some(u32::MAX)), Some(u32::MAX));
}

#[test]
fn cycle_without_detection_yields_no_mean_and_keeps_the_history() {
    let mut history = PitchHistory::new();
    assert_eq!(history.observe(None), None);
    assert_eq!(history.len(), 0);
    assert_eq!(history.observe(Some(82_000)), None);
    assert_eq!(history.observe(None), None);
    assert_eq!(history.len(), 1);
    assert_eq!(history.observe(Some(84_000)), Some(83_000));
}

#[test]
fn three_pushes_never_overfill_the_window() {
    let mut history = PitchHistory::new();
    for frequency in [82_000u32, 84_000, 86_000] {
        history.push(frequency);
        assert!(history.len() <= HISTORY_WINDOW);
    }
    assert_eq!(history.len(), 2);
    assert_eq!(history.take_mean(), Some(85_000));
    assert_eq!(history.len(), 1);
    assert_eq!(history.take_mean(), None);
    assert_eq!(history.len(), 1);
}

#[test]
fn neighbours_go_round_the_chromatic_circle() {
    for (i, note) in ALL_NOTES.iter().enumerate() {
        assert_eq!(note.next(), ALL_NOTES[(i + 1) % 12]);
        assert_eq!(note.previous(), ALL_NOTES[(i + 11) % 12]);
        assert_eq!(note.next().previous(), *note);
        assert_eq!(note.previous().next(), *note);
    }
}

#[test]
fn descriptor_derives_neighbours_and_tuning() {
    let note = NoteDescriptor::new(448_000, a_reading(31_194)).unwrap();
    assert_eq!(note.actual_freq, 448_000);
    assert_eq!(note.note_name, NoteName::A);
    assert_eq!(note.note_freq, 440_000);
    assert_eq!(note.octave, 4);
    assert_eq!(note.cents_offset, 31_194);
    assert_eq!(note.previous_note_name, NoteName::GSharp);
    assert_eq!(note.next_note_name, NoteName::ASharp);
    assert!(!note.in_tune);
    assert!(note.is_wf());
}

#[test]
fn in_tune_within_ten_cents_either_way() {
    for (cents, in_tune) in [(0, true), (9_999, true), (-9_999, true), (10_000, false), (-10_000, false), (50_000, false), (-50_000, false)] {
        let note = NoteDescriptor::new(440_000, a_reading(cents)).unwrap();
        assert_eq!(note.in_tune, in_tune);
    }
}

#[test]
fn reading_beyond_the_catchment_is_no_descriptor() {
    assert!(NoteDescriptor::new(440_000, a_reading(50_001)).is_none());
    assert!(NoteDescriptor::new(440_000, a_reading(-50_001)).is_none());
    assert!(NoteDescriptor::new(440_000, a_reading(i32::MAX)).is_none());
    assert!(NoteDescriptor::new(440_000, a_reading(i32::MIN)).is_none());
}

#[test]
fn inconsistent_descriptor_is_not_well_formed() {
    let mut note = NoteDescriptor::new(440_000, a_reading(0)).unwrap();
    assert!(note.is_wf());
    note.in_tune = false;
    assert!(!note.is_wf());
    note.in_tune = true;
    note.next_note_name = NoteName::B;
    assert!(!note.is_wf());
}

#[test]
fn descriptor_agrees_with_the_conversion() {
    for mean_freq in [82_410u32, 110_000, 311_130, 329_630, 440_000, 448_000, 523_250, 1_000_000] {
        let (reading, result) = reading_of(mean_freq).unwrap();
        let note = NoteDescriptor::new(mean_freq, reading).unwrap();
        assert_eq!(note.note_name, name_of(&result.note_name));
        assert_eq!(note.previous_note_name, name_of(&result.previous_note_name));
        assert_eq!(note.next_note_name, name_of(&result.next_note_name));
        assert_eq!(note.octave, result.octave);
        assert!((note.cents_offset as f64 / 1000.0 - result.cents_offset).abs() < 0.001);
        if (result.cents_offset.abs() - 10.0).abs() > 0.001 {
            assert_eq!(note.in_tune, result.in_tune);
        }
    }
}

#[test]
fn no_descriptor_without_a_new_mean() {
    let mut history = PitchHistory::new();
    let determined = RawBuffer::new(vec![0.0f32; 4]).pitch_detection(Some(440_000), &mut history);
    assert_eq!(determined.mean_freq(), None);
    assert_eq!(determined.note_info(Some(a_reading(0))), None);
}

#[test]
fn descriptor_is_of_the_new_mean() {
    let mut history = PitchHistory::new();
    RawBuffer::new(vec![0.0f32; 4]).pitch_detection(Some(440_000), &mut history);
    let determined = RawBuffer::new(vec![0.0f32; 4]).pitch_detection(Some(456_000), &mut history);
    assert_eq!(determined.mean_freq(), Some(448_000));
    let note = determined.note_info(Some(a_reading(31_194))).unwrap();
    assert_eq!(note.actual_freq, 448_000);
    assert_eq!(note.note_name, NoteName::A);
}

#[test]
fn rejected_conversion_is_no_descriptor() {
    let mut history = PitchHistory::new();
    RawBuffer::new(vec![0.0f32; 4]).pitch_detection(Some(10_000), &mut history);
    let determined = RawBuffer::new(vec![0.0f32; 4]).pitch_detection(Some(12_000), &mut history);
    assert_eq!(determined.mean_freq(), Some(11_000));
    assert!(reading_of(11_000).is_none());
    assert_eq!(determined.note_info(None), None);
}

#[test]
fn tuner_starts_with_nothing_to_show() {
    let tuner: GiTuner<f32> = GiTuner::new();
    assert_eq!(tuner.note_info(), &None);
    assert_eq!(tuner.pending_len(), 0);
    assert_eq!(tuner.history_len(), 0);
}

#[test]
fn tuner_releases_chunks_of_the_analysis_size() {
    let mut tuner: GiTuner<f32> = GiTuner::new();
    let samples: Vec<f32> = (0..5000).map(|i| i as f32).collect();
    let chunks = tuner.tune(samples);
    assert_eq!(chunks.len(), 2);
    assert_eq!(tuner.pending_len(), 904);
    assert_eq!(chunks[0].samples().len(), CHUNK_SIZE);
    assert_eq!(chunks[0].samples()[0], 0.0);
    assert_eq!(chunks[1].samples()[0], 2048.0);
}

#[test]
fn tuner_keeps_the_note_while_no_new_mean_comes() {
    let mut tuner: GiTuner<f32> = GiTuner::new();
    let first = tuner.pitch_detected(RawBuffer::new(Vec::new()), Some(440_000));
    assert_eq!(first.mean_freq(), None);
    tuner.note_determined(first, None);
    assert_eq!(tuner.note_info(), &None);
    let second = tuner.pitch_detected(RawBuffer::new(Vec::new()), Some(456_000));
    assert_eq!(second.mean_freq(), Some(448_000));
    tuner.note_determined(second, Some(a_reading(31_194)));
    let shown = tuner.note_info().unwrap();
    assert_eq!(shown.actual_freq, 448_000);
    let silent = tuner.pitch_detected(RawBuffer::new(Vec::new()), None);
    assert_eq!(silent.mean_freq(), None);
    tuner.note_determined(silent, None);
    assert_eq!(tuner.note_info(), &Some(shown));
    assert_eq!(tuner.history_len(), 1);
}

#[test]
fn tuner_shows_nothing_after_a_rejected_conversion() {
    let mut tuner: GiTuner<f32> = GiTuner::new();
    let first = tuner.pitch_detected(RawBuffer::new(Vec::new()), Some(440_000));
    tuner.note_determined(first, None);
    let second = tuner.pitch_detected(RawBuffer::new(Vec::new()), Some(440_000));
    tuner.note_determined(second, Some(a_reading(0)));
    assert!(tuner.note_info().is_some());
    let third = tuner.pitch_detected(RawBuffer::new(Vec::new()), Some(10_000));
    assert_eq!(third.mean_freq(), Some(225_000));
    tuner.note_determined(third, None);
    assert_eq!(tuner.note_info(), &None);
}

#[test]
fn detected_tone_is_named_after_two_chunks() {
    let samples: Vec<f32> = (0..2 * CHUNK_SIZE)
        .map(|i| (2.0 * std::f32::consts::PI * 440.0 * i as f32 / 48000.0).sin())
        .collect();
    let mut detector: McLeodDetector<f32> = McLeodDetector::new(CHUNK_SIZE, CHUNK_SIZE / 2);
    let mut tuner: GiTuner<f32> = GiTuner::new();
    let chunks = tuner.tune(samples);
    assert_eq!(chunks.len(), 2);
    let mut means = Vec::new();
    for chunk in chunks {
        let detected = detector
            .get_pitch(chunk.samples(), 48000, 0.00005, 0.5)
            .map(|pitch| millihertz(pitch.frequency));
        assert!(detected.is_some());
        let determined = tuner.pitch_detected(chunk, detected);
        means.push(determined.mean_freq());
        let reading = determined.mean_freq().and_then(reading_of).map(|(reading, _)| reading);
        tuner.note_determined(determined, reading);
    }
    assert_eq!(means[0], None);
    let mean = means[1].unwrap();
    assert!(mean > 438_000 && mean < 442_000);
    let shown = tuner.note_info().unwrap();
    assert_eq!(shown.actual_freq, mean);
    assert_eq!(shown.note_name, NoteName::A);
    assert_eq!(shown.octave, 4);
    assert_eq!(shown.previous_note_name, NoteName::GSharp);
    assert_eq!(shown.next_note_name, NoteName::ASharp);
}
