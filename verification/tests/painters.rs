use frequalizer::audiovisual::audio_tuner::NoteDescriptor;
use frequalizer::audiovisual::audio_tuner::NoteName;
use frequalizer::audiovisual::audio_tuner::NoteReading;
use frequalizer::audiovisual::visual_bins_to_animation;
use frequalizer::audiovisual::visual_bins_to_animation::bar_fill_intensity;
use frequalizer::audiovisual::visual_bins_to_animation::bar_leds;
use frequalizer::audiovisual::visual_bins_to_animation::fade_channel;
use frequalizer::audiovisual::visual_bins_to_animation::get_new_cycle_state;
use frequalizer::audiovisual::visual_bins_to_animation::is_faded_out;
use frequalizer::audiovisual::visual_bins_to_animation::BarPlan;
use frequalizer::audiovisual::visual_tuner_painter;
use frequalizer::graphics::flatten;
use frequalizer::rounding::round_quotient;
use frequalizer::graphics::RGB;

const BACKGROUND: RGB = RGB { r: 1, g: 2, b: 3 };

fn led(canvas: &[u8], index: usize) -> [u8; 3] {
    [canvas[3 * index], canvas[3 * index + 1], canvas[3 * index + 2]]
}

fn note(name: NoteName, cents_offset: i32) -> NoteDescriptor {
    NoteDescriptor::new(440_000, NoteReading { note_name: name, note_freq: 440_000, octave: 4, cents_offset }).unwrap()
}

#[test]
fn quotients_round_half_away_from_zero() {
    assert_eq!(round_quotient(7, 2), 4);
    assert_eq!(round_quotient(-7, 2), -4);
    assert_eq!(round_quotient(5, 5), 1);
    assert_eq!(round_quotient(2, 5), 0);
    assert_eq!(round_quotient(3, 5), 1);
    assert_eq!(round_quotient(-2, 5), 0);
    assert_eq!(round_quotient(-3, 5), -1);
    assert_eq!(round_quotient(0, 9), 0);
    assert_eq!(round_quotient(375_000, 50_000), 8);
    assert_eq!(round_quotient(-375_000, 50_000), -8);
}

#[test]
fn canvas_is_sent_green_red_blue() {
    let bytes = flatten(&vec![RGB { r: 1, g: 2, b: 3 }, RGB { r: 4, g: 5, b: 6 }]);
    assert_eq!(bytes, vec![2, 1, 3, 5, 4, 6]);
    assert!(flatten(&Vec::new()).is_empty());
}

#[test]
fn tuner_canvas_starts_blank() {
    let canvas = visual_tuner_painter::BlankCanvas::new(8, 32);
    assert_eq!(canvas.max_x, 8);
    assert_eq!(canvas.max_y, 32);
    assert_eq!(canvas.color_vec, vec![RGB { r: 1, g: 1, b: 5 }; 256]);
    assert_eq!(canvas.base_line_color, RGB { r: 255, g: 215, b: 0 });
    assert_eq!(visual_tuner_painter::BlankCanvas::new(3, 2).color_vec.len(), 6);
}

#[test]
fn baseline_runs_across_the_middle() {
    let lined = visual_tuner_painter::BlankCanvas::new(8, 32).draw_baseline();
    assert_eq!(lined.baseline_row, 16);
    for index in 0..256 {
        let expected = if (128..136).contains(&index) { RGB { r: 255, g: 215, b: 0 } } else { RGB { r: 1, g: 1, b: 5 } };
        assert_eq!(lined.color_vec[index], expected);
    }
    assert_eq!(visual_tuner_painter::BlankCanvas::new(8, 31).draw_baseline().baseline_row, 16);
    assert_eq!(visual_tuner_painter::BlankCanvas::new(8, 2).draw_baseline().baseline_row, 1);
}

#[test]
fn detected_line_moves_with_the_offset() {
    for (cents, row) in [(0, 16usize), (25_000, 24), (-25_000, 8), (50_000, 31), (-50_000, 1), (31_194, 25), (1_666, 16), (1_667, 17)] {
        let drawn = visual_tuner_painter::BlankCanvas::new(8, 32).draw_baseline().draw_detected_line(cents);
        for x in 0..8 {
            assert_eq!(drawn.color_vec[row * 8 + x], RGB { r: 51, g: 255, b: 255 });
        }
        if row != 16 {
            assert_eq!(drawn.color_vec[128], RGB { r: 255, g: 215, b: 0 });
        }
    }
}

#[test]
fn detected_line_beyond_the_matrix_is_not_drawn() {
    for cents in [i32::MAX, i32::MIN, 60_000, -60_000] {
        let drawn = visual_tuner_painter::BlankCanvas::new(8, 32).draw_baseline().draw_detected_line(cents);
        assert!(drawn.color_vec.iter().all(|&colour| colour != RGB { r: 51, g: 255, b: 255 }));
    }
}

#[test]
fn tuner_frame_shows_lines_and_names() {
    let mut painter = visual_tuner_painter::Painter::new(8, 32);
    let frame = painter.paint(&note(NoteName::A, 25_000));
    assert_eq!(frame.len(), 768);
    assert_eq!(led(&frame, 0), [1, 1, 5]);
    assert_eq!(led(&frame, 128), [215, 255, 0]);
    assert_eq!(led(&frame, 192), [255, 51, 255]);
    assert_eq!(led(&frame, 126), [0, 200, 0]);
    assert_eq!(led(&frame, 13), [0, 100, 100]);
    assert_eq!(led(&frame, 206), [0, 100, 100]);
    assert_eq!(led(&frame, 129), [0, 200, 0]);
    assert_eq!(led(&frame, 130), [215, 255, 0]);
}

#[test]
fn note_in_tune_is_shown_green() {
    let mut painter = visual_tuner_painter::Painter::new(8, 32);
    let frame = painter.paint(&note(NoteName::A, 2_000));
    assert_eq!(led(&frame, 126), [255, 0, 0]);
    let again = painter.paint(&note(NoteName::A, 2_000));
    assert_eq!(frame, again);
}

#[test]
fn bar_length_rounds_to_the_nearest_led() {
    for (bin, leds) in [(0u32, 0usize), (62_499, 0), (62_500, 1), (187_499, 1), (500_000, 4), (937_499, 7), (937_500, 8), (1_000_000, 8), (u32::MAX, 8)] {
        assert_eq!(bar_leds(bin), leds);
    }
}

#[test]
fn bar_intensity_rounds_up_within_its_range() {
    for (bin, intensity) in [(0u32, 4u8), (50_000, 4), (66_666, 4), (66_667, 5), (500_000, 30), (500_001, 31), (1_000_000, 60), (u32::MAX, 60)] {
        assert_eq!(bar_fill_intensity(bin), intensity);
    }
}

#[test]
fn background_cycle_starts_over_at_its_period() {
    assert_eq!(get_new_cycle_state(0), 6);
    assert_eq!(get_new_cycle_state(192), 198);
    assert_eq!(get_new_cycle_state(194), 0);
    assert_eq!(get_new_cycle_state(198), 4);
}

#[test]
fn background_cycle_moves_every_fifth_frame() {
    let mut painter = visual_bins_to_animation::Painter::new();
    let states: Vec<u32> = (0..11).map(|_| painter.advance_background()).collect();
    assert_eq!(states, vec![0, 0, 0, 0, 6, 6, 6, 6, 6, 12, 12]);
}

#[test]
fn bars_are_planned_row_by_row() {
    let mut painter = visual_bins_to_animation::Painter::new();
    let plans = painter.plan_bars(&vec![1_000_000, 0, 500_000]);
    assert_eq!(
        plans,
        vec![
            BarPlan { leds: 8, intensity: 60, phase: 1 },
            BarPlan { leds: 0, intensity: 4, phase: 2 },
            BarPlan { leds: 4, intensity: 30, phase: 3 },
        ]
    );
    let plans = painter.plan_bars(&vec![250_000]);
    assert_eq!(plans, vec![BarPlan { leds: 2, intensity: 15, phase: 4 }]);
    assert!(painter.plan_bars(&Vec::new()).is_empty());
    assert_eq!(painter.plan_bars(&vec![0; 40]).len(), 32);
}

#[test]
fn bar_cycle_starts_over_after_a_full_turn() {
    let mut painter = visual_bins_to_animation::Painter::new();
    let mut last = 0;
    for _ in 0..196 {
        last = painter.plan_bars(&vec![0; 32])[31].phase;
    }
    assert_eq!(last, 6272);
    let plans = painter.plan_bars(&vec![0; 32]);
    assert_eq!(plans[10].phase, 6283);
    assert_eq!(plans[11].phase, 1);
    assert_eq!(plans[31].phase, 21);
}

#[test]
fn ghost_fades_a_fifth_of_the_way() {
    assert_eq!(fade_channel(101, 1), 81);
    assert_eq!(fade_channel(81, 1), 65);
    assert_eq!(fade_channel(65, 1), 52);
    assert_eq!(fade_channel(1, 101), 21);
    assert_eq!(fade_channel(0, 255), 51);
    assert_eq!(fade_channel(255, 0), 204);
    assert_eq!(fade_channel(10, 12), 10);
    assert_eq!(fade_channel(10, 13), 11);
    assert_eq!(fade_channel(7, 7), 7);
    assert!(is_faded_out(RGB { r: 5, g: 2, b: 0 }, BACKGROUND));
    assert!(is_faded_out(RGB { r: 0, g: 6, b: 7 }, BACKGROUND));
    assert!(!is_faded_out(RGB { r: 6, g: 2, b: 3 }, BACKGROUND));
    assert!(!is_faded_out(RGB { r: 1, g: 2, b: 8 }, BACKGROUND));
}

#[test]
fn equalizer_canvas_starts_blank() {
    let canvas = visual_bins_to_animation::BlankCanvas::new();
    assert_eq!(canvas.color_vec, vec![RGB { r: 1, g: 1, b: 1 }; 256]);
    assert_eq!(canvas.iterations_between_bg_refreshes, 5);
    assert_eq!(canvas.background_min_value, 1);
    assert_eq!(canvas.background_max_value, 5);
    let drawn = visual_bins_to_animation::FadedBarsDrawn::new(vec![BACKGROUND; 256]);
    assert_eq!(drawn.newbar_min_intensity, 4);
    assert_eq!(drawn.newbar_max_intensity, 60);
    let done = visual_bins_to_animation::NewBarsDrawn { color_vec: vec![BACKGROUND; 2] };
    assert_eq!(done.output(), vec![2, 1, 3, 2, 1, 3]);
}

#[test]
fn bars_grow_from_the_right_edge() {
    let strong = RGB { r: 101, g: 2, b: 3 };
    let weak = RGB { r: 4, g: 2, b: 3 };
    let mut painter = visual_bins_to_animation::Painter::new();
    let frame = painter.paint(&vec![1_000_000, 0, 500_000, 250_000], BACKGROUND, &vec![strong, strong, weak, strong]);
    assert_eq!(frame.len(), 768);
    for x in 0..8 {
        assert_eq!(led(&frame, x), [2, 101, 3]);
        assert_eq!(led(&frame, 8 + x), [2, 1, 3]);
    }
    for x in 0..4 {
        assert_eq!(led(&frame, 16 + x), [2, 1, 3]);
        assert_eq!(led(&frame, 20 + x), [2, 4, 3]);
    }
    assert_eq!(led(&frame, 24), [2, 101, 3]);
    assert_eq!(led(&frame, 25), [2, 101, 3]);
    assert_eq!(led(&frame, 26), [2, 1, 3]);
    assert_eq!(led(&frame, 31), [2, 1, 3]);
    assert_eq!(led(&frame, 32), [2, 1, 3]);
    assert_eq!(led(&frame, 255), [2, 1, 3]);
}

#[test]
fn bars_leave_ghosts_that_fade_out() {
    let strong = RGB { r: 101, g: 2, b: 3 };
    let weak = RGB { r: 4, g: 2, b: 3 };
    let mut painter = visual_bins_to_animation::Painter::new();
    painter.paint(&vec![1_000_000, 0, 500_000], BACKGROUND, &vec![strong, strong, weak]);
    let mut reds = Vec::new();
    for _ in 0..16 {
        let frame = painter.paint(&vec![0, 0, 0], BACKGROUND, &vec![strong, strong, strong]);
        assert_eq!(led(&frame, 20), [2, 1, 3]);
        assert_eq!(led(&frame, 8), [2, 1, 3]);
        assert_eq!(led(&frame, 0), led(&frame, 7));
        reds.push(led(&frame, 0)[1]);
    }
    assert_eq!(reds, vec![81, 65, 52, 42, 34, 27, 22, 18, 15, 12, 10, 8, 7, 6, 5, 1]);
}

#[test]
fn bins_without_a_colour_or_a_row_show_no_bar() {
    let colour = RGB { r: 9, g: 9, b: 9 };
    let mut painter = visual_bins_to_animation::Painter::new();
    let frame = painter.paint(&vec![1_000_000; 40], BACKGROUND, &vec![colour; 2]);
    assert_eq!(led(&frame, 0), [9, 9, 9]);
    assert_eq!(led(&frame, 15), [9, 9, 9]);
    assert_eq!(led(&frame, 16), [2, 1, 3]);
    let mut painter = visual_bins_to_animation::Painter::new();
    let frame = painter.paint(&vec![1_000_000; 40], BACKGROUND, &vec![colour; 40]);
    assert!((0..256).all(|index| led(&frame, index) == [9, 9, 9]));
}
