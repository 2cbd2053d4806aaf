//! The tuner display: a baseline for the note, a line for the pitch that was
//! heard, and the names of the note and its neighbours.

use vstd::prelude::*;
use crate::audiovisual::audio_tuner::NoteDescriptor;
use crate::audiovisual::audio_tuner::NoteName;
use crate::audiovisual::audio_tuner::MAX_NOTE_OFFSET;
use crate::audiovisual::graphics::GraphicalNote;
use crate::audiovisual::graphics::bits;
use crate::audiovisual::graphics::coloured;
use crate::audiovisual::graphics::convert_vecvecbool_to_xy_rgb_vec;
use crate::audiovisual::graphics::line;
use crate::audiovisual::graphics::line_graphic;
use crate::audiovisual::graphics::note_glyph;
use crate::graphics::RGB;
use crate::graphics::blank_canvas;
use crate::graphics::flatten;
use crate::graphics::flattened;
use crate::graphics::lemma_offscreen_rows;
use crate::rounding::round_quotient;
use crate::rounding::lemma_rounded_quotient_is_nearest;
use crate::rounding::rounded_quotient;
use crate::graphics::cells;
use crate::graphics::paint_element_rgb;
use crate::graphics::painted_rgb;

verus! {

/// The colour of an empty tuner canvas.
pub open spec fn canvas_colour() -> RGB {
    RGB { r: 1, g: 1, b: 5 }
}

/// The colour of the baseline.
pub open spec fn base_line_colour() -> RGB {
    RGB { r: 255, g: 215, b: 0 }
}

/// The colour of the line of the pitch that was heard.
pub open spec fn detected_line_colour() -> RGB {
    RGB { r: 51, g: 255, b: 255 }
}

/// The colour of the name of the note: green when in tune, red when not.
pub open spec fn detected_note_colour(in_tune: bool) -> RGB {
    if in_tune {
        RGB { r: 0, g: 255, b: 0 }
    } else {
        RGB { r: 200, g: 0, b: 0 }
    }
}

/// The colour of the names of the neighbouring notes.
pub open spec fn adjacent_note_colour() -> RGB {
    RGB { r: 100, g: 0, b: 100 }
}

/// The row of the baseline: the middle of the matrix, rounded up.
pub open spec fn middle_row(max_y: int) -> int {
    (max_y + 1) / 2
}

/// The furthest that the line of the pitch goes from the baseline.
pub open spec fn furthest_distance(max_y: int) -> int {
    max_y - middle_row(max_y) - 1
}

/// The row of the line of the pitch: off the baseline by the share of the
/// furthest distance that the offset of the pitch is of the catchment of a
/// note.
pub open spec fn detected_row(max_y: int, cents_offset: int) -> int {
    middle_row(max_y) + rounded_quotient(
        furthest_distance(max_y) * cents_offset,
        MAX_NOTE_OFFSET as int,
    )
}

/// The line of a pitch within the catchment of its note lies on the matrix, no
/// further from the baseline than the furthest distance: at the very top for a
/// pitch at the upper end of the catchment, one row above the bottom for a
/// pitch at the lower end, and on the baseline for a pitch on the note.
pub proof fn lemma_detected_row_on_matrix(max_y: int, cents_offset: int)
    requires
        2 <= max_y,
        -MAX_NOTE_OFFSET <= cents_offset <= MAX_NOTE_OFFSET,
    ensures
        0 < detected_row(max_y, cents_offset) < max_y,
        middle_row(max_y) - furthest_distance(max_y) <= detected_row(max_y, cents_offset)
            <= middle_row(max_y) + furthest_distance(max_y),
        detected_row(max_y, MAX_NOTE_OFFSET as int) == max_y - 1,
        detected_row(max_y, 0) == middle_row(max_y),
        detected_row(max_y, -MAX_NOTE_OFFSET) == middle_row(max_y) - furthest_distance(max_y),
{
    let reach = furthest_distance(max_y);
    let scale = MAX_NOTE_OFFSET as int;
    lemma_rounded_quotient_is_nearest(reach * cents_offset, scale);
    lemma_rounded_quotient_is_nearest(reach * scale, scale);
    lemma_rounded_quotient_is_nearest(reach * (-scale), scale);
    lemma_rounded_quotient_is_nearest(reach * 0, scale);
    let r = rounded_quotient(reach * cents_offset, scale);
    assert(-reach * scale <= reach * cents_offset <= reach * scale) by (nonlinear_arith)
        requires
            0 <= reach,
            -scale <= cents_offset <= scale,
    ;
    assert(-reach <= r <= reach) by (nonlinear_arith)
        requires
            -scale <= 2 * (reach * cents_offset - r * scale) <= scale,
            -reach * scale <= reach * cents_offset <= reach * scale,
            scale > 0,
    ;
    let top = rounded_quotient(reach * scale, scale);
    assert(top == reach) by (nonlinear_arith)
        requires
            -scale <= 2 * (reach * scale - top * scale) <= scale,
            scale > 0,
    ;
    let bottom = rounded_quotient(reach * (-scale), scale);
    assert(bottom == -reach) by (nonlinear_arith)
        requires
            -scale <= 2 * (reach * (-scale) - bottom * scale) <= scale,
            scale > 0,
    ;
    assert(reach * 0 == 0);
}

/// The canvas with the baseline on it.
pub open spec fn with_baseline(max_x: int, max_y: int) -> Seq<RGB> {
    painted_rgb(
        blank_canvas(max_x * max_y, canvas_colour()),
        line_graphic(max_x, base_line_colour()),
        0,
        middle_row(max_y),
        max_x,
        max_y,
    )
}

/// The canvas with the baseline and the line of the pitch on it.
pub open spec fn with_detected_line(max_x: int, max_y: int, cents_offset: int) -> Seq<RGB> {
    painted_rgb(
        with_baseline(max_x, max_y),
        line_graphic(max_x, detected_line_colour()),
        0,
        detected_row(max_y, cents_offset),
        max_x,
        max_y,
    )
}

/// The canvas with the lines and the names of the note and its neighbours on
/// it: the note in the middle, the note below it at the bottom, the note above
/// it at the top.
pub open spec fn with_notes(max_x: int, max_y: int, note: NoteDescriptor) -> Seq<RGB> {
    let detected = coloured(note_glyph(note.note_name), detected_note_colour(note.in_tune));
    let previous = coloured(note_glyph(note.previous_note_name), adjacent_note_colour());
    let next = coloured(note_glyph(note.next_note_name), adjacent_note_colour());
    painted_rgb(
        painted_rgb(
            painted_rgb(
                with_detected_line(max_x, max_y, note.cents_offset as int),
                detected,
                1,
                14,
                max_x,
                max_y,
            ),
            previous,
            1,
            1,
            max_x,
            max_y,
        ),
        next,
        1,
        25,
        max_x,
        max_y,
    )
}

/// The frame that shows a note on a matrix of `max_x` by `max_y` LEDs.
pub open spec fn tuner_frame(max_x: int, max_y: int, note: NoteDescriptor) -> Seq<u8> {
    flattened(with_notes(max_x, max_y, note))
}

/// Paints the tuner display, layer by layer.
pub struct Painter {
    led_matrix_max_x: usize,
    led_matrix_max_y: usize,
}

/// An empty tuner canvas.
pub struct BlankCanvas {
    pub max_x: usize,
    pub max_y: usize,
    pub color_vec: Vec<RGB>,
    pub base_line_color: RGB,
}

/// A tuner canvas with the baseline on it.
pub struct BaseLined {
    pub max_x: usize,
    pub max_y: usize,
    pub color_vec: Vec<RGB>,
    pub detected_line_color: RGB,
    pub baseline_row: usize,
}

/// A tuner canvas with the baseline and the line of the pitch on it.
pub struct DetectedLineDrawn {
    pub max_x: usize,
    pub max_y: usize,
    pub color_vec: Vec<RGB>,
    pub detected_note_color: RGB,
    pub in_tune_color: RGB,
    pub adjacent_note_color: RGB,
    pub start_row_col_detected: (usize, usize),
    pub start_row_col_prev: (usize, usize),
    pub start_row_col_next: (usize, usize),
}

/// A finished tuner canvas.
pub struct NotesDrawn {
    pub color_vec: Vec<RGB>,
}

/// The dimensions of a matrix that the tuner display fits: at least two rows,
/// no more rows than a row offset can name, and no more LEDs than a canvas can
/// hold.
pub open spec fn matrix_fits(max_x: int, max_y: int) -> bool {
    &&& 0 <= max_x
    &&& 2 <= max_y <= i32::MAX
    &&& max_x * max_y <= usize::MAX
}

impl Painter {
    pub closed spec fn max_x(&self) -> int {
        self.led_matrix_max_x as int
    }

    pub closed spec fn max_y(&self) -> int {
        self.led_matrix_max_y as int
    }

    pub open spec fn wf(&self) -> bool {
        matrix_fits(self.max_x(), self.max_y())
    }

    /// A painter for a matrix of `x` by `y` LEDs.
    pub fn new(x: usize, y: usize) -> (r: Self)
        requires
            matrix_fits(x as int, y as int),
        ensures
            r.wf(),
            r.max_x() == x,
            r.max_y() == y,
    {
        Painter { led_matrix_max_x: x, led_matrix_max_y: y }
    }

    /// Paints the frame that shows a note.
    pub fn paint(&mut self, note_det_result: &NoteDescriptor) -> (r: Vec<u8>)
        requires
            old(self).wf(),
        ensures
            *final(self) == *old(self),
            r@ == tuner_frame(old(self).max_x(), old(self).max_y(), *note_det_result),
    {
        let blank_canvas = BlankCanvas::new(self.led_matrix_max_x, self.led_matrix_max_y);
        let base_lined = blank_canvas.draw_baseline();
        let detected_line_drawn = base_lined.draw_detected_line(note_det_result.cents_offset);
        let notes_drawn = detected_line_drawn.draw_notes(
            &note_det_result.note_name,
            &note_det_result.previous_note_name,
            &note_det_result.next_note_name,
            note_det_result.in_tune,
        );
        notes_drawn.output()
    }
}

impl BlankCanvas {
    pub open spec fn wf(&self) -> bool {
        &&& matrix_fits(self.max_x as int, self.max_y as int)
        &&& self.color_vec@ == blank_canvas(self.max_x * self.max_y, canvas_colour())
        &&& self.base_line_color == base_line_colour()
    }

    /// An empty canvas for a matrix of `max_x` by `max_y` LEDs.
    pub fn new(max_x: usize, max_y: usize) -> (r: BlankCanvas)
        requires
            matrix_fits(max_x as int, max_y as int),
        ensures
            r.wf(),
            r.max_x == max_x,
            r.max_y == max_y,
    {
        let count: usize = max_x * max_y;
        let mut empty_canvas: Vec<RGB> = Vec::new();
        let mut p: usize = 0;
        while p < count
            invariant
                0 <= p <= count,
                empty_canvas@.len() == p,
                forall|q: int| 0 <= q < p ==> #[trigger] empty_canvas@[q] == canvas_colour(),
            decreases count - p,
        {
            empty_canvas.push(RGB { r: 1, g: 1, b: 5 });
            p += 1;
        }
        assert(empty_canvas@ =~= blank_canvas(max_x * max_y, canvas_colour()));
        BlankCanvas {
            max_x,
            max_y,
            color_vec: empty_canvas,
            base_line_color: RGB { r: 255, g: 215, b: 0 },
        }
    }

    /// Draws the line that stands for the note itself across the middle of the
    /// matrix.
    pub fn draw_baseline(self) -> (r: BaseLined)
        requires
            self.wf(),
        ensures
            r.wf(),
            r.max_x == self.max_x,
            r.max_y == self.max_y,
    {
        let mut color_vec = self.color_vec;
        let baseline_row: usize = (self.max_y - 1) / 2 + 1;
        assert(baseline_row == middle_row(self.max_y as int));
        let line_graphic = line(
            self.max_x,
            RGB { r: self.base_line_color.r, g: self.base_line_color.g, b: self.base_line_color.b },
        );
        paint_element_rgb(
            &mut color_vec,
            &line_graphic,
            0i32,
            baseline_row as i32,
            self.max_x,
            self.max_y,
        );
        BaseLined {
            detected_line_color: RGB { r: 51, g: 255, b: 255 },
            baseline_row,
            max_x: self.max_x,
            max_y: self.max_y,
            color_vec,
        }
    }
}

impl BaseLined {
    pub open spec fn wf(&self) -> bool {
        &&& matrix_fits(self.max_x as int, self.max_y as int)
        &&& self.color_vec@ == with_baseline(self.max_x as int, self.max_y as int)
        &&& self.detected_line_color == detected_line_colour()
        &&& self.baseline_row == middle_row(self.max_y as int)
    }

    /// Draws the line of the pitch that was heard, above the baseline where the
    /// pitch is sharp and below it where the pitch is flat.
    pub fn draw_detected_line(self, cents_offset: i32) -> (r: DetectedLineDrawn)
        requires
            self.wf(),
        ensures
            r.wf(cents_offset),
            r.max_x == self.max_x,
            r.max_y == self.max_y,
    {
        let mut color_vec = self.color_vec;
        let max_distance: usize = self.max_y - self.baseline_row - 1;
        assert(0 <= max_distance * cents_offset <= 0x7fff_ffff * 0x8000_0000 || -(0x7fff_ffff
            * 0x8000_0000) <= max_distance * cents_offset <= 0) by (nonlinear_arith)
            requires
                0 <= max_distance <= 0x7fff_ffff,
                -0x8000_0000 <= cents_offset <= 0x7fff_ffff,
        ;
        let scaled: i128 = (max_distance as i128) * (cents_offset as i128);
        let offset_distance: i128 = round_quotient(scaled, MAX_NOTE_OFFSET as i128);
        let draw_row: i128 = self.baseline_row as i128 + offset_distance;
        assert(draw_row == detected_row(self.max_y as int, cents_offset as int));
        let line_graphic = line(
            self.max_x,
            RGB {
                r: self.detected_line_color.r,
                g: self.detected_line_color.g,
                b: self.detected_line_color.b,
            },
        );
        if 0 <= draw_row && draw_row < self.max_y as i128 {
            paint_element_rgb(
                &mut color_vec,
                &line_graphic,
                0i32,
                draw_row as i32,
                self.max_x,
                self.max_y,
            );
        } else {
            proof {
                lemma_offscreen_rows(
                    color_vec@,
                    cells(line_graphic@),
                    0,
                    draw_row as int,
                    self.max_x as int,
                    self.max_y as int,
                );
            }
        }
        DetectedLineDrawn {
            max_x: self.max_x,
            max_y: self.max_y,
            color_vec,
            detected_note_color: RGB { r: 200, g: 0, b: 0 },
            in_tune_color: RGB { r: 0, g: 255, b: 0 },
            adjacent_note_color: RGB { r: 100, g: 0, b: 100 },
            start_row_col_detected: (14, 1),
            start_row_col_prev: (1, 1),
            start_row_col_next: (25, 1),
        }
    }
}

impl DetectedLineDrawn {
    pub open spec fn wf(&self, cents_offset: i32) -> bool {
        &&& matrix_fits(self.max_x as int, self.max_y as int)
        &&& self.color_vec@ == with_detected_line(
            self.max_x as int,
            self.max_y as int,
            cents_offset as int,
        )
        &&& self.detected_note_color == detected_note_colour(false)
        &&& self.in_tune_color == detected_note_colour(true)
        &&& self.adjacent_note_color == adjacent_note_colour()
        &&& self.start_row_col_detected == (14usize, 1usize)
        &&& self.start_row_col_prev == (1usize, 1usize)
        &&& self.start_row_col_next == (25usize, 1usize)
    }

    /// Draws the name of the note in the middle of the matrix and the names of
    /// its neighbours below and above.
    pub fn draw_notes(
        self,
        detected_note: &NoteName,
        prev_note: &NoteName,
        next_note: &NoteName,
        in_tune: bool,
    ) -> (r: NotesDrawn)
        requires
            exists|cents_offset: i32| self.wf(cents_offset),
        ensures
            forall|cents_offset: i32|
                self.wf(cents_offset) ==> r.color_vec@ == with_notes(
                    self.max_x as int,
                    self.max_y as int,
                    NoteDescriptor {
                        actual_freq: 0,
                        note_name: *detected_note,
                        note_freq: 0,
                        octave: 0,
                        cents_offset,
                        previous_note_name: *prev_note,
                        next_note_name: *next_note,
                        in_tune,
                    },
                ),
    {
        let mut color_vec = self.color_vec;
        let graphical_detected_note = GraphicalNote::new(detected_note);
        let graphical_prev_note = GraphicalNote::new(prev_note);
        let graphical_next_note = GraphicalNote::new(next_note);
        let detected_note_color = if in_tune {
            self.in_tune_color
        } else {
            self.detected_note_color
        };
        let adjacent_note_color = RGB {
            r: self.adjacent_note_color.r,
            g: self.adjacent_note_color.g,
            b: self.adjacent_note_color.b,
        };
        let detected_graphic = convert_vecvecbool_to_xy_rgb_vec(
            graphical_detected_note.matrix,
            detected_note_color,
        );
        let prev_note_graphic = convert_vecvecbool_to_xy_rgb_vec(
            graphical_prev_note.matrix,
            RGB { r: adjacent_note_color.r, g: adjacent_note_color.g, b: adjacent_note_color.b },
        );
        let next_note_graphic = convert_vecvecbool_to_xy_rgb_vec(
            graphical_next_note.matrix,
            adjacent_note_color,
        );
        paint_element_rgb(
            &mut color_vec,
            &detected_graphic,
            self.start_row_col_detected.1 as i32,
            self.start_row_col_detected.0 as i32,
            self.max_x,
            self.max_y,
        );
        paint_element_rgb(
            &mut color_vec,
            &prev_note_graphic,
            self.start_row_col_prev.1 as i32,
            self.start_row_col_prev.0 as i32,
            self.max_x,
            self.max_y,
        );
        paint_element_rgb(
            &mut color_vec,
            &next_note_graphic,
            self.start_row_col_next.1 as i32,
            self.start_row_col_next.0 as i32,
            self.max_x,
            self.max_y,
        );
        NotesDrawn { color_vec }
    }
}

impl NotesDrawn {
    /// The bytes to send to the matrix.
    pub fn output(self) -> (r: Vec<u8>)
        ensures
            r@ == flattened(self.color_vec@),
    {
        flatten(&self.color_vec)
    }
}

} // verus!
