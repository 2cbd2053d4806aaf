//! The equalizer display: one bar per frequency bin on a pulsing background,
//! each bar leaving a ghost that fades out over the following frames.
//!
//! The bins map one to one onto the rows of the matrix. A bar grows from the
//! right edge of its row towards the left.

use vstd::prelude::*;
use crate::config::FULL_SCALE;
use crate::config::LEDS_MAX_X;
use crate::config::LEDS_MAX_Y;
use crate::audiovisual::graphics::channel_diff;
use crate::audiovisual::graphics::channel_shifted;
use crate::audiovisual::graphics::line;
use crate::audiovisual::graphics::line_graphic;
use crate::audiovisual::graphics::paint_element_rgb;
use crate::graphics::blank_canvas;
use crate::graphics::flatten;
use crate::graphics::flattened;
use crate::rounding::round_quotient;
use crate::rounding::rounded_quotient;
use crate::graphics::RGB;
use crate::graphics::cells;
use crate::graphics::led_column;
use crate::graphics::led_colour;
use crate::graphics::led_index;
use crate::graphics::led_row;
use crate::graphics::lemma_led_of_position;
use crate::graphics::lemma_position_of_led;
use crate::graphics::painted_rgb;

verus! {

/// Number of LEDs of the matrix.
pub const LED_COUNT: usize = 256;

/// Number of frames between two steps of the background cycle.
pub const ITERATIONS_BETWEEN_BG_REFRESHES: u16 = 5;

/// How far the background cycle moves in one step, in hundredths.
pub const BACKGROUND_CYCLE_STEP: u32 = 6;

/// Where the background cycle starts over, in hundredths.
pub const BACKGROUND_CYCLE_PERIOD: u32 = 200;

/// Where the colour cycle of the bars starts over, in thousandths: a full
/// turn in radians.
pub const BAR_CYCLE_PERIOD: u32 = 6283;

/// A ghost this close to the background on every channel has faded out.
pub const FADE_THRESHOLD: i16 = 4;

/// A ghost moves a fifth of the way towards the background in a frame.
pub const FADE_DIVISOR: i16 = 5;

/// The intensity of the faintest bar.
pub const NEWBAR_MIN_INTENSITY: u8 = 4;

/// The intensity of the strongest bar.
pub const NEWBAR_MAX_INTENSITY: u8 = 60;

/// The state of the background cycle one step on.
pub open spec fn next_cycle_state(cycle_state: u32) -> u32 {
    if cycle_state + BACKGROUND_CYCLE_STEP >= BACKGROUND_CYCLE_PERIOD {
        (cycle_state + BACKGROUND_CYCLE_STEP - BACKGROUND_CYCLE_PERIOD) as u32
    } else {
        (cycle_state + BACKGROUND_CYCLE_STEP) as u32
    }
}

/// The count of frames since the background cycle last moved, one frame on.
pub open spec fn iteration_after(iteration: u16) -> u16 {
    if iteration + 1 == ITERATIONS_BETWEEN_BG_REFRESHES {
        0
    } else {
        (iteration + 1) as u16
    }
}

/// The state of the background cycle one frame on: a step on in every fifth
/// frame, unchanged in the others.
pub open spec fn background_state_after(iteration: u16, cycle_state: u32) -> u32 {
    if iteration + 1 == ITERATIONS_BETWEEN_BG_REFRESHES {
        next_cycle_state(cycle_state)
    } else {
        cycle_state
    }
}

/// The state of the colour cycle of the bars one bar on.
pub open spec fn next_bar_state(cycle_state: u32) -> u32 {
    if cycle_state + 1 > BAR_CYCLE_PERIOD {
        (cycle_state + 1 - BAR_CYCLE_PERIOD) as u32
    } else {
        (cycle_state + 1) as u32
    }
}

/// The state of the colour cycle of the bars `bars` bars on.
pub open spec fn bar_state_after(cycle_state: u32, bars: int) -> u32
    decreases bars,
{
    if bars <= 0 {
        cycle_state
    } else {
        next_bar_state(bar_state_after(cycle_state, bars - 1))
    }
}

/// Number of LEDs that the bar of a bin lights: the share of the row that the
/// bin has of full scale, rounded to the nearest LED.
pub open spec fn bar_length(bin: u32) -> int {
    let leds = (LEDS_MAX_X * bin + FULL_SCALE / 2) / (FULL_SCALE as int);
    if leds > LEDS_MAX_X {
        LEDS_MAX_X as int
    } else {
        leds
    }
}

/// The intensity of the bar of a bin: the share of the strongest intensity that
/// the bin has of full scale, rounded up, and never below the faintest.
pub open spec fn bar_intensity(bin: u32) -> int {
    let raw = (NEWBAR_MAX_INTENSITY * bin + FULL_SCALE - 1) / (FULL_SCALE as int);
    if raw < NEWBAR_MIN_INTENSITY {
        NEWBAR_MIN_INTENSITY as int
    } else if raw > NEWBAR_MAX_INTENSITY {
        NEWBAR_MAX_INTENSITY as int
    } else {
        raw
    }
}

/// Number of bars that are drawn for `bins` bins: one per bin, as far as the
/// matrix has rows.
pub open spec fn bar_rows(bins: int) -> int {
    if bins > LEDS_MAX_Y {
        LEDS_MAX_Y as int
    } else {
        bins
    }
}

/// What the colour of a bar depends on.
#[derive(Clone, Copy, PartialEq, Eq, Structural, Debug)]
pub struct BarPlan {
    /// Number of LEDs that the bar lights.
    pub leds: usize,
    /// Intensity of the bar.
    pub intensity: u8,
    /// State of the colour cycle for the bar, in thousandths of a radian.
    pub phase: u32,
}

/// Whether a ghost has come so close to the background that it counts as faded
/// out.
pub open spec fn faded_out(ghost: RGB, background: RGB) -> bool {
    &&& -FADE_THRESHOLD <= background.r - ghost.r <= FADE_THRESHOLD
    &&& -FADE_THRESHOLD <= background.g - ghost.g <= FADE_THRESHOLD
    &&& -FADE_THRESHOLD <= background.b - ghost.b <= FADE_THRESHOLD
}

/// A channel of a ghost one frame on: a fifth of the way closer to the
/// background, to the nearest integer.
pub open spec fn faded_channel(ghost: u8, background: u8) -> u8 {
    (ghost + rounded_quotient(background - ghost, FADE_DIVISOR as int)) as u8
}

/// A ghost one frame on.
pub open spec fn faded(ghost: RGB, background: RGB) -> RGB {
    RGB {
        r: faded_channel(ghost.r, background.r),
        g: faded_channel(ghost.g, background.g),
        b: faded_channel(ghost.b, background.b),
    }
}

/// What is left of a ghost one frame on: nothing once it has faded out.
pub open spec fn ghost_after_fade(ghost: Option<RGB>, background: RGB) -> Option<RGB> {
    match ghost {
        Some(current) => if faded_out(current, background) {
            None
        } else {
            Some(faded(current, background))
        },
        None => None,
    }
}

/// The ghosts one frame on.
pub open spec fn ghosts_after_fade(ghosts: Seq<Option<RGB>>, background: RGB) -> Seq<Option<RGB>> {
    Seq::new(ghosts.len(), |p: int| ghost_after_fade(ghosts[p], background))
}

/// The canvas with the background and the fading ghosts on it.
pub open spec fn with_fade_bars(ghosts: Seq<Option<RGB>>, background: RGB) -> Seq<RGB> {
    Seq::new(
        LED_COUNT as nat,
        |p: int|
            match ghost_after_fade(ghosts[p], background) {
                Some(current) => current,
                None => background,
            },
    )
}

/// The colour that the bars of the first `rows` bins put on the LED at
/// position `p`: that of the bar of its row, if the bar reaches it.
pub open spec fn bar_led(bins: Seq<u32>, colors: Seq<RGB>, rows: int, p: int) -> Option<RGB> {
    let row = led_row(p, LEDS_MAX_X as int);
    if 0 <= p < LED_COUNT && row < rows && led_column(p, LEDS_MAX_X as int) >= LEDS_MAX_X
        - bar_length(bins[row]) {
        Some(colors[row])
    } else {
        None
    }
}

/// A canvas with the bars of the first `rows` bins on it.
pub open spec fn with_new_bars(canvas: Seq<RGB>, bins: Seq<u32>, colors: Seq<RGB>, rows: int) -> Seq<
    RGB,
> {
    Seq::new(
        canvas.len(),
        |p: int|
            match bar_led(bins, colors, rows, p) {
                Some(color) => color,
                None => canvas[p],
            },
    )
}

/// The ghosts once the bars of the first `rows` bins have left theirs.
pub open spec fn ghosts_with_new_bars(
    ghosts: Seq<Option<RGB>>,
    bins: Seq<u32>,
    colors: Seq<RGB>,
    rows: int,
) -> Seq<Option<RGB>> {
    Seq::new(
        ghosts.len(),
        |p: int|
            match bar_led(bins, colors, rows, p) {
                Some(color) => Some(color),
                None => ghosts[p],
            },
    )
}

/// Number of bars that a frame shows: one per bin that has a colour and a row.
pub open spec fn bars_shown(bins: Seq<u32>, colors: Seq<RGB>) -> int {
    bar_rows(if bins.len() <= colors.len() {
        bins.len() as int
    } else {
        colors.len() as int
    })
}

/// The frame of the equalizer: the bars over the fading ghosts over the
/// background.
pub open spec fn equalizer_frame(
    ghosts: Seq<Option<RGB>>,
    bins: Seq<u32>,
    background: RGB,
    colors: Seq<RGB>,
) -> Seq<u8> {
    flattened(
        with_new_bars(with_fade_bars(ghosts, background), bins, colors, bars_shown(bins, colors)),
    )
}

/// The ghosts that a frame of the equalizer leaves behind.
pub open spec fn ghosts_after_frame(
    ghosts: Seq<Option<RGB>>,
    bins: Seq<u32>,
    background: RGB,
    colors: Seq<RGB>,
) -> Seq<Option<RGB>> {
    ghosts_with_new_bars(
        ghosts_after_fade(ghosts, background),
        bins,
        colors,
        bars_shown(bins, colors),
    )
}

/// Computes the number of LEDs that the bar of a bin lights.
pub fn bar_leds(bin: u32) -> (leds: usize)
    ensures
        leds == bar_length(bin),
        leds <= LEDS_MAX_X,
{
    assert(LEDS_MAX_X * bin <= 8 * 0xffff_ffff) by (nonlinear_arith)
        requires
            LEDS_MAX_X == 8,
            0 <= bin <= 0xffff_ffff,
    ;
    let scaled: u64 = LEDS_MAX_X as u64 * bin as u64 + (FULL_SCALE / 2) as u64;
    let leds: u64 = scaled / FULL_SCALE as u64;
    if leds > LEDS_MAX_X as u64 {
        LEDS_MAX_X
    } else {
        leds as usize
    }
}

/// Computes the intensity of the bar of a bin.
pub fn bar_fill_intensity(bin: u32) -> (intensity: u8)
    ensures
        intensity == bar_intensity(bin),
        NEWBAR_MIN_INTENSITY <= intensity <= NEWBAR_MAX_INTENSITY,
{
    assert(NEWBAR_MAX_INTENSITY * bin <= 60 * 0xffff_ffff) by (nonlinear_arith)
        requires
            NEWBAR_MAX_INTENSITY == 60,
            0 <= bin <= 0xffff_ffff,
    ;
    let scaled: u64 = NEWBAR_MAX_INTENSITY as u64 * bin as u64 + (FULL_SCALE - 1) as u64;
    let raw: u64 = scaled / FULL_SCALE as u64;
    if raw < NEWBAR_MIN_INTENSITY as u64 {
        NEWBAR_MIN_INTENSITY
    } else if raw > NEWBAR_MAX_INTENSITY as u64 {
        NEWBAR_MAX_INTENSITY
    } else {
        raw as u8
    }
}

/// Moves the background cycle one step on.
pub fn get_new_cycle_state(cycle_state: u32) -> (r: u32)
    requires
        cycle_state < BACKGROUND_CYCLE_PERIOD,
    ensures
        r == next_cycle_state(cycle_state),
        r < BACKGROUND_CYCLE_PERIOD,
{
    let moved: u32 = cycle_state + BACKGROUND_CYCLE_STEP;
    if moved >= BACKGROUND_CYCLE_PERIOD {
        moved - BACKGROUND_CYCLE_PERIOD
    } else {
        moved
    }
}

/// Keeps what the equalizer display carries from frame to frame.
pub struct Painter {
    iteration: u16,
    background_cycle_state: u32,
    bar_cycle_state: u32,
    current_bg_color: RGB,
    bar_ghosts: Vec<Option<RGB>>,
}

/// An empty equalizer canvas.
pub struct BlankCanvas {
    pub color_vec: Vec<RGB>,
    pub iterations_between_bg_refreshes: u16,
    pub background_min_value: u8,
    pub background_max_value: u8,
}

/// An equalizer canvas with the background on it.
pub struct BackgroundDrawn {
    pub color_vec: Vec<RGB>,
    pub fade_divisor: i16,
}

/// An equalizer canvas with the background and the fading ghosts on it.
pub struct FadedBarsDrawn {
    pub color_vec: Vec<RGB>,
    pub newbar_min_intensity: u8,
    pub newbar_max_intensity: u8,
}

/// A finished equalizer canvas.
pub struct NewBarsDrawn {
    pub color_vec: Vec<RGB>,
}

impl Painter {
    /// Number of frames since the background cycle last moved.
    pub closed spec fn spec_iteration(&self) -> u16 {
        self.iteration
    }

    /// State of the background cycle, in hundredths.
    pub closed spec fn spec_background_cycle_state(&self) -> u32 {
        self.background_cycle_state
    }

    /// State of the colour cycle of the bars, in thousandths of a radian.
    pub closed spec fn spec_bar_cycle_state(&self) -> u32 {
        self.bar_cycle_state
    }

    /// The background colour of the frame painted last.
    pub closed spec fn spec_current_bg_color(&self) -> RGB {
        self.current_bg_color
    }

    /// The ghosts of earlier bars, one per LED; none where no bar is fading.
    pub closed spec fn ghosts(&self) -> Seq<Option<RGB>> {
        self.bar_ghosts@
    }

    /// Both cycles are within their periods and every LED has its ghost.
    pub open spec fn wf(&self) -> bool {
        &&& self.spec_iteration() < ITERATIONS_BETWEEN_BG_REFRESHES
        &&& self.spec_background_cycle_state() < BACKGROUND_CYCLE_PERIOD
        &&& self.spec_bar_cycle_state() <= BAR_CYCLE_PERIOD
        &&& self.ghosts().len() == LED_COUNT
    }

    /// A painter that has painted nothing yet.
    pub fn new() -> (r: Self)
        ensures
            r.wf(),
            r.spec_iteration() == 0,
            r.spec_background_cycle_state() == 0,
            r.spec_bar_cycle_state() == 0,
            r.spec_current_bg_color() == (RGB { r: 0, g: 0, b: 0 }),
            r.ghosts() == Seq::new(LED_COUNT as nat, |p: int| None::<RGB>),
    {
        let mut bar_ghosts: Vec<Option<RGB>> = Vec::new();
        let mut p: usize = 0;
        while p < LED_COUNT
            invariant
                0 <= p <= LED_COUNT,
                bar_ghosts@.len() == p,
                forall|q: int| 0 <= q < p ==> #[trigger] bar_ghosts@[q] == None::<RGB>,
            decreases LED_COUNT - p,
        {
            bar_ghosts.push(None);
            p += 1;
        }
        assert(bar_ghosts@ =~= Seq::new(LED_COUNT as nat, |p: int| None::<RGB>));
        Painter {
            iteration: 0,
            background_cycle_state: 0,
            bar_cycle_state: 0,
            current_bg_color: RGB { r: 0, g: 0, b: 0 },
            bar_ghosts,
        }
    }

    /// Counts one more frame and moves the background cycle one step on in
    /// every fifth. The result is the state of the cycle that the background
    /// colour of the frame goes by.
    pub fn advance_background(&mut self) -> (cycle_state: u32)
        requires
            old(self).wf(),
        ensures
            final(self).wf(),
            cycle_state == final(self).spec_background_cycle_state(),
            final(self).spec_iteration() == iteration_after(old(self).spec_iteration()),
            final(self).spec_background_cycle_state() == background_state_after(
                old(self).spec_iteration(),
                old(self).spec_background_cycle_state(),
            ),
            final(self).spec_bar_cycle_state() == old(self).spec_bar_cycle_state(),
            final(self).spec_current_bg_color() == old(self).spec_current_bg_color(),
            final(self).ghosts() == old(self).ghosts(),
    {
        self.iteration += 1;
        if self.iteration % ITERATIONS_BETWEEN_BG_REFRESHES == 0 {
            let cycle_state = get_new_cycle_state(self.background_cycle_state);
            self.background_cycle_state = cycle_state;
            self.iteration = 0;
        }
        self.background_cycle_state
    }

    /// Plans the bars of a frame: for every bin that has a row, the length and
    /// the intensity of its bar and the state of the colour cycle, which moves
    /// on by one with every bar.
    pub fn plan_bars(&mut self, eq_bins: &Vec<u32>) -> (plans: Vec<BarPlan>)
        requires
            old(self).wf(),
        ensures
            final(self).wf(),
            plans@.len() == bar_rows(eq_bins@.len() as int),
            forall|row: int|
                0 <= row < plans@.len() ==> #[trigger] plans@[row] == (BarPlan {
                    leds: bar_length(eq_bins@[row]) as usize,
                    intensity: bar_intensity(eq_bins@[row]) as u8,
                    phase: bar_state_after(old(self).spec_bar_cycle_state(), row + 1),
                }),
            final(self).spec_bar_cycle_state() == bar_state_after(
                old(self).spec_bar_cycle_state(),
                plans@.len() as int,
            ),
            final(self).spec_iteration() == old(self).spec_iteration(),
            final(self).spec_background_cycle_state() == old(self).spec_background_cycle_state(),
            final(self).spec_current_bg_color() == old(self).spec_current_bg_color(),
            final(self).ghosts() == old(self).ghosts(),
    {
        let rows: usize = if eq_bins.len() > LEDS_MAX_Y {
            LEDS_MAX_Y
        } else {
            eq_bins.len()
        };
        let ghost start = self.bar_cycle_state;
        let mut plans: Vec<BarPlan> = Vec::new();
        let mut row: usize = 0;
        while row < rows
            invariant
                0 <= row <= rows,
                rows == bar_rows(eq_bins@.len() as int),
                self.bar_cycle_state == bar_state_after(start, row as int),
                self.bar_cycle_state <= BAR_CYCLE_PERIOD,
                self.iteration == old(self).iteration,
                self.background_cycle_state == old(self).background_cycle_state,
                self.current_bg_color == old(self).current_bg_color,
                self.bar_ghosts == old(self).bar_ghosts,
                plans@.len() == row,
                forall|done: int|
                    0 <= done < row ==> #[trigger] plans@[done] == (BarPlan {
                        leds: bar_length(eq_bins@[done]) as usize,
                        intensity: bar_intensity(eq_bins@[done]) as u8,
                        phase: bar_state_after(start, done + 1),
                    }),
            decreases rows - row,
        {
            let moved: u32 = self.bar_cycle_state + 1;
            self.bar_cycle_state = if moved > BAR_CYCLE_PERIOD {
                moved - BAR_CYCLE_PERIOD
            } else {
                moved
            };
            plans.push(
                BarPlan {
                    leds: bar_leds(eq_bins[row]),
                    intensity: bar_fill_intensity(eq_bins[row]),
                    phase: self.bar_cycle_state,
                },
            );
            row += 1;
        }
        plans
    }

    /// Paints a frame of the equalizer: the background in the colour given, the
    /// ghosts of earlier bars a step more faded, and on top a bar for every bin
    /// in the colour given for it. The bars leave their ghosts for the frames
    /// to come.
    pub fn paint(&mut self, eq_bins: &Vec<u32>, background: RGB, bar_colors: &Vec<RGB>) -> (r: Vec<u8>)
        requires
            old(self).wf(),
        ensures
            final(self).wf(),
            r@ == equalizer_frame(old(self).ghosts(), eq_bins@, background, bar_colors@),
            final(self).ghosts() == ghosts_after_frame(
                old(self).ghosts(),
                eq_bins@,
                background,
                bar_colors@,
            ),
            final(self).spec_current_bg_color() == background,
            final(self).spec_iteration() == old(self).spec_iteration(),
            final(self).spec_background_cycle_state() == old(self).spec_background_cycle_state(),
            final(self).spec_bar_cycle_state() == old(self).spec_bar_cycle_state(),
    {
        let blank_canvas = BlankCanvas::new();
        let background_drawn = blank_canvas.draw_background(self, background);
        let faded_bars_drawn = background_drawn.draw_fade_bars(self);
        let new_bars_drawn = faded_bars_drawn.draw_new_bars(self, eq_bins, bar_colors);
        new_bars_drawn.output()
    }
}

impl BlankCanvas {
    /// An empty canvas for the device's matrix.
    pub fn new() -> (r: BlankCanvas)
        ensures
            r.color_vec@ == blank_canvas(LED_COUNT as int, RGB { r: 1, g: 1, b: 1 }),
            r.iterations_between_bg_refreshes == ITERATIONS_BETWEEN_BG_REFRESHES,
            r.background_min_value == 1,
            r.background_max_value == 5,
    {
        let mut empty_canvas: Vec<RGB> = Vec::new();
        let mut p: usize = 0;
        while p < LED_COUNT
            invariant
                0 <= p <= LED_COUNT,
                empty_canvas@.len() == p,
                forall|q: int| 0 <= q < p ==> #[trigger] empty_canvas@[q] == (RGB { r: 1, g: 1, b: 1 }),
            decreases LED_COUNT - p,
        {
            empty_canvas.push(RGB { r: 1, g: 1, b: 1 });
            p += 1;
        }
        assert(empty_canvas@ =~= blank_canvas(LED_COUNT as int, RGB { r: 1, g: 1, b: 1 }));
        BlankCanvas {
            color_vec: empty_canvas,
            iterations_between_bg_refreshes: ITERATIONS_BETWEEN_BG_REFRESHES,
            background_min_value: 1,
            background_max_value: 5,
        }
    }

    /// Fills the canvas with the background colour of the frame.
    pub fn draw_background(self, painter: &mut Painter, background: RGB) -> (r: BackgroundDrawn)
        requires
            old(painter).wf(),
            self.color_vec@.len() == LED_COUNT,
        ensures
            final(painter).wf(),
            r.color_vec@ == blank_canvas(LED_COUNT as int, background),
            r.fade_divisor == FADE_DIVISOR,
            final(painter).spec_current_bg_color() == background,
            final(painter).ghosts() == old(painter).ghosts(),
            final(painter).spec_iteration() == old(painter).spec_iteration(),
            final(painter).spec_background_cycle_state() == old(painter).spec_background_cycle_state(),
            final(painter).spec_bar_cycle_state() == old(painter).spec_bar_cycle_state(),
    {
        let mut color_vec = self.color_vec;
        painter.current_bg_color = background;
        let mut p: usize = 0;
        while p < LED_COUNT
            invariant
                0 <= p <= LED_COUNT,
                color_vec@.len() == LED_COUNT,
                forall|q: int| 0 <= q < p ==> #[trigger] color_vec@[q] == background,
            decreases LED_COUNT - p,
        {
            color_vec.set(p, RGB { r: background.r, g: background.g, b: background.b });
            p += 1;
        }
        assert(color_vec@ =~= blank_canvas(LED_COUNT as int, background));
        BackgroundDrawn::new(color_vec)
    }
}

/// Moves a channel of a ghost a fifth of the way towards the background.
pub fn fade_channel(ghost: u8, background: u8) -> (r: u8)
    ensures
        r == faded_channel(ghost, background),
        r == channel_shifted(
            ghost,
            rounded_quotient(channel_diff(background, ghost) as int, FADE_DIVISOR as int) as i16,
        ),
{
    let diff: i16 = background as i16 - ghost as i16;
    let step: i128 = round_quotient(diff as i128, FADE_DIVISOR as i128);
    let moved: i128 = ghost as i128 + step;
    moved as u8
}

/// Decides whether a ghost has faded out.
pub fn is_faded_out(ghost: RGB, background: RGB) -> (r: bool)
    ensures
        r == faded_out(ghost, background),
{
    let mut desired_color = RGB { r: background.r, g: background.g, b: background.b };
    let diff_colors = desired_color.subtract(ghost);
    -FADE_THRESHOLD <= diff_colors[0] && diff_colors[0] <= FADE_THRESHOLD && -FADE_THRESHOLD
        <= diff_colors[1] && diff_colors[1] <= FADE_THRESHOLD && -FADE_THRESHOLD <= diff_colors[2]
        && diff_colors[2] <= FADE_THRESHOLD
}

impl BackgroundDrawn {
    pub fn new(color_vec: Vec<RGB>) -> (r: Self)
        ensures
            r.color_vec == color_vec,
            r.fade_divisor == FADE_DIVISOR,
    {
        BackgroundDrawn { color_vec, fade_divisor: FADE_DIVISOR }
    }

    /// Lets every ghost fade a step further towards the background and draws
    /// it. A ghost that has come close to the background is gone.
    pub fn draw_fade_bars(self, painter: &mut Painter) -> (r: FadedBarsDrawn)
        requires
            old(painter).wf(),
            self.color_vec@ == blank_canvas(
                LED_COUNT as int,
                old(painter).spec_current_bg_color(),
            ),
        ensures
            final(painter).wf(),
            r.color_vec@ == with_fade_bars(
                old(painter).ghosts(),
                old(painter).spec_current_bg_color(),
            ),
            final(painter).ghosts() == ghosts_after_fade(
                old(painter).ghosts(),
                old(painter).spec_current_bg_color(),
            ),
            r.newbar_min_intensity == NEWBAR_MIN_INTENSITY,
            r.newbar_max_intensity == NEWBAR_MAX_INTENSITY,
            final(painter).spec_current_bg_color() == old(painter).spec_current_bg_color(),
            final(painter).spec_iteration() == old(painter).spec_iteration(),
            final(painter).spec_background_cycle_state() == old(painter).spec_background_cycle_state(),
            final(painter).spec_bar_cycle_state() == old(painter).spec_bar_cycle_state(),
    {
        let mut color_vec = self.color_vec;
        let background = painter.current_bg_color;
        let ghost before = painter.bar_ghosts@;
        let mut p: usize = 0;
        while p < LED_COUNT
            invariant
                0 <= p <= LED_COUNT,
                color_vec@.len() == LED_COUNT,
                before.len() == LED_COUNT,
                painter.bar_ghosts@.len() == LED_COUNT,
                painter.current_bg_color == background,
                painter.iteration == old(painter).iteration,
                painter.background_cycle_state == old(painter).background_cycle_state,
                painter.bar_cycle_state == old(painter).bar_cycle_state,
                forall|q: int|
                    0 <= q < p ==> #[trigger] painter.bar_ghosts@[q] == ghost_after_fade(
                        before[q],
                        background,
                    ),
                forall|q: int| p <= q < LED_COUNT ==> #[trigger] painter.bar_ghosts@[q] == before[q],
                forall|q: int|
                    0 <= q < p ==> #[trigger] color_vec@[q] == with_fade_bars(before, background)[q],
                forall|q: int| p <= q < LED_COUNT ==> #[trigger] color_vec@[q] == background,
            decreases LED_COUNT - p,
        {
            match painter.bar_ghosts[p] {
                Some(current_ghost_bar_color) => {
                    if is_faded_out(current_ghost_bar_color, background) {
                        painter.bar_ghosts.set(p, None);
                    } else {
                        let stepped_color = RGB {
                            r: fade_channel(current_ghost_bar_color.r, background.r),
                            g: fade_channel(current_ghost_bar_color.g, background.g),
                            b: fade_channel(current_ghost_bar_color.b, background.b),
                        };
                        color_vec.set(p, stepped_color);
                        painter.bar_ghosts.set(p, Some(stepped_color));
                    }
                },
                None => {},
            }
            p += 1;
        }
        assert(color_vec@ =~= with_fade_bars(before, background));
        assert(painter.bar_ghosts@ =~= ghosts_after_fade(before, background));
        FadedBarsDrawn::new(color_vec)
    }
}

/// Where a line of one colour comes to lie on the matrix.
pub proof fn lemma_line_covers(
    width: int,
    color: RGB,
    x_offset: int,
    y_offset: int,
    max_x: int,
    max_y: int,
    p: int,
)
    requires
        0 <= width,
        0 <= max_x,
        0 <= max_y,
    ensures
        led_colour(line_graphic(width, color), x_offset, y_offset, max_x, max_y, p) == (if 0 <= p
            < max_x * max_y && led_row(p, max_x) == y_offset && x_offset <= led_column(p, max_x)
            < x_offset + width {
            Some(color)
        } else {
            None
        }),
{
    let graphic = line_graphic(width, color);
    assert(graphic.len() == 1);
    assert(graphic[0].len() == width);
}

impl FadedBarsDrawn {
    pub fn new(color_vec: Vec<RGB>) -> (r: Self)
        ensures
            r.color_vec == color_vec,
            r.newbar_min_intensity == NEWBAR_MIN_INTENSITY,
            r.newbar_max_intensity == NEWBAR_MAX_INTENSITY,
    {
        FadedBarsDrawn {
            newbar_min_intensity: NEWBAR_MIN_INTENSITY,
            newbar_max_intensity: NEWBAR_MAX_INTENSITY,
            color_vec,
        }
    }

    /// Draws a bar for every bin that has a colour and a row, from the right
    /// edge of the row as far as the bin goes, and leaves the bar as a ghost.
    pub fn draw_new_bars(self, painter: &mut Painter, eq_bins: &Vec<u32>, bar_colors: &Vec<RGB>) -> (r:
        NewBarsDrawn)
        requires
            old(painter).wf(),
            self.color_vec@.len() == LED_COUNT,
        ensures
            final(painter).wf(),
            r.color_vec@ == with_new_bars(
                self.color_vec@,
                eq_bins@,
                bar_colors@,
                bars_shown(eq_bins@, bar_colors@),
            ),
            final(painter).ghosts() == ghosts_with_new_bars(
                old(painter).ghosts(),
                eq_bins@,
                bar_colors@,
                bars_shown(eq_bins@, bar_colors@),
            ),
            final(painter).spec_current_bg_color() == old(painter).spec_current_bg_color(),
            final(painter).spec_iteration() == old(painter).spec_iteration(),
            final(painter).spec_background_cycle_state() == old(painter).spec_background_cycle_state(),
            final(painter).spec_bar_cycle_state() == old(painter).spec_bar_cycle_state(),
    {
        let mut color_vec = self.color_vec;
        let ghost canvas = color_vec@;
        let ghost before = painter.bar_ghosts@;
        let available: usize = if eq_bins.len() <= bar_colors.len() {
            eq_bins.len()
        } else {
            bar_colors.len()
        };
        let rows: usize = if available > LEDS_MAX_Y {
            LEDS_MAX_Y
        } else {
            available
        };
        assert(color_vec@ =~= with_new_bars(canvas, eq_bins@, bar_colors@, 0));
        assert(painter.bar_ghosts@ =~= ghosts_with_new_bars(before, eq_bins@, bar_colors@, 0));
        let mut row: usize = 0;
        while row < rows
            invariant
                0 <= row <= rows,
                rows == bars_shown(eq_bins@, bar_colors@),
                rows <= LEDS_MAX_Y,
                canvas.len() == LED_COUNT,
                before.len() == LED_COUNT,
                color_vec@ == with_new_bars(canvas, eq_bins@, bar_colors@, row as int),
                painter.bar_ghosts@ == ghosts_with_new_bars(
                    before,
                    eq_bins@,
                    bar_colors@,
                    row as int,
                ),
                painter.current_bg_color == old(painter).current_bg_color,
                painter.iteration == old(painter).iteration,
                painter.background_cycle_state == old(painter).background_cycle_state,
                painter.bar_cycle_state == old(painter).bar_cycle_state,
            decreases rows - row,
        {
            let amount_leds_mag: usize = bar_leds(eq_bins[row]);
            let newbar_color = bar_colors[row];
            let line_graphic = line(
                LEDS_MAX_X,
                RGB { r: newbar_color.r, g: newbar_color.g, b: newbar_color.b },
            );
            let line_shift: usize = LEDS_MAX_X - amount_leds_mag;
            paint_element_rgb(&mut color_vec, &line_graphic, line_shift as i32, row as i32);
            proof {
                let next = with_new_bars(canvas, eq_bins@, bar_colors@, row as int + 1);
                assert forall|q: int| 0 <= q < LED_COUNT implies color_vec@[q] == next[q] by {
                    lemma_line_covers(
                        LEDS_MAX_X as int,
                        newbar_color,
                        line_shift as int,
                        row as int,
                        LEDS_MAX_X as int,
                        LEDS_MAX_Y as int,
                        q,
                    );
                    lemma_led_of_position(q, LEDS_MAX_X as int, LEDS_MAX_Y as int);
                }
                assert(color_vec@ =~= next);
            }
            let ghost ghosts_before_row = painter.bar_ghosts@;
            let mut i: usize = 0;
            while i < amount_leds_mag
                invariant
                    0 <= i <= amount_leds_mag,
                    amount_leds_mag <= LEDS_MAX_X,
                    line_shift == LEDS_MAX_X - amount_leds_mag,
                    0 <= row < LEDS_MAX_Y,
                    painter.bar_ghosts@.len() == LED_COUNT,
                    ghosts_before_row.len() == LED_COUNT,
                    forall|q: int|
                        0 <= q < LED_COUNT ==> #[trigger] painter.bar_ghosts@[q] == (if led_row(
                            q,
                            LEDS_MAX_X as int,
                        ) == row && line_shift <= led_column(q, LEDS_MAX_X as int) < line_shift
                            + i {
                            Some(newbar_color)
                        } else {
                            ghosts_before_row[q]
                        }),
                    painter.current_bg_color == old(painter).current_bg_color,
                    painter.iteration == old(painter).iteration,
                    painter.background_cycle_state == old(painter).background_cycle_state,
                    painter.bar_cycle_state == old(painter).bar_cycle_state,
                decreases amount_leds_mag - i,
            {
                let index_to_paint: usize = if row % 2 == 1 {
                    let row_start_index: usize = row * LEDS_MAX_X + LEDS_MAX_X - 1 - line_shift;
                    row_start_index - i
                } else {
                    let row_start_index: usize = row * LEDS_MAX_X + line_shift;
                    row_start_index + i
                };
                proof {
                    lemma_position_of_led(
                        line_shift + i,
                        row as int,
                        LEDS_MAX_X as int,
                        LEDS_MAX_Y as int,
                    );
                    assert(index_to_paint == led_index(
                        line_shift + i,
                        row as int,
                        LEDS_MAX_X as int,
                    ));
                }
                let ghost earlier = painter.bar_ghosts@;
                painter.bar_ghosts.set(
                    index_to_paint,
                    Some(RGB { r: newbar_color.r, g: newbar_color.g, b: newbar_color.b }),
                );
                assert forall|q: int| 0 <= q < LED_COUNT implies #[trigger] painter.bar_ghosts@[q]
                    == (if led_row(q, LEDS_MAX_X as int) == row && line_shift <= led_column(
                    q,
                    LEDS_MAX_X as int,
                ) < line_shift + i + 1 {
                    Some(newbar_color)
                } else {
                    ghosts_before_row[q]
                }) by {
                    lemma_led_of_position(q, LEDS_MAX_X as int, LEDS_MAX_Y as int);
                    assert(painter.bar_ghosts@[q] == (if q == index_to_paint {
                        Some(newbar_color)
                    } else {
                        earlier[q]
                    }));
                }
                i += 1;
            }
            proof {
                let next = ghosts_with_new_bars(before, eq_bins@, bar_colors@, row as int + 1);
                assert forall|q: int| 0 <= q < LED_COUNT implies painter.bar_ghosts@[q]
                    == next[q] by {
                    lemma_led_of_position(q, LEDS_MAX_X as int, LEDS_MAX_Y as int);
                }
                assert(painter.bar_ghosts@ =~= next);
            }
            row += 1;
        }
        NewBarsDrawn { color_vec }
    }
}

impl NewBarsDrawn {
    /// The bytes to send to the matrix.
    pub fn output(self) -> (r: Vec<u8>)
        ensures
            r@ == flattened(self.color_vec@),
    {
        flatten(&self.color_vec)
    }
}

} // verus!
