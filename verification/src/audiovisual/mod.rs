//! From audio samples to a frame of colours.
//!
//! The audio processor feeds either the equalizer analysis or the tuner
//! analysis, depending on the mode. The path that is not active is left alone,
//! so that it carries on where it stopped when the mode switches back.

use vstd::prelude::*;
use crate::config::CHUNK_SIZE;
use crate::config::LEDS_MAX_X;
use crate::config::LEDS_MAX_Y;
use crate::mode::EqTunerModeEnum;
use crate::audiovisual::audio_fft_binner::AudioFrequalizer;
use crate::audiovisual::audio_fft_binner::FFTOverSamples;
use crate::audiovisual::bin_edges::geometric_band_fits;
use crate::audiovisual::bin_edges::is_geometric_placement;
use crate::audiovisual::bin_edges::valid_placement;
use crate::audiovisual::bin_edges::floor_frequency;
use crate::audiovisual::bin_edges::ceiling_frequency;
use crate::audiovisual::audio_tuner::GiTuner;
use crate::audiovisual::audio_tuner::NoteDescriptor;
use crate::audiovisual::audio_tuner::NoteReading;
use crate::audiovisual::audio_tuner::PitchDetermined;
use crate::audiovisual::audio_tuner::mean_after_detection;
use crate::audiovisual::audio_tuner::after_detection;
use crate::audiovisual::audio_tuner::note_shown;
use crate::audiovisual::visual_bins_to_animation::BarPlan;
use crate::audiovisual::visual_bins_to_animation::background_state_after;
use crate::audiovisual::visual_bins_to_animation::bar_intensity;
use crate::audiovisual::visual_bins_to_animation::iteration_after;
use crate::audiovisual::visual_bins_to_animation::bar_length;
use crate::audiovisual::visual_bins_to_animation::bar_rows;
use crate::audiovisual::visual_bins_to_animation::bar_state_after;
use crate::audiovisual::visual_bins_to_animation::equalizer_frame;
use crate::audiovisual::visual_bins_to_animation::ghosts_after_frame;
use crate::audiovisual::visual_tuner_painter::tuner_frame;
use crate::graphics::RGB;
use crate::audiovisual::sample_accumulator::chunk_count;
use crate::audiovisual::sample_accumulator::chunk_of;
use crate::audiovisual::sample_accumulator::leftover;

pub mod sample_accumulator;
pub mod bin_edges;
pub mod audio_fft_binner;
pub mod audio_tuner;
pub mod graphics;
pub mod visual_bins_to_animation;
pub mod visual_tuner_painter;

verus! {

/// Feeds the analysis of the active mode and holds what both analyses last
/// produced.
pub struct AudioProcessor<T> {
    sample_rate: u32,
    frequalizer: AudioFrequalizer<T>,
    tuner: GiTuner<T>,
}

/// The chunks that a call of `process` has released, on their way to the
/// transform or to the pitch detector.
pub enum PendingChunks<T> {
    Spectral(Vec<audio_fft_binner::RawBuffer<T>>),
    Pitch(Vec<audio_tuner::RawBuffer<T>>),
}

/// What the audio processor hands to the visual processor.
pub enum AudioProcessorOutputEnum<'a> {
    EqBins(&'a Vec<u32>),
    NoteInfo(&'a Option<NoteDescriptor>),
}

impl<T> PendingChunks<T> {
    /// The samples of the chunks, chunk by chunk.
    pub open spec fn samples(&self) -> Seq<Seq<T>> {
        match self {
            PendingChunks::Spectral(chunks) => Seq::new(chunks@.len(), |k: int| chunks@[k]@),
            PendingChunks::Pitch(chunks) => Seq::new(chunks@.len(), |k: int| chunks@[k]@),
        }
    }
}

/// The chunks that a stream of samples falls into.
pub open spec fn chunks_of<T>(stream: Seq<T>, chunk_size: int) -> Seq<Seq<T>> {
    Seq::new(
        chunk_count(stream.len() as int, chunk_size) as nat,
        |k: int| chunk_of(stream, chunk_size, k),
    )
}

impl<T> AudioProcessor<T> {
    pub closed spec fn spec_sample_rate(&self) -> u32 {
        self.sample_rate
    }

    /// The equalizer analysis.
    pub closed spec fn frequalizer(&self) -> AudioFrequalizer<T> {
        self.frequalizer
    }

    /// The tuner analysis.
    pub closed spec fn tuner(&self) -> GiTuner<T> {
        self.tuner
    }

    pub open spec fn wf(&self) -> bool {
        &&& self.frequalizer().wf()
        &&& self.tuner().wf()
        &&& self.frequalizer().res_edges().spec_sample_rate() == self.spec_sample_rate()
    }

    /// A processor for a feed sampled at `sample_rate` hertz whose equalizer
    /// shows one bin per row of the matrix, between the geometric edges of the
    /// band of the feed. There is no processor where the band is too narrow
    /// for its bins.
    pub fn new(sample_rate: &u32) -> (r: Option<Self>)
        ensures
            r is Some <==> geometric_band_fits(
                floor_frequency(*sample_rate, CHUNK_SIZE),
                ceiling_frequency(*sample_rate),
                LEDS_MAX_Y as int,
            ),
            r is Some ==> {
                &&& r->0.wf()
                &&& r->0.spec_sample_rate() == *sample_rate
                &&& r->0.frequalizer().pending() == Seq::<T>::empty()
                &&& r->0.frequalizer().bins() == Seq::<u32>::empty()
                &&& !r->0.frequalizer().is_adaptive()
                &&& is_geometric_placement(
                    r->0.frequalizer().res_edges().edges(),
                    floor_frequency(*sample_rate, CHUNK_SIZE),
                    ceiling_frequency(*sample_rate),
                    LEDS_MAX_Y as int,
                )
                &&& r->0.frequalizer().res_edges().spec_num_bins() == LEDS_MAX_Y
                &&& r->0.tuner().pending() == Seq::<T>::empty()
                &&& r->0.tuner().history() == Seq::<u32>::empty()
                &&& r->0.tuner().shown() == None::<NoteDescriptor>
            },
    {
        match AudioFrequalizer::new(LEDS_MAX_Y, *sample_rate) {
            Some(frequalizer) => Some(
                AudioProcessor { sample_rate: *sample_rate, frequalizer, tuner: GiTuner::new() },
            ),
            None => None,
        }
    }

    /// A processor for a feed sampled at `sample_rate` hertz whose equalizer
    /// shows one bin per row of the matrix, between the edges `placed`. There is
    /// no processor for edges that are no valid placement.
    pub fn with_edges(sample_rate: &u32, placed: Vec<u32>) -> (r: Option<Self>)
        ensures
            r is Some <==> valid_placement(
                placed@,
                LEDS_MAX_Y as int,
                floor_frequency(*sample_rate, CHUNK_SIZE),
                ceiling_frequency(*sample_rate),
            ),
            r is Some ==> {
                &&& r->0.wf()
                &&& r->0.spec_sample_rate() == *sample_rate
                &&& r->0.frequalizer().pending() == Seq::<T>::empty()
                &&& r->0.frequalizer().bins() == Seq::<u32>::empty()
                &&& !r->0.frequalizer().is_adaptive()
                &&& r->0.frequalizer().res_edges().edges() == placed@
                &&& r->0.frequalizer().res_edges().spec_num_bins() == LEDS_MAX_Y
                &&& r->0.tuner().pending() == Seq::<T>::empty()
                &&& r->0.tuner().history() == Seq::<u32>::empty()
                &&& r->0.tuner().shown() == None::<NoteDescriptor>
            },
    {
        match AudioFrequalizer::with_edges(LEDS_MAX_Y, *sample_rate, placed) {
            Some(frequalizer) => Some(
                AudioProcessor { sample_rate: *sample_rate, frequalizer, tuner: GiTuner::new() },
            ),
            None => None,
        }
    }

    /// Switches the adaptation of the band of the equalizer on or off.
    pub fn set_adaptive(&mut self, adaptive: bool)
        requires
            old(self).wf(),
        ensures
            final(self).wf(),
            final(self).spec_sample_rate() == old(self).spec_sample_rate(),
            final(self).frequalizer().is_adaptive() == adaptive,
            final(self).frequalizer().res_edges() == old(self).frequalizer().res_edges(),
            final(self).frequalizer().pending() == old(self).frequalizer().pending(),
            final(self).frequalizer().bins() == old(self).frequalizer().bins(),
            final(self).tuner() == old(self).tuner(),
    {
        self.frequalizer.set_adaptive(adaptive);
    }

    /// The sample rate of the feed, in hertz.
    pub fn sample_rate(&self) -> (r: u32)
        ensures
            r == self.spec_sample_rate(),
    {
        self.sample_rate
    }

    /// The equalizer analysis.
    pub fn equalizer(&self) -> (r: &AudioFrequalizer<T>)
        ensures
            *r == self.frequalizer(),
    {
        &self.frequalizer
    }

    /// The tuner analysis.
    pub fn pitch_tuner(&self) -> (r: &GiTuner<T>)
        ensures
            *r == self.tuner(),
    {
        &self.tuner
    }

    /// Feeds `audio_values` to the analysis of the active mode and releases the
    /// chunks that have filled up there. The other analysis is not touched.
    pub fn process(&mut self, audio_values: Vec<T>, mode: &EqTunerModeEnum) -> (chunks:
        PendingChunks<T>)
        requires
            old(self).wf(),
        ensures
            final(self).wf(),
            final(self).spec_sample_rate() == old(self).spec_sample_rate(),
            *mode == EqTunerModeEnum::Equalizer ==> {
                &&& chunks is Spectral
                &&& chunks.samples() == chunks_of(
                    old(self).frequalizer().pending() + audio_values@,
                    CHUNK_SIZE as int,
                )
                &&& final(self).frequalizer().pending() == leftover(
                    old(self).frequalizer().pending() + audio_values@,
                    CHUNK_SIZE as int,
                )
                &&& final(self).frequalizer().bins() == old(self).frequalizer().bins()
                &&& final(self).frequalizer().res_edges() == old(self).frequalizer().res_edges()
                &&& final(self).frequalizer().is_adaptive() == old(self).frequalizer().is_adaptive()
                &&& final(self).tuner() == old(self).tuner()
            },
            *mode == EqTunerModeEnum::Tuner ==> {
                &&& chunks is Pitch
                &&& chunks.samples() == chunks_of(
                    old(self).tuner().pending() + audio_values@,
                    CHUNK_SIZE as int,
                )
                &&& final(self).tuner().pending() == leftover(
                    old(self).tuner().pending() + audio_values@,
                    CHUNK_SIZE as int,
                )
                &&& final(self).tuner().history() == old(self).tuner().history()
                &&& final(self).tuner().shown() == old(self).tuner().shown()
                &&& final(self).frequalizer() == old(self).frequalizer()
            },
    {
        match mode {
            EqTunerModeEnum::Equalizer => {
                let released = self.frequalizer.frequalize(audio_values);
                let chunks = PendingChunks::Spectral(released);
                assert(chunks.samples() =~= chunks_of(
                    old(self).frequalizer().pending() + audio_values@,
                    CHUNK_SIZE as int,
                ));
                chunks
            },
            EqTunerModeEnum::Tuner => {
                let released = self.tuner.tune(audio_values);
                let chunks = PendingChunks::Pitch(released);
                assert(chunks.samples() =~= chunks_of(
                    old(self).tuner().pending() + audio_values@,
                    CHUNK_SIZE as int,
                ));
                chunks
            },
        }
    }

    /// Takes the spectrum of a chunk that `process` released into the
    /// equalizer analysis.
    pub fn bin_spectrum(&mut self, spectrum: FFTOverSamples)
        requires
            old(self).wf(),
        ensures
            final(self).wf(),
            final(self).spec_sample_rate() == old(self).spec_sample_rate(),
            final(self).frequalizer().is_binned_from(old(self).frequalizer(), spectrum@),
            final(self).frequalizer().bins().len() == old(self).frequalizer().res_edges().spec_num_bins(),
            final(self).tuner() == old(self).tuner(),
    {
        self.frequalizer.bin_spectrum(spectrum);
    }

    /// Takes what the pitch detector found in a chunk that `process` released
    /// into the tuner analysis and determines this cycle's new mean pitch.
    pub fn pitch_detected(&mut self, raw_buffer: audio_tuner::RawBuffer<T>, detected: Option<u32>) -> (r:
        PitchDetermined)
        requires
            old(self).wf(),
        ensures
            final(self).wf(),
            final(self).spec_sample_rate() == old(self).spec_sample_rate(),
            r.spec_mean_freq() == mean_after_detection(old(self).tuner().history(), detected),
            final(self).tuner().history() == after_detection(
                old(self).tuner().history(),
                detected,
            ),
            final(self).tuner().pending() == old(self).tuner().pending(),
            final(self).tuner().shown() == old(self).tuner().shown(),
            final(self).frequalizer() == old(self).frequalizer(),
    {
        self.tuner.pitch_detected(raw_buffer, detected)
    }

    /// Ends a tuner cycle with what the conversion of the new mean pitch into a
    /// note has yielded.
    pub fn note_determined(&mut self, determined: PitchDetermined, reading: Option<NoteReading>)
        requires
            old(self).wf(),
        ensures
            final(self).wf(),
            final(self).spec_sample_rate() == old(self).spec_sample_rate(),
            final(self).tuner().shown() == note_shown(
                old(self).tuner().shown(),
                determined.spec_mean_freq(),
                reading,
            ),
            final(self).tuner().history() == old(self).tuner().history(),
            final(self).tuner().pending() == old(self).tuner().pending(),
            final(self).frequalizer() == old(self).frequalizer(),
    {
        self.tuner.note_determined(determined, reading);
    }

    /// What the analysis of the given mode produced last: the bins of the
    /// equalizer, or the note of the tuner, which may be none.
    pub fn output<'a>(&'a self, mode: &EqTunerModeEnum) -> (r: AudioProcessorOutputEnum<'a>)
        ensures
            *mode == EqTunerModeEnum::Equalizer ==> (r matches AudioProcessorOutputEnum::EqBins(
                bins,
            ) && bins@ == self.frequalizer().bins()),
            *mode == EqTunerModeEnum::Tuner ==> (r matches AudioProcessorOutputEnum::NoteInfo(
                note,
            ) && *note == self.tuner().shown()),
    {
        match mode {
            EqTunerModeEnum::Equalizer => AudioProcessorOutputEnum::EqBins(
                self.frequalizer.eq_bins(),
            ),
            EqTunerModeEnum::Tuner => AudioProcessorOutputEnum::NoteInfo(self.tuner.note_info()),
        }
    }
}

/// What the colours of an equalizer frame depend on: the state of the
/// background cycle, in hundredths, and a plan for every bar.
pub struct FramePlan {
    pub background_cycle_state: u32,
    pub bars: Vec<BarPlan>,
}

/// Turns what the audio processor produced into frames for the matrix.
pub struct VisualProcessor {
    eq_painter: visual_bins_to_animation::Painter,
    tuner_painter: visual_tuner_painter::Painter,
}

impl VisualProcessor {
    /// The painter of the equalizer display.
    pub closed spec fn eq_painter(&self) -> visual_bins_to_animation::Painter {
        self.eq_painter
    }

    /// The painter of the tuner display.
    pub closed spec fn tuner_painter(&self) -> visual_tuner_painter::Painter {
        self.tuner_painter
    }

    /// Both painters are well formed, and the tuner paints on the device's
    /// matrix.
    pub open spec fn wf(&self) -> bool {
        &&& self.eq_painter().wf()
        &&& self.tuner_painter().wf()
        &&& self.tuner_painter().max_x() == LEDS_MAX_X
        &&& self.tuner_painter().max_y() == LEDS_MAX_Y
    }

    /// A visual processor that has painted nothing yet.
    pub fn new() -> (r: Self)
        ensures
            r.wf(),
            r.eq_painter().ghosts() == Seq::new(
                visual_bins_to_animation::LED_COUNT as nat,
                |p: int| None::<RGB>,
            ),
            r.eq_painter().spec_iteration() == 0,
            r.eq_painter().spec_background_cycle_state() == 0,
            r.eq_painter().spec_bar_cycle_state() == 0,
    {
        VisualProcessor {
            eq_painter: visual_bins_to_animation::Painter::new(),
            tuner_painter: visual_tuner_painter::Painter::new(LEDS_MAX_X, LEDS_MAX_Y),
        }
    }

    /// Plans the colours of the next frame. A frame of the equalizer moves the
    /// cycles of the background and of the bars on and yields what its colours
    /// depend on; a frame of the tuner needs no colours and yields nothing.
    pub fn plan_frame(&mut self, input: &AudioProcessorOutputEnum) -> (plan: Option<FramePlan>)
        requires
            old(self).wf(),
        ensures
            final(self).wf(),
            final(self).tuner_painter() == old(self).tuner_painter(),
            final(self).eq_painter().ghosts() == old(self).eq_painter().ghosts(),
            final(self).eq_painter().spec_current_bg_color() == old(self).eq_painter().spec_current_bg_color(),
            match *input {
                AudioProcessorOutputEnum::EqBins(bins) => {
                    &&& plan is Some
                    &&& plan->0.background_cycle_state == final(self).eq_painter().spec_background_cycle_state()
                    &&& final(self).eq_painter().spec_iteration() == iteration_after(
                        old(self).eq_painter().spec_iteration(),
                    )
                    &&& final(self).eq_painter().spec_background_cycle_state()
                        == background_state_after(
                        old(self).eq_painter().spec_iteration(),
                        old(self).eq_painter().spec_background_cycle_state(),
                    )
                    &&& final(self).eq_painter().spec_bar_cycle_state() == bar_state_after(
                        old(self).eq_painter().spec_bar_cycle_state(),
                        bar_rows(bins@.len() as int),
                    )
                    &&& plan->0.bars@.len() == bar_rows(bins@.len() as int)
                    &&& forall|row: int|
                        0 <= row < plan->0.bars@.len() ==> #[trigger] plan->0.bars@[row] == (BarPlan {
                            leds: bar_length(bins@[row]) as usize,
                            intensity: bar_intensity(bins@[row]) as u8,
                            phase: bar_state_after(
                                old(self).eq_painter().spec_bar_cycle_state(),
                                row + 1,
                            ),
                        })
                },
                AudioProcessorOutputEnum::NoteInfo(_) => {
                    &&& plan is None
                    &&& final(self).eq_painter() == old(self).eq_painter()
                },
            },
    {
        match input {
            AudioProcessorOutputEnum::EqBins(bins) => {
                let background_cycle_state = self.eq_painter.advance_background();
                let bars = self.eq_painter.plan_bars(bins);
                Some(FramePlan { background_cycle_state, bars })
            },
            AudioProcessorOutputEnum::NoteInfo(_) => None,
        }
    }

    /// Paints the next frame: the equalizer over `background` with a bar in
    /// the colour given for it for every bin, or the tuner with the note that
    /// was determined. There is no frame where the tuner has no note to show;
    /// the matrix then keeps the frame it shows.
    pub fn process_and_output(
        &mut self,
        input: AudioProcessorOutputEnum,
        background: RGB,
        bar_colors: &Vec<RGB>,
    ) -> (frame: Option<Vec<u8>>)
        requires
            old(self).wf(),
        ensures
            final(self).wf(),
            final(self).tuner_painter() == old(self).tuner_painter(),
            match input {
                AudioProcessorOutputEnum::EqBins(bins) => {
                    &&& frame is Some
                    &&& frame->0@ == equalizer_frame(
                        old(self).eq_painter().ghosts(),
                        bins@,
                        background,
                        bar_colors@,
                    )
                    &&& final(self).eq_painter().ghosts() == ghosts_after_frame(
                        old(self).eq_painter().ghosts(),
                        bins@,
                        background,
                        bar_colors@,
                    )
                    &&& final(self).eq_painter().spec_current_bg_color() == background
                    &&& final(self).eq_painter().spec_iteration() == old(self).eq_painter().spec_iteration()
                    &&& final(self).eq_painter().spec_background_cycle_state() == old(self).eq_painter().spec_background_cycle_state()
                    &&& final(self).eq_painter().spec_bar_cycle_state() == old(self).eq_painter().spec_bar_cycle_state()
                },
                AudioProcessorOutputEnum::NoteInfo(note_info_option) => {
                    &&& final(self).eq_painter() == old(self).eq_painter()
                    &&& match *note_info_option {
                        Some(note_info) => frame is Some && frame->0@ == tuner_frame(
                            LEDS_MAX_X as int,
                            LEDS_MAX_Y as int,
                            note_info,
                        ),
                        None => frame is None,
                    }
                },
            },
    {
        match input {
            AudioProcessorOutputEnum::EqBins(bins) => {
                Some(self.eq_painter.paint(bins, background, bar_colors))
            },
            AudioProcessorOutputEnum::NoteInfo(note_info_option) => {
                if let Some(note_info) = note_info_option {
                    Some(self.tuner_painter.paint(note_info))
                } else {
                    None
                }
            },
        }
    }
}

} // verus!
