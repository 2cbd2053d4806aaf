//! Tuner analysis: raw pitch detections are smoothed over a short history and
//! the smoothed pitch is described as a musical note.

use vstd::prelude::*;
use std::collections::VecDeque;
use crate::config::CHUNK_SIZE;
use crate::audiovisual::sample_accumulator::SampleAccumulator;
use crate::audiovisual::sample_accumulator::chunk_count;
use crate::audiovisual::sample_accumulator::chunk_of;
use crate::audiovisual::sample_accumulator::leftover;

verus! {

/// Number of raw pitches that one smoothed pitch is the mean of.
pub const HISTORY_WINDOW: usize = 2;

/// Largest deviation of a pitch from its note, in millicents. Anything further
/// off belongs to the neighbouring note.
pub const MAX_NOTE_OFFSET: i32 = 50_000;

/// A pitch closer to its note than this many millicents counts as in tune.
pub const IN_TUNE_OFFSET: i32 = 10_000;

/// The twelve notes of the chromatic scale.
#[derive(Clone, Copy, PartialEq, Eq, Structural, Debug)]
pub enum NoteName {
    A,
    ASharp,
    B,
    C,
    CSharp,
    D,
    DSharp,
    E,
    F,
    FSharp,
    G,
    GSharp,
}

/// The note a semitone above `note`.
pub open spec fn note_after(note: NoteName) -> NoteName {
    match note {
        NoteName::A => NoteName::ASharp,
        NoteName::ASharp => NoteName::B,
        NoteName::B => NoteName::C,
        NoteName::C => NoteName::CSharp,
        NoteName::CSharp => NoteName::D,
        NoteName::D => NoteName::DSharp,
        NoteName::DSharp => NoteName::E,
        NoteName::E => NoteName::F,
        NoteName::F => NoteName::FSharp,
        NoteName::FSharp => NoteName::G,
        NoteName::G => NoteName::GSharp,
        NoteName::GSharp => NoteName::A,
    }
}

/// The note a semitone below `note`.
pub open spec fn note_before(note: NoteName) -> NoteName {
    match note {
        NoteName::A => NoteName::GSharp,
        NoteName::ASharp => NoteName::A,
        NoteName::B => NoteName::ASharp,
        NoteName::C => NoteName::B,
        NoteName::CSharp => NoteName::C,
        NoteName::D => NoteName::CSharp,
        NoteName::DSharp => NoteName::D,
        NoteName::E => NoteName::DSharp,
        NoteName::F => NoteName::E,
        NoteName::FSharp => NoteName::F,
        NoteName::G => NoteName::FSharp,
        NoteName::GSharp => NoteName::G,
    }
}

impl NoteName {
    /// The note a semitone above this one.
    pub fn next(&self) -> (r: NoteName)
        ensures
            r == note_after(*self),
    {
        match self {
            NoteName::A => NoteName::ASharp,
            NoteName::ASharp => NoteName::B,
            NoteName::B => NoteName::C,
            NoteName::C => NoteName::CSharp,
            NoteName::CSharp => NoteName::D,
            NoteName::D => NoteName::DSharp,
            NoteName::DSharp => NoteName::E,
            NoteName::E => NoteName::F,
            NoteName::F => NoteName::FSharp,
            NoteName::FSharp => NoteName::G,
            NoteName::G => NoteName::GSharp,
            NoteName::GSharp => NoteName::A,
        }
    }

    /// The note a semitone below this one.
    pub fn previous(&self) -> (r: NoteName)
        ensures
            r == note_before(*self),
    {
        match self {
            NoteName::A => NoteName::GSharp,
            NoteName::ASharp => NoteName::A,
            NoteName::B => NoteName::ASharp,
            NoteName::C => NoteName::B,
            NoteName::CSharp => NoteName::C,
            NoteName::D => NoteName::CSharp,
            NoteName::DSharp => NoteName::D,
            NoteName::E => NoteName::DSharp,
            NoteName::F => NoteName::E,
            NoteName::FSharp => NoteName::F,
            NoteName::G => NoteName::FSharp,
            NoteName::GSharp => NoteName::G,
        }
    }
}

/// Going up a semitone and down again leads back to the note, and so does going
/// down and up.
pub proof fn lemma_neighbours_are_mutual(note: NoteName)
    ensures
        note_before(note_after(note)) == note,
        note_after(note_before(note)) == note,
{
}

/// What the conversion of a frequency into a note yields: the nearest note of
/// the equal-tempered scale, the frequency of that note in millihertz, its octave
/// and how far the frequency is off the note, in millicents.
#[derive(Clone, Copy, PartialEq, Eq, Structural, Debug)]
pub struct NoteReading {
    pub note_name: NoteName,
    pub note_freq: u32,
    pub octave: i32,
    pub cents_offset: i32,
}

/// A pitch described as a note.
#[derive(Clone, Copy, PartialEq, Eq, Structural, Debug)]
pub struct NoteDescriptor {
    /// The pitch that was measured, in millihertz.
    pub actual_freq: u32,
    /// The note nearest to the pitch.
    pub note_name: NoteName,
    /// The frequency of that note, in millihertz.
    pub note_freq: u32,
    /// The octave of that note.
    pub octave: i32,
    /// How far the pitch is off the note, in millicents; positive when sharp.
    pub cents_offset: i32,
    /// The note a semitone below.
    pub previous_note_name: NoteName,
    /// The note a semitone above.
    pub next_note_name: NoteName,
    /// Whether the pitch is close enough to the note to count as in tune.
    pub in_tune: bool,
}

/// Whether an offset lies within the catchment of a note.
pub open spec fn within_catchment(cents_offset: i32) -> bool {
    -MAX_NOTE_OFFSET <= cents_offset <= MAX_NOTE_OFFSET
}

/// Whether an offset is small enough to count as in tune.
pub open spec fn counts_as_in_tune(cents_offset: i32) -> bool {
    -IN_TUNE_OFFSET < cents_offset < IN_TUNE_OFFSET
}

/// The descriptor of a pitch of `actual_freq` millihertz that was read as
/// `reading`.
pub open spec fn described(actual_freq: u32, reading: NoteReading) -> NoteDescriptor {
    NoteDescriptor {
        actual_freq,
        note_name: reading.note_name,
        note_freq: reading.note_freq,
        octave: reading.octave,
        cents_offset: reading.cents_offset,
        previous_note_name: note_before(reading.note_name),
        next_note_name: note_after(reading.note_name),
        in_tune: counts_as_in_tune(reading.cents_offset),
    }
}

impl NoteDescriptor {
    /// The offset lies within the catchment of the note, the neighbours are
    /// the notes a semitone away and the pitch is in tune exactly when the
    /// offset is small enough.
    pub open spec fn wf(&self) -> bool {
        &&& within_catchment(self.cents_offset)
        &&& self.previous_note_name == note_before(self.note_name)
        &&& self.next_note_name == note_after(self.note_name)
        &&& self.in_tune == counts_as_in_tune(self.cents_offset)
    }

    /// Describes a pitch of `actual_freq` millihertz that was read as `reading`.
    /// A reading further off its note than the catchment of a note allows is
    /// no reading of that note, and yields nothing.
    pub fn new(actual_freq: u32, reading: NoteReading) -> (r: Option<NoteDescriptor>)
        ensures
            r is Some <==> within_catchment(reading.cents_offset),
            r is Some ==> r->0 == described(actual_freq, reading) && r->0.wf(),
    {
        if reading.cents_offset < -MAX_NOTE_OFFSET || reading.cents_offset > MAX_NOTE_OFFSET {
            return None;
        }
        Some(
            NoteDescriptor {
                actual_freq,
                note_name: reading.note_name,
                note_freq: reading.note_freq,
                octave: reading.octave,
                cents_offset: reading.cents_offset,
                previous_note_name: reading.note_name.previous(),
                next_note_name: reading.note_name.next(),
                in_tune: -IN_TUNE_OFFSET < reading.cents_offset && reading.cents_offset
                    < IN_TUNE_OFFSET,
            },
        )
    }

    /// Decides whether the descriptor is well formed.
    pub fn is_wf(&self) -> (r: bool)
        ensures
            r == self.wf(),
    {
        -MAX_NOTE_OFFSET <= self.cents_offset && self.cents_offset <= MAX_NOTE_OFFSET
            && self.previous_note_name == self.note_name.previous() && self.next_note_name
            == self.note_name.next() && self.in_tune == (-IN_TUNE_OFFSET < self.cents_offset
            && self.cents_offset < IN_TUNE_OFFSET)
    }
}

/// The mean of two frequencies, rounded down.
pub open spec fn mean_of(older: u32, newer: u32) -> u32 {
    ((older + newer) / 2) as u32
}

/// A history after `frequency` has been pushed: the newest pitch goes to the
/// back, and the oldest leaves if the window is full already.
pub open spec fn pushed(history: Seq<u32>, frequency: u32) -> Seq<u32> {
    if history.len() >= HISTORY_WINDOW {
        history.subrange(1, history.len() as int).push(frequency)
    } else {
        history.push(frequency)
    }
}

/// The mean that a history yields: that of its two pitches once the window is
/// full, none before.
pub open spec fn mean_yielded(history: Seq<u32>) -> Option<u32> {
    if history.len() == HISTORY_WINDOW {
        Some(mean_of(history[0], history[1]))
    } else {
        None
    }
}

/// A history after its mean has been taken: a full window has let go of its
/// oldest pitch.
pub open spec fn after_mean(history: Seq<u32>) -> Seq<u32> {
    if history.len() == HISTORY_WINDOW {
        history.subrange(1, history.len() as int)
    } else {
        history
    }
}

/// A history after one analysis cycle in which `detected` came from the pitch
/// detector.
pub open spec fn after_detection(history: Seq<u32>, detected: Option<u32>) -> Seq<u32> {
    match detected {
        Some(frequency) => after_mean(pushed(history, frequency)),
        None => after_mean(history),
    }
}

/// The mean that one analysis cycle yields in which `detected` came from the
/// pitch detector.
pub open spec fn mean_after_detection(history: Seq<u32>, detected: Option<u32>) -> Option<u32> {
    match detected {
        Some(frequency) => mean_yielded(pushed(history, frequency)),
        None => mean_yielded(history),
    }
}

/// The most recent raw pitches, oldest first, in millihertz. The history never
/// holds more pitches than the window is wide.
pub struct PitchHistory {
    recent_freqs: VecDeque<u32>,
}

impl PitchHistory {
    pub closed spec fn view(&self) -> Seq<u32> {
        self.recent_freqs@
    }

    /// The history holds no more pitches than the window is wide.
    pub open spec fn wf(&self) -> bool {
        self@.len() <= HISTORY_WINDOW
    }

    /// An empty history.
    pub fn new() -> (r: PitchHistory)
        ensures
            r.wf(),
            r@ == Seq::<u32>::empty(),
    {
        PitchHistory { recent_freqs: VecDeque::new() }
    }

    /// Number of pitches in the history.
    pub fn len(&self) -> (r: usize)
        ensures
            r == self@.len(),
    {
        self.recent_freqs.len()
    }

    /// Pushes a raw pitch. The oldest pitch leaves if the window is full.
    pub fn push(&mut self, frequency: u32)
        requires
            old(self).wf(),
        ensures
            final(self).wf(),
            final(self)@ == pushed(old(self)@, frequency),
    {
        if self.recent_freqs.len() >= HISTORY_WINDOW {
            self.recent_freqs.pop_front();
        }
        self.recent_freqs.push_back(frequency);
    }

    /// Yields the mean of the two pitches of a full window and lets go of the
    /// older one; yields nothing while the window is not full.
    pub fn take_mean(&mut self) -> (mean: Option<u32>)
        requires
            old(self).wf(),
        ensures
            final(self).wf(),
            mean == mean_yielded(old(self)@),
            final(self)@ == after_mean(old(self)@),
            final(self)@.len() < HISTORY_WINDOW,
    {
        if self.recent_freqs.len() == HISTORY_WINDOW {
            let older: u32 = self.recent_freqs[0];
            let newer: u32 = self.recent_freqs[1];
            let sum: u64 = older as u64 + newer as u64;
            self.recent_freqs.pop_front();
            Some((sum / 2) as u32)
        } else {
            None
        }
    }

    /// Runs one analysis cycle: pushes the pitch that was detected, if any,
    /// and yields the new mean, if there is one.
    pub fn observe(&mut self, detected: Option<u32>) -> (mean: Option<u32>)
        requires
            old(self).wf(),
        ensures
            final(self).wf(),
            mean == mean_after_detection(old(self)@, detected),
            final(self)@ == after_detection(old(self)@, detected),
            final(self)@.len() < HISTORY_WINDOW,
    {
        if let Some(frequency) = detected {
            self.push(frequency);
        }
        self.take_mean()
    }
}

/// Whatever is pushed, a history within its window stays within it, push after
/// push: the oldest pitch is evicted at every step that would overfill it.
pub proof fn lemma_pushes_stay_within_window(history: Seq<u32>, first: u32, second: u32, third: u32)
    requires
        history.len() <= HISTORY_WINDOW,
    ensures
        pushed(history, first).len() <= HISTORY_WINDOW,
        pushed(pushed(history, first), second).len() <= HISTORY_WINDOW,
        pushed(pushed(pushed(history, first), second), third).len() <= HISTORY_WINDOW,
        pushed(pushed(pushed(history, first), second), third) == seq![second, third],
{
    let one = pushed(history, first);
    let two = pushed(one, second);
    let three = pushed(two, third);
    assert(two.len() == 2);
    assert(two[1] == second);
    assert(three =~= seq![second, third]);
}

/// From an empty history the first detection yields no mean, and every further
/// one yields the mean of itself and the detection before it.
pub proof fn lemma_second_detection_yields_mean(first: u32, second: u32)
    ensures
        mean_after_detection(Seq::<u32>::empty(), Some(first)) == None::<u32>,
        after_detection(Seq::<u32>::empty(), Some(first)) == seq![first],
        mean_after_detection(seq![first], Some(second)) == Some(mean_of(first, second)),
        after_detection(seq![first], Some(second)) == seq![second],
{
    let empty = Seq::<u32>::empty();
    assert(pushed(empty, first) =~= seq![first]);
    assert(after_detection(empty, Some(first)) =~= seq![first]);
    let two = pushed(seq![first], second);
    assert(two =~= seq![first, second]);
    assert(after_detection(seq![first], Some(second)) =~= seq![second]);
}

/// A cycle never leaves a full window behind, so the history holds at most one
/// pitch between cycles.
pub proof fn lemma_cycle_leaves_room(history: Seq<u32>, detected: Option<u32>)
    requires
        history.len() <= HISTORY_WINDOW,
    ensures
        after_detection(history, detected).len() < HISTORY_WINDOW,
{
}

/// A chunk of samples on its way to the pitch detector.
pub struct RawBuffer<T> {
    buffer: Vec<T>,
}

/// The outcome of one pitch analysis: a new mean pitch in millihertz, or none.
pub struct PitchDetermined {
    mean_freq: Option<u32>,
}

impl<T> RawBuffer<T> {
    pub closed spec fn view(&self) -> Seq<T> {
        self.buffer@
    }

    pub fn new(samples: Vec<T>) -> (r: RawBuffer<T>)
        ensures
            r@ == samples@,
    {
        RawBuffer { buffer: samples }
    }

    /// The samples, for the pitch detector to listen to.
    pub fn samples(&self) -> (r: &Vec<T>)
        ensures
            r@ == self@,
    {
        &self.buffer
    }

    /// Takes what the pitch detector found in this chunk, a raw pitch in
    /// millihertz or nothing, into the history and determines this cycle's new
    /// mean pitch.
    pub fn pitch_detection(self, detected: Option<u32>, recent_freqs: &mut PitchHistory) -> (r:
        PitchDetermined)
        requires
            old(recent_freqs).wf(),
        ensures
            final(recent_freqs).wf(),
            r.spec_mean_freq() == mean_after_detection(old(recent_freqs)@, detected),
            final(recent_freqs)@ == after_detection(old(recent_freqs)@, detected),
            final(recent_freqs)@.len() < HISTORY_WINDOW,
    {
        let mean_freq = recent_freqs.observe(detected);
        PitchDetermined { mean_freq }
    }
}

/// The descriptor that a cycle emits: that of the new mean pitch as the
/// conversion read it, or none if there is no new mean or no reading of it.
pub open spec fn note_emitted(mean_freq: Option<u32>, reading: Option<NoteReading>) -> Option<
    NoteDescriptor,
> {
    match (mean_freq, reading) {
        (Some(frequency), Some(read)) => if within_catchment(read.cents_offset) {
            Some(described(frequency, read))
        } else {
            None
        },
        _ => None,
    }
}

impl PitchDetermined {
    pub closed spec fn spec_mean_freq(&self) -> Option<u32> {
        self.mean_freq
    }

    /// The new mean pitch of this cycle in millihertz, if there is one. It is
    /// the frequency to convert into a note.
    pub fn mean_freq(&self) -> (r: Option<u32>)
        ensures
            r == self.spec_mean_freq(),
    {
        self.mean_freq
    }

    /// Describes the new mean pitch as a note, given what the conversion of the
    /// mean into a note has yielded. There is no descriptor without a new mean,
    /// nor where the conversion has rejected the mean.
    pub fn note_info(self, reading: Option<NoteReading>) -> (r: Option<NoteDescriptor>)
        ensures
            r == note_emitted(self.spec_mean_freq(), reading),
            r is Some ==> r->0.wf() && Some(r->0.actual_freq) == self.spec_mean_freq(),
    {
        match (self.mean_freq, reading) {
            (Some(frequency), Some(read)) => NoteDescriptor::new(frequency, read),
            _ => None,
        }
    }
}

/// The descriptor that the tuner shows after a cycle. Without a new mean the
/// descriptor shown before stays; with one, the tuner shows what the cycle
/// emitted, which is nothing where the conversion rejected the mean.
pub open spec fn note_shown(
    before: Option<NoteDescriptor>,
    mean_freq: Option<u32>,
    reading: Option<NoteReading>,
) -> Option<NoteDescriptor> {
    if mean_freq is Some {
        note_emitted(mean_freq, reading)
    } else {
        before
    }
}

/// Runs the tuner analysis: gathers samples into chunks, smooths the pitches
/// detected in them and keeps the note to show.
pub struct GiTuner<T> {
    accumulator: SampleAccumulator<T>,
    recent_freqs: PitchHistory,
    note_info: Option<NoteDescriptor>,
}

impl<T> GiTuner<T> {
    /// The samples that wait for the next chunk to fill up.
    pub closed spec fn pending(&self) -> Seq<T> {
        self.accumulator.pending()
    }

    /// The raw pitches that the next mean will be taken over.
    pub closed spec fn history(&self) -> Seq<u32> {
        self.recent_freqs@
    }

    /// The note to show, if any.
    pub closed spec fn shown(&self) -> Option<NoteDescriptor> {
        self.note_info
    }

    /// Chunks have the size of one analysis pass and the history is within
    /// its window.
    pub closed spec fn wf(&self) -> bool {
        &&& self.accumulator.wf()
        &&& self.accumulator.spec_chunk_size() == CHUNK_SIZE
        &&& self.recent_freqs.wf()
    }

    /// A tuner that has heard nothing yet.
    pub fn new() -> (r: Self)
        ensures
            r.wf(),
            r.pending() == Seq::<T>::empty(),
            r.history() == Seq::<u32>::empty(),
            r.shown() == None::<NoteDescriptor>,
    {
        GiTuner {
            accumulator: SampleAccumulator::new(CHUNK_SIZE),
            recent_freqs: PitchHistory::new(),
            note_info: None,
        }
    }

    /// Number of samples that wait for the next chunk.
    pub fn pending_len(&self) -> (r: usize)
        ensures
            r == self.pending().len(),
    {
        self.accumulator.pending_len()
    }

    /// Number of raw pitches in the history.
    pub fn history_len(&self) -> (r: usize)
        ensures
            r == self.history().len(),
    {
        self.recent_freqs.len()
    }

    /// The note to show, if any.
    pub fn note_info(&self) -> (r: &Option<NoteDescriptor>)
        ensures
            *r == self.shown(),
    {
        &self.note_info
    }

    /// Takes in `samples` and releases every chunk that has filled up, oldest
    /// first, for pitch detection. Fewer samples than one chunk stay behind.
    pub fn tune(&mut self, samples: Vec<T>) -> (chunks: Vec<RawBuffer<T>>)
        requires
            old(self).wf(),
        ensures
            final(self).wf(),
            final(self).history() == old(self).history(),
            final(self).shown() == old(self).shown(),
            chunks@.len() == chunk_count(
                (old(self).pending() + samples@).len() as int,
                CHUNK_SIZE as int,
            ),
            forall|k: int|
                0 <= k < chunks@.len() ==> (#[trigger] chunks@[k])@ == chunk_of(
                    old(self).pending() + samples@,
                    CHUNK_SIZE as int,
                    k,
                ),
            final(self).pending() == leftover(old(self).pending() + samples@, CHUNK_SIZE as int),
            final(self).pending().len() < CHUNK_SIZE,
    {
        let released = self.accumulator.ingest(samples);
        let ghost all = released@;
        let mut chunks: Vec<RawBuffer<T>> = Vec::new();
        for chunk in it: released
            invariant
                it.seq() == all,
                chunks@.len() == it.index(),
                forall|j: int| 0 <= j < chunks@.len() ==> (#[trigger] chunks@[j])@ == all[j]@,
        {
            chunks.push(RawBuffer::new(chunk));
        }
        chunks
    }

    /// Takes what the pitch detector found in a chunk into the history and
    /// determines this cycle's new mean pitch.
    pub fn pitch_detected(&mut self, raw_buffer: RawBuffer<T>, detected: Option<u32>) -> (r:
        PitchDetermined)
        requires
            old(self).wf(),
        ensures
            final(self).wf(),
            r.spec_mean_freq() == mean_after_detection(old(self).history(), detected),
            final(self).history() == after_detection(old(self).history(), detected),
            final(self).history().len() < HISTORY_WINDOW,
            final(self).pending() == old(self).pending(),
            final(self).shown() == old(self).shown(),
    {
        raw_buffer.pitch_detection(detected, &mut self.recent_freqs)
    }

    /// Ends a cycle: takes over the note that the cycle emitted. A cycle
    /// without a new mean leaves the note shown before in place.
    pub fn note_determined(&mut self, determined: PitchDetermined, reading: Option<NoteReading>)
        ensures
            final(self).shown() == note_shown(old(self).shown(), determined.spec_mean_freq(), reading),
            final(self).history() == old(self).history(),
            final(self).pending() == old(self).pending(),
            final(self).wf() == old(self).wf(),
    {
        if determined.mean_freq().is_some() {
            self.note_info = determined.note_info(reading);
        }
    }
}

} // verus!
