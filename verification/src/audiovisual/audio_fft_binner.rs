//! Equalizer analysis: the magnitudes of a spectrum are gathered into
//! logarithmically spaced frequency bins and normalised against their peak.
//!
//! Two guard bins surround the bins that are shown. They collect what lies
//! outside the band of interest and are dropped on output.

use vstd::prelude::*;
use crate::audiovisual::bin_edges::AdaptiveResultEdges;
use crate::audiovisual::bin_edges::ceiling_frequency;
use crate::audiovisual::bin_edges::edges_sorted;
use crate::audiovisual::bin_edges::edges_strictly_increasing;
use crate::audiovisual::bin_edges::floor_frequency;
use crate::audiovisual::bin_edges::geometric_band_fits;
use crate::audiovisual::bin_edges::is_geometric_placement;
use crate::audiovisual::bin_edges::valid_placement;
use crate::config::CHUNK_SIZE;
use crate::config::FULL_SCALE;
use crate::audiovisual::sample_accumulator::SampleAccumulator;
use crate::audiovisual::sample_accumulator::chunk_count;
use crate::audiovisual::sample_accumulator::chunk_of;
use crate::audiovisual::sample_accumulator::leftover;

verus! {

/// Whether an edge lies strictly below the frequency of a coefficient. The
/// frequency is the fraction `numerator / len` in millihertz; the comparison is
/// made exactly, without dividing.
pub open spec fn edge_below(edge: u32, numerator: int, len: int) -> bool {
    edge * len < numerator
}

/// Number of edges among the first `upto` that lie strictly below a
/// coefficient's frequency.
pub open spec fn edges_below(edges: Seq<u32>, numerator: int, len: int, upto: int) -> int
    decreases upto,
{
    if upto <= 0 {
        0
    } else {
        edges_below(edges, numerator, len, upto - 1) + (if edge_below(
            edges[upto - 1],
            numerator,
            len,
        ) {
            1int
        } else {
            0int
        })
    }
}

/// The frequency of coefficient `i` of a transform over `len` samples taken at
/// `sample_rate` hertz is `i * sample_rate / len` hertz. This is its numerator
/// once the frequency is written in millihertz over the denominator `len`.
pub open spec fn frequency_numerator(sample_rate: int, i: int) -> int {
    i * sample_rate * 1000
}

/// The bin that coefficient `i` falls in: the bin whose lower edge is the last
/// edge strictly below the coefficient's frequency. A frequency at or below the
/// first edge goes to the first bin, one above the last edge to the last bin.
pub open spec fn bin_index(edges: Seq<u32>, sample_rate: int, len: int, i: int) -> int {
    let below = edges_below(edges, frequency_numerator(sample_rate, i), len, edges.len() as int);
    let last_bin = edges.len() - 2;
    if below < 1 {
        0
    } else if below - 1 > last_bin {
        last_bin
    } else {
        below - 1
    }
}

/// Up to a point where sorted edges stop lying below a frequency, all do.
proof fn lemma_edges_below_prefix(edges: Seq<u32>, numerator: int, len: int, split: int, upto: int)
    requires
        0 <= split <= edges.len(),
        0 <= upto <= edges.len(),
        forall|j: int| 0 <= j < split ==> edge_below(#[trigger] edges[j], numerator, len),
        forall|j: int| split <= j < edges.len() ==> !edge_below(#[trigger] edges[j], numerator, len),
    ensures
        edges_below(edges, numerator, len, upto) == (if upto <= split { upto } else { split }),
    decreases upto,
{
    if upto > 0 {
        lemma_edges_below_prefix(edges, numerator, len, split, upto - 1);
    }
}

/// The bin of a coefficient is one of the bins, and its edges enclose the
/// coefficient's frequency wherever the frequency lies within the edges at all.
pub proof fn lemma_bin_index_encloses(edges: Seq<u32>, sample_rate: int, len: int, i: int)
    requires
        edges.len() >= 2,
        edges_sorted(edges),
        len > 0,
    ensures
        0 <= bin_index(edges, sample_rate, len, i) <= edges.len() - 2,
        ({
            let b = bin_index(edges, sample_rate, len, i);
            let f = frequency_numerator(sample_rate, i);
            &&& b > 0 ==> edge_below(edges[b], f, len)
            &&& b < edges.len() - 2 ==> !edge_below(edges[b + 1], f, len)
        }),
{
    let f = frequency_numerator(sample_rate, i);
    let n = edges.len() as int;
    let split = first_not_below(edges, f, len, 0);
    lemma_first_not_below(edges, f, len, 0);
    assert forall|j: int| 0 <= j < split implies edge_below(#[trigger] edges[j], f, len) by {}
    assert forall|j: int| split <= j < n implies !edge_below(#[trigger] edges[j], f, len) by {
        if split < n {
            assert(edges[split] <= edges[j]);
            assert(edges[split] * len <= edges[j] * len) by (nonlinear_arith)
                requires
                    edges[split] <= edges[j],
                    len > 0,
            ;
        }
    }
    lemma_edges_below_prefix(edges, f, len, split, n);
}

/// Position of the first edge from `from` on that does not lie below the
/// frequency, or the number of edges if all of them do.
spec fn first_not_below(edges: Seq<u32>, numerator: int, len: int, from: int) -> int
    decreases edges.len() - from,
{
    if from < 0 || from >= edges.len() {
        edges.len() as int
    } else if !edge_below(edges[from], numerator, len) {
        from
    } else {
        first_not_below(edges, numerator, len, from + 1)
    }
}

proof fn lemma_first_not_below(edges: Seq<u32>, numerator: int, len: int, from: int)
    requires
        0 <= from <= edges.len(),
    ensures
        from <= first_not_below(edges, numerator, len, from) <= edges.len(),
        forall|j: int|
            from <= j < first_not_below(edges, numerator, len, from) ==> edge_below(
                #[trigger] edges[j],
                numerator,
                len,
            ),
        first_not_below(edges, numerator, len, from) < edges.len() ==> !edge_below(
            edges[first_not_below(edges, numerator, len, from)],
            numerator,
            len,
        ),
    decreases edges.len() - from,
{
    if from < edges.len() && edge_below(edges[from], numerator, len) {
        lemma_first_not_below(edges, numerator, len, from + 1);
    }
}

/// Finds the bin of coefficient `i` by bisection over the sorted edges.
pub fn coefficient_bin(edges: &Vec<u32>, sample_rate: u32, len: usize, i: usize) -> (bin: usize)
    requires
        edges@.len() >= 2,
        edges_sorted(edges@),
    ensures
        bin == bin_index(edges@, sample_rate as int, len as int, i as int),
        bin <= edges@.len() - 2,
{
    let ghost f = frequency_numerator(sample_rate as int, i as int);
    assert(0 <= f <= 0xffff_ffff_ffff_ffff * 0xffff_ffff * 1000) by (nonlinear_arith)
        requires
            f == i * sample_rate * 1000,
            0 <= i <= 0xffff_ffff_ffff_ffff,
            0 <= sample_rate <= 0xffff_ffff,
    ;
    let step: u128 = (i as u128) * (sample_rate as u128);
    let numerator: u128 = step * 1000;
    let mut lo: usize = 0;
    let mut hi: usize = edges.len();
    while lo < hi
        invariant
            0 <= lo <= hi <= edges@.len(),
            numerator == f,
            edges_sorted(edges@),
            forall|j: int| 0 <= j < lo ==> edge_below(#[trigger] edges@[j], f, len as int),
            forall|j: int| hi <= j < edges@.len() ==> !edge_below(#[trigger] edges@[j], f, len as int),
        decreases hi - lo,
    {
        let mid: usize = lo + (hi - lo) / 2;
        let edge: u32 = edges[mid];
        assert(0 <= edge * len <= 0xffff_ffff * 0xffff_ffff_ffff_ffff) by (nonlinear_arith)
            requires
                0 <= edge <= 0xffff_ffff,
                0 <= len <= 0xffff_ffff_ffff_ffff,
        ;
        let scaled: u128 = (edge as u128) * (len as u128);
        if scaled < numerator {
            assert forall|j: int| 0 <= j < mid + 1 implies edge_below(
                #[trigger] edges@[j],
                f,
                len as int,
            ) by {
                assert(edges@[j] <= edges@[mid as int]);
                assert(edges@[j] * len <= edges@[mid as int] * len) by (nonlinear_arith)
                    requires
                        edges@[j] <= edges@[mid as int],
                        len >= 0,
                ;
            }
            lo = mid + 1;
        } else {
            assert forall|j: int| mid <= j < edges@.len() implies !edge_below(
                #[trigger] edges@[j],
                f,
                len as int,
            ) by {
                assert(edges@[mid as int] <= edges@[j]);
                assert(edges@[mid as int] * len <= edges@[j] * len) by (nonlinear_arith)
                    requires
                        edges@[mid as int] <= edges@[j],
                        len >= 0,
                ;
            }
            hi = mid;
        }
    }
    proof {
        lemma_edges_below_prefix(edges@, f, len as int, lo as int, edges@.len() as int);
    }
    let last_bin: usize = edges.len() - 2;
    if lo < 1 {
        0
    } else if lo - 1 > last_bin {
        last_bin
    } else {
        lo - 1
    }
}

/// Number of leading coefficients of a transform over `len` samples that are
/// looked at: the first half without its top index. The mirrored half is never
/// inspected.
pub open spec fn scanned(len: int) -> int {
    if len / 2 >= 1 {
        len / 2 - 1
    } else {
        0
    }
}

/// What bin `k` has gathered from the first `upto` coefficients: the sum of the
/// magnitudes of those coefficients that fall in it.
pub open spec fn bin_sum(
    magnitudes: Seq<u32>,
    edges: Seq<u32>,
    sample_rate: int,
    upto: int,
    k: int,
) -> int
    decreases upto,
{
    if upto <= 0 {
        0
    } else {
        bin_sum(magnitudes, edges, sample_rate, upto - 1, k) + (if bin_index(
            edges,
            sample_rate,
            magnitudes.len() as int,
            upto - 1,
        ) == k {
            magnitudes[upto - 1] as int
        } else {
            0int
        })
    }
}

/// The magnitude gathered in a bin, and the width of the bin in millihertz.
/// Together they stand for the bin's magnitude per unit of frequency.
#[derive(Clone, Copy, PartialEq, Eq, Structural, Debug)]
pub struct BinDensity {
    pub magnitude: u64,
    pub width: u32,
}

/// The width that a bin's magnitude is divided by. A bin of zero width is not
/// divided at all, which amounts to a width of one hertz.
pub open spec fn effective_width(bin: BinDensity) -> int {
    if bin.width == 0 {
        1000
    } else {
        bin.width as int
    }
}

/// Whether `a` is denser than `b`, compared exactly by cross multiplication.
pub open spec fn denser(a: BinDensity, b: BinDensity) -> bool {
    a.magnitude * effective_width(b) > b.magnitude * effective_width(a)
}

/// Index of the densest of the first `upto` bins, the first one if several are
/// equally dense.
pub open spec fn peak_index(bins: Seq<BinDensity>, upto: int) -> int
    decreases upto,
{
    if upto <= 1 {
        0
    } else {
        let before = peak_index(bins, upto - 1);
        if denser(bins[upto - 1], bins[before]) {
            upto - 1
        } else {
            before
        }
    }
}

/// The density of `bin` as a fraction of the density of `peak`, in millionths,
/// rounded down. Against a silent peak every bin is zero.
pub open spec fn normalized_density(bin: BinDensity, peak: BinDensity) -> int {
    if peak.magnitude == 0 {
        0
    } else {
        (FULL_SCALE * bin.magnitude * effective_width(peak)) / (peak.magnitude * effective_width(
            bin,
        ))
    }
}

/// The bins normalised against their peak.
pub open spec fn normalized_bins(bins: Seq<BinDensity>) -> Seq<u32> {
    Seq::new(
        bins.len(),
        |k: int| normalized_density(bins[k], bins[peak_index(bins, bins.len() as int)]) as u32,
    )
}

/// The bins without the guard bin at either end.
pub open spec fn without_guards(bins: Seq<u32>) -> Seq<u32> {
    if bins.len() < 2 {
        Seq::empty()
    } else {
        bins.subrange(1, bins.len() - 1)
    }
}

/// The densities that a spectrum leaves in the bins between `edges`.
pub open spec fn distributed_bins(magnitudes: Seq<u32>, edges: Seq<u32>, sample_rate: int) -> Seq<
    BinDensity,
> {
    Seq::new(
        (edges.len() - 1) as nat,
        |k: int|
            BinDensity {
                magnitude: bin_sum(
                    magnitudes,
                    edges,
                    sample_rate,
                    scanned(magnitudes.len() as int),
                    k,
                ) as u64,
                width: (edges[k + 1] - edges[k]) as u32,
            },
    )
}

/// What the equalizer shows for a spectrum: its magnitudes gathered into the
/// bins, normalised against the peak, the guard bins dropped.
pub open spec fn equalizer_bins(magnitudes: Seq<u32>, edges: Seq<u32>, sample_rate: int) -> Seq<u32> {
    without_guards(normalized_bins(distributed_bins(magnitudes, edges, sample_rate)))
}

/// No bin gathers more than the coefficients looked at can give.
proof fn lemma_bin_sum_bounds(magnitudes: Seq<u32>, edges: Seq<u32>, sample_rate: int, upto: int, k: int)
    requires
        0 <= upto <= magnitudes.len(),
    ensures
        0 <= bin_sum(magnitudes, edges, sample_rate, upto, k) <= upto * 0xffff_ffff,
    decreases upto,
{
    if upto > 0 {
        lemma_bin_sum_bounds(magnitudes, edges, sample_rate, upto - 1, k);
        assert((upto - 1) * 0xffff_ffff + 0xffff_ffff == upto * 0xffff_ffff) by (nonlinear_arith);
    }
}

/// A coefficient of a transform, its real and its imaginary part as whole
/// numbers.
#[derive(Clone, Copy, PartialEq, Eq, Structural, Debug)]
pub struct Coefficient {
    pub re: i32,
    pub im: i32,
}

/// The largest whole number whose square does not exceed `n`.
pub open spec fn integer_sqrt(n: int) -> int
    decreases n,
{
    if n <= 0 {
        0
    } else {
        let below = integer_sqrt(n - 1);
        if (below + 1) * (below + 1) <= n {
            below + 1
        } else {
            below
        }
    }
}

/// The magnitude of a coefficient: its modulus, rounded down.
pub open spec fn modulus(coefficient: Coefficient) -> int {
    integer_sqrt(coefficient.re * coefficient.re + coefficient.im * coefficient.im)
}

/// The magnitudes of the coefficients of a transform.
pub open spec fn moduli(coefficients: Seq<Coefficient>) -> Seq<u32> {
    Seq::new(coefficients.len(), |i: int| modulus(coefficients[i]) as u32)
}

/// The square of the integer square root does not exceed the number, and the
/// square of the next whole number does.
pub proof fn lemma_integer_sqrt_encloses(n: int)
    requires
        n >= 0,
    ensures
        0 <= integer_sqrt(n),
        integer_sqrt(n) * integer_sqrt(n) <= n < (integer_sqrt(n) + 1) * (integer_sqrt(n) + 1),
    decreases n,
{
    if n > 0 {
        lemma_integer_sqrt_encloses(n - 1);
        let below = integer_sqrt(n - 1);
        assert((below + 1) * (below + 1) < (below + 2) * (below + 2)) by (nonlinear_arith)
            requires
                below >= 0,
        ;
    }
}

/// There is one whole number whose square and whose successor's square
/// enclose a number.
pub proof fn lemma_integer_sqrt_unique(n: int, root: int)
    requires
        0 <= root,
        root * root <= n < (root + 1) * (root + 1),
    ensures
        root == integer_sqrt(n),
{
    lemma_integer_sqrt_encloses(n);
    let other = integer_sqrt(n);
    if root < other {
        assert((root + 1) * (root + 1) <= other * other) by (nonlinear_arith)
            requires
                0 <= root + 1 <= other,
        ;
    } else if other < root {
        assert((other + 1) * (other + 1) <= root * root) by (nonlinear_arith)
            requires
                0 <= other + 1 <= root,
        ;
    }
}

/// Computes the integer square root.
pub fn integer_sqrt_of(n: u64) -> (root: u32)
    ensures
        root == integer_sqrt(n as int),
{
    let mut low: u64 = 0;
    let mut high: u64 = 0xffff_ffff;
    assert(n < (high + 1) * (high + 1)) by (nonlinear_arith)
        requires
            high == 0xffff_ffff,
            n <= 0xffff_ffff_ffff_ffff,
    ;
    while low < high
        invariant
            0 <= low <= high <= 0xffff_ffff,
            low * low <= n < (high + 1) * (high + 1),
        decreases high - low,
    {
        let mid: u64 = low + (high - low - 1) / 2 + 1;
        assert(mid * mid <= 0xffff_ffff * 0xffff_ffff) by (nonlinear_arith)
            requires
                0 <= mid <= 0xffff_ffff,
        ;
        if mid * mid <= n {
            low = mid;
        } else {
            high = mid - 1;
        }
    }
    proof {
        lemma_integer_sqrt_unique(n as int, low as int);
    }
    low as u32
}

/// Computes the magnitude of a coefficient.
pub fn magnitude(coefficient: Coefficient) -> (m: u32)
    ensures
        m == modulus(coefficient),
{
    let re: i64 = coefficient.re as i64;
    let im: i64 = coefficient.im as i64;
    assert(0 <= re * re <= 0x4000_0000_0000_0000 && 0 <= im * im <= 0x4000_0000_0000_0000)
        by (nonlinear_arith)
        requires
            -0x8000_0000 <= re <= 0x7fff_ffff,
            -0x8000_0000 <= im <= 0x7fff_ffff,
    ;
    let squares: u64 = (re * re) as u64 + (im * im) as u64;
    integer_sqrt_of(squares)
}

/// A chunk of samples on its way to the transform.
pub struct RawBuffer<T> {
    samples: Vec<T>,
}

impl<T> RawBuffer<T> {
    pub closed spec fn view(&self) -> Seq<T> {
        self.samples@
    }

    pub fn new(samples: Vec<T>) -> (r: RawBuffer<T>)
        ensures
            r@ == samples@,
    {
        RawBuffer { samples }
    }

    /// Hands the samples over to whoever transforms them.
    pub fn into_samples(self) -> (samples: Vec<T>)
        ensures
            samples@ == self@,
    {
        self.samples
    }
}

/// The magnitudes of the coefficients of a transform, one per sample of the
/// chunk that was transformed.
pub struct FFTOverSamples {
    ffted_samples: Vec<u32>,
}

/// A spectrum whose band of signal has been measured.
pub struct AdaptedEdges {
    ffted_samples: Vec<u32>,
    observed_min_freq: u32,
    observed_max_freq: u32,
}

/// A spectrum whose coefficients were distributed over the bins.
pub struct FFTResultBins {
    bins: Vec<BinDensity>,
}

/// Bins normalised against their peak, in millionths of the peak.
pub struct NormalizedFFTResultBins {
    bins: Vec<u32>,
}

impl FFTOverSamples {
    pub closed spec fn view(&self) -> Seq<u32> {
        self.ffted_samples@
    }

    /// Wraps the magnitudes of a transform. The chunk that was transformed
    /// holds no more samples than a 32-bit count can number.
    pub fn new(magnitudes: Vec<u32>) -> (r: FFTOverSamples)
        requires
            magnitudes@.len() <= u32::MAX,
        ensures
            r@ == magnitudes@,
    {
        FFTOverSamples { ffted_samples: magnitudes }
    }

    /// Takes the magnitudes of the coefficients of a transform. The chunk that
    /// was transformed holds no more samples than a 32-bit count can number.
    pub fn from_coefficients(coefficients: &Vec<Coefficient>) -> (r: FFTOverSamples)
        requires
            coefficients@.len() <= u32::MAX,
        ensures
            r@ == moduli(coefficients@),
    {
        let mut magnitudes: Vec<u32> = Vec::new();
        let mut i: usize = 0;
        while i < coefficients.len()
            invariant
                0 <= i <= coefficients@.len(),
                magnitudes@.len() == i,
                forall|j: int| 0 <= j < i ==> #[trigger] magnitudes@[j] == moduli(coefficients@)[j],
            decreases coefficients@.len() - i,
        {
            magnitudes.push(magnitude(coefficients[i]));
            i += 1;
        }
        assert(magnitudes@ =~= moduli(coefficients@));
        FFTOverSamples { ffted_samples: magnitudes }
    }

    #[verifier::type_invariant]
    spec fn type_inv(&self) -> bool {
        self.ffted_samples@.len() <= u32::MAX
    }

    /// Measures the band in which the spectrum holds any signal. With
    /// `adaptive` set, the band of `res_edges` moves a tenth of the way towards
    /// what was measured, as far as the band it would move to has room for
    /// its bins. Without it the edges stay as they are.
    pub fn adapt_edges(self, res_edges: &mut AdaptiveResultEdges, adaptive: bool) -> (r: AdaptedEdges)
        requires
            old(res_edges).wf(),
        ensures
            r@ == self@,
            r@.len() <= u32::MAX,
            r.spec_observed_min_freq() == observed_min_freq(
                self@,
                old(res_edges).spec_sample_rate(),
                old(res_edges).spec_absolute_min_freq(),
            ),
            r.spec_observed_max_freq() == observed_max_freq(
                self@,
                old(res_edges).spec_sample_rate(),
                old(res_edges).spec_absolute_max_freq(),
            ),
            final(res_edges).wf(),
            old(res_edges).has_edges() ==> final(res_edges).has_edges(),
            !adaptive ==> *final(res_edges) == *old(res_edges),
            adaptive ==> final(res_edges).follows_adaptation(
                *old(res_edges),
                r.spec_observed_min_freq(),
                r.spec_observed_max_freq(),
            ),
    {
        proof {
            use_type_invariant(&self);
        }
        let observed_min: u32 = measure_min_freq(
            &self.ffted_samples,
            res_edges.sample_rate(),
            res_edges.absolute_min_freq(),
        );
        let observed_max: u32 = measure_max_freq(
            &self.ffted_samples,
            res_edges.sample_rate(),
            res_edges.absolute_max_freq(),
        );
        if adaptive {
            res_edges.adapt_range(observed_min, observed_max);
        }
        AdaptedEdges {
            ffted_samples: self.ffted_samples,
            observed_min_freq: observed_min,
            observed_max_freq: observed_max,
        }
    }
}

impl AdaptedEdges {
    pub closed spec fn view(&self) -> Seq<u32> {
        self.ffted_samples@
    }

    pub closed spec fn spec_observed_min_freq(&self) -> u32 {
        self.observed_min_freq
    }

    pub closed spec fn spec_observed_max_freq(&self) -> u32 {
        self.observed_max_freq
    }

    #[verifier::type_invariant]
    spec fn type_inv(&self) -> bool {
        self.ffted_samples@.len() <= u32::MAX
    }

    /// Frequency of the lowest coefficient that holds any signal.
    pub fn observed_min_freq(&self) -> (r: u32)
        ensures
            r == self.spec_observed_min_freq(),
    {
        self.observed_min_freq
    }

    /// Frequency of the highest coefficient that holds any signal.
    pub fn observed_max_freq(&self) -> (r: u32)
        ensures
            r == self.spec_observed_max_freq(),
    {
        self.observed_max_freq
    }

    /// Gathers the magnitudes of the coefficients looked at into the bins
    /// between the edges, and records with each bin the width it spans.
    pub fn distribute_fft_to_fixed_bins(self, res_edges: &AdaptiveResultEdges) -> (r: FFTResultBins)
        requires
            res_edges.wf(),
            res_edges.has_edges(),
        ensures
            r@ == distributed_bins(self@, res_edges.edges(), res_edges.spec_sample_rate() as int),
    {
        proof {
            use_type_invariant(&self);
        }
        let bins = distribute_magnitudes(
            &self.ffted_samples,
            res_edges.placed_edges(),
            res_edges.sample_rate(),
        );
        FFTResultBins { bins }
    }
}

/// The frequency of coefficient `i` in millihertz, rounded down, held at the
/// top of the range where it would exceed it.
pub open spec fn coefficient_frequency(sample_rate: int, len: int, i: int) -> int {
    let exact = frequency_numerator(sample_rate, i) / len;
    if exact > u32::MAX {
        u32::MAX as int
    } else {
        exact
    }
}

/// Index of the lowest coefficient from `from` on, among those looked at, that
/// holds any signal; the number of coefficients looked at if none does.
pub open spec fn lowest_active(magnitudes: Seq<u32>, from: int) -> int
    decreases scanned(magnitudes.len() as int) - from,
{
    if from < 0 || from >= scanned(magnitudes.len() as int) {
        scanned(magnitudes.len() as int)
    } else if magnitudes[from] > 0 {
        from
    } else {
        lowest_active(magnitudes, from + 1)
    }
}

/// Index of the highest coefficient below `upto`, among those looked at, that
/// holds any signal; -1 if none does.
pub open spec fn highest_active(magnitudes: Seq<u32>, upto: int) -> int
    decreases upto,
{
    if upto <= 0 || upto > scanned(magnitudes.len() as int) {
        -1
    } else if magnitudes[upto - 1] > 0 {
        upto - 1
    } else {
        highest_active(magnitudes, upto - 1)
    }
}

/// The lower end of the band in which a spectrum holds signal: the frequency of
/// its lowest active coefficient, or `fallback` if the spectrum is silent.
pub open spec fn observed_min_freq(magnitudes: Seq<u32>, sample_rate: u32, fallback: u32) -> int {
    let lowest = lowest_active(magnitudes, 0);
    if lowest < scanned(magnitudes.len() as int) {
        coefficient_frequency(sample_rate as int, magnitudes.len() as int, lowest)
    } else {
        fallback as int
    }
}

/// The upper end of the band in which a spectrum holds signal: the frequency of
/// its highest active coefficient, or `fallback` if the spectrum is silent.
pub open spec fn observed_max_freq(magnitudes: Seq<u32>, sample_rate: u32, fallback: u32) -> int {
    let highest = highest_active(magnitudes, scanned(magnitudes.len() as int));
    if highest >= 0 {
        coefficient_frequency(sample_rate as int, magnitudes.len() as int, highest)
    } else {
        fallback as int
    }
}

/// Computes the frequency of coefficient `i`.
pub fn frequency_of_coefficient(sample_rate: u32, len: usize, i: usize) -> (f: u32)
    requires
        len > 0,
    ensures
        f == coefficient_frequency(sample_rate as int, len as int, i as int),
{
    assert(0 <= frequency_numerator(sample_rate as int, i as int) <= 0xffff_ffff_ffff_ffff
        * 0xffff_ffff * 1000) by (nonlinear_arith)
        requires
            0 <= i <= 0xffff_ffff_ffff_ffff,
            0 <= sample_rate <= 0xffff_ffff,
    ;
    let step: u128 = (i as u128) * (sample_rate as u128);
    let numerator: u128 = step * 1000;
    let exact: u128 = numerator / (len as u128);
    if exact > u32::MAX as u128 {
        u32::MAX
    } else {
        exact as u32
    }
}

/// Measures the lower end of the band in which a spectrum holds signal.
pub fn measure_min_freq(magnitudes: &Vec<u32>, sample_rate: u32, fallback: u32) -> (f: u32)
    ensures
        f == observed_min_freq(magnitudes@, sample_rate, fallback),
{
    let len: usize = magnitudes.len();
    let scan: usize = if len / 2 >= 1 {
        len / 2 - 1
    } else {
        0
    };
    let mut i: usize = 0;
    while i < scan
        invariant
            0 <= i <= scan,
            len == magnitudes@.len(),
            scan == scanned(len as int),
            lowest_active(magnitudes@, 0) == lowest_active(magnitudes@, i as int),
        decreases scan - i,
    {
        if magnitudes[i] > 0 {
            return frequency_of_coefficient(sample_rate, len, i);
        }
        i += 1;
    }
    fallback
}

/// Measures the upper end of the band in which a spectrum holds signal.
pub fn measure_max_freq(magnitudes: &Vec<u32>, sample_rate: u32, fallback: u32) -> (f: u32)
    ensures
        f == observed_max_freq(magnitudes@, sample_rate, fallback),
{
    let len: usize = magnitudes.len();
    let scan: usize = if len / 2 >= 1 {
        len / 2 - 1
    } else {
        0
    };
    let mut i: usize = scan;
    while i > 0
        invariant
            0 <= i <= scan,
            len == magnitudes@.len(),
            scan == scanned(len as int),
            highest_active(magnitudes@, scan as int) == highest_active(magnitudes@, i as int),
        decreases i,
    {
        if magnitudes[i - 1] > 0 {
            return frequency_of_coefficient(sample_rate, len, i - 1);
        }
        i -= 1;
    }
    fallback
}

/// Gathers the magnitudes of a spectrum into the bins between sorted `edges`.
/// Coefficient `i` of the `magnitudes.len()` coefficients has the frequency
/// `i * sample_rate / magnitudes.len()` hertz.
pub fn distribute_magnitudes(magnitudes: &Vec<u32>, edges: &Vec<u32>, sample_rate: u32) -> (bins: Vec<
    BinDensity,
>)
    requires
        magnitudes@.len() <= u32::MAX,
        edges@.len() >= 2,
        edges_sorted(edges@),
    ensures
        bins@ == distributed_bins(magnitudes@, edges@, sample_rate as int),
{
    let len: usize = magnitudes.len();
    let bin_count: usize = edges.len() - 1;
    let scan: usize = if len / 2 >= 1 {
        len / 2 - 1
    } else {
        0
    };
    let mut sums: Vec<u64> = Vec::new();
    let mut k: usize = 0;
    while k < bin_count
        invariant
            0 <= k <= bin_count,
            sums@.len() == k,
            forall|j: int| 0 <= j < k ==> sums@[j] == 0,
        decreases bin_count - k,
    {
        sums.push(0);
        k += 1;
    }
    let mut i: usize = 0;
    while i < scan
        invariant
            0 <= i <= scan,
            scan == scanned(len as int),
            len == magnitudes@.len(),
            len <= u32::MAX,
            bin_count == edges@.len() - 1,
            edges@.len() >= 2,
            edges_sorted(edges@),
            sums@.len() == bin_count,
            forall|j: int|
                0 <= j < bin_count ==> #[trigger] sums@[j] == bin_sum(
                    magnitudes@,
                    edges@,
                    sample_rate as int,
                    i as int,
                    j,
                ),
        decreases scan - i,
    {
        let bin: usize = coefficient_bin(edges, sample_rate, len, i);
        proof {
            lemma_bin_sum_bounds(magnitudes@, edges@, sample_rate as int, i as int + 1, bin as int);
            assert((i + 1) * 0xffff_ffff <= 0xffff_ffff * 0xffff_ffff) by (nonlinear_arith)
                requires
                    0 <= i + 1 <= 0xffff_ffff,
            ;
        }
        let ghost before = sums@;
        let sum: u64 = sums[bin] + magnitudes[i] as u64;
        sums.set(bin, sum);
        assert forall|j: int| 0 <= j < bin_count implies #[trigger] sums@[j] == bin_sum(
            magnitudes@,
            edges@,
            sample_rate as int,
            i as int + 1,
            j,
        ) by {
            assert(before[j] == bin_sum(magnitudes@, edges@, sample_rate as int, i as int, j));
        }
        i += 1;
    }
    let mut bins: Vec<BinDensity> = Vec::new();
    let mut k: usize = 0;
    while k < bin_count
        invariant
            0 <= k <= bin_count,
            bin_count == edges@.len() - 1,
            edges_sorted(edges@),
            sums@.len() == bin_count,
            bins@.len() == k,
            forall|j: int|
                0 <= j < bin_count ==> #[trigger] sums@[j] == bin_sum(
                    magnitudes@,
                    edges@,
                    sample_rate as int,
                    scanned(magnitudes@.len() as int),
                    j,
                ),
            forall|j: int|
                0 <= j < k ==> #[trigger] bins@[j] == distributed_bins(
                    magnitudes@,
                    edges@,
                    sample_rate as int,
                )[j],
        decreases bin_count - k,
    {
        assert(edges@[k as int] <= edges@[k as int + 1]);
        let width: u32 = edges[k + 1] - edges[k];
        bins.push(BinDensity { magnitude: sums[k], width });
        k += 1;
    }
    assert(bins@ =~= distributed_bins(magnitudes@, edges@, sample_rate as int));
    bins
}

impl FFTResultBins {
    pub closed spec fn view(&self) -> Seq<BinDensity> {
        self.bins@
    }

    /// Bins given as they are, one density each.
    pub fn new(bins: Vec<BinDensity>) -> (r: FFTResultBins)
        ensures
            r@ == bins@,
    {
        FFTResultBins { bins }
    }

    /// The densities, one per bin, the guard bins among them.
    pub fn bins(&self) -> (r: &Vec<BinDensity>)
        ensures
            r@ == self@,
    {
        &self.bins
    }

    /// Divides every bin's density by the density of the densest bin. The peak
    /// comes out at full scale; if all bins are silent, all stay zero.
    pub fn normalize_logarithmic_bins(self) -> (r: NormalizedFFTResultBins)
        ensures
            r@ == normalized_bins(self@),
    {
        NormalizedFFTResultBins { bins: normalize_densities(&self.bins) }
    }
}

/// The density order is transitive: a bin no denser than a second, which is no
/// denser than a third, is no denser than the third.
pub proof fn lemma_denser_transitive(a: BinDensity, b: BinDensity, c: BinDensity)
    requires
        !denser(a, b),
        !denser(b, c),
    ensures
        !denser(a, c),
{
    let wa = effective_width(a);
    let wb = effective_width(b);
    let wc = effective_width(c);
    let ma = a.magnitude as int;
    let mb = b.magnitude as int;
    let mc = c.magnitude as int;
    assert(ma * wc <= mc * wa) by (nonlinear_arith)
        requires
            ma * wb <= mb * wa,
            mb * wc <= mc * wb,
            wa > 0,
            wb > 0,
            wc > 0,
            ma >= 0,
            mb >= 0,
            mc >= 0,
    ;
}

/// None of the first `upto` bins is denser than the peak among them.
pub proof fn lemma_peak_is_densest(bins: Seq<BinDensity>, upto: int, k: int)
    requires
        0 <= k < upto <= bins.len(),
    ensures
        0 <= peak_index(bins, upto) < upto,
        !denser(bins[k], bins[peak_index(bins, upto)]),
    decreases upto,
{
    if upto > 1 {
        let before = peak_index(bins, upto - 1);
        if k < upto - 1 {
            lemma_peak_is_densest(bins, upto - 1, k);
            if denser(bins[upto - 1], bins[before]) {
                lemma_denser_transitive(bins[k], bins[before], bins[upto - 1]);
            }
        } else {
            lemma_peak_is_densest(bins, upto - 1, 0);
        }
    }
}

/// A normalised density never exceeds full scale when the peak is at least as
/// dense as the bin.
pub proof fn lemma_normalized_density_bounds(bin: BinDensity, peak: BinDensity)
    requires
        !denser(bin, peak),
    ensures
        0 <= normalized_density(bin, peak) <= FULL_SCALE,
{
    if peak.magnitude != 0 {
        let x = bin.magnitude * effective_width(peak);
        let y = peak.magnitude * effective_width(bin);
        assert(y > 0) by (nonlinear_arith)
            requires
                y == peak.magnitude * effective_width(bin),
                peak.magnitude > 0,
                effective_width(bin) > 0,
        ;
        assert(x >= 0) by (nonlinear_arith)
            requires
                x == bin.magnitude * effective_width(peak),
                bin.magnitude >= 0,
                effective_width(peak) > 0,
        ;
        assert(FULL_SCALE * bin.magnitude * effective_width(peak) == FULL_SCALE * x)
            by (nonlinear_arith)
            requires
                x == bin.magnitude * effective_width(peak),
        ;
        assert(0 <= (FULL_SCALE * x) / y <= FULL_SCALE) by (nonlinear_arith)
            requires
                0 <= x <= y,
                y > 0,
        ;
    }
}

/// Normalises densities against their peak.
pub fn normalize_densities(bins: &Vec<BinDensity>) -> (normalized: Vec<u32>)
    ensures
        normalized@ == normalized_bins(bins@),
{
    let n: usize = bins.len();
    let mut normalized: Vec<u32> = Vec::new();
    if n == 0 {
        assert(normalized@ =~= normalized_bins(bins@));
        return normalized;
    }
    let mut peak: usize = 0;
    let mut k: usize = 1;
    while k < n
        invariant
            1 <= k <= n,
            n == bins@.len(),
            peak == peak_index(bins@, k as int),
            0 <= peak < k,
        decreases n - k,
    {
        if is_denser(bins[k], bins[peak]) {
            peak = k;
        }
        k += 1;
    }
    let top: BinDensity = bins[peak];
    let mut k: usize = 0;
    while k < n
        invariant
            0 <= k <= n,
            n == bins@.len(),
            peak == peak_index(bins@, n as int),
            0 <= peak < n,
            top == bins@[peak as int],
            normalized@.len() == k,
            forall|j: int| 0 <= j < k ==> #[trigger] normalized@[j] == normalized_bins(bins@)[j],
        decreases n - k,
    {
        proof {
            lemma_peak_is_densest(bins@, n as int, k as int);
        }
        let value: u32 = normalize_density(bins[k], top);
        normalized.push(value);
        k += 1;
    }
    assert(normalized@ =~= normalized_bins(bins@));
    normalized
}

/// The width that a bin's magnitude is divided by.
pub fn divisor_width(bin: BinDensity) -> (w: u32)
    ensures
        w == effective_width(bin),
        w > 0,
{
    if bin.width == 0 {
        1000
    } else {
        bin.width
    }
}

/// Decides whether `a` is denser than `b`.
pub fn is_denser(a: BinDensity, b: BinDensity) -> (r: bool)
    ensures
        r == denser(a, b),
{
    let wa: u32 = divisor_width(a);
    let wb: u32 = divisor_width(b);
    assert(a.magnitude * wb <= 0xffff_ffff_ffff_ffff * 0xffff_ffff) by (nonlinear_arith)
        requires
            0 <= a.magnitude <= 0xffff_ffff_ffff_ffff,
            0 <= wb <= 0xffff_ffff,
    ;
    assert(b.magnitude * wa <= 0xffff_ffff_ffff_ffff * 0xffff_ffff) by (nonlinear_arith)
        requires
            0 <= b.magnitude <= 0xffff_ffff_ffff_ffff,
            0 <= wa <= 0xffff_ffff,
    ;
    (a.magnitude as u128) * (wb as u128) > (b.magnitude as u128) * (wa as u128)
}

/// The density of `bin` as a fraction of the density of `peak`, in millionths.
pub fn normalize_density(bin: BinDensity, peak: BinDensity) -> (value: u32)
    requires
        !denser(bin, peak),
    ensures
        value == normalized_density(bin, peak),
        value <= FULL_SCALE,
{
    if peak.magnitude == 0 {
        return 0;
    }
    let wb: u32 = divisor_width(bin);
    let wp: u32 = divisor_width(peak);
    proof {
        lemma_normalized_density_bounds(bin, peak);
    }
    assert(bin.magnitude * wp <= 0xffff_ffff_ffff_ffff * 0xffff_ffff) by (nonlinear_arith)
        requires
            0 <= bin.magnitude <= 0xffff_ffff_ffff_ffff,
            0 <= wp <= 0xffff_ffff,
    ;
    assert(0 < peak.magnitude * wb <= 0xffff_ffff_ffff_ffff * 0xffff_ffff) by (nonlinear_arith)
        requires
            0 < peak.magnitude <= 0xffff_ffff_ffff_ffff,
            0 < wb <= 0xffff_ffff,
    ;
    let share: u128 = (bin.magnitude as u128) * (wp as u128);
    let whole: u128 = (peak.magnitude as u128) * (wb as u128);
    assert(FULL_SCALE * share <= 1_000_000 * (0xffff_ffff_ffff_ffff * 0xffff_ffff)) by (nonlinear_arith)
        requires
            0 <= share <= 0xffff_ffff_ffff_ffff * 0xffff_ffff,
            FULL_SCALE == 1_000_000,
    ;
    assert(FULL_SCALE * bin.magnitude * effective_width(peak) == FULL_SCALE * share)
        by (nonlinear_arith)
        requires
            share == bin.magnitude * effective_width(peak),
    ;
    let scaled: u128 = (FULL_SCALE as u128) * share;
    let quotient: u128 = scaled / whole;
    quotient as u32
}

impl NormalizedFFTResultBins {
    pub closed spec fn view(&self) -> Seq<u32> {
        self.bins@
    }

    /// The normalised bins, the guard bins among them.
    pub fn bins(&self) -> (r: &Vec<u32>)
        ensures
            r@ == self@,
    {
        &self.bins
    }

    /// Drops the guard bin at either end and hands out the bins to show.
    pub fn output(self) -> (r: Vec<u32>)
        ensures
            r@ == without_guards(self@),
    {
        let n: usize = self.bins.len();
        let mut shown: Vec<u32> = Vec::new();
        if n < 2 {
            return shown;
        }
        let mut k: usize = 1;
        while k < n - 1
            invariant
                1 <= k <= n - 1,
                n == self.bins@.len(),
                shown@.len() == k - 1,
                forall|j: int| 0 <= j < k - 1 ==> #[trigger] shown@[j] == self.bins@[j + 1],
            decreases n - k,
        {
            shown.push(self.bins[k]);
            k += 1;
        }
        assert(shown@ =~= without_guards(self@));
        shown
    }
}

/// Runs the equalizer analysis: gathers samples into chunks and turns the
/// spectrum of each chunk into the bins that are shown.
pub struct AudioFrequalizer<T> {
    accumulator: SampleAccumulator<T>,
    res_edges: AdaptiveResultEdges,
    adaptive: bool,
    eq_bins: Vec<u32>,
}

impl<T> AudioFrequalizer<T> {
    /// The samples that wait for the next chunk to fill up.
    pub closed spec fn pending(&self) -> Seq<T> {
        self.accumulator.pending()
    }

    /// The bins of the chunk analysed last, in millionths of the peak; empty
    /// until a chunk has been analysed.
    pub closed spec fn bins(&self) -> Seq<u32> {
        self.eq_bins@
    }

    /// The edges that spectra are binned between.
    pub closed spec fn res_edges(&self) -> AdaptiveResultEdges {
        self.res_edges
    }

    /// Whether the band of the edges adapts to the spectra that are binned.
    pub closed spec fn is_adaptive(&self) -> bool {
        self.adaptive
    }

    /// Chunks have the size of one analysis pass and edges are in place.
    pub closed spec fn wf(&self) -> bool {
        &&& self.accumulator.wf()
        &&& self.accumulator.spec_chunk_size() == CHUNK_SIZE
        &&& self.res_edges.wf()
        &&& self.res_edges.has_edges()
    }

    /// An analysis over `num_bins` shown bins for a feed sampled at
    /// `sample_rate` hertz, between the geometric edges of the band from the
    /// floor to the ceiling frequency of the feed. There is no analysis where
    /// the band is too narrow for its bins. The band does not adapt unless it
    /// is told to.
    pub fn new(num_bins: usize, sample_rate: u32) -> (r: Option<Self>)
        ensures
            r is Some <==> geometric_band_fits(
                floor_frequency(sample_rate, CHUNK_SIZE),
                ceiling_frequency(sample_rate),
                num_bins as int,
            ),
            r is Some ==> {
                &&& r->0.wf()
                &&& !r->0.is_adaptive()
                &&& r->0.pending() == Seq::<T>::empty()
                &&& r->0.bins() == Seq::<u32>::empty()
                &&& is_geometric_placement(
                    r->0.res_edges().edges(),
                    floor_frequency(sample_rate, CHUNK_SIZE),
                    ceiling_frequency(sample_rate),
                    num_bins as int,
                )
                &&& r->0.res_edges().spec_num_bins() == num_bins
                &&& r->0.res_edges().spec_sample_rate() == sample_rate
                &&& r->0.res_edges().spec_current_min_freq() == floor_frequency(
                    sample_rate,
                    CHUNK_SIZE,
                )
                &&& r->0.res_edges().spec_current_max_freq() == ceiling_frequency(sample_rate)
            },
    {
        let mut res_edges = AdaptiveResultEdges::new(CHUNK_SIZE, num_bins, sample_rate);
        if !res_edges.create_log_bin_edges() {
            return None;
        }
        Some(
            AudioFrequalizer {
                accumulator: SampleAccumulator::new(CHUNK_SIZE),
                res_edges,
                adaptive: false,
                eq_bins: Vec::new(),
            },
        )
    }

    /// An analysis over `num_bins` shown bins for a feed sampled at
    /// `sample_rate` hertz, with `placed` as the bin edges. The edges must be a
    /// valid placement between the floor and the ceiling frequency of the
    /// feed; if they are not, there is no analysis.
    pub fn with_edges(num_bins: usize, sample_rate: u32, placed: Vec<u32>) -> (r: Option<Self>)
        ensures
            r is Some <==> valid_placement(
                placed@,
                num_bins as int,
                floor_frequency(sample_rate, CHUNK_SIZE),
                ceiling_frequency(sample_rate),
            ),
            r is Some ==> {
                &&& r->0.wf()
                &&& !r->0.is_adaptive()
                &&& r->0.pending() == Seq::<T>::empty()
                &&& r->0.bins() == Seq::<u32>::empty()
                &&& r->0.res_edges().edges() == placed@
                &&& r->0.res_edges().spec_num_bins() == num_bins
                &&& r->0.res_edges().spec_sample_rate() == sample_rate
            },
    {
        let mut res_edges = AdaptiveResultEdges::new(CHUNK_SIZE, num_bins, sample_rate);
        if !res_edges.place_edges(placed) {
            return None;
        }
        Some(
            AudioFrequalizer {
                accumulator: SampleAccumulator::new(CHUNK_SIZE),
                res_edges,
                adaptive: false,
                eq_bins: Vec::new(),
            },
        )
    }

    /// Switches the adaptation of the band on or off. An adaptive band moves
    /// towards the band in which the spectra hold signal, a tenth of the way
    /// with every spectrum.
    pub fn set_adaptive(&mut self, adaptive: bool)
        ensures
            final(self).is_adaptive() == adaptive,
            final(self).wf() == old(self).wf(),
            final(self).res_edges() == old(self).res_edges(),
            final(self).pending() == old(self).pending(),
            final(self).bins() == old(self).bins(),
    {
        self.adaptive = adaptive;
    }

    /// Whether the band adapts.
    pub fn adaptive(&self) -> (r: bool)
        ensures
            r == self.is_adaptive(),
    {
        self.adaptive
    }

    /// The edges that spectra are binned between.
    pub fn edges(&self) -> (r: &AdaptiveResultEdges)
        ensures
            *r == self.res_edges(),
    {
        &self.res_edges
    }

    /// Number of samples that wait for the next chunk.
    pub fn pending_len(&self) -> (r: usize)
        ensures
            r == self.pending().len(),
    {
        self.accumulator.pending_len()
    }

    /// The bins of the chunk analysed last.
    pub fn eq_bins(&self) -> (r: &Vec<u32>)
        ensures
            r@ == self.bins(),
    {
        &self.eq_bins
    }

    /// Takes in `samples` and releases every chunk that has filled up, oldest
    /// first, for transformation. Fewer samples than one chunk stay behind.
    pub fn frequalize(&mut self, samples: Vec<T>) -> (chunks: Vec<RawBuffer<T>>)
        requires
            old(self).wf(),
        ensures
            final(self).wf(),
            final(self).res_edges() == old(self).res_edges(),
            final(self).is_adaptive() == old(self).is_adaptive(),
            final(self).bins() == old(self).bins(),
            chunks@.len() == chunk_count(
                (old(self).pending() + samples@).len() as int,
                CHUNK_SIZE as int,
            ),
            forall|k: int|
                0 <= k < chunks@.len() ==> (#[trigger] chunks@[k])@ == chunk_of(
                    old(self).pending() + samples@,
                    CHUNK_SIZE as int,
                    k,
                ),
            final(self).pending() == leftover(old(self).pending() + samples@, CHUNK_SIZE as int),
            final(self).pending().len() < CHUNK_SIZE,
    {
        let released = self.accumulator.ingest(samples);
        let ghost all = released@;
        let mut chunks: Vec<RawBuffer<T>> = Vec::new();
        for chunk in it: released
            invariant
                it.seq() == all,
                chunks@.len() == it.index(),
                forall|j: int| 0 <= j < chunks@.len() ==> (#[trigger] chunks@[j])@ == all[j]@,
        {
            chunks.push(RawBuffer::new(chunk));
        }
        chunks
    }

    /// How the analysis stands after `spectrum` has been binned: the edges have
    /// adapted if they are adaptive and can adapt, the bins are those of the
    /// spectrum between the edges as they are now, and nothing else has
    /// changed.
    pub open spec fn is_binned_from(&self, before: Self, spectrum: Seq<u32>) -> bool {
        &&& self.bins() == equalizer_bins(
            spectrum,
            self.res_edges().edges(),
            self.res_edges().spec_sample_rate() as int,
        )
        &&& !before.is_adaptive() ==> self.res_edges() == before.res_edges()
        &&& before.is_adaptive() ==> self.res_edges().follows_adaptation(
            before.res_edges(),
            observed_min_freq(
                spectrum,
                before.res_edges().spec_sample_rate(),
                before.res_edges().spec_absolute_min_freq(),
            ) as u32,
            observed_max_freq(
                spectrum,
                before.res_edges().spec_sample_rate(),
                before.res_edges().spec_absolute_max_freq(),
            ) as u32,
        )
        &&& self.is_adaptive() == before.is_adaptive()
        &&& self.pending() == before.pending()
    }

    /// Turns the spectrum of a chunk into the bins that are shown: gathers the
    /// magnitudes into the bins between the edges, normalises them against
    /// their peak and drops the guard bins. Adaptive edges first move towards
    /// the band in which the spectrum holds signal.
    pub fn bin_spectrum(&mut self, spectrum: FFTOverSamples)
        requires
            old(self).wf(),
        ensures
            final(self).wf(),
            final(self).is_binned_from(*old(self), spectrum@),
            final(self).bins().len() == old(self).res_edges().spec_num_bins(),
    {
        let adaptive = self.adaptive;
        let adapted_edges = spectrum.adapt_edges(&mut self.res_edges, adaptive);
        let fft_result_bins = adapted_edges.distribute_fft_to_fixed_bins(&self.res_edges);
        let normalized_fft_result_bins = fft_result_bins.normalize_logarithmic_bins();
        self.eq_bins = normalized_fft_result_bins.output();
    }
}

/// As many bins are shown as were asked for, whatever the spectrum and the
/// sample rate.
pub proof fn lemma_equalizer_bins_len(magnitudes: Seq<u32>, edges: Seq<u32>, sample_rate: int, num_bins: int)
    requires
        edges.len() == num_bins + 3,
        num_bins >= 0,
    ensures
        equalizer_bins(magnitudes, edges, sample_rate).len() == num_bins,
{
}

/// Binning has no memory: a spectrum binned a second time between the same
/// edges gives the bins it gave the first time. Edges that adapt are not the
/// same the second time; their band is state that the analysis keeps in the
/// open.
pub proof fn lemma_binning_is_repeatable<T>(
    start: AudioFrequalizer<T>,
    once: AudioFrequalizer<T>,
    twice: AudioFrequalizer<T>,
    spectrum: Seq<u32>,
)
    requires
        !start.is_adaptive(),
        once.is_binned_from(start, spectrum),
        twice.is_binned_from(once, spectrum),
    ensures
        twice.bins() == once.bins(),
        twice.res_edges() == start.res_edges(),
{
}

/// A bin has gathered at least the magnitude of any coefficient that fell in it.
pub proof fn lemma_bin_sum_holds_coefficient(
    magnitudes: Seq<u32>,
    edges: Seq<u32>,
    sample_rate: int,
    upto: int,
    i: int,
)
    requires
        0 <= i < upto <= magnitudes.len(),
    ensures
        bin_sum(
            magnitudes,
            edges,
            sample_rate,
            upto,
            bin_index(edges, sample_rate, magnitudes.len() as int, i),
        ) >= magnitudes[i],
    decreases upto,
{
    let k = bin_index(edges, sample_rate, magnitudes.len() as int, i);
    lemma_bin_sum_bounds(magnitudes, edges, sample_rate, upto - 1, k);
    if i < upto - 1 {
        lemma_bin_sum_holds_coefficient(magnitudes, edges, sample_rate, upto - 1, i);
    }
}

/// A bin that no coefficient with signal fell in has gathered nothing.
pub proof fn lemma_silent_bin_sum(magnitudes: Seq<u32>, edges: Seq<u32>, sample_rate: int, upto: int, k: int)
    requires
        0 <= upto <= magnitudes.len(),
        forall|i: int| 0 <= i < upto ==> magnitudes[i] == 0,
    ensures
        bin_sum(magnitudes, edges, sample_rate, upto, k) == 0,
    decreases upto,
{
    if upto > 0 {
        lemma_silent_bin_sum(magnitudes, edges, sample_rate, upto - 1, k);
    }
}

/// Whether none of the coefficients looked at holds any signal.
pub open spec fn is_silent(magnitudes: Seq<u32>) -> bool {
    forall|i: int| 0 <= i < scanned(magnitudes.len() as int) ==> magnitudes[i] == 0
}

/// Bins of which one holds any magnitude have their peak at full scale after
/// normalisation, and no bin above it.
pub proof fn lemma_peak_at_full_scale(bins: Seq<BinDensity>, active: int)
    requires
        0 <= active < bins.len(),
        bins[active].magnitude > 0,
    ensures
        0 <= peak_index(bins, bins.len() as int) < bins.len(),
        normalized_bins(bins)[peak_index(bins, bins.len() as int)] == FULL_SCALE,
        forall|k: int| 0 <= k < bins.len() ==> #[trigger] normalized_bins(bins)[k] <= FULL_SCALE,
{
    let n = bins.len() as int;
    let p = peak_index(bins, n);
    lemma_peak_is_densest(bins, n, active);
    let peak = bins[p];
    assert(peak.magnitude > 0) by (nonlinear_arith)
        requires
            bins[active].magnitude * effective_width(peak) <= peak.magnitude * effective_width(
                bins[active],
            ),
            bins[active].magnitude > 0,
            effective_width(peak) > 0,
            effective_width(bins[active]) > 0,
            peak.magnitude >= 0,
    ;
    let whole = peak.magnitude * effective_width(peak);
    assert(whole > 0) by (nonlinear_arith)
        requires
            whole == peak.magnitude * effective_width(peak),
            peak.magnitude > 0,
            effective_width(peak) > 0,
    ;
    assert(FULL_SCALE * peak.magnitude * effective_width(peak) == FULL_SCALE * whole)
        by (nonlinear_arith)
        requires
            whole == peak.magnitude * effective_width(peak),
    ;
    assert((FULL_SCALE * whole) / whole == FULL_SCALE) by (nonlinear_arith)
        requires
            whole > 0,
    ;
    assert(normalized_density(peak, peak) == FULL_SCALE);
    assert forall|k: int| 0 <= k < bins.len() implies #[trigger] normalized_bins(bins)[k]
        <= FULL_SCALE by {
        lemma_peak_is_densest(bins, n, k);
        lemma_normalized_density_bounds(bins[k], peak);
    }
}

/// Bins that hold no magnitude at all stay at zero after normalisation.
pub proof fn lemma_silent_bins_stay_zero(bins: Seq<BinDensity>)
    requires
        forall|k: int| 0 <= k < bins.len() ==> (#[trigger] bins[k]).magnitude == 0,
    ensures
        forall|k: int| 0 <= k < bins.len() ==> #[trigger] normalized_bins(bins)[k] == 0,
{
    let n = bins.len() as int;
    if n > 0 {
        lemma_peak_is_densest(bins, n, 0);
        assert(bins[peak_index(bins, n)].magnitude == 0);
    }
}

/// A spectrum with signal in any coefficient looked at comes out with its
/// densest bin at full scale, the guard bins counted in, and no bin above full
/// scale.
pub proof fn lemma_nonsilent_spectrum_peaks(magnitudes: Seq<u32>, edges: Seq<u32>, sample_rate: int)
    requires
        magnitudes.len() <= u32::MAX,
        edges.len() >= 2,
        edges_sorted(edges),
        !is_silent(magnitudes),
    ensures
        ({
            let normalized = normalized_bins(distributed_bins(magnitudes, edges, sample_rate));
            &&& exists|k: int| 0 <= k < normalized.len() && #[trigger] normalized[k] == FULL_SCALE
            &&& forall|k: int| 0 <= k < normalized.len() ==> #[trigger] normalized[k] <= FULL_SCALE
        }),
{
    let len = magnitudes.len() as int;
    let scan = scanned(len);
    let i = choose|i: int| 0 <= i < scan && magnitudes[i] != 0;
    let bins = distributed_bins(magnitudes, edges, sample_rate);
    lemma_bin_index_encloses(edges, sample_rate, len, i);
    let b = bin_index(edges, sample_rate, len, i);
    lemma_bin_sum_holds_coefficient(magnitudes, edges, sample_rate, scan, i);
    lemma_bin_sum_bounds(magnitudes, edges, sample_rate, scan, b);
    assert(scan * 0xffff_ffff <= 0xffff_ffff * 0xffff_ffff) by (nonlinear_arith)
        requires
            0 <= scan <= 0xffff_ffff,
    ;
    assert(bins[b].magnitude > 0);
    lemma_peak_at_full_scale(bins, b);
    let normalized = normalized_bins(bins);
    let p = peak_index(bins, bins.len() as int);
    assert(0 <= p < normalized.len() && normalized[p] == FULL_SCALE);
}

/// Where the densest bin is one of the bins shown, one of the bins shown is at
/// full scale. Where it is a guard bin, the bins shown may all lie below.
pub proof fn lemma_shown_peak_at_full_scale(bins: Seq<BinDensity>)
    requires
        0 < peak_index(bins, bins.len() as int) < bins.len() - 1,
        bins[peak_index(bins, bins.len() as int)].magnitude > 0,
    ensures
        ({
            let shown = without_guards(normalized_bins(bins));
            &&& shown.len() == bins.len() - 2
            &&& shown[peak_index(bins, bins.len() as int) - 1] == FULL_SCALE
            &&& forall|k: int| 0 <= k < shown.len() ==> #[trigger] shown[k] <= FULL_SCALE
        }),
{
    let p = peak_index(bins, bins.len() as int);
    lemma_peak_at_full_scale(bins, p);
    let normalized = normalized_bins(bins);
    let shown = without_guards(normalized);
    assert forall|k: int| 0 <= k < shown.len() implies #[trigger] shown[k] <= FULL_SCALE by {
        assert(shown[k] == normalized[k + 1]);
    }
    assert(shown[p - 1] == normalized[p]);
}

/// A spectrum without signal in the coefficients looked at shows nothing.
pub proof fn lemma_silent_spectrum_shows_nothing(magnitudes: Seq<u32>, edges: Seq<u32>, sample_rate: int)
    requires
        edges.len() >= 2,
        is_silent(magnitudes),
    ensures
        forall|k: int|
            0 <= k < equalizer_bins(magnitudes, edges, sample_rate).len() ==> #[trigger] equalizer_bins(
                magnitudes,
                edges,
                sample_rate,
            )[k] == 0,
{
    let bins = distributed_bins(magnitudes, edges, sample_rate);
    let scan = scanned(magnitudes.len() as int);
    assert forall|k: int| 0 <= k < bins.len() implies (#[trigger] bins[k]).magnitude == 0 by {
        lemma_silent_bin_sum(magnitudes, edges, sample_rate, scan, k);
    }
    lemma_silent_bins_stay_zero(bins);
    let normalized = normalized_bins(bins);
    assert forall|k: int|
        0 <= k < equalizer_bins(magnitudes, edges, sample_rate).len() implies #[trigger] equalizer_bins(
        magnitudes,
        edges,
        sample_rate,
    )[k] == 0 by {
        assert(equalizer_bins(magnitudes, edges, sample_rate)[k] == normalized[k + 1]);
    }
}

} // verus!
