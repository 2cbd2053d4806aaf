//! The frequency edges of the equalizer bins: the band they lie in, their
//! geometric placement within the band, and the adaptation of the band to
//! the signal.
//!
//! Edges are whole numbers of millihertz. The geometric edges of a band are
//! the exact ones rounded down: edge `i` of `n + 1` is the largest whole number
//! whose `n`-th power does not exceed `floor^(n - i) * ceiling^i`.

use vstd::prelude::*;
use crate::big_nat::BigNat;
use crate::big_nat::lemma_power_adds;
use crate::big_nat::lemma_power_increases;
use crate::big_nat::lemma_power_nonnegative;
use crate::big_nat::lemma_power_strictly_increases;
use crate::big_nat::power;
use crate::big_nat::power_of;

verus! {

/// Lowest frequency that bin edges may be placed at, in millihertz.
pub const ABSOLUTE_MIN_FREQ: u32 = 30_000;

/// Highest frequency that bin edges may be placed at, in millihertz.
pub const ABSOLUTE_MAX_FREQ: u32 = 18_000_000;

/// The lowest frequency worth a bin: the resolution of a transform over
/// `num_samples` samples, but never less than the absolute minimum. A value
/// beyond the range of the type saturates; an empty transform resolves nothing.
pub open spec fn floor_frequency(sample_rate: u32, num_samples: usize) -> int {
    if num_samples == 0 {
        u32::MAX as int
    } else {
        let resolution = (sample_rate as int * 1000) / (num_samples as int);
        if resolution > u32::MAX {
            u32::MAX as int
        } else if resolution < ABSOLUTE_MIN_FREQ {
            ABSOLUTE_MIN_FREQ as int
        } else {
            resolution
        }
    }
}

/// The highest frequency worth a bin: the Nyquist frequency, but never more
/// than the absolute maximum.
pub open spec fn ceiling_frequency(sample_rate: u32) -> int {
    let nyquist = sample_rate as int * 1000 / 2;
    if nyquist < ABSOLUTE_MAX_FREQ {
        nyquist
    } else {
        ABSOLUTE_MAX_FREQ as int
    }
}

/// Edges that never step down.
pub open spec fn edges_sorted(edges: Seq<u32>) -> bool {
    forall|i: int, j: int| 0 <= i <= j < edges.len() ==> edges[i] <= edges[j]
}

/// Edges that step up every time.
pub open spec fn edges_strictly_increasing(edges: Seq<u32>) -> bool {
    forall|i: int, j: int| 0 <= i < j < edges.len() ==> edges[i] < edges[j]
}

/// What a set of edges must satisfy to serve `num_bins` displayed bins between
/// `floor` and `ceiling`: one edge more than there are bins, the two guard bins
/// counted in, strictly increasing, and within the two bounds.
pub open spec fn valid_placement(edges: Seq<u32>, num_bins: int, floor: int, ceiling: int) -> bool {
    &&& edges.len() == num_bins + 3
    &&& edges_strictly_increasing(edges)
    &&& edges[0] >= floor
    &&& edges[edges.len() - 1] <= ceiling
}

/// The frequency edges of the bins that a spectrum is gathered into, together
/// with the band they were placed in. Every edge is a frequency in millihertz.
pub struct AdaptiveResultEdges {
    edges: Vec<u32>,
    num_bins: usize,
    sample_rate: u32,
    absolute_min_freq: u32,
    absolute_max_freq: u32,
    current_min_freq: u32,
    current_max_freq: u32,
}

impl AdaptiveResultEdges {
    pub closed spec fn edges(&self) -> Seq<u32> {
        self.edges@
    }

    pub closed spec fn spec_num_bins(&self) -> usize {
        self.num_bins
    }

    pub closed spec fn spec_sample_rate(&self) -> u32 {
        self.sample_rate
    }

    pub closed spec fn spec_absolute_min_freq(&self) -> u32 {
        self.absolute_min_freq
    }

    pub closed spec fn spec_absolute_max_freq(&self) -> u32 {
        self.absolute_max_freq
    }

    pub closed spec fn spec_current_min_freq(&self) -> u32 {
        self.current_min_freq
    }

    pub closed spec fn spec_current_max_freq(&self) -> u32 {
        self.current_max_freq
    }

    /// Whether edges have been placed.
    pub open spec fn has_edges(&self) -> bool {
        self.edges().len() > 0
    }

    /// The band lies within the absolute bounds, and edges, once placed, are a
    /// valid placement for the band.
    pub open spec fn wf(&self) -> bool {
        &&& self.spec_absolute_min_freq() <= self.spec_current_min_freq()
        &&& self.spec_current_max_freq() <= self.spec_absolute_max_freq()
        &&& self.has_edges() ==> valid_placement(
            self.edges(),
            self.spec_num_bins() as int,
            self.spec_current_min_freq() as int,
            self.spec_current_max_freq() as int,
        )
    }

    /// The band for a transform over `num_samples` samples taken at
    /// `sample_rate` hertz, with no edges placed yet.
    pub fn new(num_samples: usize, num_bins: usize, sample_rate: u32) -> (r: AdaptiveResultEdges)
        ensures
            r.wf(),
            !r.has_edges(),
            r.spec_num_bins() == num_bins,
            r.spec_sample_rate() == sample_rate,
            r.spec_absolute_min_freq() == floor_frequency(sample_rate, num_samples),
            r.spec_absolute_max_freq() == ceiling_frequency(sample_rate),
            r.spec_current_min_freq() == floor_frequency(sample_rate, num_samples),
            r.spec_current_max_freq() == ceiling_frequency(sample_rate),
    {
        let scaled: u64 = sample_rate as u64 * 1000;
        let min_freq: u32 = if num_samples == 0 {
            u32::MAX
        } else {
            let resolution: u64 = scaled / (num_samples as u64);
            if resolution > u32::MAX as u64 {
                u32::MAX
            } else if resolution < ABSOLUTE_MIN_FREQ as u64 {
                ABSOLUTE_MIN_FREQ
            } else {
                resolution as u32
            }
        };
        let nyquist: u64 = scaled / 2;
        let max_freq: u32 = if nyquist < ABSOLUTE_MAX_FREQ as u64 {
            nyquist as u32
        } else {
            ABSOLUTE_MAX_FREQ
        };
        AdaptiveResultEdges {
            edges: Vec::new(),
            num_bins,
            sample_rate,
            absolute_min_freq: min_freq,
            absolute_max_freq: max_freq,
            current_min_freq: min_freq,
            current_max_freq: max_freq,
        }
    }

    pub fn num_bins(&self) -> (r: usize)
        ensures
            r == self.spec_num_bins(),
    {
        self.num_bins
    }

    pub fn sample_rate(&self) -> (r: u32)
        ensures
            r == self.spec_sample_rate(),
    {
        self.sample_rate
    }

    pub fn absolute_min_freq(&self) -> (r: u32)
        ensures
            r == self.spec_absolute_min_freq(),
    {
        self.absolute_min_freq
    }

    pub fn absolute_max_freq(&self) -> (r: u32)
        ensures
            r == self.spec_absolute_max_freq(),
    {
        self.absolute_max_freq
    }

    pub fn current_min_freq(&self) -> (r: u32)
        ensures
            r == self.spec_current_min_freq(),
    {
        self.current_min_freq
    }

    pub fn current_max_freq(&self) -> (r: u32)
        ensures
            r == self.spec_current_max_freq(),
    {
        self.current_max_freq
    }

    /// The edges placed so far; empty before the first placement.
    pub fn placed_edges(&self) -> (r: &Vec<u32>)
        ensures
            r@ == self.edges(),
    {
        &self.edges
    }

    /// Number of edges that a placement for this band must have.
    pub fn num_edges(&self) -> (r: Option<usize>)
        ensures
            r is Some <==> self.spec_num_bins() + 3 <= usize::MAX,
            r is Some ==> r->0 == self.spec_num_bins() + 3,
    {
        self.num_bins.checked_add(3)
    }

    /// Takes over `placed` as the bin edges if they are a valid placement for
    /// the band, and says whether they were. Edges that are refused leave the
    /// earlier ones in place.
    pub fn place_edges(&mut self, placed: Vec<u32>) -> (accepted: bool)
        requires
            old(self).wf(),
        ensures
            final(self).wf(),
            accepted == valid_placement(
                placed@,
                old(self).spec_num_bins() as int,
                old(self).spec_current_min_freq() as int,
                old(self).spec_current_max_freq() as int,
            ),
            final(self).edges() == (if accepted { placed@ } else { old(self).edges() }),
            final(self).spec_num_bins() == old(self).spec_num_bins(),
            final(self).spec_sample_rate() == old(self).spec_sample_rate(),
            final(self).spec_absolute_min_freq() == old(self).spec_absolute_min_freq(),
            final(self).spec_absolute_max_freq() == old(self).spec_absolute_max_freq(),
            final(self).spec_current_min_freq() == old(self).spec_current_min_freq(),
            final(self).spec_current_max_freq() == old(self).spec_current_max_freq(),
    {
        if is_valid_placement(&placed, self.num_bins, self.current_min_freq, self.current_max_freq) {
            self.edges = placed;
            true
        } else {
            false
        }
    }
}

/// Whether `edge` is edge `i` of the `steps + 1` edges that divide the band from
/// `floor` to `ceiling` into `steps` bins of equal ratio: the largest whole
/// number of millihertz that does not exceed `floor` times the `i`-th power of
/// the `steps`-th root of `ceiling / floor`. The comparison is made between
/// the `steps`-th powers, where it is exact.
pub open spec fn is_geometric_edge(edge: int, floor: int, ceiling: int, steps: nat, i: nat) -> bool {
    power(edge, steps) <= power(floor, (steps - i) as nat) * power(ceiling, i) < power(
        edge + 1,
        steps,
    )
}

/// Whether `edges` divide the band from `floor` to `ceiling` into `num_bins`
/// shown bins and two guard bins of equal ratio.
pub open spec fn is_geometric_placement(edges: Seq<u32>, floor: int, ceiling: int, num_bins: int) -> bool {
    &&& edges.len() == num_bins + 3
    &&& forall|i: int|
        0 <= i < edges.len() ==> is_geometric_edge(
            #[trigger] edges[i] as int,
            floor,
            ceiling,
            (num_bins + 2) as nat,
            i as nat,
        )
}

/// The product that a geometric edge is the root of lies between the powers
/// of the floor and of the ceiling.
pub proof fn lemma_geometric_target_bounds(floor: int, ceiling: int, steps: nat, i: nat)
    requires
        0 <= floor <= ceiling,
        i <= steps,
    ensures
        power(floor, steps) <= power(floor, (steps - i) as nat) * power(ceiling, i) <= power(
            ceiling,
            steps,
        ),
{
    let rest = (steps - i) as nat;
    lemma_power_adds(floor, rest, i);
    lemma_power_adds(ceiling, rest, i);
    lemma_power_increases(floor, ceiling, i);
    lemma_power_increases(floor, ceiling, rest);
    lemma_power_nonnegative(floor, rest);
    lemma_power_nonnegative(floor, i);
    assert(power(floor, rest) * power(floor, i) <= power(floor, rest) * power(ceiling, i))
        by (nonlinear_arith)
        requires
            0 <= power(floor, rest),
            power(floor, i) <= power(ceiling, i),
    ;
    assert(power(floor, rest) * power(ceiling, i) <= power(ceiling, rest) * power(ceiling, i))
        by (nonlinear_arith)
        requires
            0 <= power(floor, rest) <= power(ceiling, rest),
            0 <= power(floor, i) <= power(ceiling, i),
    ;
}

/// There is one geometric edge for every position.
pub proof fn lemma_geometric_edge_unique(
    first: int,
    second: int,
    floor: int,
    ceiling: int,
    steps: nat,
    i: nat,
)
    requires
        0 <= first,
        0 <= second,
        steps > 0,
        is_geometric_edge(first, floor, ceiling, steps, i),
        is_geometric_edge(second, floor, ceiling, steps, i),
    ensures
        first == second,
{
    if first < second {
        lemma_power_increases(first + 1, second, steps);
    } else if second < first {
        lemma_power_increases(second + 1, first, steps);
    }
}

/// The geometric edges start at the floor and end at the ceiling.
pub proof fn lemma_geometric_ends(edge: int, floor: int, ceiling: int, steps: nat, i: nat)
    requires
        0 <= edge,
        0 <= floor <= ceiling,
        steps > 0,
        i <= steps,
        is_geometric_edge(edge, floor, ceiling, steps, i),
    ensures
        i == 0 ==> edge == floor,
        i == steps ==> edge == ceiling,
        floor <= edge <= ceiling,
{
    lemma_geometric_target_bounds(floor, ceiling, steps, i);
    if edge < floor {
        lemma_power_increases(edge + 1, floor, steps);
    }
    if edge > ceiling {
        lemma_power_strictly_increases(ceiling, edge, steps);
    }
    if i == 0 {
        assert(power(floor, steps) * power(ceiling, 0) == power(floor, steps)) by (nonlinear_arith)
            requires
                power(ceiling, 0) == 1,
        ;
        if edge > floor {
            lemma_power_strictly_increases(floor, edge, steps);
        }
    }
    if i == steps {
        assert(power(floor, 0) * power(ceiling, steps) == power(ceiling, steps))
            by (nonlinear_arith)
            requires
                power(floor, 0) == 1,
        ;
        if edge < ceiling {
            lemma_power_increases(edge + 1, ceiling, steps);
        }
    }
}

/// Computes edge `i` of the `steps + 1` geometric edges of a band.
pub fn geometric_edge(floor: u32, ceiling: u32, steps: usize, i: usize) -> (edge: u32)
    requires
        floor <= ceiling,
        0 < steps,
        i <= steps,
    ensures
        is_geometric_edge(edge as int, floor as int, ceiling as int, steps as nat, i as nat),
        floor <= edge <= ceiling,
{
    let ghost wanted = power(floor as int, (steps - i) as nat) * power(ceiling as int, i as nat);
    let mut target: BigNat = power_of(floor, steps - i);
    let mut k: usize = 0;
    while k < i
        invariant
            0 <= k <= i,
            target@ == power(floor as int, (steps - i) as nat) * power(ceiling as int, k as nat),
        decreases i - k,
    {
        proof {
            let base = power(floor as int, (steps - i) as nat);
            let sofar = power(ceiling as int, k as nat);
            assert((base * sofar) * ceiling == base * (ceiling * sofar)) by (nonlinear_arith);
        }
        target = target.mul_small(ceiling);
        k += 1;
    }
    proof {
        lemma_geometric_target_bounds(floor as int, ceiling as int, steps as nat, i as nat);
        lemma_power_strictly_increases(ceiling as int, ceiling + 1, steps as nat);
    }
    let mut low: u32 = floor;
    let mut high: u32 = ceiling;
    while low < high
        invariant
            floor <= low <= high <= ceiling,
            0 < steps,
            target@ == wanted,
            power(low as int, steps as nat) <= wanted < power(high + 1, steps as nat),
        decreases high - low,
    {
        let mid: u32 = low + (high - low - 1) / 2 + 1;
        let candidate = power_of(mid, steps);
        if candidate.le(&target) {
            low = mid;
        } else {
            high = mid - 1;
        }
    }
    low
}

/// Computes the geometric edges of a band for `num_bins` shown bins and two
/// guard bins. There are none for a band whose floor lies above its ceiling,
/// nor for more bins than can be counted.
pub fn geometric_edges(floor: u32, ceiling: u32, num_bins: usize) -> (r: Option<Vec<u32>>)
    ensures
        r is Some <==> floor <= ceiling && num_bins + 3 <= usize::MAX,
        r is Some ==> is_geometric_placement(r->0@, floor as int, ceiling as int, num_bins as int),
{
    if floor > ceiling || num_bins > usize::MAX - 3 {
        return None;
    }
    let steps: usize = num_bins + 2;
    let mut edges: Vec<u32> = Vec::new();
    let mut i: usize = 0;
    while i <= steps
        invariant
            0 <= i <= steps + 1,
            steps == num_bins + 2,
            steps < usize::MAX,
            floor <= ceiling,
            edges@.len() == i,
            forall|j: int|
                0 <= j < i ==> is_geometric_edge(
                    #[trigger] edges@[j] as int,
                    floor as int,
                    ceiling as int,
                    steps as nat,
                    j as nat,
                ),
        decreases steps + 1 - i,
    {
        let edge = geometric_edge(floor, ceiling, steps, i);
        edges.push(edge);
        i += 1;
    }
    Some(edges)
}

/// Two geometric placements of the same band are the same.
pub proof fn lemma_geometric_placement_unique(
    first: Seq<u32>,
    second: Seq<u32>,
    floor: int,
    ceiling: int,
    num_bins: int,
)
    requires
        num_bins >= 0,
        is_geometric_placement(first, floor, ceiling, num_bins),
        is_geometric_placement(second, floor, ceiling, num_bins),
    ensures
        first == second,
{
    assert forall|i: int| 0 <= i < first.len() implies first[i] == second[i] by {
        lemma_geometric_edge_unique(
            first[i] as int,
            second[i] as int,
            floor,
            ceiling,
            (num_bins + 2) as nat,
            i as nat,
        );
    }
    assert(first =~= second);
}

/// Geometric edges start at the floor of their band, end at its ceiling and
/// never step down.
pub proof fn lemma_geometric_placement_spans_band(edges: Seq<u32>, floor: int, ceiling: int, num_bins: int)
    requires
        num_bins >= 0,
        0 <= floor <= ceiling,
        is_geometric_placement(edges, floor, ceiling, num_bins),
    ensures
        edges[0] == floor,
        edges[edges.len() - 1] == ceiling,
        edges_sorted(edges),
{
    let steps = (num_bins + 2) as nat;
    lemma_geometric_ends(edges[0] as int, floor, ceiling, steps, 0);
    lemma_geometric_ends(edges[edges.len() - 1] as int, floor, ceiling, steps, steps);
    assert forall|i: int, j: int| 0 <= i <= j < edges.len() implies edges[i] <= edges[j] by {
        if edges[i] > edges[j] {
            lemma_geometric_targets_increase(floor, ceiling, steps, i as nat, j as nat);
            lemma_power_increases(edges[j] + 1, edges[i] as int, steps);
        }
    }
}

/// The product that a geometric edge is the root of grows with the position
/// of the edge.
pub proof fn lemma_geometric_targets_increase(floor: int, ceiling: int, steps: nat, i: nat, j: nat)
    requires
        0 <= floor <= ceiling,
        i <= j <= steps,
    ensures
        power(floor, (steps - i) as nat) * power(ceiling, i) <= power(floor, (steps - j) as nat)
            * power(ceiling, j),
{
    let d = (j - i) as nat;
    let rest = (steps - j) as nat;
    lemma_power_adds(floor, rest, d);
    lemma_power_adds(ceiling, d, i);
    lemma_power_increases(floor, ceiling, d);
    lemma_power_nonnegative(floor, rest);
    lemma_power_nonnegative(floor, d);
    lemma_power_nonnegative(ceiling, i);
    assert(rest + d == steps - i);
    assert(d + i == j);
    assert((power(floor, rest) * power(floor, d)) * power(ceiling, i) <= power(floor, rest) * (
    power(ceiling, d) * power(ceiling, i))) by (nonlinear_arith)
        requires
            0 <= power(floor, rest),
            0 <= power(floor, d) <= power(ceiling, d),
            0 <= power(ceiling, i),
    ;
}

/// Where one end of the band lies after it has moved a tenth of the way from
/// `current` towards `observed`, held within `lowest` and `highest`.
pub open spec fn adapted_bound(current: u32, observed: u32, lowest: u32, highest: u32) -> int {
    let moved = if observed >= current {
        current + (observed - current) / 10
    } else {
        current - (current - observed) / 10
    };
    if moved < lowest {
        lowest as int
    } else if moved > highest {
        highest as int
    } else {
        moved
    }
}

/// Whether the geometric edges of a band are a valid placement: the floor does
/// not lie above the ceiling, the edges can be counted, and they step up every
/// time. A band too narrow for its bins has none.
pub open spec fn geometric_band_fits(floor: int, ceiling: int, num_bins: int) -> bool {
    &&& floor <= ceiling
    &&& num_bins + 3 <= usize::MAX
    &&& forall|edges: Seq<u32>| #[trigger]
        is_geometric_placement(edges, floor, ceiling, num_bins) ==> edges_strictly_increasing(edges)
}

impl AdaptiveResultEdges {
    /// Places the geometric edges of the current band, if they are a valid
    /// placement, and says whether they were. A band that has none keeps the
    /// edges it had.
    pub fn create_log_bin_edges(&mut self) -> (accepted: bool)
        requires
            old(self).wf(),
        ensures
            final(self).wf(),
            accepted == geometric_band_fits(
                old(self).spec_current_min_freq() as int,
                old(self).spec_current_max_freq() as int,
                old(self).spec_num_bins() as int,
            ),
            accepted ==> final(self).has_edges() && is_geometric_placement(
                final(self).edges(),
                old(self).spec_current_min_freq() as int,
                old(self).spec_current_max_freq() as int,
                old(self).spec_num_bins() as int,
            ),
            !accepted ==> final(self).edges() == old(self).edges(),
            final(self).spec_num_bins() == old(self).spec_num_bins(),
            final(self).spec_sample_rate() == old(self).spec_sample_rate(),
            final(self).spec_absolute_min_freq() == old(self).spec_absolute_min_freq(),
            final(self).spec_absolute_max_freq() == old(self).spec_absolute_max_freq(),
            final(self).spec_current_min_freq() == old(self).spec_current_min_freq(),
            final(self).spec_current_max_freq() == old(self).spec_current_max_freq(),
    {
        match fitting_geometric_edges(self.current_min_freq, self.current_max_freq, self.num_bins) {
            Some(edges) => {
                self.edges = edges;
                true
            },
            None => false,
        }
    }

    /// How the edges stand after the band of `before` has adapted to a measured
    /// band: both ends have moved a tenth of the way towards what was measured,
    /// within the absolute bounds, and the edges are the geometric edges of the
    /// band as it is now.
    pub open spec fn is_adapted_from(&self, before: AdaptiveResultEdges, observed_min: u32, observed_max: u32) -> bool {
        &&& self.spec_num_bins() == before.spec_num_bins()
        &&& self.spec_sample_rate() == before.spec_sample_rate()
        &&& self.spec_absolute_min_freq() == before.spec_absolute_min_freq()
        &&& self.spec_absolute_max_freq() == before.spec_absolute_max_freq()
        &&& self.spec_current_min_freq() == before.adapted_min_freq(observed_min)
        &&& self.spec_current_max_freq() == before.adapted_max_freq(observed_max)
        &&& is_geometric_placement(
            self.edges(),
            self.spec_current_min_freq() as int,
            self.spec_current_max_freq() as int,
            self.spec_num_bins() as int,
        )
    }

    /// Where the lower end of the band lies after it has adapted.
    pub open spec fn adapted_min_freq(&self, observed_min: u32) -> int {
        adapted_bound(
            self.spec_current_min_freq(),
            observed_min,
            self.spec_absolute_min_freq(),
            self.spec_absolute_max_freq(),
        )
    }

    /// Where the upper end of the band lies after it has adapted.
    pub open spec fn adapted_max_freq(&self, observed_max: u32) -> int {
        adapted_bound(
            self.spec_current_max_freq(),
            observed_max,
            self.spec_absolute_min_freq(),
            self.spec_absolute_max_freq(),
        )
    }

    /// Whether the band can adapt to a measured band: its absolute bounds are
    /// in order and the band it would move to has geometric edges that are a
    /// valid placement.
    pub open spec fn can_adapt_to(&self, observed_min: u32, observed_max: u32) -> bool {
        &&& self.spec_absolute_min_freq() <= self.spec_absolute_max_freq()
        &&& geometric_band_fits(
            self.adapted_min_freq(observed_min),
            self.adapted_max_freq(observed_max),
            self.spec_num_bins() as int,
        )
    }

    /// How the edges stand after a measured band has been offered to them for
    /// adaptation: adapted where they can adapt, unchanged where they cannot.
    pub open spec fn follows_adaptation(&self, before: AdaptiveResultEdges, observed_min: u32, observed_max: u32) -> bool {
        if before.can_adapt_to(observed_min, observed_max) {
            self.is_adapted_from(before, observed_min, observed_max)
        } else {
            *self == before
        }
    }

    /// Moves the band a tenth of the way towards a measured band and places
    /// the geometric edges of the band it has moved to. A move that would
    /// leave the band without a valid placement does not take place. The
    /// result says whether the band has adapted.
    pub fn adapt_range(&mut self, observed_min: u32, observed_max: u32) -> (adapted: bool)
        requires
            old(self).wf(),
        ensures
            final(self).wf(),
            adapted == old(self).can_adapt_to(observed_min, observed_max),
            final(self).follows_adaptation(*old(self), observed_min, observed_max),
            adapted ==> final(self).has_edges(),
            old(self).has_edges() ==> final(self).has_edges(),
    {
        if self.absolute_min_freq > self.absolute_max_freq {
            return false;
        }
        let new_min: u32 = adapt_bound(
            self.current_min_freq,
            observed_min,
            self.absolute_min_freq,
            self.absolute_max_freq,
        );
        let new_max: u32 = adapt_bound(
            self.current_max_freq,
            observed_max,
            self.absolute_min_freq,
            self.absolute_max_freq,
        );
        match fitting_geometric_edges(new_min, new_max, self.num_bins) {
            Some(edges) => {
                self.current_min_freq = new_min;
                self.current_max_freq = new_max;
                self.edges = edges;
                true
            },
            None => false,
        }
    }
}

/// Computes the geometric edges of a band where they are a valid placement.
pub fn fitting_geometric_edges(floor: u32, ceiling: u32, num_bins: usize) -> (r: Option<Vec<u32>>)
    ensures
        r is Some <==> geometric_band_fits(floor as int, ceiling as int, num_bins as int),
        r is Some ==> is_geometric_placement(r->0@, floor as int, ceiling as int, num_bins as int)
            && valid_placement(r->0@, num_bins as int, floor as int, ceiling as int),
{
    match geometric_edges(floor, ceiling, num_bins) {
        Some(edges) => {
            proof {
                lemma_geometric_placement_spans_band(
                    edges@,
                    floor as int,
                    ceiling as int,
                    num_bins as int,
                );
                assert forall|other: Seq<u32>| #[trigger]
                    is_geometric_placement(
                        other,
                        floor as int,
                        ceiling as int,
                        num_bins as int,
                    ) implies other == edges@ by {
                    lemma_geometric_placement_unique(
                        other,
                        edges@,
                        floor as int,
                        ceiling as int,
                        num_bins as int,
                    );
                }
            }
            if is_valid_placement(&edges, num_bins, floor, ceiling) {
                Some(edges)
            } else {
                None
            }
        },
        None => None,
    }
}

/// Moves one end of the band a tenth of the way towards `observed`.
pub fn adapt_bound(current: u32, observed: u32, lowest: u32, highest: u32) -> (r: u32)
    requires
        lowest <= highest,
    ensures
        r == adapted_bound(current, observed, lowest, highest),
        lowest <= r <= highest,
{
    let moved: u32 = if observed >= current {
        current + (observed - current) / 10
    } else {
        current - (current - observed) / 10
    };
    if moved < lowest {
        lowest
    } else if moved > highest {
        highest
    } else {
        moved
    }
}

/// Decides whether `edges` are a valid placement.
pub fn is_valid_placement(edges: &Vec<u32>, num_bins: usize, floor: u32, ceiling: u32) -> (valid: bool)
    ensures
        valid == valid_placement(edges@, num_bins as int, floor as int, ceiling as int),
{
    let n: usize = edges.len();
    if n < 3 || n - 3 != num_bins {
        return false;
    }
    if edges[0] < floor || edges[n - 1] > ceiling {
        return false;
    }
    let mut i: usize = 1;
    while i < n
        invariant
            1 <= i <= n,
            n == edges@.len(),
            forall|a: int| 0 <= a < i - 1 ==> edges@[a] < #[trigger] edges@[a + 1],
        decreases n - i,
    {
        if edges[i - 1] >= edges[i] {
            return false;
        }
        i += 1;
    }
    proof {
        lemma_adjacent_steps_increase(edges@);
    }
    true
}

/// Edges whose every step goes up are strictly increasing throughout.
pub proof fn lemma_adjacent_steps_increase(edges: Seq<u32>)
    requires
        forall|a: int| 0 <= a < edges.len() - 1 ==> edges[a] < #[trigger] edges[a + 1],
    ensures
        edges_strictly_increasing(edges),
{
    assert forall|i: int, j: int| 0 <= i < j < edges.len() implies edges[i] < edges[j] by {
        lemma_step_chain(edges, i, j);
    }
}

proof fn lemma_step_chain(edges: Seq<u32>, i: int, j: int)
    requires
        forall|a: int| 0 <= a < edges.len() - 1 ==> edges[a] < #[trigger] edges[a + 1],
        0 <= i < j < edges.len(),
    ensures
        edges[i] < edges[j],
    decreases j - i,
{
    if i + 1 < j {
        lemma_step_chain(edges, i, j - 1);
    }
    assert(edges[j - 1] < edges[j - 1 + 1]);
}

/// Placed edges step up every time, count three more than the bins shown, and
/// lie between the floor and the ceiling frequency of the band.
pub proof fn lemma_placed_edges_within_band(res_edges: AdaptiveResultEdges)
    requires
        res_edges.wf(),
        res_edges.has_edges(),
    ensures
        edges_strictly_increasing(res_edges.edges()),
        res_edges.edges().len() == res_edges.spec_num_bins() + 3,
        res_edges.edges()[0] >= res_edges.spec_current_min_freq() >= res_edges.spec_absolute_min_freq(),
        res_edges.edges()[res_edges.edges().len() - 1] <= res_edges.spec_current_max_freq()
            <= res_edges.spec_absolute_max_freq(),
{
}

} // verus!
