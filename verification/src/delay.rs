//! Frame delays of an animation, stored as runs of equal delays.

use vstd::prelude::*;

verus! {

/// A length of time in whole milliseconds.
#[derive(Clone, Copy, Debug, PartialEq, Eq, Structural)]
pub struct Millis(pub u64);

impl Millis {
    /// The empty length of time.
    pub open spec fn spec_zero() -> Millis {
        Millis(0)
    }

    #[verifier::when_used_as_spec(spec_zero)]
    pub fn zero() -> (r: Millis)
        ensures
            r == Millis(0),
    {
        Millis(0)
    }

    pub fn from_millis(ms: u64) -> (r: Millis)
        ensures
            r == Millis(ms),
    {
        Millis(ms)
    }

    pub fn as_millis(&self) -> (ms: u64)
        ensures
            ms == self.0,
    {
        self.0
    }
}

/// The frames `start..end`, all shown for `delay`.
#[derive(Clone, Copy, Debug, PartialEq, Eq, Structural)]
pub struct DelayRange {
    pub start: u64,
    pub end: u64,
    pub delay: Millis,
}

impl DelayRange {
    pub open spec fn holds(self, frame: int) -> bool {
        self.start <= frame < self.end
    }
}

/// Each range is non-empty and starts where the one before it ends, the first
/// one at frame 0.
pub open spec fn is_chain(ranges: Seq<DelayRange>) -> bool {
    &&& ranges.len() > 0 ==> ranges[0].start == 0
    &&& forall|k: int| 0 <= k < ranges.len() ==> (#[trigger] ranges[k]).start < ranges[k].end
    &&& forall|a: int, b: int|
        0 <= a && b == a + 1 && b < ranges.len() ==> (#[trigger] ranges[a]).end
            == (#[trigger] ranges[b]).start
}

/// The number of frames that a chain of ranges covers.
pub open spec fn covered(ranges: Seq<DelayRange>) -> int {
    if ranges.len() == 0 {
        0
    } else {
        ranges.last().end as int
    }
}

/// The delay of the range that holds `frame`; zero where no range holds it.
pub open spec fn delay_at(ranges: Seq<DelayRange>, frame: int) -> Millis {
    if exists|k: int| 0 <= k < ranges.len() && (#[trigger] ranges[k]).holds(frame) {
        let k = choose|k: int| 0 <= k < ranges.len() && (#[trigger] ranges[k]).holds(frame);
        ranges[k].delay
    } else {
        Millis(0)
    }
}

/// `ranges` are the maximal runs of equal delays in `delays`: a chain over
/// all of its frames, each range with the delay of every frame in it, and
/// neighbouring ranges with different delays.
pub open spec fn is_run_encoding(ranges: Seq<DelayRange>, delays: Seq<Millis>) -> bool {
    &&& is_chain(ranges)
    &&& covered(ranges) == delays.len()
    &&& forall|k: int, i: int|
        0 <= k < ranges.len() && (#[trigger] ranges[k]).holds(i) ==> #[trigger] delays[i]
            == ranges[k].delay
    &&& forall|a: int, b: int|
        0 <= a && b == a + 1 && b < ranges.len() ==> (#[trigger] ranges[a]).delay
            != (#[trigger] ranges[b]).delay
}

/// In a chain an earlier range ends before a later one starts.
pub proof fn lemma_chain_ordered(ranges: Seq<DelayRange>, a: int, b: int)
    requires
        is_chain(ranges),
        0 <= a < b < ranges.len(),
    ensures
        ranges[a].end <= ranges[b].start,
    decreases b - a,
{
    if a + 1 < b {
        lemma_chain_ordered(ranges, a, b - 1);
        assert(ranges[b - 1].start < ranges[b - 1].end);
        assert(ranges[b - 1].end == ranges[b].start);
    } else {
        assert(ranges[a].end == ranges[a + 1].start);
    }
}

/// In a chain at most one range holds a given frame.
pub proof fn lemma_chain_disjoint(ranges: Seq<DelayRange>, a: int, b: int, frame: int)
    requires
        is_chain(ranges),
        0 <= a < ranges.len(),
        0 <= b < ranges.len(),
        ranges[a].holds(frame),
        ranges[b].holds(frame),
    ensures
        a == b,
{
    if a < b {
        lemma_chain_ordered(ranges, a, b);
    } else if b < a {
        lemma_chain_ordered(ranges, b, a);
    }
}

/// A chain leaves no gap: every frame below `covered` lies in some range.
pub proof fn lemma_chain_covers(ranges: Seq<DelayRange>, frame: int) -> (k: int)
    requires
        is_chain(ranges),
        0 <= frame < covered(ranges),
    ensures
        0 <= k < ranges.len(),
        ranges[k].holds(frame),
    decreases ranges.len(),
{
    let last = ranges.len() - 1;
    if ranges[last].start <= frame {
        last
    } else {
        let front = ranges.drop_last();
        assert(ranges[last - 1].end == ranges[last].start);
        assert(is_chain(front)) by {
            assert forall|k: int| 0 <= k < front.len() implies (#[trigger] front[k]).start
                < front[k].end by {
                assert(front[k] == ranges[k]);
            }
            assert forall|a: int, b: int| 0 <= a && b == a + 1 && b < front.len() implies (
            #[trigger] front[a]).end == (#[trigger] front[b]).start by {
                assert(front[a] == ranges[a]);
                assert(front[b] == ranges[b]);
            }
            assert(front[0] == ranges[0]);
        }
        assert(front.last() == ranges[last - 1]);
        let k = lemma_chain_covers(front, frame);
        assert(front[k] == ranges[k]);
        k
    }
}

/// A chain holds no frame at or above `covered`, and none below zero.
pub proof fn lemma_chain_bounds(ranges: Seq<DelayRange>, k: int, frame: int)
    requires
        is_chain(ranges),
        0 <= k < ranges.len(),
        ranges[k].holds(frame),
    ensures
        0 <= frame < covered(ranges),
{
    let last = ranges.len() - 1;
    if k < last {
        lemma_chain_ordered(ranges, k, last);
        assert(ranges[last].start < ranges[last].end);
    }
}

/// Round trip: looking up any frame of the sequence that was encoded gives
/// that frame's delay back.
pub proof fn lemma_round_trip(ranges: Seq<DelayRange>, delays: Seq<Millis>, frame: int)
    requires
        is_run_encoding(ranges, delays),
        0 <= frame < delays.len(),
    ensures
        delay_at(ranges, frame) == delays[frame],
{
    let k = lemma_chain_covers(ranges, frame);
    assert(ranges[k].holds(frame));
}

/// A lookup outside the encoded sequence gives zero.
pub proof fn lemma_out_of_range(ranges: Seq<DelayRange>, frame: int)
    requires
        is_chain(ranges),
        frame < 0 || frame >= covered(ranges),
    ensures
        delay_at(ranges, frame) == Millis(0),
{
    if exists|k: int| 0 <= k < ranges.len() && (#[trigger] ranges[k]).holds(frame) {
        let k = choose|k: int| 0 <= k < ranges.len() && (#[trigger] ranges[k]).holds(frame);
        lemma_chain_bounds(ranges, k, frame);
    }
}

/// The `k`-th range of a chain starts at frame `k` or later.
pub proof fn lemma_chain_start_grows(ranges: Seq<DelayRange>, k: int)
    requires
        is_chain(ranges),
        0 <= k < ranges.len(),
    ensures
        ranges[k].start >= k,
        ranges[k].end >= k + 1,
    decreases k,
{
    if k > 0 {
        lemma_chain_start_grows(ranges, k - 1);
        assert(ranges[k - 1].end == ranges[k].start);
    }
    assert(ranges[k].start < ranges[k].end);
}

/// In a chain of as many ranges as frames, the `k`-th range is frame `k` alone.
proof fn lemma_full_chain_is_unit(ranges: Seq<DelayRange>, k: int)
    requires
        is_chain(ranges),
        covered(ranges) == ranges.len(),
        0 <= k < ranges.len(),
    ensures
        ranges[k].start == k,
        ranges[k].end == k + 1,
    decreases ranges.len() - k,
{
    lemma_chain_start_grows(ranges, k);
    if k + 1 < ranges.len() {
        lemma_full_chain_is_unit(ranges, k + 1);
        assert(ranges[k].end == ranges[k + 1].start);
    }
}

/// An encoding never has more ranges than the sequence has frames.
pub proof fn lemma_no_expansion(ranges: Seq<DelayRange>, delays: Seq<Millis>)
    requires
        is_run_encoding(ranges, delays),
    ensures
        ranges.len() <= delays.len(),
{
    if ranges.len() > 0 {
        lemma_chain_start_grows(ranges, ranges.len() - 1);
    }
}

/// Compression: where two neighbouring frames have the same delay, the
/// encoding has fewer ranges than the sequence has frames.
pub proof fn lemma_compression(ranges: Seq<DelayRange>, delays: Seq<Millis>, i: int)
    requires
        is_run_encoding(ranges, delays),
        0 <= i < delays.len() - 1,
        delays[i] == delays[i + 1],
    ensures
        ranges.len() < delays.len(),
{
    lemma_no_expansion(ranges, delays);
    if ranges.len() == delays.len() {
        lemma_full_chain_is_unit(ranges, i);
        lemma_full_chain_is_unit(ranges, i + 1);
        assert(ranges[i].holds(i));
        assert(ranges[i + 1].holds(i + 1));
        assert(ranges[i].delay != ranges[i + 1].delay);
    }
}

/// The delays of an animation's frames, one range for each run of equal
/// delays.
#[derive(Debug)]
pub struct GifFrameDelay {
    delays: Vec<DelayRange>,
}

impl View for GifFrameDelay {
    type V = Seq<DelayRange>;

    closed spec fn view(&self) -> Seq<DelayRange> {
        self.delays@
    }
}

impl GifFrameDelay {
    #[verifier::type_invariant]
    spec fn chained(self) -> bool {
        is_chain(self.delays@)
    }

    /// The ranges form a chain from frame 0.
    pub open spec fn wf(self) -> bool {
        is_chain(self@)
    }

    /// The number of frames that the ranges cover.
    pub open spec fn spec_frame_count(self) -> int {
        covered(self@)
    }

    /// The delay of `frame`; zero outside the animation.
    pub open spec fn spec_delay(self, frame: int) -> Millis {
        delay_at(self@, frame)
    }

    /// Encodes `delays` as its maximal runs of equal delays. An empty
    /// sequence gives no range at all.
    pub fn from_durations(delays: &Vec<Millis>) -> (r: Self)
        ensures
            r.wf(),
            is_run_encoding(r@, delays@),
            r.spec_frame_count() == delays.len(),
            forall|i: int| 0 <= i < delays.len() ==> r.spec_delay(i) == #[trigger] delays[i],
            r@.len() <= delays.len(),
            (exists|i: int| 0 <= i < delays.len() - 1 && #[trigger] delays[i] == delays[i + 1])
                ==> r@.len() < delays.len(),
    {
        let mut ranges: Vec<DelayRange> = Vec::new();
        if delays.len() == 0 {
            return Self { delays: ranges };
        }
        let mut start: u64 = 0;
        let mut prev: Millis = delays[0];
        let mut index: usize = 1;
        while index < delays.len()
            invariant
                1 <= index <= delays.len(),
                start < index,
                is_chain(ranges@),
                ranges.len() == 0 ==> start == 0,
                ranges.len() > 0 ==> ranges@.last().end == start && ranges@.last().delay != prev,
                forall|k: int, i: int|
                    0 <= k < ranges.len() && (#[trigger] ranges@[k]).holds(i) ==> #[trigger] delays@[i]
                        == ranges@[k].delay,
                forall|a: int, b: int|
                    0 <= a && b == a + 1 && b < ranges.len() ==> (#[trigger] ranges@[a]).delay
                        != (#[trigger] ranges@[b]).delay,
                forall|i: int| start <= i < index ==> #[trigger] delays@[i] == prev,
            decreases delays.len() - index,
        {
            let delay = delays[index];
            if delay.0 != prev.0 {
                ranges.push(DelayRange { start, end: index as u64, delay: prev });
                start = index as u64;
                prev = delay;
            }
            index += 1;
        }
        ranges.push(DelayRange { start, end: delays.len() as u64, delay: prev });
        proof {
            assert forall|i: int| 0 <= i < delays.len() implies delay_at(ranges@, i)
                == #[trigger] delays[i] by {
                lemma_round_trip(ranges@, delays@, i);
            }
            lemma_no_expansion(ranges@, delays@);
            if exists|i: int| 0 <= i < delays.len() - 1 && #[trigger] delays[i] == delays[i + 1] {
                let i = choose|i: int|
                    0 <= i < delays.len() - 1 && #[trigger] delays[i] == delays[i + 1];
                lemma_compression(ranges@, delays@, i);
            }
        }
        Self { delays: ranges }
    }

    /// The delay of `frame`: that of the range which holds it, or zero where
    /// the frame lies outside the animation.
    pub fn get_delay(&self, frame: &u32) -> (delay: Millis)
        ensures
            delay == self.spec_delay(*frame as int),
            *frame >= self.spec_frame_count() ==> delay == Millis(0),
    {
        proof {
            use_type_invariant(self);
        }
        let mut index: usize = 0;
        while index < self.delays.len()
            invariant
                index <= self.delays.len(),
                is_chain(self.delays@),
                forall|k: int| 0 <= k < index ==> !(#[trigger] self.delays@[k]).holds(*frame as int),
            decreases self.delays.len() - index,
        {
            let range = self.delays[index];
            if range.start <= *frame as u64 && (*frame as u64) < range.end {
                proof {
                    let k = choose|k: int|
                        0 <= k < self.delays@.len() && (#[trigger] self.delays@[k]).holds(
                            *frame as int,
                        );
                    lemma_chain_disjoint(self.delays@, k, index as int, *frame as int);
                    lemma_chain_bounds(self.delays@, index as int, *frame as int);
                }
                return range.delay;
            }
            index += 1;
        }
        Millis(0)
    }

    /// The number of ranges.
    pub fn range_count(&self) -> (n: usize)
        ensures
            n == self@.len(),
    {
        self.delays.len()
    }

    /// The number of frames that the ranges cover.
    pub fn frame_count(&self) -> (n: u64)
        ensures
            n == self.spec_frame_count(),
    {
        let n = self.delays.len();
        if n == 0 {
            0
        } else {
            self.delays[n - 1].end
        }
    }

    /// The `index`-th range, in frame order.
    pub fn range(&self, index: usize) -> (r: Option<DelayRange>)
        ensures
            index < self@.len() ==> r == Some(self@[index as int]),
            index >= self@.len() ==> r is None,
    {
        if index < self.delays.len() {
            Some(self.delays[index])
        } else {
            None
        }
    }
}

} // verus!
