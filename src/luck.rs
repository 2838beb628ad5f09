//! The gap sequencer: a random walk over the vertical position of the next
//! gap, whose step sizes come from a shuffled bag of difficulty tokens.

use crate::random::{draw_in, flip_coin, shuffle_in_place};
use rand::rngs::StdRng;
use std::ops::Range;
use vstd::prelude::*;

verus! {

/// The largest magnitude of a gap position or of a bound of its range.
pub const GAP_LIMIT: i64 = 1_000_000_000_000;

/// The number of tokens in the difficulty bag.
pub const BAG_SIZE: usize = 8;

/// How many shuffles the constructor tries in search of an easy opening.
pub const EASE_IN_ATTEMPTS: u32 = 10_000;

/// The size class of one step of the walk.
#[derive(Clone, Copy, Debug, PartialEq, Eq, Structural)]
pub enum NextGapKind {
    VerySmall,
    Small,
    Medium,
    Large,
    VeryLarge,
}

/// The fraction of the whole range, in thousandths, that a step of the
/// given kind spans at least (`.0`) and at most (`.1`, exclusive).
pub open spec fn kind_fraction(k: NextGapKind) -> (int, int) {
    match k {
        NextGapKind::VerySmall => (100, 200),
        NextGapKind::Small => (200, 300),
        NextGapKind::Medium => (300, 400),
        NextGapKind::Large => (400, 600),
        NextGapKind::VeryLarge => (600, 1000),
    }
}

pub open spec fn is_large(k: NextGapKind) -> bool {
    k == NextGapKind::Large || k == NextGapKind::VeryLarge
}

/// The tokens of a bag, in the order in which they are listed before any
/// shuffle.
pub open spec fn listed_bag() -> Seq<NextGapKind> {
    seq![
        NextGapKind::VerySmall,
        NextGapKind::Small,
        NextGapKind::Small,
        NextGapKind::Medium,
        NextGapKind::Medium,
        NextGapKind::Large,
        NextGapKind::Large,
        NextGapKind::VeryLarge,
    ]
}

impl NextGapKind {
    /// The step range of this kind as thousandths of the whole range.
    pub fn to_range(&self) -> (r: Range<i64>)
        ensures
            r.start == kind_fraction(*self).0,
            r.end == kind_fraction(*self).1,
    {
        match self {
            NextGapKind::VerySmall => 100..200,
            NextGapKind::Small => 200..300,
            NextGapKind::Medium => 300..400,
            NextGapKind::Large => 400..600,
            NextGapKind::VeryLarge => 600..1000,
        }
    }
}

/// A step bound: `fraction` thousandths of the span from `start` to `end`,
/// rounded down.
pub open spec fn scaled(fraction: int, start: int, end: int) -> int {
    fraction * (end - start) / 1000
}

pub open spec fn max_int(a: int, b: int) -> int {
    if a >= b { a } else { b }
}

pub open spec fn min_int(a: int, b: int) -> int {
    if a <= b { a } else { b }
}

/// The interval of positions below `previous` that a step of kind `k`
/// reaches, clipped at `start`: `(low, high)`, high exclusive.
pub open spec fn down_interval(previous: int, k: NextGapKind, start: int, end: int) -> (int, int) {
    let lo = scaled(kind_fraction(k).0, start, end);
    let hi = scaled(kind_fraction(k).1, start, end);
    (max_int(previous - hi, start), max_int(previous - lo, start))
}

/// The interval of positions above `previous` that a step of kind `k`
/// reaches, clipped at `end`: `(low, high)`, high exclusive.
pub open spec fn up_interval(previous: int, k: NextGapKind, start: int, end: int) -> (int, int) {
    let lo = scaled(kind_fraction(k).0, start, end);
    let hi = scaled(kind_fraction(k).1, start, end);
    (min_int(previous + lo, end), min_int(previous + hi, end))
}

/// Both intervals are empty: the step has no room on either side.
pub open spec fn is_degenerate(previous: int, k: NextGapKind, start: int, end: int) -> bool {
    let down = down_interval(previous, k, start, end);
    let up = up_interval(previous, k, start, end);
    down.0 >= down.1 && up.0 >= up.1
}

/// `r` is a possible outcome of one step of kind `k` from `previous`: a
/// position of the one non-empty interval, of either when both are
/// non-empty, and the low end of either when both are empty.
pub open spec fn is_step_outcome(previous: int, k: NextGapKind, start: int, end: int, r: int) -> bool {
    let down = down_interval(previous, k, start, end);
    let up = up_interval(previous, k, start, end);
    let in_down = down.0 <= r < down.1;
    let in_up = up.0 <= r < up.1;
    if up.0 < up.1 && down.0 < down.1 {
        in_up || in_down
    } else if up.0 < up.1 {
        in_up
    } else if down.0 < down.1 {
        in_down
    } else {
        r == up.0 || r == down.0
    }
}

/// What a caller can know of a gap bag.
pub struct GapBagView {
    /// How many tokens of the current shuffle have been read.
    pub index: nat,
    pub start: int,
    pub end: int,
    /// The position that the last step ended on.
    pub previous: int,
    pub contents: Seq<NextGapKind>,
}

impl GapBagView {
    pub open spec fn wf(self) -> bool {
        &&& self.contents.len() == BAG_SIZE
        &&& self.contents.to_multiset() == listed_bag().to_multiset()
        &&& self.index <= BAG_SIZE
        &&& -GAP_LIMIT <= self.start < self.end <= GAP_LIMIT
        &&& -GAP_LIMIT <= self.previous <= GAP_LIMIT
    }

    /// Neither of the first two tokens is of a large kind.
    pub open spec fn eases_in(self) -> bool {
        !is_large(self.contents[0]) && !is_large(self.contents[1])
    }

    /// The token read by the step that led to this state.
    pub open spec fn last_drawn(self) -> NextGapKind {
        self.contents[self.index - 1]
    }

    /// `post` is a state that one step from `self`, returning `r`, may leave:
    /// a used-up bag is reshuffled first, then the token at the cursor
    /// decides the step, and the cursor moves on.
    pub open spec fn steps_to(self, post: GapBagView, r: int) -> bool {
        &&& post.start == self.start
        &&& post.end == self.end
        &&& if self.index >= BAG_SIZE {
            &&& post.index == 1
            &&& post.contents.to_multiset() == self.contents.to_multiset()
        } else {
            &&& post.index == self.index + 1
            &&& post.contents == self.contents
        }
        &&& is_step_outcome(self.previous, post.last_drawn(), self.start, self.end, r)
        &&& post.previous == r
    }
}

/// The generator of gap positions.
pub struct NextGapBag {
    rng: StdRng,
    index: usize,
    range: Range<i64>,
    previous_value: i64,
    contents: Vec<NextGapKind>,
}

impl View for NextGapBag {
    type V = GapBagView;

    closed spec fn view(&self) -> GapBagView {
        GapBagView {
            index: self.index as nat,
            start: self.range.start as int,
            end: self.range.end as int,
            previous: self.previous_value as int,
            contents: self.contents@,
        }
    }
}

fn listed_contents() -> (r: Vec<NextGapKind>)
    ensures
        r@ == listed_bag(),
{
    let r = vec![
        NextGapKind::VerySmall,
        NextGapKind::Small,
        NextGapKind::Small,
        NextGapKind::Medium,
        NextGapKind::Medium,
        NextGapKind::Large,
        NextGapKind::Large,
        NextGapKind::VeryLarge,
    ];
    assert(r@ =~= listed_bag());
    r
}

fn kind_is_large(k: &NextGapKind) -> (r: bool)
    ensures
        r == is_large(*k),
{
    match k {
        NextGapKind::Large | NextGapKind::VeryLarge => true,
        _ => false,
    }
}

/// The down and up intervals of a step of kind `k` from `previous`, as
/// `(down low, down high, up low, up high)`.
fn step_intervals(previous: i64, k: &NextGapKind, start: i64, end: i64) -> (r: (i64, i64, i64, i64))
    requires
        -GAP_LIMIT <= start < end <= GAP_LIMIT,
        -GAP_LIMIT <= previous <= GAP_LIMIT,
    ensures
        (r.0 as int, r.1 as int) == down_interval(previous as int, *k, start as int, end as int),
        (r.2 as int, r.3 as int) == up_interval(previous as int, *k, start as int, end as int),
        start <= r.0,
        r.1 <= GAP_LIMIT,
        -GAP_LIMIT <= r.2,
        r.3 <= end,
{
    let fraction = k.to_range();
    let magnitude = end - start;
    assert(0 <= fraction.start * magnitude <= 1000 * magnitude) by (nonlinear_arith)
        requires
            0 <= fraction.start <= 1000,
            0 < magnitude,
    ;
    assert(0 <= fraction.end * magnitude <= 1000 * magnitude) by (nonlinear_arith)
        requires
            0 <= fraction.end <= 1000,
            0 < magnitude,
    ;
    let lo = fraction.start * magnitude / 1000;
    let hi = fraction.end * magnitude / 1000;
    assert(0 <= lo <= hi <= magnitude) by (nonlinear_arith)
        requires
            lo == fraction.start * magnitude / 1000,
            hi == fraction.end * magnitude / 1000,
            0 <= fraction.start <= fraction.end <= 1000,
            0 < magnitude,
    ;
    let down_min = if previous - hi >= start { previous - hi } else { start };
    let down_max = if previous - lo >= start { previous - lo } else { start };
    let up_min = if previous + lo <= end { previous + lo } else { end };
    let up_max = if previous + hi <= end { previous + hi } else { end };
    (down_min, down_max, up_min, up_max)
}

impl NextGapBag {
    pub open spec fn wf(&self) -> bool {
        self@.wf()
    }

    /// A generator over `range` whose walk starts from `initial_value`,
    /// drawing from `rng`. The bag is shuffled until neither of its first
    /// two tokens is large; should no such shuffle turn up in
    /// `EASE_IN_ATTEMPTS` tries, the bag keeps its listed order, which
    /// opens with the two smallest kinds.
    pub fn new(range: Range<i64>, initial_value: i64, rng: StdRng) -> (r: NextGapBag)
        requires
            -GAP_LIMIT <= range.start < range.end <= GAP_LIMIT,
            -GAP_LIMIT <= initial_value <= GAP_LIMIT,
        ensures
            r.wf(),
            r@.index == 0,
            r@.start == range.start,
            r@.end == range.end,
            r@.previous == initial_value,
            r@.eases_in(),
    {
        let mut rng = rng;
        let mut contents = listed_contents();
        shuffle_in_place(&mut contents, &mut rng);
        let mut attempts: u32 = 0;
        while attempts < EASE_IN_ATTEMPTS && (kind_is_large(&contents[0]) || kind_is_large(
            &contents[1],
        ))
            invariant
                contents@.len() == BAG_SIZE,
                contents@.to_multiset() == listed_bag().to_multiset(),
            decreases EASE_IN_ATTEMPTS - attempts,
        {
            shuffle_in_place(&mut contents, &mut rng);
            attempts = attempts + 1;
        }
        if kind_is_large(&contents[0]) || kind_is_large(&contents[1]) {
            contents = listed_contents();
        }
        NextGapBag { rng, index: 0, range, previous_value: initial_value, contents }
    }

    /// The next gap position. A used-up bag is reshuffled (with no check on
    /// its opening this time); the token at the cursor then gives the step
    /// size, scaled to the range, and the step goes up or down as room
    /// allows.
    pub fn next(&mut self) -> (r: i64)
        requires
            old(self).wf(),
        ensures
            final(self).wf(),
            old(self)@.steps_to(final(self)@, r as int),
    {
        if self.index >= self.contents.len() {
            self.index = 0;
            shuffle_in_place(&mut self.contents, &mut self.rng);
        }
        let kind = self.contents[self.index];
        let (down_min, down_max, up_min, up_max) = step_intervals(
            self.previous_value,
            &kind,
            self.range.start,
            self.range.end,
        );
        let up_empty = up_min >= up_max;
        let down_empty = down_min >= down_max;
        let val = if !up_empty && down_empty {
            draw_in(&mut self.rng, up_min, up_max)
        } else if up_empty && !down_empty {
            draw_in(&mut self.rng, down_min, down_max)
        } else if !up_empty && !down_empty {
            if flip_coin(&mut self.rng) {
                draw_in(&mut self.rng, up_min, up_max)
            } else {
                draw_in(&mut self.rng, down_min, down_max)
            }
        } else {
            if flip_coin(&mut self.rng) {
                up_min
            } else {
                down_min
            }
        };
        self.previous_value = val;
        self.index = self.index + 1;
        val
    }
}

/// Every step from a position inside `[start, end]` ends inside it again,
/// and strictly below `end` unless the step had no room on either side.
pub proof fn lemma_step_in_range(pre: GapBagView, post: GapBagView, r: int)
    requires
        pre.wf(),
        pre.start <= pre.previous <= pre.end,
        pre.steps_to(post, r),
    ensures
        pre.start <= r <= pre.end,
        !is_degenerate(pre.previous, post.last_drawn(), pre.start, pre.end) ==> r < pre.end,
        post.start <= post.previous <= post.end,
{
    let k = post.last_drawn();
    let lo = scaled(kind_fraction(k).0, pre.start, pre.end);
    let hi = scaled(kind_fraction(k).1, pre.start, pre.end);
    assert(0 <= lo <= hi) by (nonlinear_arith)
        requires
            lo == scaled(kind_fraction(k).0, pre.start, pre.end),
            hi == scaled(kind_fraction(k).1, pre.start, pre.end),
            0 <= kind_fraction(k).0 <= kind_fraction(k).1,
            pre.start < pre.end,
    ;
}

/// The first two draws of a freshly built bag are never of a large kind.
pub proof fn lemma_ease_in(
    fresh: GapBagView,
    second: GapBagView,
    third: GapBagView,
    first_draw: int,
    second_draw: int,
)
    requires
        fresh.wf(),
        fresh.index == 0,
        fresh.eases_in(),
        fresh.steps_to(second, first_draw),
        second.steps_to(third, second_draw),
    ensures
        !is_large(second.last_drawn()),
        !is_large(third.last_drawn()),
{
}

} // verus!
