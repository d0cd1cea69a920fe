//! Value ranges and the classification of how two of them relate.
use vstd::prelude::*;

verus! {

/// How one range relates to another.
#[derive(Clone, Copy, Debug, PartialEq, Eq, Structural)]
pub enum ComparisonResult {
    /// Every value of the first range is larger than every value of the second.
    AlwaysLarger,
    /// Both ranges hold the same single value.
    AlwaysEqual,
    /// Every value of the first range is smaller than every value of the second.
    AlwaysSmaller,
    /// The ranges are not provably ordered.
    Overlapping,
}

impl ComparisonResult {
    /// The classification seen from the other operand.
    pub open spec fn swapped(self) -> ComparisonResult {
        match self {
            ComparisonResult::AlwaysLarger => ComparisonResult::AlwaysSmaller,
            ComparisonResult::AlwaysSmaller => ComparisonResult::AlwaysLarger,
            other => other,
        }
    }
}

/// The values a variable may hold: the span between `start` and `end`, taken
/// in either order. Equal bounds stand for exactly that one value; otherwise
/// the lower bound is included and the upper bound is not.
#[derive(Clone, Copy, Debug, PartialEq, Eq, Structural)]
pub struct ValueRange {
    pub start: usize,
    pub end: usize,
}

impl ValueRange {
    pub fn new(start: usize, end: usize) -> (r: ValueRange)
        ensures
            r.start == start,
            r.end == end,
    {
        ValueRange { start, end }
    }

    /// The smaller bound.
    pub open spec fn low(self) -> int {
        if self.start <= self.end { self.start as int } else { self.end as int }
    }

    /// The larger bound.
    pub open spec fn high(self) -> int {
        if self.start <= self.end { self.end as int } else { self.start as int }
    }

    pub open spec fn is_point(self) -> bool {
        self.start == self.end
    }

    /// Whether `x` is one of the values the range stands for.
    pub open spec fn holds(self, x: int) -> bool {
        if self.is_point() {
            x == self.start
        } else {
            self.low() <= x < self.high()
        }
    }

    pub open spec fn spec_compare(self, other: ValueRange) -> ComparisonResult {
        if self.is_point() && other.is_point() && self.start == other.start {
            ComparisonResult::AlwaysEqual
        } else if self.high() <= other.low() {
            ComparisonResult::AlwaysSmaller
        } else if other.high() <= self.low() {
            ComparisonResult::AlwaysLarger
        } else {
            ComparisonResult::Overlapping
        }
    }

    /// Classifies how `self` relates to `other`. Two single values that
    /// coincide are equal; a range whose upper bound does not exceed the
    /// other's lower bound is smaller (and the reverse larger); anything else
    /// overlaps, including two identical ranges of more than one value.
    pub fn compare(&self, other: &ValueRange) -> (r: ComparisonResult)
        ensures
            r == self.spec_compare(*other),
    {
        let (min_a, max_a) = if self.start <= self.end {
            (self.start, self.end)
        } else {
            (self.end, self.start)
        };
        let (min_b, max_b) = if other.start <= other.end {
            (other.start, other.end)
        } else {
            (other.end, other.start)
        };
        if min_a == max_a && min_b == max_b && min_a == min_b {
            ComparisonResult::AlwaysEqual
        } else if max_a <= min_b {
            ComparisonResult::AlwaysSmaller
        } else if max_b <= min_a {
            ComparisonResult::AlwaysLarger
        } else {
            ComparisonResult::Overlapping
        }
    }
}

/// Comparing in the other order gives the swapped classification: larger and
/// smaller trade places, equal and overlapping stay.
pub proof fn lemma_compare_swap(a: ValueRange, b: ValueRange)
    ensures
        b.spec_compare(a) == a.spec_compare(b).swapped(),
{
}

/// A single value compared with itself is always equal.
pub proof fn lemma_compare_point_reflexive(a: ValueRange)
    requires
        a.is_point(),
    ensures
        a.spec_compare(a) == ComparisonResult::AlwaysEqual,
{
}

/// When every value of `a` is below every value of `b`, `a` is always smaller.
pub proof fn lemma_compare_disjoint_below(a: ValueRange, b: ValueRange)
    requires
        forall|x: int, y: int| a.holds(x) && b.holds(y) ==> x < y,
    ensures
        a.spec_compare(b) == ComparisonResult::AlwaysSmaller,
{
    let x = if a.is_point() { a.start as int } else { a.high() - 1 };
    let y = if b.is_point() { b.start as int } else { b.low() };
    assert(a.holds(x) && b.holds(y));
}

/// Ranges that share a value overlap, unless one of them is a single value
/// lying at the other's lower bound (there the bound test already orders them).
pub proof fn lemma_compare_shared_value(a: ValueRange, b: ValueRange, x: int)
    requires
        a.holds(x),
        b.holds(x),
        !(a.is_point() && a.start == b.low()),
        !(b.is_point() && b.start == a.low()),
    ensures
        a.spec_compare(b) == ComparisonResult::Overlapping,
{
}

} // verus!
