//! Chart patterns detected on a series, and the comparisons of highs and lows they rest on.
use vstd::prelude::*;

verus! {

#[derive(Debug, Clone, Copy, PartialEq, Eq, Structural)]
pub enum PatternType {
    TriangleSymmetricalTop,
    TriangleSymmetricalBottom,
    TriangleDescendantTop,
    TriangleDescendantBottom,
    TriangleAscendantTop,
    TriangleAscendantBottom,
    RectangleTop,
    RectangleBottom,
    ChannelUpTop,
    ChannelUpBottom,
    ChannelDownTop,
    ChannelDownBottom,
    BroadeningTop,
    BroadeningBottom,
    DoubleBottom,
    DoubleTop,
    /// No pattern was found.
    NoPattern,
}

/// Whether a pattern was found among local extremes or among the series' extrema.
#[derive(Debug, Clone, Copy, PartialEq, Eq, Structural)]
pub enum PatternSize {
    Local,
    Extrema,
}

/// A point of a pattern: a candle index and a price in ticks.
pub type Point = (usize, i64);

/// A pattern with the points it was found on.
#[derive(Debug, Clone)]
pub struct Pattern {
    pub pattern_type: PatternType,
    pub pattern_size: PatternSize,
    pub data_points: Vec<Point>,
}

/// The patterns found on a series, local ones and extrema ones apart.
pub struct Patterns {
    pub local_patterns: Vec<Pattern>,
    pub extrema_patterns: Vec<Pattern>,
}

impl Patterns {
    pub fn new() -> (r: Patterns)
        ensures
            r.local_patterns.len() == 0,
            r.extrema_patterns.len() == 0,
    {
        Patterns { local_patterns: Vec::new(), extrema_patterns: Vec::new() }
    }

    /// Records a pattern in the list that its size selects.
    pub fn set_pattern(&mut self, data_points: Vec<Point>, pattern_size: PatternSize, pattern_type: PatternType)
        ensures
            pattern_size == PatternSize::Local ==> {
                &&& final(self).extrema_patterns@ == old(self).extrema_patterns@
                &&& final(self).local_patterns.len() == old(self).local_patterns.len() + 1
                &&& final(self).local_patterns@.drop_last() == old(self).local_patterns@
                &&& final(self).local_patterns@.last().pattern_type == pattern_type
                &&& final(self).local_patterns@.last().pattern_size == pattern_size
                &&& final(self).local_patterns@.last().data_points@ == data_points@
            },
            pattern_size == PatternSize::Extrema ==> {
                &&& final(self).local_patterns@ == old(self).local_patterns@
                &&& final(self).extrema_patterns.len() == old(self).extrema_patterns.len() + 1
                &&& final(self).extrema_patterns@.drop_last() == old(self).extrema_patterns@
                &&& final(self).extrema_patterns@.last().pattern_type == pattern_type
                &&& final(self).extrema_patterns@.last().pattern_size == pattern_size
                &&& final(self).extrema_patterns@.last().data_points@ == data_points@
            },
    {
        let p = Pattern { pattern_type, pattern_size, data_points };
        match pattern_size {
            PatternSize::Local => {
                self.local_patterns.push(p);
                assert(self.local_patterns@.drop_last() =~= old(self).local_patterns@);
            },
            PatternSize::Extrema => {
                self.extrema_patterns.push(p);
                assert(self.extrema_patterns@.drop_last() =~= old(self).extrema_patterns@);
            },
        }
    }

    /// The type of the last local pattern found at or before `index`, or `NoPattern`.
    pub fn current_pattern(&self, index: usize) -> (r: PatternType)
        requires
            forall|i: int| 0 <= i < self.local_patterns.len() ==> (#[trigger] self.local_patterns[i]).data_points.len() > 0,
        ensures
            r == current_pattern_of(self.local_patterns@, index as int),
    {
        let mut i: usize = self.local_patterns.len();
        assert(self.local_patterns@.take(i as int) =~= self.local_patterns@);
        while i > 0
            invariant
                i <= self.local_patterns.len(),
                forall|j: int| 0 <= j < self.local_patterns.len() ==> (#[trigger] self.local_patterns[j]).data_points.len() > 0,
                current_pattern_of(self.local_patterns@, index as int) == current_pattern_of(
                    self.local_patterns@.take(i as int),
                    index as int,
                ),
            decreases i,
        {
            let p = &self.local_patterns[i - 1];
            let start = p.data_points[p.data_points.len() - 1].0;
            proof {
                assert(self.local_patterns@.take(i as int).drop_last() =~= self.local_patterns@.take(i - 1));
                assert(self.local_patterns@.take(i as int).last() == *p);
            }
            if start <= index {
                return p.pattern_type;
            }
            i = i - 1;
        }
        PatternType::NoPattern
    }
}

/// The type of the last pattern of `s` whose last point lies at or before `index`.
pub open spec fn current_pattern_of(s: Seq<Pattern>, index: int) -> PatternType
    decreases s.len(),
{
    if s.len() == 0 {
        PatternType::NoPattern
    } else if s.last().data_points@.last().0 <= index {
        s.last().pattern_type
    } else {
        current_pattern_of(s.drop_last(), index)
    }
}

/// Tops (points 0, 2 and 4) rise.
pub open spec fn rising_tops(d: Seq<Point>) -> bool {
    d[0].1 < d[2].1 && d[2].1 < d[4].1
}

/// Tops (points 0, 2 and 4) fall.
pub open spec fn falling_tops(d: Seq<Point>) -> bool {
    d[0].1 > d[2].1 && d[2].1 > d[4].1
}

/// Bottoms (points 1 and 3) rise.
pub open spec fn rising_bottoms(d: Seq<Point>) -> bool {
    d[1].1 < d[3].1
}

/// Bottoms (points 1 and 3) fall.
pub open spec fn falling_bottoms(d: Seq<Point>) -> bool {
    d[1].1 > d[3].1
}

pub fn is_higher_highs_top(data: &Vec<Point>) -> (r: bool)
    requires
        data.len() >= 5,
    ensures
        r == rising_tops(data@),
{
    data[0].1 < data[2].1 && data[2].1 < data[4].1
}

pub fn is_higher_lows_top(data: &Vec<Point>) -> (r: bool)
    requires
        data.len() >= 5,
    ensures
        r == rising_tops(data@),
{
    data[0].1 < data[2].1 && data[2].1 < data[4].1
}

pub fn is_higher_lows_bottom(data: &Vec<Point>) -> (r: bool)
    requires
        data.len() >= 4,
    ensures
        r == rising_bottoms(data@),
{
    data[1].1 < data[3].1
}

pub fn two_increments(data: &Vec<Point>) -> (r: bool)
    requires
        data.len() >= 4,
    ensures
        r == falling_bottoms(data@),
{
    data[1].1 > data[3].1
}

pub fn is_higher_highs_bottom(data: &Vec<Point>) -> (r: bool)
    requires
        data.len() >= 4,
    ensures
        r == rising_bottoms(data@),
{
    data[1].1 < data[3].1
}

pub fn is_lower_highs_top(data: &Vec<Point>) -> (r: bool)
    requires
        data.len() >= 5,
    ensures
        r == falling_tops(data@),
{
    data[0].1 > data[2].1 && data[2].1 > data[4].1
}

pub fn is_lower_highs_bottom(data: &Vec<Point>) -> (r: bool)
    requires
        data.len() >= 4,
    ensures
        r == falling_bottoms(data@),
{
    data[1].1 > data[3].1
}

pub fn is_lower_lows_top(data: &Vec<Point>) -> (r: bool)
    requires
        data.len() >= 5,
    ensures
        r == falling_tops(data@),
{
    data[0].1 > data[2].1 && data[2].1 > data[4].1
}

pub fn is_lower_lows_bottom(data: &Vec<Point>) -> (r: bool)
    requires
        data.len() >= 4,
    ensures
        r == falling_bottoms(data@),
{
    data[1].1 > data[3].1
}

} // verus!
