//! The schedule grid: which class occupies which (day, period) slot. The
//! grid is sparse, and a day that was ever given a period stays known to the
//! grid even when its last period is removed.

use vstd::prelude::*;
use std::collections::HashMap;
use vstd::std_specs::iter::IteratorSpec;

verus! {

/// The grid as a mathematical map: each known day with its periods, each
/// period with the index of the class that occupies it.
pub type GridView = Map<usize, Map<usize, usize>>;

/// The periods of `day`: none for a day that the grid does not know.
pub open spec fn periods_of(grid: GridView, day: usize) -> Map<usize, usize> {
    if grid.contains_key(day) {
        grid[day]
    } else {
        Map::empty()
    }
}

/// The class at (`day`, `period`), if the slot is occupied.
pub open spec fn class_at(grid: GridView, day: usize, period: usize) -> Option<usize> {
    if periods_of(grid, day).contains_key(period) {
        Some(periods_of(grid, day)[period])
    } else {
        None
    }
}

/// The grid after `class` is placed at (`day`, `period`).
pub open spec fn with_placement(grid: GridView, class: usize, day: usize, period: usize)
    -> GridView {
    grid.insert(day, periods_of(grid, day).insert(period, class))
}

/// The grid after the slot (`day`, `period`) is cleared.
pub open spec fn without_placement(grid: GridView, day: usize, period: usize) -> GridView {
    if grid.contains_key(day) {
        grid.insert(day, grid[day].remove(period))
    } else {
        grid
    }
}

/// Whether some day has `period` occupied.
pub open spec fn is_occupied_period(grid: GridView, period: usize) -> bool {
    exists|day: usize| #[trigger] grid.contains_key(day) && grid[day].contains_key(period)
}

/// The periods that are occupied on some day.
pub open spec fn occupied_periods(grid: GridView) -> Set<usize> {
    Set::new(|period: usize| is_occupied_period(grid, period))
}

/// Whether `x` is the least member of `s`.
pub open spec fn is_least(s: Set<usize>, x: usize) -> bool {
    s.contains(x) && forall|y: usize| s.contains(y) ==> x <= y
}

/// Whether `x` is the greatest member of `s`.
pub open spec fn is_greatest(s: Set<usize>, x: usize) -> bool {
    s.contains(x) && forall|y: usize| s.contains(y) ==> y <= x
}

/// The least member of a set that has one.
pub open spec fn least(s: Set<usize>) -> usize {
    choose|x: usize| is_least(s, x)
}

/// The greatest member of a set that has one.
pub open spec fn greatest(s: Set<usize>) -> usize {
    choose|x: usize| is_greatest(s, x)
}

/// A range of indices, both ends included.
#[derive(Debug, Clone, Copy, PartialEq, Eq, Structural)]
pub struct Span {
    pub min: usize,
    pub max: usize,
}

/// The rectangle that encloses a grid. The day range spans every day that
/// the grid knows, occupied or not; the period range spans the occupied
/// periods and is absent when no day has any.
#[derive(Debug, Clone, Copy, PartialEq, Eq, Structural)]
pub struct BoundingBox {
    pub days: Span,
    pub periods: Option<Span>,
}

/// The bounding box of `grid`: none for a grid without days.
pub open spec fn bounds_of(grid: GridView) -> Option<BoundingBox> {
    if grid.dom() =~= Set::<usize>::empty() {
        None
    } else {
        let occupied = occupied_periods(grid);
        Some(
            BoundingBox {
                days: Span { min: least(grid.dom()), max: greatest(grid.dom()) },
                periods: if occupied =~= Set::<usize>::empty() {
                    None
                } else {
                    Some(Span { min: least(occupied), max: greatest(occupied) })
                },
            },
        )
    }
}

/// Whether `bounds` encloses `grid`: its day range runs from the least to the
/// greatest known day, and its period range from the least to the greatest
/// occupied period, or is absent when no period is occupied.
pub open spec fn encloses(grid: GridView, bounds: BoundingBox) -> bool {
    &&& is_least(grid.dom(), bounds.days.min)
    &&& is_greatest(grid.dom(), bounds.days.max)
    &&& match bounds.periods {
        None => occupied_periods(grid) =~= Set::<usize>::empty(),
        Some(periods) => is_least(occupied_periods(grid), periods.min) && is_greatest(
            occupied_periods(grid),
            periods.max,
        ),
    }
}

/// A set has at most one least and at most one greatest member.
pub proof fn lemma_extremes_unique(s: Set<usize>, lo: usize, hi: usize)
    requires
        is_least(s, lo),
        is_greatest(s, hi),
    ensures
        least(s) == lo,
        greatest(s) == hi,
{
    assert(is_least(s, least(s)));
    assert(is_greatest(s, greatest(s)));
}

/// A class that was placed is found in its slot. Once the slot is cleared it
/// is free, so that clearing it again finds nothing to remove.
pub proof fn lemma_place_lookup_remove(grid: GridView, class: usize, day: usize, period: usize)
    ensures
        class_at(with_placement(grid, class, day, period), day, period) == Some(class),
        class_at(
            without_placement(with_placement(grid, class, day, period), day, period),
            day,
            period,
        ) is None,
        class_at(without_placement(grid, day, period), day, period) is None,
{
}

/// Placing and clearing touch one slot only: every other slot keeps what it
/// had.
pub proof fn lemma_other_slots_kept(
    grid: GridView,
    class: usize,
    day: usize,
    period: usize,
    other_day: usize,
    other_period: usize,
)
    requires
        other_day != day || other_period != period,
    ensures
        class_at(with_placement(grid, class, day, period), other_day, other_period) == class_at(
            grid,
            other_day,
            other_period,
        ),
        class_at(without_placement(grid, day, period), other_day, other_period) == class_at(
            grid,
            other_day,
            other_period,
        ),
{
}

/// A grid without days has no bounding box.
pub proof fn lemma_bounds_of_empty()
    ensures
        bounds_of(GridView::empty()) is None,
{
}

/// The bounding box of a grid with a single placement is that slot alone.
pub proof fn lemma_bounds_of_single(class: usize, day: usize, period: usize)
    ensures
        bounds_of(with_placement(GridView::empty(), class, day, period)) == Some(
            BoundingBox {
                days: Span { min: day, max: day },
                periods: Some(Span { min: period, max: period }),
            },
        ),
{
    let grid = with_placement(GridView::empty(), class, day, period);
    assert(grid.contains_key(day));
    assert(grid[day].contains_key(period));
    assert(grid.dom().contains(day));
    lemma_extremes_unique(grid.dom(), day, day);
    let occupied = occupied_periods(grid);
    assert(is_occupied_period(grid, period));
    assert(occupied.contains(period));
    assert forall|p: usize| occupied.contains(p) implies p == period by {
        let d = choose|d: usize| #[trigger] grid.contains_key(d) && grid[d].contains_key(p);
    }
    lemma_extremes_unique(occupied, period, period);
}

/// The view of a map of hash maps: each inner map by its own view.
pub open spec fn nested_view(days: Map<usize, HashMap<usize, usize>>) -> GridView {
    Map::new(|day: usize| days.contains_key(day), |day: usize| days[day]@)
}

/// The sparse mapping from (day, period) to class index.
#[derive(Debug)]
pub struct ScheduleGrid {
    days: HashMap<usize, HashMap<usize, usize>>,
}

impl View for ScheduleGrid {
    type V = GridView;

    closed spec fn view(&self) -> GridView {
        nested_view(self.days@)
    }
}

/// The keys of `m`, in no particular order.
fn key_list<V>(m: &HashMap<usize, V>) -> (keys: Vec<usize>)
    ensures
        keys@.to_set() == m@.dom(),
{
    let mut keys: Vec<usize> = Vec::new();
    for key in it: m.keys()
        invariant
            it.seq() == m.keys().remaining(),
            keys@ == it.seq().unref().take(it.index()),
    {
        keys.push(*key);
    }
    assert(keys@ =~= m.keys().remaining().unref());
    keys
}

/// The least and the greatest of `keys`.
fn extent(keys: &Vec<usize>) -> (range: Option<Span>)
    ensures
        match range {
            None => keys@.len() == 0,
            Some(span) => is_least(keys@.to_set(), span.min) && is_greatest(
                keys@.to_set(),
                span.max,
            ),
        },
{
    if keys.len() == 0 {
        return None;
    }
    let mut lo: usize = keys[0];
    let mut hi: usize = keys[0];
    let mut i: usize = 1;
    while i < keys.len()
        invariant
            1 <= i <= keys.len(),
            keys@.contains(lo),
            keys@.contains(hi),
            forall|k: int| 0 <= k < i ==> lo <= #[trigger] keys@[k] && keys@[k] <= hi,
        decreases keys.len() - i,
    {
        let key = keys[i];
        if key < lo {
            lo = key;
        }
        if key > hi {
            hi = key;
        }
        i = i + 1;
    }
    Some(Span { min: lo, max: hi })
}

/// The least range that encloses both `range` and `other`.
fn widen(range: Option<Span>, other: Span) -> (wider: Span)
    ensures
        wider == match range {
            None => other,
            Some(span) => Span {
                min: if other.min < span.min {
                    other.min
                } else {
                    span.min
                },
                max: if other.max > span.max {
                    other.max
                } else {
                    span.max
                },
            },
        },
{
    match range {
        None => other,
        Some(span) => Span {
            min: if other.min < span.min {
                other.min
            } else {
                span.min
            },
            max: if other.max > span.max {
                other.max
            } else {
                span.max
            },
        },
    }
}

impl ScheduleGrid {
    /// A grid without days.
    pub fn new() -> (grid: ScheduleGrid)
        ensures
            grid@ == GridView::empty(),
    {
        let grid = ScheduleGrid { days: HashMap::new() };
        assert(grid@ =~= GridView::empty());
        grid
    }

    /// A grid that holds what `days` holds: each day with its periods.
    pub fn from_days(days: HashMap<usize, HashMap<usize, usize>>) -> (grid: ScheduleGrid)
        ensures
            grid@ == nested_view(days@),
    {
        ScheduleGrid { days }
    }

    /// The days of the grid, each with its periods.
    pub fn as_days(&self) -> (days: &HashMap<usize, HashMap<usize, usize>>)
        ensures
            nested_view(days@) == self@,
    {
        &self.days
    }

    /// Gives the days of the grid up, each with its periods.
    pub fn into_days(self) -> (days: HashMap<usize, HashMap<usize, usize>>)
        ensures
            nested_view(days@) == self@,
    {
        self.days
    }

    /// The class at (`day`, `period`), if the slot is occupied.
    pub fn lookup(&self, day: usize, period: usize) -> (class: Option<usize>)
        ensures
            class == class_at(self@, day, period),
    {
        match self.days.get(&day) {
            Some(periods) => match periods.get(&period) {
                Some(class) => Some(*class),
                None => None,
            },
            None => None,
        }
    }

    /// Puts `class` at (`day`, `period`), replacing what was there.
    pub fn place(&mut self, class: usize, day: usize, period: usize)
        ensures
            final(self)@ == with_placement(old(self)@, class, day, period),
    {
        let mut periods = match self.days.remove(&day) {
            Some(periods) => periods,
            None => HashMap::new(),
        };
        periods.insert(period, class);
        self.days.insert(day, periods);
        assert(self@ =~= with_placement(old(self)@, class, day, period));
    }

    /// Clears the slot (`day`, `period`) and tells whether it was occupied.
    pub fn remove(&mut self, day: usize, period: usize) -> (removed: bool)
        ensures
            removed == class_at(old(self)@, day, period).is_some(),
            final(self)@ == without_placement(old(self)@, day, period),
    {
        match self.days.remove(&day) {
            Some(mut periods) => {
                let removed = periods.remove(&period).is_some();
                self.days.insert(day, periods);
                assert(self@ =~= without_placement(old(self)@, day, period));
                removed
            },
            None => {
                assert(self@ =~= without_placement(old(self)@, day, period));
                false
            },
        }
    }

    /// The rectangle of days and periods that encloses the grid.
    pub fn bounding_box(&self) -> (bounds: Option<BoundingBox>)
        ensures
            bounds == bounds_of(self@),
            bounds matches Some(b) ==> encloses(self@, b),
    {
        let day_list = key_list(&self.days);
        let days = match extent(&day_list) {
            Some(span) => span,
            None => {
                assert(self@.dom() =~= Set::<usize>::empty()) by {
                    assert(day_list@.to_set() =~= Set::<usize>::empty());
                }
                return None;
            },
        };
        let mut periods: Option<Span> = None;
        let ghost mut min_day: usize = 0;
        let ghost mut max_day: usize = 0;
        let mut i: usize = 0;
        while i < day_list.len()
            invariant
                i <= day_list.len(),
                day_list@.to_set() == self.days@.dom(),
                match periods {
                    None => forall|k: int, p: usize|
                        0 <= k < i ==> !(#[trigger] self@[day_list@[k]].contains_key(p)),
                    Some(span) => {
                        &&& self@.contains_key(min_day) && self@[min_day].contains_key(span.min)
                        &&& self@.contains_key(max_day) && self@[max_day].contains_key(span.max)
                        &&& forall|k: int, p: usize|
                            0 <= k < i && #[trigger] self@[day_list@[k]].contains_key(p)
                                ==> span.min <= p <= span.max
                    },
                },
            decreases day_list.len() - i,
        {
            let day = day_list[i];
            assert(day_list@.to_set().contains(day));
            let found = self.days.get(&day);
            assert(found is Some);
            if let Some(slots) = found {
                let keys = key_list(slots);
                match extent(&keys) {
                    Some(span) => {
                        assert(keys@.to_set().contains(span.min));
                        assert(keys@.to_set().contains(span.max));
                        periods = Some(widen(periods, span));
                        proof {
                            let wider = periods->0;
                            if wider.min == span.min {
                                min_day = day;
                            }
                            if wider.max == span.max {
                                max_day = day;
                            }
                            assert forall|k: int, p: usize|
                                0 <= k < i + 1 && #[trigger] self@[day_list@[k]].contains_key(
                                    p,
                                ) implies wider.min <= p <= wider.max by {
                                if k == i {
                                    assert(keys@.to_set().contains(p));
                                }
                            }
                        }
                    },
                    None => {
                        assert(keys@.to_set() =~= Set::<usize>::empty());
                        assert(slots@.dom() =~= Set::<usize>::empty());
                    },
                }
            }
            i = i + 1;
        }
        proof {
            let grid = self@;
            assert(grid.dom() =~= day_list@.to_set());
            assert(grid.dom().contains(days.min));
            lemma_extremes_unique(grid.dom(), days.min, days.max);
            let occupied = occupied_periods(grid);
            assert forall|d: usize, p: usize|
                grid.contains_key(d) && grid[d].contains_key(p) implies match periods {
                None => false,
                Some(span) => span.min <= p <= span.max,
            } by {
                assert(day_list@.to_set().contains(d));
                let k = choose|k: int| 0 <= k < day_list@.len() && day_list@[k] == d;
                assert(self@[day_list@[k]].contains_key(p));
            }
            match periods {
                None => {
                    assert(occupied =~= Set::<usize>::empty());
                },
                Some(span) => {
                    assert(grid.contains_key(min_day));
                    assert(grid.contains_key(max_day));
                    assert(occupied.contains(span.min));
                    assert(occupied.contains(span.max));
                    assert forall|p: usize| occupied.contains(p) implies span.min <= p
                        <= span.max by {
                        let d = choose|d: usize| #[trigger]
                            grid.contains_key(d) && grid[d].contains_key(p);
                    }
                    lemma_extremes_unique(occupied, span.min, span.max);
                },
            }
        }
        Some(BoundingBox { days, periods })
    }
}

} // verus!
