//! Compact requests: `name,day,period` places a class, `day,period` clears a
//! slot. A request that cannot be read is refused and changes nothing.

use vstd::prelude::*;
use crate::grid::{class_at, with_placement, without_placement};
use crate::registry::{find_name, names_of, ClassRegistry};
use crate::text::{parse_number, parsed, split, split_on, texts};
use crate::timetable::Timetable;

verus! {

/// A class index with the slot that it is to occupy.
#[derive(Debug, Clone, Copy, PartialEq, Eq, Structural)]
pub struct Placement {
    pub class: usize,
    pub day: usize,
    pub period: usize,
}

/// A slot of the grid.
#[derive(Debug, Clone, Copy, PartialEq, Eq, Structural)]
pub struct Slot {
    pub day: usize,
    pub period: usize,
}

/// Why a request was refused.
#[derive(Debug)]
pub enum Refusal {
    /// The request does not have the expected number of parts.
    IncorrectFormat,
    /// The registry has no class of this name.
    NoSuchClass { name: String },
    /// A day or a period is not a number, or is one too large.
    InvalidNumber,
}

/// A refusal as plain text.
pub enum RefusalView {
    IncorrectFormat,
    NoSuchClass { name: Seq<char> },
    InvalidNumber,
}

impl View for Refusal {
    type V = RefusalView;

    open spec fn view(&self) -> RefusalView {
        match self {
            Refusal::IncorrectFormat => RefusalView::IncorrectFormat,
            Refusal::NoSuchClass { name } => RefusalView::NoSuchClass { name: name@ },
            Refusal::InvalidNumber => RefusalView::InvalidNumber,
        }
    }
}

/// What a placement request asks for: three parts between commas, the name
/// of a class of `names`, a day and a period. The name is looked up before
/// the numbers are read.
pub open spec fn placement_of(names: Seq<Seq<char>>, request: Seq<char>) -> Result<
    Placement,
    RefusalView,
> {
    let parts = split(request, ',');
    if parts.len() != 3 {
        Err(RefusalView::IncorrectFormat)
    } else {
        match find_name(names, parts[0]) {
            None => Err(RefusalView::NoSuchClass { name: parts[0] }),
            Some(class) => match (parsed(parts[1]), parsed(parts[2])) {
                (Some(day), Some(period)) => Ok(Placement { class: class as usize, day, period }),
                _ => Err(RefusalView::InvalidNumber),
            },
        }
    }
}

/// What a removal request asks for: two parts between commas, a day and a
/// period.
pub open spec fn removal_of(request: Seq<char>) -> Result<Slot, RefusalView> {
    let parts = split(request, ',');
    if parts.len() != 2 {
        Err(RefusalView::IncorrectFormat)
    } else {
        match (parsed(parts[0]), parsed(parts[1])) {
            (Some(day), Some(period)) => Ok(Slot { day, period }),
            _ => Err(RefusalView::InvalidNumber),
        }
    }
}

/// Reads a placement request against the classes of `classes`.
pub fn read_placement(classes: &ClassRegistry, request: &str) -> (read: Result<Placement, Refusal>)
    ensures
        match read {
            Ok(placement) => placement_of(classes.names(), request@) == Ok::<
                Placement,
                RefusalView,
            >(placement),
            Err(refusal) => placement_of(classes.names(), request@) == Err::<
                Placement,
                RefusalView,
            >(refusal@),
        },
{
    let parts = split_on(request, ',');
    if parts.len() != 3 {
        return Err(Refusal::IncorrectFormat);
    }
    assert(texts(parts@)[0] == parts@[0]@);
    assert(texts(parts@)[1] == parts@[1]@);
    assert(texts(parts@)[2] == parts@[2]@);
    let class = match classes.find_index(parts[0]) {
        Some(class) => class,
        None => {
            return Err(Refusal::NoSuchClass { name: parts[0].to_owned() });
        },
    };
    let day = match parse_number(parts[1]) {
        Some(day) => day,
        None => {
            return Err(Refusal::InvalidNumber);
        },
    };
    let period = match parse_number(parts[2]) {
        Some(period) => period,
        None => {
            return Err(Refusal::InvalidNumber);
        },
    };
    Ok(Placement { class, day, period })
}

/// Reads a removal request.
pub fn read_removal(request: &str) -> (read: Result<Slot, Refusal>)
    ensures
        match read {
            Ok(slot) => removal_of(request@) == Ok::<Slot, RefusalView>(slot),
            Err(refusal) => removal_of(request@) == Err::<Slot, RefusalView>(refusal@),
        },
{
    let parts = split_on(request, ',');
    if parts.len() != 2 {
        return Err(Refusal::IncorrectFormat);
    }
    assert(texts(parts@)[0] == parts@[0]@);
    assert(texts(parts@)[1] == parts@[1]@);
    let day = match parse_number(parts[0]) {
        Some(day) => day,
        None => {
            return Err(Refusal::InvalidNumber);
        },
    };
    let period = match parse_number(parts[1]) {
        Some(period) => period,
        None => {
            return Err(Refusal::InvalidNumber);
        },
    };
    Ok(Slot { day, period })
}

impl Timetable {
    /// Carries out the placement request `name,day,period`. A refused request
    /// leaves the timetable as it was.
    pub fn place_request(&mut self, request: &str) -> (done: Result<Placement, Refusal>)
        ensures
            final(self)@.classes == old(self)@.classes,
            match done {
                Ok(placement) => {
                    &&& placement_of(names_of(old(self)@.classes), request@) == Ok::<
                        Placement,
                        RefusalView,
                    >(placement)
                    &&& final(self)@.grid == with_placement(
                        old(self)@.grid,
                        placement.class,
                        placement.day,
                        placement.period,
                    )
                },
                Err(refusal) => {
                    &&& placement_of(names_of(old(self)@.classes), request@) == Err::<
                        Placement,
                        RefusalView,
                    >(refusal@)
                    &&& final(self)@.grid == old(self)@.grid
                },
            },
    {
        match read_placement(&self.classes, request) {
            Ok(placement) => {
                self.add_period(placement.class, placement.day, placement.period);
                Ok(placement)
            },
            Err(refusal) => Err(refusal),
        }
    }

    /// Carries out the removal request `day,period` and tells whether the
    /// slot was occupied. A refused request leaves the timetable as it was.
    pub fn remove_request(&mut self, request: &str) -> (done: Result<bool, Refusal>)
        ensures
            final(self)@.classes == old(self)@.classes,
            match done {
                Ok(removed) => removal_of(request@) matches Ok(slot) && removed == class_at(
                    old(self)@.grid,
                    slot.day,
                    slot.period,
                ).is_some() && final(self)@.grid == without_placement(
                    old(self)@.grid,
                    slot.day,
                    slot.period,
                ),
                Err(refusal) => {
                    &&& removal_of(request@) == Err::<Slot, RefusalView>(refusal@)
                    &&& final(self)@.grid == old(self)@.grid
                },
            },
    {
        match read_removal(request) {
            Ok(slot) => Ok(self.remove_period(slot.day, slot.period)),
            Err(refusal) => Err(refusal),
        }
    }
}

} // verus!
