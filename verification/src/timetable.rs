//! The timetable: one class registry and one schedule grid, the unit that is
//! loaded, changed and saved as a whole.

use vstd::prelude::*;
use crate::grid::{class_at, with_placement, without_placement, GridView, ScheduleGrid};
use crate::registry::{find_name, names_of, Class, ClassRegistry, ClassView, NameTaken};

verus! {

/// A timetable: its classes and the slots they occupy.
#[derive(Debug)]
pub struct Timetable {
    pub classes: ClassRegistry,
    pub grid: ScheduleGrid,
}

/// What a timetable holds, as mathematical values.
pub struct TimetableView {
    pub classes: Seq<ClassView>,
    pub grid: GridView,
}

impl View for Timetable {
    type V = TimetableView;

    open spec fn view(&self) -> TimetableView {
        TimetableView { classes: self.classes@, grid: self.grid@ }
    }
}

/// The class that occupies (`day`, `period`): none for a free slot, and none
/// where the slot names a class that the registry does not have.
pub open spec fn occupant(t: TimetableView, day: usize, period: usize) -> Option<ClassView> {
    match class_at(t.grid, day, period) {
        Some(index) => if index < t.classes.len() {
            Some(t.classes[index as int])
        } else {
            None
        },
        None => None,
    }
}

impl Default for Timetable {
    /// The empty timetable.
    fn default() -> (timetable: Timetable)
        ensures
            timetable@.classes == Seq::<ClassView>::empty(),
            timetable@.grid == GridView::empty(),
    {
        Timetable::new()
    }
}

impl Timetable {
    /// An empty timetable: no classes, no days.
    pub fn new() -> (timetable: Timetable)
        ensures
            timetable@.classes == Seq::<ClassView>::empty(),
            timetable@.grid == GridView::empty(),
    {
        Timetable { classes: ClassRegistry::new(), grid: ScheduleGrid::new() }
    }

    /// Adds a class called `name` and gives its index. A name that is taken
    /// is refused and nothing changes.
    pub fn add_class(&mut self, name: String) -> (added: Result<usize, NameTaken>)
        ensures
            final(self)@.grid == old(self)@.grid,
            match added {
                Ok(index) => {
                    &&& find_name(names_of(old(self)@.classes), name@) is None
                    &&& index == old(self)@.classes.len()
                    &&& final(self)@.classes == old(self)@.classes.push(
                        ClassView { name: name@, todo: Seq::<Seq<char>>::empty() },
                    )
                },
                Err(taken) => {
                    &&& find_name(names_of(old(self)@.classes), name@) == Some(
                        taken.index as int,
                    )
                    &&& final(self)@.classes == old(self)@.classes
                },
            },
    {
        self.classes.add_class(name)
    }

    /// The index of the class called `name`, if the registry has it.
    pub fn class_index_from_name(&self, name: &str) -> (found: Option<usize>)
        ensures
            match found {
                Some(i) => find_name(names_of(self@.classes), name@) == Some(i as int),
                None => find_name(names_of(self@.classes), name@) is None,
            },
    {
        self.classes.find_index(name)
    }

    /// The class that occupies (`day`, `period`).
    pub fn get_class(&self, day: usize, period: usize) -> (class: Option<&Class>)
        ensures
            match class {
                Some(c) => occupant(self@, day, period) == Some(c@),
                None => occupant(self@, day, period) is None,
            },
    {
        match self.grid.lookup(day, period) {
            Some(index) => self.classes.get(index),
            None => None,
        }
    }

    /// Puts the class with index `class` at (`day`, `period`), replacing what
    /// was there. The index is taken as given.
    pub fn add_period(&mut self, class: usize, day: usize, period: usize)
        ensures
            final(self)@.classes == old(self)@.classes,
            final(self)@.grid == with_placement(old(self)@.grid, class, day, period),
    {
        self.grid.place(class, day, period);
    }

    /// Clears the slot (`day`, `period`) and tells whether it was occupied.
    pub fn remove_period(&mut self, day: usize, period: usize) -> (removed: bool)
        ensures
            removed == class_at(old(self)@.grid, day, period).is_some(),
            final(self)@.classes == old(self)@.classes,
            final(self)@.grid == without_placement(old(self)@.grid, day, period),
    {
        self.grid.remove(day, period)
    }
}

} // verus!
