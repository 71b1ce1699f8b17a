//! The stored form of a timetable: the plain values that are written out and
//! read back as a whole, and the passage between them and a timetable.

use vstd::prelude::*;
use std::collections::HashMap;
use crate::grid::{nested_view, GridView, ScheduleGrid};
use crate::registry::{
    distinct, find_name, lemma_find_name, names_of, views_of, Class, ClassRegistry, ClassView,
    NameRepeated,
};
use crate::timetable::{occupant, Timetable, TimetableView};

verus! {

/// A timetable as it is stored: the classes in order, and for each day the
/// class index of each of its periods.
#[derive(Debug)]
pub struct Document {
    pub classes: Vec<Class>,
    pub timetable: HashMap<usize, HashMap<usize, usize>>,
}

/// What a document holds, as mathematical values.
pub struct DocumentView {
    pub classes: Seq<ClassView>,
    pub days: GridView,
}

impl View for Document {
    type V = DocumentView;

    open spec fn view(&self) -> DocumentView {
        DocumentView { classes: views_of(self.classes@), days: nested_view(self.timetable@) }
    }
}

/// The document that stores `t`: its classes and its grid, as they are.
pub open spec fn stored(t: TimetableView) -> DocumentView {
    DocumentView { classes: t.classes, days: t.grid }
}

/// The timetable that `document` stores. A document in which two classes
/// share a name stores none.
pub open spec fn restored(document: DocumentView) -> Option<TimetableView> {
    if distinct(names_of(document.classes)) {
        Some(TimetableView { classes: document.classes, grid: document.days })
    } else {
        None
    }
}

/// Storing a timetable and restoring it gives the timetable back: the same
/// classes in the same order, and the same slots with the same classes. So
/// every name is found at the position it had, and every slot has the
/// occupant it had.
pub proof fn lemma_stored_is_restored(t: TimetableView)
    requires
        distinct(names_of(t.classes)),
    ensures
        restored(stored(t)) == Some(t),
        forall|name: Seq<char>|
            find_name(names_of(restored(stored(t))->0.classes), name) == find_name(
                names_of(t.classes),
                name,
            ),
        forall|day: usize, period: usize|
            occupant(restored(stored(t))->0, day, period) == occupant(t, day, period),
{
}

impl Timetable {
    /// Takes the timetable apart into the document that stores it. The
    /// document is one that `from_document` accepts, and it gives this
    /// timetable back.
    pub fn into_document(self) -> (document: Document)
        ensures
            document@ == stored(self@),
            restored(document@) == Some(self@),
    {
        let classes = self.classes.into_vec();
        let timetable = self.grid.into_days();
        Document { classes, timetable }
    }

    /// Makes the timetable that `document` stores. A document in which two
    /// classes share a name is refused, with the position of the first class
    /// whose name an earlier class already has.
    pub fn from_document(document: Document) -> (made: Result<Timetable, NameRepeated>)
        ensures
            match made {
                Ok(timetable) => restored(document@) == Some(timetable@),
                Err(repeated) => {
                    &&& restored(document@) is None
                    &&& repeated.index < document@.classes.len()
                    &&& distinct(names_of(document@.classes).take(repeated.index as int))
                    &&& find_name(
                        names_of(document@.classes).take(repeated.index as int),
                        document@.classes[repeated.index as int].name,
                    ) is Some
                },
            },
    {
        let ghost names = names_of(document@.classes);
        match ClassRegistry::from_classes(document.classes) {
            Ok(classes) => {
                let grid = ScheduleGrid::from_days(document.timetable);
                Ok(Timetable { classes, grid })
            },
            Err(repeated) => {
                proof {
                    let j = repeated.index as int;
                    let earlier = names.take(j);
                    lemma_find_name(earlier, names[j]);
                    let i = find_name(earlier, names[j])->0;
                    assert(earlier[i] == names[i]);
                    assert(names[i] == names[j]);
                }
                Err(repeated)
            },
        }
    }
}

} // verus!
